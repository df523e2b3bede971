use std::collections::BTreeMap;
use std::sync::Mutex;

use tikv_proxy::port::get_available_port;
use tikv_proxy::raw::ClientProxy as RawClientProxy;
use tikv_proxy::status::{classify, read_reply, write_reply, Code, ErrorKind, KvError, Status};
use tikv_proxy::txn::{BeginError, ClientProxy as TxnClientProxy};

/// A transaction that keeps its writes in memory, failing writes with a set kind.
struct MockTxn {
    data: BTreeMap<Vec<u8>, Vec<u8>>,
    fail_put: Option<ErrorKind>,
}

impl MockTxn {
    fn new() -> MockTxn {
        MockTxn { data: BTreeMap::new(), fail_put: None }
    }

    fn get(&self, key: &[u8]) -> Result<Option<Vec<u8>>, KvError> {
        Ok(self.data.get(key).cloned())
    }

    fn put(&mut self, key: &[u8], value: &[u8]) -> Result<(), KvError> {
        match self.fail_put {
            Some(kind) => Err(err(kind)),
            None => {
                self.data.insert(key.to_vec(), value.to_vec());
                Ok(())
            }
        }
    }
}

fn err(kind: ErrorKind) -> KvError {
    KvError { kind, detail: format!("{:?} happened", kind) }
}

fn code_of<T>(r: Result<T, Status>) -> Code {
    match r {
        Ok(_) => panic!("expected a failure"),
        Err(s) => s.code,
    }
}

fn begin(p: &mut TxnClientProxy<(), MockTxn>, txn: MockTxn) -> u32 {
    match p.begin_txn(Ok(txn)) {
        Ok(id) => id,
        Err(_) => panic!("begin failed"),
    }
}

fn txn_get(p: &mut TxnClientProxy<(), MockTxn>, id: u32, key: &[u8]) -> Result<Vec<u8>, Status> {
    let txn = p.checkout(id)?;
    let res = txn.get(key);
    assert!(p.checkin(id, txn).is_ok());
    read_reply(res)
}

fn txn_put(p: &mut TxnClientProxy<(), MockTxn>, id: u32, key: &[u8], value: &[u8]) -> Result<(), Status> {
    let mut txn = p.checkout(id)?;
    let res = txn.put(key, value);
    assert!(p.checkin(id, txn).is_ok());
    write_reply(res)
}

fn txn_commit(p: &mut TxnClientProxy<(), MockTxn>, id: u32) -> Result<(), Status> {
    let _txn = p.finish(id)?;
    write_reply(Ok(()))
}

#[test]
fn ambiguous_kinds_are_unknown() {
    for kind in [ErrorKind::Io, ErrorKind::Grpc, ErrorKind::Undetermined, ErrorKind::Multiple, ErrorKind::Internal] {
        assert_eq!(classify(err(kind)).code, Code::Unknown);
    }
}

#[test]
fn definite_kinds_are_aborted() {
    for kind in [ErrorKind::Conflict, ErrorKind::AlreadyFinalized, ErrorKind::KeyRange, ErrorKind::Other] {
        assert_eq!(classify(err(kind)).code, Code::Aborted);
    }
}

#[test]
fn classify_keeps_the_cause() {
    let s = classify(KvError { kind: ErrorKind::Conflict, detail: "write conflict on k".to_string() });
    assert_eq!(s.message, "write conflict on k");
}

#[test]
fn raw_get_missing_key_is_not_found() {
    let proxy = RawClientProxy::new(());
    assert_eq!(code_of(proxy.get_reply(Ok(None))), Code::NotFound);
}

#[test]
fn raw_get_returns_value_unmodified() {
    let proxy = RawClientProxy::new(());
    let value = vec![0u8, 159, 146, 150, 7];
    assert_eq!(proxy.get_reply(Ok(Some(value.clone()))).ok(), Some(value));
}

#[test]
fn raw_get_failure_is_classified() {
    let proxy = RawClientProxy::new(());
    assert_eq!(code_of(proxy.get_reply(Err(err(ErrorKind::Grpc)))), Code::Unknown);
    assert_eq!(code_of(proxy.get_reply(Err(err(ErrorKind::KeyRange)))), Code::Aborted);
}

#[test]
fn raw_put_reply() {
    let proxy = RawClientProxy::new(5u8);
    assert_eq!(*proxy.client(), 5u8);
    assert!(proxy.put_reply(Ok(())).is_ok());
    assert_eq!(code_of(proxy.put_reply(Err(err(ErrorKind::Undetermined)))), Code::Unknown);
    assert_eq!(code_of(proxy.put_reply(Err(err(ErrorKind::Conflict)))), Code::Aborted);
}

#[test]
fn put_undetermined_is_unknown_and_conflict_is_aborted() {
    let mut p: TxnClientProxy<(), MockTxn> = TxnClientProxy::new(());
    let a = begin(&mut p, MockTxn { data: BTreeMap::new(), fail_put: Some(ErrorKind::Undetermined) });
    let b = begin(&mut p, MockTxn { data: BTreeMap::new(), fail_put: Some(ErrorKind::Conflict) });
    assert_eq!(code_of(txn_put(&mut p, a, b"k", b"v")), Code::Unknown);
    assert_eq!(code_of(txn_put(&mut p, b, b"k", b"v")), Code::Aborted);
}

#[test]
fn begin_put_get_commit_scenario() {
    let mut p: TxnClientProxy<(), MockTxn> = TxnClientProxy::new(());
    let id = begin(&mut p, MockTxn::new());
    assert_eq!(id, 1);
    assert!(txn_put(&mut p, 1, b"a", b"b").is_ok());
    assert_eq!(txn_get(&mut p, 1, b"a").ok(), Some(b"b".to_vec()));
    assert!(txn_commit(&mut p, 1).is_ok());
    assert_eq!(code_of(txn_get(&mut p, 1, b"a")), Code::ProtocolViolation);
}

#[test]
fn read_your_writes() {
    let mut p: TxnClientProxy<(), MockTxn> = TxnClientProxy::new(());
    let id = begin(&mut p, MockTxn::new());
    assert_eq!(code_of(txn_get(&mut p, id, b"x")), Code::NotFound);
    assert!(txn_put(&mut p, id, b"x", b"1").is_ok());
    assert!(txn_put(&mut p, id, b"x", b"2").is_ok());
    assert_eq!(txn_get(&mut p, id, b"x").ok(), Some(b"2".to_vec()));
}

#[test]
fn rollback_removes_the_session() {
    let mut p: TxnClientProxy<(), MockTxn> = TxnClientProxy::new(());
    let id = begin(&mut p, MockTxn::new());
    assert!(p.finish(id).is_ok());
    assert_eq!(code_of(p.checkout(id)), Code::ProtocolViolation);
    assert_eq!(code_of(p.finish(id)), Code::ProtocolViolation);
    assert_eq!(begin(&mut p, MockTxn::new()), 2);
}

#[test]
fn unknown_session_is_protocol_violation() {
    let mut p: TxnClientProxy<(), MockTxn> = TxnClientProxy::new(());
    assert_eq!(code_of(p.checkout(1)), Code::ProtocolViolation);
    assert_eq!(code_of(p.finish(0)), Code::ProtocolViolation);
}

#[test]
fn two_concurrent_begins_get_distinct_ids() {
    let shared: Mutex<TxnClientProxy<(), MockTxn>> = Mutex::new(TxnClientProxy::new(()));
    let first = begin(&mut shared.lock().unwrap(), MockTxn::new());
    let second = begin(&mut shared.lock().unwrap(), MockTxn::new());
    let mut ids = vec![first, second];
    ids.sort();
    assert_eq!(ids, vec![1, 2]);
}

#[test]
fn failed_begin_uses_no_id() {
    let mut p: TxnClientProxy<(), MockTxn> = TxnClientProxy::new(());
    match p.begin_txn(Err(err(ErrorKind::Grpc))) {
        Err(BeginError::Client(s)) => assert_eq!(s.code, Code::Unknown),
        _ => panic!("expected a client failure"),
    }
    match p.begin_txn(Err(err(ErrorKind::Other))) {
        Err(BeginError::Client(s)) => assert_eq!(s.code, Code::Aborted),
        _ => panic!("expected a client failure"),
    }
    assert_eq!(begin(&mut p, MockTxn::new()), 1);
}

#[test]
fn handle_in_use_is_refused() {
    let mut p: TxnClientProxy<(), MockTxn> = TxnClientProxy::new(());
    let id = begin(&mut p, MockTxn::new());
    let txn = p.checkout(id).ok().unwrap();
    assert_eq!(code_of(p.checkout(id)), Code::Aborted);
    assert_eq!(code_of(p.finish(id)), Code::Aborted);
    assert!(p.checkin(id, txn).is_ok());
    assert!(p.finish(id).is_ok());
}

#[test]
fn checkin_of_unlent_id_hands_back() {
    let mut p: TxnClientProxy<(), MockTxn> = TxnClientProxy::new(());
    let id = begin(&mut p, MockTxn::new());
    let mut stray = MockTxn::new();
    stray.data.insert(b"s".to_vec(), b"t".to_vec());
    match p.checkin(id, stray) {
        Err(back) => assert_eq!(back.data.get(&b"s".to_vec()[..]), Some(&b"t".to_vec())),
        Ok(()) => panic!("an id that is not lent out must refuse a handle"),
    }
    assert_eq!(code_of(txn_get(&mut p, id, b"s")), Code::NotFound);
}

#[test]
fn first_available_port_is_chosen() {
    assert_eq!(get_available_port(|p: u16| p >= 8005), Some(8005));
    assert_eq!(get_available_port(|_p: u16| true), Some(8000));
    assert_eq!(get_available_port(|p: u16| p == 8999), Some(8999));
}

#[test]
fn no_available_port() {
    assert_eq!(get_available_port(|_p: u16| false), None);
}
