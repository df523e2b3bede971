//! The classifier that turns KV client failures into the small status vocabulary
//! that callers see, and the replies built from a client call's outcome.

use vstd::prelude::*;

verus! {

/// The kind of a KV client failure, as far as classification needs to tell it.
#[derive(Clone, Copy, Debug, PartialEq, Eq, Structural)]
pub enum ErrorKind {
    /// An I/O failure on the way to the cluster.
    Io,
    /// A failure of the transport or RPC layer.
    Grpc,
    /// The client could not determine whether the operation took effect.
    Undetermined,
    /// Several failures collected together.
    Multiple,
    /// A generic internal error of the client.
    Internal,
    /// A logical conflict with another transaction.
    Conflict,
    /// The transaction was already committed or rolled back.
    AlreadyFinalized,
    /// A key outside the allowed range.
    KeyRange,
    /// Any other definite failure.
    Other,
}

/// A failure reported by the KV client: its kind and a description of its cause.
pub struct KvError {
    pub kind: ErrorKind,
    pub detail: String,
}

/// The status vocabulary that callers see on a failed call.
#[derive(Clone, Copy, Debug, PartialEq, Eq, Structural)]
pub enum Code {
    /// A read succeeded but found no value.
    NotFound,
    /// The operation definitely did not take effect; retrying is safe.
    Aborted,
    /// The operation's effect is not known; the caller must reconcile.
    Unknown,
    /// The call named a session id that is not live.
    ProtocolViolation,
}

/// A failed call's status: its code and a readable message naming the cause.
pub struct Status {
    pub code: Code,
    pub message: String,
}

/// Kinds after which the caller cannot know whether the operation took effect.
pub open spec fn is_ambiguous(kind: ErrorKind) -> bool {
    matches!(kind,
        ErrorKind::Io | ErrorKind::Grpc | ErrorKind::Undetermined | ErrorKind::Multiple
        | ErrorKind::Internal)
}

/// The code that a failure of the given kind is reported with.
pub open spec fn code_of(kind: ErrorKind) -> Code {
    if is_ambiguous(kind) {
        Code::Unknown
    } else {
        Code::Aborted
    }
}

/// The status that a KV client failure is reported with.
pub open spec fn status_of(err: KvError) -> Status {
    Status { code: code_of(err.kind), message: err.detail }
}

/// What a read reports, given the client's outcome.
pub open spec fn read_outcome(res: Result<Option<Vec<u8>>, KvError>) -> Result<Seq<u8>, Code> {
    match res {
        Ok(Some(v)) => Ok(v@),
        Ok(None) => Err(Code::NotFound),
        Err(e) => Err(code_of(e.kind)),
    }
}

impl ErrorKind {
    /// Whether a failure of this kind leaves the operation's effect unknown.
    pub fn is_ambiguous(&self) -> (r: bool)
        ensures
            r == is_ambiguous(*self),
    {
        match self {
            ErrorKind::Io | ErrorKind::Grpc | ErrorKind::Undetermined | ErrorKind::Multiple
            | ErrorKind::Internal => true,
            _ => false,
        }
    }
}

/// Classifies a KV client failure: ambiguous kinds become `Unknown`, every other
/// kind `Aborted`; the cause is kept as the message.
pub fn classify(err: KvError) -> (r: Status)
    ensures
        r == status_of(err),
{
    let code = if err.kind.is_ambiguous() {
        Code::Unknown
    } else {
        Code::Aborted
    };
    Status { code, message: err.detail }
}

/// The reply to a read: the value unmodified, `NotFound` when there is none, or
/// the classified failure.
pub fn read_reply(res: Result<Option<Vec<u8>>, KvError>) -> (r: Result<Vec<u8>, Status>)
    ensures
        match res {
            Ok(Some(v)) => r == Ok::<Vec<u8>, Status>(v),
            Ok(None) => r is Err && r->Err_0.code == Code::NotFound,
            Err(e) => r == Err::<Vec<u8>, Status>(status_of(e)),
        },
        match r {
            Ok(v) => read_outcome(res) == Ok::<Seq<u8>, Code>(v@),
            Err(s) => read_outcome(res) == Err::<Seq<u8>, Code>(s.code),
        },
{
    match res {
        Ok(Some(v)) => Ok(v),
        Ok(None) => Err(Status { code: Code::NotFound, message: "key is not found".to_owned() }),
        Err(e) => Err(classify(e)),
    }
}

/// The reply to a write, a commit or a rollback: success, or the classified failure.
pub fn write_reply(res: Result<(), KvError>) -> (r: Result<(), Status>)
    ensures
        match res {
            Ok(()) => r is Ok,
            Err(e) => r == Err::<(), Status>(status_of(e)),
        },
{
    match res {
        Ok(()) => Ok(()),
        Err(e) => Err(classify(e)),
    }
}

} // verus!
