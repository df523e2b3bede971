//! The transaction session manager: a registry of live transaction handles keyed
//! by session id, the id allocator, and each session's lifecycle
//! (begun, then any number of reads and writes, then committed or rolled back).
//!
//! A handle is lent out for the length of one call into the KV client and put
//! back afterwards, so that a caller holding the manager behind a lock needs the
//! lock only to take and return handles, not across the client's network calls.
//! A second call on a session whose handle is out is refused with `Aborted`.
//!
//! Ids are allocated under `&mut self`, so two `begin_txn` calls never race for
//! one id. When every id has been handed out, the new handle is given back
//! rather than dropped, so that it can be rolled back.

use std::collections::{BTreeMap, BTreeSet};
use vstd::laws_cmp::obeys_cmp;
use vstd::prelude::*;

use crate::status::{classify, status_of, Code, KvError, Status};

verus! {

broadcast use vstd::std_specs::btree::group_btree_axioms, vstd::laws_cmp::group_laws_cmp;

/// The largest session id.
pub const MAX_TXN_ID: u32 = 4294967295;

/// Why `begin_txn` handed out no session id.
pub enum BeginError<T> {
    /// The client failed to start the transaction.
    Client(Status),
    /// Every session id has been handed out. The new handle is given back so
    /// that the caller can roll it back.
    IdsExhausted(T),
}

/// How one operation moved the id counter: `Some(id)` hands out the counter's
/// value and advances it by one, `None` leaves it where it was.
pub open spec fn counter_step(before: nat, after: nat, handed: Option<u32>) -> bool {
    match handed {
        Some(id) => id == before && after == before + 1,
        None => after == before,
    }
}

/// The session id that a `begin_txn` result hands out, if any.
pub open spec fn handed_out<T>(r: Result<u32, BeginError<T>>) -> Option<u32> {
    match r {
        Ok(id) => Some(id),
        Err(_) => None,
    }
}

/// Owns the transaction client `C` and the live sessions' handles `T`.
pub struct ClientProxy<C, T> {
    client: C,
    txns: BTreeMap<u32, T>,
    lent: BTreeSet<u32>,
    next_txn_id: u64,
}

impl<C, T> ClientProxy<C, T> {
    /// The client that new transactions are started with.
    pub closed spec fn kv(&self) -> C {
        self.client
    }

    /// The live sessions whose handle is in the registry.
    pub closed spec fn sessions(&self) -> Map<u32, T> {
        self.txns@
    }

    /// The live sessions whose handle is lent out for a call.
    pub closed spec fn lent(&self) -> Set<u32> {
        self.lent@
    }

    /// The session id that the next successful `begin_txn` hands out.
    pub closed spec fn next_id(&self) -> nat {
        self.next_txn_id as nat
    }

    /// Whether `id` names a session that has begun and not yet ended.
    pub open spec fn is_live(&self, id: u32) -> bool {
        self.sessions().contains_key(id) || self.lent().contains(id)
    }

    /// Whether `id` was handed out and its session has ended.
    pub open spec fn retired(&self, id: u32) -> bool {
        id < self.next_id() && !self.is_live(id)
    }

    /// Ids are handed out from 1 upwards; only ids handed out are live, and a
    /// live session's handle is either in the registry or lent out, not both.
    pub closed spec fn wf(&self) -> bool {
        &&& 1 <= self.next_txn_id <= MAX_TXN_ID as nat + 1
        &&& forall|id: u32| #[trigger] self.txns@.contains_key(id) ==> 1 <= id < self.next_txn_id
        &&& forall|id: u32| #[trigger] self.lent@.contains(id) ==> 1 <= id < self.next_txn_id
        &&& forall|id: u32| !(#[trigger] self.txns@.contains_key(id) && self.lent@.contains(id))
    }

    /// What `wf` says, over the model.
    pub proof fn lemma_wf(&self)
        requires
            self.wf(),
        ensures
            1 <= self.next_id() <= MAX_TXN_ID as nat + 1,
            forall|id: u32| #[trigger] self.is_live(id) ==> 1 <= id < self.next_id(),
            forall|id: u32| !(#[trigger] self.sessions().contains_key(id) && self.lent().contains(id)),
    {
    }

    /// What a call on session `id` is refused with, or `None` when its handle is
    /// in the registry.
    pub open spec fn refusal(&self, id: u32) -> Option<Code> {
        if self.sessions().contains_key(id) {
            None
        } else if self.lent().contains(id) {
            Some(Code::Aborted)
        } else {
            Some(Code::ProtocolViolation)
        }
    }

    /// Every id retired before is still retired in `later`.
    pub open spec fn keeps_retired(&self, later: Self) -> bool {
        forall|id: u32| #[trigger] self.retired(id) ==> later.retired(id)
    }

    /// `after` has the same sessions, lent handles and counter as `self`.
    pub open spec fn same_sessions(&self, after: Self) -> bool {
        &&& after.sessions() == self.sessions()
        &&& after.lent() == self.lent()
        &&& after.next_id() == self.next_id()
    }

    /// `checkout(id)` took `before` to `after` and returned `r`.
    pub open spec fn checkout_step(before: Self, after: Self, id: u32, r: Result<T, Status>) -> bool {
        match before.refusal(id) {
            None => {
                &&& r == Ok::<T, Status>(before.sessions()[id])
                &&& after.sessions() == before.sessions().remove(id)
                &&& after.lent() == before.lent().insert(id)
                &&& after.next_id() == before.next_id()
            },
            Some(code) => {
                &&& r is Err
                &&& r->Err_0.code == code
                &&& before.same_sessions(after)
            },
        }
    }

    /// `checkin(id, txn)` took `before` to `after` and returned `r`.
    pub open spec fn checkin_step(before: Self, after: Self, id: u32, txn: T, r: Result<(), T>) -> bool {
        if before.lent().contains(id) {
            &&& r is Ok
            &&& after.sessions() == before.sessions().insert(id, txn)
            &&& after.lent() == before.lent().remove(id)
            &&& after.next_id() == before.next_id()
        } else {
            &&& r == Err::<(), T>(txn)
            &&& before.same_sessions(after)
        }
    }

    /// `finish(id)` took `before` to `after` and returned `r`.
    pub open spec fn finish_step(before: Self, after: Self, id: u32, r: Result<T, Status>) -> bool {
        match before.refusal(id) {
            None => {
                &&& r == Ok::<T, Status>(before.sessions()[id])
                &&& after.sessions() == before.sessions().remove(id)
                &&& after.lent() == before.lent()
                &&& after.next_id() == before.next_id()
            },
            Some(code) => {
                &&& r is Err
                &&& r->Err_0.code == code
                &&& before.same_sessions(after)
            },
        }
    }

    /// A manager with no sessions, whose first session id will be 1.
    pub fn new(client: C) -> (r: ClientProxy<C, T>)
        ensures
            r.wf(),
            r.kv() == client,
            r.sessions() == Map::<u32, T>::empty(),
            r.lent() == Set::<u32>::empty(),
            r.next_id() == 1,
    {
        ClientProxy { client, txns: BTreeMap::new(), lent: BTreeSet::new(), next_txn_id: 1 }
    }

    /// The client to start a new transaction with.
    pub fn client(&self) -> (r: &C)
        ensures
            *r == self.kv(),
    {
        &self.client
    }

    /// Registers a newly started transaction under the next session id, given what
    /// the client returned when asked to start it. A failed start is classified and
    /// changes nothing.
    pub fn begin_txn(&mut self, res: Result<T, KvError>) -> (r: Result<u32, BeginError<T>>)
        requires
            old(self).wf(),
        ensures
            final(self).wf(),
            final(self).kv() == old(self).kv(),
            old(self).keeps_retired(*final(self)),
            counter_step(old(self).next_id(), final(self).next_id(), handed_out(r)),
            match r {
                Ok(id) => !old(self).is_live(id) && !old(self).retired(id),
                Err(_) => old(self).same_sessions(*final(self)),
            },
            match res {
                Err(e) => r == Err::<u32, BeginError<T>>(BeginError::Client(status_of(e))),
                Ok(txn) => if old(self).next_id() <= MAX_TXN_ID as nat {
                    &&& r == Ok::<u32, BeginError<T>>(old(self).next_id() as u32)
                    &&& final(self).sessions() == old(self).sessions().insert(
                        old(self).next_id() as u32,
                        txn,
                    )
                    &&& final(self).lent() == old(self).lent()
                } else {
                    r == Err::<u32, BeginError<T>>(BeginError::IdsExhausted(txn))
                },
            },
    {
        proof {
            assert(obeys_cmp::<u32>());
        }
        match res {
            Err(e) => Err(BeginError::Client(classify(e))),
            Ok(txn) => {
                if self.next_txn_id > MAX_TXN_ID as u64 {
                    return Err(BeginError::IdsExhausted(txn));
                }
                let id = self.next_txn_id as u32;
                self.txns.insert(id, txn);
                self.next_txn_id = self.next_txn_id + 1;
                Ok(id)
            },
        }
    }

    /// Lends out session `txn_id`'s handle for a read or a write. An id that is
    /// not live is refused with `ProtocolViolation`; one whose handle is already
    /// out, with `Aborted`.
    pub fn checkout(&mut self, txn_id: u32) -> (r: Result<T, Status>)
        requires
            old(self).wf(),
        ensures
            final(self).wf(),
            final(self).kv() == old(self).kv(),
            old(self).keeps_retired(*final(self)),
            counter_step(old(self).next_id(), final(self).next_id(), None),
            Self::checkout_step(*old(self), *final(self), txn_id, r),
    {
        proof {
            assert(obeys_cmp::<u32>());
        }
        match self.txns.remove(&txn_id) {
            Some(txn) => {
                self.lent.insert(txn_id);
                Ok(txn)
            },
            None => {
                assert(self.txns@ =~= old(self).txns@);
                if self.lent.contains(&txn_id) {
                    Err(
                        Status {
                            code: Code::Aborted,
                            message: "the session is in use by another call".to_owned(),
                        },
                    )
                } else {
                    Err(
                        Status {
                            code: Code::ProtocolViolation,
                            message: "no live session has this id".to_owned(),
                        },
                    )
                }
            },
        }
    }

    /// Puts a lent handle back under its session id. A handle for an id that is
    /// not lent out is handed back unchanged.
    pub fn checkin(&mut self, txn_id: u32, txn: T) -> (r: Result<(), T>)
        requires
            old(self).wf(),
        ensures
            final(self).wf(),
            final(self).kv() == old(self).kv(),
            old(self).keeps_retired(*final(self)),
            counter_step(old(self).next_id(), final(self).next_id(), None),
            Self::checkin_step(*old(self), *final(self), txn_id, txn, r),
    {
        proof {
            assert(obeys_cmp::<u32>());
        }
        if self.lent.remove(&txn_id) {
            self.txns.insert(txn_id, txn);
            Ok(())
        } else {
            assert(self.lent@ =~= old(self).lent@);
            Err(txn)
        }
    }

    /// Ends session `txn_id` for a commit or a rollback: its handle leaves the
    /// registry for good, whatever the outcome of the call made with it. Refusals
    /// are as for `checkout`.
    pub fn finish(&mut self, txn_id: u32) -> (r: Result<T, Status>)
        requires
            old(self).wf(),
        ensures
            final(self).wf(),
            final(self).kv() == old(self).kv(),
            old(self).keeps_retired(*final(self)),
            counter_step(old(self).next_id(), final(self).next_id(), None),
            Self::finish_step(*old(self), *final(self), txn_id, r),
            r is Ok ==> final(self).retired(txn_id),
    {
        proof {
            assert(obeys_cmp::<u32>());
        }
        if self.lent.contains(&txn_id) {
            return Err(
                Status {
                    code: Code::Aborted,
                    message: "the session is in use by another call".to_owned(),
                },
            );
        }
        match self.txns.remove(&txn_id) {
            Some(txn) => Ok(txn),
            None => {
                assert(self.txns@ =~= old(self).txns@);
                Err(
                    Status {
                        code: Code::ProtocolViolation,
                        message: "no live session has this id".to_owned(),
                    },
                )
            },
        }
    }
    /// The handle put back under a session id is the one that the next call on that
    /// id is lent, so a read sees the writes made earlier in the same session.
    pub proof fn lemma_checkin_then_checkout(
        a: Self,
        b: Self,
        c: Self,
        id: u32,
        txn: T,
        put_back: Result<(), T>,
        lent_out: Result<T, Status>,
    )
        requires
            a.lent().contains(id),
            Self::checkin_step(a, b, id, txn, put_back),
            Self::checkout_step(b, c, id, lent_out),
        ensures
            put_back is Ok,
            lent_out == Ok::<T, Status>(txn),
    {
    }

    /// Once a session has been finished by a commit or a rollback, its id is
    /// refused with `ProtocolViolation` in every later state of any run of
    /// operations: a run is a sequence of states in which each keeps the ids
    /// that the one before had retired, as every operation does.
    pub proof fn lemma_finished_stays_refused(
        before: Self,
        run: Seq<Self>,
        id: u32,
        taken: Result<T, Status>,
    )
        requires
            before.wf(),
            run.len() >= 1,
            Self::finish_step(before, run[0], id, taken),
            taken is Ok,
            forall|i: int| 0 <= i < run.len() - 1 ==> #[trigger] run[i].keeps_retired(run[i + 1]),
        ensures
            forall|i: int| 0 <= i < run.len() ==> #[trigger] run[i].refusal(id) == Some(Code::ProtocolViolation),
    {
        before.lemma_wf();
        assert(run[0].retired(id));
        assert forall|i: int| 0 <= i < run.len() implies #[trigger] run[i].refusal(id) == Some(
            Code::ProtocolViolation,
        ) by {
            Self::lemma_retired_along(run, id, i);
        }
    }

    /// An id retired in the first state of a run is retired in its `k`-th.
    proof fn lemma_retired_along(run: Seq<Self>, id: u32, k: int)
        requires
            0 <= k < run.len(),
            run[0].retired(id),
            forall|i: int| 0 <= i < run.len() - 1 ==> #[trigger] run[i].keeps_retired(run[i + 1]),
        ensures
            run[k].retired(id),
        decreases k,
    {
        if k > 0 {
            Self::lemma_retired_along(run, id, k - 1);
            let j = k - 1;
            assert(run[j].keeps_retired(run[j + 1]));
            assert(run[j].retired(id));
        }
    }
}

/// The session ids that successful `begin_txn` calls hand out along any run of
/// operations are pairwise distinct, so they are exactly as many as the calls. A
/// run is given by the id counter in each state and what each operation handed
/// out; every operation moves the counter by `counter_step`.
pub proof fn lemma_ids_distinct(counters: Seq<nat>, handed: Seq<Option<u32>>)
    requires
        counters.len() == handed.len() + 1,
        forall|i: int| 0 <= i < handed.len() ==> counter_step(counters[i], counters[i + 1], #[trigger] handed[i]),
    ensures
        forall|i: int, j: int|
            0 <= i < j < handed.len() && handed[i] is Some && handed[j] is Some ==> #[trigger] handed[i] != #[trigger] handed[j],
{
    assert forall|i: int, j: int| 0 <= i < j < handed.len() && handed[i] is Some && handed[j] is Some implies #[trigger] handed[i] != #[trigger] handed[j] by {
        lemma_counter_grows(counters, handed, i + 1, j);
        assert(counter_step(counters[i], counters[i + 1], handed[i]));
        assert(counter_step(counters[j], counters[j + 1], handed[j]));
    }
}

/// The counter never goes down along a run.
proof fn lemma_counter_grows(counters: Seq<nat>, handed: Seq<Option<u32>>, i: int, j: int)
    requires
        counters.len() == handed.len() + 1,
        forall|k: int| 0 <= k < handed.len() ==> counter_step(counters[k], counters[k + 1], #[trigger] handed[k]),
        0 <= i <= j < counters.len(),
    ensures
        counters[i] <= counters[j],
    decreases j - i,
{
    if i < j {
        lemma_counter_grows(counters, handed, i, j - 1);
        assert(counter_step(counters[j - 1], counters[j], handed[j - 1]));
    }
}

} // verus!
