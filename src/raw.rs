//! The raw proxy: a stateless adapter whose every call is forwarded to the raw
//! KV client, with the client's outcome turned into a reply.

use vstd::prelude::*;

use crate::status::{read_reply, status_of, write_reply, Code, KvError, Status};

verus! {

/// Forwards raw `get` and `put` calls to a raw KV client `C`.
pub struct ClientProxy<C> {
    client: C,
}

impl<C> ClientProxy<C> {
    /// The client that calls are forwarded to.
    pub closed spec fn kv(&self) -> C {
        self.client
    }

    pub fn new(client: C) -> (r: ClientProxy<C>)
        ensures
            r.kv() == client,
    {
        ClientProxy { client }
    }

    /// The client to make the call with.
    pub fn client(&self) -> (r: &C)
        ensures
            *r == self.kv(),
    {
        &self.client
    }

    /// The reply to a raw `get`, given what the client returned: the stored value
    /// unmodified, `NotFound` when the key holds none, else the classified failure.
    pub fn get_reply(&self, res: Result<Option<Vec<u8>>, KvError>) -> (r: Result<Vec<u8>, Status>)
        ensures
            match res {
                Ok(Some(v)) => r == Ok::<Vec<u8>, Status>(v),
                Ok(None) => r is Err && r->Err_0.code == Code::NotFound,
                Err(e) => r == Err::<Vec<u8>, Status>(status_of(e)),
            },
    {
        read_reply(res)
    }

    /// The reply to a raw `put`, given what the client returned.
    pub fn put_reply(&self, res: Result<(), KvError>) -> (r: Result<(), Status>)
        ensures
            match res {
                Ok(()) => r is Ok,
                Err(e) => r == Err::<(), Status>(status_of(e)),
            },
    {
        write_reply(res)
    }
}

} // verus!
