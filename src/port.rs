//! Choosing the port that the server listens on.

use vstd::prelude::*;

verus! {

/// The first port that is tried.
pub const FIRST_PORT: u16 = 8000;

/// The port after the last one that is tried.
pub const END_PORT: u16 = 9000;

/// The first port in `8000..9000` that `is_available` accepts, trying them in
/// increasing order, or `None` when it accepts none of them.
pub fn get_available_port<F: Fn(u16) -> bool>(is_available: F) -> (r: Option<u16>)
    requires
        forall|p: u16| FIRST_PORT <= p < END_PORT ==> is_available.requires((p,)),
    ensures
        match r {
            Some(p) => {
                &&& FIRST_PORT <= p < END_PORT
                &&& is_available.ensures((p,), true)
                &&& forall|q: u16| FIRST_PORT <= q < p ==> is_available.ensures((q,), false)
            },
            None => forall|q: u16| FIRST_PORT <= q < END_PORT ==> is_available.ensures((q,), false),
        },
{
    let mut port: u16 = FIRST_PORT;
    while port < END_PORT
        invariant
            FIRST_PORT <= port <= END_PORT,
            forall|p: u16| FIRST_PORT <= p < END_PORT ==> is_available.requires((p,)),
            forall|q: u16| FIRST_PORT <= q < port ==> is_available.ensures((q,), false),
        decreases END_PORT - port,
    {
        if is_available(port) {
            return Some(port);
        }
        port = port + 1;
    }
    None
}

} // verus!
