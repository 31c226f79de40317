//! Choosing the local port: ports are tried upward from a base port until one
//! can be bound, and the scan gives up past the last port.

use vstd::prelude::*;
use crate::error::SequencerError;

verus! {

/// The first port tried.
pub const BASE_PORT: u16 = 8000;

/// What to do after trying to bind one port.
#[derive(Debug, Clone, Copy, PartialEq, Eq, Structural)]
pub enum BindStep {
    /// The port was bound: keep it.
    Bound(u16),
    /// The port was taken: try this one next.
    Next(u16),
    /// The last port was taken too: there is none left.
    Exhausted,
}

/// The decision after trying to bind `port`: keep it if that worked, else
/// move to the next port, or give up when `port` was the last one.
pub fn after_bind_attempt(port: u16, bound: bool) -> (r: BindStep)
    ensures
        bound ==> r == BindStep::Bound(port),
        !bound && port < u16::MAX ==> r == BindStep::Next((port + 1) as u16),
        !bound && port == u16::MAX ==> r == BindStep::Exhausted,
{
    if bound {
        BindStep::Bound(port)
    } else if port < u16::MAX {
        BindStep::Next(port + 1)
    } else {
        BindStep::Exhausted
    }
}

/// Whether `port` is among `taken`.
fn is_taken(taken: &Vec<u16>, port: u16) -> (r: bool)
    ensures
        r == taken@.contains(port),
{
    let mut i: usize = 0;
    while i < taken.len()
        invariant
            i <= taken@.len(),
            forall|j: int| 0 <= j < i ==> taken@[j] != port,
        decreases taken@.len() - i,
    {
        if taken[i] == port {
            return true;
        }
        i = i + 1;
    }
    false
}

/// The port that the scan from `base` settles on when the ports in `taken`
/// cannot be bound and all others can: the lowest free port from `base` up,
/// or `BindExhausted` when every port from `base` to 65535 is taken. The scan
/// tries each port at most once, so it always ends.
pub fn first_free_port(base: u16, taken: &Vec<u16>) -> (r: Result<u16, SequencerError>)
    ensures
        r is Ok ==> ({
            let p = r->Ok_0;
            &&& base <= p
            &&& !taken@.contains(p)
            &&& forall|q: u16| base <= q < p ==> taken@.contains(q)
        }),
        r is Err ==> r == Err::<u16, SequencerError>(SequencerError::BindExhausted),
        r is Err <==> forall|q: u16| base <= q ==> taken@.contains(q),
{
    let mut port: u16 = base;
    loop
        invariant
            base <= port,
            forall|q: u16| base <= q < port ==> taken@.contains(q),
        decreases u16::MAX - port,
    {
        let free = !is_taken(taken, port);
        match after_bind_attempt(port, free) {
            BindStep::Bound(p) => {
                proof {
                    assert(!(base <= port ==> taken@.contains(port)));
                }
                return Ok(p);
            },
            BindStep::Next(next) => {
                port = next;
            },
            BindStep::Exhausted => {
                proof {
                    assert forall|q: u16| base <= q implies taken@.contains(q) by {
                        if q < port {
                        } else {
                            assert(q == port);
                        }
                    }
                }
                return Err(SequencerError::BindExhausted);
            },
        }
    }
}

} // verus!
