//! Outcomes of one non-blocking operation, and how two of them combine.
use vstd::prelude::*;

verus! {

/// The outcome of one non-blocking operation.
#[derive(Debug, PartialEq, Eq)]
pub enum Outcome<E> {
    /// The operation completed.
    Done,
    /// The operation cannot progress now; nothing changed.
    WouldBlock,
    /// The operation failed.
    Failed(E),
}

/// The outcome of a receive followed by a send in one tick: an error of
/// either side wins (the receive's first), both blocked is blocked, and
/// otherwise the tick made progress.
pub open spec fn combined<E>(recv: Outcome<E>, send: Outcome<E>) -> Outcome<E> {
    match (recv, send) {
        (Outcome::Failed(e), _) => Outcome::Failed(e),
        (_, Outcome::Failed(e)) => Outcome::Failed(e),
        (Outcome::WouldBlock, Outcome::WouldBlock) => Outcome::WouldBlock,
        _ => Outcome::Done,
    }
}

/// Combines the outcomes of the receive and the send of one tick.
pub fn loop_outcome<E>(recv: Outcome<E>, send: Outcome<E>) -> (r: Outcome<E>)
    ensures
        r == combined(recv, send),
{
    match (recv, send) {
        (Outcome::Failed(e), _) => Outcome::Failed(e),
        (_, Outcome::Failed(e)) => Outcome::Failed(e),
        (Outcome::WouldBlock, Outcome::WouldBlock) => Outcome::WouldBlock,
        _ => Outcome::Done,
    }
}

} // verus!
