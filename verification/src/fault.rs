//! The conditions under which the simulation cannot go on.

use vstd::prelude::*;

verus! {

/// A defect in how the simulation is driven. None of these can be recovered
/// from: each one means that a rule of scheduling was broken upstream, and the
/// caller is expected to stop loudly.
#[derive(Clone, Copy, Debug, PartialEq, Eq, Structural)]
pub enum Fault {
    /// More than one move attempt was made within one tick.
    MultipleMoveAttempts,
    /// More than one validated move was pending within one tick.
    MultipleMoves,
    /// More than one agent ended its glide within one tick.
    MultipleMovementEvents,
    /// The agent that ended its glide is not the one whose turn it is.
    WrongMover,
    /// An agent that is referred to, or that must exist exactly once, was not
    /// found.
    MissingAgent,
    /// A recorded move was replayed and did not pass validation.
    ReplayRejected,
}

} // verus!
