//! The states that a search over piles reports: why an A* search stopped,
//! how one of its steps ended, and what is known of a searched pile.
use vstd::prelude::*;

verus! {

/// Why an A* search stopped.
#[derive(Copy, Clone, Debug, PartialEq, Eq, Structural)]
pub enum AStarDoneReason {
    MaxIters,
    FScoreCutoff,
    EmptyQueue,
}

/// How one step of an A* search ended without stopping the search.
#[derive(Copy, Clone, Debug, PartialEq, Eq, Structural)]
pub enum DoneIterResult {
    DepthCutoff,
    ClearedFromState,
    Computed,
}

/// What a search knows of a pile's outcome.
#[derive(Copy, Clone, Debug, PartialEq, Eq, Structural)]
pub enum KnownScore {
    Unknown,
    Lost,
    Win,
}

} // verus!
