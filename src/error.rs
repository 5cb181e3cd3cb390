use vstd::prelude::*;

verus! {

/// The pool could not be built: a pool needs at least one worker.
#[derive(Debug, Clone, Copy, PartialEq, Eq, Structural)]
pub enum ConstructionError {
    ZeroSize,
}

/// A job was refused: no worker will ever take it, because the pool is
/// shutting down or has shut down.
#[derive(Debug, Clone, Copy, PartialEq, Eq, Structural)]
pub enum SubmissionError {
    NoLiveWorker,
}

} // verus!
