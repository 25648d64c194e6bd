//! Failure kinds surfaced by the session manager.

use vstd::prelude::*;

verus! {

/// Everything that can go wrong while serving a stream.
#[derive(Debug, Clone)]
pub enum NightfallError {
    /// No session has the given id; the client should drop the stream.
    SessionDoesntExist,
    /// The chunk is not ready yet; the client should retry later.
    ChunkNotDone,
    /// The child process could not be controlled.
    Aborted,
    /// Every profile of the chain has been tried.
    ProfileChainExhausted,
    /// A media segment lacks the boxes a complete fragment has.
    PartialSegment(String),
    /// A file could not be read or written.
    Io(String),
}

impl NightfallError {
    /// Whether this is the structural mismatch that init-segment recovery handles.
    pub open spec fn is_partial(self) -> bool {
        self is PartialSegment
    }

    /// Executable form of [`Self::is_partial`].
    pub fn partial(&self) -> (r: bool)
        ensures
            r == self.is_partial(),
    {
        match self {
            NightfallError::PartialSegment(_) => true,
            _ => false,
        }
    }
}

} // verus!
