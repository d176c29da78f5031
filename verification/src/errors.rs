use vstd::prelude::*;

verus! {

/// The failure classes that an external caller may observe.  Every failed
/// operation is reported as exactly one of these; raw internal messages
/// never cross the channel.
#[derive(Clone, Copy, Debug, PartialEq, Eq, Structural)]
pub enum ApiError {
    /// The named pod or container does not exist (or was removed).
    NotFound,
    /// The operation is not allowed in the current lifecycle state, or a
    /// conflicting operation on the same object is already in progress.
    StateConflict,
    /// The peer endpoint is gone, the in-flight bound is reached, or the
    /// request timed out: the service cannot answer right now.
    Unavailable,
    /// Any other internal failure.
    Internal,
}

} // verus!
