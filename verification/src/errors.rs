use vstd::prelude::*;

verus! {

/// Why a multiplexer operation failed.
///
/// `Os` carries the raw error code reported by the operating system (0 when
/// the OS reported a failure without a code); it is propagated verbatim,
/// never interpreted or retried.
#[derive(Clone, Copy, PartialEq, Eq, Structural, Debug)]
pub enum PollError {
    /// The descriptor lies outside the readiness-set capacity.
    InvalidInput,
    /// The descriptor is already registered for a requested direction.
    AlreadyExists,
    /// The underlying OS primitive failed with this error code.
    Os(i32),
}

} // verus!
