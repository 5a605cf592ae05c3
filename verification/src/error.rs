use vstd::prelude::*;

verus! {

/// Why an operation was refused.
#[derive(Clone, Copy, Debug, PartialEq, Eq, Structural)]
pub enum BpmError {
    /// A new fingerprint arrived while the registry was already full.
    CapacityExceeded,
    /// A track index at or beyond the number of registered tracks.
    OutOfRange,
    /// A fingerprint that is absent or is not valid UTF-8.
    InvalidEncoding,
    /// An epoch value that names no calendar instant.
    InvalidTimestamp,
    /// A null buffer address at the ownership boundary.
    NullPointer,
    /// A buffer address that is not on loan: released before, or never handed out.
    DoubleRelease,
}

} // verus!
