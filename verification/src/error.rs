use vstd::prelude::*;

verus! {

/// Everything that can go wrong in a list operation.
///
/// Every failure is reported synchronously to the caller; no operation
/// leaves the list metadata or the buffer in an intermediate state.
#[derive(Clone, Copy, Debug, PartialEq, Eq, Structural)]
pub enum ListError {
    /// The buffer is too small to hold the 8-byte header.
    SizeError,
    /// The header bytes are already non-zero, so the buffer was
    /// initialized before.
    StateError,
    /// A logical index is at or past `count`.
    BoundsError,
    /// The buffer is physically full: `count` has reached the capacity
    /// derived from the current buffer length.
    CapacityError,
    /// A structural mutation was attempted while the list's contents are
    /// being relocated to a new buffer.
    MigrationLockError,
    /// Size arithmetic does not fit the native width.
    CalculationFailure,
    /// A record's byte span does not decode to the caller's record type.
    /// The list itself never decodes records; this variant is reserved
    /// for the caller-supplied codec sitting on top of the byte API.
    CodecError,
}

} // verus!
