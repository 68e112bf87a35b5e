//! The error kinds that store operations surface.

use vstd::prelude::*;

verus! {

/// Every failure of a store operation is a pure function of its input and is
/// surfaced immediately; there is no transient or recoverable error class.
#[derive(Clone, Copy, Debug, PartialEq, Eq, Structural)]
pub enum StoreError {
    /// The record cannot be canonically serialized.
    EncodingError,
    /// The address given is structurally malformed.
    InvalidAddressError,
    /// The identity was queried before initialization completed.
    UninitializedError,
    /// The address given is well formed but nothing is stored under it.
    UnknownAddressError,
}

} // verus!
