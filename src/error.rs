//! The error kinds of the translation layer.

use vstd::prelude::*;

verus! {

/// What can go wrong when an address is resolved against an image.
#[derive(Clone, Copy, Debug, PartialEq, Eq, Structural)]
pub enum Error {
    /// The address is unmapped, the range leaves the backing buffer, a length
    /// computation would overflow, or the requested directory is absent.
    OutOfBounds,
}

} // verus!
