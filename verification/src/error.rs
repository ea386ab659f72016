//! The ways in which a drawing call can fail.

use vstd::prelude::*;

verus! {

#[derive(Clone, Copy, Debug, PartialEq, Eq, Structural)]
pub enum DrawError {
    /// `restore` without a matching `save`.
    StackImbalance,
    /// The bytes of an image are in no supported raster format.
    Decode,
    /// The atlas has no rectangle for a resource.
    ResourceUnavailable,
    /// The operation is outside of what this library draws.
    Unsupported,
    /// A batch holds more records than a pipeline's buffer.
    Capacity,
}

} // verus!
