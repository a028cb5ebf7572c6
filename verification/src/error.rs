//! Error handling.

use vstd::prelude::*;

verus! {

/// An error.
#[non_exhaustive]
#[derive(Clone, Debug, PartialEq, Eq)]
pub enum Error {
    /// No such script is defined.
    NoSuchScript,
    /// The value is not the type of a system descriptor.
    InvalidDescriptorType(u8),
    /// The memory map names no usable memory.
    NoAvailableMemory,
    /// An address computed from the memory map does not fit the machine word.
    AddressOverflow,
    /// Two usable regions of the memory map claim the same frame.
    OverlappingRegions,
    /// Other error.
    Other(&'static str),
}

} // verus!
