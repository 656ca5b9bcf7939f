use vstd::prelude::*;

verus! {

/// The ways an operation of this library can refuse its input.
#[derive(Debug, Clone, Copy, PartialEq, Eq, Structural)]
pub enum NruError {
    /// A page count or a page size that is not positive.
    InvalidSize,
    /// A page number outside `[0, page_count)`.
    OutOfRange,
    /// A linear address outside `[0, page_count * page_size)`.
    AddressOutOfRange,
    /// A victim was asked for while no page is classified.
    NoPages,
}

} // verus!
