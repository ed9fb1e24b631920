//! What the library reads of a layout.

use std::alloc::Layout;
use vstd::prelude::*;

verus! {

#[verifier::external_type_specification]
#[verifier::external_body]
pub struct ExLayout(Layout);

/// The size in bytes that a layout asks for.
pub uninterp spec fn layout_size(layout: Layout) -> usize;

/// The alignment in bytes that a layout asks for.
pub uninterp spec fn layout_align(layout: Layout) -> usize;

/// `Layout::size` of std. The contract gives its result a name and says no
/// more of it.
#[verifier::external_body]
pub(crate) fn size_of_layout(layout: &Layout) -> (size: usize)
    ensures
        size == layout_size(*layout),
{
    layout.size()
}

/// `Layout::align` of std. The contract gives its result a name and says no
/// more of it.
#[verifier::external_body]
pub(crate) fn align_of_layout(layout: &Layout) -> (align: usize)
    ensures
        align == layout_align(*layout),
{
    layout.align()
}

} // verus!
