//! Short lists that are collected while one primitive is prepared. They live on the stack, in
//! `SmallVec`s, for up to eight items.
use vstd::prelude::*;

use smallvec::SmallVec;

use crate::model::BrushSegment;

verus! {

/// Handles of render tasks, in the order in which they were requested.
#[verifier::external_body]
pub struct HandleList {
    items: SmallVec<[u64; 8]>,
}

/// Segments of a brush, in the order in which they were built.
#[verifier::external_body]
pub struct SegmentList {
    items: SmallVec<[BrushSegment; 8]>,
}

/// The items of a list of handles, in order.
pub uninterp spec fn handle_items(list: HandleList) -> Seq<u64>;

/// The items of a list of segments, in order.
pub uninterp spec fn segment_items(list: SegmentList) -> Seq<BrushSegment>;

/// `SmallVec::new`: the list has no items.
#[verifier::external_body]
pub(crate) fn new_handles() -> (list: HandleList)
    ensures
        handle_items(list) == Seq::<u64>::empty(),
{
    HandleList { items: SmallVec::new() }
}

/// `SmallVec::push`: the item is added at the end and the others stay. That the address space runs
/// out while the list grows is left out of account, as it is for `Vec`.
#[verifier::external_body]
pub(crate) fn push_handle(list: &mut HandleList, handle: u64)
    ensures
        handle_items(*final(list)) == handle_items(*old(list)).push(handle),
{
    list.items.push(handle)
}

/// `SmallVec::len`: the number of items.
#[verifier::external_body]
pub(crate) fn handle_count(list: &HandleList) -> (n: usize)
    ensures
        n == handle_items(*list).len(),
{
    list.items.len()
}

/// `SmallVec::into_vec`: a vector of the same items in the same order.
#[verifier::external_body]
pub(crate) fn handles_into_vec(list: HandleList) -> (items: Vec<u64>)
    ensures
        items@ == handle_items(list),
{
    list.items.into_vec()
}

/// `SmallVec::new`: the list has no items.
#[verifier::external_body]
pub(crate) fn new_segments() -> (list: SegmentList)
    ensures
        segment_items(list) == Seq::<BrushSegment>::empty(),
{
    SegmentList { items: SmallVec::new() }
}

/// `SmallVec::push`: the item is added at the end and the others stay. That the address space runs
/// out while the list grows is left out of account, as it is for `Vec`.
#[verifier::external_body]
pub(crate) fn push_segment(list: &mut SegmentList, segment: BrushSegment)
    ensures
        segment_items(*final(list)) == segment_items(*old(list)).push(segment),
{
    list.items.push(segment)
}

/// `SmallVec::len`: the number of items.
#[verifier::external_body]
pub(crate) fn segment_count(list: &SegmentList) -> (n: usize)
    ensures
        n == segment_items(*list).len(),
{
    list.items.len()
}

/// `SmallVec::into_vec`: a vector of the same items in the same order.
#[verifier::external_body]
pub(crate) fn segments_into_vec(list: SegmentList) -> (items: Vec<BrushSegment>)
    ensures
        items@ == segment_items(list),
{
    list.items.into_vec()
}

} // verus!
