//! What the comparisons of numbers and sizes, the formulas and the views mean.
use vstd::prelude::*;

use crate::clip_rect::MaskPlacement;
use crate::clip_task::BrushClipped;
use crate::geometry::{floor, minus, negate, over, plus, times, value, Expr, Size};
use crate::gradient::GradientRun;
use crate::model::{
    ClipMaskKind, IndexRange, PrimitiveCluster, PrimitiveInstance, PrimitiveList,
    PrimitiveScratchBuffer, TaskId, Work,
};
use crate::pass::{Prepared, PrimOutcome};
use crate::scalar::Scalar;
use crate::tiles::Tiled;

verus! {

/// The magnitude of a number, by its encoding without the sign.
pub open spec fn magnitude(a: Scalar) -> int {
    if a.bits >= 0x8000_0000 {
        a.bits - 0x8000_0000
    } else {
        a.bits as int
    }
}

/// Whether the sign of a number is set.
pub open spec fn signed(a: Scalar) -> bool {
    a.bits >= 0x8000_0000
}

/// A number is less than another by the encodings: without signs the smaller encoding is less, with
/// signs the larger magnitude is, and a number with the sign set is less than one without unless
/// both are zero. What exceeds the encoding of infinity is not a number and compares with nothing.
pub proof fn numbers_compare_by_their_encodings(a: Scalar, b: Scalar)
    ensures
        a.nan() == (magnitude(a) > 0x7f80_0000),
        a.nan() || b.nan() ==> !a.less(b) && !a.at_most(b) && !a.same(b),
        !a.nan() && !b.nan() ==> {
            &&& a.less(b) == if signed(a) && signed(b) {
                magnitude(a) > magnitude(b)
            } else if signed(a) {
                magnitude(a) > 0 || magnitude(b) > 0
            } else if signed(b) {
                false
            } else {
                magnitude(a) < magnitude(b)
            }
            &&& a.same(b) == ((magnitude(a) == 0 && magnitude(b) == 0) || a.bits == b.bits)
            &&& a.at_most(b) == (a.less(b) || a.same(b))
            &&& a.less(b) || a.same(b) || b.less(a)
        },
{
}

/// The larger and the smaller of two numbers: one that is not a number gives way to the other, and
/// of two that are the same it is the first.
pub proof fn larger_and_smaller_are_of_the_two(a: Scalar, b: Scalar)
    ensures
        a.nan() ==> a.larger(b) == b && a.smaller(b) == b,
        b.nan() && !a.nan() ==> a.larger(b) == a && a.smaller(b) == a,
        a.less(b) ==> a.larger(b) == b && a.smaller(b) == a,
        b.less(a) ==> a.larger(b) == a && a.smaller(b) == b,
        a.same(b) ==> a.larger(b) == a && a.smaller(b) == a,
{
}

/// A size is empty unless both extents are above zero, zero if both are zero, and covers another if
/// neither extent of the other is more.
pub proof fn sizes_compare_by_both_extents(a: Size, b: Size)
    ensures
        ({
            let zero = Scalar { bits: 0 };
            &&& a.empty() == !(zero.less(a.width) && zero.less(a.height))
            &&& a.zero() == (a.width.same(zero) && a.height.same(zero))
            &&& a.covers(b) == (b.width.at_most(a.width) && b.height.at_most(a.height))
        }),
{
}

/// A range is vacant unless it begins before its end.
pub proof fn range_is_vacant_without_positions(r: IndexRange)
    ensures
        r.vacant() <==> !(r.start < r.end),
{
}

/// A formula is made of the operation that its name says, on its operands in order.
pub proof fn formulas_are_what_they_are_called(a: Expr, b: Expr, s: Scalar)
    ensures
        value(s) == Expr::Value(s),
        plus(a, b) == Expr::Plus(Box::new(a), Box::new(b)),
        minus(a, b) == Expr::Minus(Box::new(a), Box::new(b)),
        times(a, b) == Expr::Times(Box::new(a), Box::new(b)),
        over(a, b) == Expr::Over(Box::new(a), Box::new(b)),
        negate(a) == Expr::Negate(Box::new(a)),
        floor(a) == Expr::Floor(Box::new(a)),
{
}

/// What is shown of a primitive is all that it holds.
pub proof fn primitive_shows_all_it_holds(a: PrimitiveInstance)
    ensures
        a@.id == a.id,
        a@.is_chased == a.is_chased,
        a@.kind == a.kind,
        a@.local_clip_rect == a.local_clip_rect,
        a@.visibility_info == a.visibility_info,
        a@.segment_instance_index == a.segment_instance_index,
        a@.segments_are_valid == a.segments_are_valid,
        a@.cache_handle == a.cache_handle,
        a@.cache_handles == a.cache_handles,
        a@.cache_segments == a.cache_segments@,
        a@.visible_tiles_range == a.visible_tiles_range,
        a@.children == a.children@,
{
}

/// What is shown of a list is all of its clusters in order, with all of their primitives in order.
pub proof fn list_shows_all_it_holds(l: PrimitiveList)
    ensures
        l@.len() == l.clusters@.len(),
        forall|i: int|
            0 <= i < l.clusters@.len() ==> {
                &&& (#[trigger] l@[i]).spatial_node_index == l.clusters@[i].spatial_node_index
                &&& l@[i].first == l.clusters@[i].first
                &&& l@[i].prim_instances.len() == l.clusters@[i].prim_instances@.len()
                &&& forall|j: int|
                    0 <= j < l.clusters@[i].prim_instances@.len() ==> (
                    #[trigger] l@[i].prim_instances[j]) == l.clusters@[i].prim_instances@[j]@
            },
{
    assert forall|i: int| 0 <= i < l.clusters@.len() implies {
        &&& (#[trigger] l@[i]).spatial_node_index == l.clusters@[i].spatial_node_index
        &&& l@[i].first == l.clusters@[i].first
        &&& l@[i].prim_instances.len() == l.clusters@[i].prim_instances@.len()
        &&& forall|j: int|
            0 <= j < l.clusters@[i].prim_instances@.len() ==> (
            #[trigger] l@[i].prim_instances[j]) == l.clusters@[i].prim_instances@[j]@
    } by {
        cluster_shows_all_it_holds(l.clusters@[i]);
    }
}

proof fn cluster_shows_all_it_holds(c: PrimitiveCluster)
    ensures
        c.model().spatial_node_index == c.spatial_node_index,
        c.model().first == c.first,
        c.model().prim_instances.len() == c.prim_instances@.len(),
        forall|j: int|
            0 <= j < c.prim_instances@.len() ==> (#[trigger] c.model().prim_instances[j])
                == c.prim_instances@[j]@,
{
}

/// What is shown of the buffers is all that they hold, and of work in progress the primitive and
/// the buffers.
pub proof fn buffers_show_all_they_hold(s: PrimitiveScratchBuffer, w: Work)
    ensures
        s@.clip_mask_instances == s.clip_mask_instances@,
        s@.segments == s.segments@,
        s@.segment_instances == s.segment_instances@,
        s@.border_cache_handles == s.border_cache_handles@,
        s@.gradient_tiles == s.gradient_tiles@,
        w@.instance == w.instance@,
        w@.scratch == w.scratch@,
{
}

/// What is shown of a result is all that it holds.
pub proof fn results_show_all_they_hold(
    outcome: PrimOutcome,
    prepared: Prepared,
    clipped: BrushClipped,
    tiled: Tiled,
    run: GradientRun,
)
    ensures
        outcome@.w == outcome.w@,
        outcome@.visible == outcome.visible,
        prepared@.clusters == prepared.list@,
        prepared@.scratch == prepared.scratch@,
        clipped@.w == clipped.w@,
        clipped@.segmented == clipped.segmented,
        tiled@.scratch == tiled.scratch@,
        tiled@.range == tiled.range,
        run@.stops == run.stops@,
        run@.segments == run.segments@,
{
}

/// Plain values are shown as they are.
pub proof fn plain_values_show_themselves(
    task: TaskId,
    mask: ClipMaskKind,
    placed: MaskPlacement,
    range: IndexRange,
    number: Scalar,
)
    ensures
        task@ == task,
        mask@ == mask,
        placed@ == placed,
        range@ == range,
        number@ == number,
{
}

} // verus!
