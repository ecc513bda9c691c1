//! What the pass keeps of the buffers and of a primitive.
use vstd::prelude::*;

use crate::model::{
    InstanceModel, PrimitiveVisibility, ScratchModel, SegmentInstanceIndex, WorkModel,
};
use crate::segment_write::in_bounds;

verus! {

/// Whether `b` is `a` with more at its end.
pub open spec fn begins<T>(a: Seq<T>, b: Seq<T>) -> bool {
    a.len() <= b.len() && forall|i: int| 0 <= i < a.len() ==> #[trigger] b[i] == a[i]
}

/// Whether the buffers `b` hold all that the buffers `a` hold, at the same positions. Only what
/// tells where segments are in the GPU cache may differ.
pub open spec fn buffers_grow(a: ScratchModel, b: ScratchModel) -> bool {
    &&& begins(a.clip_mask_instances, b.clip_mask_instances)
    &&& begins(a.segments, b.segments)
    &&& begins(a.border_cache_handles, b.border_cache_handles)
    &&& begins(a.gradient_tiles, b.gradient_tiles)
    &&& a.segment_instances.len() <= b.segment_instances.len()
    &&& forall|k: int|
        0 <= k < a.segment_instances.len() ==> (#[trigger] b.segment_instances[k]).segments_range
            == a.segment_instances[k].segments_range
}

/// Whether all positions in the buffers are numbers of the machine, as they are in any buffers
/// that exist.
pub open spec fn buffers_fit(s: ScratchModel) -> bool {
    &&& s.clip_mask_instances.len() <= usize::MAX
    &&& s.segments.len() <= usize::MAX
    &&& s.segment_instances.len() <= usize::MAX
    &&& s.border_cache_handles.len() <= usize::MAX
    &&& s.gradient_tiles.len() <= usize::MAX
}

/// Whether the segments that a primitive points at are in the buffers.
pub open spec fn segments_exist(w: WorkModel) -> bool {
    w.instance.segment_instance_index matches SegmentInstanceIndex::At(k) ==> {
        &&& k < w.scratch.segment_instances.len()
        &&& in_bounds(
            w.scratch.segment_instances[k as int].segments_range,
            w.scratch.segments.len(),
        )
    }
}

/// Whether `b` is the same primitive as `a`, as it came from the scene.
pub open spec fn same_primitive(a: InstanceModel, b: InstanceModel) -> bool {
    &&& a.id == b.id
    &&& a.is_chased == b.is_chased
    &&& a.kind == b.kind
    &&& a.local_clip_rect == b.local_clip_rect
}

/// Whether what was found of a primitive, `a`, became `b`: it may be dropped, and else all of it
/// stays but where the masks of the primitive are, with more marks of dirty regions.
pub open spec fn findings_stay(
    a: Option<PrimitiveVisibility>,
    b: Option<PrimitiveVisibility>,
) -> bool {
    b matches Some(found) ==> {
        &&& a matches Some(info)
        &&& found == (PrimitiveVisibility {
            clip_task_index: found.clip_task_index,
            visibility_mask: found.visibility_mask,
            ..info
        })
        &&& found.visibility_mask & info.visibility_mask == info.visibility_mask
    }
}

/// Findings that do not change stay, and so do findings of which only the place of the masks does.
pub proof fn same_findings_stay(a: PrimitiveVisibility, b: PrimitiveVisibility)
    requires
        b == (PrimitiveVisibility { clip_task_index: b.clip_task_index, ..a }),
    ensures
        findings_stay(Some(a), Some(b)),
{
    let mask = a.visibility_mask;
    assert(mask & mask == mask) by (bit_vector);
}

/// Findings that stayed over two steps stayed over both.
pub proof fn findings_stay_on(
    a: Option<PrimitiveVisibility>,
    b: Option<PrimitiveVisibility>,
    c: Option<PrimitiveVisibility>,
)
    requires
        findings_stay(a, b),
        findings_stay(b, c),
    ensures
        findings_stay(a, c),
{
    if let (Some(x), Some(y), Some(z)) = (a, b, c) {
        let (own, more, most) = (x.visibility_mask, y.visibility_mask, z.visibility_mask);
        assert(more & own == own && most & more == more ==> most & own == own) by (bit_vector);
    }
}

/// What was kept over two steps is kept over both.
pub proof fn growth_is_transitive(a: ScratchModel, b: ScratchModel, c: ScratchModel)
    requires
        buffers_grow(a, b),
        buffers_grow(b, c),
    ensures
        buffers_grow(a, c),
{
    assert forall|k: int| 0 <= k < a.segment_instances.len() implies (
    #[trigger] c.segment_instances[k]).segments_range == a.segment_instances[k].segments_range by {
        assert(b.segment_instances[k].segments_range == a.segment_instances[k].segments_range);
    }
    assert forall|i: int| 0 <= i < a.clip_mask_instances.len() implies (
    #[trigger] c.clip_mask_instances[i]) == a.clip_mask_instances[i] by {
        assert(b.clip_mask_instances[i] == a.clip_mask_instances[i]);
    }
    assert forall|i: int| 0 <= i < a.segments.len() implies #[trigger] c.segments[i]
        == a.segments[i] by {
        assert(b.segments[i] == a.segments[i]);
    }
    assert forall|i: int| 0 <= i < a.border_cache_handles.len() implies (
    #[trigger] c.border_cache_handles[i]) == a.border_cache_handles[i] by {
        assert(b.border_cache_handles[i] == a.border_cache_handles[i]);
    }
    assert forall|i: int| 0 <= i < a.gradient_tiles.len() implies #[trigger] c.gradient_tiles[i]
        == a.gradient_tiles[i] by {
        assert(b.gradient_tiles[i] == a.gradient_tiles[i]);
    }
}

} // verus!
