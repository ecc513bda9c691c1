//! What holds of every preparation of a primitive.
use vstd::prelude::*;

use crate::geometry::{IntSize, Point, Rect};
use crate::kept::{begins, buffers_grow, same_primitive};
use crate::model::{
    BorderSegment, IndexRange, InstanceModel, LineDecorationCacheKey, PictureIndex, PrimPlace,
    PrimitiveVisibility, ScratchModel, SegmentInstanceIndex, SpatialNodeIndex, SurfaceIndex,
    TaskId, Token, WorkModel,
};
use crate::prim_border::{
    border, border_factors, border_from, border_height, border_limit, border_sized,
    border_updated, border_width, border_world,
};
use crate::prim_brush::{
    brush, brush_invalidated, brush_segmented, brush_updated, segments_written, BrushPlan,
};
use crate::prim_picture::{
    backdrop, backdrop_linked, backdrop_port, backdrop_tasks, picture, picture_drawn,
    picture_plane, picture_segments, picture_split, picture_written,
};
use crate::prim_text::{
    line, line_keyed, line_shrunk, line_sized, line_task, line_too_large, text, text_glyphs,
    text_scaling, text_space, text_transform, text_updated, text_x, text_y, TextArgs,
};
use crate::program::{
    always_of_bind, always_weaker, answered_in_parts, answered_once, Program, Reply, Request,
    SurfaceTasks,
};
use crate::scalar::Scalar;
use crate::segment_write::{
    in_bounds, with_gpu_handle, write_blocks, write_from, write_granted, write_segments,
    SegmentSource, PICTURE_BLOCKS,
};

verus! {

/// That the buffers of masks and of segments stayed as they were, that nothing was lost from the
/// others, and that the primitive is the same, at most culled.
pub open spec fn prepared_from(w: WorkModel) -> spec_fn(WorkModel) -> bool {
    |o: WorkModel|
        {
            &&& buffers_grow(w.scratch, o.scratch)
            &&& o.scratch.clip_mask_instances == w.scratch.clip_mask_instances
            &&& o.scratch.segments == w.scratch.segments
            &&& o.scratch.segment_instances.len() == w.scratch.segment_instances.len()
            &&& same_primitive(w.instance, o.instance)
            &&& o.instance.children == w.instance.children
            &&& o.instance.segment_instance_index == w.instance.segment_instance_index
            &&& o.instance.segments_are_valid == w.instance.segments_are_valid
            &&& o.instance.visibility_info == w.instance.visibility_info
                || o.instance.visibility_info is None
        }
}

/// That the same holds, and that the primitive is as visible as it was.
pub open spec fn prepared_in_sight(w: WorkModel) -> spec_fn(WorkModel) -> bool {
    |o: WorkModel|
        prepared_from(w)(o) && o.instance.visibility_info == w.instance.visibility_info
}

/// Preparing a line decoration keeps what is to be kept, and culls nothing.
pub proof fn line_keeps(
    w: WorkModel,
    key: Option<LineDecorationCacheKey>,
    scale: Scalar,
    limit: i32,
)
    ensures
        line(w, key, scale, limit).always(prepared_in_sight(w)),
{
    let post = prepared_in_sight(w);
    if let Some(key) = key {
        assert forall|size: IntSize| (#[trigger] line_task(w, key, size)).always(post) by {
            let k = line_task(w, key, size)->Call_1;
            assert forall|r: Reply| (#[trigger] k(r)).always(post) by {}
        }
        assert forall|shrink: Scalar| (#[trigger] line_shrunk(w, key, scale, shrink)).always(
            post,
        ) by {
            let k = line_shrunk(w, key, scale, shrink)->Call_1;
            assert forall|r: Reply| (#[trigger] k(r)).always(post) by {}
        }
        assert forall|size: IntSize| (#[trigger] line_sized(w, key, scale, limit, size)).always(
            post,
        ) by {
            if line_too_large(size, limit) {
                let k = line_sized(w, key, scale, limit, size)->Call_1;
                assert forall|r: Reply| (#[trigger] k(r)).always(post) by {}
            }
        }
        let k = line_keyed(w, Some(key), scale, limit)->Call_1;
        assert forall|r: Reply| (#[trigger] k(r)).always(post) by {}
    }
    assert(line_keyed(w, key, scale, limit).always(post));
    let k = line(w, key, scale, limit)->Call_1;
    assert forall|r: Reply| (#[trigger] k(r)).always(post) by {}
}

/// Preparing a text run keeps what is to be kept, and culls nothing.
pub proof fn text_keeps(w: WorkModel, a: TextArgs)
    ensures
        text(w, a).always(prepared_in_sight(w)),
{
    let post = prepared_in_sight(w);
    assert(text_updated(w).always(post)) by {
        let k = text_updated(w)->Call_1;
        assert forall|r: Reply| (#[trigger] k(r)).always(post) by {}
    }
    assert forall|t: Token, offset: Point, space: Token, factor: Option<Scalar>|
        (#[trigger] text_glyphs(w, a, t, offset, space, factor)).always(post) by {
        let k = text_glyphs(w, a, t, offset, space, factor)->Call_1;
        assert forall|r: Reply| (#[trigger] k(r)).always(post) by {}
    }
    assert forall|t: Token, offset: Point, space: Token|
        (#[trigger] text_scaling(w, a, t, offset, space)).always(post) by {
        let k = text_scaling(w, a, t, offset, space)->Call_1;
        assert forall|r: Reply| (#[trigger] k(r)).always(post) by {}
    }
    assert forall|t: Token, offset: Point| (#[trigger] text_space(w, a, t, offset)).always(
        post,
    ) by {
        let k = text_space(w, a, t, offset)->Call_1;
        assert forall|r: Reply| (#[trigger] k(r)).always(post) by {}
    }
    assert forall|t: Token, x: Scalar| (#[trigger] text_y(w, a, t, x)).always(post) by {
        let k = text_y(w, a, t, x)->Call_1;
        assert forall|r: Reply| (#[trigger] k(r)).always(post) by {}
    }
    assert forall|t: Token| (#[trigger] text_x(w, a, t)).always(post) by {
        let k = text_x(w, a, t)->Call_1;
        assert forall|r: Reply| (#[trigger] k(r)).always(post) by {}
    }
    assert(text_transform(w, a).always(post)) by {
        let k = text_transform(w, a)->Call_1;
        assert forall|r: Reply| (#[trigger] k(r)).always(post) by {}
    }
    let k = text(w, a)->Call_1;
    assert forall|r: Reply| (#[trigger] k(r)).always(post) by {}
}

/// That the border has got the handles of `n` tasks, which stand at the end of the buffer of
/// handles, and that nothing else changed.
pub open spec fn border_stored(w: WorkModel, n: int) -> spec_fn(WorkModel) -> bool {
    |o: WorkModel|
        {
            let old = w.scratch.border_cache_handles;
            let new = o.scratch.border_cache_handles;
            &&& begins(old, new)
            &&& new.len() == old.len() + n
            &&& o.scratch == (ScratchModel { border_cache_handles: new, ..w.scratch })
            &&& o.instance == (InstanceModel {
                cache_handles: o.instance.cache_handles,
                ..w.instance
            })
            &&& new.len() <= usize::MAX ==> o.instance.cache_handles == (IndexRange {
                start: old.len() as usize,
                end: new.len() as usize,
            })
        }
}

proof fn border_from_stores(
    w: WorkModel,
    segments: Seq<BorderSegment>,
    scale: Scalar,
    handles: Seq<u64>,
)
    requires
        handles.len() <= segments.len(),
    ensures
        border_from(w, segments, scale, handles).always(border_stored(w, segments.len() as int)),
    decreases segments.len() - handles.len(),
{
    let post = border_stored(w, segments.len() as int);
    if handles.len() < segments.len() {
        assert forall|size: IntSize, scale: Scalar|
            (#[trigger] border_sized(w, segments, handles, size, scale)).always(post) by {
            let k = border_sized(w, segments, handles, size, scale)->Call_1;
            assert forall|r: Reply| (#[trigger] k(r)).always(post) by {
                if let Reply::TaskHandle(handle) = r {
                    assert(k(r) == border_from(w, segments, scale, handles.push(handle)));
                    border_from_stores(w, segments, scale, handles.push(handle));
                }
            }
        }
        let k = border_from(w, segments, scale, handles)->Call_1;
        assert forall|r: Reply| (#[trigger] k(r)).always(post) by {
            if let Reply::CacheSize { size, scale } = r {
                assert(k(r) == border_sized(w, segments, handles, size, scale));
            }
        }
    }
}

/// Preparing a border stores one handle for each of its edges and corners, in order, behind those
/// of earlier borders, and the border points at them.
pub proof fn border_gets_one_task_per_segment(
    w: WorkModel,
    segments: Seq<BorderSegment>,
    repeats: bool,
    node: SpatialNodeIndex,
    scale: Scalar,
)
    ensures
        border(w, segments, repeats, node, scale).always(border_stored(w, segments.len() as int)),
{
    let post = border_stored(w, segments.len() as int);
    assert forall|scale: Scalar| (#[trigger] border_limit(w, segments, scale)).always(post) by {
        let k = border_limit(w, segments, scale)->Call_1;
        assert forall|r: Reply| (#[trigger] k(r)).always(post) by {
            if let Reply::Number(max_scale) = r {
                border_from_stores(w, segments, scale.smaller(max_scale), Seq::empty());
            }
        }
    }
    assert forall|world_scale: Scalar|
        (#[trigger] border_world(w, segments, scale, world_scale)).always(post) by {
        let k = border_world(w, segments, scale, world_scale)->Call_1;
        assert forall|r: Reply| (#[trigger] k(r)).always(post) by {}
    }
    assert forall|y: Scalar, width: Scalar|
        (#[trigger] border_height(w, segments, scale, y, width)).always(post) by {
        let k = border_height(w, segments, scale, y, width)->Call_1;
        assert forall|r: Reply| (#[trigger] k(r)).always(post) by {}
    }
    assert forall|x: Scalar, y: Scalar|
        (#[trigger] border_width(w, segments, scale, x, y)).always(post) by {
        let k = border_width(w, segments, scale, x, y)->Call_1;
        assert forall|r: Reply| (#[trigger] k(r)).always(post) by {}
    }
    assert(border_factors(w, segments, node, scale).always(post)) by {
        let k = border_factors(w, segments, node, scale)->Call_1;
        assert forall|r: Reply| (#[trigger] k(r)).always(post) by {}
    }
    assert(border_updated(w, segments, node, scale).always(post)) by {
        let k = border_updated(w, segments, node, scale)->Call_1;
        assert forall|r: Reply| (#[trigger] k(r)).always(post) by {}
    }
    let k = border(w, segments, repeats, node, scale)->Call_1;
    assert forall|r: Reply| (#[trigger] k(r)).always(post) by {}
}

/// That nothing changed but where one run of segments is in the GPU cache.
pub open spec fn handle_refreshed(s: ScratchModel, index: SegmentInstanceIndex) -> spec_fn(
    ScratchModel,
) -> bool {
    |t: ScratchModel|
        t == s || (index matches SegmentInstanceIndex::At(k) && k < s.segment_instances.len()
            && t == with_gpu_handle(
            s,
            k as int,
            t.segment_instances[k as int].gpu_cache_handle,
        ))
}

proof fn write_from_keeps(s: ScratchModel, range: IndexRange, i: int)
    ensures
        write_from(s, range, i).always(scratch_is(s)),
    decreases range.end - i,
{
    let post = scratch_is(s);
    let p = write_from(s, range, i);
    if i < range.end {
        write_from_keeps(s, range, i + 1);
    } else {
        let q = Program::Return(s);
        assert(q.always(post));
    }
    let k = p->Call_1;
    assert forall|r: Reply| (#[trigger] k(r)).always(post) by {
        if i < range.end && r is Ack {
            assert(k(r) == write_from(s, range, i + 1));
        }
    }
}

pub open spec fn scratch_is(s: ScratchModel) -> spec_fn(ScratchModel) -> bool {
    |t: ScratchModel| t == s
}

proof fn write_blocks_keeps(s: ScratchModel, range: IndexRange, n: int)
    ensures
        write_blocks(s, range, n).always(scratch_is(s)),
    decreases PICTURE_BLOCKS - n,
{
    let post = scratch_is(s);
    if n < PICTURE_BLOCKS {
        write_blocks_keeps(s, range, n + 1);
        let k = write_blocks(s, range, n)->Call_1;
        assert forall|r: Reply| (#[trigger] k(r)).always(post) by {
            if r is Ack {
                assert(k(r) == write_blocks(s, range, n + 1));
            }
        }
    } else {
        write_from_keeps(s, range, range.start as int);
    }
}

/// Writing segments to the GPU cache changes nothing but where they are there.
pub proof fn writing_only_refreshes_a_handle(
    s: ScratchModel,
    index: SegmentInstanceIndex,
    source: SegmentSource,
)
    ensures
        write_segments(s, index, source).always(handle_refreshed(s, index)),
{
    let post = handle_refreshed(s, index);
    if let SegmentInstanceIndex::At(k) = index {
        if k < s.segment_instances.len() {
            let after = write_segments(s, index, source)->Call_1;
            assert forall|r: Reply| (#[trigger] after(r)).always(post) by {
                if let Reply::GpuBlocks { handle, granted } = r {
                    let t = with_gpu_handle(s, k as int, handle);
                    let p = write_granted(t, k as int, source, granted);
                    let range = t.segment_instances[k as int].segments_range;
                    assert(after(r) == p);
                    assert(t.segment_instances[k as int].gpu_cache_handle == handle);
                    if granted && in_bounds(range, t.segments.len()) {
                        write_from_keeps(t, range, range.start as int);
                        write_blocks_keeps(t, range, 0);
                        if source is Template {
                            let last = p->Call_1;
                            assert forall|r: Reply| (#[trigger] last(r)).always(
                                scratch_is(t),
                            ) by {}
                        }
                        always_weaker(p, scratch_is(t), post);
                    }
                }
            }
        }
    }
}

proof fn segments_written_keeps(w: WorkModel, source: SegmentSource)
    ensures
        segments_written(
            w.instance,
            write_segments(w.scratch, w.instance.segment_instance_index, source),
        ).always(prepared_in_sight(w)),
{
    let post = prepared_in_sight(w);
    let index = w.instance.segment_instance_index;
    let instance = w.instance;
    let f = |scratch: ScratchModel| Program::Return(WorkModel { instance, scratch });
    let mid = handle_refreshed(w.scratch, index);
    writing_only_refreshes_a_handle(w.scratch, index, source);
    assert forall|scratch: ScratchModel| mid(scratch) implies (#[trigger] f(scratch)).always(
        post,
    ) by {}
    always_of_bind(write_segments(w.scratch, index, source), f, mid, post);
}

/// Preparing a rectangle, an image or a primitive without segments keeps what is to be kept, and
/// culls nothing.
pub proof fn brush_keeps(w: WorkModel, plan: BrushPlan)
    ensures
        brush(w, plan).always(prepared_in_sight(w)),
{
    let post = prepared_in_sight(w);
    assert(brush_segmented(w, plan).always(post)) by {
        if plan.has_segments {
            segments_written_keeps(w, SegmentSource::Template(w.instance.id));
        }
    }
    assert(brush_updated(w, plan).always(post)) by {
        let k = brush_updated(w, plan)->Call_1;
        assert forall|r: Reply| (#[trigger] k(r)).always(post) by {}
    }
    assert(brush_invalidated(w, plan).always(post)) by {
        let p = brush_invalidated(w, plan);
        if plan.is_animated && p is Call {
            let k = p->Call_1;
            assert forall|r: Reply| (#[trigger] k(r)).always(post) by {}
        }
    }
    if plan.forbids_repetition {
        let k = brush(w, plan)->Call_1;
        assert forall|r: Reply| (#[trigger] k(r)).always(post) by {}
    }
}

proof fn drawn_picture_keeps(
    w: WorkModel,
    pic_index: PictureIndex,
    place: PrimPlace,
    info: PrimitiveVisibility,
)
    ensures
        picture_drawn(w, pic_index, place, info, true).always(prepared_in_sight(w)),
{
    let post = prepared_in_sight(w);
    assert forall|can: bool| (#[trigger] picture_written(w, can)).always(post) by {
        if can {
            segments_written_keeps(w, SegmentSource::Picture);
        }
    }
    assert(picture_segments(w, pic_index).always(post)) by {
        let k = picture_segments(w, pic_index)->Call_1;
        assert forall|r: Reply| (#[trigger] k(r)).always(post) by {}
    }
    assert forall|dirty: Rect|
        (#[trigger] picture_plane(w, pic_index, place, info, dirty)).always(post) by {
        let k = picture_plane(w, pic_index, place, info, dirty)->Call_1;
        assert forall|r: Reply| (#[trigger] k(r)).always(post) by {}
    }
    assert forall|splits: bool|
        (#[trigger] picture_split(w, pic_index, place, info, splits)).always(post) by {
        if splits {
            let k = picture_split(w, pic_index, place, info, splits)->Call_1;
            assert forall|r: Reply| (#[trigger] k(r)).always(post) by {}
        }
    }
    let k = picture_drawn(w, pic_index, place, info, true)->Call_1;
    assert forall|r: Reply| (#[trigger] k(r)).always(post) by {}
}

/// A picture is culled if and only if it was not prepared; one that was prepared keeps what is to
/// be kept.
pub proof fn picture_is_culled_unless_prepared(
    w: WorkModel,
    pic_index: PictureIndex,
    place: PrimPlace,
)
    requires
        w.instance.visibility_info is Some,
    ensures
        picture(w, pic_index, place) is Call,
        picture(w, pic_index, place)->Call_0 == (Request::PreparePicture { pic_index }),
        picture(w, pic_index, place).answered(seq![Reply::Flag(false)]) == Program::Return(
            w.with_visibility(None),
        ),
        picture(w, pic_index, place).answered(seq![Reply::Flag(true)]).always(
            prepared_in_sight(w),
        ),
{
    let p = picture(w, pic_index, place);
    let info = w.instance.visibility_info->0;
    answered_once(p, Reply::Flag(false));
    answered_once(p, Reply::Flag(true));
    assert((p->Call_1)(Reply::Flag(false)) == picture_drawn(w, pic_index, place, info, false));
    assert((p->Call_1)(Reply::Flag(true)) == picture_drawn(w, pic_index, place, info, true));
    drawn_picture_keeps(w, pic_index, place, info);
}

/// Preparing a picture keeps what is to be kept.
pub proof fn picture_keeps(w: WorkModel, pic_index: PictureIndex, place: PrimPlace)
    ensures
        picture(w, pic_index, place).always(prepared_from(w)),
{
    let post = prepared_from(w);
    if let Some(info) = w.instance.visibility_info {
        let k = picture(w, pic_index, place)->Call_1;
        assert forall|r: Reply| (#[trigger] k(r)).always(post) by {
            if let Reply::Flag(drawn) = r {
                let p = picture_drawn(w, pic_index, place, info, drawn);
                assert(k(r) == p);
                if drawn {
                    drawn_picture_keeps(w, pic_index, place, info);
                    always_weaker(p, prepared_in_sight(w), post);
                }
            }
        }
    }
}

/// Preparing a backdrop keeps what is to be kept.
pub proof fn backdrop_keeps(w: WorkModel, pic_index: PictureIndex, surface: SurfaceIndex)
    ensures
        backdrop(w, pic_index, surface).always(prepared_from(w)),
{
    let post = prepared_from(w);
    assert forall|root: TaskId, port: TaskId|
        (#[trigger] backdrop_linked(w, root, port)).always(post) by {
        let k = backdrop_linked(w, root, port)->Call_1;
        assert forall|r: Reply| (#[trigger] k(r)).always(post) by {}
    }
    assert forall|tasks: Option<SurfaceTasks>|
        (#[trigger] backdrop_port(w, surface, tasks)).always(post) by {
        if tasks is Some {
            let k = backdrop_port(w, surface, tasks)->Call_1;
            assert forall|r: Reply| (#[trigger] k(r)).always(post) by {}
        }
    }
    assert forall|behind: SurfaceIndex|
        (#[trigger] backdrop_tasks(w, surface, behind)).always(post) by {
        let k = backdrop_tasks(w, surface, behind)->Call_1;
        assert forall|r: Reply| (#[trigger] k(r)).always(post) by {}
    }
    let k = backdrop(w, pic_index, surface)->Call_1;
    assert forall|r: Reply| (#[trigger] k(r)).always(post) by {}
}

/// A backdrop is culled if and only if the picture behind has no tasks; otherwise it stays as it
/// is.
pub proof fn backdrop_is_culled_without_tasks(
    w: WorkModel,
    pic_index: PictureIndex,
    surface: SurfaceIndex,
    behind: SurfaceIndex,
    tasks: SurfaceTasks,
)
    ensures
        ({
            let p = backdrop(w, pic_index, surface);
            let found = p.answered(seq![Reply::Surface(behind)]);
            &&& found is Call
            &&& found->Call_0 == (Request::SurfaceRenderTasks { surface: behind })
            &&& p.answered(seq![Reply::Surface(behind), Reply::MaybeTasks(None)])
                == Program::Return(w.with_visibility(None))
            &&& p.answered(seq![Reply::Surface(behind), Reply::MaybeTasks(Some(tasks))]).always(
                unchanged(w),
            )
        }),
{
    let p = backdrop(w, pic_index, surface);
    let found = backdrop_tasks(w, surface, behind);
    let first = Reply::Surface(behind);
    let none = Reply::MaybeTasks(None);
    let some = Reply::MaybeTasks(Some(tasks));
    answered_once(p, first);
    assert((p->Call_1)(first) == found);
    assert(seq![first, none] =~= seq![first] + seq![none]);
    assert(seq![first, some] =~= seq![first] + seq![some]);
    answered_in_parts(p, seq![first], seq![none]);
    answered_in_parts(p, seq![first], seq![some]);
    answered_once(found, none);
    answered_once(found, some);
    assert((found->Call_1)(none) == backdrop_port(w, surface, None));
    let linked = backdrop_port(w, surface, Some(tasks));
    assert((found->Call_1)(some) == linked);
    let post = unchanged(w);
    assert forall|port: TaskId| (#[trigger] backdrop_linked(w, tasks.root, port)).always(post) by {
        let k = backdrop_linked(w, tasks.root, port)->Call_1;
        assert forall|r: Reply| (#[trigger] k(r)).always(post) by {}
    }
    let k = linked->Call_1;
    assert forall|r: Reply| (#[trigger] k(r)).always(post) by {}
}

/// That nothing changed.
pub open spec fn unchanged(w: WorkModel) -> spec_fn(WorkModel) -> bool {
    |o: WorkModel| o == w
}

pub open spec fn updates_template() -> spec_fn(Request) -> bool {
    |q: Request| q is UpdateTemplate
}

/// A solid line needs no task: only its template is brought up to date.
pub proof fn solid_line_needs_no_task(w: WorkModel, scale: Scalar, limit: i32)
    ensures
        line(w, None, scale, limit).always(unchanged(w)),
        line(w, None, scale, limit).only_asks(updates_template()),
{
    let k = line(w, None, scale, limit)->Call_1;
    assert forall|r: Reply|
        (#[trigger] k(r)).always(unchanged(w)) && k(r).only_asks(updates_template()) by {
        if r is Ack {
            assert(k(r) == line_keyed(w, None, scale, limit));
        }
    }
}

} // verus!
