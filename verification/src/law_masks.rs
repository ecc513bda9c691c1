//! Which masks a primitive gets.
use vstd::prelude::*;

use crate::brush_clip::{mask_task, segment_clip_mask, MaskTarget, SegmentClipBounds};
use crate::clip_rect::{clipped_device_rect, unclipped_device_rect, ClipBounds};
use crate::clip_task::{
    brush_chain, brush_clip, brush_clip_args, brush_from, brush_masked, brush_segments_of,
    brush_single, brush_translate, clip_brushed, clip_built, clip_masked, clip_task,
    clip_unclipped, clip_whole, masks_follow, whole_bounds, whole_target, with_mask, BrushClipArgs,
    BrushClippedModel, ClipPlace,
};
use crate::conversation::{hands_over_in_bind, talks_in_bind};
use crate::geometry::Rect;
use crate::law_clip::{each_segment_gets_one_mask, segments_masked};
use crate::law_device::unclipped_rectangle_is_mapped_and_scaled;
use crate::model::{
    BrushSegment, ClipChainInstance, ClipMaskKind, ClipTaskIndex, InstanceModel,
    PrimitiveInstanceKind, PrimitiveVisibility, ScratchModel, SegmentInstanceIndex, TaskId,
    WorkModel,
};
use crate::program::{always_of_bind, Fault, Program, Reply, Request};
use crate::scalar::Scalar;
use crate::segment_build::{build_for_kind, build_if_invalid, build_segments};

verus! {

/// That `n` masks were added behind the others, that the primitive points at the first of them if
/// there is one, and that nothing else changed.
pub open spec fn masks_added(w: WorkModel, info: PrimitiveVisibility, n: int) -> spec_fn(
    WorkModel,
) -> bool {
    |o: WorkModel|
        {
            let old = w.scratch.clip_mask_instances;
            let new = o.scratch.clip_mask_instances;
            &&& new.len() == old.len() + n
            &&& forall|i: int| 0 <= i < old.len() ==> #[trigger] new[i] == old[i]
            &&& o.scratch == (ScratchModel { clip_mask_instances: new, ..w.scratch })
            &&& o.instance == (InstanceModel {
                visibility_info: Some(
                    if n == 0 {
                        info
                    } else {
                        PrimitiveVisibility {
                            clip_task_index: ClipTaskIndex(old.len() as usize),
                            ..info
                        }
                    },
                ),
                ..w.instance
            })
        }
}

/// What is done once the segments of a primitive are built: masks are looked for segment by
/// segment, and then, where that did not apply, for the whole.
pub open spec fn after_building(
    info: PrimitiveVisibility,
    place: ClipPlace,
    scale: Scalar,
    unclipped: Rect,
) -> spec_fn(WorkModel) -> Program<WorkModel> {
    |w: WorkModel|
        clip_brushed(
            info,
            place,
            scale,
            unclipped,
            brush_clip(w, info, place, unclipped, scale),
        )
}

/// What is done once it is known which segments have masks.
spec fn after_brushing(
    info: PrimitiveVisibility,
    place: ClipPlace,
    scale: Scalar,
    unclipped: Rect,
) -> spec_fn(BrushClippedModel) -> Program<WorkModel> {
    |b: BrushClippedModel|
        if b.segmented || !info.clip_chain.needs_mask {
            Program::Return(b.w)
        } else {
            clip_whole(
                b.w,
                info,
                place,
                scale,
                clipped_device_rect(whole_bounds(info, place, scale, unclipped)),
            )
        }
}

/// The conversation of a primitive that is visible begins with the scale of its surface and its
/// rectangle in device pixels; where that is nothing, the primitive is left as it is. Then segments
/// are built along the clips of the primitive, and masks are looked for with what came out.
pub proof fn clipping_begins_with_the_device_rectangle(
    w: WorkModel,
    place: ClipPlace,
    info: PrimitiveVisibility,
    scale: Scalar,
    mapped: Rect,
    unclipped: Rect,
)
    requires
        w.instance.visibility_info == Some(info),
    ensures
        ({
            let p = clip_task(w, place);
            let scaled = p.on(Reply::Number(scale));
            let sized = scaled.on(Reply::MaybeRect(Some(mapped)));
            let begun = sized.on(Reply::Rect(unclipped));
            &&& p.asks(Request::DevicePixelScale { surface: place.surface_index })
            &&& scaled.asks(
                Request::PictureToRaster {
                    state: place.state,
                    rect: info.clip_chain.pic_clip_rect,
                },
            )
            &&& scaled.on(Reply::MaybeRect(None)) == Program::Return(w)
            &&& sized.asks(Request::ScaleRect { rect: mapped, by: scale })
            &&& begun.asks(Request::LocalPrimRect { prim: w.instance.id })
            &&& begun == build_segments(w, info.clip_chain.clips_range).bind(
                after_building(info, place, scale, unclipped),
            )
        }),
{
    clipping_reaches_segments(w, place, info, scale, mapped, unclipped);
}

proof fn clipping_reaches_segments(
    w: WorkModel,
    place: ClipPlace,
    info: PrimitiveVisibility,
    scale: Scalar,
    mapped: Rect,
    unclipped: Rect,
)
    requires
        w.instance.visibility_info == Some(info),
    ensures
        ({
            let p = clip_task(w, place);
            let scaled = p.on(Reply::Number(scale));
            let sized = scaled.on(Reply::MaybeRect(Some(mapped)));
            let begun = sized.on(Reply::Rect(unclipped));
            let range = info.clip_chain.clips_range;
            let g = after_building(info, place, scale, unclipped);
            &&& p.asks(Request::DevicePixelScale { surface: place.surface_index })
            &&& scaled.asks(
                Request::PictureToRaster {
                    state: place.state,
                    rect: info.clip_chain.pic_clip_rect,
                },
            )
            &&& scaled.on(Reply::MaybeRect(None)) == Program::Return(w)
            &&& sized.asks(Request::ScaleRect { rect: mapped, by: scale })
            &&& begun == build_segments(w, range).bind(g)
            &&& begun.asks(Request::LocalPrimRect { prim: w.instance.id })
            &&& forall|rect: Rect| #[trigger]
                begun.on(Reply::Rect(rect)) == build_for_kind(w, range, rect).bind(g)
        }),
{
    let range = info.clip_chain.clips_range;
    let f = |found: Option<Rect>|
        match found {
            None => Program::Return(w),
            Some(rect) => clip_built(info, place, scale, rect, build_segments(w, range)),
        };
    let p = clip_task(w, place);
    let device = unclipped_device_rect(info.clip_chain.pic_clip_rect, place.state, scale);
    assert(p.on(Reply::Number(scale)) == clip_unclipped(w, info, place, scale, device));
    assert(p.on(Reply::Number(scale)) == device.bind(f));
    unclipped_rectangle_is_mapped_and_scaled(
        info.clip_chain.pic_clip_rect,
        place.state,
        scale,
        f,
        mapped,
        unclipped,
    );
    let g = after_building(info, place, scale, unclipped);
    talks_in_bind(build_segments(w, range), g);
    assert(f(Some(unclipped)) == build_segments(w, range).bind(g));
    let begun = f(Some(unclipped));
    assert forall|rect: Rect| #[trigger] begun.on(Reply::Rect(rect)) == build_for_kind(
        w,
        range,
        rect,
    ).bind(g) by {
        assert(build_segments(w, range).on(Reply::Rect(rect)) == build_for_kind(w, range, rect));
    }
}

/// A primitive whose visibility is not known cannot be clipped.
pub proof fn culled_primitive_is_not_clipped(w: WorkModel, place: ClipPlace)
    requires
        w.instance.visibility_info is None,
    ensures
        clip_task(w, place) == Program::<WorkModel>::Fail(Fault::NotVisible),
{
}

proof fn segments_found_get_masks(
    w: WorkModel,
    place: ClipPlace,
    info: PrimitiveVisibility,
    scale: Scalar,
    unclipped: Rect,
    segments: Seq<BrushSegment>,
)
    requires
        w.instance.visibility_info == Some(info),
        brush_segments_of(w) == Ok::<Option<Seq<BrushSegment>>, Fault>(Some(segments)),
    ensures
        after_building(info, place, scale, unclipped)(w).always(
            masks_added(w, info, segments.len() as int),
        ),
{
    let n = segments.len() as int;
    let post = masks_added(w, info, n);
    let mid = segments_masked(w, info, n);
    let h = after_brushing(info, place, scale, unclipped);
    let p = brush_clip(w, info, place, unclipped, scale);
    each_segment_gets_one_mask(w, info, place, unclipped, scale, segments);
    assert forall|b: BrushClippedModel| mid(b) implies (#[trigger] h(b)).always(post) by {
        if n == 0 {
            assert(b.w == w);
        }
    }
    always_of_bind(p, h, mid, post);
    assert(after_building(info, place, scale, unclipped)(w) == p.bind(h));
}

/// An image that is not tiled, a video frame, a rectangle or a picture that points at segments in
/// the buffers gets exactly one mask for each of them: as many as the range of the buffers that it
/// points at is long. Nothing else is added, and of the primitive only the place of its masks
/// changes.
pub proof fn each_stored_segment_gets_a_mask(
    w: WorkModel,
    place: ClipPlace,
    info: PrimitiveVisibility,
    k: usize,
    scale: Scalar,
    mapped: Rect,
    unclipped: Rect,
    rect: Rect,
    can_use_segments: bool,
)
    requires
        w.instance.visibility_info == Some(info),
        w.instance.segment_instance_index == SegmentInstanceIndex::At(k),
        k < w.scratch.segment_instances.len(),
        w.scratch.segment_instances[k as int].segments_range.start
            <= w.scratch.segment_instances[k as int].segments_range.end,
        w.scratch.segment_instances[k as int].segments_range.end <= w.scratch.segments.len(),
        w.instance.kind is Image || w.instance.kind is YuvImage || w.instance.kind is Rectangle
            || w.instance.kind is Picture,
        w.instance.kind is Picture ==> w.instance.segments_are_valid,
    ensures
        ({
            let range = w.scratch.segment_instances[k as int].segments_range;
            let located = clip_task(w, place).on(Reply::Number(scale)).on(
                Reply::MaybeRect(Some(mapped)),
            ).on(Reply::Rect(unclipped)).on(Reply::Rect(rect));
            let post = masks_added(w, info, range.end - range.start);
            match w.instance.kind {
                PrimitiveInstanceKind::Image { .. } => {
                    &&& located.asks(Request::IsTiledImage { prim: w.instance.id })
                    &&& located.on(Reply::Flag(false)).always(post)
                },
                PrimitiveInstanceKind::Picture { pic_index } => {
                    &&& located.asks(Request::CanUseSegments { pic_index })
                    &&& located.on(Reply::Flag(can_use_segments)).always(post)
                },
                _ => located.always(post),
            }
        }),
{
    let index = w.scratch.segment_instances[k as int].segments_range;
    let segments = w.scratch.segments.subrange(index.start as int, index.end as int);
    let g = after_building(info, place, scale, unclipped);
    let range = info.clip_chain.clips_range;
    clipping_reaches_segments(w, place, info, scale, mapped, unclipped);
    let begun = clip_task(w, place).on(Reply::Number(scale)).on(
        Reply::MaybeRect(Some(mapped)),
    ).on(Reply::Rect(unclipped));
    let located = begun.on(Reply::Rect(rect));
    let p = build_for_kind(w, range, rect);
    assert(located == p.bind(g));
    assert(build_if_invalid(w, range, rect) == Program::Return(w));
    hands_over_in_bind(w, g);
    segments_found_get_masks(w, place, info, scale, unclipped, segments);
    if p is Call {
        talks_in_bind(p, g);
        assert(w.instance.kind is Image ==> p.on(Reply::Flag(false)) == Program::Return(w));
        assert(w.instance.kind is Picture ==> p.on(Reply::Flag(can_use_segments))
            == Program::Return(w));
    }
}

/// A border gets one mask for each of the segments of its template, and a gradient too where its
/// template has any.
pub proof fn each_template_segment_gets_a_mask(
    w: WorkModel,
    place: ClipPlace,
    info: PrimitiveVisibility,
    scale: Scalar,
    mapped: Rect,
    unclipped: Rect,
    rect: Rect,
)
    requires
        w.instance.visibility_info == Some(info),
    ensures
        ({
            let located = clip_task(w, place).on(Reply::Number(scale)).on(
                Reply::MaybeRect(Some(mapped)),
            ).on(Reply::Rect(unclipped)).on(Reply::Rect(rect));
            match w.instance.kind {
                PrimitiveInstanceKind::ImageBorder { brush_segments } => located.always(
                    masks_added(w, info, brush_segments@.len() as int),
                ),
                PrimitiveInstanceKind::NormalBorder(t) => located.always(
                    masks_added(w, info, t.brush_segments@.len() as int),
                ),
                PrimitiveInstanceKind::LinearGradient(t) => t.brush_segments@.len() > 0
                    ==> located.always(masks_added(w, info, t.brush_segments@.len() as int)),
                PrimitiveInstanceKind::RadialGradient(t) => t.brush_segments@.len() > 0
                    ==> located.always(masks_added(w, info, t.brush_segments@.len() as int)),
                PrimitiveInstanceKind::ConicGradient(t) => t.brush_segments@.len() > 0
                    ==> located.always(masks_added(w, info, t.brush_segments@.len() as int)),
                _ => true,
            }
        }),
{
    let g = after_building(info, place, scale, unclipped);
    let range = info.clip_chain.clips_range;
    clipping_reaches_segments(w, place, info, scale, mapped, unclipped);
    let begun = clip_task(w, place).on(Reply::Number(scale)).on(
        Reply::MaybeRect(Some(mapped)),
    ).on(Reply::Rect(unclipped));
    let located = begun.on(Reply::Rect(rect));
    assert(located == build_for_kind(w, range, rect).bind(g));
    hands_over_in_bind(w, g);
    match w.instance.kind {
        PrimitiveInstanceKind::ImageBorder { brush_segments } => {
            segments_found_get_masks(w, place, info, scale, unclipped, brush_segments@);
        },
        PrimitiveInstanceKind::NormalBorder(t) => {
            segments_found_get_masks(w, place, info, scale, unclipped, t.brush_segments@);
        },
        PrimitiveInstanceKind::LinearGradient(t) => {
            if t.brush_segments@.len() > 0 {
                segments_found_get_masks(w, place, info, scale, unclipped, t.brush_segments@);
            }
        },
        PrimitiveInstanceKind::RadialGradient(t) => {
            if t.brush_segments@.len() > 0 {
                segments_found_get_masks(w, place, info, scale, unclipped, t.brush_segments@);
            }
        },
        PrimitiveInstanceKind::ConicGradient(t) => {
            if t.brush_segments@.len() > 0 {
                segments_found_get_masks(w, place, info, scale, unclipped, t.brush_segments@);
            }
        },
        _ => {},
    }
}

/// Whether a primitive is masked as a whole: it is of a kind that has no segments, its segments are
/// unused, or it is a gradient whose template has none.
pub open spec fn is_masked_as_a_whole(w: WorkModel) -> bool {
    match w.instance.kind {
        PrimitiveInstanceKind::TextRun { .. } => true,
        PrimitiveInstanceKind::Clear => true,
        PrimitiveInstanceKind::LineDecoration { .. } => true,
        PrimitiveInstanceKind::Backdrop { .. } => true,
        PrimitiveInstanceKind::Rectangle { .. } => w.instance.segment_instance_index is Unused,
        PrimitiveInstanceKind::YuvImage => w.instance.segment_instance_index is Unused,
        PrimitiveInstanceKind::LinearGradient(t) => t.brush_segments@.len() == 0,
        PrimitiveInstanceKind::RadialGradient(t) => t.brush_segments@.len() == 0,
        PrimitiveInstanceKind::ConicGradient(t) => t.brush_segments@.len() == 0,
        _ => false,
    }
}

/// The primitive with one mask of its own behind those of others.
pub open spec fn with_one_mask(w: WorkModel, info: PrimitiveVisibility, mask: TaskId) -> WorkModel {
    let old = w.scratch.clip_mask_instances;
    WorkModel {
        instance: InstanceModel {
            visibility_info: Some(
                PrimitiveVisibility { clip_task_index: ClipTaskIndex(old.len() as usize), ..info },
            ),
            ..w.instance
        },
        scratch: ScratchModel {
            clip_mask_instances: old.push(ClipMaskKind::Mask(mask)),
            ..w.scratch
        },
    }
}

/// How a whole primitive goes on: nothing is done where its clips need no mask. Else what is seen
/// of it gets one mask, with the clips of the primitive, which is put behind those of others and
/// which the primitive then points at; where nothing is seen, nothing changes.
pub open spec fn masked_as_a_whole(
    p: Program<WorkModel>,
    w: WorkModel,
    place: ClipPlace,
    info: PrimitiveVisibility,
    scale: Scalar,
    unclipped: Rect,
) -> bool {
    let bounds = ClipBounds {
        unclipped,
        state: place.state,
        prim_bounding_rect: info.clipped_world_rect,
        device_pixel_scale: scale,
    };
    let target = MaskTarget {
        clips_range: info.clip_chain.clips_range,
        root_spatial_node_index: place.root_spatial_node_index,
        surface_index: place.surface_index,
    };
    let masked = |mask: TaskId| Program::Return(with_one_mask(w, info, mask));
    let covered = |device: Option<Rect>|
        match device {
            None => Program::Return(w),
            Some(rect) => mask_task(target, rect, scale).bind(masked),
        };
    if info.clip_chain.needs_mask {
        p == clipped_device_rect(bounds).bind(covered)
    } else {
        p == Program::Return(w)
    }
}

proof fn whole_primitive_gets_one(
    w: WorkModel,
    place: ClipPlace,
    info: PrimitiveVisibility,
    scale: Scalar,
    unclipped: Rect,
)
    requires
        brush_segments_of(w) == Ok::<Option<Seq<BrushSegment>>, Fault>(None),
    ensures
        masked_as_a_whole(
            after_building(info, place, scale, unclipped)(w),
            w,
            place,
            info,
            scale,
            unclipped,
        ),
{
    let h = after_brushing(info, place, scale, unclipped);
    let b = BrushClippedModel { w, segmented: false };
    assert(brush_clip(w, info, place, unclipped, scale) == Program::Return(b));
    hands_over_in_bind(b, h);
    assert(after_building(info, place, scale, unclipped)(w) == h(b));
    if info.clip_chain.needs_mask {
        let target = MaskTarget {
            clips_range: info.clip_chain.clips_range,
            root_spatial_node_index: place.root_spatial_node_index,
            surface_index: place.surface_index,
        };
        let masked = |mask: TaskId| Program::Return(with_one_mask(w, info, mask));
        let covered = |device: Option<Rect>|
            match device {
                None => Program::Return(w),
                Some(rect) => mask_task(target, rect, scale).bind(masked),
            };
        let stored = |mask: TaskId|
            Program::Return(with_mask(masks_follow(w, info), ClipMaskKind::Mask(mask)));
        assert(stored =~= masked);
        let drawn = |device: Option<Rect>|
            match device {
                None => Program::Return(w),
                Some(rect) => clip_masked(
                    w,
                    info,
                    mask_task(whole_target(info, place), rect, scale),
                ),
            };
        assert forall|device: Option<Rect>| #[trigger] drawn(device) == covered(device) by {
            if let Some(rect) = device {
                assert(clip_masked(w, info, mask_task(target, rect, scale)) == mask_task(
                    target,
                    rect,
                    scale,
                ).bind(stored));
            }
        }
        assert(drawn =~= covered);
        let bounds = whole_bounds(info, place, scale, unclipped);
        assert(clip_whole(w, info, place, scale, clipped_device_rect(bounds))
            == clipped_device_rect(bounds).bind(drawn));
    }
}

/// A primitive that is not drawn by segments gets one mask for the whole of it, where its clips
/// need one.
pub proof fn whole_primitive_gets_one_mask(
    w: WorkModel,
    place: ClipPlace,
    info: PrimitiveVisibility,
    scale: Scalar,
    mapped: Rect,
    unclipped: Rect,
    rect: Rect,
)
    requires
        w.instance.visibility_info == Some(info),
        is_masked_as_a_whole(w),
    ensures
        masked_as_a_whole(
            clip_task(w, place).on(Reply::Number(scale)).on(Reply::MaybeRect(Some(mapped))).on(
                Reply::Rect(unclipped),
            ).on(Reply::Rect(rect)),
            w,
            place,
            info,
            scale,
            unclipped,
        ),
{
    let g = after_building(info, place, scale, unclipped);
    let range = info.clip_chain.clips_range;
    clipping_reaches_segments(w, place, info, scale, mapped, unclipped);
    let begun = clip_task(w, place).on(Reply::Number(scale)).on(
        Reply::MaybeRect(Some(mapped)),
    ).on(Reply::Rect(unclipped));
    assert(begun.on(Reply::Rect(rect)) == build_for_kind(w, range, rect).bind(g));
    hands_over_in_bind(w, g);
    whole_primitive_gets_one(w, place, info, scale, unclipped);
}

/// A tiled image is masked as a whole, and gives up its segments.
pub proof fn tiled_image_gets_one_mask(
    w: WorkModel,
    place: ClipPlace,
    info: PrimitiveVisibility,
    scale: Scalar,
    mapped: Rect,
    unclipped: Rect,
    rect: Rect,
)
    requires
        w.instance.visibility_info == Some(info),
        w.instance.kind is Image,
    ensures
        masked_as_a_whole(
            clip_task(w, place).on(Reply::Number(scale)).on(Reply::MaybeRect(Some(mapped))).on(
                Reply::Rect(unclipped),
            ).on(Reply::Rect(rect)).on(Reply::Flag(true)),
            WorkModel {
                instance: InstanceModel {
                    segment_instance_index: SegmentInstanceIndex::Unused,
                    ..w.instance
                },
                ..w
            },
            place,
            info,
            scale,
            unclipped,
        ),
{
    let g = after_building(info, place, scale, unclipped);
    let range = info.clip_chain.clips_range;
    clipping_reaches_segments(w, place, info, scale, mapped, unclipped);
    let begun = clip_task(w, place).on(Reply::Number(scale)).on(
        Reply::MaybeRect(Some(mapped)),
    ).on(Reply::Rect(unclipped));
    let p = build_for_kind(w, range, rect);
    assert(begun.on(Reply::Rect(rect)) == p.bind(g));
    talks_in_bind(p, g);
    let unused = WorkModel {
        instance: InstanceModel {
            segment_instance_index: SegmentInstanceIndex::Unused,
            ..w.instance
        },
        ..w
    };
    assert(p.on(Reply::Flag(true)) == Program::Return(unused));
    hands_over_in_bind(unused, g);
    whole_primitive_gets_one(unused, place, info, scale, unclipped);
}

/// A picture that cannot use segments and has none is masked as a whole; an image, a video frame or
/// a rectangle without segments that should have some is at fault, and so is any of them that
/// points outside the buffers.
pub proof fn missing_segments_are_a_fault(
    w: WorkModel,
    info: PrimitiveVisibility,
    place: ClipPlace,
    unclipped: Rect,
    scale: Scalar,
)
    requires
        w.instance.kind is Image || w.instance.kind is YuvImage || w.instance.kind is Rectangle
            || w.instance.kind is Picture,
    ensures
        ({
            let p = brush_clip(w, info, place, unclipped, scale);
            match w.instance.segment_instance_index {
                SegmentInstanceIndex::Unused => p == Program::Return(
                    BrushClippedModel { w, segmented: false },
                ),
                SegmentInstanceIndex::Invalid => if w.instance.kind is Picture {
                    p == Program::Return(BrushClippedModel { w, segmented: false })
                } else {
                    p == Program::<BrushClippedModel>::Fail(Fault::NoSegments)
                },
                SegmentInstanceIndex::At(k) => (k >= w.scratch.segment_instances.len()
                    || w.scratch.segment_instances[k as int].segments_range.start
                    > w.scratch.segment_instances[k as int].segments_range.end
                    || w.scratch.segment_instances[k as int].segments_range.end
                    > w.scratch.segments.len()) ==> p == Program::<BrushClippedModel>::Fail(
                    Fault::NoSegments,
                ),
            }
        }),
{
}

/// What the masks of the segments of a primitive are found with.
pub open spec fn bounds_of_segments(
    info: PrimitiveVisibility,
    place: ClipPlace,
    unclipped: Rect,
    scale: Scalar,
) -> SegmentClipBounds {
    SegmentClipBounds {
        prim_bounding_rect: info.clipped_world_rect,
        root_spatial_node_index: place.root_spatial_node_index,
        surface_index: place.surface_index,
        state: place.state,
        unclipped,
        device_pixel_scale: scale,
    }
}

/// The primitive, pointing at the end of the masks.
pub open spec fn pointing_at_the_end(w: WorkModel, info: PrimitiveVisibility) -> WorkModel {
    WorkModel {
        instance: InstanceModel {
            visibility_info: Some(
                PrimitiveVisibility {
                    clip_task_index: ClipTaskIndex(
                        w.scratch.clip_mask_instances.len() as usize,
                    ),
                    ..info
                },
            ),
            ..w.instance
        },
        ..w
    }
}

/// The buffers with another mask at the end.
pub open spec fn with_another_mask(w: WorkModel, mask: ClipMaskKind) -> WorkModel {
    WorkModel {
        scratch: ScratchModel {
            clip_mask_instances: w.scratch.clip_mask_instances.push(mask),
            ..w.scratch
        },
        ..w
    }
}

/// Whether these are the segments that a primitive is drawn by: those of the range of the buffers
/// that it points at, or those of its template.
pub open spec fn is_drawn_by(w: WorkModel, segments: Seq<BrushSegment>) -> bool {
    match w.instance.kind {
        PrimitiveInstanceKind::ImageBorder { brush_segments } => segments == brush_segments@,
        PrimitiveInstanceKind::NormalBorder(t) => segments == t.brush_segments@,
        PrimitiveInstanceKind::LinearGradient(t) => segments == t.brush_segments@,
        PrimitiveInstanceKind::RadialGradient(t) => segments == t.brush_segments@,
        PrimitiveInstanceKind::ConicGradient(t) => segments == t.brush_segments@,
        PrimitiveInstanceKind::LineDecoration { .. } => false,
        PrimitiveInstanceKind::TextRun { .. } => false,
        PrimitiveInstanceKind::Clear => false,
        PrimitiveInstanceKind::Backdrop { .. } => false,
        _ => w.instance.segment_instance_index matches SegmentInstanceIndex::At(k) && {
            let range = w.scratch.segment_instances[k as int].segments_range;
            &&& k < w.scratch.segment_instances.len()
            &&& range.start <= range.end <= w.scratch.segments.len()
            &&& segments == w.scratch.segments.subrange(range.start as int, range.end as int)
        },
    }
}

/// The mask of a segment that is the only one is found with the clips of the primitive. Of two or
/// more segments each has its own clips found: those of the primitive are activated, the rectangle
/// of the segment is moved to where the primitive is, the chain is built for it within the bounds
/// of the dirty regions, traced if the primitive is chased, and the mask comes from that chain and
/// from whether a local clip cuts that segment.
pub proof fn segments_are_masked_in_order(
    w: WorkModel,
    info: PrimitiveVisibility,
    place: ClipPlace,
    unclipped: Rect,
    scale: Scalar,
    segments: Seq<BrushSegment>,
    dirty: Rect,
)
    requires
        is_drawn_by(w, segments),
        segments.len() > 0,
    ensures
        ({
            let p = brush_clip(w, info, place, unclipped, scale);
            let from = pointing_at_the_end(w, info);
            let bounds = bounds_of_segments(info, place, unclipped, scale);
            let c = BrushClipArgs {
                place,
                clip_chain: info.clip_chain,
                bounds,
                is_chased: w.instance.is_chased,
            };
            let stored = |mask: ClipMaskKind|
                Program::Return(
                    BrushClippedModel { w: with_another_mask(from, mask), segmented: true },
                );
            if segments.len() == 1 {
                p == segment_clip_mask(
                    bounds,
                    segments[0].may_need_clip_mask,
                    Some(info.clip_chain),
                ).bind(stored)
            } else {
                &&& p.asks(Request::DirtyRegionBounds)
                &&& p.on(Reply::Rect(dirty)) == brush_from(from, c, segments, dirty, 0)
            }
        }),
{
    let p = brush_clip(w, info, place, unclipped, scale);
    let from = pointing_at_the_end(w, info);
    let bounds = bounds_of_segments(info, place, unclipped, scale);
    let c = brush_clip_args(w.instance, info, place, unclipped, scale);
    assert(masks_follow(w, info) == from);
    assert(brush_segments_of(w) == Ok::<Option<Seq<BrushSegment>>, Fault>(Some(segments)));
    if segments.len() == 1 {
        let stored = |mask: ClipMaskKind|
            Program::Return(
                BrushClippedModel { w: with_another_mask(from, mask), segmented: true },
            );
        let spoken = |mask: ClipMaskKind|
            Program::Return(BrushClippedModel { w: with_mask(from, mask), segmented: true });
        assert(spoken =~= stored);
        let inner = segment_clip_mask(bounds, segments[0].may_need_clip_mask, Some(c.clip_chain));
        assert(p == brush_single(from, inner));
        assert(brush_single(from, inner) == inner.bind(spoken));
    }
}

/// The step of [`segments_are_masked_in_order`] for the segment at position `i`: what is asked for
/// it, and that its mask is appended before the next segment is looked at. Behind the last segment
/// the primitive is done.
pub proof fn next_segment_is_masked(
    w: WorkModel,
    c: BrushClipArgs,
    segments: Seq<BrushSegment>,
    dirty: Rect,
    i: int,
    local_rect: Rect,
    chain: Option<ClipChainInstance>,
)
    requires
        0 <= i <= segments.len(),
    ensures
        ({
            let p = brush_from(w, c, segments, dirty, i);
            let activated = p.on(Reply::Ack);
            let moved = activated.on(Reply::Rect(local_rect));
            let chained = moved.on(Reply::ClipChain(chain));
            let next = |mask: ClipMaskKind|
                brush_from(with_another_mask(w, mask), c, segments, dirty, i + 1);
            if i < segments.len() {
                &&& p.asks(
                    Request::ActivateClips {
                        clip_chain: c.clip_chain,
                        node: c.place.prim_spatial_node_index,
                    },
                )
                &&& activated.asks(
                    Request::Translate {
                        rect: segments[i].local_rect,
                        by: c.place.prim_origin,
                    },
                )
                &&& moved.asks(
                    Request::BuildClipChain {
                        local_rect,
                        state: c.place.state,
                        device_pixel_scale: c.bounds.device_pixel_scale,
                        dirty_rect: dirty,
                        is_chased: c.is_chased,
                    },
                )
                &&& chained == segment_clip_mask(
                    c.bounds,
                    segments[i].may_need_clip_mask,
                    chain,
                ).bind(next)
            } else {
                p == Program::Return(BrushClippedModel { w, segmented: true })
            }
        }),
{
    if i < segments.len() {
        let p = brush_from(w, c, segments, dirty, i);
        let activated = p.on(Reply::Ack);
        let moved = activated.on(Reply::Rect(local_rect));
        let chained = moved.on(Reply::ClipChain(chain));
        let inner = segment_clip_mask(c.bounds, segments[i].may_need_clip_mask, chain);
        assert(activated == brush_translate(w, c, segments, dirty, i));
        assert(moved == brush_chain(w, c, segments, dirty, i, local_rect));
        assert(chained == brush_masked(w, c, segments, dirty, i, inner));
        let next = |mask: ClipMaskKind|
            brush_from(with_another_mask(w, mask), c, segments, dirty, i + 1);
        masking_goes_on(w, c, segments, dirty, i, inner, next);
    }
}

proof fn masking_goes_on(
    w: WorkModel,
    c: BrushClipArgs,
    segments: Seq<BrushSegment>,
    dirty: Rect,
    i: int,
    p: Program<ClipMaskKind>,
    next: spec_fn(ClipMaskKind) -> Program<BrushClippedModel>,
)
    requires
        0 <= i < segments.len(),
        forall|mask: ClipMaskKind| #[trigger]
            next(mask) == brush_from(with_another_mask(w, mask), c, segments, dirty, i + 1),
    ensures
        brush_masked(w, c, segments, dirty, i, p) == p.bind(next),
    decreases p,
{
    let whole = brush_masked(w, c, segments, dirty, i, p);
    match p {
        Program::Return(mask) => {
            assert(with_mask(w, mask) == with_another_mask(w, mask));
            assert(whole == brush_from(with_mask(w, mask), c, segments, dirty, i + 1));
        },
        Program::Fail(fault) => {
            assert(whole == Program::<BrushClippedModel>::Fail(fault));
        },
        Program::Call(q, k) => {
            let a = whole->Call_1;
            let b = p.bind(next)->Call_1;
            assert forall|r: Reply| #[trigger] a(r) == b(r) by {
                assert(a(r) == brush_masked(w, c, segments, dirty, i, k(r)));
                assert(b(r) == k(r).bind(next));
                masking_goes_on(w, c, segments, dirty, i, k(r), next);
            }
            assert(a =~= b);
        },
    }
}

} // verus!
