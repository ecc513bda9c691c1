//! What holds of every clipping of a primitive.
use vstd::prelude::*;

use crate::brush_clip::{
    goes_unmasked, mask_task, segment_bounded, segment_bounds, segment_clip_mask, segment_clipped,
    segment_drawn, segment_in_world, segment_masked, segment_target, SegmentClipBounds,
};
use crate::clip_rect::{
    adjusted_mask, adjusted_rect, adjusted_scale, clipped_device_rect, clipped_in_raster,
    clipped_in_world, clipped_map, clipped_to_device, clipped_unmap, mask_too_large,
    unclipped_device_rect, ClipBounds, MaskPlacement, MAX_MASK_SIZE, SCALED_MASK_SIZE,
};
use crate::clip_task::{
    brush_chain, brush_clip, brush_clip_args, brush_from, brush_masked, brush_segments_of,
    brush_single, brush_translate, clip_brushed, clip_built, clip_masked, clip_task,
    clip_unclipped, clip_whole, masks_follow, whole_bounds, whole_target, with_mask, BrushClipArgs,
    BrushClippedModel, ClipPlace,
};
use crate::geometry::{over, times, value, IntRect, Rect};
use crate::kept::begins;
use crate::law_segments::{building_adds_one_run, segments_built};
use crate::model::{
    BrushSegment, ClipChainInstance, ClipMaskKind, ClipTaskIndex, InstanceModel,
    PrimitiveVisibility, ScratchModel, TaskId, WorkModel,
};
use crate::program::{
    always_after, always_of_bind, always_weaker, answered_once, Fault, Program, Reply, Request,
};
use crate::scalar::{whole_numbers_keep_the_limit, Scalar};
use crate::segment_build::build_segments;

verus! {

/// That the buffer of masks got `n` more masks at its end, and nothing else changed.
pub open spec fn masks_appended(w: WorkModel, n: int) -> spec_fn(BrushClippedModel) -> bool {
    |b: BrushClippedModel|
        {
            &&& b.segmented
            &&& b.w.instance == w.instance
            &&& begins(w.scratch.clip_mask_instances, b.w.scratch.clip_mask_instances)
            &&& b.w.scratch.clip_mask_instances.len() == w.scratch.clip_mask_instances.len() + n
            &&& b.w.scratch == (ScratchModel {
                clip_mask_instances: b.w.scratch.clip_mask_instances,
                ..w.scratch
            })
        }
}

proof fn brush_from_appends(
    w: WorkModel,
    c: BrushClipArgs,
    segments: Seq<BrushSegment>,
    dirty: Rect,
    i: int,
)
    requires
        0 <= i <= segments.len(),
    ensures
        brush_from(w, c, segments, dirty, i).always(masks_appended(w, segments.len() - i)),
    decreases segments.len() - i, 1int, Program::<ClipMaskKind>::Return(ClipMaskKind::Clipped),
{
    let post = masks_appended(w, segments.len() - i);
    if i < segments.len() {
        assert forall|local_rect: Rect|
            (#[trigger] brush_chain(w, c, segments, dirty, i, local_rect)).always(post) by {
            let k = brush_chain(w, c, segments, dirty, i, local_rect)->Call_1;
            assert forall|r: Reply| (#[trigger] k(r)).always(post) by {
                if let Reply::ClipChain(clip_chain) = r {
                    brush_masked_appends(
                        w,
                        c,
                        segments,
                        dirty,
                        i,
                        segment_clip_mask(c.bounds, segments[i].may_need_clip_mask, clip_chain),
                    );
                }
            }
        }
        assert(brush_translate(w, c, segments, dirty, i).always(post)) by {
            let k = brush_translate(w, c, segments, dirty, i)->Call_1;
            assert forall|r: Reply| (#[trigger] k(r)).always(post) by {
                if let Reply::Rect(local_rect) = r {
                    assert(k(r) == brush_chain(w, c, segments, dirty, i, local_rect));
                }
            }
        }
        let k = brush_from(w, c, segments, dirty, i)->Call_1;
        assert forall|r: Reply| (#[trigger] k(r)).always(post) by {}
    }
}

proof fn brush_masked_appends(
    w: WorkModel,
    c: BrushClipArgs,
    segments: Seq<BrushSegment>,
    dirty: Rect,
    i: int,
    p: Program<ClipMaskKind>,
)
    requires
        0 <= i < segments.len(),
    ensures
        brush_masked(w, c, segments, dirty, i, p).always(masks_appended(w, segments.len() - i)),
    decreases segments.len() - i, 0int, p,
{
    let post = masks_appended(w, segments.len() - i);
    match p {
        Program::Return(mask) => {
            let next = with_mask(w, mask);
            assert(brush_masked(w, c, segments, dirty, i, p) == brush_from(
                next,
                c,
                segments,
                dirty,
                i + 1,
            ));
            brush_from_appends(next, c, segments, dirty, i + 1);
            let strong = masks_appended(next, segments.len() - i - 1);
            assert forall|b: BrushClippedModel| #[trigger] strong(b) implies post(b) by {
                assert(begins(w.scratch.clip_mask_instances, next.scratch.clip_mask_instances));
            }
            always_weaker(brush_from(next, c, segments, dirty, i + 1), strong, post);
        },
        Program::Fail(_) => {},
        Program::Call(q, k) => {
            let after = brush_masked(w, c, segments, dirty, i, p)->Call_1;
            assert forall|r: Reply| (#[trigger] after(r)).always(post) by {
                assert(after(r) == brush_masked(w, c, segments, dirty, i, k(r)));
                brush_masked_appends(w, c, segments, dirty, i, k(r));
            }
        },
    }
}

/// That each of `n` segments got its mask, and that the primitive keeps where the masks begin.
/// Without segments nothing changed.
pub open spec fn segments_masked(w: WorkModel, info: PrimitiveVisibility, n: int) -> spec_fn(
    BrushClippedModel,
) -> bool {
    |b: BrushClippedModel|
        if n == 0 {
            b.segmented && b.w == w
        } else {
            masks_appended(masks_follow(w, info), n)(b)
        }
}

/// Clipping by segments appends one mask for each segment, in order, behind the masks of earlier
/// primitives, which stay, and the primitive points at the first of them.
pub proof fn each_segment_gets_one_mask(
    w: WorkModel,
    info: PrimitiveVisibility,
    place: ClipPlace,
    unclipped: Rect,
    scale: Scalar,
    segments: Seq<BrushSegment>,
)
    requires
        brush_segments_of(w) == Ok::<Option<Seq<BrushSegment>>, Fault>(Some(segments)),
    ensures
        brush_clip(w, info, place, unclipped, scale).always(
            segments_masked(w, info, segments.len() as int),
        ),
{
    let post = segments_masked(w, info, segments.len() as int);
    let c = brush_clip_args(w.instance, info, place, unclipped, scale);
    let from = masks_follow(w, info);
    let p = brush_clip(w, info, place, unclipped, scale);
    if segments.len() == 1 {
        let f = |mask: ClipMaskKind|
            Program::Return(BrushClippedModel { w: with_mask(from, mask), segmented: true });
        assert forall|mask: ClipMaskKind| (#[trigger] f(mask)).always(post) by {}
        let inner = segment_clip_mask(c.bounds, segments[0].may_need_clip_mask, Some(c.clip_chain));
        always_after(inner, f, post);
        assert(p == brush_single(from, inner));
    } else if segments.len() > 1 {
        let k = p->Call_1;
        assert forall|r: Reply| (#[trigger] k(r)).always(post) by {
            if let Reply::Rect(dirty) = r {
                assert(k(r) == brush_from(from, c, segments, dirty, 0));
                brush_from_appends(from, c, segments, dirty, 0);
                always_weaker(
                    brush_from(from, c, segments, dirty, 0),
                    masks_appended(from, segments.len() as int),
                    post,
                );
            }
        }
    }
}

/// That masks were added for the primitive or none were: where its masks begin is where the buffer
/// of masks ended, and all else that was found of its visibility stays.
pub open spec fn masks_kept(w: WorkModel, info: PrimitiveVisibility, o: WorkModel) -> bool {
    let old = w.scratch.clip_mask_instances;
    let new = o.scratch.clip_mask_instances;
    ||| new == old && o.instance.visibility_info == Some(info)
    ||| {
        &&& begins(old, new)
        &&& old.len() < new.len()
        &&& o.instance.visibility_info == Some(
            PrimitiveVisibility { clip_task_index: ClipTaskIndex(old.len() as usize), ..info },
        )
    }
}

/// That the masks of the primitive were added and its segments were, and nothing else changed.
pub open spec fn clipped_from(w: WorkModel, info: PrimitiveVisibility) -> spec_fn(
    WorkModel,
) -> bool {
    |o: WorkModel|
        {
            &&& masks_kept(w, info, o)
            &&& begins(w.scratch.segments, o.scratch.segments)
            &&& begins(w.scratch.segment_instances, o.scratch.segment_instances)
            &&& o.scratch == (ScratchModel {
                clip_mask_instances: o.scratch.clip_mask_instances,
                segments: o.scratch.segments,
                segment_instances: o.scratch.segment_instances,
                ..w.scratch
            })
            &&& o.instance == (InstanceModel {
                visibility_info: o.instance.visibility_info,
                segment_instance_index: o.instance.segment_instance_index,
                segments_are_valid: o.instance.segments_are_valid,
                ..w.instance
            })
        }
}

/// That masks were added and nothing else changed.
pub open spec fn brush_clipped_from(w: WorkModel, info: PrimitiveVisibility) -> spec_fn(
    BrushClippedModel,
) -> bool {
    |b: BrushClippedModel|
        {
            &&& masks_kept(w, info, b.w)
            &&& !b.segmented ==> b.w == w
            &&& b.w.scratch == (ScratchModel {
                clip_mask_instances: b.w.scratch.clip_mask_instances,
                ..w.scratch
            })
            &&& b.w.instance == (InstanceModel {
                visibility_info: b.w.instance.visibility_info,
                ..w.instance
            })
        }
}

proof fn brush_clip_keeps(
    w: WorkModel,
    info: PrimitiveVisibility,
    place: ClipPlace,
    unclipped: Rect,
    scale: Scalar,
)
    requires
        w.instance.visibility_info == Some(info),
    ensures
        brush_clip(w, info, place, unclipped, scale).always(brush_clipped_from(w, info)),
{
    if let Ok(Some(segments)) = brush_segments_of(w) {
        each_segment_gets_one_mask(w, info, place, unclipped, scale, segments);
        always_weaker(
            brush_clip(w, info, place, unclipped, scale),
            segments_masked(w, info, segments.len() as int),
            brush_clipped_from(w, info),
        );
    }
}

proof fn clip_whole_keeps(
    w: WorkModel,
    info: PrimitiveVisibility,
    place: ClipPlace,
    scale: Scalar,
    p: Program<Option<Rect>>,
)
    requires
        w.instance.visibility_info == Some(info),
    ensures
        clip_whole(w, info, place, scale, p).always(clipped_from(w, info)),
{
    let post = clipped_from(w, info);
    let f = |device: Option<Rect>|
        match device {
            None => Program::Return(w),
            Some(rect) => clip_masked(w, info, mask_task(whole_target(info, place), rect, scale)),
        };
    assert forall|device: Option<Rect>| (#[trigger] f(device)).always(post) by {
        if let Some(rect) = device {
            let g = |mask: TaskId|
                Program::Return(with_mask(masks_follow(w, info), ClipMaskKind::Mask(mask)));
            assert forall|mask: TaskId| (#[trigger] g(mask)).always(post) by {}
            always_after(mask_task(whole_target(info, place), rect, scale), g, post);
        }
    }
    always_after(p, f, post);
}

proof fn clip_built_keeps(
    w: WorkModel,
    info: PrimitiveVisibility,
    place: ClipPlace,
    scale: Scalar,
    unclipped: Rect,
)
    requires
        w.instance.visibility_info == Some(info),
    ensures
        clip_built(
            info,
            place,
            scale,
            unclipped,
            build_segments(w, info.clip_chain.clips_range),
        ).always(clipped_from(w, info)),
{
    let post = clipped_from(w, info);
    let f = |built: WorkModel|
        clip_brushed(
            info,
            place,
            scale,
            unclipped,
            brush_clip(built, info, place, unclipped, scale),
        );
    assert forall|built: WorkModel| segments_built(w)(built) implies (#[trigger] f(built)).always(
        post,
    ) by {
        brush_clip_keeps(built, info, place, unclipped, scale);
        let g = |b: BrushClippedModel|
            if b.segmented || !info.clip_chain.needs_mask {
                Program::Return(b.w)
            } else {
                clip_whole(
                    b.w,
                    info,
                    place,
                    scale,
                    clipped_device_rect(whole_bounds(info, place, scale, unclipped)),
                )
            };
        let mid = brush_clipped_from(built, info);
        assert forall|b: BrushClippedModel| mid(b) implies (#[trigger] g(b)).always(post) by {
            if !b.segmented && info.clip_chain.needs_mask {
                let bounds = whole_bounds(info, place, scale, unclipped);
                clip_whole_keeps(built, info, place, scale, clipped_device_rect(bounds));
                always_weaker(g(b), clipped_from(built, info), post);
            }
        }
        always_of_bind(brush_clip(built, info, place, unclipped, scale), g, mid, post);
    }
    building_adds_one_run(w, info.clip_chain.clips_range);
    always_of_bind(build_segments(w, info.clip_chain.clips_range), f, segments_built(w), post);
}

/// Clipping a primitive adds masks and segments behind those of earlier primitives, which stay,
/// and changes nothing of the primitive but where its masks and its segments are.
pub proof fn clipping_only_appends(w: WorkModel, place: ClipPlace, info: PrimitiveVisibility)
    requires
        w.instance.visibility_info == Some(info),
    ensures
        clip_task(w, place).always(clipped_from(w, info)),
{
    let post = clipped_from(w, info);
    let k = clip_task(w, place)->Call_1;
    assert forall|r: Reply| (#[trigger] k(r)).always(post) by {
        if let Reply::Number(scale) = r {
            let f = |unclipped: Option<Rect>|
                match unclipped {
                    None => Program::Return(w),
                    Some(rect) => clip_built(
                        info,
                        place,
                        scale,
                        rect,
                        build_segments(w, info.clip_chain.clips_range),
                    ),
                };
            assert forall|unclipped: Option<Rect>| (#[trigger] f(unclipped)).always(post) by {
                if let Some(rect) = unclipped {
                    clip_built_keeps(w, info, place, scale, rect);
                }
            }
            let p = unclipped_device_rect(info.clip_chain.pic_clip_rect, place.state, scale);
            always_after(p, f, post);
            assert(k(r) == clip_unclipped(w, info, place, scale, p));
        }
    }
}

/// That the result is no mask if and only if `unmasked` holds.
pub open spec fn unmasked_where(unmasked: bool) -> spec_fn(ClipMaskKind) -> bool {
    |m: ClipMaskKind| m == ClipMaskKind::Unmasked <==> unmasked
}

/// A segment goes without a mask if and only if its clips allow that; any other has a mask or is
/// clipped away, and one without a clip chain is clipped away.
pub proof fn only_unaffected_segments_go_unmasked(
    b: SegmentClipBounds,
    may_need_clip_mask: bool,
    clip_chain: Option<ClipChainInstance>,
)
    ensures
        segment_clip_mask(b, may_need_clip_mask, clip_chain).always(
            unmasked_where(
                clip_chain matches Some(chain) && goes_unmasked(may_need_clip_mask, chain),
            ),
        ),
        clip_chain is None ==> segment_clip_mask(b, may_need_clip_mask, clip_chain)
            == Program::Return(ClipMaskKind::Clipped),
{
    let post = unmasked_where(false);
    if let Some(chain) = clip_chain {
        if !goes_unmasked(may_need_clip_mask, chain) {
            assert forall|device: Option<Rect>|
                (#[trigger] segment_drawn(b, chain, device)).always(post) by {
                if let Some(rect) = device {
                    let f = |mask: TaskId| Program::Return(ClipMaskKind::Mask(mask));
                    let p = mask_task(segment_target(b, chain), rect, b.device_pixel_scale);
                    assert forall|mask: TaskId| (#[trigger] f(mask)).always(post) by {}
                    always_after(p, f, post);
                    assert(segment_drawn(b, chain, device) == segment_masked(p));
                }
            }
            assert forall|clipped: Option<Rect>|
                (#[trigger] segment_bounded(b, chain, clipped)).always(post) by {
                if let Some(rect) = clipped {
                    let f = |device: Option<Rect>| segment_drawn(b, chain, device);
                    let p = clipped_device_rect(segment_bounds(b, rect));
                    assert forall|device: Option<Rect>| (#[trigger] f(device)).always(post) by {}
                    always_after(p, f, post);
                    assert(segment_bounded(b, chain, clipped) == segment_clipped(b, chain, p));
                }
            }
            assert forall|world: Option<Rect>|
                (#[trigger] segment_in_world(b, chain, world)).always(post) by {
                if world is Some {
                    let k = segment_in_world(b, chain, world)->Call_1;
                    assert forall|r: Reply| (#[trigger] k(r)).always(post) by {}
                }
            }
            let k = segment_clip_mask(b, may_need_clip_mask, clip_chain)->Call_1;
            assert forall|r: Reply| (#[trigger] k(r)).always(post) by {}
        }
    }
}

/// That device pixels are asked for only where there is something to cover.
pub open spec fn covers_something() -> spec_fn(Request) -> bool {
    |q: Request| q matches Request::RasterToDevicePixels { rect, scale } ==> !rect.size.empty()
}

/// The rectangle of a mask never comes from one without extent, so no mask without extent is
/// allocated.
pub proof fn no_mask_of_no_extent(b: ClipBounds)
    ensures
        clipped_device_rect(b).only_asks(covers_something()),
{
    let ok = covers_something();
    assert forall|clipped: Option<Rect>| (#[trigger] clipped_to_device(b, clipped)).only_asks(
        ok,
    ) by {
        let p = clipped_to_device(b, clipped);
        if p is Call {
            let k = p->Call_1;
            assert forall|r: Reply| (#[trigger] k(r)).only_asks(ok) by {}
        }
    }
    assert forall|u: Rect, raster: Option<Rect>|
        (#[trigger] clipped_in_raster(b, u, raster)).only_asks(ok) by {
        if raster is Some {
            let k = clipped_in_raster(b, u, raster)->Call_1;
            assert forall|r: Reply| (#[trigger] k(r)).only_asks(ok) by {}
        }
    }
    assert forall|u: Rect, clipped: Option<Rect>|
        (#[trigger] clipped_unmap(b, u, clipped)).only_asks(ok) by {
        if clipped is Some {
            let k = clipped_unmap(b, u, clipped)->Call_1;
            assert forall|r: Reply| (#[trigger] k(r)).only_asks(ok) by {}
        }
    }
    assert forall|u: Rect, world: Option<Rect>|
        (#[trigger] clipped_in_world(b, u, world)).only_asks(ok) by {
        if world is Some {
            let k = clipped_in_world(b, u, world)->Call_1;
            assert forall|r: Reply| (#[trigger] k(r)).only_asks(ok) by {}
        }
    }
    assert forall|u: Rect| (#[trigger] clipped_map(b, u)).only_asks(ok) by {
        let k = clipped_map(b, u)->Call_1;
        assert forall|r: Reply| (#[trigger] k(r)).only_asks(ok) by {}
    }
    let k = clipped_device_rect(b)->Call_1;
    assert forall|r: Reply| (#[trigger] k(r)).only_asks(ok) by {}
}

/// That a mask is drawn at this scale.
pub open spec fn drawn_at(scale: Scalar) -> spec_fn(MaskPlacement) -> bool {
    |m: MaskPlacement| m.device_pixel_scale == scale
}

/// A mask within the limit is drawn as it is: its extents do not exceed the limit, its scale is
/// kept, and its rectangle is only cut to whole pixels, which the mask is then placed at.
pub proof fn mask_within_the_limit_keeps_its_scale(
    device_rect: Rect,
    scale: Scalar,
    placed: IntRect,
)
    requires
        !mask_too_large(device_rect),
    ensures
        adjusted_mask(device_rect, scale).always(drawn_at(scale)),
        adjusted_mask(device_rect, scale) is Call,
        adjusted_mask(device_rect, scale)->Call_0 == (Request::ToIntRect { rect: device_rect }),
        adjusted_mask(device_rect, scale).answered(seq![Reply::IntRect(placed)])
            == Program::Return(MaskPlacement { device_rect: placed, device_pixel_scale: scale }),
        !device_rect.size.width.nan() ==> device_rect.size.width.at_most(
            Scalar { bits: MAX_MASK_SIZE },
        ),
        !device_rect.size.height.nan() ==> device_rect.size.height.at_most(
            Scalar { bits: MAX_MASK_SIZE },
        ),
{
    let k = adjusted_mask(device_rect, scale)->Call_1;
    assert forall|r: Reply| (#[trigger] k(r)).always(drawn_at(scale)) by {}
    answered_once(adjusted_mask(device_rect, scale), Reply::IntRect(placed));
}

/// Whether a rectangle has the size of one in whole pixels.
pub open spec fn same_size(rect: Rect, whole: IntRect) -> bool {
    rect.size.width.is_whole(whole.width as int) && rect.size.height.is_whole(whole.height as int)
}

/// Adjusting a mask a second time changes nothing: the rectangle that a mask was placed at, taken
/// as numbers again, is within the limit, so it is only cut to the whole pixels that it is made of,
/// and placement and scale stay. Of the renderer this needs that the first placement kept the limit
/// and that cutting a rectangle of whole pixels gives those pixels.
pub proof fn adjusting_again_changes_nothing(m: MaskPlacement, again: Rect)
    requires
        0 <= m.device_rect.width <= 4096,
        0 <= m.device_rect.height <= 4096,
        same_size(again, m.device_rect),
    ensures
        !mask_too_large(again),
        adjusted_mask(again, m.device_pixel_scale) is Call,
        adjusted_mask(again, m.device_pixel_scale)->Call_0 == (Request::ToIntRect { rect: again }),
        adjusted_mask(again, m.device_pixel_scale).answered(seq![Reply::IntRect(m.device_rect)])
            == Program::Return(m),
{
    whole_numbers_keep_the_limit(again.size.width, m.device_rect.width as int);
    whole_numbers_keep_the_limit(again.size.height, m.device_rect.height as int);
    mask_within_the_limit_keeps_its_scale(again, m.device_pixel_scale, m.device_rect);
}

/// A mask beyond the limit is scaled by what takes the larger of its extents to just under the
/// limit, and its scale is multiplied by the same factor.
pub proof fn mask_beyond_the_limit_is_scaled(
    device_rect: Rect,
    scale: Scalar,
    factor: Scalar,
    new_scale: Scalar,
    rect: IntRect,
)
    requires
        mask_too_large(device_rect),
    ensures
        ({
            let p = adjusted_mask(device_rect, scale);
            let largest = device_rect.size.width.larger(device_rect.size.height);
            let sized = p.answered(seq![Reply::Number(factor)]);
            let scaled = p.answered(seq![Reply::Number(factor), Reply::Number(new_scale)]);
            &&& p is Call
            &&& p->Call_0 == Request::Evaluate(
                over(value(Scalar { bits: SCALED_MASK_SIZE }), value(largest)),
            )
            &&& !device_rect.size.width.nan() ==> device_rect.size.width.at_most(largest)
            &&& !device_rect.size.height.nan() ==> device_rect.size.height.at_most(largest)
            &&& sized is Call
            &&& sized->Call_0 == Request::Evaluate(times(value(scale), value(factor)))
            &&& scaled is Call
            &&& scaled->Call_0 == (Request::ScaleRoundOut { rect: device_rect, by: factor })
            &&& p.answered(
                seq![Reply::Number(factor), Reply::Number(new_scale), Reply::IntRect(rect)],
            ) == Program::Return(
                MaskPlacement { device_rect: rect, device_pixel_scale: new_scale },
            )
        }),
{
    let p = adjusted_mask(device_rect, scale);
    let one = seq![Reply::Number(factor)];
    let two = seq![Reply::Number(factor), Reply::Number(new_scale)];
    let three = seq![Reply::Number(factor), Reply::Number(new_scale), Reply::IntRect(rect)];
    let k = p->Call_1;
    let q = adjusted_scale(device_rect, scale, factor);
    let l = adjusted_rect(device_rect, factor, new_scale);
    assert(k(Reply::Number(factor)) == q);
    assert((q->Call_1)(Reply::Number(new_scale)) == l);
    assert(p.answered(one) == q.answered(one.drop_first()));
    assert(p.answered(two) == q.answered(two.drop_first()));
    assert(q.answered(two.drop_first()) == l.answered(two.drop_first().drop_first()));
    assert(p.answered(three) == q.answered(three.drop_first()));
    assert(q.answered(three.drop_first()) == l.answered(three.drop_first().drop_first()));
    let last = (l->Call_1)(Reply::IntRect(rect));
    assert(l.answered(three.drop_first().drop_first()) == last.answered(
        three.drop_first().drop_first().drop_first(),
    ));
}

} // verus!
