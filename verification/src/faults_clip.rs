//! How the clipping of a primitive can fail, and what it leaves to the pass.
use vstd::prelude::*;

use crate::brush_clip::{
    mask_adjusted, mask_drawn, mask_linked, mask_task, segment_bounded, segment_bounds,
    segment_clip_mask, segment_clipped, segment_drawn, segment_in_world, segment_masked,
    segment_target, MaskTarget, SegmentClipBounds,
};
use crate::clip_rect::{
    adjusted_mask, adjusted_rect, adjusted_scale, clipped_device_rect, clipped_in_raster,
    clipped_in_world, clipped_map, clipped_to_device, clipped_unmap, scaled_to_device,
    unclipped_device_rect, ClipBounds, MaskPlacement,
};
use crate::clip_task::{
    brush_chain, brush_clip, brush_clip_args, brush_from, brush_masked, brush_segments_of,
    brush_single, brush_translate, clip_brushed, clip_built, clip_masked, clip_task,
    clip_unclipped, clip_whole, masks_follow, whole_bounds, whole_target, with_mask, BrushClipArgs,
    BrushClippedModel, ClipPlace,
};
use crate::geometry::{Point, Rect};
use crate::model::{
    BrushSegment, ClipChainInstance, ClipMaskKind, ClipsRange, IndexRange, PictureState,
    PrimitiveVisibility, ScratchModel, SegmentInstanceIndex, TaskId, WorkModel,
};
use crate::prim_brush::segments_written;
use crate::program::{
    fails_only_after, only_asks_after, BoxShadowClipMode, BuiltSegment, ClipNode, Fault, Program,
    Reply, Request,
};
use crate::scalar::Scalar;
use crate::segment_build::{
    build_for_image, build_for_kind, build_for_picture, build_from, build_if_described,
    build_if_invalid, build_segments, describe_clip, describe_from, describe_if_large,
    describe_segments, describe_shadow, describe_shadow_height, describe_shadow_inner,
    kept_segment,
};
use crate::segment_write::{
    write_blocks, write_from, write_granted, write_segments, SegmentSource, PICTURE_BLOCKS,
};

verus! {

/// The faults that a scene which can be drawn leaves open: a reply of the wrong kind, segments that
/// are missing because the renderer could not map the primitive or because it points at none, a
/// gradient that the renderer finds outside its clip, and arithmetic that does not get further along
/// a gradient.
pub open spec fn faults_left() -> spec_fn(Fault) -> bool {
    |fault: Fault|
        fault is UnexpectedReply || fault is NoSegments || fault is OutsideClip
            || fault is EndlessRepetition
}

/// Requests that neither stamp a primitive nor count one.
pub open spec fn neither_stamps_nor_counts() -> spec_fn(Request) -> bool {
    |q: Request| !(q is StampFrame) && !(q is CountVisiblePrimitive)
}

impl<T> Program<T> {
    /// Whether the program neither stamps a primitive nor counts one and, where what it works on is
    /// sound, fails only with the faults that are left.
    pub open spec fn plain(self, sound: bool) -> bool {
        &&& self.only_asks(neither_stamps_nor_counts())
        &&& sound ==> self.fails_only(faults_left())
    }
}

/// Two plain programs in turn are plain.
pub proof fn plain_after<S, T>(p: Program<S>, f: spec_fn(S) -> Program<T>, sound: bool)
    requires
        p.plain(sound),
        forall|s: S| (#[trigger] f(s)).plain(sound),
    ensures
        p.bind(f).plain(sound),
{
    only_asks_after(p, f, neither_stamps_nor_counts());
    if sound {
        fails_only_after(p, f, faults_left());
    }
}

proof fn unclipped_plain(prim_rect: Rect, state: PictureState, scale: Scalar)
    ensures
        unclipped_device_rect(prim_rect, state, scale).plain(true),
{
    assert forall|mapped: Option<Rect>|
        (#[trigger] scaled_to_device(scale, mapped)).plain(true) by {
        let p = scaled_to_device(scale, mapped);
        if p is Call {
            let k = p->Call_1;
            assert forall|r: Reply| (#[trigger] k(r)).plain(true) by {}
        }
    }
    assert(unclipped_device_rect(prim_rect, state, scale).plain(true)) by {
        let p = unclipped_device_rect(prim_rect, state, scale);
        if p is Call {
            let k = p->Call_1;
            assert forall|r: Reply| (#[trigger] k(r)).plain(true) by {}
        }
    }
}

proof fn clipped_plain(b: ClipBounds)
    ensures
        clipped_device_rect(b).plain(true),
{
    assert forall|clipped: Option<Rect>|
        (#[trigger] clipped_to_device(b, clipped)).plain(true) by {
        let p = clipped_to_device(b, clipped);
        if p is Call {
            let k = p->Call_1;
            assert forall|r: Reply| (#[trigger] k(r)).plain(true) by {}
        }
    }
    assert forall|u: Rect, raster: Option<Rect>|
        (#[trigger] clipped_in_raster(b, u, raster)).plain(true) by {
        let p = clipped_in_raster(b, u, raster);
        if p is Call {
            let k = p->Call_1;
            assert forall|r: Reply| (#[trigger] k(r)).plain(true) by {}
        }
    }
    assert forall|u: Rect, clipped: Option<Rect>|
        (#[trigger] clipped_unmap(b, u, clipped)).plain(true) by {
        let p = clipped_unmap(b, u, clipped);
        if p is Call {
            let k = p->Call_1;
            assert forall|r: Reply| (#[trigger] k(r)).plain(true) by {}
        }
    }
    assert forall|u: Rect, world: Option<Rect>|
        (#[trigger] clipped_in_world(b, u, world)).plain(true) by {
        let p = clipped_in_world(b, u, world);
        if p is Call {
            let k = p->Call_1;
            assert forall|r: Reply| (#[trigger] k(r)).plain(true) by {}
        }
    }
    assert forall|u: Rect| (#[trigger] clipped_map(b, u)).plain(true) by {
        let p = clipped_map(b, u);
        if p is Call {
            let k = p->Call_1;
            assert forall|r: Reply| (#[trigger] k(r)).plain(true) by {}
        }
    }
    assert(clipped_device_rect(b).plain(true)) by {
        let p = clipped_device_rect(b);
        if p is Call {
            let k = p->Call_1;
            assert forall|r: Reply| (#[trigger] k(r)).plain(true) by {}
        }
    }
}

proof fn mask_task_plain(t: MaskTarget, device_rect: Rect, scale: Scalar)
    ensures
        mask_task(t, device_rect, scale).plain(true),
{
    assert forall|factor: Scalar, new_scale: Scalar|
        (#[trigger] adjusted_rect(device_rect, factor, new_scale)).plain(true) by {
        let p = adjusted_rect(device_rect, factor, new_scale);
        if p is Call {
            let k = p->Call_1;
            assert forall|r: Reply| (#[trigger] k(r)).plain(true) by {}
        }
    }
    assert forall|factor: Scalar|
        (#[trigger] adjusted_scale(device_rect, scale, factor)).plain(true) by {
        let p = adjusted_scale(device_rect, scale, factor);
        if p is Call {
            let k = p->Call_1;
            assert forall|r: Reply| (#[trigger] k(r)).plain(true) by {}
        }
    }
    assert(adjusted_mask(device_rect, scale).plain(true)) by {
        let p = adjusted_mask(device_rect, scale);
        if p is Call {
            let k = p->Call_1;
            assert forall|r: Reply| (#[trigger] k(r)).plain(true) by {}
        }
    }
    assert forall|mask: TaskId| (#[trigger] mask_linked(t, mask)).plain(true) by {
        let p = mask_linked(t, mask);
        if p is Call {
            let k = p->Call_1;
            assert forall|r: Reply| (#[trigger] k(r)).plain(true) by {
                if let Reply::Task(port) = r {
                    let q = k(r);
                    let after = q->Call_1;
                    assert forall|r: Reply| (#[trigger] after(r)).plain(true) by {}
                }
            }
        }
    }
    assert forall|m: MaskPlacement| (#[trigger] mask_drawn(t, m)).plain(true) by {
        let p = mask_drawn(t, m);
        if p is Call {
            let k = p->Call_1;
            assert forall|r: Reply| (#[trigger] k(r)).plain(true) by {}
        }
    }
    let f = |m: MaskPlacement| mask_drawn(t, m);
    plain_after(adjusted_mask(device_rect, scale), f, true);
    assert(mask_task(t, device_rect, scale) == mask_adjusted(
        t,
        adjusted_mask(device_rect, scale),
    ));
}

proof fn segment_mask_plain(b: SegmentClipBounds, may: bool, clip_chain: Option<ClipChainInstance>)
    ensures
        segment_clip_mask(b, may, clip_chain).plain(true),
{
    if let Some(chain) = clip_chain {
        assert forall|device: Option<Rect>|
            (#[trigger] segment_drawn(b, chain, device)).plain(true) by {
            if let Some(rect) = device {
                let p = mask_task(segment_target(b, chain), rect, b.device_pixel_scale);
                let f = |mask: TaskId| Program::Return(ClipMaskKind::Mask(mask));
                mask_task_plain(segment_target(b, chain), rect, b.device_pixel_scale);
                plain_after(p, f, true);
                assert(segment_drawn(b, chain, device) == segment_masked(p));
            }
        }
        assert forall|clipped: Option<Rect>|
            (#[trigger] segment_bounded(b, chain, clipped)).plain(true) by {
            if let Some(rect) = clipped {
                let p = clipped_device_rect(segment_bounds(b, rect));
                let f = |device: Option<Rect>| segment_drawn(b, chain, device);
                clipped_plain(segment_bounds(b, rect));
                plain_after(p, f, true);
                assert(segment_bounded(b, chain, clipped) == segment_clipped(b, chain, p));
            }
        }
        assert forall|world: Option<Rect>|
            (#[trigger] segment_in_world(b, chain, world)).plain(true) by {
            let p = segment_in_world(b, chain, world);
            if p is Call {
                let k = p->Call_1;
                assert forall|r: Reply| (#[trigger] k(r)).plain(true) by {}
            }
        }
    }
    assert(segment_clip_mask(b, may, clip_chain).plain(true)) by {
        let p = segment_clip_mask(b, may, clip_chain);
        if p is Call {
            let k = p->Call_1;
            assert forall|r: Reply| (#[trigger] k(r)).plain(true) by {}
        }
    }
}

proof fn brush_from_plain(
    w: WorkModel,
    c: BrushClipArgs,
    segments: Seq<BrushSegment>,
    dirty: Rect,
    i: int,
)
    ensures
        brush_from(w, c, segments, dirty, i).plain(true),
    decreases segments.len() - i, 1int, Program::<ClipMaskKind>::Return(ClipMaskKind::Clipped),
{
    if 0 <= i < segments.len() {
        assert forall|local_rect: Rect|
            (#[trigger] brush_chain(w, c, segments, dirty, i, local_rect)).plain(true) by {
            let p = brush_chain(w, c, segments, dirty, i, local_rect);
            if p is Call {
                let k = p->Call_1;
                assert forall|r: Reply| (#[trigger] k(r)).plain(true) by {
                    if let Reply::ClipChain(clip_chain) = r {
                        let may = segments[i].may_need_clip_mask;
                        let inner = segment_clip_mask(c.bounds, may, clip_chain);
                        segment_mask_plain(c.bounds, may, clip_chain);
                        assert(k(r) == brush_masked(w, c, segments, dirty, i, inner));
                        brush_masked_plain(w, c, segments, dirty, i, inner);
                    }
                }
            }
        }
        assert(brush_translate(w, c, segments, dirty, i).plain(true)) by {
            let p = brush_translate(w, c, segments, dirty, i);
            if p is Call {
                let k = p->Call_1;
                assert forall|r: Reply| (#[trigger] k(r)).plain(true) by {
                    if let Reply::Rect(local_rect) = r {
                        assert(k(r) == brush_chain(w, c, segments, dirty, i, local_rect));
                    }
                }
            }
        }
        assert(brush_from(w, c, segments, dirty, i).plain(true)) by {
            let p = brush_from(w, c, segments, dirty, i);
            if p is Call {
                let k = p->Call_1;
                assert forall|r: Reply| (#[trigger] k(r)).plain(true) by {
                    if r is Ack {
                        assert(k(r) == brush_translate(w, c, segments, dirty, i));
                    }
                }
            }
        }
    }
}

proof fn brush_masked_plain(
    w: WorkModel,
    c: BrushClipArgs,
    segments: Seq<BrushSegment>,
    dirty: Rect,
    i: int,
    p: Program<ClipMaskKind>,
)
    requires
        0 <= i < segments.len(),
        p.plain(true),
    ensures
        brush_masked(w, c, segments, dirty, i, p).plain(true),
    decreases segments.len() - i, 0int, p,
{
    match p {
        Program::Return(mask) => {
            let next = with_mask(w, mask);
            assert(brush_masked(w, c, segments, dirty, i, p) == brush_from(
                next,
                c,
                segments,
                dirty,
                i + 1,
            ));
            brush_from_plain(next, c, segments, dirty, i + 1);
        },
        Program::Fail(fault) => {
            assert(brush_masked(w, c, segments, dirty, i, p) == Program::<BrushClippedModel>::Fail(
                fault,
            ));
        },
        Program::Call(q, k) => {
            let after = brush_masked(w, c, segments, dirty, i, p)->Call_1;
            assert forall|r: Reply| (#[trigger] after(r)).plain(true) by {
                assert(k(r).plain(true));
                assert(after(r) == brush_masked(w, c, segments, dirty, i, k(r)));
                brush_masked_plain(w, c, segments, dirty, i, k(r));
            }
        },
    }
}

proof fn brush_clip_plain(
    w: WorkModel,
    info: PrimitiveVisibility,
    place: ClipPlace,
    unclipped: Rect,
    scale: Scalar,
)
    ensures
        brush_clip(w, info, place, unclipped, scale).plain(true),
{
    let c = brush_clip_args(w.instance, info, place, unclipped, scale);
    let from = masks_follow(w, info);
    let p = brush_clip(w, info, place, unclipped, scale);
    if let Ok(Some(segments)) = brush_segments_of(w) {
        if segments.len() == 1 {
            let may = segments[0].may_need_clip_mask;
            let inner = segment_clip_mask(c.bounds, may, Some(c.clip_chain));
            let f = |mask: ClipMaskKind|
                Program::Return(BrushClippedModel { w: with_mask(from, mask), segmented: true });
            segment_mask_plain(c.bounds, may, Some(c.clip_chain));
            plain_after(inner, f, true);
            assert(p == brush_single(from, inner));
        } else if segments.len() > 1 {
            let k = p->Call_1;
            assert forall|r: Reply| (#[trigger] k(r)).plain(true) by {
                if let Reply::Rect(dirty) = r {
                    assert(k(r) == brush_from(from, c, segments, dirty, 0));
                    brush_from_plain(from, c, segments, dirty, 0);
                }
            }
        }
    }
}

proof fn describe_clip_plain(node: ClipNode, rest: Program<bool>)
    requires
        rest.plain(true),
    ensures
        describe_clip(node, rest).plain(true),
{
    assert forall|mode: BoxShadowClipMode, rect: Rect, inner: Rect|
        (#[trigger] describe_shadow(mode, rect, inner, rest)).plain(true) by {
        let p = describe_shadow(mode, rect, inner, rest);
        if p is Call {
            let k = p->Call_1;
            assert forall|r: Reply| (#[trigger] k(r)).plain(true) by {}
        }
    }
    assert forall|mode: BoxShadowClipMode, rect: Rect, width: Scalar, height: Scalar|
        (#[trigger] describe_shadow_inner(mode, rect, width, height, rest)).plain(true) by {
        let p = describe_shadow_inner(mode, rect, width, height, rest);
        if p is Call {
            let k = p->Call_1;
            assert forall|r: Reply| (#[trigger] k(r)).plain(true) by {}
        }
    }
    assert forall|mode: BoxShadowClipMode, rect: Rect, alloc: Scalar, width: Scalar|
        (#[trigger] describe_shadow_height(mode, rect, alloc, width, rest)).plain(true) by {
        let p = describe_shadow_height(mode, rect, alloc, width, rest);
        if p is Call {
            let k = p->Call_1;
            assert forall|r: Reply| (#[trigger] k(r)).plain(true) by {}
        }
    }
    let p = describe_clip(node, rest);
    if node.same_spatial_node && p is Call {
        let k = p->Call_1;
        assert forall|r: Reply| (#[trigger] k(r)).plain(true) by {}
    }
}

proof fn describe_from_plain(clips_range: ClipsRange, i: int)
    ensures
        describe_from(clips_range, i).plain(true),
    decreases clips_range.count - i,
{
    if i < clips_range.count {
        let rest = describe_from(clips_range, i + 1);
        describe_from_plain(clips_range, i + 1);
        let k = describe_from(clips_range, i)->Call_1;
        assert forall|r: Reply| (#[trigger] k(r)).plain(true) by {
            if let Reply::Clip(node) = r {
                assert(k(r) == describe_clip(node, rest));
                describe_clip_plain(node, rest);
            }
        }
    }
}

proof fn describe_plain(rect: Rect, clip_rect: Rect, clips_range: ClipsRange)
    ensures
        describe_segments(rect, clip_rect, clips_range).plain(true),
{
    describe_from_plain(clips_range, 0);
    assert forall|area: Scalar|
        (#[trigger] describe_if_large(rect, clip_rect, clips_range, area)).plain(true) by {
        let p = describe_if_large(rect, clip_rect, clips_range, area);
        if p is Call {
            let k = p->Call_1;
            assert forall|r: Reply| (#[trigger] k(r)).plain(true) by {}
        }
    }
    assert(describe_segments(rect, clip_rect, clips_range).plain(true)) by {
        let p = describe_segments(rect, clip_rect, clips_range);
        if p is Call {
            let k = p->Call_1;
            assert forall|r: Reply| (#[trigger] k(r)).plain(true) by {}
        }
    }
}

proof fn build_from_plain(
    w: WorkModel,
    origin: Point,
    built: Seq<BuiltSegment>,
    i: int,
    kept: Seq<BrushSegment>,
)
    ensures
        build_from(w, origin, built, i, kept).plain(true),
    decreases built.len() - i,
{
    if 0 <= i < built.len() {
        let k = build_from(w, origin, built, i, kept)->Call_1;
        assert forall|r: Reply| (#[trigger] k(r)).plain(true) by {
            if let Reply::Rect(local_rect) = r {
                let more = kept.push(kept_segment(built[i], local_rect));
                assert(k(r) == build_from(w, origin, built, i + 1, more));
                build_from_plain(w, origin, built, i + 1, more);
            }
        }
    }
}

proof fn build_plain(w: WorkModel, clips_range: ClipsRange)
    ensures
        build_segments(w, clips_range).plain(true),
{
    assert forall|w: WorkModel, rect: Rect|
        (#[trigger] build_if_invalid(w, clips_range, rect)).plain(true) by {
        let f = |described: bool| build_if_described(w, rect.origin, described);
        assert forall|described: bool| (#[trigger] f(described)).plain(true) by {
            let p = build_if_described(w, rect.origin, described);
            if described {
                let k = p->Call_1;
                assert forall|r: Reply| (#[trigger] k(r)).plain(true) by {
                    if let Reply::Segments(built) = r {
                        build_from_plain(w, rect.origin, built@, 0, Seq::empty());
                    }
                }
            }
        }
        describe_plain(rect, w.instance.local_clip_rect, clips_range);
        plain_after(
            describe_segments(rect, w.instance.local_clip_rect, clips_range),
            f,
            true,
        );
    }
    assert forall|rect: Rect| (#[trigger] build_for_kind(w, clips_range, rect)).plain(true) by {
        let p = build_for_kind(w, clips_range, rect);
        if p is Call {
            let k = p->Call_1;
            assert forall|r: Reply| (#[trigger] k(r)).plain(true) by {
                if let Reply::Flag(flag) = r {
                    assert(build_for_image(w, clips_range, rect, flag).plain(true));
                    assert(build_for_picture(w, clips_range, rect, flag).plain(true));
                }
            }
        }
    }
    assert(build_segments(w, clips_range).plain(true)) by {
        let p = build_segments(w, clips_range);
        if p is Call {
            let k = p->Call_1;
            assert forall|r: Reply| (#[trigger] k(r)).plain(true) by {}
        }
    }
}

proof fn write_from_plain(s: ScratchModel, range: IndexRange, i: int)
    ensures
        write_from(s, range, i).plain(true),
    decreases range.end - i,
{
    let p = write_from(s, range, i);
    if i < range.end {
        write_from_plain(s, range, i + 1);
    }
    let k = p->Call_1;
    assert forall|r: Reply| (#[trigger] k(r)).plain(true) by {
        if i < range.end && r is Ack {
            assert(k(r) == write_from(s, range, i + 1));
        }
    }
}

proof fn write_blocks_plain(s: ScratchModel, range: IndexRange, n: int)
    ensures
        write_blocks(s, range, n).plain(true),
    decreases PICTURE_BLOCKS - n,
{
    if n < PICTURE_BLOCKS {
        write_blocks_plain(s, range, n + 1);
        let k = write_blocks(s, range, n)->Call_1;
        assert forall|r: Reply| (#[trigger] k(r)).plain(true) by {
            if r is Ack {
                assert(k(r) == write_blocks(s, range, n + 1));
            }
        }
    } else {
        write_from_plain(s, range, range.start as int);
    }
}

proof fn write_plain(s: ScratchModel, index: SegmentInstanceIndex, source: SegmentSource)
    ensures
        write_segments(s, index, source).plain(true),
{
    assert forall|t: ScratchModel, k: int, granted: bool|
        (#[trigger] write_granted(t, k, source, granted)).plain(true) by {
        let range = t.segment_instances[k].segments_range;
        write_from_plain(t, range, range.start as int);
        write_blocks_plain(t, range, 0);
        let p = write_granted(t, k, source, granted);
        if p is Call {
            let after = p->Call_1;
            assert forall|r: Reply| (#[trigger] after(r)).plain(true) by {}
        }
    }
    assert(write_segments(s, index, source).plain(true)) by {
        let p = write_segments(s, index, source);
        if p is Call {
            let k = p->Call_1;
            assert forall|r: Reply| (#[trigger] k(r)).plain(true) by {}
        }
    }
}

/// Writing segments leaves few faults, and neither stamps nor counts a primitive.
pub proof fn segments_written_plain(w: WorkModel, source: SegmentSource)
    ensures
        segments_written(
            w.instance,
            write_segments(w.scratch, w.instance.segment_instance_index, source),
        ).plain(true),
{
    let index = w.instance.segment_instance_index;
    let instance = w.instance;
    let f = |scratch: ScratchModel| Program::Return(WorkModel { instance, scratch });
    write_plain(w.scratch, index, source);
    plain_after(write_segments(w.scratch, index, source), f, true);
}

/// Clipping a primitive that is visible leaves few faults, and neither stamps nor counts it.
pub proof fn clip_task_plain(w: WorkModel, place: ClipPlace)
    requires
        w.instance.visibility_info is Some,
    ensures
        clip_task(w, place).plain(true),
{
    let info = w.instance.visibility_info->0;
    assert forall|o: WorkModel, scale: Scalar, p: Program<Option<Rect>>|
        p.plain(true) implies (#[trigger] clip_whole(o, info, place, scale, p)).plain(true) by {
        let f = |device: Option<Rect>|
            match device {
                None => Program::Return(o),
                Some(rect) => clip_masked(
                    o,
                    info,
                    mask_task(whole_target(info, place), rect, scale),
                ),
            };
        assert forall|device: Option<Rect>| (#[trigger] f(device)).plain(true) by {
            if let Some(rect) = device {
                let g = |mask: TaskId|
                    Program::Return(with_mask(masks_follow(o, info), ClipMaskKind::Mask(mask)));
                mask_task_plain(whole_target(info, place), rect, scale);
                plain_after(mask_task(whole_target(info, place), rect, scale), g, true);
            }
        }
        plain_after(p, f, true);
    }
    assert forall|scale: Scalar, unclipped: Rect, p: Program<BrushClippedModel>|
        p.plain(true) implies (#[trigger] clip_brushed(
        info,
        place,
        scale,
        unclipped,
        p,
    )).plain(true) by {
        let bounds = whole_bounds(info, place, scale, unclipped);
        let f = |b: BrushClippedModel|
            if b.segmented || !info.clip_chain.needs_mask {
                Program::Return(b.w)
            } else {
                clip_whole(
                    b.w,
                    info,
                    place,
                    scale,
                    clipped_device_rect(whole_bounds(info, place, scale, unclipped)),
                )
            };
        clipped_plain(bounds);
        assert forall|b: BrushClippedModel| (#[trigger] f(b)).plain(true) by {}
        plain_after(p, f, true);
    }
    assert forall|scale: Scalar, unclipped: Rect|
        (#[trigger] clip_built(
            info,
            place,
            scale,
            unclipped,
            build_segments(w, info.clip_chain.clips_range),
        )).plain(true) by {
        let f = |o: WorkModel|
            clip_brushed(
                info,
                place,
                scale,
                unclipped,
                brush_clip(o, info, place, unclipped, scale),
            );
        assert forall|o: WorkModel| (#[trigger] f(o)).plain(true) by {
            brush_clip_plain(o, info, place, unclipped, scale);
        }
        build_plain(w, info.clip_chain.clips_range);
        plain_after(build_segments(w, info.clip_chain.clips_range), f, true);
    }
    assert(clip_task(w, place).plain(true)) by {
        let p = clip_task(w, place);
        if p is Call {
            let k = p->Call_1;
            assert forall|r: Reply| (#[trigger] k(r)).plain(true) by {
                if let Reply::Number(scale) = r {
                    let pic_clip_rect = info.clip_chain.pic_clip_rect;
                    let p = unclipped_device_rect(pic_clip_rect, place.state, scale);
                    let f = |unclipped: Option<Rect>|
                        match unclipped {
                            None => Program::Return(w),
                            Some(rect) => clip_built(
                                info,
                                place,
                                scale,
                                rect,
                                build_segments(w, info.clip_chain.clips_range),
                            ),
                        };
                    unclipped_plain(info.clip_chain.pic_clip_rect, place.state, scale);
                    assert forall|unclipped: Option<Rect>|
                        (#[trigger] f(unclipped)).plain(true) by {}
                    plain_after(p, f, true);
                    assert(k(r) == clip_unclipped(w, info, place, scale, p));
                }
            }
        }
    }
}

} // verus!
