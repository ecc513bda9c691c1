//! Where masks are placed: the conversations that find device rectangles and draw masks.
use vstd::prelude::*;

use crate::brush_clip::{
    mask_linked, mask_task, segment_clip_mask, segment_drawn, segment_masked, segment_target,
    MaskTarget, SegmentClipBounds,
};
use crate::clip_rect::{
    adjusted_mask, clipped_device_rect, clipped_in_raster, clipped_in_world, clipped_map,
    clipped_to_device, clipped_unmap, unclipped_device_rect, ClipBounds, MaskPlacement,
};
use crate::conversation::{hands_over_in_bind, talks_in_bind};
use crate::geometry::{over, times, value, IntRect, Rect};
use crate::model::{ClipChainInstance, ClipMaskKind, PictureState, TaskId};
use crate::program::{Program, Reply, Request};
use crate::scalar::Scalar;

verus! {

/// What is not clipped is mapped from its picture to the raster and scaled to device pixels. Where
/// the mapping gives nothing, there is nothing.
pub proof fn unclipped_rectangle_is_mapped_and_scaled<T>(
    rect: Rect,
    state: PictureState,
    scale: Scalar,
    f: spec_fn(Option<Rect>) -> Program<T>,
    mapped: Rect,
    scaled: Rect,
)
    ensures
        ({
            let p = unclipped_device_rect(rect, state, scale).bind(f);
            &&& p.asks(Request::PictureToRaster { state, rect })
            &&& p.on(Reply::MaybeRect(None)) == f(None)
            &&& p.on(Reply::MaybeRect(Some(mapped))).asks(
                Request::ScaleRect { rect: mapped, by: scale },
            )
            &&& p.on(Reply::MaybeRect(Some(mapped))).on(Reply::Rect(scaled)) == f(Some(scaled))
        }),
{
    let p = unclipped_device_rect(rect, state, scale);
    let none = p.on(Reply::MaybeRect(None));
    let some = p.on(Reply::MaybeRect(Some(mapped)));
    talks_in_bind(p, f);
    talks_in_bind(some, f);
    assert(none == Program::<Option<Rect>>::Return(None));
    assert(some.on(Reply::Rect(scaled)) == Program::Return(Some(scaled)));
    hands_over_in_bind(None, f);
    hands_over_in_bind(Some(scaled), f);
}

/// To find what a mask has to cover, the unclipped rectangle is taken back from device pixels to
/// the raster and on to the world; there it is cut to what can be seen of the primitive, goes back
/// to the raster, is cut to where it came from, and goes to device pixels. As soon as nothing is
/// left, or a rectangle that is not both wider and higher than zero, there is nothing to cover.
pub proof fn mask_covers_what_is_seen<T>(
    b: ClipBounds,
    f: spec_fn(Option<Rect>) -> Program<T>,
    raster: Rect,
    world: Rect,
    seen: Rect,
    back: Rect,
    kept: Rect,
    device: Rect,
)
    ensures
        ({
            let zero = Scalar { bits: 0 };
            let nothing = Reply::MaybeRect(None);
            let begun = clipped_device_rect(b).bind(f);
            let in_raster = begun.on(Reply::Rect(raster));
            let in_world = in_raster.on(Reply::MaybeRect(Some(world)));
            let cut = in_world.on(Reply::MaybeRect(Some(seen)));
            let returned = cut.on(Reply::MaybeRect(Some(back)));
            let last = returned.on(Reply::MaybeRect(Some(kept)));
            &&& begun.asks(Request::UnscaleRect { rect: b.unclipped, by: b.device_pixel_scale })
            &&& in_raster.asks(Request::RasterToWorld { state: b.state, rect: raster })
            &&& in_raster.on(nothing) == f(None)
            &&& in_world.asks(Request::Intersect { a: world, b: b.prim_bounding_rect })
            &&& in_world.on(nothing) == f(None)
            &&& cut.asks(Request::WorldToRaster { state: b.state, rect: seen })
            &&& cut.on(nothing) == f(None)
            &&& returned.asks(Request::Intersect { a: back, b: raster })
            &&& returned.on(nothing) == f(None)
            &&& if zero.less(kept.size.width) && zero.less(kept.size.height) {
                &&& last.asks(
                    Request::RasterToDevicePixels { rect: kept, scale: b.device_pixel_scale },
                )
                &&& last.on(Reply::Rect(device)) == f(Some(device))
            } else {
                last == f(None)
            }
        }),
{
    let nothing = Reply::MaybeRect(None);
    let begun = clipped_device_rect(b);
    let in_raster = begun.on(Reply::Rect(raster));
    let in_world = in_raster.on(Reply::MaybeRect(Some(world)));
    let cut = in_world.on(Reply::MaybeRect(Some(seen)));
    let returned = cut.on(Reply::MaybeRect(Some(back)));
    let last = returned.on(Reply::MaybeRect(Some(kept)));
    assert(in_raster == clipped_map(b, raster));
    assert(in_world == clipped_in_world(b, raster, Some(world)));
    assert(cut == clipped_unmap(b, raster, Some(seen)));
    assert(returned == clipped_in_raster(b, raster, Some(back)));
    assert(last == clipped_to_device(b, Some(kept)));
    assert(in_raster.on(nothing) == Program::<Option<Rect>>::Return(None));
    assert(in_world.on(nothing) == Program::<Option<Rect>>::Return(None));
    assert(cut.on(nothing) == Program::<Option<Rect>>::Return(None));
    assert(returned.on(nothing) == Program::<Option<Rect>>::Return(None));
    talks_in_bind(begun, f);
    talks_in_bind(in_raster, f);
    talks_in_bind(in_world, f);
    talks_in_bind(cut, f);
    talks_in_bind(returned, f);
    hands_over_in_bind(None, f);
    hands_over_in_bind(Some(device), f);
    if last is Call {
        talks_in_bind(last, f);
        assert(last.on(Reply::Rect(device)) == Program::Return(Some(device)));
    }
}

/// The larger of two numbers, as their order has it; the second where the first is not a number.
pub open spec fn largest_extent(rect: Rect) -> Scalar {
    if rect.size.width.nan() || rect.size.width.less(rect.size.height) {
        rect.size.height
    } else {
        rect.size.width
    }
}

/// A mask is drawn at the scale of its surface and cut to whole pixels, unless one of its extents
/// is over 4096; then 4095 over the larger extent is the factor that the scale is multiplied by and
/// that the rectangle is scaled by before it is rounded out.
pub proof fn mask_is_placed_within_the_limit<T>(
    rect: Rect,
    scale: Scalar,
    f: spec_fn(MaskPlacement) -> Program<T>,
    factor: Scalar,
    new_scale: Scalar,
    whole: IntRect,
)
    ensures
        ({
            let limit = Scalar { bits: 0x4580_0000 };
            let target = Scalar { bits: 0x457f_f000 };
            let p = adjusted_mask(rect, scale).bind(f);
            if limit.less(rect.size.width) || limit.less(rect.size.height) {
                let sized = p.on(Reply::Number(factor));
                let scaled = sized.on(Reply::Number(new_scale));
                &&& p.asks(Request::Evaluate(over(value(target), value(largest_extent(rect)))))
                &&& sized.asks(Request::Evaluate(times(value(scale), value(factor))))
                &&& scaled.asks(Request::ScaleRoundOut { rect, by: factor })
                &&& scaled.on(Reply::IntRect(whole)) == f(
                    MaskPlacement { device_rect: whole, device_pixel_scale: new_scale },
                )
            } else {
                &&& p.asks(Request::ToIntRect { rect })
                &&& p.on(Reply::IntRect(whole)) == f(
                    MaskPlacement { device_rect: whole, device_pixel_scale: scale },
                )
            }
        }),
{
    let p = adjusted_mask(rect, scale);
    talks_in_bind(p, f);
    hands_over_in_bind(MaskPlacement { device_rect: whole, device_pixel_scale: scale }, f);
    hands_over_in_bind(MaskPlacement { device_rect: whole, device_pixel_scale: new_scale }, f);
    let limit = Scalar { bits: 0x4580_0000 };
    if limit.less(rect.size.width) || limit.less(rect.size.height) {
        let sized = p.on(Reply::Number(factor));
        let scaled = sized.on(Reply::Number(new_scale));
        talks_in_bind(sized, f);
        talks_in_bind(scaled, f);
    }
}

/// A mask that is placed is drawn by a task with the clips and the nodes that it is for, and the
/// port of the surface comes to depend on that task.
pub proof fn mask_is_drawn_and_linked<T>(
    t: MaskTarget,
    rect: Rect,
    scale: Scalar,
    f: spec_fn(TaskId) -> Program<T>,
    factor: Scalar,
    new_scale: Scalar,
    whole: IntRect,
    mask: TaskId,
    port: TaskId,
)
    ensures
        ({
            let limit = Scalar { bits: 0x4580_0000 };
            let target = Scalar { bits: 0x457f_f000 };
            let large = limit.less(rect.size.width) || limit.less(rect.size.height);
            let p = mask_task(t, rect, scale).bind(f);
            let sized = p.on(Reply::Number(factor));
            let scaled = sized.on(Reply::Number(new_scale));
            let placed = if large {
                scaled.on(Reply::IntRect(whole))
            } else {
                p.on(Reply::IntRect(whole))
            };
            let drawn = placed.on(Reply::Task(mask));
            let found = drawn.on(Reply::Task(port));
            &&& if large {
                &&& p.asks(Request::Evaluate(over(value(target), value(largest_extent(rect)))))
                &&& sized.asks(Request::Evaluate(times(value(scale), value(factor))))
                &&& scaled.asks(Request::ScaleRoundOut { rect, by: factor })
            } else {
                p.asks(Request::ToIntRect { rect })
            }
            &&& placed.asks(
                Request::MaskTask {
                    device_rect: whole,
                    clips_range: t.clips_range,
                    root_spatial_node_index: t.root_spatial_node_index,
                    device_pixel_scale: if large {
                        new_scale
                    } else {
                        scale
                    },
                },
            )
            &&& drawn.asks(Request::SurfacePort { surface: t.surface_index })
            &&& found.asks(Request::AddDependency { parent: port, child: mask })
            &&& found.on(Reply::Ack) == f(mask)
        }),
{
    let limit = Scalar { bits: 0x4580_0000 };
    let large = limit.less(rect.size.width) || limit.less(rect.size.height);
    let g = |m: MaskPlacement| crate::brush_clip::mask_drawn(t, m);
    mask_is_placed_within_the_limit(rect, scale, g, factor, new_scale, whole);
    let p = mask_task(t, rect, scale);
    assert(p == adjusted_mask(rect, scale).bind(g));
    let sized = p.on(Reply::Number(factor));
    let scaled = sized.on(Reply::Number(new_scale));
    let placed = if large {
        scaled.on(Reply::IntRect(whole))
    } else {
        p.on(Reply::IntRect(whole))
    };
    let drawn = placed.on(Reply::Task(mask));
    let found = drawn.on(Reply::Task(port));
    talks_in_bind(p, f);
    if large {
        talks_in_bind(sized, f);
        talks_in_bind(scaled, f);
    }
    assert(drawn == mask_linked(t, mask));
    talks_in_bind(placed, f);
    talks_in_bind(drawn, f);
    talks_in_bind(found, f);
    hands_over_in_bind(mask, f);
}

/// A segment without a clip chain is clipped away. One whose clips need no mask goes without, and
/// so does one that no local clip cuts if there are no other clips. Of any other the clipped
/// rectangle goes from the picture to the world, is cut to what can be seen of the primitive, and
/// what is left of the unclipped rectangle there gets a mask with the clips of the segment; where
/// nothing is left, the segment is clipped away.
pub proof fn segment_gets_the_mask_that_its_clips_need(
    b: SegmentClipBounds,
    may_need_clip_mask: bool,
    chain: ClipChainInstance,
    world: Rect,
    seen: Rect,
)
    ensures
        segment_clip_mask(b, may_need_clip_mask, None) == Program::Return(ClipMaskKind::Clipped),
        ({
            let p = segment_clip_mask(b, may_need_clip_mask, Some(chain));
            let mapped = p.on(Reply::MaybeRect(Some(world)));
            let cut = mapped.on(Reply::MaybeRect(Some(seen)));
            let bounds = ClipBounds {
                unclipped: b.unclipped,
                state: b.state,
                prim_bounding_rect: seen,
                device_pixel_scale: b.device_pixel_scale,
            };
            let target = MaskTarget {
                clips_range: chain.clips_range,
                root_spatial_node_index: b.root_spatial_node_index,
                surface_index: b.surface_index,
            };
            let masked = |mask: TaskId| Program::Return(ClipMaskKind::Mask(mask));
            let covered = |device: Option<Rect>|
                match device {
                    None => Program::Return(ClipMaskKind::Clipped),
                    Some(rect) => mask_task(target, rect, b.device_pixel_scale).bind(masked),
                };
            if !chain.needs_mask || (!may_need_clip_mask && !chain.has_non_local_clips) {
                p == Program::Return(ClipMaskKind::Unmasked)
            } else {
                &&& p.asks(Request::PictureToWorld { state: b.state, rect: chain.pic_clip_rect })
                &&& p.on(Reply::MaybeRect(None)) == Program::Return(ClipMaskKind::Clipped)
                &&& mapped.asks(Request::Intersect { a: world, b: b.prim_bounding_rect })
                &&& mapped.on(Reply::MaybeRect(None)) == Program::Return(ClipMaskKind::Clipped)
                &&& cut == clipped_device_rect(bounds).bind(covered)
            }
        }),
{
    let p = segment_clip_mask(b, may_need_clip_mask, Some(chain));
    if chain.needs_mask && (may_need_clip_mask || chain.has_non_local_clips) {
        let masked = |mask: TaskId| Program::Return(ClipMaskKind::Mask(mask));
        let target = MaskTarget {
            clips_range: chain.clips_range,
            root_spatial_node_index: b.root_spatial_node_index,
            surface_index: b.surface_index,
        };
        let covered = |device: Option<Rect>|
            match device {
                None => Program::Return(ClipMaskKind::Clipped),
                Some(rect) => mask_task(target, rect, b.device_pixel_scale).bind(masked),
            };
        let drawn = |device: Option<Rect>| segment_drawn(b, chain, device);
        assert forall|device: Option<Rect>| #[trigger] drawn(device) == covered(device) by {
            if let Some(rect) = device {
                let q = mask_task(segment_target(b, chain), rect, b.device_pixel_scale);
                assert(segment_drawn(b, chain, device) == segment_masked(q));
            }
        }
        assert(drawn =~= covered);
    }
}

} // verus!
