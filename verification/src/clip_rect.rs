//! The device rectangles that clip masks are allocated for.
use vstd::prelude::*;

use crate::geometry::{over, times, value, IntRect, Rect};
use crate::model::PictureState;
use crate::program::{
    ask_int_rect, ask_maybe_rect, ask_number, ask_rect, unexpected, Fault, Machine, Program,
    Progress, Reply, Request, Resume,
};
use crate::scalar::Scalar;

verus! {

/// The encoding of `4096.0`, the largest extent of a mask.
pub const MAX_MASK_SIZE: u32 = 0x4580_0000;

/// The encoding of `4095.0`, the extent that a mask which is too large is scaled to. Rounding out
/// may add a pixel.
pub const SCALED_MASK_SIZE: u32 = 0x457f_f000;

/// The device rectangle of a primitive if it was not clipped.
pub open spec fn unclipped_device_rect(
    prim_rect: Rect,
    state: PictureState,
    device_pixel_scale: Scalar,
) -> Program<Option<Rect>> {
    ask_maybe_rect(
        Request::PictureToRaster { state, rect: prim_rect },
        |mapped: Option<Rect>| scaled_to_device(device_pixel_scale, mapped),
    )
}

pub open spec fn scaled_to_device(
    device_pixel_scale: Scalar,
    mapped: Option<Rect>,
) -> Program<Option<Rect>> {
    match mapped {
        None => Program::Return(None),
        Some(rect) => ask_rect(
            Request::ScaleRect { rect, by: device_pixel_scale },
            |scaled: Rect| Program::Return(Some(scaled)),
        ),
    }
}

/// A run of [`get_unclipped_device_rect`].
pub enum UnclippedDeviceRect {
    Mapping { device_pixel_scale: Scalar },
    Scaling,
}

impl Machine for UnclippedDeviceRect {
    type Out = Option<Rect>;

    open spec fn after(self, r: Reply) -> Program<Option<Rect>> {
        match (self, r) {
            (
                UnclippedDeviceRect::Mapping { device_pixel_scale },
                Reply::MaybeRect(mapped),
            ) => scaled_to_device(device_pixel_scale, mapped),
            (UnclippedDeviceRect::Scaling, Reply::Rect(scaled)) => Program::Return(Some(scaled)),
            _ => unexpected(),
        }
    }
}

impl Resume for UnclippedDeviceRect {
    fn resume(self, reply: Reply) -> (p: Progress<Self>) {
        match (self, reply) {
            (
                UnclippedDeviceRect::Mapping { device_pixel_scale },
                Reply::MaybeRect(Some(rect)),
            ) => Progress::Waiting(
                UnclippedDeviceRect::Scaling,
                Request::ScaleRect { rect, by: device_pixel_scale },
            ),
            (UnclippedDeviceRect::Mapping { .. }, Reply::MaybeRect(None)) => Progress::Done(None),
            (UnclippedDeviceRect::Scaling, Reply::Rect(scaled)) => Progress::Done(Some(scaled)),
            _ => Progress::Failed(Fault::UnexpectedReply),
        }
    }
}

/// Retrieves the exact unsnapped device space rectangle for a primitive.
pub fn get_unclipped_device_rect(
    prim_rect: Rect,
    state: PictureState,
    device_pixel_scale: Scalar,
) -> (p: Progress<UnclippedDeviceRect>)
    ensures
        p.follows(unclipped_device_rect(prim_rect, state, device_pixel_scale)),
{
    Progress::Waiting(
        UnclippedDeviceRect::Mapping { device_pixel_scale },
        Request::PictureToRaster { state, rect: prim_rect },
    )
}

/// What [`get_clipped_device_rect`] works on.
#[derive(Clone, Copy, Debug, PartialEq, Eq, Structural)]
pub struct ClipBounds {
    pub unclipped: Rect,
    pub state: PictureState,
    pub prim_bounding_rect: Rect,
    pub device_pixel_scale: Scalar,
}

/// The part of an unclipped device rectangle that a mask is needed for: the rectangle goes to the
/// world, is clipped there, and comes back. It is nothing as soon as a step leaves nothing.
pub open spec fn clipped_device_rect(b: ClipBounds) -> Program<Option<Rect>> {
    ask_rect(
        Request::UnscaleRect { rect: b.unclipped, by: b.device_pixel_scale },
        |unclipped_raster: Rect| clipped_map(b, unclipped_raster),
    )
}

pub open spec fn clipped_map(b: ClipBounds, unclipped_raster: Rect) -> Program<Option<Rect>> {
    ask_maybe_rect(
        Request::RasterToWorld { state: b.state, rect: unclipped_raster },
        |world: Option<Rect>| clipped_in_world(b, unclipped_raster, world),
    )
}

pub open spec fn clipped_in_world(
    b: ClipBounds,
    unclipped_raster: Rect,
    world: Option<Rect>,
) -> Program<Option<Rect>> {
    match world {
        None => Program::Return(None),
        Some(rect) => ask_maybe_rect(
            Request::Intersect { a: rect, b: b.prim_bounding_rect },
            |clipped: Option<Rect>| clipped_unmap(b, unclipped_raster, clipped),
        ),
    }
}

pub open spec fn clipped_unmap(
    b: ClipBounds,
    unclipped_raster: Rect,
    clipped: Option<Rect>,
) -> Program<Option<Rect>> {
    match clipped {
        None => Program::Return(None),
        Some(rect) => ask_maybe_rect(
            Request::WorldToRaster { state: b.state, rect },
            |raster: Option<Rect>| clipped_in_raster(b, unclipped_raster, raster),
        ),
    }
}

pub open spec fn clipped_in_raster(
    b: ClipBounds,
    unclipped_raster: Rect,
    raster: Option<Rect>,
) -> Program<Option<Rect>> {
    match raster {
        None => Program::Return(None),
        Some(rect) => ask_maybe_rect(
            Request::Intersect { a: rect, b: unclipped_raster },
            |clipped: Option<Rect>| clipped_to_device(b, clipped),
        ),
    }
}

pub open spec fn clipped_to_device(b: ClipBounds, clipped: Option<Rect>) -> Program<Option<Rect>> {
    match clipped {
        None => Program::Return(None),
        Some(rect) => if rect.size.empty() {
            Program::Return(None)
        } else {
            ask_rect(
                Request::RasterToDevicePixels { rect, scale: b.device_pixel_scale },
                |device: Rect| Program::Return(Some(device)),
            )
        },
    }
}

/// A run of [`get_clipped_device_rect`].
pub enum ClippedDeviceRect {
    Unscaling { b: ClipBounds },
    Mapping { b: ClipBounds, unclipped_raster: Rect },
    ClippingInWorld { b: ClipBounds, unclipped_raster: Rect },
    Unmapping { b: ClipBounds, unclipped_raster: Rect },
    ClippingInRaster { b: ClipBounds },
    Snapping,
}

impl Machine for ClippedDeviceRect {
    type Out = Option<Rect>;

    open spec fn after(self, r: Reply) -> Program<Option<Rect>> {
        match (self, r) {
            (ClippedDeviceRect::Unscaling { b }, Reply::Rect(rect)) => clipped_map(b, rect),
            (
                ClippedDeviceRect::Mapping { b, unclipped_raster },
                Reply::MaybeRect(world),
            ) => clipped_in_world(b, unclipped_raster, world),
            (
                ClippedDeviceRect::ClippingInWorld { b, unclipped_raster },
                Reply::MaybeRect(clipped),
            ) => clipped_unmap(b, unclipped_raster, clipped),
            (
                ClippedDeviceRect::Unmapping { b, unclipped_raster },
                Reply::MaybeRect(raster),
            ) => clipped_in_raster(b, unclipped_raster, raster),
            (
                ClippedDeviceRect::ClippingInRaster { b },
                Reply::MaybeRect(clipped),
            ) => clipped_to_device(b, clipped),
            (ClippedDeviceRect::Snapping, Reply::Rect(device)) => Program::Return(Some(device)),
            _ => unexpected(),
        }
    }
}

impl Resume for ClippedDeviceRect {
    fn resume(self, reply: Reply) -> (p: Progress<Self>) {
        match (self, reply) {
            (ClippedDeviceRect::Unscaling { b }, Reply::Rect(unclipped_raster)) => {
                Progress::Waiting(
                    ClippedDeviceRect::Mapping { b, unclipped_raster },
                    Request::RasterToWorld { state: b.state, rect: unclipped_raster },
                )
            },
            (
                ClippedDeviceRect::Mapping { b, unclipped_raster },
                Reply::MaybeRect(Some(rect)),
            ) => Progress::Waiting(
                ClippedDeviceRect::ClippingInWorld { b, unclipped_raster },
                Request::Intersect { a: rect, b: b.prim_bounding_rect },
            ),
            (
                ClippedDeviceRect::ClippingInWorld { b, unclipped_raster },
                Reply::MaybeRect(Some(rect)),
            ) => Progress::Waiting(
                ClippedDeviceRect::Unmapping { b, unclipped_raster },
                Request::WorldToRaster { state: b.state, rect },
            ),
            (
                ClippedDeviceRect::Unmapping { b, unclipped_raster },
                Reply::MaybeRect(Some(rect)),
            ) => Progress::Waiting(
                ClippedDeviceRect::ClippingInRaster { b },
                Request::Intersect { a: rect, b: unclipped_raster },
            ),
            (ClippedDeviceRect::ClippingInRaster { b }, Reply::MaybeRect(Some(rect))) => {
                // A mask of no extent is never allocated.
                if rect.size.is_empty() {
                    Progress::Done(None)
                } else {
                    Progress::Waiting(
                        ClippedDeviceRect::Snapping,
                        Request::RasterToDevicePixels { rect, scale: b.device_pixel_scale },
                    )
                }
            },
            (ClippedDeviceRect::Mapping { .. }, Reply::MaybeRect(None)) => Progress::Done(None),
            (ClippedDeviceRect::ClippingInWorld { .. }, Reply::MaybeRect(None)) => {
                Progress::Done(None)
            },
            (ClippedDeviceRect::Unmapping { .. }, Reply::MaybeRect(None)) => Progress::Done(None),
            (ClippedDeviceRect::ClippingInRaster { .. }, Reply::MaybeRect(None)) => {
                Progress::Done(None)
            },
            (ClippedDeviceRect::Snapping, Reply::Rect(device)) => Progress::Done(Some(device)),
            _ => Progress::Failed(Fault::UnexpectedReply),
        }
    }
}

/// Finds a minimal device space rectangle to allocate a clip mask for, by clipping to the screen.
pub fn get_clipped_device_rect(b: ClipBounds) -> (p: Progress<ClippedDeviceRect>)
    ensures
        p.follows(clipped_device_rect(b)),
{
    Progress::Waiting(
        ClippedDeviceRect::Unscaling { b },
        Request::UnscaleRect { rect: b.unclipped, by: b.device_pixel_scale },
    )
}

/// The rectangle of a mask in whole pixels, and the scale that it is drawn at.
#[derive(Clone, Copy, Debug, PartialEq, Eq, Structural)]
pub struct MaskPlacement {
    pub device_rect: IntRect,
    pub device_pixel_scale: Scalar,
}

impl View for MaskPlacement {
    type V = MaskPlacement;

    open spec fn view(&self) -> MaskPlacement {
        *self
    }
}

/// Whether a mask of this size would be too large.
pub open spec fn mask_too_large(device_rect: Rect) -> bool {
    let limit = Scalar { bits: MAX_MASK_SIZE };
    limit.less(device_rect.size.width) || limit.less(device_rect.size.height)
}

/// The placement of a mask: one that would be too large is scaled so that its larger extent, just
/// under the limit, fits; any other keeps its scale.
pub open spec fn adjusted_mask(
    device_rect: Rect,
    device_pixel_scale: Scalar,
) -> Program<MaskPlacement> {
    if mask_too_large(device_rect) {
        ask_number(
            Request::Evaluate(
                over(
                    value(Scalar { bits: SCALED_MASK_SIZE }),
                    value(device_rect.size.width.larger(device_rect.size.height)),
                ),
            ),
            |scale: Scalar| adjusted_scale(device_rect, device_pixel_scale, scale),
        )
    } else {
        ask_int_rect(
            Request::ToIntRect { rect: device_rect },
            |rect: IntRect|
                Program::Return(MaskPlacement { device_rect: rect, device_pixel_scale }),
        )
    }
}

pub open spec fn adjusted_scale(
    device_rect: Rect,
    device_pixel_scale: Scalar,
    scale: Scalar,
) -> Program<MaskPlacement> {
    ask_number(
        Request::Evaluate(times(value(device_pixel_scale), value(scale))),
        |new_scale: Scalar| adjusted_rect(device_rect, scale, new_scale),
    )
}

pub open spec fn adjusted_rect(
    device_rect: Rect,
    scale: Scalar,
    new_scale: Scalar,
) -> Program<MaskPlacement> {
    ask_int_rect(
        Request::ScaleRoundOut { rect: device_rect, by: scale },
        |rect: IntRect|
            Program::Return(MaskPlacement { device_rect: rect, device_pixel_scale: new_scale }),
    )
}

/// A run of [`adjust_mask_scale_for_max_size`].
pub enum AdjustMask {
    FindingScale { device_rect: Rect, device_pixel_scale: Scalar },
    ScalingScale { device_rect: Rect, scale: Scalar },
    Placing { device_pixel_scale: Scalar },
}

impl Machine for AdjustMask {
    type Out = MaskPlacement;

    open spec fn after(self, r: Reply) -> Program<MaskPlacement> {
        match (self, r) {
            (
                AdjustMask::FindingScale { device_rect, device_pixel_scale },
                Reply::Number(scale),
            ) => adjusted_scale(device_rect, device_pixel_scale, scale),
            (
                AdjustMask::ScalingScale { device_rect, scale },
                Reply::Number(new_scale),
            ) => adjusted_rect(device_rect, scale, new_scale),
            (AdjustMask::Placing { device_pixel_scale }, Reply::IntRect(rect)) => Program::Return(
                MaskPlacement { device_rect: rect, device_pixel_scale },
            ),
            _ => unexpected(),
        }
    }
}

impl Resume for AdjustMask {
    fn resume(self, reply: Reply) -> (p: Progress<Self>) {
        match (self, reply) {
            (
                AdjustMask::FindingScale { device_rect, device_pixel_scale },
                Reply::Number(scale),
            ) => Progress::Waiting(
                AdjustMask::ScalingScale { device_rect, scale },
                Request::Evaluate(times(value(device_pixel_scale), value(scale))),
            ),
            (AdjustMask::ScalingScale { device_rect, scale }, Reply::Number(new_scale)) => {
                Progress::Waiting(
                    AdjustMask::Placing { device_pixel_scale: new_scale },
                    Request::ScaleRoundOut { rect: device_rect, by: scale },
                )
            },
            (AdjustMask::Placing { device_pixel_scale }, Reply::IntRect(rect)) => Progress::Done(
                MaskPlacement { device_rect: rect, device_pixel_scale },
            ),
            _ => Progress::Failed(Fault::UnexpectedReply),
        }
    }
}

/// Ensures that the size of a mask stays within the limit.
pub fn adjust_mask_scale_for_max_size(device_rect: Rect, device_pixel_scale: Scalar) -> (p:
    Progress<AdjustMask>)
    ensures
        p.follows(adjusted_mask(device_rect, device_pixel_scale)),
{
    let limit = Scalar { bits: MAX_MASK_SIZE };
    if limit.is_less(device_rect.size.width) || limit.is_less(device_rect.size.height) {
        let largest = device_rect.size.width.max_of(device_rect.size.height);
        Progress::Waiting(
            AdjustMask::FindingScale { device_rect, device_pixel_scale },
            Request::Evaluate(over(value(Scalar { bits: SCALED_MASK_SIZE }), value(largest))),
        )
    } else {
        Progress::Waiting(
            AdjustMask::Placing { device_pixel_scale },
            Request::ToIntRect { rect: device_rect },
        )
    }
}

} // verus!
