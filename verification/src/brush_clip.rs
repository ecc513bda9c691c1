//! Clip masks for the segments of a brush.
use vstd::prelude::*;

use crate::clip_rect::{
    adjust_mask_scale_for_max_size, adjusted_mask, clipped_device_rect, get_clipped_device_rect,
    AdjustMask, ClipBounds, ClippedDeviceRect, MaskPlacement,
};
use crate::geometry::Rect;
use crate::model::{
    BrushSegment, ClipChainInstance, ClipMaskKind, ClipsRange, PictureState, SpatialNodeIndex,
    SurfaceIndex, TaskId,
};
use crate::program::{
    ask_maybe_rect, ask_task, tell, unexpected, Fault, Machine, Program, Progress, Reply, Request,
    Resume,
};
use crate::scalar::Scalar;

verus! {

/// What a mask is drawn for.
#[derive(Clone, Copy, Debug, PartialEq, Eq, Structural)]
pub struct MaskTarget {
    pub clips_range: ClipsRange,
    pub root_spatial_node_index: SpatialNodeIndex,
    pub surface_index: SurfaceIndex,
}

impl View for TaskId {
    type V = TaskId;

    open spec fn view(&self) -> TaskId {
        *self
    }
}

/// The task that draws a mask, made a dependency of the surface that the mask is used on.
pub open spec fn mask_task(
    t: MaskTarget,
    device_rect: Rect,
    device_pixel_scale: Scalar,
) -> Program<TaskId> {
    mask_adjusted(t, adjusted_mask(device_rect, device_pixel_scale))
}

pub open spec fn mask_adjusted(t: MaskTarget, p: Program<MaskPlacement>) -> Program<TaskId> {
    p.bind(|m: MaskPlacement| mask_drawn(t, m))
}

pub open spec fn mask_drawn(t: MaskTarget, m: MaskPlacement) -> Program<TaskId> {
    ask_task(
        Request::MaskTask {
            device_rect: m.device_rect,
            clips_range: t.clips_range,
            root_spatial_node_index: t.root_spatial_node_index,
            device_pixel_scale: m.device_pixel_scale,
        },
        |mask: TaskId| mask_linked(t, mask),
    )
}

pub open spec fn mask_linked(t: MaskTarget, mask: TaskId) -> Program<TaskId> {
    ask_task(
        Request::SurfacePort { surface: t.surface_index },
        |port: TaskId|
            tell(
                Request::AddDependency { parent: port, child: mask },
                Program::Return(mask),
            ),
    )
}

/// A run of [`draw_mask`].
pub enum DrawMask {
    Adjusting { t: MaskTarget, inner: AdjustMask },
    Drawing { t: MaskTarget },
    FindingPort { mask: TaskId },
    Linking { mask: TaskId },
}

impl DrawMask {
    fn adjusted(
        t: MaskTarget,
        p: Progress<AdjustMask>,
        Ghost(g): Ghost<Program<MaskPlacement>>,
    ) -> (q: Progress<DrawMask>)
        requires
            p.follows(g),
        ensures
            q.follows(mask_adjusted(t, g)),
    {
        match p {
            Progress::Waiting(inner, q) => Progress::Waiting(DrawMask::Adjusting { t, inner }, q),
            Progress::Done(m) => Progress::Waiting(
                DrawMask::Drawing { t },
                Request::MaskTask {
                    device_rect: m.device_rect,
                    clips_range: t.clips_range,
                    root_spatial_node_index: t.root_spatial_node_index,
                    device_pixel_scale: m.device_pixel_scale,
                },
            ),
            Progress::Failed(fault) => Progress::Failed(fault),
        }
    }
}

impl Machine for DrawMask {
    type Out = TaskId;

    open spec fn after(self, r: Reply) -> Program<TaskId> {
        match (self, r) {
            (DrawMask::Adjusting { t, inner }, r) => mask_adjusted(t, inner.after(r)),
            (DrawMask::Drawing { t }, Reply::Task(mask)) => mask_linked(t, mask),
            (DrawMask::FindingPort { mask }, Reply::Task(port)) => tell(
                Request::AddDependency { parent: port, child: mask },
                Program::Return(mask),
            ),
            (DrawMask::Linking { mask }, Reply::Ack) => Program::Return(mask),
            _ => unexpected(),
        }
    }
}

impl Resume for DrawMask {
    fn resume(self, reply: Reply) -> (p: Progress<Self>) {
        match (self, reply) {
            (DrawMask::Adjusting { t, inner }, reply) => {
                let ghost g = inner.after(reply);
                DrawMask::adjusted(t, inner.resume(reply), Ghost(g))
            },
            (DrawMask::Drawing { t }, Reply::Task(mask)) => Progress::Waiting(
                DrawMask::FindingPort { mask },
                Request::SurfacePort { surface: t.surface_index },
            ),
            (DrawMask::FindingPort { mask }, Reply::Task(port)) => Progress::Waiting(
                DrawMask::Linking { mask },
                Request::AddDependency { parent: port, child: mask },
            ),
            (DrawMask::Linking { mask }, Reply::Ack) => Progress::Done(mask),
            _ => Progress::Failed(Fault::UnexpectedReply),
        }
    }
}

/// Requests the task that draws a mask, within the size limit, and makes the surface depend on it.
pub fn draw_mask(t: MaskTarget, device_rect: Rect, device_pixel_scale: Scalar) -> (p: Progress<
    DrawMask,
>)
    ensures
        p.follows(mask_task(t, device_rect, device_pixel_scale)),
{
    DrawMask::adjusted(
        t,
        adjust_mask_scale_for_max_size(device_rect, device_pixel_scale),
        Ghost(adjusted_mask(device_rect, device_pixel_scale)),
    )
}

/// Where the segments of a primitive are clipped.
#[derive(Clone, Copy, Debug, PartialEq, Eq, Structural)]
pub struct SegmentClipBounds {
    pub prim_bounding_rect: Rect,
    pub root_spatial_node_index: SpatialNodeIndex,
    pub surface_index: SurfaceIndex,
    pub state: PictureState,
    pub unclipped: Rect,
    pub device_pixel_scale: Scalar,
}

/// Whether a segment can go without a mask: its clips need none, or they are all local and none
/// of them cuts the segment.
pub open spec fn goes_unmasked(may_need_clip_mask: bool, clip_chain: ClipChainInstance) -> bool {
    !clip_chain.needs_mask || (!may_need_clip_mask && !clip_chain.has_non_local_clips)
}

/// The clip mask of a segment. It is clipped away without a clip chain, or as soon as a rectangle
/// on the way to the mask is nothing.
pub open spec fn segment_clip_mask(
    b: SegmentClipBounds,
    may_need_clip_mask: bool,
    clip_chain: Option<ClipChainInstance>,
) -> Program<ClipMaskKind> {
    match clip_chain {
        None => Program::Return(ClipMaskKind::Clipped),
        Some(clip_chain) => if goes_unmasked(may_need_clip_mask, clip_chain) {
            Program::Return(ClipMaskKind::Unmasked)
        } else {
            ask_maybe_rect(
                Request::PictureToWorld { state: b.state, rect: clip_chain.pic_clip_rect },
                |world: Option<Rect>| segment_in_world(b, clip_chain, world),
            )
        },
    }
}

pub open spec fn segment_in_world(
    b: SegmentClipBounds,
    clip_chain: ClipChainInstance,
    world: Option<Rect>,
) -> Program<ClipMaskKind> {
    match world {
        None => Program::Return(ClipMaskKind::Clipped),
        Some(rect) => ask_maybe_rect(
            Request::Intersect { a: rect, b: b.prim_bounding_rect },
            |clipped: Option<Rect>| segment_bounded(b, clip_chain, clipped),
        ),
    }
}

pub open spec fn segment_bounds(b: SegmentClipBounds, world_rect: Rect) -> ClipBounds {
    ClipBounds {
        unclipped: b.unclipped,
        state: b.state,
        prim_bounding_rect: world_rect,
        device_pixel_scale: b.device_pixel_scale,
    }
}

pub open spec fn segment_bounded(
    b: SegmentClipBounds,
    clip_chain: ClipChainInstance,
    clipped: Option<Rect>,
) -> Program<ClipMaskKind> {
    match clipped {
        None => Program::Return(ClipMaskKind::Clipped),
        Some(rect) => segment_clipped(b, clip_chain, clipped_device_rect(segment_bounds(b, rect))),
    }
}

pub open spec fn segment_clipped(
    b: SegmentClipBounds,
    clip_chain: ClipChainInstance,
    p: Program<Option<Rect>>,
) -> Program<ClipMaskKind> {
    p.bind(|device: Option<Rect>| segment_drawn(b, clip_chain, device))
}

pub open spec fn segment_target(b: SegmentClipBounds, clip_chain: ClipChainInstance) -> MaskTarget {
    MaskTarget {
        clips_range: clip_chain.clips_range,
        root_spatial_node_index: b.root_spatial_node_index,
        surface_index: b.surface_index,
    }
}

pub open spec fn segment_drawn(
    b: SegmentClipBounds,
    clip_chain: ClipChainInstance,
    device: Option<Rect>,
) -> Program<ClipMaskKind> {
    match device {
        None => Program::Return(ClipMaskKind::Clipped),
        Some(rect) => segment_masked(
            mask_task(segment_target(b, clip_chain), rect, b.device_pixel_scale),
        ),
    }
}

pub open spec fn segment_masked(p: Program<TaskId>) -> Program<ClipMaskKind> {
    p.bind(|mask: TaskId| Program::Return(ClipMaskKind::Mask(mask)))
}

/// A run of [`update_brush_segment_clip_task`].
#[allow(inconsistent_fields)]
pub enum BrushSegmentClipTask {
    Mapping { b: SegmentClipBounds, clip_chain: ClipChainInstance },
    Clipping { b: SegmentClipBounds, clip_chain: ClipChainInstance },
    Bounding { b: SegmentClipBounds, clip_chain: ClipChainInstance, inner: ClippedDeviceRect },
    Drawing { inner: DrawMask },
}

impl BrushSegmentClipTask {
    fn clipped(
        b: SegmentClipBounds,
        clip_chain: ClipChainInstance,
        p: Progress<ClippedDeviceRect>,
        Ghost(g): Ghost<Program<Option<Rect>>>,
    ) -> (q: Progress<BrushSegmentClipTask>)
        requires
            p.follows(g),
        ensures
            q.follows(segment_clipped(b, clip_chain, g)),
    {
        match p {
            Progress::Waiting(inner, q) => Progress::Waiting(
                BrushSegmentClipTask::Bounding { b, clip_chain, inner },
                q,
            ),
            Progress::Done(None) => Progress::Done(ClipMaskKind::Clipped),
            Progress::Done(Some(rect)) => {
                let t = MaskTarget {
                    clips_range: clip_chain.clips_range,
                    root_spatial_node_index: b.root_spatial_node_index,
                    surface_index: b.surface_index,
                };
                BrushSegmentClipTask::masked(
                    draw_mask(t, rect, b.device_pixel_scale),
                    Ghost(mask_task(t, rect, b.device_pixel_scale)),
                )
            },
            Progress::Failed(fault) => Progress::Failed(fault),
        }
    }

    fn masked(p: Progress<DrawMask>, Ghost(g): Ghost<Program<TaskId>>) -> (q: Progress<
        BrushSegmentClipTask,
    >)
        requires
            p.follows(g),
        ensures
            q.follows(segment_masked(g)),
    {
        match p {
            Progress::Waiting(inner, q) => Progress::Waiting(
                BrushSegmentClipTask::Drawing { inner },
                q,
            ),
            Progress::Done(mask) => Progress::Done(ClipMaskKind::Mask(mask)),
            Progress::Failed(fault) => Progress::Failed(fault),
        }
    }
}

impl Machine for BrushSegmentClipTask {
    type Out = ClipMaskKind;

    open spec fn after(self, r: Reply) -> Program<ClipMaskKind> {
        match (self, r) {
            (
                BrushSegmentClipTask::Mapping { b, clip_chain },
                Reply::MaybeRect(world),
            ) => segment_in_world(b, clip_chain, world),
            (
                BrushSegmentClipTask::Clipping { b, clip_chain },
                Reply::MaybeRect(clipped),
            ) => segment_bounded(b, clip_chain, clipped),
            (BrushSegmentClipTask::Bounding { b, clip_chain, inner }, r) => segment_clipped(
                b,
                clip_chain,
                inner.after(r),
            ),
            (BrushSegmentClipTask::Drawing { inner }, r) => segment_masked(inner.after(r)),
            _ => unexpected(),
        }
    }
}

impl Resume for BrushSegmentClipTask {
    fn resume(self, reply: Reply) -> (p: Progress<Self>) {
        match (self, reply) {
            (
                BrushSegmentClipTask::Mapping { b, clip_chain },
                Reply::MaybeRect(Some(rect)),
            ) => Progress::Waiting(
                BrushSegmentClipTask::Clipping { b, clip_chain },
                Request::Intersect { a: rect, b: b.prim_bounding_rect },
            ),
            (
                BrushSegmentClipTask::Clipping { b, clip_chain },
                Reply::MaybeRect(Some(rect)),
            ) => {
                let bounds = ClipBounds {
                    unclipped: b.unclipped,
                    state: b.state,
                    prim_bounding_rect: rect,
                    device_pixel_scale: b.device_pixel_scale,
                };
                BrushSegmentClipTask::clipped(
                    b,
                    clip_chain,
                    get_clipped_device_rect(bounds),
                    Ghost(clipped_device_rect(bounds)),
                )
            },
            (BrushSegmentClipTask::Mapping { .. }, Reply::MaybeRect(None)) => Progress::Done(
                ClipMaskKind::Clipped,
            ),
            (BrushSegmentClipTask::Clipping { .. }, Reply::MaybeRect(None)) => Progress::Done(
                ClipMaskKind::Clipped,
            ),
            (BrushSegmentClipTask::Bounding { b, clip_chain, inner }, reply) => {
                let ghost g = inner.after(reply);
                BrushSegmentClipTask::clipped(b, clip_chain, inner.resume(reply), Ghost(g))
            },
            (BrushSegmentClipTask::Drawing { inner }, reply) => {
                let ghost g = inner.after(reply);
                BrushSegmentClipTask::masked(inner.resume(reply), Ghost(g))
            },
            _ => Progress::Failed(Fault::UnexpectedReply),
        }
    }
}

/// Finds the correct clip mask for a segment.
pub fn update_brush_segment_clip_task(
    segment: &BrushSegment,
    clip_chain: Option<ClipChainInstance>,
    b: SegmentClipBounds,
) -> (p: Progress<BrushSegmentClipTask>)
    ensures
        p.follows(segment_clip_mask(b, segment.may_need_clip_mask, clip_chain)),
{
    match clip_chain {
        Some(clip_chain) => {
            if !clip_chain.needs_mask || (!segment.may_need_clip_mask
                && !clip_chain.has_non_local_clips) {
                return Progress::Done(ClipMaskKind::Unmasked);
            }
            Progress::Waiting(
                BrushSegmentClipTask::Mapping { b, clip_chain },
                Request::PictureToWorld { state: b.state, rect: clip_chain.pic_clip_rect },
            )
        },
        None => Progress::Done(ClipMaskKind::Clipped),
    }
}

} // verus!
