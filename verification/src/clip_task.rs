//! Clip masks for a primitive.
use vstd::prelude::*;

use crate::brush_clip::{
    draw_mask, mask_task, segment_clip_mask, update_brush_segment_clip_task, BrushSegmentClipTask,
    DrawMask, MaskTarget, SegmentClipBounds,
};
use crate::clip_rect::{
    clipped_device_rect, get_clipped_device_rect, get_unclipped_device_rect,
    unclipped_device_rect, ClipBounds, ClippedDeviceRect, UnclippedDeviceRect,
};
use crate::geometry::{Point, Rect};
use crate::model::{
    BrushSegment, ClipChainInstance, ClipMaskKind, ClipTaskIndex, IndexRange, InstanceModel,
    PictureState, PrimitiveInstanceKind, PrimitiveVisibility, ScratchModel, SegmentInstanceIndex,
    SpatialNodeIndex, SurfaceIndex, TaskId, Work, WorkModel,
};
use crate::program::{
    ask_number, ask_rect, tell, unexpected, Fault, Machine, Program, Progress, Reply, Request,
    Resume,
};
use crate::scalar::Scalar;
use crate::segment_build::{build_segments, build_segments_if_needed, BuildSegments};
use crate::segment_write::in_bounds;

verus! {

/// Where a primitive is clipped.
#[derive(Clone, Copy, Debug, PartialEq, Eq, Structural)]
pub struct ClipPlace {
    pub prim_origin: Point,
    pub prim_spatial_node_index: SpatialNodeIndex,
    pub root_spatial_node_index: SpatialNodeIndex,
    pub surface_index: SurfaceIndex,
    pub state: PictureState,
}

/// What the segments of one primitive are clipped by.
#[derive(Clone, Copy, Debug, PartialEq, Eq, Structural)]
pub struct BrushClipArgs {
    pub place: ClipPlace,
    pub clip_chain: ClipChainInstance,
    pub bounds: SegmentClipBounds,
    pub is_chased: bool,
}

/// A primitive after an attempt to clip it segment by segment.
pub struct BrushClipped {
    pub w: Work,
    /// Whether the segments have got their masks, so that nothing is left to do.
    pub segmented: bool,
}

/// A primitive after an attempt to clip it segment by segment, with sequences.
#[verifier::ext_equal]
pub struct BrushClippedModel {
    pub w: WorkModel,
    pub segmented: bool,
}

impl View for BrushClipped {
    type V = BrushClippedModel;

    open spec fn view(&self) -> BrushClippedModel {
        BrushClippedModel { w: self.w@, segmented: self.segmented }
    }
}

/// The segments of a range of the buffers.
pub open spec fn stored_segments(s: ScratchModel, k: usize) -> Result<
    Option<Seq<BrushSegment>>,
    Fault,
> {
    if k < s.segment_instances.len() && in_bounds(
        s.segment_instances[k as int].segments_range,
        s.segments.len(),
    ) {
        let range = s.segment_instances[k as int].segments_range;
        Ok(Some(s.segments.subrange(range.start as int, range.end as int)))
    } else {
        Err(Fault::NoSegments)
    }
}

/// The segments of a primitive. Only a picture may have none built; where segments are unused,
/// the primitive is drawn as a whole.
pub open spec fn indexed_segments(w: WorkModel, may_be_invalid: bool) -> Result<
    Option<Seq<BrushSegment>>,
    Fault,
> {
    match w.instance.segment_instance_index {
        SegmentInstanceIndex::Unused => Ok(None),
        SegmentInstanceIndex::Invalid => if may_be_invalid {
            Ok(None)
        } else {
            Err(Fault::NoSegments)
        },
        SegmentInstanceIndex::At(k) => stored_segments(w.scratch, k),
    }
}

/// The segments of a gradient; without any it is drawn as a whole.
pub open spec fn some_segments(segments: Seq<BrushSegment>) -> Option<Seq<BrushSegment>> {
    if segments.len() == 0 {
        None
    } else {
        Some(segments)
    }
}

/// The segments that the clip masks of a primitive are made for. Nothing is found for a primitive
/// that is not drawn by segments.
pub open spec fn brush_segments_of(w: WorkModel) -> Result<Option<Seq<BrushSegment>>, Fault> {
    match w.instance.kind {
        PrimitiveInstanceKind::TextRun { .. } => Ok(None),
        PrimitiveInstanceKind::Clear => Ok(None),
        PrimitiveInstanceKind::LineDecoration { .. } => Ok(None),
        PrimitiveInstanceKind::Backdrop { .. } => Ok(None),
        PrimitiveInstanceKind::Image { .. } => indexed_segments(w, false),
        PrimitiveInstanceKind::Picture { .. } => indexed_segments(w, true),
        PrimitiveInstanceKind::YuvImage => indexed_segments(w, false),
        PrimitiveInstanceKind::Rectangle { .. } => indexed_segments(w, false),
        PrimitiveInstanceKind::ImageBorder { brush_segments } => Ok(Some(brush_segments@)),
        PrimitiveInstanceKind::NormalBorder(t) => Ok(Some(t.brush_segments@)),
        PrimitiveInstanceKind::LinearGradient(t) => Ok(some_segments(t.brush_segments@)),
        PrimitiveInstanceKind::RadialGradient(t) => Ok(some_segments(t.brush_segments@)),
        PrimitiveInstanceKind::ConicGradient(t) => Ok(some_segments(t.brush_segments@)),
    }
}

/// Whether a result found at run time is the one stated.
pub open spec fn same_segments(
    found: Result<Option<Vec<BrushSegment>>, Fault>,
    stated: Result<Option<Seq<BrushSegment>>, Fault>,
) -> bool {
    match found {
        Err(fault) => stated == Err::<Option<Seq<BrushSegment>>, Fault>(fault),
        Ok(None) => stated == Ok::<Option<Seq<BrushSegment>>, Fault>(None),
        Ok(Some(v)) => stated == Ok::<Option<Seq<BrushSegment>>, Fault>(Some(v@)),
    }
}

/// Copies a range of segments.
fn copy_range(segments: &Vec<BrushSegment>, range: IndexRange) -> (copied: Vec<BrushSegment>)
    requires
        in_bounds(range, segments@.len()),
    ensures
        copied@ == segments@.subrange(range.start as int, range.end as int),
{
    let mut copied: Vec<BrushSegment> = Vec::new();
    let mut i: usize = range.start;
    while i < range.end
        invariant
            in_bounds(range, segments@.len()),
            range.start <= i <= range.end,
            copied@ == segments@.subrange(range.start as int, i as int),
        decreases range.end - i,
    {
        copied.push(segments[i]);
        i = i + 1;
    }
    copied
}

fn copy_all(segments: &Vec<BrushSegment>) -> (copied: Vec<BrushSegment>)
    ensures
        copied@ == segments@,
{
    copy_range(segments, IndexRange { start: 0, end: segments.len() })
}

fn copy_some(segments: &Vec<BrushSegment>) -> (found: Result<Option<Vec<BrushSegment>>, Fault>)
    ensures
        same_segments(found, Ok(some_segments(segments@))),
{
    if segments.len() == 0 {
        Ok(None)
    } else {
        Ok(Some(copy_all(segments)))
    }
}

fn find_indexed(w: &Work, may_be_invalid: bool) -> (found: Result<
    Option<Vec<BrushSegment>>,
    Fault,
>)
    ensures
        same_segments(found, indexed_segments(w@, may_be_invalid)),
{
    match w.instance.segment_instance_index {
        SegmentInstanceIndex::Unused => Ok(None),
        SegmentInstanceIndex::Invalid => {
            if may_be_invalid {
                Ok(None)
            } else {
                Err(Fault::NoSegments)
            }
        },
        SegmentInstanceIndex::At(k) => {
            if k >= w.scratch.segment_instances.len() {
                return Err(Fault::NoSegments);
            }
            let range = w.scratch.segment_instances[k].segments_range;
            if range.start > range.end || range.end > w.scratch.segments.len() {
                return Err(Fault::NoSegments);
            }
            Ok(Some(copy_range(&w.scratch.segments, range)))
        },
    }
}

fn find_segments(w: &Work) -> (found: Result<Option<Vec<BrushSegment>>, Fault>)
    ensures
        same_segments(found, brush_segments_of(w@)),
{
    match &w.instance.kind {
        PrimitiveInstanceKind::TextRun { .. } => Ok(None),
        PrimitiveInstanceKind::Clear => Ok(None),
        PrimitiveInstanceKind::LineDecoration { .. } => Ok(None),
        PrimitiveInstanceKind::Backdrop { .. } => Ok(None),
        PrimitiveInstanceKind::Image { .. } => find_indexed(w, false),
        PrimitiveInstanceKind::Picture { .. } => find_indexed(w, true),
        PrimitiveInstanceKind::YuvImage => find_indexed(w, false),
        PrimitiveInstanceKind::Rectangle { .. } => find_indexed(w, false),
        PrimitiveInstanceKind::ImageBorder { brush_segments } => Ok(
            Some(copy_all(brush_segments)),
        ),
        PrimitiveInstanceKind::NormalBorder(t) => Ok(Some(copy_all(&t.brush_segments))),
        PrimitiveInstanceKind::LinearGradient(t) => copy_some(&t.brush_segments),
        PrimitiveInstanceKind::RadialGradient(t) => copy_some(&t.brush_segments),
        PrimitiveInstanceKind::ConicGradient(t) => copy_some(&t.brush_segments),
    }
}

/// The buffers with another clip mask at the end.
pub open spec fn with_mask(w: WorkModel, mask: ClipMaskKind) -> WorkModel {
    WorkModel {
        scratch: ScratchModel {
            clip_mask_instances: w.scratch.clip_mask_instances.push(mask),
            ..w.scratch
        },
        ..w
    }
}

/// The primitive with its clip masks at the end of the buffer of masks.
pub open spec fn masks_follow(w: WorkModel, info: PrimitiveVisibility) -> WorkModel {
    w.with_visibility(
        Some(
            PrimitiveVisibility {
                clip_task_index: ClipTaskIndex(w.scratch.clip_mask_instances.len() as usize),
                ..info
            },
        ),
    )
}

pub open spec fn brush_clip_args(
    instance: InstanceModel,
    info: PrimitiveVisibility,
    place: ClipPlace,
    unclipped: Rect,
    device_pixel_scale: Scalar,
) -> BrushClipArgs {
    BrushClipArgs {
        place,
        clip_chain: info.clip_chain,
        bounds: SegmentClipBounds {
            prim_bounding_rect: info.clipped_world_rect,
            root_spatial_node_index: place.root_spatial_node_index,
            surface_index: place.surface_index,
            state: place.state,
            unclipped,
            device_pixel_scale,
        },
        is_chased: instance.is_chased,
    }
}

/// Clips a primitive segment by segment. Each segment appends its mask, and the primitive keeps
/// where the masks begin.
pub open spec fn brush_clip(
    w: WorkModel,
    info: PrimitiveVisibility,
    place: ClipPlace,
    unclipped: Rect,
    device_pixel_scale: Scalar,
) -> Program<BrushClippedModel> {
    let c = brush_clip_args(w.instance, info, place, unclipped, device_pixel_scale);
    match brush_segments_of(w) {
        Err(fault) => Program::Fail(fault),
        Ok(None) => Program::Return(BrushClippedModel { w, segmented: false }),
        Ok(Some(segments)) => if segments.len() == 0 {
            Program::Return(BrushClippedModel { w, segmented: true })
        } else if segments.len() == 1 {
            // The clip chain of the primitive serves its only segment.
            brush_single(
                masks_follow(w, info),
                segment_clip_mask(c.bounds, segments[0].may_need_clip_mask, Some(c.clip_chain)),
            )
        } else {
            ask_rect(
                Request::DirtyRegionBounds,
                |dirty: Rect| brush_from(masks_follow(w, info), c, segments, dirty, 0),
            )
        },
    }
}

pub open spec fn brush_single(w: WorkModel, p: Program<ClipMaskKind>) -> Program<
    BrushClippedModel,
> {
    p.bind(
        |mask: ClipMaskKind|
            Program::Return(BrushClippedModel { w: with_mask(w, mask), segmented: true }),
    )
}

/// The segments from position `i` on. The clips of each are found anew, for the smaller rectangle.
pub open spec fn brush_from(
    w: WorkModel,
    c: BrushClipArgs,
    segments: Seq<BrushSegment>,
    dirty: Rect,
    i: int,
) -> Program<BrushClippedModel>
    decreases segments.len() - i, 4int,
{
    if 0 <= i < segments.len() {
        tell(
            Request::ActivateClips {
                clip_chain: c.clip_chain,
                node: c.place.prim_spatial_node_index,
            },
            brush_translate(w, c, segments, dirty, i),
        )
    } else {
        Program::Return(BrushClippedModel { w, segmented: true })
    }
}

pub open spec fn brush_translate(
    w: WorkModel,
    c: BrushClipArgs,
    segments: Seq<BrushSegment>,
    dirty: Rect,
    i: int,
) -> Program<BrushClippedModel>
    decreases segments.len() - i, 3int,
{
    if 0 <= i < segments.len() {
        ask_rect(
            Request::Translate { rect: segments[i].local_rect, by: c.place.prim_origin },
            |local_rect: Rect| brush_chain(w, c, segments, dirty, i, local_rect),
        )
    } else {
        unexpected()
    }
}

pub open spec fn brush_chain(
    w: WorkModel,
    c: BrushClipArgs,
    segments: Seq<BrushSegment>,
    dirty: Rect,
    i: int,
    local_rect: Rect,
) -> Program<BrushClippedModel>
    decreases segments.len() - i, 2int,
{
    if 0 <= i < segments.len() {
        Program::Call(
            Request::BuildClipChain {
                local_rect,
                state: c.place.state,
                device_pixel_scale: c.bounds.device_pixel_scale,
                dirty_rect: dirty,
                is_chased: c.is_chased,
            },
            |r: Reply|
                match r {
                    Reply::ClipChain(clip_chain) => brush_masked(
                        w,
                        c,
                        segments,
                        dirty,
                        i,
                        segment_clip_mask(c.bounds, segments[i].may_need_clip_mask, clip_chain),
                    ),
                    _ => unexpected(),
                },
        )
    } else {
        unexpected()
    }
}

pub open spec fn brush_masked(
    w: WorkModel,
    c: BrushClipArgs,
    segments: Seq<BrushSegment>,
    dirty: Rect,
    i: int,
    p: Program<ClipMaskKind>,
) -> Program<BrushClippedModel>
    decreases segments.len() - i, 1int,
{
    p.bind(
        |mask: ClipMaskKind|
            if 0 <= i < segments.len() {
                brush_from(with_mask(w, mask), c, segments, dirty, i + 1)
            } else {
                unexpected()
            },
    )
}

/// A run of [`update_clip_task_for_brush`].
pub enum BrushClip {
    Single { w: Work, inner: BrushSegmentClipTask },
    Bounding { w: Work, c: BrushClipArgs, segments: Vec<BrushSegment> },
    Activating { w: Work, c: BrushClipArgs, segments: Vec<BrushSegment>, dirty: Rect, i: usize },
    Translating { w: Work, c: BrushClipArgs, segments: Vec<BrushSegment>, dirty: Rect, i: usize },
    Chaining { w: Work, c: BrushClipArgs, segments: Vec<BrushSegment>, dirty: Rect, i: usize },
    Masking {
        w: Work,
        c: BrushClipArgs,
        segments: Vec<BrushSegment>,
        dirty: Rect,
        i: usize,
        inner: BrushSegmentClipTask,
    },
}

impl BrushClip {
    fn push(w: Work, mask: ClipMaskKind) -> (pushed: Work)
        ensures
            pushed@ == with_mask(w@, mask),
    {
        let mut w = w;
        w.scratch.clip_mask_instances.push(mask);
        w
    }

    fn single(
        w: Work,
        p: Progress<BrushSegmentClipTask>,
        Ghost(g): Ghost<Program<ClipMaskKind>>,
    ) -> (q: Progress<BrushClip>)
        requires
            p.follows(g),
        ensures
            q.follows(brush_single(w@, g)),
    {
        match p {
            Progress::Waiting(inner, q) => Progress::Waiting(BrushClip::Single { w, inner }, q),
            Progress::Done(mask) => Progress::Done(
                BrushClipped { w: BrushClip::push(w, mask), segmented: true },
            ),
            Progress::Failed(fault) => Progress::Failed(fault),
        }
    }

    fn from(
        w: Work,
        c: BrushClipArgs,
        segments: Vec<BrushSegment>,
        dirty: Rect,
        i: usize,
    ) -> (p: Progress<BrushClip>)
        ensures
            p.follows(brush_from(w@, c, segments@, dirty, i as int)),
    {
        if i < segments.len() {
            Progress::Waiting(
                BrushClip::Activating { w, c, segments, dirty, i },
                Request::ActivateClips {
                    clip_chain: c.clip_chain,
                    node: c.place.prim_spatial_node_index,
                },
            )
        } else {
            Progress::Done(BrushClipped { w, segmented: true })
        }
    }

    fn masked(
        w: Work,
        c: BrushClipArgs,
        segments: Vec<BrushSegment>,
        dirty: Rect,
        i: usize,
        p: Progress<BrushSegmentClipTask>,
        Ghost(g): Ghost<Program<ClipMaskKind>>,
    ) -> (q: Progress<BrushClip>)
        requires
            p.follows(g),
        ensures
            q.follows(brush_masked(w@, c, segments@, dirty, i as int, g)),
    {
        match p {
            Progress::Waiting(inner, q) => Progress::Waiting(
                BrushClip::Masking { w, c, segments, dirty, i, inner },
                q,
            ),
            Progress::Done(mask) => {
                if i < segments.len() {
                    BrushClip::from(BrushClip::push(w, mask), c, segments, dirty, i + 1)
                } else {
                    Progress::Failed(Fault::UnexpectedReply)
                }
            },
            Progress::Failed(fault) => Progress::Failed(fault),
        }
    }
}

impl Machine for BrushClip {
    type Out = BrushClipped;

    open spec fn after(self, r: Reply) -> Program<BrushClippedModel> {
        match (self, r) {
            (BrushClip::Single { w, inner }, r) => brush_single(w@, inner.after(r)),
            (BrushClip::Bounding { w, c, segments }, Reply::Rect(dirty)) => brush_from(
                w@,
                c,
                segments@,
                dirty,
                0,
            ),
            (BrushClip::Activating { w, c, segments, dirty, i }, Reply::Ack) => brush_translate(
                w@,
                c,
                segments@,
                dirty,
                i as int,
            ),
            (
                BrushClip::Translating { w, c, segments, dirty, i },
                Reply::Rect(local_rect),
            ) => brush_chain(w@, c, segments@, dirty, i as int, local_rect),
            (
                BrushClip::Chaining { w, c, segments, dirty, i },
                Reply::ClipChain(clip_chain),
            ) => if i < segments@.len() {
                brush_masked(
                    w@,
                    c,
                    segments@,
                    dirty,
                    i as int,
                    segment_clip_mask(
                        c.bounds,
                        segments@[i as int].may_need_clip_mask,
                        clip_chain,
                    ),
                )
            } else {
                unexpected()
            },
            (BrushClip::Masking { w, c, segments, dirty, i, inner }, r) => brush_masked(
                w@,
                c,
                segments@,
                dirty,
                i as int,
                inner.after(r),
            ),
            _ => unexpected(),
        }
    }
}

impl Resume for BrushClip {
    fn resume(self, reply: Reply) -> (p: Progress<Self>) {
        match (self, reply) {
            (BrushClip::Single { w, inner }, reply) => {
                let ghost g = inner.after(reply);
                BrushClip::single(w, inner.resume(reply), Ghost(g))
            },
            (BrushClip::Bounding { w, c, segments }, Reply::Rect(dirty)) => BrushClip::from(
                w,
                c,
                segments,
                dirty,
                0,
            ),
            (BrushClip::Activating { w, c, segments, dirty, i }, Reply::Ack) => {
                if i < segments.len() {
                    let rect = segments[i].local_rect;
                    Progress::Waiting(
                        BrushClip::Translating { w, c, segments, dirty, i },
                        Request::Translate { rect, by: c.place.prim_origin },
                    )
                } else {
                    Progress::Failed(Fault::UnexpectedReply)
                }
            },
            (BrushClip::Translating { w, c, segments, dirty, i }, Reply::Rect(local_rect)) => {
                if i < segments.len() {
                    Progress::Waiting(
                        BrushClip::Chaining { w, c, segments, dirty, i },
                        Request::BuildClipChain {
                            local_rect,
                            state: c.place.state,
                            device_pixel_scale: c.bounds.device_pixel_scale,
                            dirty_rect: dirty,
                            is_chased: c.is_chased,
                        },
                    )
                } else {
                    Progress::Failed(Fault::UnexpectedReply)
                }
            },
            (BrushClip::Chaining { w, c, segments, dirty, i }, Reply::ClipChain(clip_chain)) => {
                if i < segments.len() {
                    let p = update_brush_segment_clip_task(&segments[i], clip_chain, c.bounds);
                    let ghost g = segment_clip_mask(
                        c.bounds,
                        segments@[i as int].may_need_clip_mask,
                        clip_chain,
                    );
                    BrushClip::masked(w, c, segments, dirty, i, p, Ghost(g))
                } else {
                    Progress::Failed(Fault::UnexpectedReply)
                }
            },
            (BrushClip::Masking { w, c, segments, dirty, i, inner }, reply) => {
                let ghost g = inner.after(reply);
                BrushClip::masked(w, c, segments, dirty, i, inner.resume(reply), Ghost(g))
            },
            _ => Progress::Failed(Fault::UnexpectedReply),
        }
    }
}

/// Tries to clip a primitive segment by segment.
pub fn update_clip_task_for_brush(
    w: Work,
    info: PrimitiveVisibility,
    place: ClipPlace,
    unclipped: Rect,
    device_pixel_scale: Scalar,
) -> (p: Progress<BrushClip>)
    ensures
        p.follows(brush_clip(w@, info, place, unclipped, device_pixel_scale)),
{
    let found = find_segments(&w);
    match found {
        Err(fault) => Progress::Failed(fault),
        Ok(None) => Progress::Done(BrushClipped { w, segmented: false }),
        Ok(Some(segments)) => {
            // Without segments there is nowhere for masks to begin.
            if segments.len() == 0 {
                return Progress::Done(BrushClipped { w, segmented: true });
            }
            let c = BrushClipArgs {
                place,
                clip_chain: info.clip_chain,
                bounds: SegmentClipBounds {
                    prim_bounding_rect: info.clipped_world_rect,
                    root_spatial_node_index: place.root_spatial_node_index,
                    surface_index: place.surface_index,
                    state: place.state,
                    unclipped,
                    device_pixel_scale,
                },
                is_chased: w.instance.is_chased,
            };
            let mut w = w;
            let clip_task_index = ClipTaskIndex(w.scratch.clip_mask_instances.len());
            w.instance.visibility_info = Some(PrimitiveVisibility { clip_task_index, ..info });
            if segments.len() == 1 {
                let p = update_brush_segment_clip_task(
                    &segments[0],
                    Some(c.clip_chain),
                    c.bounds,
                );
                let ghost g = segment_clip_mask(
                    c.bounds,
                    segments@[0].may_need_clip_mask,
                    Some(c.clip_chain),
                );
                BrushClip::single(w, p, Ghost(g))
            } else {
                Progress::Waiting(
                    BrushClip::Bounding { w, c, segments },
                    Request::DirtyRegionBounds,
                )
            }
        },
    }
}

/// Finds the clip masks of a primitive: those of its segments where it is drawn by segments, and
/// else one for the whole of it where its clips need one.
pub open spec fn clip_task(w: WorkModel, place: ClipPlace) -> Program<WorkModel> {
    match w.instance.visibility_info {
        None => Program::Fail(Fault::NotVisible),
        Some(info) => ask_number(
            Request::DevicePixelScale { surface: place.surface_index },
            |scale: Scalar|
                clip_unclipped(
                    w,
                    info,
                    place,
                    scale,
                    unclipped_device_rect(info.clip_chain.pic_clip_rect, place.state, scale),
                ),
        ),
    }
}

pub open spec fn clip_unclipped(
    w: WorkModel,
    info: PrimitiveVisibility,
    place: ClipPlace,
    scale: Scalar,
    p: Program<Option<Rect>>,
) -> Program<WorkModel> {
    p.bind(
        |unclipped: Option<Rect>|
            match unclipped {
                None => Program::Return(w),
                Some(rect) => clip_built(
                    info,
                    place,
                    scale,
                    rect,
                    build_segments(w, info.clip_chain.clips_range),
                ),
            },
    )
}

pub open spec fn clip_built(
    info: PrimitiveVisibility,
    place: ClipPlace,
    scale: Scalar,
    unclipped: Rect,
    p: Program<WorkModel>,
) -> Program<WorkModel> {
    p.bind(
        |w: WorkModel|
            clip_brushed(
                info,
                place,
                scale,
                unclipped,
                brush_clip(w, info, place, unclipped, scale),
            ),
    )
}

pub open spec fn whole_bounds(
    info: PrimitiveVisibility,
    place: ClipPlace,
    scale: Scalar,
    unclipped: Rect,
) -> ClipBounds {
    ClipBounds {
        unclipped,
        state: place.state,
        prim_bounding_rect: info.clipped_world_rect,
        device_pixel_scale: scale,
    }
}

pub open spec fn clip_brushed(
    info: PrimitiveVisibility,
    place: ClipPlace,
    scale: Scalar,
    unclipped: Rect,
    p: Program<BrushClippedModel>,
) -> Program<WorkModel> {
    p.bind(
        |b: BrushClippedModel|
            if b.segmented || !info.clip_chain.needs_mask {
                Program::Return(b.w)
            } else {
                clip_whole(
                    b.w,
                    info,
                    place,
                    scale,
                    clipped_device_rect(whole_bounds(info, place, scale, unclipped)),
                )
            },
    )
}

pub open spec fn whole_target(info: PrimitiveVisibility, place: ClipPlace) -> MaskTarget {
    MaskTarget {
        clips_range: info.clip_chain.clips_range,
        root_spatial_node_index: place.root_spatial_node_index,
        surface_index: place.surface_index,
    }
}

pub open spec fn clip_whole(
    w: WorkModel,
    info: PrimitiveVisibility,
    place: ClipPlace,
    scale: Scalar,
    p: Program<Option<Rect>>,
) -> Program<WorkModel> {
    p.bind(
        |device: Option<Rect>|
            match device {
                None => Program::Return(w),
                Some(rect) => clip_masked(
                    w,
                    info,
                    mask_task(whole_target(info, place), rect, scale),
                ),
            },
    )
}

pub open spec fn clip_masked(w: WorkModel, info: PrimitiveVisibility, p: Program<TaskId>) -> Program<
    WorkModel,
> {
    p.bind(
        |mask: TaskId|
            Program::Return(with_mask(masks_follow(w, info), ClipMaskKind::Mask(mask))),
    )
}

/// A run of [`update_clip_task`].
#[allow(inconsistent_fields)]
pub enum UpdateClipTask {
    Scaling { w: Work, info: PrimitiveVisibility, place: ClipPlace },
    Unclipping {
        w: Work,
        info: PrimitiveVisibility,
        place: ClipPlace,
        scale: Scalar,
        inner: UnclippedDeviceRect,
    },
    Building {
        info: PrimitiveVisibility,
        place: ClipPlace,
        scale: Scalar,
        unclipped: Rect,
        inner: BuildSegments,
    },
    Brushing {
        info: PrimitiveVisibility,
        place: ClipPlace,
        scale: Scalar,
        unclipped: Rect,
        inner: BrushClip,
    },
    Clipping {
        w: Work,
        info: PrimitiveVisibility,
        place: ClipPlace,
        scale: Scalar,
        inner: ClippedDeviceRect,
    },
    Masking { w: Work, info: PrimitiveVisibility, inner: DrawMask },
}

impl UpdateClipTask {
    fn unclipped(
        w: Work,
        info: PrimitiveVisibility,
        place: ClipPlace,
        scale: Scalar,
        p: Progress<UnclippedDeviceRect>,
        Ghost(g): Ghost<Program<Option<Rect>>>,
    ) -> (q: Progress<UpdateClipTask>)
        requires
            p.follows(g),
        ensures
            q.follows(clip_unclipped(w@, info, place, scale, g)),
    {
        match p {
            Progress::Waiting(inner, q) => Progress::Waiting(
                UpdateClipTask::Unclipping { w, info, place, scale, inner },
                q,
            ),
            Progress::Done(None) => Progress::Done(w),
            Progress::Done(Some(rect)) => {
                let ghost g2 = build_segments(w@, info.clip_chain.clips_range);
                let p2 = build_segments_if_needed(w, info.clip_chain.clips_range);
                UpdateClipTask::built(info, place, scale, rect, p2, Ghost(g2))
            },
            Progress::Failed(fault) => Progress::Failed(fault),
        }
    }

    fn built(
        info: PrimitiveVisibility,
        place: ClipPlace,
        scale: Scalar,
        unclipped: Rect,
        p: Progress<BuildSegments>,
        Ghost(g): Ghost<Program<WorkModel>>,
    ) -> (q: Progress<UpdateClipTask>)
        requires
            p.follows(g),
        ensures
            q.follows(clip_built(info, place, scale, unclipped, g)),
    {
        match p {
            Progress::Waiting(inner, q) => Progress::Waiting(
                UpdateClipTask::Building { info, place, scale, unclipped, inner },
                q,
            ),
            Progress::Done(w) => {
                let ghost g2 = brush_clip(w@, info, place, unclipped, scale);
                let p2 = update_clip_task_for_brush(w, info, place, unclipped, scale);
                UpdateClipTask::brushed(info, place, scale, unclipped, p2, Ghost(g2))
            },
            Progress::Failed(fault) => Progress::Failed(fault),
        }
    }

    fn brushed(
        info: PrimitiveVisibility,
        place: ClipPlace,
        scale: Scalar,
        unclipped: Rect,
        p: Progress<BrushClip>,
        Ghost(g): Ghost<Program<BrushClippedModel>>,
    ) -> (q: Progress<UpdateClipTask>)
        requires
            p.follows(g),
        ensures
            q.follows(clip_brushed(info, place, scale, unclipped, g)),
    {
        match p {
            Progress::Waiting(inner, q) => Progress::Waiting(
                UpdateClipTask::Brushing { info, place, scale, unclipped, inner },
                q,
            ),
            Progress::Done(b) => {
                if b.segmented || !info.clip_chain.needs_mask {
                    return Progress::Done(b.w);
                }
                let bounds = ClipBounds {
                    unclipped,
                    state: place.state,
                    prim_bounding_rect: info.clipped_world_rect,
                    device_pixel_scale: scale,
                };
                UpdateClipTask::clipped(
                    b.w,
                    info,
                    place,
                    scale,
                    get_clipped_device_rect(bounds),
                    Ghost(clipped_device_rect(bounds)),
                )
            },
            Progress::Failed(fault) => Progress::Failed(fault),
        }
    }

    fn clipped(
        w: Work,
        info: PrimitiveVisibility,
        place: ClipPlace,
        scale: Scalar,
        p: Progress<ClippedDeviceRect>,
        Ghost(g): Ghost<Program<Option<Rect>>>,
    ) -> (q: Progress<UpdateClipTask>)
        requires
            p.follows(g),
        ensures
            q.follows(clip_whole(w@, info, place, scale, g)),
    {
        match p {
            Progress::Waiting(inner, q) => Progress::Waiting(
                UpdateClipTask::Clipping { w, info, place, scale, inner },
                q,
            ),
            Progress::Done(None) => Progress::Done(w),
            Progress::Done(Some(rect)) => {
                let t = MaskTarget {
                    clips_range: info.clip_chain.clips_range,
                    root_spatial_node_index: place.root_spatial_node_index,
                    surface_index: place.surface_index,
                };
                UpdateClipTask::masked(
                    w,
                    info,
                    draw_mask(t, rect, scale),
                    Ghost(mask_task(t, rect, scale)),
                )
            },
            Progress::Failed(fault) => Progress::Failed(fault),
        }
    }

    fn masked(
        w: Work,
        info: PrimitiveVisibility,
        p: Progress<DrawMask>,
        Ghost(g): Ghost<Program<TaskId>>,
    ) -> (q: Progress<UpdateClipTask>)
        requires
            p.follows(g),
        ensures
            q.follows(clip_masked(w@, info, g)),
    {
        match p {
            Progress::Waiting(inner, q) => Progress::Waiting(
                UpdateClipTask::Masking { w, info, inner },
                q,
            ),
            Progress::Done(mask) => {
                let mut w = w;
                let clip_task_index = ClipTaskIndex(w.scratch.clip_mask_instances.len());
                w.scratch.clip_mask_instances.push(ClipMaskKind::Mask(mask));
                w.instance.visibility_info = Some(PrimitiveVisibility { clip_task_index, ..info });
                Progress::Done(w)
            },
            Progress::Failed(fault) => Progress::Failed(fault),
        }
    }
}

impl Machine for UpdateClipTask {
    type Out = Work;

    open spec fn after(self, r: Reply) -> Program<WorkModel> {
        match (self, r) {
            (UpdateClipTask::Scaling { w, info, place }, Reply::Number(scale)) => clip_unclipped(
                w@,
                info,
                place,
                scale,
                unclipped_device_rect(info.clip_chain.pic_clip_rect, place.state, scale),
            ),
            (UpdateClipTask::Unclipping { w, info, place, scale, inner }, r) => clip_unclipped(
                w@,
                info,
                place,
                scale,
                inner.after(r),
            ),
            (UpdateClipTask::Building { info, place, scale, unclipped, inner }, r) => clip_built(
                info,
                place,
                scale,
                unclipped,
                inner.after(r),
            ),
            (UpdateClipTask::Brushing { info, place, scale, unclipped, inner }, r) => clip_brushed(
                info,
                place,
                scale,
                unclipped,
                inner.after(r),
            ),
            (UpdateClipTask::Clipping { w, info, place, scale, inner }, r) => clip_whole(
                w@,
                info,
                place,
                scale,
                inner.after(r),
            ),
            (UpdateClipTask::Masking { w, info, inner }, r) => clip_masked(
                w@,
                info,
                inner.after(r),
            ),
            _ => unexpected(),
        }
    }
}

impl Resume for UpdateClipTask {
    fn resume(self, reply: Reply) -> (p: Progress<Self>) {
        match (self, reply) {
            (UpdateClipTask::Scaling { w, info, place }, Reply::Number(scale)) => {
                let rect = info.clip_chain.pic_clip_rect;
                UpdateClipTask::unclipped(
                    w,
                    info,
                    place,
                    scale,
                    get_unclipped_device_rect(rect, place.state, scale),
                    Ghost(unclipped_device_rect(rect, place.state, scale)),
                )
            },
            (UpdateClipTask::Unclipping { w, info, place, scale, inner }, reply) => {
                let ghost g = inner.after(reply);
                UpdateClipTask::unclipped(w, info, place, scale, inner.resume(reply), Ghost(g))
            },
            (UpdateClipTask::Building { info, place, scale, unclipped, inner }, reply) => {
                let ghost g = inner.after(reply);
                UpdateClipTask::built(info, place, scale, unclipped, inner.resume(reply), Ghost(g))
            },
            (UpdateClipTask::Brushing { info, place, scale, unclipped, inner }, reply) => {
                let ghost g = inner.after(reply);
                UpdateClipTask::brushed(
                    info,
                    place,
                    scale,
                    unclipped,
                    inner.resume(reply),
                    Ghost(g),
                )
            },
            (UpdateClipTask::Clipping { w, info, place, scale, inner }, reply) => {
                let ghost g = inner.after(reply);
                UpdateClipTask::clipped(w, info, place, scale, inner.resume(reply), Ghost(g))
            },
            (UpdateClipTask::Masking { w, info, inner }, reply) => {
                let ghost g = inner.after(reply);
                UpdateClipTask::masked(w, info, inner.resume(reply), Ghost(g))
            },
            _ => Progress::Failed(Fault::UnexpectedReply),
        }
    }
}

/// Finds the clip masks of a primitive.
pub fn update_clip_task(w: Work, place: ClipPlace) -> (p: Progress<UpdateClipTask>)
    ensures
        p.follows(clip_task(w@, place)),
{
    match w.instance.visibility_info {
        None => Progress::Failed(Fault::NotVisible),
        Some(info) => Progress::Waiting(
            UpdateClipTask::Scaling { w, info, place },
            Request::DevicePixelScale { surface: place.surface_index },
        ),
    }
}

} // verus!
