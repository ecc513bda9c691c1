//! Splitting a primitive into segments along its clips.
use vstd::prelude::*;

use crate::geometry::{times, value, Block, Point, Rect};
use crate::model::{
    BrushFlags, BrushSegment, ClipsRange, GpuCacheHandle, IndexRange, InstanceModel,
    PrimitiveInstanceKind, ScratchModel, SegmentInstanceIndex, SegmentedInstance, Work, WorkModel,
};
use crate::program::{
    ask_flag, ask_number, ask_rect, tell, unexpected, BoxShadowClipMode, BuiltSegment, ClipItem,
    ClipMode, ClipNode, Fault, Machine, Program, Progress, Reply, Request, Resume,
};
use crate::scalar::{Scalar, MINUS_HALF, ZERO};
use crate::small_list::{
    new_segments, push_segment, segment_count, segment_items, segments_into_vec, SegmentList,
};

verus! {

/// The encoding of `16384.0`, the area of a square of 128 pixels. A smaller brush is not split.
pub const MIN_BRUSH_SPLIT_AREA: u32 = 0x4680_0000;

/// Hands the clips of a primitive to the segment builder. The result tells whether segments can
/// be built.
pub open spec fn describe_segments(
    prim_local_rect: Rect,
    prim_local_clip_rect: Rect,
    clips_range: ClipsRange,
) -> Program<bool> {
    ask_number(
        Request::Evaluate(
            times(value(prim_local_rect.size.width), value(prim_local_rect.size.height)),
        ),
        |area: Scalar|
            describe_if_large(prim_local_rect, prim_local_clip_rect, clips_range, area),
    )
}

pub open spec fn describe_if_large(
    prim_local_rect: Rect,
    prim_local_clip_rect: Rect,
    clips_range: ClipsRange,
    area: Scalar,
) -> Program<bool> {
    if area.less(Scalar { bits: MIN_BRUSH_SPLIT_AREA }) {
        Program::Return(false)
    } else {
        tell(
            Request::InitializeSegmentBuilder {
                local_rect: prim_local_rect,
                local_clip_rect: prim_local_clip_rect,
            },
            describe_from(clips_range, 0),
        )
    }
}

/// The clips from position `i` on.
pub open spec fn describe_from(clips_range: ClipsRange, i: int) -> Program<bool>
    decreases clips_range.count - i,
{
    if i < clips_range.count {
        Program::Call(
            Request::ClipNode { clips_range, index: i as u32 },
            |r: Reply|
                match r {
                    Reply::Clip(node) => describe_clip(
                        node,
                        describe_from(clips_range, i + 1),
                    ),
                    _ => unexpected(),
                },
        )
    } else {
        Program::Return(true)
    }
}

/// One clip, and then the rest. A clip with another positioning node is passed over, an image
/// mask ends the attempt.
pub open spec fn describe_clip(node: ClipNode, rest: Program<bool>) -> Program<bool> {
    if !node.same_spatial_node {
        rest
    } else {
        match node.item {
            ClipItem::RoundedRectangle { rect, radius, mode } => tell(
                Request::PushClipRect { rect, radius: Some(radius), mode },
                rest,
            ),
            ClipItem::Rectangle { rect, mode } => tell(
                Request::PushClipRect { rect, radius: None, mode },
                rest,
            ),
            ClipItem::BoxShadow { clip_mode, prim_shadow_rect, original_alloc_size } => ask_number(
                Request::Evaluate(
                    times(value(Scalar { bits: MINUS_HALF }), value(original_alloc_size.width)),
                ),
                |width: Scalar|
                    describe_shadow_height(
                        clip_mode,
                        prim_shadow_rect,
                        original_alloc_size.height,
                        width,
                        rest,
                    ),
            ),
            ClipItem::Image => Program::Return(false),
        }
    }
}

pub open spec fn describe_shadow_height(
    clip_mode: BoxShadowClipMode,
    rect: Rect,
    alloc_height: Scalar,
    width: Scalar,
    rest: Program<bool>,
) -> Program<bool> {
    ask_number(
        Request::Evaluate(times(value(Scalar { bits: MINUS_HALF }), value(alloc_height))),
        |height: Scalar| describe_shadow_inner(clip_mode, rect, width, height, rest),
    )
}

pub open spec fn describe_shadow_inner(
    clip_mode: BoxShadowClipMode,
    rect: Rect,
    width: Scalar,
    height: Scalar,
    rest: Program<bool>,
) -> Program<bool> {
    ask_rect(
        Request::Inflate { rect, width, height },
        |inner_rect: Rect| describe_shadow(clip_mode, rect, inner_rect, rest),
    )
}

/// The pixels that an inset shadow cannot reach are clipped out.
pub open spec fn inner_clip_mode(clip_mode: BoxShadowClipMode) -> Option<ClipMode> {
    match clip_mode {
        BoxShadowClipMode::Outset => None,
        BoxShadowClipMode::Inset => Some(ClipMode::ClipOut),
    }
}

pub open spec fn describe_shadow(
    clip_mode: BoxShadowClipMode,
    rect: Rect,
    inner_rect: Rect,
    rest: Program<bool>,
) -> Program<bool> {
    tell(
        Request::PushMaskRegion {
            outer_rect: rect,
            inner_rect,
            inner_clip_mode: inner_clip_mode(clip_mode),
        },
        rest,
    )
}

/// A run of [`write_brush_segment_description`].
pub enum DescribeSegments {
    Measuring { prim_local_rect: Rect, prim_local_clip_rect: Rect, clips_range: ClipsRange },
    Fetching { clips_range: ClipsRange, i: u32 },
    ShadowWidth {
        clips_range: ClipsRange,
        i: u32,
        clip_mode: BoxShadowClipMode,
        rect: Rect,
        alloc_height: Scalar,
    },
    ShadowHeight {
        clips_range: ClipsRange,
        i: u32,
        clip_mode: BoxShadowClipMode,
        rect: Rect,
        width: Scalar,
    },
    ShadowInner { clips_range: ClipsRange, i: u32, clip_mode: BoxShadowClipMode, rect: Rect },
    /// What came before clip `i` has been handed over.
    Pushing { clips_range: ClipsRange, i: u32 },
}

impl DescribeSegments {
    fn next(clips_range: ClipsRange, i: u32) -> (p: Progress<DescribeSegments>)
        ensures
            p.follows(describe_from(clips_range, i as int)),
    {
        if i < clips_range.count {
            Progress::Waiting(
                DescribeSegments::Fetching { clips_range, i },
                Request::ClipNode { clips_range, index: i },
            )
        } else {
            Progress::Done(true)
        }
    }

    fn clip(clips_range: ClipsRange, i: u32, node: ClipNode) -> (p: Progress<DescribeSegments>)
        requires
            i < clips_range.count,
        ensures
            p.follows(describe_clip(node, describe_from(clips_range, i + 1))),
    {
        if !node.same_spatial_node {
            return DescribeSegments::next(clips_range, i + 1);
        }
        match node.item {
            ClipItem::RoundedRectangle { rect, radius, mode } => Progress::Waiting(
                DescribeSegments::Pushing { clips_range, i: i + 1 },
                Request::PushClipRect { rect, radius: Some(radius), mode },
            ),
            ClipItem::Rectangle { rect, mode } => Progress::Waiting(
                DescribeSegments::Pushing { clips_range, i: i + 1 },
                Request::PushClipRect { rect, radius: None, mode },
            ),
            ClipItem::BoxShadow { clip_mode, prim_shadow_rect, original_alloc_size } => {
                Progress::Waiting(
                    DescribeSegments::ShadowWidth {
                        clips_range,
                        i: i + 1,
                        clip_mode,
                        rect: prim_shadow_rect,
                        alloc_height: original_alloc_size.height,
                    },
                    Request::Evaluate(
                        times(
                            value(Scalar { bits: MINUS_HALF }),
                            value(original_alloc_size.width),
                        ),
                    ),
                )
            },
            ClipItem::Image => Progress::Done(false),
        }
    }
}

impl Machine for DescribeSegments {
    type Out = bool;

    open spec fn after(self, r: Reply) -> Program<bool> {
        match (self, r) {
            (
                DescribeSegments::Measuring { prim_local_rect, prim_local_clip_rect, clips_range },
                Reply::Number(area),
            ) => describe_if_large(prim_local_rect, prim_local_clip_rect, clips_range, area),
            (DescribeSegments::Fetching { clips_range, i }, Reply::Clip(node)) => if i
                < clips_range.count {
                describe_clip(node, describe_from(clips_range, i + 1))
            } else {
                unexpected()
            },
            (
                DescribeSegments::ShadowWidth { clips_range, i, clip_mode, rect, alloc_height },
                Reply::Number(width),
            ) => describe_shadow_height(
                clip_mode,
                rect,
                alloc_height,
                width,
                describe_from(clips_range, i as int),
            ),
            (
                DescribeSegments::ShadowHeight { clips_range, i, clip_mode, rect, width },
                Reply::Number(height),
            ) => describe_shadow_inner(
                clip_mode,
                rect,
                width,
                height,
                describe_from(clips_range, i as int),
            ),
            (
                DescribeSegments::ShadowInner { clips_range, i, clip_mode, rect },
                Reply::Rect(inner_rect),
            ) => describe_shadow(
                clip_mode,
                rect,
                inner_rect,
                describe_from(clips_range, i as int),
            ),
            (DescribeSegments::Pushing { clips_range, i }, Reply::Ack) => describe_from(
                clips_range,
                i as int,
            ),
            _ => unexpected(),
        }
    }
}

impl Resume for DescribeSegments {
    fn resume(self, reply: Reply) -> (p: Progress<Self>) {
        match (self, reply) {
            (
                DescribeSegments::Measuring { prim_local_rect, prim_local_clip_rect, clips_range },
                Reply::Number(area),
            ) => {
                // A small brush is drawn as a single primitive with a clip mask.
                if area.is_less(Scalar { bits: MIN_BRUSH_SPLIT_AREA }) {
                    Progress::Done(false)
                } else {
                    Progress::Waiting(
                        DescribeSegments::Pushing { clips_range, i: 0 },
                        Request::InitializeSegmentBuilder {
                            local_rect: prim_local_rect,
                            local_clip_rect: prim_local_clip_rect,
                        },
                    )
                }
            },
            (DescribeSegments::Fetching { clips_range, i }, Reply::Clip(node)) => {
                if i < clips_range.count {
                    DescribeSegments::clip(clips_range, i, node)
                } else {
                    Progress::Failed(Fault::UnexpectedReply)
                }
            },
            (
                DescribeSegments::ShadowWidth { clips_range, i, clip_mode, rect, alloc_height },
                Reply::Number(width),
            ) => Progress::Waiting(
                DescribeSegments::ShadowHeight { clips_range, i, clip_mode, rect, width },
                Request::Evaluate(
                    times(value(Scalar { bits: MINUS_HALF }), value(alloc_height)),
                ),
            ),
            (
                DescribeSegments::ShadowHeight { clips_range, i, clip_mode, rect, width },
                Reply::Number(height),
            ) => Progress::Waiting(
                DescribeSegments::ShadowInner { clips_range, i, clip_mode, rect },
                Request::Inflate { rect, width, height },
            ),
            (
                DescribeSegments::ShadowInner { clips_range, i, clip_mode, rect },
                Reply::Rect(inner_rect),
            ) => {
                let inner_clip_mode = match clip_mode {
                    BoxShadowClipMode::Outset => None,
                    BoxShadowClipMode::Inset => Some(ClipMode::ClipOut),
                };
                Progress::Waiting(
                    DescribeSegments::Pushing { clips_range, i },
                    Request::PushMaskRegion { outer_rect: rect, inner_rect, inner_clip_mode },
                )
            },
            (DescribeSegments::Pushing { clips_range, i }, Reply::Ack) => {
                DescribeSegments::next(clips_range, i)
            },
            _ => Progress::Failed(Fault::UnexpectedReply),
        }
    }
}

/// Segments the primitive on all the local clips that it can.
pub fn write_brush_segment_description(
    prim_local_rect: Rect,
    prim_local_clip_rect: Rect,
    clips_range: ClipsRange,
) -> (p: Progress<DescribeSegments>)
    ensures
        p.follows(describe_segments(prim_local_rect, prim_local_clip_rect, clips_range)),
{
    Progress::Waiting(
        DescribeSegments::Measuring { prim_local_rect, prim_local_clip_rect, clips_range },
        Request::Evaluate(
            times(value(prim_local_rect.size.width), value(prim_local_rect.size.height)),
        ),
    )
}

/// A block of four zeros.
pub open spec fn zero_block() -> Block {
    let zero = Scalar { bits: ZERO };
    Block { x: zero, y: zero, z: zero, w: zero }
}

/// Four zeros.
pub fn zeros() -> (b: Block)
    ensures
        b == zero_block(),
{
    let zero = Scalar { bits: ZERO };
    Block { x: zero, y: zero, z: zero, w: zero }
}

/// Builds the segments of a primitive that can have them and has none that are up to date.
pub open spec fn build_segments(w: WorkModel, clips_range: ClipsRange) -> Program<WorkModel> {
    ask_rect(
        Request::LocalPrimRect { prim: w.instance.id },
        |prim_local_rect: Rect| build_for_kind(w, clips_range, prim_local_rect),
    )
}

pub open spec fn build_for_kind(
    w: WorkModel,
    clips_range: ClipsRange,
    prim_local_rect: Rect,
) -> Program<WorkModel> {
    match w.instance.kind {
        PrimitiveInstanceKind::Rectangle { .. } => build_if_invalid(
            w,
            clips_range,
            prim_local_rect,
        ),
        PrimitiveInstanceKind::YuvImage => build_if_invalid(w, clips_range, prim_local_rect),
        PrimitiveInstanceKind::Image { .. } => ask_flag(
            Request::IsTiledImage { prim: w.instance.id },
            |tiled: bool| build_for_image(w, clips_range, prim_local_rect, tiled),
        ),
        PrimitiveInstanceKind::Picture { pic_index } => ask_flag(
            Request::CanUseSegments { pic_index },
            |can: bool| build_for_picture(w, clips_range, prim_local_rect, can),
        ),
        _ => Program::Return(w),
    }
}

/// A tiled image has one segment for each visible tile instead.
pub open spec fn build_for_image(
    w: WorkModel,
    clips_range: ClipsRange,
    prim_local_rect: Rect,
    tiled: bool,
) -> Program<WorkModel> {
    if tiled {
        Program::Return(w.with_segments(SegmentInstanceIndex::Unused))
    } else {
        build_if_invalid(w, clips_range, prim_local_rect)
    }
}

/// Segments of a picture that are out of date are given up.
pub open spec fn refreshed(w: WorkModel) -> WorkModel {
    if w.instance.segments_are_valid {
        w
    } else {
        WorkModel {
            instance: InstanceModel {
                segment_instance_index: SegmentInstanceIndex::Invalid,
                segments_are_valid: true,
                ..w.instance
            },
            ..w
        }
    }
}

pub open spec fn build_for_picture(
    w: WorkModel,
    clips_range: ClipsRange,
    prim_local_rect: Rect,
    can: bool,
) -> Program<WorkModel> {
    if can {
        build_if_invalid(refreshed(w), clips_range, prim_local_rect)
    } else {
        Program::Return(w)
    }
}

pub open spec fn build_if_invalid(
    w: WorkModel,
    clips_range: ClipsRange,
    prim_local_rect: Rect,
) -> Program<WorkModel> {
    if w.instance.segment_instance_index == SegmentInstanceIndex::Invalid {
        build_described(
            w,
            prim_local_rect.origin,
            describe_segments(prim_local_rect, w.instance.local_clip_rect, clips_range),
        )
    } else {
        Program::Return(w)
    }
}

pub open spec fn build_described(w: WorkModel, origin: Point, p: Program<bool>) -> Program<
    WorkModel,
> {
    p.bind(|described: bool| build_if_described(w, origin, described))
}

pub open spec fn build_if_described(w: WorkModel, origin: Point, described: bool) -> Program<
    WorkModel,
> {
    if described {
        Program::Call(
            Request::BuildSegments,
            |r: Reply|
                match r {
                    Reply::Segments(built) => build_from(
                        w,
                        origin,
                        built@,
                        0,
                        Seq::<BrushSegment>::empty(),
                    ),
                    _ => unexpected(),
                },
        )
    } else {
        Program::Return(segments_stored(w, Seq::<BrushSegment>::empty()))
    }
}

/// The segment that a primitive keeps, in its own space.
pub open spec fn kept_segment(built: BuiltSegment, local_rect: Rect) -> BrushSegment {
    BrushSegment {
        local_rect,
        may_need_clip_mask: built.has_mask,
        edge_flags: built.edge_flags,
        extra_data: zero_block(),
        brush_flags: BrushFlags::PerspectiveInterpolation,
    }
}

/// The built segments from position `i` on are added to those that are kept already.
pub open spec fn build_from(
    w: WorkModel,
    origin: Point,
    built: Seq<BuiltSegment>,
    i: int,
    kept: Seq<BrushSegment>,
) -> Program<WorkModel>
    decreases built.len() - i,
{
    if 0 <= i < built.len() {
        ask_rect(
            Request::TranslateBack { rect: built[i].rect, by: origin },
            |local_rect: Rect|
                build_from(w, origin, built, i + 1, kept.push(kept_segment(built[i], local_rect))),
        )
    } else {
        Program::Return(segments_stored(w, kept))
    }
}

/// The buffers with the segments of another instance at their ends.
pub open spec fn with_segmented_instance(s: ScratchModel, kept: Seq<BrushSegment>) -> ScratchModel {
    ScratchModel {
        segments: s.segments + kept,
        segment_instances: s.segment_instances.push(
            SegmentedInstance {
                segments_range: IndexRange {
                    start: s.segments.len() as usize,
                    end: (s.segments.len() + kept.len()) as usize,
                },
                gpu_cache_handle: GpuCacheHandle { slot: None },
            },
        ),
        ..s
    }
}

/// A single segment brings nothing, so only two or more are stored.
pub open spec fn segments_stored(w: WorkModel, kept: Seq<BrushSegment>) -> WorkModel {
    if kept.len() <= 1 {
        w.with_segments(SegmentInstanceIndex::Unused)
    } else {
        WorkModel {
            instance: w.instance.with_segments(
                SegmentInstanceIndex::At(w.scratch.segment_instances.len() as usize),
            ),
            scratch: with_segmented_instance(w.scratch, kept),
        }
    }
}

/// A run of [`build_segments_if_needed`].
pub enum BuildSegments {
    Locating { w: Work, clips_range: ClipsRange },
    CheckingImage { w: Work, clips_range: ClipsRange, prim_local_rect: Rect },
    CheckingPicture { w: Work, clips_range: ClipsRange, prim_local_rect: Rect },
    Describing { w: Work, origin: Point, inner: DescribeSegments },
    Building { w: Work, origin: Point },
    Translating { w: Work, origin: Point, built: Vec<BuiltSegment>, i: usize, kept: SegmentList },
}

impl BuildSegments {
    fn if_invalid(w: Work, clips_range: ClipsRange, prim_local_rect: Rect) -> (p: Progress<
        BuildSegments,
    >)
        ensures
            p.follows(build_if_invalid(w@, clips_range, prim_local_rect)),
    {
        match w.instance.segment_instance_index {
            SegmentInstanceIndex::Invalid => {
                let clip = w.instance.local_clip_rect;
                BuildSegments::described(
                    w,
                    prim_local_rect.origin,
                    write_brush_segment_description(prim_local_rect, clip, clips_range),
                    Ghost(describe_segments(prim_local_rect, clip, clips_range)),
                )
            },
            _ => Progress::Done(w),
        }
    }

    fn described(
        w: Work,
        origin: Point,
        p: Progress<DescribeSegments>,
        Ghost(g): Ghost<Program<bool>>,
    ) -> (q: Progress<BuildSegments>)
        requires
            p.follows(g),
        ensures
            q.follows(build_described(w@, origin, g)),
    {
        match p {
            Progress::Waiting(inner, q) => Progress::Waiting(
                BuildSegments::Describing { w, origin, inner },
                q,
            ),
            Progress::Done(true) => Progress::Waiting(
                BuildSegments::Building { w, origin },
                Request::BuildSegments,
            ),
            Progress::Done(false) => Progress::Done(BuildSegments::store(w, new_segments())),
            Progress::Failed(fault) => Progress::Failed(fault),
        }
    }

    fn from(w: Work, origin: Point, built: Vec<BuiltSegment>, i: usize, kept: SegmentList) -> (p:
        Progress<BuildSegments>)
        ensures
            p.follows(build_from(w@, origin, built@, i as int, segment_items(kept))),
    {
        if i < built.len() {
            let rect = built[i].rect;
            Progress::Waiting(
                BuildSegments::Translating { w, origin, built, i, kept },
                Request::TranslateBack { rect, by: origin },
            )
        } else {
            Progress::Done(BuildSegments::store(w, kept))
        }
    }

    fn store(w: Work, kept: SegmentList) -> (stored: Work)
        ensures
            stored@ == segments_stored(w@, segment_items(kept)),
    {
        let mut w = w;
        if segment_count(&kept) <= 1 {
            w.instance.segment_instance_index = SegmentInstanceIndex::Unused;
        } else {
            let start: usize = w.scratch.segments.len();
            let mut items = segments_into_vec(kept);
            w.scratch.segments.append(&mut items);
            let end: usize = w.scratch.segments.len();
            let index: usize = w.scratch.segment_instances.len();
            w.scratch.segment_instances.push(
                SegmentedInstance {
                    segments_range: IndexRange { start, end },
                    gpu_cache_handle: GpuCacheHandle { slot: None },
                },
            );
            w.instance.segment_instance_index = SegmentInstanceIndex::At(index);
        }
        w
    }
}

impl Machine for BuildSegments {
    type Out = Work;

    open spec fn after(self, r: Reply) -> Program<WorkModel> {
        match (self, r) {
            (
                BuildSegments::Locating { w, clips_range },
                Reply::Rect(prim_local_rect),
            ) => build_for_kind(w@, clips_range, prim_local_rect),
            (
                BuildSegments::CheckingImage { w, clips_range, prim_local_rect },
                Reply::Flag(tiled),
            ) => build_for_image(w@, clips_range, prim_local_rect, tiled),
            (
                BuildSegments::CheckingPicture { w, clips_range, prim_local_rect },
                Reply::Flag(can),
            ) => build_for_picture(w@, clips_range, prim_local_rect, can),
            (BuildSegments::Describing { w, origin, inner }, r) => build_described(
                w@,
                origin,
                inner.after(r),
            ),
            (BuildSegments::Building { w, origin }, Reply::Segments(built)) => build_from(
                w@,
                origin,
                built@,
                0,
                Seq::<BrushSegment>::empty(),
            ),
            (
                BuildSegments::Translating { w, origin, built, i, kept },
                Reply::Rect(local_rect),
            ) => if i < built@.len() {
                build_from(
                    w@,
                    origin,
                    built@,
                    i + 1,
                    segment_items(kept).push(kept_segment(built@[i as int], local_rect)),
                )
            } else {
                unexpected()
            },
            _ => unexpected(),
        }
    }
}

impl Resume for BuildSegments {
    fn resume(self, reply: Reply) -> (p: Progress<Self>) {
        match (self, reply) {
            (BuildSegments::Locating { w, clips_range }, Reply::Rect(prim_local_rect)) => {
                let prim = w.instance.id;
                match &w.instance.kind {
                    PrimitiveInstanceKind::Rectangle { .. } => BuildSegments::if_invalid(
                        w,
                        clips_range,
                        prim_local_rect,
                    ),
                    PrimitiveInstanceKind::YuvImage => BuildSegments::if_invalid(
                        w,
                        clips_range,
                        prim_local_rect,
                    ),
                    PrimitiveInstanceKind::Image { .. } => Progress::Waiting(
                        BuildSegments::CheckingImage { w, clips_range, prim_local_rect },
                        Request::IsTiledImage { prim },
                    ),
                    PrimitiveInstanceKind::Picture { pic_index } => {
                        let pic_index = *pic_index;
                        Progress::Waiting(
                            BuildSegments::CheckingPicture { w, clips_range, prim_local_rect },
                            Request::CanUseSegments { pic_index },
                        )
                    },
                    _ => Progress::Done(w),
                }
            },
            (
                BuildSegments::CheckingImage { w, clips_range, prim_local_rect },
                Reply::Flag(tiled),
            ) => {
                if tiled {
                    let mut w = w;
                    w.instance.segment_instance_index = SegmentInstanceIndex::Unused;
                    Progress::Done(w)
                } else {
                    BuildSegments::if_invalid(w, clips_range, prim_local_rect)
                }
            },
            (
                BuildSegments::CheckingPicture { w, clips_range, prim_local_rect },
                Reply::Flag(can),
            ) => {
                if can {
                    let mut w = w;
                    if !w.instance.segments_are_valid {
                        w.instance.segment_instance_index = SegmentInstanceIndex::Invalid;
                        w.instance.segments_are_valid = true;
                    }
                    BuildSegments::if_invalid(w, clips_range, prim_local_rect)
                } else {
                    Progress::Done(w)
                }
            },
            (BuildSegments::Describing { w, origin, inner }, reply) => {
                let ghost g = inner.after(reply);
                BuildSegments::described(w, origin, inner.resume(reply), Ghost(g))
            },
            (BuildSegments::Building { w, origin }, Reply::Segments(built)) => {
                BuildSegments::from(w, origin, built, 0, new_segments())
            },
            (
                BuildSegments::Translating { w, origin, built, i, kept },
                Reply::Rect(local_rect),
            ) => {
                if i < built.len() {
                    let mut kept = kept;
                    push_segment(
                        &mut kept,
                        BrushSegment {
                            local_rect,
                            may_need_clip_mask: built[i].has_mask,
                            edge_flags: built[i].edge_flags,
                            extra_data: zeros(),
                            brush_flags: BrushFlags::PerspectiveInterpolation,
                        },
                    );
                    BuildSegments::from(w, origin, built, i + 1, kept)
                } else {
                    Progress::Failed(Fault::UnexpectedReply)
                }
            },
            _ => Progress::Failed(Fault::UnexpectedReply),
        }
    }
}

/// Builds the segments of a primitive, where it can have segments and has no valid ones.
pub fn build_segments_if_needed(w: Work, clips_range: ClipsRange) -> (p: Progress<BuildSegments>)
    ensures
        p.follows(build_segments(w@, clips_range)),
{
    let prim = w.instance.id;
    Progress::Waiting(
        BuildSegments::Locating { w, clips_range },
        Request::LocalPrimRect { prim },
    )
}

} // verus!
