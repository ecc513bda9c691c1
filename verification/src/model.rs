//! What the pass works on: primitive instances, the lists that hold them, and the buffers that
//! are filled while a frame is prepared.
use vstd::prelude::*;

use crate::geometry::{AuSize, Block, Point, Rect, Size};
use crate::scalar::Scalar;

verus! {

/// Names a primitive instance to the renderer.
#[derive(Clone, Copy, Debug, PartialEq, Eq, Structural)]
pub struct PrimitiveId(pub u32);

/// Names a picture.
#[derive(Clone, Copy, Debug, PartialEq, Eq, Structural)]
pub struct PictureIndex(pub u32);

/// Names an off-screen surface.
#[derive(Clone, Copy, Debug, PartialEq, Eq, Structural)]
pub struct SurfaceIndex(pub u32);

/// Names a node of the spatial tree.
#[derive(Clone, Copy, Debug, PartialEq, Eq, Structural)]
pub struct SpatialNodeIndex(pub u32);

/// Names a render task.
#[derive(Clone, Copy, Debug, PartialEq, Eq, Structural)]
pub struct TaskId(pub u32);

/// Names the mapping state that the renderer keeps for a picture while its primitives are
/// prepared.
#[derive(Clone, Copy, Debug, PartialEq, Eq, Structural)]
pub struct PictureState(pub u32);

/// Names a value of the renderer that the pass only hands on: a transform, a raster space, a
/// space mapper.
#[derive(Clone, Copy, Debug, PartialEq, Eq, Structural)]
pub struct Token(pub u32);

/// How text of a picture may be anti-aliased, as the renderer numbers it.
#[derive(Clone, Copy, Debug, PartialEq, Eq, Structural)]
pub struct SubpixelMode(pub u32);

/// A position in the array of clip mask instances.
#[derive(Clone, Copy, Debug, PartialEq, Eq, Structural)]
pub struct ClipTaskIndex(pub usize);

/// A handle to data in the GPU cache; one that was never filled has no slot.
#[derive(Clone, Copy, Debug, PartialEq, Eq, Structural)]
pub struct GpuCacheHandle {
    pub slot: Option<u64>,
}

/// The positions from `start` up to `end`, which is not one of them.
#[derive(Clone, Copy, Debug, PartialEq, Eq, Structural)]
pub struct IndexRange {
    pub start: usize,
    pub end: usize,
}

impl IndexRange {
    /// Whether the range holds no position.
    pub open spec fn vacant(self) -> bool {
        self.start >= self.end
    }

    /// The range that holds no position.
    pub fn empty() -> (r: IndexRange)
        ensures
            r == (IndexRange { start: 0, end: 0 }),
    {
        IndexRange { start: 0, end: 0 }
    }

    /// Whether the range holds no position.
    pub fn is_empty(self) -> (b: bool)
        ensures
            b == self.vacant(),
    {
        self.start >= self.end
    }
}

/// Which clips of the clip store apply.
#[derive(Clone, Copy, Debug, PartialEq, Eq, Structural)]
pub struct ClipsRange {
    pub first: u32,
    pub count: u32,
}

/// The clips that apply to a primitive, or to a part of one.
#[derive(Clone, Copy, Debug, PartialEq, Eq, Structural)]
pub struct ClipChainInstance {
    pub clips_range: ClipsRange,
    pub has_non_local_clips: bool,
    pub needs_mask: bool,
    pub pic_clip_rect: Rect,
}

/// The clip mask of a primitive, or of one of its segments.
#[derive(Clone, Copy, Debug, PartialEq, Eq, Structural)]
pub enum ClipMaskKind {
    /// The mask that a render task draws.
    Mask(TaskId),
    /// No mask is needed.
    Unmasked,
    /// Nothing is visible.
    Clipped,
}

/// What the visibility pass found out about a primitive that is not culled.
#[derive(Clone, Copy, Debug, PartialEq, Eq, Structural)]
pub struct PrimitiveVisibility {
    pub clipped_world_rect: Rect,
    pub combined_local_clip_rect: Rect,
    pub clip_chain: ClipChainInstance,
    pub clip_task_index: ClipTaskIndex,
    /// One bit for each dirty region that the primitive touches.
    pub visibility_mask: u32,
}

/// Where the segments of an instance are.
#[derive(Clone, Copy, Debug, PartialEq, Eq, Structural)]
pub enum SegmentInstanceIndex {
    /// No segments were built, or those that were are out of date.
    Invalid,
    /// The instance is drawn as a whole.
    Unused,
    /// A position in the array of segmented instances.
    At(usize),
}

/// How a segment of a brush is drawn.
#[derive(Clone, Copy, Debug, PartialEq, Eq, Structural)]
pub enum BrushFlags {
    Plain,
    PerspectiveInterpolation,
}

/// A part of a primitive that is drawn on its own.
#[derive(Clone, Copy, Debug, PartialEq, Eq, Structural)]
pub struct BrushSegment {
    pub local_rect: Rect,
    pub may_need_clip_mask: bool,
    /// The edges to anti-alias, one bit each.
    pub edge_flags: u8,
    pub extra_data: Block,
    pub brush_flags: BrushFlags,
}

/// A run of segments, and where they are in the GPU cache.
#[derive(Clone, Copy, Debug, PartialEq, Eq, Structural)]
pub struct SegmentedInstance {
    pub segments_range: IndexRange,
    pub gpu_cache_handle: GpuCacheHandle,
}

/// One visible repetition of a gradient.
#[derive(Clone, Copy, Debug, PartialEq, Eq, Structural)]
pub struct VisibleGradientTile {
    pub local_rect: Rect,
    pub local_clip_rect: Rect,
    pub handle: GpuCacheHandle,
}

/// A part of a linear gradient that is drawn from the render task cache.
#[derive(Clone, Copy, Debug, PartialEq, Eq, Structural)]
pub struct CachedGradientSegment {
    pub handle: u64,
    pub local_rect: Rect,
}

/// The direction of a line or of an axis-aligned gradient.
#[derive(Clone, Copy, Debug, PartialEq, Eq, Structural)]
pub enum LineOrientation {
    Vertical,
    Horizontal,
}

/// How a line decoration is drawn.
#[derive(Clone, Copy, Debug, PartialEq, Eq, Structural)]
pub enum LineStyle {
    Solid,
    Dotted,
    Dashed,
    Wavy,
}

/// What a line decoration other than a solid one is cached by.
#[derive(Clone, Copy, Debug, PartialEq, Eq, Structural)]
pub struct LineDecorationCacheKey {
    pub style: LineStyle,
    pub orientation: LineOrientation,
    /// In app units.
    pub wavy_line_thickness: i32,
    pub size: AuSize,
}

/// How a side of a border is drawn.
#[derive(Clone, Copy, Debug, PartialEq, Eq, Structural)]
pub enum BorderStyle {
    Hidden,
    Solid,
    Double,
    Dotted,
    Dashed,
    Groove,
    Ridge,
    Inset,
    Outset,
}

/// An edge or a corner of a border, which is drawn by a render task.
#[derive(Clone, Copy, Debug, PartialEq, Eq, Structural)]
pub struct BorderSegment {
    pub local_task_size: Size,
    /// The content that the renderer caches the segment by.
    pub cache_key: Token,
}

/// What a gradient shows beyond its end points.
#[derive(Clone, Copy, Debug, PartialEq, Eq, Structural)]
pub enum ExtendMode {
    Clamp,
    Repeat,
}

/// A colour of a gradient and where it stands.
#[derive(Clone, Copy, Debug, PartialEq, Eq, Structural)]
pub struct GradientStopKey {
    pub offset: Scalar,
    /// Red, green, blue and alpha, eight bits each.
    pub color: u32,
}

/// What the pass reads of a border with styled sides.
pub struct NormalBorderTemplate {
    pub top: BorderStyle,
    pub right: BorderStyle,
    pub bottom: BorderStyle,
    pub left: BorderStyle,
    pub border_segments: Vec<BorderSegment>,
    pub brush_segments: Vec<BrushSegment>,
}

/// What the pass reads of a linear gradient.
pub struct LinearGradientTemplate {
    pub prim_rect: Rect,
    pub stretch_size: Size,
    pub tile_spacing: Size,
    pub start_point: Point,
    pub end_point: Point,
    pub extend_mode: ExtendMode,
    pub supports_caching: bool,
    pub reverse_stops: bool,
    pub is_opaque: bool,
    pub stops: Vec<GradientStopKey>,
    pub brush_segments: Vec<BrushSegment>,
}

/// What the pass reads of a radial gradient.
pub struct RadialGradientTemplate {
    pub prim_rect: Rect,
    pub stretch_size: Size,
    pub tile_spacing: Size,
    pub center: Point,
    pub start_radius: Scalar,
    pub end_radius: Scalar,
    pub ratio_xy: Scalar,
    pub extend_mode: ExtendMode,
    pub brush_segments: Vec<BrushSegment>,
}

/// What the pass reads of a conic gradient.
pub struct ConicGradientTemplate {
    pub prim_rect: Rect,
    pub stretch_size: Size,
    pub tile_spacing: Size,
    pub center: Point,
    pub start_offset: Scalar,
    pub end_offset: Scalar,
    pub angle: Scalar,
    pub extend_mode: ExtendMode,
    pub brush_segments: Vec<BrushSegment>,
}

/// What a rectangle takes its colour from.
#[derive(Clone, Copy, Debug, PartialEq, Eq, Structural)]
pub enum ColorBinding {
    /// The colour of the template.
    Unbound,
    /// A property with a fixed value.
    Value,
    /// A property that is animated.
    Binding,
}

/// What a primitive is, with what the pass reads of its template.
pub enum PrimitiveInstanceKind {
    LineDecoration { cache_key: Option<LineDecorationCacheKey> },
    TextRun { prim_origin: Point, reference_frame_relative_offset: Point },
    Clear,
    NormalBorder(NormalBorderTemplate),
    ImageBorder { brush_segments: Vec<BrushSegment> },
    Rectangle { color_binding: ColorBinding },
    YuvImage,
    Image { stretch_size: Size, prim_size: Size },
    LinearGradient(LinearGradientTemplate),
    RadialGradient(RadialGradientTemplate),
    ConicGradient(ConicGradientTemplate),
    Picture { pic_index: PictureIndex },
    Backdrop { pic_index: PictureIndex },
}

/// A primitive of a picture.
pub struct PrimitiveInstance {
    pub id: PrimitiveId,
    /// Whether the renderer traces what becomes of the primitive.
    pub is_chased: bool,
    pub kind: PrimitiveInstanceKind,
    pub local_clip_rect: Rect,
    /// Nothing for a primitive that is culled.
    pub visibility_info: Option<PrimitiveVisibility>,
    /// Of a rectangle, an image or a picture: its segments.
    pub segment_instance_index: SegmentInstanceIndex,
    /// Of a picture: whether its segments are up to date.
    pub segments_are_valid: bool,
    /// Of a line decoration: the task that draws it.
    pub cache_handle: Option<u64>,
    /// Of a border: the tasks that draw its segments.
    pub cache_handles: IndexRange,
    /// Of a linear gradient: the parts that are drawn from the render task cache.
    pub cache_segments: Vec<CachedGradientSegment>,
    /// Of a gradient: its visible repetitions.
    pub visible_tiles_range: IndexRange,
    /// Of a picture: the primitives that it draws.
    pub children: PrimitiveList,
}

/// A run of primitives that are positioned by the same node.
pub struct PrimitiveCluster {
    pub spatial_node_index: SpatialNodeIndex,
    /// The position of the first of the primitives in the list.
    pub first: usize,
    pub prim_instances: Vec<PrimitiveInstance>,
}

/// The primitives of a picture.
pub struct PrimitiveList {
    pub clusters: Vec<PrimitiveCluster>,
}

/// The buffers that the pass fills.
pub struct PrimitiveScratchBuffer {
    pub clip_mask_instances: Vec<ClipMaskKind>,
    pub segments: Vec<BrushSegment>,
    pub segment_instances: Vec<SegmentedInstance>,
    pub border_cache_handles: Vec<u64>,
    pub gradient_tiles: Vec<VisibleGradientTile>,
}

/// A primitive that is being prepared, with the buffers.
pub struct Work {
    pub instance: PrimitiveInstance,
    pub scratch: PrimitiveScratchBuffer,
}

/// Where the primitives of a picture are drawn.
#[derive(Clone, Copy, Debug, PartialEq, Eq, Structural)]
pub struct PictureContext {
    pub pic_index: PictureIndex,
    pub is_passthrough: bool,
    pub surface_spatial_node_index: SpatialNodeIndex,
    pub raster_spatial_node_index: SpatialNodeIndex,
    pub surface_index: SurfaceIndex,
    pub subpixel_mode: SubpixelMode,
    /// The mappings between the spaces of the picture.
    pub state: PictureState,
}

/// Where a primitive is prepared.
#[derive(Clone, Copy, Debug, PartialEq, Eq, Structural)]
pub struct PrimPlace {
    pub context: PictureContext,
    pub prim_spatial_node_index: SpatialNodeIndex,
    pub plane_split_anchor: PlaneSplitAnchor,
    pub limits: CacheLimits,
}

/// Where a primitive stands in its list, by which a plane of it is found again.
#[derive(Clone, Copy, Debug, PartialEq, Eq, Structural)]
pub struct PlaneSplitAnchor {
    pub cluster_index: usize,
    pub instance_index: usize,
}

/// A region of the screen that is drawn anew.
#[derive(Clone, Copy, Debug, PartialEq, Eq, Structural)]
pub struct DirtyRect {
    pub world_rect: Rect,
    pub visibility_mask: u32,
}

/// Limits of the renderer's caches.
#[derive(Clone, Copy, Debug, PartialEq, Eq, Structural)]
pub struct CacheLimits {
    /// The largest extent of the task that draws a line decoration, in pixels.
    pub max_line_decoration_resolution: i32,
    /// The extent of a region of the texture cache, in pixels.
    pub texture_region_dimensions: i32,
}

/// The buffers, as sequences.
#[verifier::ext_equal]
pub struct ScratchModel {
    pub clip_mask_instances: Seq<ClipMaskKind>,
    pub segments: Seq<BrushSegment>,
    pub segment_instances: Seq<SegmentedInstance>,
    pub border_cache_handles: Seq<u64>,
    pub gradient_tiles: Seq<VisibleGradientTile>,
}

/// A primitive that is being prepared and the buffers, as sequences.
#[verifier::ext_equal]
pub struct WorkModel {
    pub instance: InstanceModel,
    pub scratch: ScratchModel,
}

/// A primitive, with sequences for what the pass replaces in it.
#[verifier::ext_equal]
pub struct InstanceModel {
    pub id: PrimitiveId,
    pub is_chased: bool,
    pub kind: PrimitiveInstanceKind,
    pub local_clip_rect: Rect,
    pub visibility_info: Option<PrimitiveVisibility>,
    pub segment_instance_index: SegmentInstanceIndex,
    pub segments_are_valid: bool,
    pub cache_handle: Option<u64>,
    pub cache_handles: IndexRange,
    pub cache_segments: Seq<CachedGradientSegment>,
    pub visible_tiles_range: IndexRange,
    pub children: Seq<ClusterModel>,
}

/// A run of primitives, as a sequence.
#[verifier::ext_equal]
pub struct ClusterModel {
    pub spatial_node_index: SpatialNodeIndex,
    pub first: usize,
    pub prim_instances: Seq<InstanceModel>,
}

impl PrimitiveInstance {
    /// The primitive with all that it holds as sequences.
    pub open spec fn model(self) -> InstanceModel
        decreases self,
    {
        InstanceModel {
            id: self.id,
            is_chased: self.is_chased,
            kind: self.kind,
            local_clip_rect: self.local_clip_rect,
            visibility_info: self.visibility_info,
            segment_instance_index: self.segment_instance_index,
            segments_are_valid: self.segments_are_valid,
            cache_handle: self.cache_handle,
            cache_handles: self.cache_handles,
            cache_segments: self.cache_segments@,
            visible_tiles_range: self.visible_tiles_range,
            children: self.children.model(),
        }
    }
}

impl PrimitiveCluster {
    /// The run with all that it holds as sequences.
    pub open spec fn model(self) -> ClusterModel
        decreases self,
    {
        let n = self.prim_instances@.len();
        ClusterModel {
            spatial_node_index: self.spatial_node_index,
            first: self.first,
            prim_instances: Seq::new(
                n,
                |i: int|
                    if 0 <= i < n {
                        self.prim_instances@[i].model()
                    } else {
                        arbitrary()
                    },
            ),
        }
    }
}

impl PrimitiveList {
    /// The list with all that it holds as sequences.
    pub open spec fn model(self) -> Seq<ClusterModel>
        decreases self,
    {
        let n = self.clusters@.len();
        Seq::new(
            n,
            |i: int|
                if 0 <= i < n {
                    self.clusters@[i].model()
                } else {
                    arbitrary()
                },
        )
    }
}

impl InstanceModel {
    /// The primitive with its segments elsewhere.
    pub open spec fn with_segments(self, index: SegmentInstanceIndex) -> InstanceModel {
        InstanceModel { segment_instance_index: index, ..self }
    }

    /// The primitive with other findings on its visibility.
    pub open spec fn with_visibility(self, info: Option<PrimitiveVisibility>) -> InstanceModel {
        InstanceModel { visibility_info: info, ..self }
    }
}

impl WorkModel {
    /// The same buffers, with the primitive's segments elsewhere.
    pub open spec fn with_segments(self, index: SegmentInstanceIndex) -> WorkModel {
        WorkModel { instance: self.instance.with_segments(index), ..self }
    }

    /// The same buffers, with other findings on the visibility of the primitive.
    pub open spec fn with_visibility(self, info: Option<PrimitiveVisibility>) -> WorkModel {
        WorkModel { instance: self.instance.with_visibility(info), ..self }
    }
}

impl View for PrimitiveInstance {
    type V = InstanceModel;

    open spec fn view(&self) -> InstanceModel {
        self.model()
    }
}

impl View for PrimitiveCluster {
    type V = ClusterModel;

    open spec fn view(&self) -> ClusterModel {
        self.model()
    }
}

impl View for PrimitiveList {
    type V = Seq<ClusterModel>;

    open spec fn view(&self) -> Seq<ClusterModel> {
        self.model()
    }
}

impl View for PrimitiveScratchBuffer {
    type V = ScratchModel;

    open spec fn view(&self) -> ScratchModel {
        ScratchModel {
            clip_mask_instances: self.clip_mask_instances@,
            segments: self.segments@,
            segment_instances: self.segment_instances@,
            border_cache_handles: self.border_cache_handles@,
            gradient_tiles: self.gradient_tiles@,
        }
    }
}

impl View for Work {
    type V = WorkModel;

    open spec fn view(&self) -> WorkModel {
        WorkModel { instance: self.instance@, scratch: self.scratch@ }
    }
}

impl View for ClipMaskKind {
    type V = ClipMaskKind;

    open spec fn view(&self) -> ClipMaskKind {
        *self
    }
}

impl View for IndexRange {
    type V = IndexRange;

    open spec fn view(&self) -> IndexRange {
        *self
    }
}

} // verus!
