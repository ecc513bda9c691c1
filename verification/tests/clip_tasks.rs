//! Clipping whole primitives.
use prepare_pass::clip_task::{update_clip_task, update_clip_task_for_brush, ClipPlace};
use prepare_pass::geometry::{times, value, IntRect, Point, Rect, Size};
use prepare_pass::model::{
    BrushFlags, BrushSegment, ClipChainInstance, ClipMaskKind, ClipTaskIndex, ClipsRange,
    ColorBinding, GpuCacheHandle, IndexRange, PictureIndex, PictureState, PrimitiveId,
    PrimitiveInstance, PrimitiveInstanceKind, PrimitiveList, PrimitiveScratchBuffer,
    PrimitiveVisibility, SegmentInstanceIndex, SegmentedInstance, SpatialNodeIndex, SurfaceIndex,
    TaskId, Work,
};
use prepare_pass::program::{
    BuiltSegment, ClipItem, ClipNode, Fault, Progress, Reply, Request, Resume,
};
use prepare_pass::scalar::Scalar;
use prepare_pass::segment_build::zeros;

const NODE: SpatialNodeIndex = SpatialNodeIndex(4);
const ROOT: SpatialNodeIndex = SpatialNodeIndex(1);
const SURFACE: SurfaceIndex = SurfaceIndex(2);
const STATE: PictureState = PictureState(6);
const PRIM: PrimitiveId = PrimitiveId(11);

fn chain(needs_mask: bool) -> ClipChainInstance {
    ClipChainInstance {
        clips_range: ClipsRange { first: 7, count: 2 },
        has_non_local_clips: false,
        needs_mask,
        pic_clip_rect: rect(0.0, 0.0, 50.0, 40.0),
    }
}

fn visible(needs_mask: bool) -> PrimitiveVisibility {
    PrimitiveVisibility {
        clipped_world_rect: rect(1.0, 2.0, 30.0, 20.0),
        combined_local_clip_rect: rect(0.0, 0.0, 500.0, 500.0),
        clip_chain: chain(needs_mask),
        clip_task_index: ClipTaskIndex(99),
        visibility_mask: 0,
    }
}

fn instance(kind: PrimitiveInstanceKind, info: Option<PrimitiveVisibility>) -> PrimitiveInstance {
    PrimitiveInstance {
        id: PRIM,
        is_chased: false,
        kind,
        local_clip_rect: rect(0.0, 0.0, 300.0, 300.0),
        visibility_info: info,
        segment_instance_index: SegmentInstanceIndex::Invalid,
        segments_are_valid: false,
        cache_handle: None,
        cache_handles: IndexRange::empty(),
        cache_segments: Vec::new(),
        visible_tiles_range: IndexRange::empty(),
        children: PrimitiveList { clusters: Vec::new() },
    }
}

fn buffers() -> PrimitiveScratchBuffer {
    PrimitiveScratchBuffer {
        clip_mask_instances: Vec::new(),
        segments: Vec::new(),
        segment_instances: Vec::new(),
        border_cache_handles: Vec::new(),
        gradient_tiles: Vec::new(),
    }
}

fn work(kind: PrimitiveInstanceKind) -> Work {
    Work { instance: instance(kind, Some(visible(false))), scratch: buffers() }
}

fn segment(x: f32, may_need_clip_mask: bool) -> BrushSegment {
    BrushSegment {
        local_rect: rect(x, 0.0, 10.0, 10.0),
        may_need_clip_mask,
        edge_flags: 0,
        extra_data: zeros(),
        brush_flags: BrushFlags::Plain,
    }
}

fn num(x: f32) -> Scalar {
    Scalar { bits: x.to_bits() }
}

fn point(x: f32, y: f32) -> Point {
    Point { x: num(x), y: num(y) }
}

fn size(width: f32, height: f32) -> Size {
    Size { width: num(width), height: num(height) }
}

fn rect(x: f32, y: f32, width: f32, height: f32) -> Rect {
    Rect { origin: point(x, y), size: size(width, height) }
}

/// Holds a conversation: each request has to be the expected one, and gets the reply beside it.
fn converse<M: Resume>(start: Progress<M>, script: Vec<(Request, Reply)>) -> Progress<M> {
    let mut progress = start;
    for (step, (expected, reply)) in script.into_iter().enumerate() {
        match progress {
            Progress::Waiting(machine, request) => {
                assert_eq!(request, expected, "request {}", step);
                progress = machine.resume(reply);
            }
            Progress::Done(_) => panic!("done before request {}", step),
            Progress::Failed(fault) => panic!("{:?} before request {}", fault, step),
        }
    }
    progress
}

fn done<M: Resume>(progress: Progress<M>) -> M::Out {
    match progress {
        Progress::Waiting(_, request) => panic!("still asks {:?}", request),
        Progress::Done(out) => out,
        Progress::Failed(fault) => panic!("{:?}", fault),
    }
}

fn failed<M: Resume>(progress: Progress<M>) -> Fault {
    match progress {
        Progress::Waiting(_, request) => panic!("still asks {:?}", request),
        Progress::Done(_) => panic!("done"),
        Progress::Failed(fault) => fault,
    }
}

const PLACE: ClipPlace = ClipPlace {
    prim_origin: Point { x: Scalar { bits: 0x4000_0000 }, y: Scalar { bits: 0x4040_0000 } },
    prim_spatial_node_index: NODE,
    root_spatial_node_index: ROOT,
    surface_index: SURFACE,
    state: STATE,
};

fn unclipped() -> Rect {
    rect(0.0, 0.0, 100.0, 80.0)
}

/// The conversation that finds the unclipped rectangle.
fn opening() -> Vec<(Request, Reply)> {
    vec![
        (Request::DevicePixelScale { surface: SURFACE }, Reply::Number(num(2.0))),
        (
            Request::PictureToRaster { state: STATE, rect: rect(0.0, 0.0, 50.0, 40.0) },
            Reply::MaybeRect(Some(rect(0.0, 0.0, 50.0, 40.0))),
        ),
        (
            Request::ScaleRect { rect: rect(0.0, 0.0, 50.0, 40.0), by: num(2.0) },
            Reply::Rect(unclipped()),
        ),
    ]
}

fn local_rect() -> (Request, Reply) {
    (Request::LocalPrimRect { prim: PRIM }, Reply::Rect(rect(2.0, 3.0, 200.0, 200.0)))
}

/// The conversation that clips to `bounds` and draws the mask by a task.
fn masking(bounds: Rect, task: u32) -> Vec<(Request, Reply)> {
    let raster = rect(0.0, 0.0, 50.0, 40.0);
    let device = IntRect { x: 2, y: 4, width: 38, height: 36 };
    vec![
        (Request::UnscaleRect { rect: unclipped(), by: num(2.0) }, Reply::Rect(raster)),
        (
            Request::RasterToWorld { state: STATE, rect: raster },
            Reply::MaybeRect(Some(raster)),
        ),
        (Request::Intersect { a: raster, b: bounds }, Reply::MaybeRect(Some(bounds))),
        (
            Request::WorldToRaster { state: STATE, rect: bounds },
            Reply::MaybeRect(Some(bounds)),
        ),
        (Request::Intersect { a: bounds, b: raster }, Reply::MaybeRect(Some(bounds))),
        (
            Request::RasterToDevicePixels { rect: bounds, scale: num(2.0) },
            Reply::Rect(rect(2.0, 4.0, 38.0, 36.0)),
        ),
        (
            Request::ToIntRect { rect: rect(2.0, 4.0, 38.0, 36.0) },
            Reply::IntRect(device),
        ),
        (
            Request::MaskTask {
                device_rect: device,
                clips_range: ClipsRange { first: 7, count: 2 },
                root_spatial_node_index: ROOT,
                device_pixel_scale: num(2.0),
            },
            Reply::Task(TaskId(task)),
        ),
        (Request::SurfacePort { surface: SURFACE }, Reply::Task(TaskId(80))),
        (
            Request::AddDependency { parent: TaskId(80), child: TaskId(task) },
            Reply::Ack,
        ),
    ]
}

fn masked_work(kind: PrimitiveInstanceKind) -> Work {
    let mut w = Work { instance: instance(kind, Some(visible(true))), scratch: buffers() };
    w.scratch.clip_mask_instances = vec![ClipMaskKind::Clipped, ClipMaskKind::Mask(TaskId(1))];
    w
}

fn text_run() -> PrimitiveInstanceKind {
    PrimitiveInstanceKind::TextRun {
        prim_origin: point(0.0, 0.0),
        reference_frame_relative_offset: point(0.0, 0.0),
    }
}

fn task_index(w: &Work) -> ClipTaskIndex {
    match w.instance.visibility_info {
        Some(info) => info.clip_task_index,
        None => panic!("culled"),
    }
}

#[test]
fn culled_primitive_cannot_be_clipped() {
    let w = Work { instance: instance(text_run(), None), scratch: buffers() };
    assert_eq!(failed(update_clip_task(w, PLACE)), Fault::NotVisible);
}

#[test]
fn primitive_that_cannot_be_mapped_is_left_alone() {
    let mut script = opening();
    script.truncate(2);
    script[1].1 = Reply::MaybeRect(None);
    let out = done(converse(update_clip_task(masked_work(text_run()), PLACE), script));
    assert_eq!(out.scratch.clip_mask_instances.len(), 2);
    assert_eq!(task_index(&out), ClipTaskIndex(99));
}

#[test]
fn primitive_without_segments_gets_one_mask() {
    let mut script = opening();
    script.push(local_rect());
    script.append(&mut masking(rect(1.0, 2.0, 30.0, 20.0), 70));
    let out = done(converse(update_clip_task(masked_work(text_run()), PLACE), script));
    assert_eq!(task_index(&out), ClipTaskIndex(2));
    assert_eq!(
        out.scratch.clip_mask_instances,
        vec![
            ClipMaskKind::Clipped,
            ClipMaskKind::Mask(TaskId(1)),
            ClipMaskKind::Mask(TaskId(70)),
        ],
    );
}

#[test]
fn primitive_off_screen_gets_no_mask() {
    let mut script = opening();
    script.push(local_rect());
    let mut rest = masking(rect(1.0, 2.0, 30.0, 20.0), 70);
    rest.truncate(3);
    rest[2].1 = Reply::MaybeRect(None);
    script.append(&mut rest);
    let out = done(converse(update_clip_task(masked_work(text_run()), PLACE), script));
    assert_eq!(out.scratch.clip_mask_instances.len(), 2);
    assert_eq!(task_index(&out), ClipTaskIndex(99));
}

#[test]
fn primitive_whose_clips_need_no_mask_gets_none() {
    let mut script = opening();
    script.push(local_rect());
    let out = done(converse(update_clip_task(work(text_run()), PLACE), script));
    assert!(out.scratch.clip_mask_instances.is_empty());
    assert_eq!(task_index(&out), ClipTaskIndex(99));
}

#[test]
fn border_without_segments_gets_no_mask() {
    let mut script = opening();
    script.push(local_rect());
    let kind = PrimitiveInstanceKind::ImageBorder { brush_segments: Vec::new() };
    let out = done(converse(update_clip_task(masked_work(kind), PLACE), script));
    assert_eq!(out.scratch.clip_mask_instances.len(), 2);
    assert_eq!(task_index(&out), ClipTaskIndex(99));
}

#[test]
fn only_segment_is_clipped_by_the_chain_of_the_primitive() {
    let mut script = opening();
    script.push(local_rect());
    script.push((
        Request::PictureToWorld { state: STATE, rect: rect(0.0, 0.0, 50.0, 40.0) },
        Reply::MaybeRect(Some(rect(0.0, 0.0, 30.0, 30.0))),
    ));
    script.push((
        Request::Intersect { a: rect(0.0, 0.0, 30.0, 30.0), b: rect(1.0, 2.0, 30.0, 20.0) },
        Reply::MaybeRect(Some(rect(1.0, 2.0, 29.0, 20.0))),
    ));
    script.append(&mut masking(rect(1.0, 2.0, 29.0, 20.0), 71));
    let kind = PrimitiveInstanceKind::ImageBorder { brush_segments: vec![segment(0.0, true)] };
    let out = done(converse(update_clip_task(masked_work(kind), PLACE), script));
    assert_eq!(task_index(&out), ClipTaskIndex(2));
    assert_eq!(out.scratch.clip_mask_instances.len(), 3);
    assert_eq!(out.scratch.clip_mask_instances[2], ClipMaskKind::Mask(TaskId(71)));
}

/// The conversation that finds the clips of one of several segments.
fn chaining(
    x: f32,
    is_chased: bool,
    found: Option<ClipChainInstance>,
) -> Vec<(Request, Reply)> {
    vec![
        (
            Request::ActivateClips { clip_chain: chain(true), node: NODE },
            Reply::Ack,
        ),
        (
            Request::Translate { rect: rect(x, 0.0, 10.0, 10.0), by: point(2.0, 3.0) },
            Reply::Rect(rect(x + 2.0, 3.0, 10.0, 10.0)),
        ),
        (
            Request::BuildClipChain {
                local_rect: rect(x + 2.0, 3.0, 10.0, 10.0),
                state: STATE,
                device_pixel_scale: num(2.0),
                dirty_rect: rect(0.0, 0.0, 640.0, 480.0),
                is_chased,
            },
            Reply::ClipChain(found),
        ),
    ]
}

fn dirty_bounds() -> (Request, Reply) {
    (Request::DirtyRegionBounds, Reply::Rect(rect(0.0, 0.0, 640.0, 480.0)))
}

/// The conversation for two segments, of which the first is clipped away and the second needs no
/// mask.
fn two_segments(is_chased: bool) -> Vec<(Request, Reply)> {
    let mut script = vec![dirty_bounds()];
    script.append(&mut chaining(0.0, is_chased, None));
    script.append(&mut chaining(10.0, is_chased, Some(chain(false))));
    script
}

fn two_masks() -> Vec<ClipMaskKind> {
    vec![
        ClipMaskKind::Clipped,
        ClipMaskKind::Mask(TaskId(1)),
        ClipMaskKind::Clipped,
        ClipMaskKind::Unmasked,
    ]
}

#[test]
fn each_segment_gets_its_own_mask() {
    let mut script = opening();
    script.push(local_rect());
    script.append(&mut two_segments(false));
    let kind = PrimitiveInstanceKind::ImageBorder {
        brush_segments: vec![segment(0.0, true), segment(10.0, true)],
    };
    let out = done(converse(update_clip_task(masked_work(kind), PLACE), script));
    assert_eq!(task_index(&out), ClipTaskIndex(2));
    assert_eq!(out.scratch.clip_mask_instances, two_masks());
}

#[test]
fn clip_chains_of_a_chased_primitive_are_traced() {
    let mut script = opening();
    script.push(local_rect());
    script.append(&mut two_segments(true));
    let kind = PrimitiveInstanceKind::ImageBorder {
        brush_segments: vec![segment(0.0, true), segment(10.0, true)],
    };
    let mut w = masked_work(kind);
    w.instance.is_chased = true;
    let out = done(converse(update_clip_task(w, PLACE), script));
    assert!(out.instance.is_chased);
    assert_eq!(out.scratch.clip_mask_instances, two_masks());
}

#[test]
fn stored_segments_of_a_rectangle_get_their_masks() {
    let mut w = masked_work(PrimitiveInstanceKind::Rectangle {
        color_binding: ColorBinding::Unbound,
    });
    w.scratch.segments = vec![segment(77.0, true), segment(0.0, true), segment(10.0, true)];
    w.scratch.segment_instances = vec![SegmentedInstance {
        segments_range: IndexRange { start: 1, end: 3 },
        gpu_cache_handle: GpuCacheHandle { slot: None },
    }];
    w.instance.segment_instance_index = SegmentInstanceIndex::At(0);
    let mut script = opening();
    script.push(local_rect());
    script.append(&mut two_segments(false));
    let out = done(converse(update_clip_task(w, PLACE), script));
    assert_eq!(out.scratch.clip_mask_instances, two_masks());
    assert_eq!(out.scratch.segments.len(), 3);
}

#[test]
fn segments_that_were_just_built_get_their_masks() {
    let w = masked_work(PrimitiveInstanceKind::YuvImage);
    let mut script = opening();
    script.push(local_rect());
    script.push((
        Request::Evaluate(times(value(num(200.0)), value(num(200.0)))),
        Reply::Number(num(40000.0)),
    ));
    script.push((
        Request::InitializeSegmentBuilder {
            local_rect: rect(2.0, 3.0, 200.0, 200.0),
            local_clip_rect: rect(0.0, 0.0, 300.0, 300.0),
        },
        Reply::Ack,
    ));
    for index in 0..2 {
        script.push((
            Request::ClipNode { clips_range: ClipsRange { first: 7, count: 2 }, index },
            Reply::Clip(ClipNode { same_spatial_node: false, item: ClipItem::Image }),
        ));
    }
    let built: Vec<BuiltSegment> = (0..2)
        .map(|i| BuiltSegment {
            rect: rect(10.0 * i as f32 + 2.0, 3.0, 10.0, 10.0),
            has_mask: true,
            edge_flags: 0,
        })
        .collect();
    script.push((Request::BuildSegments, Reply::Segments(built)));
    for i in 0..2 {
        let x = 10.0 * i as f32;
        script.push((
            Request::TranslateBack { rect: rect(x + 2.0, 3.0, 10.0, 10.0), by: point(2.0, 3.0) },
            Reply::Rect(rect(x, 0.0, 10.0, 10.0)),
        ));
    }
    script.append(&mut two_segments(false));
    let out = done(converse(update_clip_task(w, PLACE), script));
    assert_eq!(out.scratch.clip_mask_instances, two_masks());
    assert_eq!(out.instance.segment_instance_index, SegmentInstanceIndex::At(0));
    assert_eq!(
        out.scratch.segment_instances[0].segments_range,
        IndexRange { start: 0, end: 2 },
    );
}

#[test]
fn whole_rectangle_gets_one_mask() {
    let mut w = masked_work(PrimitiveInstanceKind::Rectangle {
        color_binding: ColorBinding::Unbound,
    });
    w.instance.segment_instance_index = SegmentInstanceIndex::Unused;
    let mut script = opening();
    script.push(local_rect());
    script.append(&mut masking(rect(1.0, 2.0, 30.0, 20.0), 70));
    let out = done(converse(update_clip_task(w, PLACE), script));
    assert_eq!(out.scratch.clip_mask_instances.len(), 3);
}

#[test]
fn brush_clipping_tells_whether_it_applies() {
    let info = visible(true);
    let out = done(update_clip_task_for_brush(
        masked_work(PrimitiveInstanceKind::Clear),
        info,
        PLACE,
        unclipped(),
        num(2.0),
    ));
    assert!(!out.segmented);
    let picture = PrimitiveInstanceKind::Picture { pic_index: PictureIndex(1) };
    let out = done(update_clip_task_for_brush(
        masked_work(picture),
        info,
        PLACE,
        unclipped(),
        num(2.0),
    ));
    assert!(!out.segmented);
    let empty = PrimitiveInstanceKind::ImageBorder { brush_segments: Vec::new() };
    let out = done(update_clip_task_for_brush(
        masked_work(empty),
        info,
        PLACE,
        unclipped(),
        num(2.0),
    ));
    assert!(out.segmented);
    assert_eq!(out.w.scratch.clip_mask_instances.len(), 2);
}

#[test]
fn rectangle_whose_segments_were_not_built_is_a_fault() {
    let w = masked_work(PrimitiveInstanceKind::YuvImage);
    let start = update_clip_task_for_brush(w, visible(true), PLACE, unclipped(), num(2.0));
    assert_eq!(failed(start), Fault::NoSegments);
    let mut w = masked_work(PrimitiveInstanceKind::YuvImage);
    w.instance.segment_instance_index = SegmentInstanceIndex::At(0);
    let start = update_clip_task_for_brush(w, visible(true), PLACE, unclipped(), num(2.0));
    assert_eq!(failed(start), Fault::NoSegments);
}
