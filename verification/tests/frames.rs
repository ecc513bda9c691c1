//! Preparing lists of primitives.
use prepare_pass::geometry::{IntRect, Point, Rect, Size};
use prepare_pass::model::{
    CacheLimits, ClipChainInstance, ClipMaskKind, ClipTaskIndex, ClipsRange, DirtyRect, IndexRange,
    PictureContext, PictureIndex, PictureState, PlaneSplitAnchor, PrimPlace, PrimitiveCluster,
    PrimitiveId, PrimitiveInstance, PrimitiveInstanceKind, PrimitiveList, PrimitiveScratchBuffer,
    PrimitiveVisibility, SegmentInstanceIndex, SpatialNodeIndex, SubpixelMode, SurfaceIndex,
    TaskId, Work,
};
use prepare_pass::pass::{prepare_prim_for_render, prepare_primitives, Prepared};
use prepare_pass::program::{Fault, Progress, Reply, Request, Resume};
use prepare_pass::scalar::Scalar;

const NODE: SpatialNodeIndex = SpatialNodeIndex(4);
const ROOT: SpatialNodeIndex = SpatialNodeIndex(1);
const SURFACE: SurfaceIndex = SurfaceIndex(2);
const STATE: PictureState = PictureState(6);
const PRIM: PrimitiveId = PrimitiveId(11);

fn chain(needs_mask: bool) -> ClipChainInstance {
    ClipChainInstance {
        clips_range: ClipsRange { first: 7, count: 2 },
        has_non_local_clips: false,
        needs_mask,
        pic_clip_rect: rect(0.0, 0.0, 50.0, 40.0),
    }
}

fn visible(needs_mask: bool) -> PrimitiveVisibility {
    PrimitiveVisibility {
        clipped_world_rect: rect(1.0, 2.0, 30.0, 20.0),
        combined_local_clip_rect: rect(0.0, 0.0, 500.0, 500.0),
        clip_chain: chain(needs_mask),
        clip_task_index: ClipTaskIndex(99),
        visibility_mask: 0,
    }
}

fn instance(kind: PrimitiveInstanceKind, info: Option<PrimitiveVisibility>) -> PrimitiveInstance {
    PrimitiveInstance {
        id: PRIM,
        is_chased: false,
        kind,
        local_clip_rect: rect(0.0, 0.0, 300.0, 300.0),
        visibility_info: info,
        segment_instance_index: SegmentInstanceIndex::Invalid,
        segments_are_valid: false,
        cache_handle: None,
        cache_handles: IndexRange::empty(),
        cache_segments: Vec::new(),
        visible_tiles_range: IndexRange::empty(),
        children: PrimitiveList { clusters: Vec::new() },
    }
}

fn buffers() -> PrimitiveScratchBuffer {
    PrimitiveScratchBuffer {
        clip_mask_instances: Vec::new(),
        segments: Vec::new(),
        segment_instances: Vec::new(),
        border_cache_handles: Vec::new(),
        gradient_tiles: Vec::new(),
    }
}

fn num(x: f32) -> Scalar {
    Scalar { bits: x.to_bits() }
}

fn point(x: f32, y: f32) -> Point {
    Point { x: num(x), y: num(y) }
}

fn size(width: f32, height: f32) -> Size {
    Size { width: num(width), height: num(height) }
}

fn rect(x: f32, y: f32, width: f32, height: f32) -> Rect {
    Rect { origin: point(x, y), size: size(width, height) }
}

/// Holds a conversation: each request has to be the expected one, and gets the reply beside it.
fn converse<M: Resume>(start: Progress<M>, script: Vec<(Request, Reply)>) -> Progress<M> {
    let mut progress = start;
    for (step, (expected, reply)) in script.into_iter().enumerate() {
        match progress {
            Progress::Waiting(machine, request) => {
                assert_eq!(request, expected, "request {}", step);
                progress = machine.resume(reply);
            }
            Progress::Done(_) => panic!("done before request {}", step),
            Progress::Failed(fault) => panic!("{:?} before request {}", fault, step),
        }
    }
    progress
}

fn done<M: Resume>(progress: Progress<M>) -> M::Out {
    match progress {
        Progress::Waiting(_, request) => panic!("still asks {:?}", request),
        Progress::Done(out) => out,
        Progress::Failed(fault) => panic!("{:?}", fault),
    }
}

fn failed<M: Resume>(progress: Progress<M>) -> Fault {
    match progress {
        Progress::Waiting(_, request) => panic!("still asks {:?}", request),
        Progress::Done(_) => panic!("done"),
        Progress::Failed(fault) => fault,
    }
}

const CONTEXT: PictureContext = PictureContext {
    pic_index: PictureIndex(20),
    is_passthrough: false,
    surface_spatial_node_index: SpatialNodeIndex(3),
    raster_spatial_node_index: ROOT,
    surface_index: SURFACE,
    subpixel_mode: SubpixelMode(1),
    state: STATE,
};

const CHILD_CONTEXT: PictureContext = PictureContext {
    pic_index: PictureIndex(3),
    is_passthrough: true,
    surface_spatial_node_index: SpatialNodeIndex(13),
    raster_spatial_node_index: SpatialNodeIndex(14),
    surface_index: SurfaceIndex(15),
    subpixel_mode: SubpixelMode(0),
    state: PictureState(16),
};

const LIMITS: CacheLimits =
    CacheLimits { max_line_decoration_resolution: 4096, texture_region_dimensions: 512 };

fn prim(
    id: u32,
    kind: PrimitiveInstanceKind,
    info: Option<PrimitiveVisibility>,
) -> PrimitiveInstance {
    let mut p = instance(kind, info);
    p.id = PrimitiveId(id);
    p
}

fn list(clusters: Vec<PrimitiveCluster>) -> PrimitiveList {
    PrimitiveList { clusters }
}

fn cluster(node: u32, first: usize, prim_instances: Vec<PrimitiveInstance>) -> PrimitiveCluster {
    PrimitiveCluster { spatial_node_index: SpatialNodeIndex(node), first, prim_instances }
}

fn select(state: PictureState, node: u32) -> (Request, Reply) {
    (
        Request::SelectSpatialNode { state, node: SpatialNodeIndex(node) },
        Reply::Ack,
    )
}

fn dirty(x: f32, visibility_mask: u32) -> DirtyRect {
    DirtyRect { world_rect: rect(x, 0.0, 10.0, 10.0), visibility_mask }
}

fn regions(rects: Vec<DirtyRect>) -> (Request, Reply) {
    (Request::DirtyRegion, Reply::DirtyRects(rects))
}

fn touches(x: f32, yes: bool) -> (Request, Reply) {
    (
        Request::DoIntersect {
            a: rect(1.0, 2.0, 30.0, 20.0),
            b: rect(x, 0.0, 10.0, 10.0),
        },
        Reply::Flag(yes),
    )
}

fn count() -> (Request, Reply) {
    (Request::CountVisiblePrimitive, Reply::Ack)
}

/// The conversation that clips and prepares a clear primitive, which has no mask.
fn cleared(id: u32, context: PictureContext) -> Vec<(Request, Reply)> {
    let surface = context.surface_index;
    let placed = rect(0.0, 0.0, 10.0, 10.0);
    vec![
        (Request::LocalPrimRect { prim: PrimitiveId(id) }, Reply::Rect(placed)),
        (Request::DevicePixelScale { surface }, Reply::Number(num(2.0))),
        (
            Request::PictureToRaster { state: context.state, rect: rect(0.0, 0.0, 50.0, 40.0) },
            Reply::MaybeRect(Some(placed)),
        ),
        (Request::ScaleRect { rect: placed, by: num(2.0) }, Reply::Rect(placed)),
        (Request::LocalPrimRect { prim: PrimitiveId(id) }, Reply::Rect(placed)),
        (Request::StampFrame { prim: PrimitiveId(id) }, Reply::Ack),
        (Request::DevicePixelScale { surface }, Reply::Number(num(2.0))),
        (
            Request::AllowRepetition { prim: PrimitiveId(id), may_need_repetition: false },
            Reply::Ack,
        ),
        (Request::UpdateTemplate { prim: PrimitiveId(id) }, Reply::Ack),
    ]
}

fn clear(id: u32) -> PrimitiveInstance {
    prim(id, PrimitiveInstanceKind::Clear, Some(visible(false)))
}

fn prepare(prims: PrimitiveList, script: Vec<(Request, Reply)>) -> Prepared {
    done(converse(prepare_primitives(prims, buffers(), CONTEXT, LIMITS), script))
}

#[test]
fn empty_list_asks_nothing() {
    assert!(prepare(list(Vec::new()), Vec::new()).list.clusters.is_empty());
}

#[test]
fn culled_primitives_cost_only_their_clusters() {
    let prims = list(vec![
        cluster(4, 0, vec![prim(1, PrimitiveInstanceKind::Clear, None)]),
        cluster(5, 1, Vec::new()),
    ]);
    let out = prepare(prims, vec![select(STATE, 4), select(STATE, 5)]);
    assert_eq!(out.list.clusters.len(), 2);
    assert_eq!(out.list.clusters[0].prim_instances[0].id, PrimitiveId(1));
    assert_eq!(out.list.clusters[1].first, 1);
}

#[test]
fn primitive_outside_the_dirty_regions_is_culled() {
    let out = prepare(
        list(vec![cluster(4, 0, vec![clear(1)])]),
        vec![
            select(STATE, 4),
            regions(vec![dirty(0.0, 1), dirty(50.0, 2)]),
            touches(0.0, false),
            touches(50.0, false),
        ],
    );
    assert!(out.list.clusters[0].prim_instances[0].visibility_info.is_none());
}

#[test]
fn primitive_collects_the_regions_that_it_touches() {
    let mut script = vec![
        select(STATE, 4),
        regions(vec![dirty(0.0, 1), dirty(50.0, 2), dirty(60.0, 4)]),
        touches(0.0, true),
        touches(50.0, false),
        touches(60.0, true),
    ];
    script.append(&mut cleared(1, CONTEXT));
    script.push(count());
    let out = prepare(list(vec![cluster(4, 0, vec![clear(1)])]), script);
    let mut info = visible(false);
    info.visibility_mask = 5;
    assert_eq!(out.list.clusters[0].prim_instances[0].visibility_info, Some(info));
}

#[test]
fn visible_primitive_keeps_its_findings_but_for_marks_and_masks() {
    let mut info = visible(true);
    info.visibility_mask = 8;
    let mut p = clear(1);
    p.visibility_info = Some(info);
    let placed = rect(0.0, 0.0, 10.0, 10.0);
    let bounds = rect(1.0, 2.0, 30.0, 20.0);
    let device = IntRect { x: 2, y: 4, width: 38, height: 36 };
    let mut clipping = cleared(1, CONTEXT);
    let mut preparing = clipping.split_off(5);
    let mut script = vec![select(STATE, 4), regions(vec![dirty(0.0, 1)]), touches(0.0, true)];
    script.append(&mut clipping);
    script.append(&mut vec![
        (Request::UnscaleRect { rect: placed, by: num(2.0) }, Reply::Rect(placed)),
        (
            Request::RasterToWorld { state: STATE, rect: placed },
            Reply::MaybeRect(Some(placed)),
        ),
        (Request::Intersect { a: placed, b: bounds }, Reply::MaybeRect(Some(bounds))),
        (
            Request::WorldToRaster { state: STATE, rect: bounds },
            Reply::MaybeRect(Some(bounds)),
        ),
        (Request::Intersect { a: bounds, b: placed }, Reply::MaybeRect(Some(bounds))),
        (
            Request::RasterToDevicePixels { rect: bounds, scale: num(2.0) },
            Reply::Rect(rect(2.0, 4.0, 38.0, 36.0)),
        ),
        (
            Request::ToIntRect { rect: rect(2.0, 4.0, 38.0, 36.0) },
            Reply::IntRect(device),
        ),
        (
            Request::MaskTask {
                device_rect: device,
                clips_range: ClipsRange { first: 7, count: 2 },
                root_spatial_node_index: ROOT,
                device_pixel_scale: num(2.0),
            },
            Reply::Task(TaskId(70)),
        ),
        (Request::SurfacePort { surface: SURFACE }, Reply::Task(TaskId(80))),
        (
            Request::AddDependency { parent: TaskId(80), child: TaskId(70) },
            Reply::Ack,
        ),
    ]);
    script.append(&mut preparing);
    script.push(count());
    let out = prepare(list(vec![cluster(4, 0, vec![p])]), script);
    info.visibility_mask = 9;
    info.clip_task_index = ClipTaskIndex(0);
    assert_eq!(out.list.clusters[0].prim_instances[0].visibility_info, Some(info));
    assert_eq!(out.scratch.clip_mask_instances, vec![ClipMaskKind::Mask(TaskId(70))]);
}

#[test]
fn primitive_with_a_mark_is_prepared_anyway() {
    let mut p = clear(1);
    let mut info = visible(false);
    info.visibility_mask = 8;
    p.visibility_info = Some(info);
    let mut script = vec![select(STATE, 4), regions(vec![dirty(0.0, 1)]), touches(0.0, false)];
    script.append(&mut cleared(1, CONTEXT));
    script.push(count());
    let out = prepare(list(vec![cluster(4, 0, vec![p])]), script);
    assert_eq!(out.list.clusters[0].prim_instances[0].visibility_info, Some(info));
}

#[test]
fn primitives_keep_their_order() {
    let prims = list(vec![
        cluster(4, 0, vec![clear(1), prim(2, PrimitiveInstanceKind::Clear, None), clear(3)]),
        cluster(5, 3, vec![clear(4)]),
    ]);
    let mut script = vec![select(STATE, 4)];
    for id in vec![1, 3] {
        script.push(regions(vec![dirty(0.0, 1)]));
        script.push(touches(0.0, true));
        script.append(&mut cleared(id, CONTEXT));
        script.push(count());
    }
    script.push(select(STATE, 5));
    script.push(regions(vec![dirty(0.0, 1)]));
    script.push(touches(0.0, false));
    let out = prepare(prims, script);
    let ids: Vec<u32> =
        out.list.clusters[0].prim_instances.iter().map(|p| p.id.0).collect();
    assert_eq!(ids, vec![1, 2, 3]);
    assert_eq!(out.list.clusters[1].prim_instances[0].id, PrimitiveId(4));
}

fn picture(id: u32, children: PrimitiveList) -> PrimitiveInstance {
    let kind = PrimitiveInstanceKind::Picture { pic_index: PictureIndex(3) };
    let mut p = prim(id, kind, Some(visible(false)));
    p.children = children;
    p
}

fn take(reply: Option<PictureContext>) -> (Request, Reply) {
    (
        Request::TakeContext {
            pic_index: PictureIndex(3),
            clipped_prim_bounding_rect: rect(1.0, 2.0, 30.0, 20.0),
            surface_spatial_node_index: SpatialNodeIndex(3),
            raster_spatial_node_index: ROOT,
            surface_index: SURFACE,
            subpixel_mode: SubpixelMode(1),
        },
        Reply::Context(reply),
    )
}

fn restore(context: PictureContext) -> (Request, Reply) {
    (Request::RestoreContext { surface_index: SURFACE, context }, Reply::Ack)
}

#[test]
fn picture_without_a_context_is_culled_and_not_counted() {
    let children = list(vec![cluster(6, 0, vec![clear(2)])]);
    let script = vec![
        select(STATE, 4),
        regions(vec![dirty(0.0, 1)]),
        touches(0.0, true),
        take(None),
    ];
    let out = prepare(list(vec![cluster(4, 0, vec![picture(1, children)])]), script);
    let p = &out.list.clusters[0].prim_instances[0];
    assert!(p.visibility_info.is_none());
    assert_eq!(p.children.clusters[0].prim_instances[0].id, PrimitiveId(2));
}

/// The conversation that prepares a picture at a position of its list.
fn picture_prepared(anchor: PlaneSplitAnchor) -> Vec<(Request, Reply)> {
    let pic_index = PictureIndex(3);
    vec![
        (Request::StampFrame { prim: PrimitiveId(1) }, Reply::Ack),
        (Request::DevicePixelScale { surface: SURFACE }, Reply::Number(num(2.0))),
        (Request::PreparePicture { pic_index }, Reply::Flag(true)),
        (Request::HasPlaneSplitter { state: STATE }, Reply::Flag(true)),
        (Request::DirtyRegionBounds, Reply::Rect(rect(0.0, 0.0, 640.0, 480.0))),
        (
            Request::AddSplitPlane {
                state: STATE,
                node: NODE,
                pic_index,
                combined_local_clip_rect: rect(0.0, 0.0, 500.0, 500.0),
                dirty_rect: rect(0.0, 0.0, 640.0, 480.0),
                anchor,
            },
            Reply::Ack,
        ),
        (Request::CanUseSegments { pic_index }, Reply::Flag(false)),
    ]
}

#[test]
fn children_are_prepared_before_their_picture() {
    let children = list(vec![cluster(6, 0, vec![clear(2)])]);
    let mut script = vec![
        select(STATE, 5),
        select(STATE, 4),
        regions(vec![dirty(0.0, 1)]),
        touches(0.0, true),
        take(Some(CHILD_CONTEXT)),
        select(PictureState(16), 6),
        regions(vec![dirty(0.0, 1)]),
        touches(0.0, true),
    ];
    script.append(&mut cleared(2, CHILD_CONTEXT));
    script.push(count());
    script.push(restore(CHILD_CONTEXT));
    // A picture that passes its children through is not clipped.
    script.push((
        Request::LocalPrimRect { prim: PrimitiveId(1) },
        Reply::Rect(rect(0.0, 0.0, 10.0, 10.0)),
    ));
    script.append(&mut picture_prepared(PlaneSplitAnchor {
        cluster_index: 1,
        instance_index: 8,
    }));
    script.push(count());
    let prims = list(vec![
        cluster(5, 0, Vec::new()),
        cluster(
            4,
            7,
            vec![prim(9, PrimitiveInstanceKind::Clear, None), picture(1, children)],
        ),
    ]);
    let out = prepare(prims, script);
    let p = &out.list.clusters[1].prim_instances[1];
    assert_eq!(p.id, PrimitiveId(1));
    match p.children.clusters[0].prim_instances[0].visibility_info {
        Some(info) => assert_eq!(info.visibility_mask, 1),
        None => panic!("culled"),
    }
}

/// How many requests of a conversation stamp a primitive, and how many count one.
fn stamped_and_counted(script: &Vec<(Request, Reply)>) -> (usize, usize) {
    let stamped = script.iter().filter(|s| matches!(s.0, Request::StampFrame { .. })).count();
    let counted = script.iter().filter(|s| s.0 == Request::CountVisiblePrimitive).count();
    (stamped, counted)
}

#[test]
fn each_visible_primitive_is_counted_once() {
    // Of two children one is visible, as is their picture, which turns out to need no drawing.
    // Another picture gives no context.
    let children = list(vec![cluster(6, 0, vec![clear(2), clear(3)])]);
    let mut script = vec![
        select(STATE, 4),
        regions(vec![dirty(0.0, 1)]),
        touches(0.0, true),
        take(Some(CHILD_CONTEXT)),
        select(PictureState(16), 6),
        regions(vec![dirty(0.0, 1)]),
        touches(0.0, true),
    ];
    script.append(&mut cleared(2, CHILD_CONTEXT));
    script.push(count());
    script.push(regions(vec![dirty(0.0, 1)]));
    script.push(touches(0.0, false));
    script.push(restore(CHILD_CONTEXT));
    script.append(&mut vec![
        (
            Request::LocalPrimRect { prim: PrimitiveId(1) },
            Reply::Rect(rect(0.0, 0.0, 10.0, 10.0)),
        ),
        (Request::StampFrame { prim: PrimitiveId(1) }, Reply::Ack),
        (Request::DevicePixelScale { surface: SURFACE }, Reply::Number(num(2.0))),
        (Request::PreparePicture { pic_index: PictureIndex(3) }, Reply::Flag(false)),
        count(),
        regions(vec![dirty(0.0, 1)]),
        touches(0.0, true),
        take(None),
    ]);
    assert_eq!(stamped_and_counted(&script), (2, 2));
    let prims = list(vec![cluster(
        4,
        0,
        vec![picture(1, children), picture(5, list(Vec::new()))],
    )]);
    let out = prepare(prims, script);
    let prims = &out.list.clusters[0].prim_instances;
    assert!(prims[0].visibility_info.is_none());
    assert!(prims[1].visibility_info.is_none());
    let children = &prims[0].children.clusters[0].prim_instances;
    assert!(children[0].visibility_info.is_some());
    assert!(children[1].visibility_info.is_none());
}

#[test]
fn other_pictures_are_clipped() {
    let mut context = CHILD_CONTEXT;
    context.is_passthrough = false;
    let pic_index = PictureIndex(3);
    let placed = rect(0.0, 0.0, 10.0, 10.0);
    let mut script = vec![
        select(STATE, 4),
        regions(vec![dirty(0.0, 1)]),
        touches(0.0, true),
        take(Some(context)),
        restore(context),
        (Request::LocalPrimRect { prim: PrimitiveId(1) }, Reply::Rect(placed)),
        (Request::DevicePixelScale { surface: SURFACE }, Reply::Number(num(2.0))),
        (
            Request::PictureToRaster { state: STATE, rect: rect(0.0, 0.0, 50.0, 40.0) },
            Reply::MaybeRect(Some(placed)),
        ),
        (Request::ScaleRect { rect: placed, by: num(2.0) }, Reply::Rect(placed)),
        (Request::LocalPrimRect { prim: PrimitiveId(1) }, Reply::Rect(placed)),
        (Request::CanUseSegments { pic_index }, Reply::Flag(false)),
    ];
    script.append(&mut picture_prepared(PlaneSplitAnchor {
        cluster_index: 0,
        instance_index: 0,
    }));
    script.push(count());
    let prims = list(vec![cluster(4, 0, vec![picture(1, list(Vec::new()))])]);
    prepare(prims, script);
}

#[test]
fn position_that_does_not_fit_is_a_fault() {
    let prims = list(vec![cluster(
        4,
        usize::MAX,
        vec![prim(1, PrimitiveInstanceKind::Clear, None), clear(2)],
    )]);
    let start = prepare_primitives(prims, buffers(), CONTEXT, LIMITS);
    let script = vec![select(STATE, 4), regions(vec![dirty(0.0, 1)]), touches(0.0, true)];
    assert_eq!(failed(converse(start, script)), Fault::PositionOverflow);
}

#[test]
fn culled_picture_cannot_be_prepared() {
    let place = PrimPlace {
        context: CONTEXT,
        prim_spatial_node_index: NODE,
        plane_split_anchor: PlaneSplitAnchor { cluster_index: 0, instance_index: 0 },
        limits: LIMITS,
    };
    let mut p = picture(1, list(Vec::new()));
    p.visibility_info = None;
    let start = prepare_prim_for_render(Work { instance: p, scratch: buffers() }, place);
    assert_eq!(failed(start), Fault::NotVisible);
}

#[test]
fn prepared_primitive_is_visible() {
    let place = PrimPlace {
        context: CONTEXT,
        prim_spatial_node_index: NODE,
        plane_split_anchor: PlaneSplitAnchor { cluster_index: 0, instance_index: 0 },
        limits: LIMITS,
    };
    let start =
        prepare_prim_for_render(Work { instance: clear(1), scratch: buffers() }, place);
    let out = done(converse(start, cleared(1, CONTEXT)));
    assert!(out.visible);
    assert_eq!(out.w.instance.id, PrimitiveId(1));
}
