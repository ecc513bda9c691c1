//! Preparing the kinds of primitives.
use prepare_pass::geometry::{
    minus, negate, over, plus, times, value, AuSize, Block, Expr, IntSize, Point, Rect, Size,
};
use prepare_pass::interned::prepare_interned_prim_for_render;
use prepare_pass::model::{
    BorderSegment, BorderStyle, BrushFlags, BrushSegment, CacheLimits, CachedGradientSegment,
    ClipChainInstance, ClipTaskIndex, ClipsRange, ColorBinding, ConicGradientTemplate, ExtendMode,
    GpuCacheHandle, GradientStopKey, IndexRange, LineDecorationCacheKey, LineOrientation,
    LineStyle, LinearGradientTemplate, NormalBorderTemplate, PictureContext, PictureIndex,
    PictureState, PlaneSplitAnchor, PrimPlace, PrimitiveId, PrimitiveInstance,
    PrimitiveInstanceKind, PrimitiveList, PrimitiveScratchBuffer, PrimitiveVisibility,
    RadialGradientTemplate, SegmentInstanceIndex, SegmentedInstance, SpatialNodeIndex,
    SubpixelMode, SurfaceIndex, TaskId, Token, Work,
};
use prepare_pass::program::{
    Fault, GradientCacheKey, Progress, Reply, Request, Resume, SegmentStops, SurfaceTasks,
};
use prepare_pass::scalar::Scalar;
use prepare_pass::segment_build::zeros;

const NODE: SpatialNodeIndex = SpatialNodeIndex(4);
const ROOT: SpatialNodeIndex = SpatialNodeIndex(1);
const SURFACE: SurfaceIndex = SurfaceIndex(2);
const STATE: PictureState = PictureState(6);
const PRIM: PrimitiveId = PrimitiveId(11);

fn chain(needs_mask: bool) -> ClipChainInstance {
    ClipChainInstance {
        clips_range: ClipsRange { first: 7, count: 2 },
        has_non_local_clips: false,
        needs_mask,
        pic_clip_rect: rect(0.0, 0.0, 50.0, 40.0),
    }
}

fn visible(needs_mask: bool) -> PrimitiveVisibility {
    PrimitiveVisibility {
        clipped_world_rect: rect(1.0, 2.0, 30.0, 20.0),
        combined_local_clip_rect: rect(0.0, 0.0, 500.0, 500.0),
        clip_chain: chain(needs_mask),
        clip_task_index: ClipTaskIndex(99),
        visibility_mask: 0,
    }
}

fn instance(kind: PrimitiveInstanceKind, info: Option<PrimitiveVisibility>) -> PrimitiveInstance {
    PrimitiveInstance {
        id: PRIM,
        is_chased: false,
        kind,
        local_clip_rect: rect(0.0, 0.0, 300.0, 300.0),
        visibility_info: info,
        segment_instance_index: SegmentInstanceIndex::Invalid,
        segments_are_valid: false,
        cache_handle: None,
        cache_handles: IndexRange::empty(),
        cache_segments: Vec::new(),
        visible_tiles_range: IndexRange::empty(),
        children: PrimitiveList { clusters: Vec::new() },
    }
}

fn buffers() -> PrimitiveScratchBuffer {
    PrimitiveScratchBuffer {
        clip_mask_instances: Vec::new(),
        segments: Vec::new(),
        segment_instances: Vec::new(),
        border_cache_handles: Vec::new(),
        gradient_tiles: Vec::new(),
    }
}

fn work(kind: PrimitiveInstanceKind) -> Work {
    Work { instance: instance(kind, Some(visible(false))), scratch: buffers() }
}

fn segment(x: f32, may_need_clip_mask: bool) -> BrushSegment {
    BrushSegment {
        local_rect: rect(x, 0.0, 10.0, 10.0),
        may_need_clip_mask,
        edge_flags: 0,
        extra_data: zeros(),
        brush_flags: BrushFlags::Plain,
    }
}

fn num(x: f32) -> Scalar {
    Scalar { bits: x.to_bits() }
}

fn point(x: f32, y: f32) -> Point {
    Point { x: num(x), y: num(y) }
}

fn size(width: f32, height: f32) -> Size {
    Size { width: num(width), height: num(height) }
}

fn rect(x: f32, y: f32, width: f32, height: f32) -> Rect {
    Rect { origin: point(x, y), size: size(width, height) }
}

/// Holds a conversation: each request has to be the expected one, and gets the reply beside it.
fn converse<M: Resume>(start: Progress<M>, script: Vec<(Request, Reply)>) -> Progress<M> {
    let mut progress = start;
    for (step, (expected, reply)) in script.into_iter().enumerate() {
        match progress {
            Progress::Waiting(machine, request) => {
                assert_eq!(request, expected, "request {}", step);
                progress = machine.resume(reply);
            }
            Progress::Done(_) => panic!("done before request {}", step),
            Progress::Failed(fault) => panic!("{:?} before request {}", fault, step),
        }
    }
    progress
}

fn done<M: Resume>(progress: Progress<M>) -> M::Out {
    match progress {
        Progress::Waiting(_, request) => panic!("still asks {:?}", request),
        Progress::Done(out) => out,
        Progress::Failed(fault) => panic!("{:?}", fault),
    }
}

fn failed<M: Resume>(progress: Progress<M>) -> Fault {
    match progress {
        Progress::Waiting(_, request) => panic!("still asks {:?}", request),
        Progress::Done(_) => panic!("done"),
        Progress::Failed(fault) => fault,
    }
}

const CONTEXT: PictureContext = PictureContext {
    pic_index: PictureIndex(20),
    is_passthrough: false,
    surface_spatial_node_index: SpatialNodeIndex(3),
    raster_spatial_node_index: ROOT,
    surface_index: SURFACE,
    subpixel_mode: SubpixelMode(1),
    state: STATE,
};

const PLACE: PrimPlace = PrimPlace {
    context: CONTEXT,
    prim_spatial_node_index: NODE,
    plane_split_anchor: PlaneSplitAnchor { cluster_index: 1, instance_index: 5 },
    limits: CacheLimits { max_line_decoration_resolution: 4096, texture_region_dimensions: 512 },
};

/// Prepares a primitive at a device scale of two.
fn prepare(w: Work, script: Vec<(Request, Reply)>) -> Work {
    let mut all = vec![scale()];
    all.extend(script);
    done(converse(prepare_interned_prim_for_render(w, PLACE), all))
}

fn scale() -> (Request, Reply) {
    (Request::DevicePixelScale { surface: SURFACE }, Reply::Number(num(2.0)))
}

fn forbid() -> (Request, Reply) {
    (Request::AllowRepetition { prim: PRIM, may_need_repetition: false }, Reply::Ack)
}

fn update() -> (Request, Reply) {
    (Request::UpdateTemplate { prim: PRIM }, Reply::Ack)
}

fn line_key() -> LineDecorationCacheKey {
    LineDecorationCacheKey {
        style: LineStyle::Wavy,
        orientation: LineOrientation::Horizontal,
        wavy_line_thickness: 60,
        size: AuSize { width: 6000, height: 120 },
    }
}

#[test]
fn solid_line_only_updates_its_template() {
    let out = prepare(
        work(PrimitiveInstanceKind::LineDecoration { cache_key: None }),
        vec![update()],
    );
    assert_eq!(out.instance.cache_handle, None);
}

#[test]
fn other_lines_are_drawn_by_a_task() {
    let task_size = IntSize { width: 200, height: 4 };
    let out = prepare(
        work(PrimitiveInstanceKind::LineDecoration { cache_key: Some(line_key()) }),
        vec![
            update(),
            (
                Request::CeilTaskSize { size: line_key().size, scale: num(2.0), shrink: None },
                Reply::IntSize(task_size),
            ),
            (
                Request::LineDecorationTask { size: task_size, key: line_key() },
                Reply::TaskHandle(55),
            ),
        ],
    );
    assert_eq!(out.instance.cache_handle, Some(55));
}

#[test]
fn line_task_beyond_the_limit_is_scaled_down() {
    for (found, larger) in vec![
        (IntSize { width: 8192, height: 4 }, 8192),
        (IntSize { width: 4, height: 4097 }, 4097),
    ] {
        let shrunk = IntSize { width: 4096, height: 2 };
        prepare(
            work(PrimitiveInstanceKind::LineDecoration { cache_key: Some(line_key()) }),
            vec![
                update(),
                (
                    Request::CeilTaskSize { size: line_key().size, scale: num(2.0), shrink: None },
                    Reply::IntSize(found),
                ),
                (
                    Request::Evaluate(over(Expr::Whole(4096), Expr::Whole(larger))),
                    Reply::Number(num(0.5)),
                ),
                (
                    Request::CeilTaskSize {
                        size: line_key().size,
                        scale: num(2.0),
                        shrink: Some(num(0.5)),
                    },
                    Reply::IntSize(shrunk),
                ),
                (
                    Request::LineDecorationTask { size: shrunk, key: line_key() },
                    Reply::TaskHandle(55),
                ),
            ],
        );
    }
}

/// The conversation for a text run in a picture with a root scaling factor or without.
fn glyphs(factor: Option<Scalar>, used: Scalar) -> Vec<(Request, Reply)> {
    vec![
        forbid(),
        (Request::RelativeTransform { from: NODE, to: ROOT }, Reply::Token(Token(31))),
        (
            Request::Evaluate(minus(value(num(10.0)), value(num(1.0)))),
            Reply::Number(num(9.0)),
        ),
        (
            Request::Evaluate(minus(value(num(20.0)), value(num(2.0)))),
            Reply::Number(num(18.0)),
        ),
        (Request::RasterSpace { pic_index: PictureIndex(20) }, Reply::Token(Token(32))),
        (
            Request::RootScalingFactor { pic_index: PictureIndex(20) },
            Reply::MaybeNumber(factor),
        ),
        (
            Request::RequestGlyphs {
                prim: PRIM,
                prim_offset: point(9.0, 18.0),
                pic_clip_rect: rect(0.0, 0.0, 50.0, 40.0),
                transform: Token(31),
                surface: SURFACE,
                node: NODE,
                raster_space: Token(32),
                root_scaling_factor: used,
                subpixel_mode: SubpixelMode(1),
            },
            Reply::Ack,
        ),
        update(),
    ]
}

fn text_run() -> PrimitiveInstanceKind {
    PrimitiveInstanceKind::TextRun {
        prim_origin: point(10.0, 20.0),
        reference_frame_relative_offset: point(1.0, 2.0),
    }
}

#[test]
fn text_run_requests_its_glyphs() {
    prepare(work(text_run()), glyphs(Some(num(0.25)), num(0.25)));
    prepare(work(text_run()), glyphs(None, num(1.0)));
}

#[test]
fn culled_text_run_is_a_fault() {
    let w = Work { instance: instance(text_run(), None), scratch: buffers() };
    let start = prepare_interned_prim_for_render(w, PLACE);
    assert_eq!(failed(converse(start, vec![scale()])), Fault::NotVisible);
}

#[test]
fn clear_and_image_border_update_their_templates() {
    prepare(work(PrimitiveInstanceKind::Clear), vec![forbid(), update()]);
    prepare(
        work(PrimitiveInstanceKind::ImageBorder { brush_segments: Vec::new() }),
        vec![update()],
    );
}

fn border(top: BorderStyle, left: BorderStyle, count: u32) -> PrimitiveInstanceKind {
    PrimitiveInstanceKind::NormalBorder(NormalBorderTemplate {
        top,
        right: BorderStyle::Solid,
        bottom: BorderStyle::Groove,
        left,
        border_segments: (0..count)
            .map(|i| BorderSegment {
                local_task_size: size(10.0 + i as f32, 5.0),
                cache_key: Token(40 + i),
            })
            .collect(),
        brush_segments: Vec::new(),
    })
}

/// The conversation up to the scale of a border.
fn border_scale(repeats: bool) -> Vec<(Request, Reply)> {
    vec![
        (Request::AllowRepetition { prim: PRIM, may_need_repetition: repeats }, Reply::Ack),
        update(),
        (
            Request::WorldScaleFactors { node: NODE },
            Reply::Numbers { x: num(1.2), y: num(0.7) },
        ),
        (Request::ClampToScaleFactor { value: num(1.2) }, Reply::Number(num(2.0))),
        (Request::ClampToScaleFactor { value: num(0.7) }, Reply::Number(num(1.0))),
        (
            Request::Evaluate(times(value(num(2.0)), value(num(2.0)))),
            Reply::Number(num(4.0)),
        ),
        (Request::MaxBorderScale { prim: PRIM }, Reply::Number(num(3.0))),
    ]
}

#[test]
fn border_requests_a_task_for_each_segment() {
    let count = 9;
    let mut script = border_scale(false);
    for i in 0..count {
        let given = if i == 0 { num(3.0) } else { num(2.5) };
        let found = IntSize { width: 30 + i as i32, height: 15 };
        script.push((
            Request::CacheSize { size: size(10.0 + i as f32, 5.0), scale: given },
            Reply::CacheSize { size: found, scale: num(2.5) },
        ));
        script.push((
            Request::BorderSegmentTask {
                prim: PRIM,
                key: Token(40 + i),
                size: found,
                scale: num(2.5),
            },
            Reply::TaskHandle(500 + i as u64),
        ));
    }
    let mut w = work(border(BorderStyle::Solid, BorderStyle::Solid, count));
    w.scratch.border_cache_handles = vec![7];
    let out = prepare(w, script);
    assert_eq!(out.instance.cache_handles, IndexRange { start: 1, end: 10 });
    let expected: Vec<u64> = vec![7, 500, 501, 502, 503, 504, 505, 506, 507, 508];
    assert_eq!(out.scratch.border_cache_handles, expected);
}

#[test]
fn dotted_and_dashed_borders_may_need_repetition() {
    prepare(work(border(BorderStyle::Dotted, BorderStyle::Solid, 0)), border_scale(true));
    prepare(work(border(BorderStyle::Solid, BorderStyle::Dashed, 0)), border_scale(true));
    prepare(work(border(BorderStyle::Double, BorderStyle::Ridge, 0)), border_scale(false));
}

fn rectangle(color_binding: ColorBinding, index: SegmentInstanceIndex) -> Work {
    let mut w = work(PrimitiveInstanceKind::Rectangle { color_binding });
    w.instance.segment_instance_index = index;
    w.scratch.segments = vec![segment(0.0, true), segment(10.0, true)];
    w.scratch.segment_instances = vec![SegmentedInstance {
        segments_range: IndexRange { start: 0, end: 2 },
        gpu_cache_handle: GpuCacheHandle { slot: Some(8) },
    }];
    w
}

fn gpu_request(granted: bool) -> (Request, Reply) {
    (
        Request::RequestGpuBlocks { handle: GpuCacheHandle { slot: Some(8) } },
        Reply::GpuBlocks { handle: GpuCacheHandle { slot: Some(9) }, granted },
    )
}

#[test]
fn rectangle_writes_its_segments() {
    let out = prepare(
        rectangle(ColorBinding::Value, SegmentInstanceIndex::At(0)),
        vec![
            forbid(),
            update(),
            gpu_request(true),
            (Request::PushTemplateBlocks { prim: PRIM }, Reply::Ack),
            (
                Request::PushSegment {
                    local_rect: rect(0.0, 0.0, 10.0, 10.0),
                    extra_data: zeros(),
                },
                Reply::Ack,
            ),
            (
                Request::PushSegment {
                    local_rect: rect(10.0, 0.0, 10.0, 10.0),
                    extra_data: zeros(),
                },
                Reply::Ack,
            ),
            (Request::FinishGpuBlocks, Reply::Ack),
        ],
    );
    assert_eq!(
        out.scratch.segment_instances[0].gpu_cache_handle,
        GpuCacheHandle { slot: Some(9) },
    );
}

#[test]
fn animated_colour_invalidates_the_gpu_cache() {
    prepare(
        rectangle(ColorBinding::Binding, SegmentInstanceIndex::Unused),
        vec![
            forbid(),
            (Request::InvalidateTemplateBlocks { prim: PRIM }, Reply::Ack),
            update(),
        ],
    );
    prepare(
        rectangle(ColorBinding::Binding, SegmentInstanceIndex::At(0)),
        vec![
            forbid(),
            (
                Request::InvalidateGpuBlocks { handle: GpuCacheHandle { slot: Some(8) } },
                Reply::Ack,
            ),
            update(),
            gpu_request(false),
        ],
    );
}

#[test]
fn rectangle_without_settled_segments_is_a_fault() {
    for binding in vec![ColorBinding::Unbound, ColorBinding::Binding] {
        let start = prepare_interned_prim_for_render(
            rectangle(binding, SegmentInstanceIndex::Invalid),
            PLACE,
        );
        let script = vec![scale(), forbid(), update()];
        assert_eq!(failed(converse(start, script)), Fault::NoSegments);
    }
}

#[test]
fn image_that_is_not_stretched_over_may_repeat() {
    for (stretch, forbids) in vec![(size(10.0, 10.0), true), (size(10.0, 9.0), false)] {
        let mut w = work(PrimitiveInstanceKind::Image {
            stretch_size: stretch,
            prim_size: size(10.0, 10.0),
        });
        w.instance.segment_instance_index = SegmentInstanceIndex::Unused;
        let mut script = Vec::new();
        if forbids {
            script.push(forbid());
        }
        script.push(update());
        prepare(w, script);
    }
}

#[test]
fn yuv_image_writes_its_segments() {
    let mut w = rectangle(ColorBinding::Unbound, SegmentInstanceIndex::At(0));
    w.instance.kind = PrimitiveInstanceKind::YuvImage;
    prepare(w, vec![forbid(), update(), gpu_request(false)]);
}

fn stop(offset: f32, color: u32) -> GradientStopKey {
    GradientStopKey { offset: num(offset), color }
}

fn linear(supports_caching: bool, spacing: Size) -> PrimitiveInstanceKind {
    PrimitiveInstanceKind::LinearGradient(LinearGradientTemplate {
        prim_rect: rect(0.0, 0.0, 100.0, 50.0),
        stretch_size: size(100.0, 50.0),
        tile_spacing: spacing,
        start_point: point(0.0, 1.0),
        end_point: point(100.0, 1.0),
        extend_mode: ExtendMode::Clamp,
        supports_caching,
        reverse_stops: false,
        is_opaque: true,
        stops: vec![stop(0.0, 1), stop(1.0, 2)],
        brush_segments: Vec::new(),
    })
}

#[test]
fn plain_linear_gradient_updates_its_template() {
    prepare(work(linear(false, size(0.0, 0.0))), vec![update(), forbid()]);
}

#[test]
fn cached_linear_gradient_replaces_its_segments() {
    let mut w = work(linear(true, size(0.0, 0.0)));
    w.instance.cache_segments =
        vec![CachedGradientSegment { handle: 1, local_rect: rect(0.0, 0.0, 1.0, 1.0) }];
    let axis = minus(value(num(100.0)), value(num(0.0)));
    let length = over(
        value(num(1.0)),
        minus(value(num(1.0)), value(num(0.0))),
    );
    let origin = plus(
        value(num(0.0)),
        times(
            times(minus(plus(value(num(0.0)), value(num(0.0))), value(num(0.0))), length),
            value(num(100.0)),
        ),
    );
    let length = over(
        value(num(1.0)),
        minus(value(num(1.0)), value(num(0.0))),
    );
    let extent = times(
        value(num(100.0)),
        times(minus(value(num(1.0)), value(num(0.0))), length),
    );
    let out = prepare(
        w,
        vec![
            update(),
            forbid(),
            (Request::IsApproximately { a: num(0.0), b: num(100.0) }, Reply::Flag(false)),
            (
                Request::Evaluate(over(negate(value(num(0.0))), axis)),
                Reply::Number(num(0.0)),
            ),
            (
                Request::Evaluate(over(
                    minus(value(num(100.0)), value(num(0.0))),
                    minus(value(num(100.0)), value(num(0.0))),
                )),
                Reply::Number(num(1.0)),
            ),
            (Request::Evaluate(origin), Reply::Number(num(0.0))),
            (Request::Evaluate(extent), Reply::Number(num(100.0))),
            (
                Request::Evaluate(times(value(num(100.0)), value(num(50.0)))),
                Reply::Number(num(5000.0)),
            ),
            (
                Request::GradientTask {
                    size: IntSize { width: 512, height: 16 },
                    key: GradientCacheKey {
                        orientation: LineOrientation::Horizontal,
                        start: num(0.0),
                        end: num(1.0),
                        stops: SegmentStops {
                            first: stop(0.0, 1),
                            second: stop(1.0, 2),
                            third: stop(0.0, 0),
                            fourth: stop(0.0, 0),
                        },
                    },
                    is_opaque: true,
                },
                Reply::TaskHandle(66),
            ),
        ],
    );
    assert_eq!(
        out.instance.cache_segments,
        vec![CachedGradientSegment { handle: 66, local_rect: rect(0.0, 0.0, 100.0, 50.0) }],
    );
}

/// The conversation that finds the repetitions of a gradient with a spacing of five.
fn repeating(origins: Vec<Point>) -> Vec<(Request, Reply)> {
    vec![
        (
            Request::Intersect {
                a: rect(0.0, 0.0, 500.0, 500.0),
                b: rect(0.0, 0.0, 100.0, 50.0),
            },
            Reply::MaybeRect(Some(rect(0.0, 0.0, 100.0, 50.0))),
        ),
        (
            Request::ConservativeVisibleRect {
                clip_rect: rect(0.0, 0.0, 100.0, 50.0),
                world_rect: rect(1.0, 2.0, 30.0, 20.0),
                mapper: Token(12),
            },
            Reply::Rect(rect(0.0, 0.0, 60.0, 30.0)),
        ),
        (
            Request::Evaluate(plus(value(num(100.0)), value(num(5.0)))),
            Reply::Number(num(105.0)),
        ),
        (
            Request::Evaluate(plus(value(num(50.0)), value(num(5.0)))),
            Reply::Number(num(55.0)),
        ),
        (
            Request::Repetitions {
                prim_rect: rect(0.0, 0.0, 100.0, 50.0),
                visible_rect: rect(0.0, 0.0, 60.0, 30.0),
                stride: size(105.0, 55.0),
            },
            Reply::Origins(origins),
        ),
    ]
}

/// The conversation that writes the blocks of one repetition.
fn tile_blocks(first: Block, second: Block) -> Vec<(Request, Reply)> {
    vec![
        (
            Request::RequestGpuBlocks { handle: GpuCacheHandle { slot: None } },
            Reply::GpuBlocks { handle: GpuCacheHandle { slot: Some(4) }, granted: true },
        ),
        (Request::PushBlock { block: first }, Reply::Ack),
        (Request::PackAsFloat { value: 0 }, Reply::Number(num(7.0))),
        (Request::PushBlock { block: second }, Reply::Ack),
        (Request::FinishGpuBlocks, Reply::Ack),
    ]
}

fn block(x: f32, y: f32, z: f32, w: f32) -> Block {
    Block { x: num(x), y: num(y), z: num(z), w: num(w) }
}

fn mapper() -> (Request, Reply) {
    (Request::LocalToWorldMapper { node: NODE }, Reply::Token(Token(12)))
}

#[test]
fn spaced_linear_gradient_is_decomposed() {
    let mut script = vec![update(), forbid(), forbid(), mapper()];
    script.append(&mut repeating(vec![point(0.0, 0.0)]));
    script.append(&mut tile_blocks(
        block(0.0, 1.0, 100.0, 1.0),
        block(7.0, 100.0, 50.0, 0.0),
    ));
    let out = prepare(work(linear(false, size(5.0, 5.0))), script);
    assert_eq!(out.instance.visible_tiles_range, IndexRange { start: 0, end: 1 });
    assert!(out.instance.visibility_info.is_some());
}

#[test]
fn gradient_without_visible_tiles_is_culled() {
    let mut script = vec![update(), forbid(), forbid(), mapper()];
    script.append(&mut repeating(Vec::new()));
    let out = prepare(work(linear(false, size(5.0, 5.0))), script);
    assert!(out.instance.visible_tiles_range.is_empty());
    assert!(out.instance.visibility_info.is_none());
}

fn radial(spacing: Size) -> PrimitiveInstanceKind {
    PrimitiveInstanceKind::RadialGradient(RadialGradientTemplate {
        prim_rect: rect(0.0, 0.0, 100.0, 50.0),
        stretch_size: size(100.0, 50.0),
        tile_spacing: spacing,
        center: point(5.0, 6.0),
        start_radius: num(7.0),
        end_radius: num(8.0),
        ratio_xy: num(1.5),
        extend_mode: ExtendMode::Clamp,
        brush_segments: Vec::new(),
    })
}

fn conic(spacing: Size, stretch: Size) -> PrimitiveInstanceKind {
    PrimitiveInstanceKind::ConicGradient(ConicGradientTemplate {
        prim_rect: rect(0.0, 0.0, 100.0, 50.0),
        stretch_size: stretch,
        tile_spacing: spacing,
        center: point(5.0, 6.0),
        start_offset: num(0.25),
        end_offset: num(0.75),
        angle: num(0.5),
        extend_mode: ExtendMode::Clamp,
        brush_segments: Vec::new(),
    })
}

#[test]
fn round_gradients_without_spacing_update_their_templates() {
    prepare(work(radial(size(0.0, 0.0))), vec![forbid(), update()]);
    prepare(work(conic(size(0.0, 0.0), size(10.0, 10.0))), vec![update()]);
}

#[test]
fn spaced_radial_gradient_is_decomposed() {
    let mut script = vec![forbid(), update(), mapper(), forbid()];
    script.append(&mut repeating(vec![point(0.0, 0.0)]));
    script.append(&mut tile_blocks(
        block(5.0, 6.0, 7.0, 8.0),
        block(1.5, 7.0, 100.0, 50.0),
    ));
    let out = prepare(work(radial(size(5.0, 5.0))), script);
    assert_eq!(out.instance.visible_tiles_range, IndexRange { start: 0, end: 1 });
}

#[test]
fn spaced_conic_gradient_is_decomposed_or_culled() {
    let mut script = vec![forbid(), update(), mapper(), forbid()];
    script.append(&mut repeating(vec![point(0.0, 0.0)]));
    script.append(&mut tile_blocks(
        block(5.0, 6.0, 0.25, 0.75),
        block(0.5, 7.0, 100.0, 50.0),
    ));
    let out = prepare(work(conic(size(5.0, 5.0), size(100.0, 50.0))), script);
    assert_eq!(out.scratch.gradient_tiles.len(), 1);
    let mut script = vec![forbid(), update(), mapper(), forbid()];
    script.append(&mut repeating(Vec::new()));
    let out = prepare(work(conic(size(5.0, 5.0), size(100.0, 50.0))), script);
    assert!(out.instance.visibility_info.is_none());
}

fn picture() -> PrimitiveInstanceKind {
    PrimitiveInstanceKind::Picture { pic_index: PictureIndex(3) }
}

fn picture_prepared(drawn: bool) -> (Request, Reply) {
    (Request::PreparePicture { pic_index: PictureIndex(3) }, Reply::Flag(drawn))
}

#[test]
fn picture_that_is_not_drawn_is_culled() {
    let out = prepare(work(picture()), vec![picture_prepared(false)]);
    assert!(out.instance.visibility_info.is_none());
}

#[test]
fn picture_in_a_splitter_adds_its_plane() {
    let out = prepare(
        work(picture()),
        vec![
            picture_prepared(true),
            (Request::HasPlaneSplitter { state: STATE }, Reply::Flag(true)),
            (Request::DirtyRegionBounds, Reply::Rect(rect(0.0, 0.0, 640.0, 480.0))),
            (
                Request::AddSplitPlane {
                    state: STATE,
                    node: NODE,
                    pic_index: PictureIndex(3),
                    combined_local_clip_rect: rect(0.0, 0.0, 500.0, 500.0),
                    dirty_rect: rect(0.0, 0.0, 640.0, 480.0),
                    anchor: PlaneSplitAnchor { cluster_index: 1, instance_index: 5 },
                },
                Reply::Ack,
            ),
            (Request::CanUseSegments { pic_index: PictureIndex(3) }, Reply::Flag(false)),
        ],
    );
    assert!(out.instance.visibility_info.is_some());
}

#[test]
fn picture_with_segments_writes_them() {
    let mut w = rectangle(ColorBinding::Unbound, SegmentInstanceIndex::At(0));
    w.instance.kind = picture();
    prepare(
        w,
        vec![
            picture_prepared(true),
            (Request::HasPlaneSplitter { state: STATE }, Reply::Flag(false)),
            (Request::CanUseSegments { pic_index: PictureIndex(3) }, Reply::Flag(true)),
            gpu_request(false),
        ],
    );
}

fn backdrop() -> PrimitiveInstanceKind {
    PrimitiveInstanceKind::Backdrop { pic_index: PictureIndex(3) }
}

fn backdrop_surface() -> (Request, Reply) {
    (
        Request::PictureSurface { pic_index: PictureIndex(3) },
        Reply::Surface(SurfaceIndex(9)),
    )
}

#[test]
fn backdrop_depends_on_the_picture_behind() {
    let tasks = SurfaceTasks { root: TaskId(90), port: TaskId(91) };
    let out = prepare(
        work(backdrop()),
        vec![
            backdrop_surface(),
            (
                Request::SurfaceRenderTasks { surface: SurfaceIndex(9) },
                Reply::MaybeTasks(Some(tasks)),
            ),
            (Request::SurfacePort { surface: SURFACE }, Reply::Task(TaskId(80))),
            (
                Request::AddDependency { parent: TaskId(80), child: TaskId(90) },
                Reply::Ack,
            ),
        ],
    );
    assert!(out.instance.visibility_info.is_some());
}

#[test]
fn backdrop_without_tasks_behind_is_culled() {
    let out = prepare(
        work(backdrop()),
        vec![
            backdrop_surface(),
            (
                Request::SurfaceRenderTasks { surface: SurfaceIndex(9) },
                Reply::MaybeTasks(None),
            ),
        ],
    );
    assert!(out.instance.visibility_info.is_none());
}
