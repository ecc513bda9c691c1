//! Gradients: segments, repetitions and tiles.
use prepare_pass::geometry::{plus, value, Block, Expr, IntSize, Point, Rect, Size};
use prepare_pass::gradient::{emit_segments, EmitArgs, GradientRun, GRADIENT_FP_STOPS};
use prepare_pass::gradient_cache::{cache_linear_gradient, GradientArgs};
use prepare_pass::model::{
    CachedGradientSegment, ExtendMode, GpuCacheHandle, GradientStopKey, IndexRange,
    LineOrientation, PrimitiveScratchBuffer, Token, VisibleGradientTile,
};
use prepare_pass::program::{
    Fault, GradientCacheKey, Progress, Reply, Request, Resume, SegmentStops,
};
use prepare_pass::scalar::Scalar;
use prepare_pass::tiles::{decompose_repeated_primitive, TileArgs, TileBlocks};

fn buffers() -> PrimitiveScratchBuffer {
    PrimitiveScratchBuffer {
        clip_mask_instances: Vec::new(),
        segments: Vec::new(),
        segment_instances: Vec::new(),
        border_cache_handles: Vec::new(),
        gradient_tiles: Vec::new(),
    }
}

fn num(x: f32) -> Scalar {
    Scalar { bits: x.to_bits() }
}

fn point(x: f32, y: f32) -> Point {
    Point { x: num(x), y: num(y) }
}

fn size(width: f32, height: f32) -> Size {
    Size { width: num(width), height: num(height) }
}

fn rect(x: f32, y: f32, width: f32, height: f32) -> Rect {
    Rect { origin: point(x, y), size: size(width, height) }
}

/// Holds a conversation: each request has to be the expected one, and gets the reply beside it.
fn converse<M: Resume>(start: Progress<M>, script: Vec<(Request, Reply)>) -> Progress<M> {
    let mut progress = start;
    for (step, (expected, reply)) in script.into_iter().enumerate() {
        match progress {
            Progress::Waiting(machine, request) => {
                assert_eq!(request, expected, "request {}", step);
                progress = machine.resume(reply);
            }
            Progress::Done(_) => panic!("done before request {}", step),
            Progress::Failed(fault) => panic!("{:?} before request {}", fault, step),
        }
    }
    progress
}

fn done<M: Resume>(progress: Progress<M>) -> M::Out {
    match progress {
        Progress::Waiting(_, request) => panic!("still asks {:?}", request),
        Progress::Done(out) => out,
        Progress::Failed(fault) => panic!("{:?}", fault),
    }
}

fn failed<M: Resume>(progress: Progress<M>) -> Fault {
    match progress {
        Progress::Waiting(_, request) => panic!("still asks {:?}", request),
        Progress::Done(_) => panic!("done"),
        Progress::Failed(fault) => fault,
    }
}

fn number(s: Scalar) -> f32 {
    f32::from_bits(s.bits)
}

/// What a formula comes to, each operation in single precision.
fn evaluate(e: &Expr) -> f32 {
    match e {
        Expr::Value(s) => number(*s),
        Expr::Whole(i) => *i as f32,
        Expr::Plus(a, b) => evaluate(a) + evaluate(b),
        Expr::Minus(a, b) => evaluate(a) - evaluate(b),
        Expr::Times(a, b) => evaluate(a) * evaluate(b),
        Expr::Over(a, b) => evaluate(a) / evaluate(b),
        Expr::Negate(a) => -evaluate(a),
        Expr::Floor(a) => evaluate(a).floor(),
    }
}

struct Task {
    size: IntSize,
    key: GradientCacheKey,
    is_opaque: bool,
}

/// Runs a gradient with exact arithmetic. The tasks get the handles 100, 101 and so on.
fn run<M: Resume>(start: Progress<M>) -> (Progress<M>, Vec<Task>) {
    let mut progress = start;
    let mut tasks: Vec<Task> = Vec::new();
    loop {
        match progress {
            Progress::Waiting(machine, request) => {
                let reply = match request {
                    Request::Evaluate(e) => Reply::Number(num(evaluate(&e))),
                    Request::IsApproximately { a, b } => {
                        Reply::Flag((number(a) - number(b)).abs() < 1.0e-6)
                    }
                    Request::GradientTask { size, key, is_opaque } => {
                        tasks.push(Task { size, key, is_opaque });
                        Reply::TaskHandle(99 + tasks.len() as u64)
                    }
                    other => panic!("{:?}", other),
                };
                progress = machine.resume(reply);
            }
            ended => return (ended, tasks),
        }
    }
}

fn stop(offset: f32, color: u32) -> GradientStopKey {
    GradientStopKey { offset: num(offset), color }
}

fn empty() -> GradientStopKey {
    stop(0.0, 0)
}

fn key(
    orientation: LineOrientation,
    start: f32,
    end: f32,
    stops: [GradientStopKey; 4],
) -> GradientCacheKey {
    GradientCacheKey {
        orientation,
        start: num(start),
        end: num(end),
        stops: SegmentStops {
            first: stops[0],
            second: stops[1],
            third: stops[2],
            fourth: stops[3],
        },
    }
}

fn emit_args(start: f32, end: f32) -> EmitArgs {
    EmitArgs {
        start_offset: num(start),
        end_offset: num(end),
        gradient_offset_base: num(0.0),
        prim_start_offset: num(0.0),
        prim_end_offset: num(1.0),
        prim_origin: point(10.0, 20.0),
        prim_size: size(100.0, 50.0),
        task_size: IntSize { width: 512, height: 16 },
        is_opaque: true,
        orientation: LineOrientation::Horizontal,
    }
}

fn gradient_run(stops: Vec<GradientStopKey>) -> GradientRun {
    GradientRun { stops, segments: Vec::new() }
}

#[test]
fn one_run_of_stops_is_one_segment() {
    let stops = vec![stop(0.0, 1), stop(0.25, 2), stop(1.0, 3)];
    let (ended, tasks) = run(emit_segments(emit_args(0.0, 1.0), gradient_run(stops.clone())));
    let out = done(ended);
    assert_eq!(tasks.len(), 1);
    assert_eq!(tasks[0].size, IntSize { width: 512, height: 16 });
    assert!(tasks[0].is_opaque);
    assert_eq!(
        tasks[0].key,
        key(LineOrientation::Horizontal, 0.0, 1.0, [stops[0], stops[1], stops[2], empty()]),
    );
    let drawn =
        CachedGradientSegment { handle: 100, local_rect: rect(10.0, 20.0, 100.0, 50.0) };
    assert_eq!(out.segments, vec![drawn]);
}

#[test]
fn more_stops_than_a_task_holds_make_more_segments() {
    let stops: Vec<GradientStopKey> =
        (0..6).map(|i| stop(0.2 * i as f32, i as u32)).collect();
    let (ended, tasks) = run(emit_segments(emit_args(0.0, 1.0), gradient_run(stops.clone())));
    let out = done(ended);
    assert_eq!(GRADIENT_FP_STOPS, 4);
    assert_eq!(tasks.len(), 2);
    assert_eq!(
        tasks[0].key,
        key(LineOrientation::Horizontal, 0.0, 0.2 * 3.0, [stops[0], stops[1], stops[2], stops[3]]),
    );
    assert_eq!(
        tasks[1].key,
        key(LineOrientation::Horizontal, 0.2 * 3.0, 1.0, [stops[3], stops[4], stops[5], empty()]),
    );
    assert_eq!(out.segments.len(), 2);
    assert_eq!(out.stops, stops);
}

#[test]
fn hard_stop_ends_a_run() {
    let stops = vec![stop(0.0, 1), stop(0.5, 2), stop(0.5, 3), stop(1.0, 4)];
    let (ended, tasks) = run(emit_segments(emit_args(0.0, 1.0), gradient_run(stops.clone())));
    let out = done(ended);
    assert_eq!(tasks.len(), 2);
    assert_eq!(
        tasks[0].key,
        key(LineOrientation::Horizontal, 0.0, 0.5, [stops[0], stops[1], empty(), empty()]),
    );
    assert_eq!(
        tasks[1].key,
        key(LineOrientation::Horizontal, 0.5, 1.0, [stops[2], stops[3], empty(), empty()]),
    );
    assert_eq!(out.segments[0].local_rect, rect(10.0, 20.0, 50.0, 50.0));
    assert_eq!(out.segments[1].local_rect, rect(60.0, 20.0, 50.0, 50.0));
}

#[test]
fn parts_outside_the_range_are_not_drawn() {
    let stops = vec![
        stop(0.0, 1),
        stop(0.25, 2),
        stop(0.25, 3),
        stop(0.5, 4),
        stop(0.5, 5),
        stop(1.0, 6),
    ];
    let (ended, tasks) = run(emit_segments(emit_args(0.3, 0.4), gradient_run(stops.clone())));
    let out = done(ended);
    assert_eq!(tasks.len(), 1);
    assert_eq!(
        tasks[0].key,
        key(LineOrientation::Horizontal, 0.3, 0.4, [stops[2], stops[3], empty(), empty()]),
    );
    assert_eq!(out.segments.len(), 1);
}

#[test]
fn part_of_no_area_is_not_drawn() {
    let stops = vec![stop(0.0, 1), stop(0.5, 2), stop(0.5, 3), stop(1.0, 4)];
    let (ended, tasks) = run(emit_segments(emit_args(0.5, 1.0), gradient_run(stops)));
    let out = done(ended);
    assert_eq!(tasks.len(), 1);
    assert_eq!(out.segments.len(), 1);
    assert_eq!(out.segments[0].local_rect, rect(60.0, 20.0, 50.0, 50.0));
}

#[test]
fn vertical_segments_run_down_the_primitive() {
    let mut args = emit_args(0.0, 1.0);
    args.orientation = LineOrientation::Vertical;
    args.gradient_offset_base = num(1.0);
    args.prim_end_offset = num(2.0);
    let (ended, _) = run(emit_segments(args, gradient_run(vec![stop(0.0, 1), stop(1.0, 2)])));
    assert_eq!(done(ended).segments[0].local_rect, rect(10.0, 45.0, 100.0, 25.0));
}

#[test]
fn single_stop_draws_nothing() {
    let (ended, tasks) = run(emit_segments(emit_args(0.0, 1.0), gradient_run(vec![stop(0.0, 1)])));
    assert!(done(ended).segments.is_empty());
    assert!(tasks.is_empty());
}

#[test]
fn gradient_without_stops_is_a_fault() {
    let start = emit_segments(emit_args(0.0, 1.0), gradient_run(Vec::new()));
    assert_eq!(failed(start), Fault::NoStops);
    let (ended, _) = run(cache_linear_gradient(args(ExtendMode::Clamp, 0.0, 100.0), Vec::new()));
    assert_eq!(failed(ended), Fault::NoStops);
}

/// A gradient from `start` to `end` over a primitive that is 100 wide.
fn args(extend_mode: ExtendMode, start: f32, end: f32) -> GradientArgs {
    GradientArgs {
        prim_rect: rect(10.0, 20.0, 100.0, 50.0),
        start_point: point(start, 0.0),
        end_point: point(end, 0.0),
        extend_mode,
        reverse_stops: false,
        is_opaque: false,
        texture_region_dimensions: 512,
    }
}

#[test]
fn clamped_gradient_repeats_its_end_colours() {
    let stops = vec![stop(0.0, 1), stop(1.0, 2)];
    let start = cache_linear_gradient(args(ExtendMode::Clamp, 25.0, 75.0), stops);
    let (ended, tasks) = run(start);
    let out = done(ended);
    assert_eq!(tasks.len(), 1);
    assert_eq!(
        tasks[0].key,
        key(
            LineOrientation::Horizontal,
            -0.5,
            1.5,
            [stop(-0.5, 1), stop(0.0, 1), stop(1.0, 2), stop(1.5, 2)],
        ),
    );
    assert_eq!(tasks[0].size, IntSize { width: 512, height: 16 });
    assert!(!tasks[0].is_opaque);
    assert_eq!(out[0].local_rect, rect(10.0, 20.0, 100.0, 50.0));
}

#[test]
fn gradient_within_its_primitive_does_not_repeat() {
    let stops = vec![stop(0.0, 1), stop(1.0, 2)];
    let start = cache_linear_gradient(args(ExtendMode::Repeat, 0.0, 100.0), stops.clone());
    let (ended, tasks) = run(start);
    done(ended);
    assert_eq!(tasks.len(), 1);
    assert_eq!(
        tasks[0].key,
        key(LineOrientation::Horizontal, -0.0, 1.0, [stops[0], stops[1], empty(), empty()]),
    );
}

#[test]
fn repeated_gradient_is_drawn_copy_by_copy() {
    let stops = vec![stop(0.0, 1), stop(1.0, 2)];
    let start = cache_linear_gradient(args(ExtendMode::Repeat, 25.0, 75.0), stops);
    let (ended, tasks) = run(start);
    let out = done(ended);
    let spans: Vec<(f32, f32)> =
        tasks.iter().map(|t| (number(t.key.start), number(t.key.end))).collect();
    assert_eq!(spans, vec![(0.5, 1.0), (0.0, 1.0), (0.0, 0.5)]);
    let rects: Vec<Rect> = out.iter().map(|s| s.local_rect).collect();
    assert_eq!(
        rects,
        vec![
            rect(10.0, 20.0, 25.0, 50.0),
            rect(35.0, 20.0, 50.0, 50.0),
            rect(85.0, 20.0, 25.0, 50.0),
        ],
    );
    let handles: Vec<u64> = out.iter().map(|s| s.handle).collect();
    assert_eq!(handles, vec![100, 101, 102]);
}

#[test]
fn reversed_stops_are_mirrored() {
    let mut g = args(ExtendMode::Clamp, 0.0, 100.0);
    g.reverse_stops = true;
    let stops = vec![stop(0.0, 1), stop(0.25, 2), stop(1.0, 3)];
    let (ended, tasks) = run(cache_linear_gradient(g, stops));
    done(ended);
    assert_eq!(
        tasks[0].key,
        key(
            LineOrientation::Horizontal,
            -0.0,
            1.0,
            [stop(0.0, 3), stop(0.75, 2), stop(1.0, 1), empty()],
        ),
    );
}

#[test]
fn reversed_gradient_caches_what_the_mirrored_one_does() {
    for (extend_mode, start, end) in vec![
        (ExtendMode::Clamp, 25.0, 75.0),
        (ExtendMode::Repeat, 25.0, 75.0),
        (ExtendMode::Repeat, 0.0, 100.0),
    ] {
        let stops = vec![
            stop(0.0, 1),
            stop(0.125, 2),
            stop(0.25, 3),
            stop(0.25, 4),
            stop(0.5, 5),
            stop(1.0, 6),
        ];
        let mirrored = vec![
            stop(0.0, 6),
            stop(0.5, 5),
            stop(0.75, 4),
            stop(0.75, 3),
            stop(0.875, 2),
            stop(1.0, 1),
        ];
        let mut g = args(extend_mode, start, end);
        let (ended, straight_tasks) = run(cache_linear_gradient(g, mirrored));
        let straight = done(ended);
        g.reverse_stops = true;
        let (ended, reversed_tasks) = run(cache_linear_gradient(g, stops));
        assert_eq!(done(ended), straight);
        let straight_keys: Vec<GradientCacheKey> =
            straight_tasks.iter().map(|t| t.key).collect();
        let reversed_keys: Vec<GradientCacheKey> =
            reversed_tasks.iter().map(|t| t.key).collect();
        assert_eq!(reversed_keys, straight_keys);
    }
}

#[test]
fn upright_gradient_is_drawn_vertically() {
    let mut g = args(ExtendMode::Clamp, 30.0, 30.0);
    g.start_point = point(30.0, 0.0);
    g.end_point = point(30.0, 50.0);
    let (ended, tasks) = run(cache_linear_gradient(g, vec![stop(0.0, 1), stop(1.0, 2)]));
    done(ended);
    assert_eq!(tasks[0].key.orientation, LineOrientation::Vertical);
    assert_eq!(tasks[0].size, IntSize { width: 16, height: 512 });
}

#[test]
fn repetition_that_gets_no_further_is_a_fault() {
    let mut progress = cache_linear_gradient(
        args(ExtendMode::Repeat, 25.0, 75.0),
        vec![stop(0.0, 1), stop(1.0, 2)],
    );
    let mut replies: Vec<f32> = vec![-0.5, 1.5, -1.0, 0.5, 0.0, 0.5];
    replies.reverse();
    let fault = loop {
        match progress {
            Progress::Waiting(machine, request) => {
                let reply = match request {
                    Request::IsApproximately { .. } => Reply::Flag(false),
                    Request::Evaluate(e) => match replies.pop() {
                        Some(x) => Reply::Number(num(x)),
                        None => Reply::Number(num(evaluate(&e).min(-0.5))),
                    },
                    Request::GradientTask { .. } => Reply::TaskHandle(1),
                    other => panic!("{:?}", other),
                };
                progress = machine.resume(reply);
            }
            Progress::Done(_) => panic!("done"),
            Progress::Failed(fault) => break fault,
        }
    };
    assert_eq!(fault, Fault::EndlessRepetition);
}

fn tile_args() -> TileArgs {
    TileArgs {
        combined_local_clip_rect: rect(0.0, 0.0, 90.0, 90.0),
        prim_local_rect: rect(10.0, 10.0, 100.0, 100.0),
        prim_world_rect: rect(1.0, 2.0, 30.0, 20.0),
        stretch_size: size(30.0, 20.0),
        tile_spacing: size(5.0, 6.0),
        mapper: Token(12),
        blocks: TileBlocks {
            first: Block { x: num(1.0), y: num(2.0), z: num(3.0), w: num(4.0) },
            lead: None,
            extend_mode: ExtendMode::Repeat,
            stretch_size: size(30.0, 20.0),
        },
    }
}

/// The conversation that finds the repetitions.
fn repeating(origins: Vec<Point>) -> Vec<(Request, Reply)> {
    vec![
        (
            Request::Intersect {
                a: rect(0.0, 0.0, 90.0, 90.0),
                b: rect(10.0, 10.0, 100.0, 100.0),
            },
            Reply::MaybeRect(Some(rect(10.0, 10.0, 80.0, 80.0))),
        ),
        (
            Request::ConservativeVisibleRect {
                clip_rect: rect(10.0, 10.0, 80.0, 80.0),
                world_rect: rect(1.0, 2.0, 30.0, 20.0),
                mapper: Token(12),
            },
            Reply::Rect(rect(10.0, 10.0, 60.0, 30.0)),
        ),
        (
            Request::Evaluate(plus(value(num(30.0)), value(num(5.0)))),
            Reply::Number(num(35.0)),
        ),
        (
            Request::Evaluate(plus(value(num(20.0)), value(num(6.0)))),
            Reply::Number(num(26.0)),
        ),
        (
            Request::Repetitions {
                prim_rect: rect(10.0, 10.0, 100.0, 100.0),
                visible_rect: rect(10.0, 10.0, 60.0, 30.0),
                stride: size(35.0, 26.0),
            },
            Reply::Origins(origins),
        ),
    ]
}

fn gpu_request(slot: u64, granted: bool) -> (Request, Reply) {
    (
        Request::RequestGpuBlocks { handle: GpuCacheHandle { slot: None } },
        Reply::GpuBlocks { handle: GpuCacheHandle { slot: Some(slot) }, granted },
    )
}

fn tile(x: f32, y: f32, slot: u64) -> VisibleGradientTile {
    VisibleGradientTile {
        local_rect: rect(x, y, 30.0, 20.0),
        local_clip_rect: rect(10.0, 10.0, 80.0, 80.0),
        handle: GpuCacheHandle { slot: Some(slot) },
    }
}

#[test]
fn visible_repetitions_are_stored() {
    let mut s = buffers();
    s.gradient_tiles.push(tile(0.0, 0.0, 1));
    let mut script = repeating(vec![point(10.0, 10.0), point(45.0, 10.0)]);
    script.push(gpu_request(2, true));
    script.push((
        Request::PushBlock {
            block: Block { x: num(1.0), y: num(2.0), z: num(3.0), w: num(4.0) },
        },
        Reply::Ack,
    ));
    script.push((Request::PackAsFloat { value: 1 }, Reply::Number(num(1.5))));
    script.push((
        Request::PushBlock {
            block: Block { x: num(1.5), y: num(30.0), z: num(20.0), w: num(0.0) },
        },
        Reply::Ack,
    ));
    script.push((Request::FinishGpuBlocks, Reply::Ack));
    script.push(gpu_request(3, false));
    let out = done(converse(decompose_repeated_primitive(s, tile_args()), script));
    assert_eq!(out.range, IndexRange { start: 1, end: 3 });
    assert_eq!(
        out.scratch.gradient_tiles,
        vec![tile(0.0, 0.0, 1), tile(10.0, 10.0, 2), tile(45.0, 10.0, 3)],
    );
}

#[test]
fn second_block_of_a_round_gradient_has_a_lead() {
    let mut t = tile_args();
    t.blocks.lead = Some(num(0.5));
    t.blocks.extend_mode = ExtendMode::Clamp;
    let mut script = repeating(vec![point(10.0, 10.0)]);
    script.push(gpu_request(2, true));
    script.push((
        Request::PushBlock {
            block: Block { x: num(1.0), y: num(2.0), z: num(3.0), w: num(4.0) },
        },
        Reply::Ack,
    ));
    script.push((Request::PackAsFloat { value: 0 }, Reply::Number(num(1.5))));
    script.push((
        Request::PushBlock {
            block: Block { x: num(0.5), y: num(1.5), z: num(30.0), w: num(20.0) },
        },
        Reply::Ack,
    ));
    script.push((Request::FinishGpuBlocks, Reply::Ack));
    let out = done(converse(decompose_repeated_primitive(buffers(), t), script));
    assert_eq!(out.range, IndexRange { start: 0, end: 1 });
}

#[test]
fn gradient_without_visible_repetitions_has_an_empty_range() {
    let mut s = buffers();
    s.gradient_tiles.push(tile(0.0, 0.0, 1));
    let script = repeating(Vec::new());
    let out = done(converse(decompose_repeated_primitive(s, tile_args()), script));
    assert_eq!(out.range, IndexRange::empty());
    assert_eq!(out.scratch.gradient_tiles.len(), 1);
}

#[test]
fn gradient_outside_its_clip_is_a_fault() {
    let mut script = repeating(Vec::new());
    script.truncate(1);
    script[0].1 = Reply::MaybeRect(None);
    let start = decompose_repeated_primitive(buffers(), tile_args());
    assert_eq!(failed(converse(start, script)), Fault::OutsideClip);
}
