//! Segments: describing, building and writing them.
use prepare_pass::geometry::{times, value, Block, BorderRadius, Point, Rect, Size};
use prepare_pass::model::{
    BrushFlags, BrushSegment, ClipChainInstance, ClipTaskIndex, ClipsRange, ColorBinding,
    GpuCacheHandle, IndexRange, PictureIndex, PrimitiveId, PrimitiveInstance,
    PrimitiveInstanceKind, PrimitiveList, PrimitiveScratchBuffer, PrimitiveVisibility,
    SegmentInstanceIndex, SegmentedInstance, Work,
};
use prepare_pass::program::{
    BoxShadowClipMode, BuiltSegment, ClipItem, ClipMode, ClipNode, Fault, Progress, Reply, Request,
    Resume,
};
use prepare_pass::scalar::Scalar;
use prepare_pass::segment_build::{
    build_segments_if_needed, write_brush_segment_description, zeros,
};
use prepare_pass::segment_write::{write_segment, SegmentSource};

const PRIM: PrimitiveId = PrimitiveId(11);

fn chain(needs_mask: bool) -> ClipChainInstance {
    ClipChainInstance {
        clips_range: ClipsRange { first: 7, count: 2 },
        has_non_local_clips: false,
        needs_mask,
        pic_clip_rect: rect(0.0, 0.0, 50.0, 40.0),
    }
}

fn visible(needs_mask: bool) -> PrimitiveVisibility {
    PrimitiveVisibility {
        clipped_world_rect: rect(1.0, 2.0, 30.0, 20.0),
        combined_local_clip_rect: rect(0.0, 0.0, 500.0, 500.0),
        clip_chain: chain(needs_mask),
        clip_task_index: ClipTaskIndex(99),
        visibility_mask: 0,
    }
}

fn instance(kind: PrimitiveInstanceKind, info: Option<PrimitiveVisibility>) -> PrimitiveInstance {
    PrimitiveInstance {
        id: PRIM,
        is_chased: false,
        kind,
        local_clip_rect: rect(0.0, 0.0, 300.0, 300.0),
        visibility_info: info,
        segment_instance_index: SegmentInstanceIndex::Invalid,
        segments_are_valid: false,
        cache_handle: None,
        cache_handles: IndexRange::empty(),
        cache_segments: Vec::new(),
        visible_tiles_range: IndexRange::empty(),
        children: PrimitiveList { clusters: Vec::new() },
    }
}

fn buffers() -> PrimitiveScratchBuffer {
    PrimitiveScratchBuffer {
        clip_mask_instances: Vec::new(),
        segments: Vec::new(),
        segment_instances: Vec::new(),
        border_cache_handles: Vec::new(),
        gradient_tiles: Vec::new(),
    }
}

fn work(kind: PrimitiveInstanceKind) -> Work {
    Work { instance: instance(kind, Some(visible(false))), scratch: buffers() }
}

fn segment(x: f32, may_need_clip_mask: bool) -> BrushSegment {
    BrushSegment {
        local_rect: rect(x, 0.0, 10.0, 10.0),
        may_need_clip_mask,
        edge_flags: 0,
        extra_data: zeros(),
        brush_flags: BrushFlags::Plain,
    }
}

fn num(x: f32) -> Scalar {
    Scalar { bits: x.to_bits() }
}

fn point(x: f32, y: f32) -> Point {
    Point { x: num(x), y: num(y) }
}

fn size(width: f32, height: f32) -> Size {
    Size { width: num(width), height: num(height) }
}

fn rect(x: f32, y: f32, width: f32, height: f32) -> Rect {
    Rect { origin: point(x, y), size: size(width, height) }
}

/// Holds a conversation: each request has to be the expected one, and gets the reply beside it.
fn converse<M: Resume>(start: Progress<M>, script: Vec<(Request, Reply)>) -> Progress<M> {
    let mut progress = start;
    for (step, (expected, reply)) in script.into_iter().enumerate() {
        match progress {
            Progress::Waiting(machine, request) => {
                assert_eq!(request, expected, "request {}", step);
                progress = machine.resume(reply);
            }
            Progress::Done(_) => panic!("done before request {}", step),
            Progress::Failed(fault) => panic!("{:?} before request {}", fault, step),
        }
    }
    progress
}

fn done<M: Resume>(progress: Progress<M>) -> M::Out {
    match progress {
        Progress::Waiting(_, request) => panic!("still asks {:?}", request),
        Progress::Done(out) => out,
        Progress::Failed(fault) => panic!("{:?}", fault),
    }
}

fn failed<M: Resume>(progress: Progress<M>) -> Fault {
    match progress {
        Progress::Waiting(_, request) => panic!("still asks {:?}", request),
        Progress::Done(_) => panic!("done"),
        Progress::Failed(fault) => fault,
    }
}

const CLIPS: ClipsRange = ClipsRange { first: 7, count: 2 };
const LARGE: f32 = 200.0;

fn area(width: f32, height: f32) -> Request {
    Request::Evaluate(times(value(num(width)), value(num(height))))
}

fn large_rect() -> Rect {
    rect(3.0, 4.0, LARGE, LARGE)
}

fn clip_rect() -> Rect {
    rect(0.0, 0.0, 300.0, 300.0)
}

/// The conversation of a description up to the first clip.
fn opening() -> Vec<(Request, Reply)> {
    vec![
        (area(LARGE, LARGE), Reply::Number(num(LARGE * LARGE))),
        (
            Request::InitializeSegmentBuilder {
                local_rect: large_rect(),
                local_clip_rect: clip_rect(),
            },
            Reply::Ack,
        ),
    ]
}

fn clip(index: u32, same_spatial_node: bool, item: ClipItem) -> (Request, Reply) {
    (
        Request::ClipNode { clips_range: CLIPS, index },
        Reply::Clip(ClipNode { same_spatial_node, item }),
    )
}

fn image_clip(index: u32, same_spatial_node: bool) -> (Request, Reply) {
    clip(index, same_spatial_node, ClipItem::Image)
}

#[test]
fn small_brush_is_not_split() {
    let start = write_brush_segment_description(rect(0.0, 0.0, 100.0, 163.0), clip_rect(), CLIPS);
    let out = done(converse(start, vec![(area(100.0, 163.0), Reply::Number(num(16300.0)))]));
    assert!(!out);
}

#[test]
fn brush_of_the_least_area_is_split() {
    let start = write_brush_segment_description(
        rect(0.0, 0.0, 128.0, 128.0),
        clip_rect(),
        ClipsRange { first: 0, count: 0 },
    );
    let out = done(converse(
        start,
        vec![
            (area(128.0, 128.0), Reply::Number(num(16384.0))),
            (
                Request::InitializeSegmentBuilder {
                    local_rect: rect(0.0, 0.0, 128.0, 128.0),
                    local_clip_rect: clip_rect(),
                },
                Reply::Ack,
            ),
        ],
    ));
    assert!(out);
}

#[test]
fn clip_rectangles_are_pushed() {
    let radius = BorderRadius {
        top_left: size(1.0, 2.0),
        top_right: size(3.0, 4.0),
        bottom_left: size(5.0, 6.0),
        bottom_right: size(7.0, 8.0),
    };
    let rounded = rect(1.0, 1.0, 20.0, 20.0);
    let plain = rect(2.0, 2.0, 30.0, 30.0);
    let mut script = opening();
    script.push(clip(
        0,
        true,
        ClipItem::RoundedRectangle { rect: rounded, radius, mode: ClipMode::Clip },
    ));
    script.push((
        Request::PushClipRect { rect: rounded, radius: Some(radius), mode: ClipMode::Clip },
        Reply::Ack,
    ));
    script.push(clip(1, true, ClipItem::Rectangle { rect: plain, mode: ClipMode::ClipOut }));
    script.push((
        Request::PushClipRect { rect: plain, radius: None, mode: ClipMode::ClipOut },
        Reply::Ack,
    ));
    let start = write_brush_segment_description(large_rect(), clip_rect(), CLIPS);
    assert!(done(converse(start, script)));
}

#[test]
fn box_shadows_push_a_mask_region() {
    let cases = vec![
        (BoxShadowClipMode::Outset, None),
        (BoxShadowClipMode::Inset, Some(ClipMode::ClipOut)),
    ];
    for (clip_mode, inner_clip_mode) in cases {
        let shadow = rect(5.0, 5.0, 60.0, 40.0);
        let inner = rect(15.0, 25.0, 40.0, 0.0);
        let mut script = opening();
        script.push(clip(
            0,
            true,
            ClipItem::BoxShadow {
                clip_mode,
                prim_shadow_rect: shadow,
                original_alloc_size: size(20.0, 40.0),
            },
        ));
        script.push((
            Request::Evaluate(times(value(num(-0.5)), value(num(20.0)))),
            Reply::Number(num(-10.0)),
        ));
        script.push((
            Request::Evaluate(times(value(num(-0.5)), value(num(40.0)))),
            Reply::Number(num(-20.0)),
        ));
        script.push((
            Request::Inflate { rect: shadow, width: num(-10.0), height: num(-20.0) },
            Reply::Rect(inner),
        ));
        script.push((
            Request::PushMaskRegion { outer_rect: shadow, inner_rect: inner, inner_clip_mode },
            Reply::Ack,
        ));
        script.push(image_clip(1, false));
        let start = write_brush_segment_description(large_rect(), clip_rect(), CLIPS);
        assert!(done(converse(start, script)));
    }
}

#[test]
fn image_mask_ends_the_description() {
    let mut script = opening();
    script.push(image_clip(0, true));
    let start = write_brush_segment_description(large_rect(), clip_rect(), CLIPS);
    assert!(!done(converse(start, script)));
}

#[test]
fn clips_of_another_node_are_passed_over() {
    let mut script = opening();
    script.push(image_clip(0, false));
    script.push(image_clip(1, false));
    let start = write_brush_segment_description(large_rect(), clip_rect(), CLIPS);
    assert!(done(converse(start, script)));
}

/// Describes a large brush with these clips and gives what is handed to the segment builder.
fn described(clips: Vec<ClipNode>) -> (Vec<Request>, bool) {
    let clips_range = ClipsRange { first: 7, count: clips.len() as u32 };
    let mut handed = Vec::new();
    let mut progress = write_brush_segment_description(large_rect(), clip_rect(), clips_range);
    loop {
        match progress {
            Progress::Done(out) => return (handed, out),
            Progress::Failed(fault) => panic!("{:?}", fault),
            Progress::Waiting(machine, request) => {
                let reply = match &request {
                    Request::ClipNode { index, .. } => Reply::Clip(clips[*index as usize]),
                    Request::Evaluate(_) => Reply::Number(num(LARGE * LARGE)),
                    Request::Inflate { rect, .. } => Reply::Rect(*rect),
                    _ => Reply::Ack,
                };
                if !matches!(request, Request::ClipNode { .. }) {
                    handed.push(request);
                }
                progress = machine.resume(reply);
            },
        }
    }
}

#[test]
fn clips_of_another_node_make_no_difference() {
    let plain = |x: f32, same_spatial_node: bool| ClipNode {
        same_spatial_node,
        item: ClipItem::Rectangle { rect: rect(x, 0.0, 10.0, 10.0), mode: ClipMode::Clip },
    };
    let shadow = |same_spatial_node: bool| ClipNode {
        same_spatial_node,
        item: ClipItem::BoxShadow {
            clip_mode: BoxShadowClipMode::Inset,
            prim_shadow_rect: rect(5.0, 5.0, 60.0, 40.0),
            original_alloc_size: size(20.0, 40.0),
        },
    };
    let image =
        |same_spatial_node: bool| ClipNode { same_spatial_node, item: ClipItem::Image };
    let all = vec![
        plain(1.0, false),
        plain(2.0, true),
        image(false),
        shadow(true),
        shadow(false),
        plain(3.0, true),
    ];
    let kept = vec![plain(2.0, true), shadow(true), plain(3.0, true)];
    let (handed, split) = described(kept);
    assert_eq!(handed.len(), 8);
    assert!(split);
    assert_eq!(described(all), (handed, split));
    assert_eq!(
        described(vec![plain(1.0, false), image(true), plain(2.0, true)]),
        described(vec![image(true), plain(2.0, true)]),
    );
    assert!(!described(vec![image(true)]).1);
}

fn built(x: f32, has_mask: bool) -> BuiltSegment {
    BuiltSegment { rect: rect(x, 4.0, 100.0, LARGE), has_mask, edge_flags: 5 }
}

/// The conversation that builds segments for a primitive, which has no clips of its own node.
fn building(segments: Vec<BuiltSegment>) -> Vec<(Request, Reply)> {
    let mut script = vec![(Request::LocalPrimRect { prim: PRIM }, Reply::Rect(large_rect()))];
    script.append(&mut opening());
    script.push(image_clip(0, false));
    script.push(image_clip(1, false));
    let count = segments.len();
    let rects: Vec<Rect> = segments.iter().map(|s| s.rect).collect();
    script.push((Request::BuildSegments, Reply::Segments(segments)));
    for i in 0..count {
        script.push((
            Request::TranslateBack { rect: rects[i], by: point(3.0, 4.0) },
            Reply::Rect(rect(100.0 * i as f32, 0.0, 100.0, LARGE)),
        ));
    }
    script
}

fn kept(i: usize, may_need_clip_mask: bool) -> BrushSegment {
    BrushSegment {
        local_rect: rect(100.0 * i as f32, 0.0, 100.0, LARGE),
        may_need_clip_mask,
        edge_flags: 5,
        extra_data: zeros(),
        brush_flags: BrushFlags::PerspectiveInterpolation,
    }
}

fn rectangle() -> PrimitiveInstanceKind {
    PrimitiveInstanceKind::Rectangle { color_binding: ColorBinding::Unbound }
}

#[test]
fn two_segments_are_stored_behind_those_of_others() {
    let mut w = work(rectangle());
    let earlier = SegmentedInstance {
        segments_range: IndexRange { start: 0, end: 1 },
        gpu_cache_handle: GpuCacheHandle { slot: Some(8) },
    };
    w.scratch.segments.push(segment(0.0, false));
    w.scratch.segment_instances.push(earlier);
    let script = building(vec![built(3.0, true), built(103.0, false)]);
    let out = done(converse(build_segments_if_needed(w, CLIPS), script));
    assert_eq!(out.instance.segment_instance_index, SegmentInstanceIndex::At(1));
    assert_eq!(out.scratch.segments, vec![segment(0.0, false), kept(0, true), kept(1, false)]);
    let added = SegmentedInstance {
        segments_range: IndexRange { start: 1, end: 3 },
        gpu_cache_handle: GpuCacheHandle { slot: None },
    };
    assert_eq!(out.scratch.segment_instances, vec![earlier, added]);
}

#[test]
fn many_segments_keep_their_order() {
    let count = 12;
    let segments: Vec<BuiltSegment> =
        (0..count).map(|i| built(3.0 + 100.0 * i as f32, i % 3 == 0)).collect();
    let out = done(converse(
        build_segments_if_needed(work(rectangle()), CLIPS),
        building(segments),
    ));
    let expected: Vec<BrushSegment> = (0..count).map(|i| kept(i, i % 3 == 0)).collect();
    assert_eq!(out.scratch.segments, expected);
    assert_eq!(out.instance.segment_instance_index, SegmentInstanceIndex::At(0));
}

#[test]
fn single_segment_is_not_stored() {
    for segments in vec![vec![], vec![built(3.0, true)]] {
        let out = done(converse(
            build_segments_if_needed(work(PrimitiveInstanceKind::YuvImage), CLIPS),
            building(segments),
        ));
        assert_eq!(out.instance.segment_instance_index, SegmentInstanceIndex::Unused);
        assert!(out.scratch.segments.is_empty());
        assert!(out.scratch.segment_instances.is_empty());
    }
}

#[test]
fn brush_that_cannot_be_split_is_drawn_as_a_whole() {
    let mut script = vec![(Request::LocalPrimRect { prim: PRIM }, Reply::Rect(large_rect()))];
    script.push((area(LARGE, LARGE), Reply::Number(num(10.0))));
    let out = done(converse(build_segments_if_needed(work(rectangle()), CLIPS), script));
    assert_eq!(out.instance.segment_instance_index, SegmentInstanceIndex::Unused);
}

#[test]
fn settled_segments_are_not_built_again() {
    for index in vec![SegmentInstanceIndex::Unused, SegmentInstanceIndex::At(5)] {
        let mut w = work(rectangle());
        w.instance.segment_instance_index = index;
        let script = vec![(Request::LocalPrimRect { prim: PRIM }, Reply::Rect(large_rect()))];
        let out = done(converse(build_segments_if_needed(w, CLIPS), script));
        assert_eq!(out.instance.segment_instance_index, index);
    }
}

#[test]
fn tiled_image_gives_its_segments_up() {
    let kind = PrimitiveInstanceKind::Image {
        stretch_size: size(1.0, 1.0),
        prim_size: size(1.0, 1.0),
    };
    let mut w = work(kind);
    w.instance.segment_instance_index = SegmentInstanceIndex::At(5);
    let script = vec![
        (Request::LocalPrimRect { prim: PRIM }, Reply::Rect(large_rect())),
        (Request::IsTiledImage { prim: PRIM }, Reply::Flag(true)),
    ];
    let out = done(converse(build_segments_if_needed(w, CLIPS), script));
    assert_eq!(out.instance.segment_instance_index, SegmentInstanceIndex::Unused);
}

#[test]
fn untiled_image_gets_segments() {
    let kind = PrimitiveInstanceKind::Image {
        stretch_size: size(1.0, 1.0),
        prim_size: size(1.0, 1.0),
    };
    let mut script = building(vec![built(3.0, true), built(103.0, false)]);
    script.insert(1, (Request::IsTiledImage { prim: PRIM }, Reply::Flag(false)));
    let out = done(converse(build_segments_if_needed(work(kind), CLIPS), script));
    assert_eq!(out.instance.segment_instance_index, SegmentInstanceIndex::At(0));
}

#[test]
fn picture_without_segment_rendering_is_left_alone() {
    let pic_index = PictureIndex(3);
    let script = vec![
        (Request::LocalPrimRect { prim: PRIM }, Reply::Rect(large_rect())),
        (Request::CanUseSegments { pic_index }, Reply::Flag(false)),
    ];
    let w = work(PrimitiveInstanceKind::Picture { pic_index });
    let out = done(converse(build_segments_if_needed(w, CLIPS), script));
    assert_eq!(out.instance.segment_instance_index, SegmentInstanceIndex::Invalid);
    assert!(!out.instance.segments_are_valid);
}

#[test]
fn picture_builds_segments_that_are_out_of_date_anew() {
    let pic_index = PictureIndex(3);
    let mut w = work(PrimitiveInstanceKind::Picture { pic_index });
    w.instance.segment_instance_index = SegmentInstanceIndex::At(9);
    let mut script = building(vec![built(3.0, true), built(103.0, false)]);
    script.insert(1, (Request::CanUseSegments { pic_index }, Reply::Flag(true)));
    let out = done(converse(build_segments_if_needed(w, CLIPS), script));
    assert_eq!(out.instance.segment_instance_index, SegmentInstanceIndex::At(0));
    assert!(out.instance.segments_are_valid);
    let script = vec![
        (Request::LocalPrimRect { prim: PRIM }, Reply::Rect(large_rect())),
        (Request::CanUseSegments { pic_index }, Reply::Flag(true)),
    ];
    let again = done(converse(build_segments_if_needed(out, CLIPS), script));
    assert_eq!(again.instance.segment_instance_index, SegmentInstanceIndex::At(0));
    assert_eq!(again.scratch.segments.len(), 2);
}

#[test]
fn kinds_without_segments_are_left_alone() {
    let script = vec![(Request::LocalPrimRect { prim: PRIM }, Reply::Rect(large_rect()))];
    let out = done(converse(
        build_segments_if_needed(work(PrimitiveInstanceKind::Clear), CLIPS),
        script,
    ));
    assert_eq!(out.instance.segment_instance_index, SegmentInstanceIndex::Invalid);
}

fn stored() -> PrimitiveScratchBuffer {
    let mut s = buffers();
    s.segments = vec![segment(0.0, false), segment(10.0, true), segment(20.0, false)];
    s.segment_instances = vec![
        SegmentedInstance {
            segments_range: IndexRange { start: 0, end: 1 },
            gpu_cache_handle: GpuCacheHandle { slot: Some(1) },
        },
        SegmentedInstance {
            segments_range: IndexRange { start: 1, end: 3 },
            gpu_cache_handle: GpuCacheHandle { slot: None },
        },
    ];
    s
}

fn pushed(x: f32) -> (Request, Reply) {
    (
        Request::PushSegment { local_rect: rect(x, 0.0, 10.0, 10.0), extra_data: zeros() },
        Reply::Ack,
    )
}

fn gpu_request(granted: bool) -> (Request, Reply) {
    (
        Request::RequestGpuBlocks { handle: GpuCacheHandle { slot: None } },
        Reply::GpuBlocks { handle: GpuCacheHandle { slot: Some(33) }, granted },
    )
}

#[test]
fn segments_of_a_template_are_written_in_order() {
    let script = vec![
        gpu_request(true),
        (Request::PushTemplateBlocks { prim: PRIM }, Reply::Ack),
        pushed(10.0),
        pushed(20.0),
        (Request::FinishGpuBlocks, Reply::Ack),
    ];
    let start =
        write_segment(stored(), SegmentInstanceIndex::At(1), SegmentSource::Template(PRIM));
    let out = done(converse(start, script));
    assert_eq!(out.segment_instances[1].gpu_cache_handle, GpuCacheHandle { slot: Some(33) });
    assert_eq!(out.segment_instances[0], stored().segment_instances[0]);
    assert_eq!(out.segments, stored().segments);
}

#[test]
fn segments_of_a_picture_follow_three_blocks() {
    let white = Block { x: num(1.0), y: num(1.0), z: num(1.0), w: num(1.0) };
    let stretch = Block { x: num(-1.0), y: num(0.0), z: num(0.0), w: num(0.0) };
    let script = vec![
        gpu_request(true),
        (Request::PushBlock { block: white }, Reply::Ack),
        (Request::PushBlock { block: white }, Reply::Ack),
        (Request::PushBlock { block: stretch }, Reply::Ack),
        pushed(10.0),
        pushed(20.0),
        (Request::FinishGpuBlocks, Reply::Ack),
    ];
    let start = write_segment(stored(), SegmentInstanceIndex::At(1), SegmentSource::Picture);
    done(converse(start, script));
}

#[test]
fn segments_that_are_up_to_date_are_not_written() {
    let start = write_segment(stored(), SegmentInstanceIndex::At(1), SegmentSource::Picture);
    let out = done(converse(start, vec![gpu_request(false)]));
    assert_eq!(out.segment_instances[1].gpu_cache_handle, GpuCacheHandle { slot: Some(33) });
}

#[test]
fn whole_primitive_has_no_segments_to_write() {
    let start = write_segment(stored(), SegmentInstanceIndex::Unused, SegmentSource::Picture);
    assert_eq!(done(start).segments, stored().segments);
}

#[test]
fn segments_that_do_not_exist_are_a_fault() {
    let start = write_segment(stored(), SegmentInstanceIndex::Invalid, SegmentSource::Picture);
    assert_eq!(failed(start), Fault::NoSegments);
    let start = write_segment(stored(), SegmentInstanceIndex::At(2), SegmentSource::Picture);
    assert_eq!(failed(start), Fault::NoSegments);
    let mut s = stored();
    s.segment_instances[1].segments_range.end = 4;
    let start = write_segment(s, SegmentInstanceIndex::At(1), SegmentSource::Picture);
    assert_eq!(failed(converse(start, vec![gpu_request(true)])), Fault::NoSegments);
}
