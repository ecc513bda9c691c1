//! Device rectangles and clip masks.
use prepare_pass::brush_clip::{
    draw_mask, update_brush_segment_clip_task, MaskTarget, SegmentClipBounds,
};
use prepare_pass::clip_rect::{
    adjust_mask_scale_for_max_size, get_clipped_device_rect, get_unclipped_device_rect, ClipBounds,
};
use prepare_pass::geometry::{over, times, value, IntRect, Point, Rect, Size};
use prepare_pass::model::{
    BrushFlags, BrushSegment, ClipChainInstance, ClipMaskKind, ClipsRange, PictureState,
    SpatialNodeIndex, SurfaceIndex, TaskId,
};
use prepare_pass::program::{Fault, Progress, Reply, Request, Resume};
use prepare_pass::scalar::Scalar;
use prepare_pass::segment_build::zeros;

const ROOT: SpatialNodeIndex = SpatialNodeIndex(1);
const SURFACE: SurfaceIndex = SurfaceIndex(2);
const STATE: PictureState = PictureState(6);

fn chain(needs_mask: bool) -> ClipChainInstance {
    ClipChainInstance {
        clips_range: ClipsRange { first: 7, count: 2 },
        has_non_local_clips: false,
        needs_mask,
        pic_clip_rect: rect(0.0, 0.0, 50.0, 40.0),
    }
}

fn segment(x: f32, may_need_clip_mask: bool) -> BrushSegment {
    BrushSegment {
        local_rect: rect(x, 0.0, 10.0, 10.0),
        may_need_clip_mask,
        edge_flags: 0,
        extra_data: zeros(),
        brush_flags: BrushFlags::Plain,
    }
}

fn num(x: f32) -> Scalar {
    Scalar { bits: x.to_bits() }
}

fn point(x: f32, y: f32) -> Point {
    Point { x: num(x), y: num(y) }
}

fn size(width: f32, height: f32) -> Size {
    Size { width: num(width), height: num(height) }
}

fn rect(x: f32, y: f32, width: f32, height: f32) -> Rect {
    Rect { origin: point(x, y), size: size(width, height) }
}

/// Holds a conversation: each request has to be the expected one, and gets the reply beside it.
fn converse<M: Resume>(start: Progress<M>, script: Vec<(Request, Reply)>) -> Progress<M> {
    let mut progress = start;
    for (step, (expected, reply)) in script.into_iter().enumerate() {
        match progress {
            Progress::Waiting(machine, request) => {
                assert_eq!(request, expected, "request {}", step);
                progress = machine.resume(reply);
            }
            Progress::Done(_) => panic!("done before request {}", step),
            Progress::Failed(fault) => panic!("{:?} before request {}", fault, step),
        }
    }
    progress
}

fn done<M: Resume>(progress: Progress<M>) -> M::Out {
    match progress {
        Progress::Waiting(_, request) => panic!("still asks {:?}", request),
        Progress::Done(out) => out,
        Progress::Failed(fault) => panic!("{:?}", fault),
    }
}

fn failed<M: Resume>(progress: Progress<M>) -> Fault {
    match progress {
        Progress::Waiting(_, request) => panic!("still asks {:?}", request),
        Progress::Done(_) => panic!("done"),
        Progress::Failed(fault) => fault,
    }
}

fn bounds() -> ClipBounds {
    ClipBounds {
        unclipped: rect(0.0, 0.0, 100.0, 80.0),
        state: STATE,
        prim_bounding_rect: rect(5.0, 5.0, 60.0, 60.0),
        device_pixel_scale: num(2.0),
    }
}

#[test]
fn unclipped_rect_is_mapped_and_scaled() {
    let start = get_unclipped_device_rect(rect(1.0, 1.0, 2.0, 2.0), STATE, num(2.0));
    let out = done(converse(
        start,
        vec![
            (
                Request::PictureToRaster { state: STATE, rect: rect(1.0, 1.0, 2.0, 2.0) },
                Reply::MaybeRect(Some(rect(3.0, 3.0, 2.0, 2.0))),
            ),
            (
                Request::ScaleRect { rect: rect(3.0, 3.0, 2.0, 2.0), by: num(2.0) },
                Reply::Rect(rect(6.0, 6.0, 4.0, 4.0)),
            ),
        ],
    ));
    assert_eq!(out, Some(rect(6.0, 6.0, 4.0, 4.0)));
}

#[test]
fn unclipped_rect_is_nothing_without_a_mapping() {
    let start = get_unclipped_device_rect(rect(1.0, 1.0, 2.0, 2.0), STATE, num(2.0));
    let script = vec![(
        Request::PictureToRaster { state: STATE, rect: rect(1.0, 1.0, 2.0, 2.0) },
        Reply::MaybeRect(None),
    )];
    assert_eq!(done(converse(start, script)), None);
}

/// The conversation of `get_clipped_device_rect` up to the reply to its last mapping.
fn clipping_script() -> Vec<(Request, Reply)> {
    vec![
        (
            Request::UnscaleRect { rect: rect(0.0, 0.0, 100.0, 80.0), by: num(2.0) },
            Reply::Rect(rect(0.0, 0.0, 50.0, 40.0)),
        ),
        (
            Request::RasterToWorld { state: STATE, rect: rect(0.0, 0.0, 50.0, 40.0) },
            Reply::MaybeRect(Some(rect(0.0, 0.0, 51.0, 41.0))),
        ),
        (
            Request::Intersect {
                a: rect(0.0, 0.0, 51.0, 41.0),
                b: rect(5.0, 5.0, 60.0, 60.0),
            },
            Reply::MaybeRect(Some(rect(5.0, 5.0, 46.0, 36.0))),
        ),
        (
            Request::WorldToRaster { state: STATE, rect: rect(5.0, 5.0, 46.0, 36.0) },
            Reply::MaybeRect(Some(rect(5.0, 5.0, 45.0, 35.0))),
        ),
        (
            Request::Intersect {
                a: rect(5.0, 5.0, 45.0, 35.0),
                b: rect(0.0, 0.0, 50.0, 40.0),
            },
            Reply::MaybeRect(Some(rect(5.0, 5.0, 44.0, 34.0))),
        ),
    ]
}

#[test]
fn clipped_rect_goes_to_the_world_and_back() {
    let mut script = clipping_script();
    script.push((
        Request::RasterToDevicePixels { rect: rect(5.0, 5.0, 44.0, 34.0), scale: num(2.0) },
        Reply::Rect(rect(10.0, 10.0, 88.0, 68.0)),
    ));
    let out = done(converse(get_clipped_device_rect(bounds()), script));
    assert_eq!(out, Some(rect(10.0, 10.0, 88.0, 68.0)));
}

#[test]
fn clipped_rect_is_nothing_as_soon_as_a_step_leaves_nothing() {
    for step in 1..5 {
        let mut script = clipping_script();
        script.truncate(step + 1);
        script[step].1 = Reply::MaybeRect(None);
        let out = done(converse(get_clipped_device_rect(bounds()), script));
        assert_eq!(out, None, "step {}", step);
    }
}

#[test]
fn clipped_rect_of_no_extent_is_nothing() {
    let mut script = clipping_script();
    script[4].1 = Reply::MaybeRect(Some(rect(5.0, 5.0, 0.0, 34.0)));
    let out = done(converse(get_clipped_device_rect(bounds()), script));
    assert_eq!(out, None);
}

#[test]
fn mask_within_the_limit_is_cut_to_whole_pixels() {
    let device_rect = rect(0.0, 0.0, 4096.0, 10.0);
    let out = done(converse(
        adjust_mask_scale_for_max_size(device_rect, num(2.0)),
        vec![(
            Request::ToIntRect { rect: device_rect },
            Reply::IntRect(IntRect { x: 0, y: 0, width: 4096, height: 10 }),
        )],
    ));
    assert_eq!(out.device_rect, IntRect { x: 0, y: 0, width: 4096, height: 10 });
    assert_eq!(out.device_pixel_scale, num(2.0));
}

#[test]
fn mask_beyond_the_limit_is_scaled_down() {
    for device_rect in vec![rect(0.5, 0.0, 10.0, 8190.0), rect(0.5, 0.0, 8190.0, 8000.0)] {
        let placed = IntRect { x: 0, y: 0, width: 6, height: 4095 };
        let out = done(converse(
            adjust_mask_scale_for_max_size(device_rect, num(2.0)),
            vec![
                (
                    Request::Evaluate(over(value(num(4095.0)), value(num(8190.0)))),
                    Reply::Number(num(0.5)),
                ),
                (
                    Request::Evaluate(times(value(num(2.0)), value(num(0.5)))),
                    Reply::Number(num(1.0)),
                ),
                (
                    Request::ScaleRoundOut { rect: device_rect, by: num(0.5) },
                    Reply::IntRect(placed),
                ),
            ],
        ));
        assert_eq!(out.device_rect, placed);
        assert_eq!(out.device_pixel_scale, num(1.0));
    }
}

#[test]
fn adjusting_a_mask_again_changes_nothing() {
    for (width, height) in vec![(4096, 4096), (6, 4095), (0, 0), (1, 3000)] {
        let placed = IntRect { x: 3, y: 4, width, height };
        let again = rect(3.0, 4.0, width as f32, height as f32);
        let out = done(converse(
            adjust_mask_scale_for_max_size(again, num(1.5)),
            vec![(Request::ToIntRect { rect: again }, Reply::IntRect(placed))],
        ));
        assert_eq!(out.device_rect, placed);
        assert_eq!(out.device_pixel_scale, num(1.5));
    }
}

fn segment_bounds() -> SegmentClipBounds {
    SegmentClipBounds {
        prim_bounding_rect: rect(1.0, 2.0, 30.0, 20.0),
        root_spatial_node_index: ROOT,
        surface_index: SURFACE,
        state: STATE,
        unclipped: rect(0.0, 0.0, 100.0, 80.0),
        device_pixel_scale: num(2.0),
    }
}

#[test]
fn segment_without_a_clip_chain_is_clipped_away() {
    let out = done(update_brush_segment_clip_task(&segment(0.0, true), None, segment_bounds()));
    assert_eq!(out, ClipMaskKind::Clipped);
}

#[test]
fn segment_that_no_clip_affects_goes_unmasked() {
    let mut non_local = chain(false);
    non_local.has_non_local_clips = true;
    for (may_need, clip_chain) in
        vec![(true, chain(false)), (false, chain(true)), (false, non_local)]
    {
        let out = done(update_brush_segment_clip_task(
            &segment(0.0, may_need),
            Some(clip_chain),
            segment_bounds(),
        ));
        assert_eq!(out, ClipMaskKind::Unmasked);
    }
}

/// The conversation for a segment with a mask that is drawn by task 70.
fn masked_segment_script() -> Vec<(Request, Reply)> {
    vec![
        (
            Request::PictureToWorld { state: STATE, rect: rect(0.0, 0.0, 50.0, 40.0) },
            Reply::MaybeRect(Some(rect(0.0, 0.0, 20.0, 20.0))),
        ),
        (
            Request::Intersect {
                a: rect(0.0, 0.0, 20.0, 20.0),
                b: rect(1.0, 2.0, 30.0, 20.0),
            },
            Reply::MaybeRect(Some(rect(1.0, 2.0, 19.0, 18.0))),
        ),
        (
            Request::UnscaleRect { rect: rect(0.0, 0.0, 100.0, 80.0), by: num(2.0) },
            Reply::Rect(rect(0.0, 0.0, 50.0, 40.0)),
        ),
        (
            Request::RasterToWorld { state: STATE, rect: rect(0.0, 0.0, 50.0, 40.0) },
            Reply::MaybeRect(Some(rect(0.0, 0.0, 50.0, 40.0))),
        ),
        (
            Request::Intersect {
                a: rect(0.0, 0.0, 50.0, 40.0),
                b: rect(1.0, 2.0, 19.0, 18.0),
            },
            Reply::MaybeRect(Some(rect(1.0, 2.0, 19.0, 18.0))),
        ),
        (
            Request::WorldToRaster { state: STATE, rect: rect(1.0, 2.0, 19.0, 18.0) },
            Reply::MaybeRect(Some(rect(1.0, 2.0, 19.0, 18.0))),
        ),
        (
            Request::Intersect {
                a: rect(1.0, 2.0, 19.0, 18.0),
                b: rect(0.0, 0.0, 50.0, 40.0),
            },
            Reply::MaybeRect(Some(rect(1.0, 2.0, 19.0, 18.0))),
        ),
        (
            Request::RasterToDevicePixels { rect: rect(1.0, 2.0, 19.0, 18.0), scale: num(2.0) },
            Reply::Rect(rect(2.0, 4.0, 38.0, 36.0)),
        ),
        (
            Request::ToIntRect { rect: rect(2.0, 4.0, 38.0, 36.0) },
            Reply::IntRect(IntRect { x: 2, y: 4, width: 38, height: 36 }),
        ),
        (
            Request::MaskTask {
                device_rect: IntRect { x: 2, y: 4, width: 38, height: 36 },
                clips_range: ClipsRange { first: 7, count: 2 },
                root_spatial_node_index: ROOT,
                device_pixel_scale: num(2.0),
            },
            Reply::Task(TaskId(70)),
        ),
        (Request::SurfacePort { surface: SURFACE }, Reply::Task(TaskId(80))),
        (Request::AddDependency { parent: TaskId(80), child: TaskId(70) }, Reply::Ack),
    ]
}

#[test]
fn segment_mask_becomes_a_dependency_of_the_surface() {
    let out = done(converse(
        update_brush_segment_clip_task(&segment(0.0, true), Some(chain(true)), segment_bounds()),
        masked_segment_script(),
    ));
    assert_eq!(out, ClipMaskKind::Mask(TaskId(70)));
}

#[test]
fn non_local_clips_mask_a_segment_that_needs_no_mask_itself() {
    let mut clip_chain = chain(true);
    clip_chain.has_non_local_clips = true;
    let out = done(converse(
        update_brush_segment_clip_task(&segment(0.0, false), Some(clip_chain), segment_bounds()),
        masked_segment_script(),
    ));
    assert_eq!(out, ClipMaskKind::Mask(TaskId(70)));
}

#[test]
fn segment_is_clipped_away_where_nothing_of_it_is_left() {
    for step in vec![0, 1, 3, 4, 5, 6] {
        let mut script = masked_segment_script();
        script.truncate(step + 1);
        script[step].1 = Reply::MaybeRect(None);
        let start = update_brush_segment_clip_task(
            &segment(0.0, true),
            Some(chain(true)),
            segment_bounds(),
        );
        assert_eq!(done(converse(start, script)), ClipMaskKind::Clipped, "step {}", step);
    }
}

#[test]
fn mask_is_drawn_and_linked() {
    let target = MaskTarget {
        clips_range: ClipsRange { first: 7, count: 2 },
        root_spatial_node_index: ROOT,
        surface_index: SURFACE,
    };
    let script = masked_segment_script().split_off(8);
    let out = done(converse(draw_mask(target, rect(2.0, 4.0, 38.0, 36.0), num(2.0)), script));
    assert_eq!(out, TaskId(70));
}

#[test]
fn reply_of_the_wrong_kind_is_a_fault() {
    let start = get_clipped_device_rect(bounds());
    match start {
        Progress::Waiting(machine, _) => {
            assert_eq!(failed(machine.resume(Reply::Flag(true))), Fault::UnexpectedReply);
        }
        _ => panic!("nothing asked"),
    }
}
