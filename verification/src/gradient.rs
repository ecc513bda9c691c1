//! Drawing a linear gradient from cached segments.
//!
//! An axis-aligned gradient is drawn from segments of a few stops each, which are cached and
//! stretched over parts of the primitive. Offsets along the gradient run from 0 at its start to 1
//! at its end; the primitive covers a range of offsets of its own.
use vstd::prelude::*;

use crate::geometry::{
    minus, over, plus, times, value, Expr, IntSize, Point, Rect, Size,
};
use crate::model::{
    CachedGradientSegment, GradientStopKey, LineOrientation,
};
use crate::program::{
    ask_number, ask_task_handle, unexpected, Fault, GradientCacheKey, Machine, Program,
    Progress, Reply, Request, Resume, SegmentStops,
};
use crate::scalar::{Scalar, ONE, ZERO};

verus! {

/// The largest number of stops that one task draws.
pub const GRADIENT_FP_STOPS: usize = 4;

/// The extent of a gradient task across the gradient, in pixels.
pub const GRADIENT_BREADTH: i32 = 16;

/// The part of a gradient that is drawn, and the primitive that it is drawn on.
#[derive(Clone, Copy, Debug, PartialEq, Eq, Structural)]
pub struct EmitArgs {
    /// Where the part begins, from 0 to 1 unless the gradient is clamped.
    pub start_offset: Scalar,
    /// Where the part ends.
    pub end_offset: Scalar,
    /// Where on the primitive offset 0 of this copy of the gradient lies.
    pub gradient_offset_base: Scalar,
    /// The offsets that the whole primitive covers.
    pub prim_start_offset: Scalar,
    pub prim_end_offset: Scalar,
    pub prim_origin: Point,
    pub prim_size: Size,
    pub task_size: IntSize,
    pub is_opaque: bool,
    pub orientation: LineOrientation,
}

/// The stops of a gradient and the segments that were cached for it so far.
pub struct GradientRun {
    pub stops: Vec<GradientStopKey>,
    pub segments: Vec<CachedGradientSegment>,
}

/// The stops and the segments of a gradient, as sequences.
#[verifier::ext_equal]
pub struct GradientRunModel {
    pub stops: Seq<GradientStopKey>,
    pub segments: Seq<CachedGradientSegment>,
}

impl View for GradientRun {
    type V = GradientRunModel;

    open spec fn view(&self) -> GradientRunModel {
        GradientRunModel { stops: self.stops@, segments: self.segments@ }
    }
}

/// A run of stops that one task draws.
pub struct StopRun {
    /// The position of the last stop.
    pub last: int,
    /// Whether the next stop has the same offset, so that the colour changes at once.
    pub hard_stop: bool,
}

impl StopRun {
    /// Where the next run begins. The two stops of a hard stop are never in one run.
    pub open spec fn next(self) -> int {
        if self.hard_stop {
            self.last + 1
        } else {
            self.last
        }
    }
}

/// The run that begins at position `first`, of which the stops up to `last` are known to be part:
/// it ends at a hard stop, at the last stop or when the task is full.
pub open spec fn stop_run(stops: Seq<GradientStopKey>, first: int, last: int) -> StopRun
    decreases stops.len() - last,
{
    if last < stops.len() - 1 && last - first + 1 < GRADIENT_FP_STOPS {
        if stops[last + 1].offset.same(stops[last].offset) {
            StopRun { last, hard_stop: true }
        } else {
            stop_run(stops, first, last + 1)
        }
    } else {
        StopRun { last, hard_stop: false }
    }
}

/// A run that does not begin at the last stop gets further, holds at most as many stops as a task
/// draws, and ends within the stops.
pub proof fn stop_run_bounds(stops: Seq<GradientStopKey>, first: int, last: int)
    requires
        0 <= first <= last < stops.len(),
        first < stops.len() - 1,
        last - first < GRADIENT_FP_STOPS,
    ensures
        first <= stop_run(stops, first, last).last < stops.len(),
        last <= stop_run(stops, first, last).last,
        stop_run(stops, first, last).last - first < GRADIENT_FP_STOPS,
        first < stop_run(stops, first, last).next() < stops.len(),
    decreases stops.len() - last,
{
    if last < stops.len() - 1 && last - first + 1 < GRADIENT_FP_STOPS {
        if !stops[last + 1].offset.same(stops[last].offset) {
            stop_run_bounds(stops, first, last + 1);
        }
    }
}

/// A stop that stands for none.
pub open spec fn empty_stop() -> GradientStopKey {
    GradientStopKey { offset: Scalar { bits: ZERO }, color: 0 }
}

/// The stop at position `k` of the run from `first` to `last`.
pub open spec fn run_stop(stops: Seq<GradientStopKey>, first: int, last: int, k: int) ->
    GradientStopKey {
    if first + k <= last {
        stops[first + k]
    } else {
        empty_stop()
    }
}

/// What the task for a part of a gradient is cached by.
pub open spec fn segment_key(
    orientation: LineOrientation,
    stops: Seq<GradientStopKey>,
    first: int,
    last: int,
    start: Scalar,
    end: Scalar,
) -> GradientCacheKey {
    GradientCacheKey {
        orientation,
        start,
        end,
        stops: SegmentStops {
            first: run_stop(stops, first, last, 0),
            second: run_stop(stops, first, last, 1),
            third: run_stop(stops, first, last, 2),
            fourth: run_stop(stops, first, last, 3),
        },
    }
}

/// One over the length of the range of offsets that the primitive covers.
pub open spec fn inverse_length(a: EmitArgs) -> Expr {
    over(
        value(Scalar { bits: ONE }),
        minus(value(a.prim_end_offset), value(a.prim_start_offset)),
    )
}

/// Where on an axis of the primitive the segment from offset `start` lies.
pub open spec fn placed_origin(a: EmitArgs, origin: Scalar, extent: Scalar, start: Scalar) -> Expr {
    plus(
        value(origin),
        times(
            times(
                minus(
                    plus(value(start), value(a.gradient_offset_base)),
                    value(a.prim_start_offset),
                ),
                inverse_length(a),
            ),
            value(extent),
        ),
    )
}

/// How far along an axis of the primitive the segment from `start` to `end` reaches.
pub open spec fn placed_extent(a: EmitArgs, extent: Scalar, start: Scalar, end: Scalar) -> Expr {
    times(value(extent), times(minus(value(end), value(start)), inverse_length(a)))
}

/// The origin and the extent of the primitive along the gradient.
pub open spec fn along(a: EmitArgs) -> (Scalar, Scalar) {
    match a.orientation {
        LineOrientation::Horizontal => (a.prim_origin.x, a.prim_size.width),
        LineOrientation::Vertical => (a.prim_origin.y, a.prim_size.height),
    }
}

/// The part of the primitive from `origin` on along the gradient.
pub open spec fn placed_rect(a: EmitArgs, origin: Scalar, extent: Scalar) -> Rect {
    match a.orientation {
        LineOrientation::Horizontal => Rect {
            origin: Point { x: origin, y: a.prim_origin.y },
            size: Size { width: extent, height: a.prim_size.height },
        },
        LineOrientation::Vertical => Rect {
            origin: Point { x: a.prim_origin.x, y: origin },
            size: Size { width: a.prim_size.width, height: extent },
        },
    }
}

/// Caches the segments of a part of a gradient.
pub open spec fn emit(a: EmitArgs, run: GradientRunModel) -> Program<GradientRunModel> {
    if run.stops.len() == 0 {
        Program::Fail(Fault::NoStops)
    } else {
        emit_from(a, run, 0)
    }
}

/// The segments of the runs of stops from position `first` on. A run that ends before the part
/// begins is passed over, and nothing follows a run that begins behind its end.
pub open spec fn emit_from(a: EmitArgs, run: GradientRunModel, first: int) -> Program<
    GradientRunModel,
>
    decreases run.stops.len() - first, 0int,
{
    if first < 0 || first >= run.stops.len() - 1 {
        Program::Return(run)
    } else if a.end_offset.less(run.stops[first].offset) {
        Program::Return(run)
    } else {
        proof {
            stop_run_bounds(run.stops, first, first);
        }
        let r = stop_run(run.stops, first, first);
        if run.stops[r.last].offset.less(a.start_offset) {
            emit_from(a, run, r.next())
        } else {
            emit_origin(
                a,
                run,
                r.next(),
                segment_key(
                    a.orientation,
                    run.stops,
                    first,
                    r.last,
                    a.start_offset.larger(run.stops[first].offset),
                    a.end_offset.smaller(run.stops[r.last].offset),
                ),
            )
        }
    }
}

pub open spec fn emit_origin(
    a: EmitArgs,
    run: GradientRunModel,
    next: int,
    key: GradientCacheKey,
) -> Program<GradientRunModel>
    decreases run.stops.len() - next, 5int,
{
    ask_number(
        Request::Evaluate(placed_origin(a, along(a).0, along(a).1, key.start)),
        |origin: Scalar| emit_extent(a, run, next, key, origin),
    )
}

pub open spec fn emit_extent(
    a: EmitArgs,
    run: GradientRunModel,
    next: int,
    key: GradientCacheKey,
    origin: Scalar,
) -> Program<GradientRunModel>
    decreases run.stops.len() - next, 4int,
{
    ask_number(
        Request::Evaluate(placed_extent(a, along(a).1, key.start, key.end)),
        |extent: Scalar| emit_area(a, run, next, key, placed_rect(a, origin, extent)),
    )
}

pub open spec fn emit_area(
    a: EmitArgs,
    run: GradientRunModel,
    next: int,
    key: GradientCacheKey,
    rect: Rect,
) -> Program<GradientRunModel>
    decreases run.stops.len() - next, 3int,
{
    ask_number(
        Request::Evaluate(times(value(rect.size.width), value(rect.size.height))),
        |area: Scalar| emit_task(a, run, next, key, rect, area),
    )
}

/// A segment without an area, as a hard stop on an edge leaves one, is not drawn.
pub open spec fn emit_task(
    a: EmitArgs,
    run: GradientRunModel,
    next: int,
    key: GradientCacheKey,
    rect: Rect,
    area: Scalar,
) -> Program<GradientRunModel>
    decreases run.stops.len() - next, 2int,
{
    if (Scalar { bits: ZERO }).less(area) {
        ask_task_handle(
            Request::GradientTask { size: a.task_size, key, is_opaque: a.is_opaque },
            |handle: u64|
                emit_from(
                    a,
                    with_segment(run, CachedGradientSegment { handle, local_rect: rect }),
                    next,
                ),
        )
    } else {
        emit_from(a, run, next)
    }
}

pub open spec fn with_segment(run: GradientRunModel, segment: CachedGradientSegment) ->
    GradientRunModel {
    GradientRunModel { segments: run.segments.push(segment), ..run }
}

/// A run of [`emit_segments`].
pub enum EmitSegments {
    Placing { a: EmitArgs, run: GradientRun, next: usize, key: GradientCacheKey },
    Extending { a: EmitArgs, run: GradientRun, next: usize, key: GradientCacheKey, origin: Scalar },
    Measuring { a: EmitArgs, run: GradientRun, next: usize, key: GradientCacheKey, rect: Rect },
    Requesting { a: EmitArgs, run: GradientRun, next: usize, rect: Rect },
}

fn stop_of_run(stops: &Vec<GradientStopKey>, first: usize, last: usize, k: usize) -> (stop:
    GradientStopKey)
    requires
        first <= last < stops@.len(),
        k < GRADIENT_FP_STOPS,
    ensures
        stop == run_stop(stops@, first as int, last as int, k as int),
{
    if k <= last - first {
        stops[first + k]
    } else {
        GradientStopKey { offset: Scalar { bits: ZERO }, color: 0 }
    }
}

/// Finds the end of the run that begins at `first`, and whether it is a hard stop.
fn find_run(stops: &Vec<GradientStopKey>, first: usize) -> (found: (usize, bool))
    requires
        first < stops@.len() - 1,
    ensures
        stop_run(stops@, first as int, first as int) == (StopRun {
            last: found.0 as int,
            hard_stop: found.1,
        }),
{
    let mut last: usize = first;
    let count: usize = stops.len();
    while last < count - 1 && last - first + 1 < GRADIENT_FP_STOPS
        invariant
            count == stops@.len(),
            first < count - 1,
            first <= last < count,
            last - first < GRADIENT_FP_STOPS,
            stop_run(stops@, first as int, first as int) == stop_run(
                stops@,
                first as int,
                last as int,
            ),
        decreases count - last,
    {
        if stops[last + 1].offset.is_same(stops[last].offset) {
            return (last, true);
        }
        last = last + 1;
    }
    (last, false)
}

fn inverse_length_of(a: EmitArgs) -> (e: Expr)
    ensures
        e == inverse_length(a),
{
    over(
        value(Scalar { bits: ONE }),
        minus(value(a.prim_end_offset), value(a.prim_start_offset)),
    )
}

impl EmitSegments {
    fn origin_of(a: EmitArgs, start: Scalar) -> (e: Expr)
        ensures
            e == placed_origin(a, along(a).0, along(a).1, start),
    {
        let (origin, extent) = match a.orientation {
            LineOrientation::Horizontal => (a.prim_origin.x, a.prim_size.width),
            LineOrientation::Vertical => (a.prim_origin.y, a.prim_size.height),
        };
        plus(
            value(origin),
            times(
                times(
                    minus(
                        plus(value(start), value(a.gradient_offset_base)),
                        value(a.prim_start_offset),
                    ),
                    inverse_length_of(a),
                ),
                value(extent),
            ),
        )
    }

    fn extent_of(a: EmitArgs, start: Scalar, end: Scalar) -> (e: Expr)
        ensures
            e == placed_extent(a, along(a).1, start, end),
    {
        let extent = match a.orientation {
            LineOrientation::Horizontal => a.prim_size.width,
            LineOrientation::Vertical => a.prim_size.height,
        };
        times(
            value(extent),
            times(minus(value(end), value(start)), inverse_length_of(a)),
        )
    }

    fn rect_of(a: EmitArgs, origin: Scalar, extent: Scalar) -> (r: Rect)
        ensures
            r == placed_rect(a, origin, extent),
    {
        match a.orientation {
            LineOrientation::Horizontal => Rect {
                origin: Point { x: origin, y: a.prim_origin.y },
                size: Size { width: extent, height: a.prim_size.height },
            },
            LineOrientation::Vertical => Rect {
                origin: Point { x: a.prim_origin.x, y: origin },
                size: Size { width: a.prim_size.width, height: extent },
            },
        }
    }

    fn from(a: EmitArgs, run: GradientRun, begin: usize) -> (p: Progress<EmitSegments>)
        ensures
            p.follows(emit_from(a, run@, begin as int)),
    {
        let mut first: usize = begin;
        let count: usize = run.stops.len();
        if count == 0 {
            return Progress::Done(run);
        }
        while first < count - 1
            invariant
                count == run.stops@.len(),
                count > 0,
                emit_from(a, run@, begin as int) == emit_from(a, run@, first as int),
            decreases count - first,
        {
            if a.end_offset.is_less(run.stops[first].offset) {
                return Progress::Done(run);
            }
            proof {
                stop_run_bounds(run.stops@, first as int, first as int);
            }
            let (last, hard_stop) = find_run(&run.stops, first);
            let next: usize = if hard_stop {
                last + 1
            } else {
                last
            };
            if !run.stops[last].offset.is_less(a.start_offset) {
                let start = a.start_offset.max_of(run.stops[first].offset);
                let end = a.end_offset.min_of(run.stops[last].offset);
                let key = GradientCacheKey {
                    orientation: a.orientation,
                    start,
                    end,
                    stops: SegmentStops {
                        first: stop_of_run(&run.stops, first, last, 0),
                        second: stop_of_run(&run.stops, first, last, 1),
                        third: stop_of_run(&run.stops, first, last, 2),
                        fourth: stop_of_run(&run.stops, first, last, 3),
                    },
                };
                assert(emit_from(a, run@, first as int) == emit_origin(a, run@, next as int, key));
                return Progress::Waiting(
                    EmitSegments::Placing { a, run, next, key },
                    Request::Evaluate(EmitSegments::origin_of(a, start)),
                );
            }
            first = next;
        }
        Progress::Done(run)
    }
}

impl Machine for EmitSegments {
    type Out = GradientRun;

    open spec fn after(self, r: Reply) -> Program<GradientRunModel> {
        match (self, r) {
            (EmitSegments::Placing { a, run, next, key }, Reply::Number(origin)) => emit_extent(
                a,
                run@,
                next as int,
                key,
                origin,
            ),
            (
                EmitSegments::Extending { a, run, next, key, origin },
                Reply::Number(extent),
            ) => emit_area(a, run@, next as int, key, placed_rect(a, origin, extent)),
            (EmitSegments::Measuring { a, run, next, key, rect }, Reply::Number(area)) => emit_task(
                a,
                run@,
                next as int,
                key,
                rect,
                area,
            ),
            (EmitSegments::Requesting { a, run, next, rect }, Reply::TaskHandle(handle)) => {
                emit_from(
                    a,
                    with_segment(run@, CachedGradientSegment { handle, local_rect: rect }),
                    next as int,
                )
            },
            _ => unexpected(),
        }
    }
}

impl Resume for EmitSegments {
    fn resume(self, reply: Reply) -> (p: Progress<Self>) {
        match (self, reply) {
            (EmitSegments::Placing { a, run, next, key }, Reply::Number(origin)) => {
                Progress::Waiting(
                    EmitSegments::Extending { a, run, next, key, origin },
                    Request::Evaluate(EmitSegments::extent_of(a, key.start, key.end)),
                )
            },
            (EmitSegments::Extending { a, run, next, key, origin }, Reply::Number(extent)) => {
                let rect = EmitSegments::rect_of(a, origin, extent);
                Progress::Waiting(
                    EmitSegments::Measuring { a, run, next, key, rect },
                    Request::Evaluate(times(value(rect.size.width), value(rect.size.height))),
                )
            },
            (EmitSegments::Measuring { a, run, next, key, rect }, Reply::Number(area)) => {
                if (Scalar { bits: ZERO }).is_less(area) {
                    Progress::Waiting(
                        EmitSegments::Requesting { a, run, next, rect },
                        Request::GradientTask { size: a.task_size, key, is_opaque: a.is_opaque },
                    )
                } else {
                    EmitSegments::from(a, run, next)
                }
            },
            (EmitSegments::Requesting { a, run, next, rect }, Reply::TaskHandle(handle)) => {
                let mut run = run;
                run.segments.push(CachedGradientSegment { handle, local_rect: rect });
                EmitSegments::from(a, run, next)
            },
            _ => Progress::Failed(Fault::UnexpectedReply),
        }
    }
}

/// Caches the segments of a part of a gradient, and adds them to those that are cached already.
pub fn emit_segments(a: EmitArgs, run: GradientRun) -> (p: Progress<EmitSegments>)
    ensures
        p.follows(emit(a, run@)),
{
    if run.stops.len() == 0 {
        Progress::Failed(Fault::NoStops)
    } else {
        EmitSegments::from(a, run, 0)
    }
}

} // verus!
