//! Caching a linear gradient: its range of offsets, its stops, and its repetitions.
use vstd::prelude::*;

use crate::geometry::{floor, minus, negate, over, plus, value, IntSize, Point, Rect};
use crate::gradient::{
    emit, emit_segments, EmitArgs, EmitSegments, GradientRun, GradientRunModel, GRADIENT_BREADTH,
};
use crate::model::{CachedGradientSegment, ExtendMode, GradientStopKey, LineOrientation};
use crate::program::{
    ask_flag, ask_number, unexpected, Fault, Machine, Program, Progress, Reply, Request, Resume,
};
use crate::scalar::{Scalar, ONE, ZERO};

verus! {

/// What is cached of a gradient.
#[derive(Clone, Copy, Debug, PartialEq, Eq, Structural)]
pub struct GradientArgs {
    pub prim_rect: Rect,
    pub start_point: Point,
    pub end_point: Point,
    pub extend_mode: ExtendMode,
    pub reverse_stops: bool,
    pub is_opaque: bool,
    /// The extent of a region of the texture cache.
    pub texture_region_dimensions: i32,
}

/// The offsets of a gradient that the primitive covers.
#[derive(Clone, Copy, Debug, PartialEq, Eq, Structural)]
pub struct GradientSpan {
    pub orientation: LineOrientation,
    pub prim_start_offset: Scalar,
    pub prim_end_offset: Scalar,
}

/// The line that a gradient and its primitive are seen along.
#[derive(Clone, Copy, Debug, PartialEq, Eq, Structural)]
pub struct GradientAxis {
    pub start: Scalar,
    pub end: Scalar,
    /// The extent of the primitive.
    pub extent: Scalar,
}

/// The axis of the gradient, which runs along one of the coordinates.
pub open spec fn gradient_axis(g: GradientArgs, orientation: LineOrientation) -> GradientAxis {
    match orientation {
        LineOrientation::Vertical => GradientAxis {
            start: g.start_point.y,
            end: g.end_point.y,
            extent: g.prim_rect.size.height,
        },
        LineOrientation::Horizontal => GradientAxis {
            start: g.start_point.x,
            end: g.end_point.x,
            extent: g.prim_rect.size.width,
        },
    }
}

/// A task is as long as a region of the texture cache, for accuracy, and narrow.
pub open spec fn gradient_task_size(g: GradientArgs, orientation: LineOrientation) -> IntSize {
    match orientation {
        LineOrientation::Vertical => IntSize {
            width: GRADIENT_BREADTH,
            height: g.texture_region_dimensions,
        },
        LineOrientation::Horizontal => IntSize {
            width: g.texture_region_dimensions,
            height: GRADIENT_BREADTH,
        },
    }
}

pub open spec fn orientation_of(vertical: bool) -> LineOrientation {
    if vertical {
        LineOrientation::Vertical
    } else {
        LineOrientation::Horizontal
    }
}

/// Caches the segments that a gradient is drawn from.
pub open spec fn cache_gradient(g: GradientArgs, stops: Seq<GradientStopKey>) -> Program<
    Seq<CachedGradientSegment>,
> {
    ask_flag(
        Request::IsApproximately { a: g.start_point.x, b: g.end_point.x },
        |vertical: bool| cache_start(g, stops, orientation_of(vertical)),
    )
}

pub open spec fn cache_start(
    g: GradientArgs,
    stops: Seq<GradientStopKey>,
    orientation: LineOrientation,
) -> Program<Seq<CachedGradientSegment>> {
    let axis = gradient_axis(g, orientation);
    ask_number(
        Request::Evaluate(
            over(negate(value(axis.start)), minus(value(axis.end), value(axis.start))),
        ),
        |start: Scalar| cache_end(g, stops, orientation, start),
    )
}

pub open spec fn cache_end(
    g: GradientArgs,
    stops: Seq<GradientStopKey>,
    orientation: LineOrientation,
    start: Scalar,
) -> Program<Seq<CachedGradientSegment>> {
    let axis = gradient_axis(g, orientation);
    ask_number(
        Request::Evaluate(
            over(
                minus(value(axis.extent), value(axis.start)),
                minus(value(axis.end), value(axis.start)),
            ),
        ),
        |end: Scalar|
            cache_stops(
                g,
                stops,
                GradientSpan { orientation, prim_start_offset: start, prim_end_offset: end },
            ),
    )
}

pub open spec fn cache_stops(
    g: GradientArgs,
    stops: Seq<GradientStopKey>,
    span: GradientSpan,
) -> Program<Seq<CachedGradientSegment>> {
    if g.reverse_stops {
        reverse_from(g, span, stops, Seq::<GradientStopKey>::empty())
    } else {
        cache_extended(g, span, stops)
    }
}

/// The stops backwards, each as far from the end as it was from the start. Those in `reversed` are
/// done.
pub open spec fn reverse_from(
    g: GradientArgs,
    span: GradientSpan,
    stops: Seq<GradientStopKey>,
    reversed: Seq<GradientStopKey>,
) -> Program<Seq<CachedGradientSegment>>
    decreases stops.len() - reversed.len(),
{
    if reversed.len() < stops.len() {
        let source = stops[stops.len() - 1 - reversed.len()];
        ask_number(
            Request::Evaluate(minus(value(Scalar { bits: ONE }), value(source.offset))),
            |offset: Scalar|
                reverse_from(
                    g,
                    span,
                    stops,
                    reversed.push(GradientStopKey { offset, color: source.color }),
                ),
        )
    } else {
        cache_extended(g, span, reversed)
    }
}

/// Whether one copy of the gradient covers the primitive.
pub open spec fn drawn_once(g: GradientArgs, span: GradientSpan) -> bool {
    g.extend_mode == ExtendMode::Clamp || ((Scalar { bits: ZERO }).at_most(span.prim_start_offset)
        && span.prim_end_offset.at_most(Scalar { bits: ONE }))
}

/// The stops, with the first and the last one repeated at the ends of the primitive where it
/// reaches beyond the gradient.
pub open spec fn clamped_stops(span: GradientSpan, stops: Seq<GradientStopKey>) -> Seq<
    GradientStopKey,
> {
    let from_start = if span.prim_start_offset.less(Scalar { bits: ZERO }) {
        stops.insert(
            0,
            GradientStopKey { offset: span.prim_start_offset, color: stops[0].color },
        )
    } else {
        stops
    };
    if (Scalar { bits: ONE }).less(span.prim_end_offset) {
        from_start.push(
            GradientStopKey { offset: span.prim_end_offset, color: from_start.last().color },
        )
    } else {
        from_start
    }
}

pub open spec fn emit_args(
    g: GradientArgs,
    span: GradientSpan,
    start: Scalar,
    end: Scalar,
    base: Scalar,
) -> EmitArgs {
    EmitArgs {
        start_offset: start,
        end_offset: end,
        gradient_offset_base: base,
        prim_start_offset: span.prim_start_offset,
        prim_end_offset: span.prim_end_offset,
        prim_origin: g.prim_rect.origin,
        prim_size: g.prim_rect.size,
        task_size: gradient_task_size(g, span.orientation),
        is_opaque: g.is_opaque,
        orientation: span.orientation,
    }
}

/// One copy of a gradient that is clamped, or that covers the primitive; copies from one end of
/// the primitive to the other of one that repeats.
pub open spec fn cache_extended(
    g: GradientArgs,
    span: GradientSpan,
    stops: Seq<GradientStopKey>,
) -> Program<Seq<CachedGradientSegment>> {
    let none = Seq::<CachedGradientSegment>::empty();
    if drawn_once(g, span) {
        if stops.len() == 0 {
            Program::Fail(Fault::NoStops)
        } else {
            cached(
                emit(
                    emit_args(
                        g,
                        span,
                        span.prim_start_offset,
                        span.prim_end_offset,
                        Scalar { bits: ZERO },
                    ),
                    GradientRunModel { stops: clamped_stops(span, stops), segments: none },
                ),
            )
        }
    } else {
        repeat_from(
            g,
            span,
            GradientRunModel { stops, segments: none },
            span.prim_start_offset,
        )
    }
}

pub open spec fn cached(p: Program<GradientRunModel>) -> Program<Seq<CachedGradientSegment>> {
    p.bind(|run: GradientRunModel| Program::Return(run.segments))
}

/// How far the end of the primitive is from an offset, counted in numbers.
pub open spec fn offsets_left(span: GradientSpan, start: Scalar) -> int {
    span.prim_end_offset.order() - start.order()
}

/// The copies from offset `start` on. A copy runs to the next integer, or to the end of the
/// primitive.
pub open spec fn repeat_from(
    g: GradientArgs,
    span: GradientSpan,
    run: GradientRunModel,
    start: Scalar,
) -> Program<Seq<CachedGradientSegment>>
    decreases offsets_left(span, start), 9int,
{
    if start.less(span.prim_end_offset) {
        ask_number(
            Request::Evaluate(floor(value(start))),
            |base: Scalar| repeat_start(g, span, run, start, base),
        )
    } else {
        Program::Return(run.segments)
    }
}

pub open spec fn repeat_start(
    g: GradientArgs,
    span: GradientSpan,
    run: GradientRunModel,
    start: Scalar,
    base: Scalar,
) -> Program<Seq<CachedGradientSegment>>
    decreases offsets_left(span, start), 8int,
{
    ask_number(
        Request::Evaluate(minus(value(start), value(base))),
        |from: Scalar| repeat_next(g, span, run, start, base, from),
    )
}

pub open spec fn repeat_next(
    g: GradientArgs,
    span: GradientSpan,
    run: GradientRunModel,
    start: Scalar,
    base: Scalar,
    from: Scalar,
) -> Program<Seq<CachedGradientSegment>>
    decreases offsets_left(span, start), 7int,
{
    ask_number(
        Request::Evaluate(plus(value(base), value(Scalar { bits: ONE }))),
        |next: Scalar| repeat_end(g, span, run, start, base, from, next),
    )
}

pub open spec fn repeat_end(
    g: GradientArgs,
    span: GradientSpan,
    run: GradientRunModel,
    start: Scalar,
    base: Scalar,
    from: Scalar,
    next: Scalar,
) -> Program<Seq<CachedGradientSegment>>
    decreases offsets_left(span, start), 6int,
{
    ask_number(
        Request::Evaluate(minus(value(next.smaller(span.prim_end_offset)), value(base))),
        |to: Scalar|
            repeat_emitted(
                g,
                span,
                start,
                base,
                to,
                emit(emit_args(g, span, from, to, base), run),
            ),
    )
}

pub open spec fn repeat_emitted(
    g: GradientArgs,
    span: GradientSpan,
    start: Scalar,
    base: Scalar,
    to: Scalar,
    p: Program<GradientRunModel>,
) -> Program<Seq<CachedGradientSegment>>
    decreases offsets_left(span, start), 5int,
{
    p.bind(|run: GradientRunModel| repeat_advance(g, span, run, start, base, to))
}

pub open spec fn repeat_advance(
    g: GradientArgs,
    span: GradientSpan,
    run: GradientRunModel,
    start: Scalar,
    base: Scalar,
    to: Scalar,
) -> Program<Seq<CachedGradientSegment>>
    decreases offsets_left(span, start), 4int,
{
    ask_number(
        Request::Evaluate(plus(value(to), value(base))),
        |next: Scalar| repeat_again(g, span, run, start, next),
    )
}

/// The copies after one that ended at offset `next`. A gradient whose copies are too small for
/// the offsets to tell them apart is never done.
pub open spec fn repeat_again(
    g: GradientArgs,
    span: GradientSpan,
    run: GradientRunModel,
    start: Scalar,
    next: Scalar,
) -> Program<Seq<CachedGradientSegment>>
    decreases offsets_left(span, start), 3int,
{
    if !next.less(span.prim_end_offset) {
        Program::Return(run.segments)
    } else if start.less(next) {
        repeat_from(g, span, run, next)
    } else {
        Program::Fail(Fault::EndlessRepetition)
    }
}

/// A run of [`cache_linear_gradient`].
pub enum CacheGradient {
    Orienting { g: GradientArgs, stops: Vec<GradientStopKey> },
    Starting { g: GradientArgs, stops: Vec<GradientStopKey>, orientation: LineOrientation },
    Ending {
        g: GradientArgs,
        stops: Vec<GradientStopKey>,
        orientation: LineOrientation,
        start: Scalar,
    },
    Reversing {
        g: GradientArgs,
        span: GradientSpan,
        stops: Vec<GradientStopKey>,
        reversed: Vec<GradientStopKey>,
    },
    Emitting { inner: EmitSegments },
    Flooring { g: GradientArgs, span: GradientSpan, run: GradientRun, start: Scalar },
    RepeatStarting {
        g: GradientArgs,
        span: GradientSpan,
        run: GradientRun,
        start: Scalar,
        base: Scalar,
    },
    RepeatNext {
        g: GradientArgs,
        span: GradientSpan,
        run: GradientRun,
        start: Scalar,
        base: Scalar,
        from: Scalar,
    },
    RepeatEnding {
        g: GradientArgs,
        span: GradientSpan,
        run: GradientRun,
        start: Scalar,
        base: Scalar,
        from: Scalar,
    },
    RepeatEmitting {
        g: GradientArgs,
        span: GradientSpan,
        start: Scalar,
        base: Scalar,
        to: Scalar,
        inner: EmitSegments,
    },
    Advancing { g: GradientArgs, span: GradientSpan, run: GradientRun, start: Scalar },
}

impl CacheGradient {
    fn axis(g: GradientArgs, orientation: LineOrientation) -> (axis: GradientAxis)
        ensures
            axis == gradient_axis(g, orientation),
    {
        match orientation {
            LineOrientation::Vertical => GradientAxis {
                start: g.start_point.y,
                end: g.end_point.y,
                extent: g.prim_rect.size.height,
            },
            LineOrientation::Horizontal => GradientAxis {
                start: g.start_point.x,
                end: g.end_point.x,
                extent: g.prim_rect.size.width,
            },
        }
    }

    fn args(
        g: GradientArgs,
        span: GradientSpan,
        start: Scalar,
        end: Scalar,
        base: Scalar,
    ) -> (a: EmitArgs)
        ensures
            a == emit_args(g, span, start, end, base),
    {
        let task_size = match span.orientation {
            LineOrientation::Vertical => IntSize {
                width: GRADIENT_BREADTH,
                height: g.texture_region_dimensions,
            },
            LineOrientation::Horizontal => IntSize {
                width: g.texture_region_dimensions,
                height: GRADIENT_BREADTH,
            },
        };
        EmitArgs {
            start_offset: start,
            end_offset: end,
            gradient_offset_base: base,
            prim_start_offset: span.prim_start_offset,
            prim_end_offset: span.prim_end_offset,
            prim_origin: g.prim_rect.origin,
            prim_size: g.prim_rect.size,
            task_size,
            is_opaque: g.is_opaque,
            orientation: span.orientation,
        }
    }

    fn reverse(
        g: GradientArgs,
        span: GradientSpan,
        stops: Vec<GradientStopKey>,
        reversed: Vec<GradientStopKey>,
    ) -> (p: Progress<CacheGradient>)
        ensures
            p.follows(reverse_from(g, span, stops@, reversed@)),
    {
        if reversed.len() < stops.len() {
            let source = stops[stops.len() - 1 - reversed.len()];
            Progress::Waiting(
                CacheGradient::Reversing { g, span, stops, reversed },
                Request::Evaluate(minus(value(Scalar { bits: ONE }), value(source.offset))),
            )
        } else {
            CacheGradient::extended(g, span, reversed)
        }
    }

    fn extended(g: GradientArgs, span: GradientSpan, stops: Vec<GradientStopKey>) -> (p: Progress<
        CacheGradient,
    >)
        ensures
            p.follows(cache_extended(g, span, stops@)),
    {
        let zero = Scalar { bits: ZERO };
        let one = Scalar { bits: ONE };
        let clamp = match g.extend_mode {
            ExtendMode::Clamp => true,
            ExtendMode::Repeat => false,
        };
        let mut stops = stops;
        if clamp || (zero.is_at_most(span.prim_start_offset) && span.prim_end_offset.is_at_most(
            one,
        )) {
            if stops.len() == 0 {
                return Progress::Failed(Fault::NoStops);
            }
            let ghost given = stops@;
            if span.prim_start_offset.is_less(zero) {
                let color = stops[0].color;
                stops.insert(0, GradientStopKey { offset: span.prim_start_offset, color });
            }
            if one.is_less(span.prim_end_offset) {
                let color = stops[stops.len() - 1].color;
                stops.push(GradientStopKey { offset: span.prim_end_offset, color });
            }
            assert(stops@ == clamped_stops(span, given));
            let a = CacheGradient::args(
                g,
                span,
                span.prim_start_offset,
                span.prim_end_offset,
                zero,
            );
            let run = GradientRun { stops, segments: Vec::new() };
            let ghost p = emit(a, run@);
            CacheGradient::emitted(emit_segments(a, run), Ghost(p))
        } else {
            let run = GradientRun { stops, segments: Vec::new() };
            CacheGradient::repeat(g, span, run, span.prim_start_offset)
        }
    }

    fn emitted(p: Progress<EmitSegments>, Ghost(e): Ghost<Program<GradientRunModel>>) -> (q:
        Progress<CacheGradient>)
        requires
            p.follows(e),
        ensures
            q.follows(cached(e)),
    {
        match p {
            Progress::Waiting(inner, q) => Progress::Waiting(CacheGradient::Emitting { inner }, q),
            Progress::Done(run) => Progress::Done(run.segments),
            Progress::Failed(fault) => Progress::Failed(fault),
        }
    }

    fn repeat(g: GradientArgs, span: GradientSpan, run: GradientRun, start: Scalar) -> (p: Progress<
        CacheGradient,
    >)
        ensures
            p.follows(repeat_from(g, span, run@, start)),
    {
        if start.is_less(span.prim_end_offset) {
            Progress::Waiting(
                CacheGradient::Flooring { g, span, run, start },
                Request::Evaluate(floor(value(start))),
            )
        } else {
            Progress::Done(run.segments)
        }
    }

    fn repeat_emitted(
        g: GradientArgs,
        span: GradientSpan,
        start: Scalar,
        base: Scalar,
        to: Scalar,
        p: Progress<EmitSegments>,
        Ghost(e): Ghost<Program<GradientRunModel>>,
    ) -> (q: Progress<CacheGradient>)
        requires
            p.follows(e),
        ensures
            q.follows(repeat_emitted(g, span, start, base, to, e)),
    {
        match p {
            Progress::Waiting(inner, q) => Progress::Waiting(
                CacheGradient::RepeatEmitting { g, span, start, base, to, inner },
                q,
            ),
            Progress::Done(run) => {
                assert(repeat_emitted(g, span, start, base, to, e) == repeat_advance(
                    g,
                    span,
                    run@,
                    start,
                    base,
                    to,
                ));
                Progress::Waiting(
                    CacheGradient::Advancing { g, span, run, start },
                    Request::Evaluate(plus(value(to), value(base))),
                )
            },
            Progress::Failed(fault) => Progress::Failed(fault),
        }
    }
}

impl Machine for CacheGradient {
    type Out = Vec<CachedGradientSegment>;

    open spec fn after(self, r: Reply) -> Program<Seq<CachedGradientSegment>> {
        match (self, r) {
            (CacheGradient::Orienting { g, stops }, Reply::Flag(vertical)) => cache_start(
                g,
                stops@,
                orientation_of(vertical),
            ),
            (CacheGradient::Starting { g, stops, orientation }, Reply::Number(start)) => cache_end(
                g,
                stops@,
                orientation,
                start,
            ),
            (CacheGradient::Ending { g, stops, orientation, start }, Reply::Number(end)) => {
                cache_stops(
                    g,
                    stops@,
                    GradientSpan { orientation, prim_start_offset: start, prim_end_offset: end },
                )
            },
            (CacheGradient::Reversing { g, span, stops, reversed }, Reply::Number(offset)) => {
                if reversed@.len() < stops@.len() {
                    reverse_from(
                        g,
                        span,
                        stops@,
                        reversed@.push(
                            GradientStopKey {
                                offset,
                                color: stops@[stops@.len() - 1 - reversed@.len()].color,
                            },
                        ),
                    )
                } else {
                    unexpected()
                }
            },
            (CacheGradient::Emitting { inner }, r) => cached(inner.after(r)),
            (CacheGradient::Flooring { g, span, run, start }, Reply::Number(base)) => repeat_start(
                g,
                span,
                run@,
                start,
                base,
            ),
            (CacheGradient::RepeatStarting { g, span, run, start, base }, Reply::Number(from)) => {
                repeat_next(g, span, run@, start, base, from)
            },
            (
                CacheGradient::RepeatNext { g, span, run, start, base, from },
                Reply::Number(next),
            ) => repeat_end(g, span, run@, start, base, from, next),
            (
                CacheGradient::RepeatEnding { g, span, run, start, base, from },
                Reply::Number(to),
            ) => repeat_emitted(
                g,
                span,
                start,
                base,
                to,
                emit(emit_args(g, span, from, to, base), run@),
            ),
            (CacheGradient::RepeatEmitting { g, span, start, base, to, inner }, r) => {
                repeat_emitted(g, span, start, base, to, inner.after(r))
            },
            (CacheGradient::Advancing { g, span, run, start }, Reply::Number(next)) => {
                repeat_again(g, span, run@, start, next)
            },
            _ => unexpected(),
        }
    }
}

impl Resume for CacheGradient {
    fn resume(self, reply: Reply) -> (p: Progress<Self>) {
        match (self, reply) {
            (CacheGradient::Orienting { g, stops }, Reply::Flag(vertical)) => {
                let orientation = if vertical {
                    LineOrientation::Vertical
                } else {
                    LineOrientation::Horizontal
                };
                let axis = CacheGradient::axis(g, orientation);
                Progress::Waiting(
                    CacheGradient::Starting { g, stops, orientation },
                    Request::Evaluate(
                        over(negate(value(axis.start)), minus(value(axis.end), value(axis.start))),
                    ),
                )
            },
            (CacheGradient::Starting { g, stops, orientation }, Reply::Number(start)) => {
                let axis = CacheGradient::axis(g, orientation);
                Progress::Waiting(
                    CacheGradient::Ending { g, stops, orientation, start },
                    Request::Evaluate(
                        over(
                            minus(value(axis.extent), value(axis.start)),
                            minus(value(axis.end), value(axis.start)),
                        ),
                    ),
                )
            },
            (CacheGradient::Ending { g, stops, orientation, start }, Reply::Number(end)) => {
                let span = GradientSpan {
                    orientation,
                    prim_start_offset: start,
                    prim_end_offset: end,
                };
                if g.reverse_stops {
                    let reversed: Vec<GradientStopKey> = Vec::new();
                    CacheGradient::reverse(g, span, stops, reversed)
                } else {
                    CacheGradient::extended(g, span, stops)
                }
            },
            (CacheGradient::Reversing { g, span, stops, reversed }, Reply::Number(offset)) => {
                if reversed.len() < stops.len() {
                    let mut reversed = reversed;
                    let color = stops[stops.len() - 1 - reversed.len()].color;
                    reversed.push(GradientStopKey { offset, color });
                    CacheGradient::reverse(g, span, stops, reversed)
                } else {
                    Progress::Failed(Fault::UnexpectedReply)
                }
            },
            (CacheGradient::Emitting { inner }, reply) => {
                let ghost e = inner.after(reply);
                CacheGradient::emitted(inner.resume(reply), Ghost(e))
            },
            (CacheGradient::Flooring { g, span, run, start }, Reply::Number(base)) => {
                Progress::Waiting(
                    CacheGradient::RepeatStarting { g, span, run, start, base },
                    Request::Evaluate(minus(value(start), value(base))),
                )
            },
            (CacheGradient::RepeatStarting { g, span, run, start, base }, Reply::Number(from)) => {
                Progress::Waiting(
                    CacheGradient::RepeatNext { g, span, run, start, base, from },
                    Request::Evaluate(plus(value(base), value(Scalar { bits: ONE }))),
                )
            },
            (
                CacheGradient::RepeatNext { g, span, run, start, base, from },
                Reply::Number(next),
            ) => {
                let end = next.min_of(span.prim_end_offset);
                Progress::Waiting(
                    CacheGradient::RepeatEnding { g, span, run, start, base, from },
                    Request::Evaluate(minus(value(end), value(base))),
                )
            },
            (
                CacheGradient::RepeatEnding { g, span, run, start, base, from },
                Reply::Number(to),
            ) => {
                let a = CacheGradient::args(g, span, from, to, base);
                let ghost e = emit(a, run@);
                CacheGradient::repeat_emitted(
                    g,
                    span,
                    start,
                    base,
                    to,
                    emit_segments(a, run),
                    Ghost(e),
                )
            },
            (CacheGradient::RepeatEmitting { g, span, start, base, to, inner }, reply) => {
                let ghost e = inner.after(reply);
                CacheGradient::repeat_emitted(
                    g,
                    span,
                    start,
                    base,
                    to,
                    inner.resume(reply),
                    Ghost(e),
                )
            },
            (CacheGradient::Advancing { g, span, run, start }, Reply::Number(next)) => {
                if !next.is_less(span.prim_end_offset) {
                    Progress::Done(run.segments)
                } else if start.is_less(next) {
                    CacheGradient::repeat(g, span, run, next)
                } else {
                    Progress::Failed(Fault::EndlessRepetition)
                }
            },
            _ => Progress::Failed(Fault::UnexpectedReply),
        }
    }
}

/// Caches the segments that a gradient is drawn from.
pub fn cache_linear_gradient(g: GradientArgs, stops: Vec<GradientStopKey>) -> (p: Progress<
    CacheGradient,
>)
    ensures
        p.follows(cache_gradient(g, stops@)),
{
    Progress::Waiting(
        CacheGradient::Orienting { g, stops },
        Request::IsApproximately { a: g.start_point.x, b: g.end_point.x },
    )
}

} // verus!
