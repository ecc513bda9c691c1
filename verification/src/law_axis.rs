//! How a linear gradient is laid over its primitive: the range of its offsets, its copies, and
//! where each part of it is placed.
use vstd::prelude::*;

use crate::geometry::{
    floor, minus, negate, over, plus, times, value, Expr, IntSize, Point, Rect, Size,
};
use crate::gradient::{
    emit, emit_area, emit_extent, emit_from, emit_origin, emit_task, segment_key, stop_run,
    with_segment, EmitArgs, GradientRunModel,
};
use crate::gradient_cache::{
    cache_end, cache_extended, cache_gradient, cache_start, cache_stops, cached, clamped_stops,
    repeat_advance, repeat_emitted, repeat_end, repeat_from, repeat_next, repeat_start,
    reverse_from, GradientArgs, GradientSpan,
};
use crate::model::{CachedGradientSegment, GradientStopKey, LineOrientation};
use crate::program::{Fault, GradientCacheKey, Program, Reply, Request, SegmentStops};
use crate::scalar::Scalar;

verus! {

/// The formula for where the primitive begins among the offsets of a gradient from `start` to
/// `end`.
pub open spec fn first_offset(start: Scalar, end: Scalar) -> Expr {
    over(negate(value(start)), minus(value(end), value(start)))
}

/// The formula for where a primitive of an extent ends among the offsets of the gradient.
pub open spec fn last_offset(start: Scalar, end: Scalar, extent: Scalar) -> Expr {
    over(minus(value(extent), value(start)), minus(value(end), value(start)))
}

/// The range of offsets that a primitive covers is found along the gradient alone: for a vertical
/// gradient, one whose ends have about the same x, from y coordinates and the height of the
/// primitive, and for any other from x coordinates and the width. The stops are then taken as they
/// are, or reversed first.
pub proof fn offsets_run_along_the_gradient(
    g: GradientArgs,
    stops: Seq<GradientStopKey>,
    vertical: bool,
    first: Scalar,
    last: Scalar,
)
    ensures
        ({
            let p = cache_gradient(g, stops);
            let oriented = p.on(Reply::Flag(vertical));
            let begun = oriented.on(Reply::Number(first));
            let spanned = begun.on(Reply::Number(last));
            let (start, end, extent) = if vertical {
                (g.start_point.y, g.end_point.y, g.prim_rect.size.height)
            } else {
                (g.start_point.x, g.end_point.x, g.prim_rect.size.width)
            };
            let span = GradientSpan {
                orientation: if vertical {
                    LineOrientation::Vertical
                } else {
                    LineOrientation::Horizontal
                },
                prim_start_offset: first,
                prim_end_offset: last,
            };
            &&& p.asks(Request::IsApproximately { a: g.start_point.x, b: g.end_point.x })
            &&& oriented.asks(Request::Evaluate(first_offset(start, end)))
            &&& begun.asks(Request::Evaluate(last_offset(start, end, extent)))
            &&& spanned == if g.reverse_stops {
                reverse_from(g, span, stops, Seq::empty())
            } else {
                cache_extended(g, span, stops)
            }
        }),
{
    let p = cache_gradient(g, stops);
    let orientation = if vertical {
        LineOrientation::Vertical
    } else {
        LineOrientation::Horizontal
    };
    let oriented = p.on(Reply::Flag(vertical));
    assert(oriented == cache_start(g, stops, orientation));
    let begun = oriented.on(Reply::Number(first));
    assert(begun == cache_end(g, stops, orientation, first));
    let span = GradientSpan { orientation, prim_start_offset: first, prim_end_offset: last };
    assert(begun.on(Reply::Number(last)) == cache_stops(g, stops, span));
}

/// A gradient and its primitive, turned: x and y are exchanged, and so are width and height.
pub open spec fn turned(g: GradientArgs) -> GradientArgs {
    GradientArgs {
        prim_rect: Rect {
            origin: Point { x: g.prim_rect.origin.y, y: g.prim_rect.origin.x },
            size: Size { width: g.prim_rect.size.height, height: g.prim_rect.size.width },
        },
        start_point: Point { x: g.start_point.y, y: g.start_point.x },
        end_point: Point { x: g.end_point.y, y: g.end_point.x },
        ..g
    }
}

/// A vertical gradient covers the offsets that the gradient turned by its axes covers as a
/// horizontal one, and the other way round: the same formulas are asked for.
pub proof fn turned_gradient_covers_the_same_offsets(
    g: GradientArgs,
    stops: Seq<GradientStopKey>,
    vertical: bool,
    first: Scalar,
)
    ensures
        ({
            let a = cache_gradient(g, stops).on(Reply::Flag(vertical));
            let b = cache_gradient(turned(g), stops).on(Reply::Flag(!vertical));
            &&& a is Call && b is Call
            &&& a->Call_0 == b->Call_0
            &&& a.on(Reply::Number(first)) is Call && b.on(Reply::Number(first)) is Call
            &&& a.on(Reply::Number(first))->Call_0 == b.on(Reply::Number(first))->Call_0
        }),
{
    offsets_run_along_the_gradient(g, stops, vertical, first, first);
    offsets_run_along_the_gradient(turned(g), stops, !vertical, first, first);
}

/// Reversing takes the stops from the last to the first: each keeps its colour and gets what its
/// offset lacks to one. When all are taken, they are drawn instead of those that were given.
pub proof fn reversing_takes_stops_from_the_end(
    g: GradientArgs,
    span: GradientSpan,
    stops: Seq<GradientStopKey>,
    reversed: Seq<GradientStopKey>,
    offset: Scalar,
)
    ensures
        ({
            let one = Scalar { bits: 0x3f80_0000 };
            let p = reverse_from(g, span, stops, reversed);
            let taken = stops[stops.len() - reversed.len() - 1];
            if reversed.len() < stops.len() {
                &&& p.asks(Request::Evaluate(minus(value(one), value(taken.offset))))
                &&& p.on(Reply::Number(offset)) == reverse_from(
                    g,
                    span,
                    stops,
                    reversed.push(GradientStopKey { offset, color: taken.color }),
                )
            } else {
                p == cache_extended(g, span, reversed)
            }
        }),
{
}

/// The part of a gradient from `from` to `to` of the copy that begins at `base`, on the primitive.
/// A task is as long as a region of the texture cache along the gradient and 16 pixels wide across.
pub open spec fn part_of_gradient(
    g: GradientArgs,
    span: GradientSpan,
    from: Scalar,
    to: Scalar,
    base: Scalar,
) -> EmitArgs {
    EmitArgs {
        start_offset: from,
        end_offset: to,
        gradient_offset_base: base,
        prim_start_offset: span.prim_start_offset,
        prim_end_offset: span.prim_end_offset,
        prim_origin: g.prim_rect.origin,
        prim_size: g.prim_rect.size,
        task_size: if span.orientation is Vertical {
            IntSize { width: 16, height: g.texture_region_dimensions }
        } else {
            IntSize { width: g.texture_region_dimensions, height: 16 }
        },
        is_opaque: g.is_opaque,
        orientation: span.orientation,
    }
}

/// A gradient that is clamped, or that the primitive does not reach beyond, is drawn once, over the
/// whole range of the primitive. Where the primitive begins before the gradient, the first colour
/// is drawn from there on, and where it ends behind it, the last colour up to there. A gradient
/// without stops cannot be drawn so.
pub proof fn gradient_is_drawn_once_or_repeated(
    g: GradientArgs,
    span: GradientSpan,
    stops: Seq<GradientStopKey>,
)
    ensures
        ({
            let zero = Scalar { bits: 0 };
            let one = Scalar { bits: 0x3f80_0000 };
            let from = span.prim_start_offset;
            let to = span.prim_end_offset;
            let p = cache_extended(g, span, stops);
            let before = if from.less(zero) {
                seq![GradientStopKey { offset: from, color: stops[0].color }]
            } else {
                Seq::empty()
            };
            let behind = if one.less(to) {
                seq![GradientStopKey { offset: to, color: stops[stops.len() - 1].color }]
            } else {
                Seq::empty()
            };
            let drawn = |run: GradientRunModel| Program::Return(run.segments);
            if g.extend_mode is Clamp || (zero.at_most(from) && to.at_most(one)) {
                if stops.len() == 0 {
                    p == Program::<Seq<CachedGradientSegment>>::Fail(Fault::NoStops)
                } else {
                    p == emit(
                        part_of_gradient(g, span, from, to, zero),
                        GradientRunModel {
                            stops: before + stops + behind,
                            segments: Seq::empty(),
                        },
                    ).bind(drawn)
                }
            } else {
                p == repeat_from(
                    g,
                    span,
                    GradientRunModel { stops, segments: Seq::empty() },
                    from,
                )
            }
        }),
{
    let zero = Scalar { bits: 0 };
    let one = Scalar { bits: 0x3f80_0000 };
    let from = span.prim_start_offset;
    let to = span.prim_end_offset;
    if stops.len() > 0 {
        let before = if from.less(zero) {
            seq![GradientStopKey { offset: from, color: stops[0].color }]
        } else {
            Seq::empty()
        };
        let behind = if one.less(to) {
            seq![GradientStopKey { offset: to, color: stops[stops.len() - 1].color }]
        } else {
            Seq::empty()
        };
        assert(clamped_stops(span, stops) =~= before + stops + behind);
        let run = GradientRunModel { stops: before + stops + behind, segments: Seq::empty() };
        let drawn = |run: GradientRunModel| Program::Return(run.segments);
        let inner = emit(part_of_gradient(g, span, from, to, zero), run);
        assert(cached(inner) == inner.bind(drawn));
    }
}

/// One copy of a gradient that repeats, from offset `start` on: it begins at the whole number at or
/// below `start`, and its part ends at the next whole number, or with the primitive if that comes
/// first. What follows begins where the part ended; behind the end of the primitive there is
/// nothing more, and a part that did not get any further is a fault.
pub proof fn copies_follow_each_other(
    g: GradientArgs,
    span: GradientSpan,
    run: GradientRunModel,
    start: Scalar,
    base: Scalar,
    from: Scalar,
    next: Scalar,
    to: Scalar,
    drawn: GradientRunModel,
    further: Scalar,
)
    ensures
        ({
            let one = Scalar { bits: 0x3f80_0000 };
            let end = span.prim_end_offset;
            let p = repeat_from(g, span, run, start);
            let floored = p.on(Reply::Number(base));
            let begun = floored.on(Reply::Number(from));
            let bounded = begun.on(Reply::Number(next));
            let sized = bounded.on(Reply::Number(to));
            let advance = |drawn: GradientRunModel|
                repeat_advance(g, span, drawn, start, base, to);
            let advanced = advance(drawn);
            let gone = advanced.on(Reply::Number(further));
            let limit = if next.nan() || end.less(next) {
                end
            } else {
                next
            };
            if start.less(end) {
                &&& p.asks(Request::Evaluate(floor(value(start))))
                &&& floored.asks(Request::Evaluate(minus(value(start), value(base))))
                &&& begun.asks(Request::Evaluate(plus(value(base), value(one))))
                &&& bounded.asks(Request::Evaluate(minus(value(limit), value(base))))
                &&& sized == emit(part_of_gradient(g, span, from, to, base), run).bind(advance)
                &&& advanced.asks(Request::Evaluate(plus(value(to), value(base))))
                &&& gone == if !further.less(end) {
                    Program::Return(drawn.segments)
                } else if start.less(further) {
                    repeat_from(g, span, drawn, further)
                } else {
                    Program::Fail(Fault::EndlessRepetition)
                }
            } else {
                p == Program::Return(run.segments)
            }
        }),
{
    let end = span.prim_end_offset;
    let p = repeat_from(g, span, run, start);
    if start.less(end) {
        let floored = p.on(Reply::Number(base));
        let begun = floored.on(Reply::Number(from));
        let bounded = begun.on(Reply::Number(next));
        let sized = bounded.on(Reply::Number(to));
        assert(floored == repeat_start(g, span, run, start, base));
        assert(begun == repeat_next(g, span, run, start, base, from));
        assert(bounded == repeat_end(g, span, run, start, base, from, next));
        let inner = emit(part_of_gradient(g, span, from, to, base), run);
        assert(sized == repeat_emitted(g, span, start, base, to, inner));
        let advance = |drawn: GradientRunModel| repeat_advance(g, span, drawn, start, base, to);
        repeating_goes_on(g, span, start, base, to, inner, advance);
        let advanced = repeat_advance(g, span, drawn, start, base, to);
        assert(advanced.on(Reply::Number(further)) == crate::gradient_cache::repeat_again(
            g,
            span,
            drawn,
            start,
            further,
        ));
    }
}

proof fn repeating_goes_on(
    g: GradientArgs,
    span: GradientSpan,
    start: Scalar,
    base: Scalar,
    to: Scalar,
    p: Program<GradientRunModel>,
    advance: spec_fn(GradientRunModel) -> Program<Seq<CachedGradientSegment>>,
)
    requires
        forall|run: GradientRunModel| #[trigger]
            advance(run) == repeat_advance(g, span, run, start, base, to),
    ensures
        repeat_emitted(g, span, start, base, to, p) == p.bind(advance),
    decreases p,
{
    let whole = repeat_emitted(g, span, start, base, to, p);
    match p {
        Program::Return(run) => {
            assert(whole == repeat_advance(g, span, run, start, base, to));
        },
        Program::Fail(fault) => {
            assert(whole == Program::<Seq<CachedGradientSegment>>::Fail(fault));
        },
        Program::Call(q, k) => {
            let a = whole->Call_1;
            let b = p.bind(advance)->Call_1;
            assert forall|r: Reply| #[trigger] a(r) == b(r) by {
                assert(a(r) == repeat_emitted(g, span, start, base, to, k(r)));
                assert(b(r) == k(r).bind(advance));
                repeating_goes_on(g, span, start, base, to, k(r), advance);
            }
            assert(a =~= b);
        },
    }
}

/// Whether the stops from `first` to `last` are those that one task draws: at most four, no two
/// next to each other at the same offset, and no more because there are no more, because four are
/// enough, or because the next one is at the offset of the last.
pub open spec fn is_one_run(stops: Seq<GradientStopKey>, first: int, last: int) -> bool {
    &&& 0 <= first <= last < stops.len()
    &&& last - first <= 3
    &&& forall|k: int|
        first <= k < last ==> !(#[trigger] stops[k + 1].offset.same(stops[k].offset))
    &&& last == stops.len() - 1 || last - first == 3 || stops[last + 1].offset.same(
        stops[last].offset,
    )
}

/// Where the next run begins: at the last stop of this one, so that there is no gap, unless a run
/// that is not full ends because the colour changes at once.
pub open spec fn behind_run(stops: Seq<GradientStopKey>, first: int, last: int) -> int {
    if last < stops.len() - 1 && last - first < 3 {
        last + 1
    } else {
        last
    }
}

proof fn run_is_found(stops: Seq<GradientStopKey>, first: int, known: int, last: int)
    requires
        is_one_run(stops, first, last),
        first <= known <= last,
    ensures
        stop_run(stops, first, known).last == last,
        stop_run(stops, first, known).next() == behind_run(stops, first, last),
    decreases last - known,
{
    if known < last {
        assert(!stops[known + 1].offset.same(stops[known].offset));
        run_is_found(stops, first, known + 1, last);
    }
}

/// The stop of a run at a position, or an empty one behind its last.
pub open spec fn stop_or_none(stops: Seq<GradientStopKey>, at: int, last: int) -> GradientStopKey {
    if at <= last {
        stops[at]
    } else {
        GradientStopKey { offset: Scalar { bits: 0 }, color: 0 }
    }
}

/// One run of stops of a part of a gradient. Nothing is drawn of it, nor of any that follows, if it
/// begins behind the part, and nothing of it if it ends before. Else a task draws what of it is in
/// the part, and is placed on the primitive along the gradient in the proportion in which its
/// offsets lie in those of the primitive, over the whole of it across. A place without an area gets
/// no task.
pub proof fn runs_are_placed_in_proportion(
    a: EmitArgs,
    run: GradientRunModel,
    first: int,
    last: int,
    placed: Scalar,
    length: Scalar,
    area: Scalar,
    handle: u64,
)
    requires
        is_one_run(run.stops, first, last),
        first < run.stops.len() - 1,
    ensures
        ({
            let one = Scalar { bits: 0x3f80_0000 };
            let stops = run.stops;
            let next = behind_run(stops, first, last);
            let p = emit_from(a, run, first);
            let rest = emit_from(a, run, next);
            let start = if a.start_offset.nan() || a.start_offset.less(stops[first].offset) {
                stops[first].offset
            } else {
                a.start_offset
            };
            let end = if a.end_offset.nan() || stops[last].offset.less(a.end_offset) {
                stops[last].offset
            } else {
                a.end_offset
            };
            let across = over(
                value(one),
                minus(value(a.prim_end_offset), value(a.prim_start_offset)),
            );
            let (origin, extent) = if a.orientation is Vertical {
                (a.prim_origin.y, a.prim_size.height)
            } else {
                (a.prim_origin.x, a.prim_size.width)
            };
            let rect = if a.orientation is Vertical {
                Rect {
                    origin: Point { x: a.prim_origin.x, y: placed },
                    size: Size { width: a.prim_size.width, height: length },
                }
            } else {
                Rect {
                    origin: Point { x: placed, y: a.prim_origin.y },
                    size: Size { width: length, height: a.prim_size.height },
                }
            };
            let key = GradientCacheKey {
                orientation: a.orientation,
                start,
                end,
                stops: SegmentStops {
                    first: stops[first],
                    second: stop_or_none(stops, first + 1, last),
                    third: stop_or_none(stops, first + 2, last),
                    fourth: stop_or_none(stops, first + 3, last),
                },
            };
            let located = p.on(Reply::Number(placed));
            let extended = located.on(Reply::Number(length));
            let measured = extended.on(Reply::Number(area));
            if a.end_offset.less(stops[first].offset) {
                p == Program::Return(run)
            } else if stops[last].offset.less(a.start_offset) {
                p == rest
            } else {
                &&& p.asks(
                    Request::Evaluate(
                        plus(
                            value(origin),
                            times(
                                times(
                                    minus(
                                        plus(value(start), value(a.gradient_offset_base)),
                                        value(a.prim_start_offset),
                                    ),
                                    across,
                                ),
                                value(extent),
                            ),
                        ),
                    ),
                )
                &&& located.asks(
                    Request::Evaluate(
                        times(value(extent), times(minus(value(end), value(start)), across)),
                    ),
                )
                &&& extended.asks(
                    Request::Evaluate(times(value(rect.size.width), value(rect.size.height))),
                )
                &&& if (Scalar { bits: 0 }).less(area) {
                    &&& measured.asks(
                        Request::GradientTask { size: a.task_size, key, is_opaque: a.is_opaque },
                    )
                    &&& measured.on(Reply::TaskHandle(handle)) == emit_from(
                        a,
                        GradientRunModel {
                            segments: run.segments.push(
                                CachedGradientSegment { handle, local_rect: rect },
                            ),
                            ..run
                        },
                        next,
                    )
                } else {
                    measured == rest
                }
            }
        }),
{
    let stops = run.stops;
    run_is_found(stops, first, first, last);
    let next = behind_run(stops, first, last);
    let p = emit_from(a, run, first);
    if !a.end_offset.less(stops[first].offset) && !stops[last].offset.less(a.start_offset) {
        let key = segment_key(
            a.orientation,
            stops,
            first,
            last,
            a.start_offset.larger(stops[first].offset),
            a.end_offset.smaller(stops[last].offset),
        );
        assert(p == emit_origin(a, run, next, key));
        let located = p.on(Reply::Number(placed));
        assert(located == emit_extent(a, run, next, key, placed));
        let extended = located.on(Reply::Number(length));
        let rect = crate::gradient::placed_rect(a, placed, length);
        assert(extended == emit_area(a, run, next, key, rect));
        let measured = extended.on(Reply::Number(area));
        assert(measured == emit_task(a, run, next, key, rect, area));
        if (Scalar { bits: 0 }).less(area) {
            let more = with_segment(run, CachedGradientSegment { handle, local_rect: rect });
            assert(measured.on(Reply::TaskHandle(handle)) == emit_from(a, more, next));
        } else {
            assert(measured == emit_from(a, run, next));
        }
    }
}

/// The runs of a part are drawn from the first stop on, and behind the last stop there is no more.
/// A part without stops cannot be drawn.
pub proof fn runs_are_drawn_from_the_first_stop(a: EmitArgs, run: GradientRunModel)
    ensures
        emit(a, run) == if run.stops.len() == 0 {
            Program::Fail(Fault::NoStops)
        } else {
            emit_from(a, run, 0)
        },
        run.stops.len() > 0 ==> emit_from(a, run, run.stops.len() - 1) == Program::Return(run),
{
}

} // verus!
