//! What the tasks of a linear gradient draw.
use vstd::prelude::*;

use crate::faults_prim::stops_are;
use crate::geometry::Rect;
use crate::gradient::{
    emit, emit_area, emit_extent, emit_from, emit_origin, emit_task, placed_rect, segment_key,
    stop_run, stop_run_bounds, with_segment, EmitArgs, GradientRunModel, GRADIENT_FP_STOPS,
};
use crate::gradient_cache::{
    cache_end, cache_extended, cache_gradient, cache_start, cache_stops, cached, clamped_stops,
    drawn_once, emit_args, gradient_task_size, offsets_left, repeat_advance, repeat_again,
    repeat_emitted, repeat_end, repeat_from, repeat_next, repeat_start, reverse_from, GradientArgs,
    GradientSpan,
};
use crate::law_gradient::{
    emitting_adds_between_stops, runs_end_at_hard_stops, segments_emitted, segments_left,
};
use crate::law_reversal::mirrors;
use crate::model::{CachedGradientSegment, GradientStopKey, LineOrientation};
use crate::program::{
    always_weaker, only_asks_of_bind, only_asks_weaker, GradientCacheKey, Program, Reply, Request,
};
use crate::scalar::{Scalar, ZERO};

verus! {

/// Whether the offsets of stops ascend, as those of a gradient do.
pub open spec fn ascend(stops: Seq<GradientStopKey>) -> bool {
    forall|i: int, j: int|
        0 <= i <= j < stops.len() ==> (#[trigger] stops[i]).offset.at_most(
            (#[trigger] stops[j]).offset,
        )
}

/// Whether an offset lies between two stops.
pub open spec fn between(x: Scalar, a: GradientStopKey, b: GradientStopKey) -> bool {
    a.offset.at_most(x) && x.at_most(b.offset)
}

/// Whether a task draws the stops from `first` to `last`, padded with empty ones. They are one run:
/// no more than a task has room for, with no hard stop among them, and ended by a hard stop, by the
/// last stop or by the lack of room. What is drawn of the gradient lies between the two.
pub open spec fn draws_run(
    stops: Seq<GradientStopKey>,
    key: GradientCacheKey,
    first: int,
    last: int,
) -> bool {
    &&& 0 <= first <= last < stops.len()
    &&& last - first + 1 <= GRADIENT_FP_STOPS
    &&& last == stop_run(stops, first, first).last
    &&& forall|k: int|
        first <= k < last ==> !(#[trigger] stops[k + 1].offset.same(stops[k].offset))
    &&& key == segment_key(key.orientation, stops, first, last, key.start, key.end)
    &&& ascend(stops) ==> between(key.start, stops[first], stops[last]) && between(
        key.end,
        stops[first],
        stops[last],
    )
}

/// A run of a single stop covers nothing of the gradient: it begins where it ends.
pub proof fn single_stop_covers_nothing(
    stops: Seq<GradientStopKey>,
    key: GradientCacheKey,
    first: int,
)
    requires
        draws_run(stops, key, first, first),
        ascend(stops),
    ensures
        key.start.same(key.end),
{
}

/// That nothing is asked but arithmetic and tasks that draw runs of the stops.
pub open spec fn asks_for_runs(a: EmitArgs, stops: Seq<GradientStopKey>) -> spec_fn(
    Request,
) -> bool {
    |q: Request|
        match q {
            Request::Evaluate(_) => true,
            Request::GradientTask { size, key, is_opaque } => {
                &&& size == a.task_size
                &&& is_opaque == a.is_opaque
                &&& key.orientation == a.orientation
                &&& exists|first: int, last: int| #[trigger] draws_run(stops, key, first, last)
            },
            _ => false,
        }
}

proof fn emit_from_asks_for_runs(a: EmitArgs, run: GradientRunModel, first: int)
    requires
        0 <= first,
    ensures
        emit_from(a, run, first).only_asks(asks_for_runs(a, run.stops)),
    decreases run.stops.len() - first,
{
    let ok = asks_for_runs(a, run.stops);
    if first < run.stops.len() - 1 && !a.end_offset.less(run.stops[first].offset) {
        stop_run_bounds(run.stops, first, first);
        let stop = stop_run(run.stops, first, first);
        let next = stop.next();
        emit_from_asks_for_runs(a, run, next);
        if run.stops[stop.last].offset.less(a.start_offset) {
            assert(emit_from(a, run, first) == emit_from(a, run, next));
        } else {
            let key = segment_key(
                a.orientation,
                run.stops,
                first,
                stop.last,
                a.start_offset.larger(run.stops[first].offset),
                a.end_offset.smaller(run.stops[stop.last].offset),
            );
            runs_end_at_hard_stops(run.stops, first);
            assert(ascend(run.stops) ==> run.stops[first].offset.at_most(
                run.stops[stop.last].offset,
            ));
            assert(draws_run(run.stops, key, first, stop.last));
            assert forall|rect: Rect, area: Scalar|
                (#[trigger] emit_task(a, run, next, key, rect, area)).only_asks(ok) by {
                let p = emit_task(a, run, next, key, rect, area);
                if (Scalar { bits: ZERO }).less(area) {
                    let k = p->Call_1;
                    assert forall|r: Reply| (#[trigger] k(r)).only_asks(ok) by {
                        if let Reply::TaskHandle(handle) = r {
                            let more = with_segment(
                                run,
                                CachedGradientSegment { handle, local_rect: rect },
                            );
                            assert(k(r) == emit_from(a, more, next));
                            emit_from_asks_for_runs(a, more, next);
                        }
                    }
                } else {
                    assert(p == emit_from(a, run, next));
                }
            }
            assert forall|rect: Rect|
                (#[trigger] emit_area(a, run, next, key, rect)).only_asks(ok) by {
                let k = emit_area(a, run, next, key, rect)->Call_1;
                assert forall|r: Reply| (#[trigger] k(r)).only_asks(ok) by {
                    if let Reply::Number(area) = r {
                        assert(k(r) == emit_task(a, run, next, key, rect, area));
                    }
                }
            }
            assert forall|origin: Scalar|
                (#[trigger] emit_extent(a, run, next, key, origin)).only_asks(ok) by {
                let k = emit_extent(a, run, next, key, origin)->Call_1;
                assert forall|r: Reply| (#[trigger] k(r)).only_asks(ok) by {
                    if let Reply::Number(extent) = r {
                        let rect = placed_rect(a, origin, extent);
                        assert(k(r) == emit_area(a, run, next, key, rect));
                    }
                }
            }
            let p = emit_origin(a, run, next, key);
            let k = p->Call_1;
            assert forall|r: Reply| (#[trigger] k(r)).only_asks(ok) by {
                if let Reply::Number(origin) = r {
                    assert(k(r) == emit_extent(a, run, next, key, origin));
                }
            }
            assert(emit_from(a, run, first) == p);
        }
    }
}

/// Drawing a part of a gradient asks only for tasks that draw one run of its stops each.
pub proof fn emitting_asks_for_runs(a: EmitArgs, run: GradientRunModel)
    ensures
        emit(a, run).only_asks(asks_for_runs(a, run.stops)),
{
    emit_from_asks_for_runs(a, run, 0);
}

/// Whether `list` are the stops of a gradient in the order in which they are drawn.
pub open spec fn written_out(
    g: GradientArgs,
    stops: Seq<GradientStopKey>,
    list: Seq<GradientStopKey>,
) -> bool {
    if g.reverse_stops {
        mirrors(stops, list)
    } else {
        list == stops
    }
}

/// Whether `all` are these stops, with the end colours repeated where the gradient is clamped.
pub open spec fn drawn_stops(list: Seq<GradientStopKey>, all: Seq<GradientStopKey>) -> bool {
    all == list || exists|span: GradientSpan| all == #[trigger] clamped_stops(span, list)
}

/// Whether a task draws a run of what is drawn of a gradient.
pub open spec fn draws_run_of(
    g: GradientArgs,
    stops: Seq<GradientStopKey>,
    key: GradientCacheKey,
    list: Seq<GradientStopKey>,
    all: Seq<GradientStopKey>,
    first: int,
    last: int,
) -> bool {
    written_out(g, stops, list) && drawn_stops(list, all) && draws_run(all, key, first, last)
}

/// That nothing is asked but arithmetic and tasks of the size for the gradient that draw runs of its
/// stops.
pub open spec fn gradient_asks_for_runs(g: GradientArgs, stops: Seq<GradientStopKey>) -> spec_fn(
    Request,
) -> bool {
    |q: Request|
        match q {
            Request::IsApproximately { a, b } => true,
            Request::Evaluate(_) => true,
            Request::GradientTask { size, key, is_opaque } => {
                &&& size == gradient_task_size(g, key.orientation)
                &&& is_opaque == g.is_opaque
                &&& exists|
                    list: Seq<GradientStopKey>,
                    all: Seq<GradientStopKey>,
                    first: int,
                    last: int,
                |
                    #[trigger]
                    draws_run_of(g, stops, key, list, all, first, last)
            },
            _ => false,
        }
}

/// What a part of the gradient asks for, the gradient asks for.
proof fn part_asks_for_runs(
    g: GradientArgs,
    stops: Seq<GradientStopKey>,
    list: Seq<GradientStopKey>,
    span: GradientSpan,
    start: Scalar,
    end: Scalar,
    base: Scalar,
    run: GradientRunModel,
)
    requires
        written_out(g, stops, list),
        drawn_stops(list, run.stops),
    ensures
        emit(emit_args(g, span, start, end, base), run).only_asks(
            gradient_asks_for_runs(g, stops),
        ),
{
    let a = emit_args(g, span, start, end, base);
    let strong = asks_for_runs(a, run.stops);
    let weak = gradient_asks_for_runs(g, stops);
    emitting_asks_for_runs(a, run);
    assert forall|q: Request| #[trigger] strong(q) implies weak(q) by {
        if let Request::GradientTask { size, key, is_opaque } = q {
            let (first, last) = choose|first: int, last: int| #[trigger]
                draws_run(run.stops, key, first, last);
            assert(draws_run_of(g, stops, key, list, run.stops, first, last));
        }
    }
    only_asks_weaker(emit(a, run), strong, weak);
}

proof fn part_keeps_stops(a: EmitArgs, run: GradientRunModel)
    ensures
        emit(a, run).always(stops_are(run.stops)),
{
    emitting_adds_between_stops(a, run);
    always_weaker(
        emit(a, run),
        segments_emitted(run, segments_left(run, 0)),
        stops_are(run.stops),
    );
}

proof fn repeating_asks_for_runs(
    g: GradientArgs,
    stops: Seq<GradientStopKey>,
    span: GradientSpan,
    run: GradientRunModel,
    start: Scalar,
)
    requires
        written_out(g, stops, run.stops),
    ensures
        repeat_from(g, span, run, start).only_asks(gradient_asks_for_runs(g, stops)),
    decreases offsets_left(span, start),
{
    let ok = gradient_asks_for_runs(g, stops);
    if start.less(span.prim_end_offset) {
        assert forall|run: GradientRunModel, base: Scalar, to: Scalar|
            written_out(g, stops, run.stops) implies (#[trigger] repeat_advance(
            g,
            span,
            run,
            start,
            base,
            to,
        )).only_asks(ok) by {
            let k = repeat_advance(g, span, run, start, base, to)->Call_1;
            assert forall|r: Reply| (#[trigger] k(r)).only_asks(ok) by {
                if let Reply::Number(next) = r {
                    assert(k(r) == repeat_again(g, span, run, start, next));
                    if next.less(span.prim_end_offset) && start.less(next) {
                        assert(k(r) == repeat_from(g, span, run, next));
                        repeating_asks_for_runs(g, stops, span, run, next);
                    }
                }
            }
        }
        assert forall|base: Scalar, from: Scalar, next: Scalar|
            (#[trigger] repeat_end(g, span, run, start, base, from, next)).only_asks(ok) by {
            let k = repeat_end(g, span, run, start, base, from, next)->Call_1;
            assert forall|r: Reply| (#[trigger] k(r)).only_asks(ok) by {
                if let Reply::Number(to) = r {
                    let a = emit_args(g, span, from, to, base);
                    assert(k(r) == repeat_emitted(g, span, start, base, to, emit(a, run)));
                    part_asks_for_runs(g, stops, run.stops, span, from, to, base, run);
                    part_keeps_stops(a, run);
                    emitted_asks_for_runs(
                        g,
                        stops,
                        span,
                        run.stops,
                        start,
                        base,
                        to,
                        emit(a, run),
                    );
                }
            }
        }
        assert forall|base: Scalar, from: Scalar|
            (#[trigger] repeat_next(g, span, run, start, base, from)).only_asks(ok) by {
            let k = repeat_next(g, span, run, start, base, from)->Call_1;
            assert forall|r: Reply| (#[trigger] k(r)).only_asks(ok) by {
                if let Reply::Number(next) = r {
                    assert(k(r) == repeat_end(g, span, run, start, base, from, next));
                }
            }
        }
        assert forall|base: Scalar|
            (#[trigger] repeat_start(g, span, run, start, base)).only_asks(ok) by {
            let k = repeat_start(g, span, run, start, base)->Call_1;
            assert forall|r: Reply| (#[trigger] k(r)).only_asks(ok) by {
                if let Reply::Number(from) = r {
                    assert(k(r) == repeat_next(g, span, run, start, base, from));
                }
            }
        }
        let k = repeat_from(g, span, run, start)->Call_1;
        assert forall|r: Reply| (#[trigger] k(r)).only_asks(ok) by {
            if let Reply::Number(base) = r {
                assert(k(r) == repeat_start(g, span, run, start, base));
            }
        }
    }
}

proof fn emitted_asks_for_runs(
    g: GradientArgs,
    stops: Seq<GradientStopKey>,
    span: GradientSpan,
    list: Seq<GradientStopKey>,
    start: Scalar,
    base: Scalar,
    to: Scalar,
    p: Program<GradientRunModel>,
)
    requires
        written_out(g, stops, list),
        p.always(stops_are(list)),
        p.only_asks(gradient_asks_for_runs(g, stops)),
        forall|run: GradientRunModel|
            written_out(g, stops, run.stops) ==> (#[trigger] repeat_advance(
                g,
                span,
                run,
                start,
                base,
                to,
            )).only_asks(gradient_asks_for_runs(g, stops)),
    ensures
        repeat_emitted(g, span, start, base, to, p).only_asks(gradient_asks_for_runs(g, stops)),
    decreases p,
{
    let ok = gradient_asks_for_runs(g, stops);
    let whole = repeat_emitted(g, span, start, base, to, p);
    match p {
        Program::Return(run) => {
            assert(stops_are(list)(run));
            assert(whole == repeat_advance(g, span, run, start, base, to));
        },
        Program::Fail(_) => {},
        Program::Call(q, k) => {
            let after = whole->Call_1;
            assert forall|r: Reply| (#[trigger] after(r)).only_asks(ok) by {
                assert(k(r).always(stops_are(list)));
                assert(k(r).only_asks(ok));
                assert(after(r) == repeat_emitted(g, span, start, base, to, k(r)));
                emitted_asks_for_runs(g, stops, span, list, start, base, to, k(r));
            }
        },
    }
}

proof fn extended_asks_for_runs(
    g: GradientArgs,
    stops: Seq<GradientStopKey>,
    span: GradientSpan,
    list: Seq<GradientStopKey>,
)
    requires
        written_out(g, stops, list),
    ensures
        cache_extended(g, span, list).only_asks(gradient_asks_for_runs(g, stops)),
{
    let ok = gradient_asks_for_runs(g, stops);
    let none = Seq::<CachedGradientSegment>::empty();
    if !drawn_once(g, span) {
        let run = GradientRunModel { stops: list, segments: none };
        repeating_asks_for_runs(g, stops, span, run, span.prim_start_offset);
    } else if list.len() > 0 {
        let start = span.prim_start_offset;
        let end = span.prim_end_offset;
        let zero = Scalar { bits: ZERO };
        let a = emit_args(g, span, start, end, zero);
        let run = GradientRunModel { stops: clamped_stops(span, list), segments: none };
        let f = |run: GradientRunModel| Program::Return(run.segments);
        part_asks_for_runs(g, stops, list, span, start, end, zero, run);
        part_keeps_stops(a, run);
        only_asks_of_bind(emit(a, run), f, stops_are(run.stops), ok);
        assert(cache_extended(g, span, list) == cached(emit(a, run)));
    }
}

proof fn reversing_asks_for_runs(
    g: GradientArgs,
    span: GradientSpan,
    stops: Seq<GradientStopKey>,
    reversed: Seq<GradientStopKey>,
)
    requires
        g.reverse_stops,
        reversed.len() <= stops.len(),
        forall|k: int|
            0 <= k < reversed.len() ==> (#[trigger] reversed[k]).color == stops[stops.len() - 1
                - k].color,
    ensures
        reverse_from(g, span, stops, reversed).only_asks(gradient_asks_for_runs(g, stops)),
    decreases stops.len() - reversed.len(),
{
    let ok = gradient_asks_for_runs(g, stops);
    if reversed.len() < stops.len() {
        let source = stops[stops.len() - 1 - reversed.len()];
        let k = reverse_from(g, span, stops, reversed)->Call_1;
        assert forall|r: Reply| (#[trigger] k(r)).only_asks(ok) by {
            if let Reply::Number(offset) = r {
                let more = reversed.push(GradientStopKey { offset, color: source.color });
                assert(k(r) == reverse_from(g, span, stops, more));
                reversing_asks_for_runs(g, span, stops, more);
            }
        }
    } else {
        extended_asks_for_runs(g, stops, span, reversed);
    }
}

/// Caching a linear gradient asks only for tasks that draw one run of its stops each: of the stops
/// as they are or written backwards, with the end colours repeated where the gradient is clamped.
pub proof fn caching_asks_for_runs(g: GradientArgs, stops: Seq<GradientStopKey>)
    ensures
        cache_gradient(g, stops).only_asks(gradient_asks_for_runs(g, stops)),
{
    let ok = gradient_asks_for_runs(g, stops);
    assert forall|span: GradientSpan| (#[trigger] cache_stops(g, stops, span)).only_asks(ok) by {
        if g.reverse_stops {
            reversing_asks_for_runs(g, span, stops, Seq::empty());
        } else {
            extended_asks_for_runs(g, stops, span, stops);
        }
    }
    assert forall|orientation: LineOrientation, start: Scalar|
        (#[trigger] cache_end(g, stops, orientation, start)).only_asks(ok) by {
        let k = cache_end(g, stops, orientation, start)->Call_1;
        assert forall|r: Reply| (#[trigger] k(r)).only_asks(ok) by {}
    }
    assert forall|orientation: LineOrientation|
        (#[trigger] cache_start(g, stops, orientation)).only_asks(ok) by {
        let k = cache_start(g, stops, orientation)->Call_1;
        assert forall|r: Reply| (#[trigger] k(r)).only_asks(ok) by {}
    }
    let k = cache_gradient(g, stops)->Call_1;
    assert forall|r: Reply| (#[trigger] k(r)).only_asks(ok) by {}
}

} // verus!
