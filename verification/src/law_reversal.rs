//! What a gradient with reversed stops caches.
use vstd::prelude::*;

use crate::geometry::{minus, value};
use crate::gradient::{emit, GradientRunModel};
use crate::gradient_cache::{
    cache_end, cache_extended, cache_gradient, cache_start, cache_stops, drawn_once, emit_args,
    offsets_left, orientation_of, repeat_advance, repeat_again, repeat_emitted, repeat_end,
    repeat_from, repeat_next, repeat_start, reverse_from, GradientArgs, GradientSpan,
};
use crate::interned::interned_scaled;
use crate::model::{
    CachedGradientSegment, GradientStopKey, LinearGradientTemplate, PrimPlace,
    PrimitiveInstanceKind, WorkModel,
};
use crate::prim_gradient::{
    linear_args, linear_cache, linear_cached, linear_gradient, linear_segmented, linear_spaced,
    linear_stretched, linear_tiling, stretches_over, with_cache_segments, GradientTiling,
};
use crate::program::{
    answered_in_parts, answered_inside_bind, answered_once, Program, Reply, Request,
};
use crate::scalar::{Scalar, ONE};

verus! {

/// Whether `mirrored` has the colours of `stops`, written backwards.
pub open spec fn mirrors(stops: Seq<GradientStopKey>, mirrored: Seq<GradientStopKey>) -> bool {
    &&& mirrored.len() == stops.len()
    &&& forall|k: int|
        0 <= k < stops.len() ==> (#[trigger] mirrored[k]).color == stops[stops.len() - 1
            - k].color
}

/// The replies that give the first `n` stops of a list their offsets.
pub open spec fn offset_replies(mirrored: Seq<GradientStopKey>, n: int) -> Seq<Reply> {
    Seq::new(n as nat, |k: int| Reply::Number(mirrored[k].offset))
}

proof fn reversing_goes_on(
    g: GradientArgs,
    span: GradientSpan,
    stops: Seq<GradientStopKey>,
    mirrored: Seq<GradientStopKey>,
    n: int,
)
    requires
        mirrors(stops, mirrored),
        0 <= n <= stops.len(),
    ensures
        reverse_from(g, span, stops, Seq::empty()).answered(offset_replies(mirrored, n))
            == reverse_from(g, span, stops, mirrored.subrange(0, n)),
    decreases n,
{
    let start = reverse_from(g, span, stops, Seq::empty());
    if n == 0 {
        assert(mirrored.subrange(0, 0) =~= Seq::<GradientStopKey>::empty());
        assert(offset_replies(mirrored, 0).len() == 0);
    } else {
        let m = n - 1;
        let before = mirrored.subrange(0, m);
        let p = reverse_from(g, span, stops, before);
        let last = Reply::Number(mirrored[m].offset);
        reversing_goes_on(g, span, stops, mirrored, m);
        assert(offset_replies(mirrored, n) =~= offset_replies(mirrored, m) + seq![last]);
        answered_in_parts(start, offset_replies(mirrored, m), seq![last]);
        answered_once(p, last);
        let source = stops[stops.len() - 1 - m];
        let more = before.push(
            GradientStopKey { offset: mirrored[m].offset, color: source.color },
        );
        let k = p->Call_1;
        assert(k(last) == reverse_from(g, span, stops, more));
        assert(mirrored[m].color == source.color);
        assert(more =~= mirrored.subrange(0, n));
    }
}

/// Reversing asks for one minus the offset of each stop, from the last to the first. Where each
/// reply is the offset of the list written backwards, the gradient goes on with that list.
pub proof fn reversing_writes_the_stops_backwards(
    g: GradientArgs,
    span: GradientSpan,
    stops: Seq<GradientStopKey>,
    mirrored: Seq<GradientStopKey>,
)
    requires
        g.reverse_stops,
        mirrors(stops, mirrored),
    ensures
        cache_stops(g, stops, span).answered(offset_replies(mirrored, stops.len() as int))
            == cache_extended(g, span, mirrored),
        forall|n: int|
            0 <= n < stops.len() ==> {
                let p = #[trigger] cache_stops(g, stops, span).answered(
                    offset_replies(mirrored, n),
                );
                p is Call && p->Call_0 == Request::Evaluate(
                    minus(
                        value(Scalar { bits: ONE }),
                        value(stops[stops.len() - 1 - n].offset),
                    ),
                )
            },
{
    let count = stops.len() as int;
    assert(cache_stops(g, stops, span) == reverse_from(g, span, stops, Seq::empty()));
    reversing_goes_on(g, span, stops, mirrored, count);
    assert(mirrored.subrange(0, count) =~= mirrored);
    assert forall|n: int| 0 <= n < stops.len() implies {
        let p = #[trigger] cache_stops(g, stops, span).answered(offset_replies(mirrored, n));
        p is Call && p->Call_0 == Request::Evaluate(
            minus(value(Scalar { bits: ONE }), value(stops[stops.len() - 1 - n].offset)),
        )
    } by {
        reversing_goes_on(g, span, stops, mirrored, n);
    }
}

/// The gradient with its stops in the order in which they are drawn.
pub open spec fn in_order(g: GradientArgs) -> GradientArgs {
    GradientArgs { reverse_stops: false, ..g }
}

proof fn emitted_alike(
    g: GradientArgs,
    span: GradientSpan,
    start: Scalar,
    base: Scalar,
    to: Scalar,
    p: Program<GradientRunModel>,
)
    requires
        forall|run: GradientRunModel| #[trigger]
            repeat_advance(g, span, run, start, base, to) == repeat_advance(
                in_order(g),
                span,
                run,
                start,
                base,
                to,
            ),
    ensures
        repeat_emitted(g, span, start, base, to, p) == repeat_emitted(
            in_order(g),
            span,
            start,
            base,
            to,
            p,
        ),
    decreases p,
{
    let h = in_order(g);
    let a = repeat_emitted(g, span, start, base, to, p);
    let b = repeat_emitted(h, span, start, base, to, p);
    match p {
        Program::Return(run) => {
            assert(a == repeat_advance(g, span, run, start, base, to));
            assert(b == repeat_advance(h, span, run, start, base, to));
        },
        Program::Fail(fault) => {
            assert(a == Program::<Seq<CachedGradientSegment>>::Fail(fault));
            assert(b == Program::<Seq<CachedGradientSegment>>::Fail(fault));
        },
        Program::Call(q, k) => {
            let ka = a->Call_1;
            let kb = b->Call_1;
            assert forall|r: Reply| #[trigger] ka(r) == kb(r) by {
                assert(ka(r) == repeat_emitted(g, span, start, base, to, k(r)));
                assert(kb(r) == repeat_emitted(h, span, start, base, to, k(r)));
                emitted_alike(g, span, start, base, to, k(r));
            }
            assert(ka =~= kb);
        },
    }
}

proof fn repeated_alike(
    g: GradientArgs,
    span: GradientSpan,
    run: GradientRunModel,
    start: Scalar,
)
    ensures
        repeat_from(g, span, run, start) == repeat_from(in_order(g), span, run, start),
    decreases offsets_left(span, start),
{
    let h = in_order(g);
    if start.less(span.prim_end_offset) {
        assert forall|run: GradientRunModel, base: Scalar, to: Scalar| #[trigger]
            repeat_advance(g, span, run, start, base, to) == repeat_advance(
                h,
                span,
                run,
                start,
                base,
                to,
            ) by {
            let ka = repeat_advance(g, span, run, start, base, to)->Call_1;
            let kb = repeat_advance(h, span, run, start, base, to)->Call_1;
            assert forall|r: Reply| #[trigger] ka(r) == kb(r) by {
                if let Reply::Number(next) = r {
                    assert(ka(r) == repeat_again(g, span, run, start, next));
                    assert(kb(r) == repeat_again(h, span, run, start, next));
                    if next.less(span.prim_end_offset) && start.less(next) {
                        assert(ka(r) == repeat_from(g, span, run, next));
                        assert(kb(r) == repeat_from(h, span, run, next));
                        repeated_alike(g, span, run, next);
                    }
                }
            }
            assert(ka =~= kb);
        }
        assert forall|base: Scalar, from: Scalar, next: Scalar| #[trigger]
            repeat_end(g, span, run, start, base, from, next) == repeat_end(
                h,
                span,
                run,
                start,
                base,
                from,
                next,
            ) by {
            let ka = repeat_end(g, span, run, start, base, from, next)->Call_1;
            let kb = repeat_end(h, span, run, start, base, from, next)->Call_1;
            assert forall|r: Reply| #[trigger] ka(r) == kb(r) by {
                if let Reply::Number(to) = r {
                    let a = emit_args(g, span, from, to, base);
                    assert(a == emit_args(h, span, from, to, base));
                    assert(ka(r) == repeat_emitted(g, span, start, base, to, emit(a, run)));
                    assert(kb(r) == repeat_emitted(h, span, start, base, to, emit(a, run)));
                    emitted_alike(g, span, start, base, to, emit(a, run));
                }
            }
            assert(ka =~= kb);
        }
        assert forall|base: Scalar, from: Scalar| #[trigger]
            repeat_next(g, span, run, start, base, from) == repeat_next(
                h,
                span,
                run,
                start,
                base,
                from,
            ) by {
            let ka = repeat_next(g, span, run, start, base, from)->Call_1;
            let kb = repeat_next(h, span, run, start, base, from)->Call_1;
            assert forall|r: Reply| #[trigger] ka(r) == kb(r) by {
                if let Reply::Number(next) = r {
                    assert(ka(r) == repeat_end(g, span, run, start, base, from, next));
                    assert(kb(r) == repeat_end(h, span, run, start, base, from, next));
                }
            }
            assert(ka =~= kb);
        }
        assert forall|base: Scalar| #[trigger]
            repeat_start(g, span, run, start, base) == repeat_start(h, span, run, start, base) by {
            let ka = repeat_start(g, span, run, start, base)->Call_1;
            let kb = repeat_start(h, span, run, start, base)->Call_1;
            assert forall|r: Reply| #[trigger] ka(r) == kb(r) by {
                if let Reply::Number(from) = r {
                    assert(ka(r) == repeat_next(g, span, run, start, base, from));
                    assert(kb(r) == repeat_next(h, span, run, start, base, from));
                }
            }
            assert(ka =~= kb);
        }
        let ka = repeat_from(g, span, run, start)->Call_1;
        let kb = repeat_from(h, span, run, start)->Call_1;
        assert forall|r: Reply| #[trigger] ka(r) == kb(r) by {
            if let Reply::Number(base) = r {
                assert(ka(r) == repeat_start(g, span, run, start, base));
                assert(kb(r) == repeat_start(h, span, run, start, base));
            }
        }
        assert(ka =~= kb);
    }
}

proof fn extended_alike(g: GradientArgs, span: GradientSpan, stops: Seq<GradientStopKey>)
    ensures
        cache_extended(g, span, stops) == cache_extended(in_order(g), span, stops),
{
    if !drawn_once(g, span) {
        let run = GradientRunModel { stops, segments: Seq::empty() };
        repeated_alike(g, span, run, span.prim_start_offset);
    }
}

/// The replies up to the range of offsets that the primitive covers.
pub open spec fn span_replies(vertical: bool, start: Scalar, end: Scalar) -> Seq<Reply> {
    seq![Reply::Flag(vertical), Reply::Number(start), Reply::Number(end)]
}

proof fn span_found(
    g: GradientArgs,
    stops: Seq<GradientStopKey>,
    vertical: bool,
    start: Scalar,
    end: Scalar,
)
    ensures
        cache_gradient(g, stops).answered(span_replies(vertical, start, end)) == cache_stops(
            g,
            stops,
            GradientSpan {
                orientation: orientation_of(vertical),
                prim_start_offset: start,
                prim_end_offset: end,
            },
        ),
{
    let orientation = orientation_of(vertical);
    let p = cache_gradient(g, stops);
    let flag = Reply::Flag(vertical);
    let first = Reply::Number(start);
    let second = Reply::Number(end);
    assert(span_replies(vertical, start, end) =~= seq![flag] + (seq![first] + seq![second]));
    answered_in_parts(p, seq![flag], seq![first] + seq![second]);
    answered_once(p, flag);
    let q = cache_start(g, stops, orientation);
    assert((p->Call_1)(flag) == q);
    answered_in_parts(q, seq![first], seq![second]);
    answered_once(q, first);
    let l = cache_end(g, stops, orientation, start);
    assert((q->Call_1)(first) == l);
    answered_once(l, second);
}

/// A gradient with reversed stops caches what the list of stops written backwards would: once the
/// offsets of that list are found, the two gradients have the same requests left and the same
/// results, whatever the renderer replies.
pub proof fn reversed_gradient_is_the_mirrored_one(
    g: GradientArgs,
    stops: Seq<GradientStopKey>,
    mirrored: Seq<GradientStopKey>,
    vertical: bool,
    start: Scalar,
    end: Scalar,
)
    requires
        g.reverse_stops,
        mirrors(stops, mirrored),
    ensures
        cache_gradient(g, stops).answered(
            span_replies(vertical, start, end) + offset_replies(mirrored, stops.len() as int),
        ) == cache_gradient(in_order(g), mirrored).answered(span_replies(vertical, start, end)),
{
    let span = GradientSpan {
        orientation: orientation_of(vertical),
        prim_start_offset: start,
        prim_end_offset: end,
    };
    let replies = offset_replies(mirrored, stops.len() as int);
    answered_in_parts(cache_gradient(g, stops), span_replies(vertical, start, end), replies);
    span_found(g, stops, vertical, start, end);
    span_found(in_order(g), mirrored, vertical, start, end);
    reversing_writes_the_stops_backwards(g, span, stops, mirrored);
    extended_alike(g, span, mirrored);
}

/// The gradient keeps asking until the offsets are found.
proof fn reversing_keeps_asking(
    g: GradientArgs,
    stops: Seq<GradientStopKey>,
    mirrored: Seq<GradientStopKey>,
    vertical: bool,
    start: Scalar,
    end: Scalar,
    n: int,
)
    requires
        g.reverse_stops,
        mirrors(stops, mirrored),
        0 <= n < 3 + stops.len(),
    ensures
        cache_gradient(g, stops).answered(
            (span_replies(vertical, start, end) + offset_replies(
                mirrored,
                stops.len() as int,
            )).subrange(0, n),
        ) is Call,
{
    let span = GradientSpan {
        orientation: orientation_of(vertical),
        prim_start_offset: start,
        prim_end_offset: end,
    };
    let p = cache_gradient(g, stops);
    let lead = span_replies(vertical, start, end);
    let all = lead + offset_replies(mirrored, stops.len() as int);
    if n < 3 {
        spans_are_asked_for(g, stops, vertical, start, end, n);
        assert(all.subrange(0, n) =~= lead.subrange(0, n));
    } else {
        assert(all.subrange(0, n) =~= lead + offset_replies(mirrored, n - 3));
        answered_in_parts(p, lead, offset_replies(mirrored, n - 3));
        span_found(g, stops, vertical, start, end);
        reversing_writes_the_stops_backwards(g, span, stops, mirrored);
        assert(cache_stops(g, stops, span).answered(offset_replies(mirrored, n - 3)) is Call);
    }
}

proof fn spans_are_asked_for(
    g: GradientArgs,
    stops: Seq<GradientStopKey>,
    vertical: bool,
    start: Scalar,
    end: Scalar,
    n: int,
)
    requires
        0 <= n < 3,
    ensures
        cache_gradient(g, stops).answered(
            span_replies(vertical, start, end).subrange(0, n),
        ) is Call,
{
    let p = cache_gradient(g, stops);
    let lead = span_replies(vertical, start, end);
    let orientation = orientation_of(vertical);
    let q = cache_start(g, stops, orientation);
    answered_once(p, lead[0]);
    assert((p->Call_1)(lead[0]) == q);
    answered_once(q, lead[1]);
    if n == 1 {
        assert(lead.subrange(0, 1) =~= seq![lead[0]]);
    } else if n == 2 {
        assert(lead.subrange(0, 2) =~= seq![lead[0]] + seq![lead[1]]);
        answered_in_parts(p, seq![lead[0]], seq![lead[1]]);
        assert((q->Call_1)(lead[1]) == cache_end(g, stops, orientation, start));
    }
}

/// Whether `b` is the gradient `a`, which has its stops reversed, with the stops written backwards
/// instead.
pub open spec fn mirrored_template(a: LinearGradientTemplate, b: LinearGradientTemplate) -> bool {
    &&& a.reverse_stops
    &&& mirrors(a.stops@, b.stops@)
    &&& b == (LinearGradientTemplate { reverse_stops: false, stops: b.stops, ..a })
}

/// The replies before a linear gradient looks at its stops.
pub open spec fn leading_replies(tiling: GradientTiling) -> Seq<Reply> {
    if stretches_over(tiling) {
        seq![Reply::Ack, Reply::Ack]
    } else {
        seq![Reply::Ack]
    }
}

proof fn leading_replies_lead_to_caching(
    w: WorkModel,
    tiling: GradientTiling,
    cache: Option<(GradientArgs, Seq<GradientStopKey>)>,
)
    ensures
        linear_gradient(w, tiling, cache).answered(leading_replies(tiling)) == linear_cached(
            w,
            tiling,
            cache,
        ),
{
    let p = linear_gradient(w, tiling, cache);
    let q = linear_stretched(w, tiling, cache);
    answered_once(p, Reply::Ack);
    assert((p->Call_1)(Reply::Ack) == q);
    if stretches_over(tiling) {
        assert(leading_replies(tiling) =~= seq![Reply::Ack] + seq![Reply::Ack]);
        answered_in_parts(p, seq![Reply::Ack], seq![Reply::Ack]);
        answered_once(q, Reply::Ack);
    }
}

/// Preparing a linear gradient with reversed stops comes to the same as preparing the one with the
/// stops written backwards: the same tasks for the same keys at the same places, and the same
/// primitive, but for the template that it keeps.
pub proof fn reversed_primitive_is_prepared_as_the_mirrored_one(
    w: WorkModel,
    place: PrimPlace,
    scale: Scalar,
    a: LinearGradientTemplate,
    b: LinearGradientTemplate,
    vertical: bool,
    start: Scalar,
    end: Scalar,
)
    requires
        w.instance.kind == PrimitiveInstanceKind::LinearGradient(a),
        a.supports_caching,
        mirrored_template(a, b),
    ensures
        ({
            let tiling = linear_tiling(b, place.prim_spatial_node_index);
            let lead = leading_replies(tiling) + span_replies(vertical, start, end);
            interned_scaled(w, place, scale).answered(
                lead + offset_replies(b.stops@, b.stops@.len() as int),
            ) == linear_gradient(w, tiling, linear_cache(b, place.limits)).answered(lead)
        }),
{
    let tiling = linear_tiling(b, place.prim_spatial_node_index);
    let g = linear_args(a, place.limits);
    let h = linear_args(b, place.limits);
    let stops = a.stops@;
    let mirrored = b.stops@;
    let spans = span_replies(vertical, start, end);
    let offsets = offset_replies(mirrored, mirrored.len() as int);
    let lead = leading_replies(tiling);
    let p = linear_gradient(w, tiling, Some((g, stops)));
    let q = linear_gradient(w, tiling, Some((h, mirrored)));
    assert(h == in_order(g));
    assert(interned_scaled(w, place, scale) == p);
    leading_replies_lead_to_caching(w, tiling, Some((g, stops)));
    leading_replies_lead_to_caching(w, tiling, Some((h, mirrored)));
    assert(lead + spans + offsets =~= lead + (spans + offsets));
    answered_in_parts(p, lead, spans + offsets);
    answered_in_parts(q, lead, spans);
    let f = |segments: Seq<CachedGradientSegment>|
        linear_spaced(with_cache_segments(w, segments), tiling);
    let inner = cache_gradient(g, stops);
    let other = cache_gradient(h, mirrored);
    assert(linear_cached(w, tiling, Some((g, stops))) == linear_segmented(w, tiling, inner));
    assert(linear_cached(w, tiling, Some((h, mirrored))) == linear_segmented(w, tiling, other));
    assert forall|i: int| 0 <= i < (spans + offsets).len() implies (
    #[trigger] inner.answered((spans + offsets).subrange(0, i))) is Call by {
        reversing_keeps_asking(g, stops, mirrored, vertical, start, end, i);
    }
    assert forall|i: int| 0 <= i < spans.len() implies (
    #[trigger] other.answered(spans.subrange(0, i))) is Call by {
        spans_are_asked_for(h, mirrored, vertical, start, end, i);
    }
    answered_inside_bind(inner, f, spans + offsets);
    answered_inside_bind(other, f, spans);
    reversed_gradient_is_the_mirrored_one(g, stops, mirrored, vertical, start, end);
}

} // verus!
