//! How the preparation of a primitive can fail, and what it leaves to the pass.
use vstd::prelude::*;

use crate::faults_clip::{plain_after, segments_written_plain};
use crate::geometry::{IntSize, Point, Rect, Size};
use crate::gradient::{
    emit, emit_area, emit_extent, emit_from, emit_origin, emit_task, placed_rect, segment_key,
    stop_run, stop_run_bounds, with_segment, EmitArgs, GradientRunModel,
};
use crate::gradient_cache::{
    cache_end, cache_extended, cache_gradient, cache_start, cache_stops, cached, clamped_stops,
    drawn_once, emit_args, offsets_left, repeat_advance, repeat_again, repeat_emitted, repeat_end,
    repeat_from, repeat_next, repeat_start, reverse_from, GradientArgs, GradientSpan,
};
use crate::interned::{interned, interned_scaled};
use crate::law_gradient::{emitting_adds_between_stops, segments_emitted, segments_left};
use crate::model::{
    BorderSegment, CachedGradientSegment, GpuCacheHandle, GradientStopKey,
    LineDecorationCacheKey, LineOrientation, PictureIndex, PrimPlace, PrimitiveInstanceKind,
    ScratchModel, SpatialNodeIndex, SurfaceIndex, TaskId, Token, WorkModel,
};
use crate::prim_border::{
    border, border_factors, border_from, border_height, border_limit, border_repeats,
    border_sized, border_updated, border_width, border_world,
};
use crate::prim_brush::{
    brush, brush_invalidated, brush_plan, brush_segmented, brush_updated, BrushPlan,
};
use crate::prim_gradient::{
    conic_tiling, gradient_tiled, linear_cache, linear_cached, linear_gradient, linear_mapped,
    linear_segmented, linear_spaced, linear_stretched, linear_tiling, radial_tiling,
    round_gradient, round_mapped, round_spaced, round_updated, stretches_over, tile_args,
    with_cache_segments, with_tiles, GradientTiling,
};
use crate::prim_picture::{
    backdrop, backdrop_linked, backdrop_port, backdrop_tasks, picture, picture_drawn,
    picture_plane, picture_segments, picture_split, picture_written,
};
use crate::prim_text::{
    line, line_keyed, line_shrunk, line_sized, line_task, text, text_glyphs, text_scaling,
    text_space, text_transform, text_updated, text_x, text_y, TextArgs,
};
use crate::program::{
    always_weaker, GradientCacheKey, Program, Reply, SurfaceTasks,
};
use crate::scalar::{Scalar, ZERO};
use crate::segment_write::SegmentSource;
use crate::tiles::{
    decompose, decompose_repeated, decompose_seen, decompose_stride_height, decompose_stride_width,
    tile_done, tile_finished, tile_granted, tile_packed, tile_written, tiles_from, with_tile,
    TileArgs, TileRunModel, TiledModel,
};

verus! {

proof fn line_plain(w: WorkModel, key: Option<LineDecorationCacheKey>, scale: Scalar, limit: i32)
    ensures
        line(w, key, scale, limit).plain(true),
{
    assert forall|key: LineDecorationCacheKey, size: IntSize|
        (#[trigger] line_task(w, key, size)).plain(true) by {
        let p = line_task(w, key, size);
        if p is Call {
            let k = p->Call_1;
            assert forall|r: Reply| (#[trigger] k(r)).plain(true) by {}
        }
    }
    assert forall|key: LineDecorationCacheKey, shrink: Scalar|
        (#[trigger] line_shrunk(w, key, scale, shrink)).plain(true) by {
        let p = line_shrunk(w, key, scale, shrink);
        if p is Call {
            let k = p->Call_1;
            assert forall|r: Reply| (#[trigger] k(r)).plain(true) by {}
        }
    }
    assert forall|key: LineDecorationCacheKey, size: IntSize|
        (#[trigger] line_sized(w, key, scale, limit, size)).plain(true) by {
        let p = line_sized(w, key, scale, limit, size);
        if p is Call {
            let k = p->Call_1;
            assert forall|r: Reply| (#[trigger] k(r)).plain(true) by {}
        }
    }
    assert(line_keyed(w, key, scale, limit).plain(true)) by {
        let p = line_keyed(w, key, scale, limit);
        if p is Call {
            let k = p->Call_1;
            assert forall|r: Reply| (#[trigger] k(r)).plain(true) by {}
        }
    }
    assert(line(w, key, scale, limit).plain(true)) by {
        let p = line(w, key, scale, limit);
        if p is Call {
            let k = p->Call_1;
            assert forall|r: Reply| (#[trigger] k(r)).plain(true) by {}
        }
    }
}

proof fn text_plain(w: WorkModel, a: TextArgs)
    ensures
        text(w, a).plain(true),
{
    assert(text_updated(w).plain(true)) by {
        let p = text_updated(w);
        if p is Call {
            let k = p->Call_1;
            assert forall|r: Reply| (#[trigger] k(r)).plain(true) by {}
        }
    }
    assert forall|t: Token, offset: Point, space: Token, factor: Option<Scalar>|
        (#[trigger] text_glyphs(w, a, t, offset, space, factor)).plain(true) by {
        let p = text_glyphs(w, a, t, offset, space, factor);
        if p is Call {
            let k = p->Call_1;
            assert forall|r: Reply| (#[trigger] k(r)).plain(true) by {}
        }
    }
    assert forall|t: Token, offset: Point, space: Token|
        (#[trigger] text_scaling(w, a, t, offset, space)).plain(true) by {
        let p = text_scaling(w, a, t, offset, space);
        if p is Call {
            let k = p->Call_1;
            assert forall|r: Reply| (#[trigger] k(r)).plain(true) by {}
        }
    }
    assert forall|t: Token, offset: Point|
        (#[trigger] text_space(w, a, t, offset)).plain(true) by {
        let p = text_space(w, a, t, offset);
        if p is Call {
            let k = p->Call_1;
            assert forall|r: Reply| (#[trigger] k(r)).plain(true) by {}
        }
    }
    assert forall|t: Token, x: Scalar| (#[trigger] text_y(w, a, t, x)).plain(true) by {
        let p = text_y(w, a, t, x);
        if p is Call {
            let k = p->Call_1;
            assert forall|r: Reply| (#[trigger] k(r)).plain(true) by {}
        }
    }
    assert forall|t: Token| (#[trigger] text_x(w, a, t)).plain(true) by {
        let p = text_x(w, a, t);
        if p is Call {
            let k = p->Call_1;
            assert forall|r: Reply| (#[trigger] k(r)).plain(true) by {}
        }
    }
    assert(text_transform(w, a).plain(true)) by {
        let p = text_transform(w, a);
        if p is Call {
            let k = p->Call_1;
            assert forall|r: Reply| (#[trigger] k(r)).plain(true) by {}
        }
    }
    assert(text(w, a).plain(true)) by {
        let p = text(w, a);
        if p is Call {
            let k = p->Call_1;
            assert forall|r: Reply| (#[trigger] k(r)).plain(true) by {}
        }
    }
}

proof fn border_from_plain(
    w: WorkModel,
    segments: Seq<BorderSegment>,
    scale: Scalar,
    handles: Seq<u64>,
)
    ensures
        border_from(w, segments, scale, handles).plain(true),
    decreases segments.len() - handles.len(),
{
    if handles.len() < segments.len() {
        assert forall|size: IntSize, scale: Scalar|
            (#[trigger] border_sized(w, segments, handles, size, scale)).plain(true) by {
            let p = border_sized(w, segments, handles, size, scale);
            if p is Call {
                let k = p->Call_1;
                assert forall|r: Reply| (#[trigger] k(r)).plain(true) by {
                    if let Reply::TaskHandle(handle) = r {
                        assert(k(r) == border_from(w, segments, scale, handles.push(handle)));
                        border_from_plain(w, segments, scale, handles.push(handle));
                    }
                }
            }
        }
        assert(border_from(w, segments, scale, handles).plain(true)) by {
            let p = border_from(w, segments, scale, handles);
            if p is Call {
                let k = p->Call_1;
                assert forall|r: Reply| (#[trigger] k(r)).plain(true) by {
                    if let Reply::CacheSize { size, scale } = r {
                        assert(k(r) == border_sized(w, segments, handles, size, scale));
                    }
                }
            }
        }
    }
}

proof fn border_plain(
    w: WorkModel,
    segments: Seq<BorderSegment>,
    repeats: bool,
    node: SpatialNodeIndex,
    scale: Scalar,
)
    ensures
        border(w, segments, repeats, node, scale).plain(true),
{
    assert forall|scale: Scalar| (#[trigger] border_limit(w, segments, scale)).plain(true) by {
        let p = border_limit(w, segments, scale);
        if p is Call {
            let k = p->Call_1;
            assert forall|r: Reply| (#[trigger] k(r)).plain(true) by {
                if let Reply::Number(max_scale) = r {
                    border_from_plain(w, segments, scale.smaller(max_scale), Seq::empty());
                }
            }
        }
    }
    assert forall|world_scale: Scalar|
        (#[trigger] border_world(w, segments, scale, world_scale)).plain(true) by {
        let p = border_world(w, segments, scale, world_scale);
        if p is Call {
            let k = p->Call_1;
            assert forall|r: Reply| (#[trigger] k(r)).plain(true) by {}
        }
    }
    assert forall|y: Scalar, width: Scalar|
        (#[trigger] border_height(w, segments, scale, y, width)).plain(true) by {
        let p = border_height(w, segments, scale, y, width);
        if p is Call {
            let k = p->Call_1;
            assert forall|r: Reply| (#[trigger] k(r)).plain(true) by {}
        }
    }
    assert forall|x: Scalar, y: Scalar|
        (#[trigger] border_width(w, segments, scale, x, y)).plain(true) by {
        let p = border_width(w, segments, scale, x, y);
        if p is Call {
            let k = p->Call_1;
            assert forall|r: Reply| (#[trigger] k(r)).plain(true) by {}
        }
    }
    assert(border_factors(w, segments, node, scale).plain(true)) by {
        let p = border_factors(w, segments, node, scale);
        if p is Call {
            let k = p->Call_1;
            assert forall|r: Reply| (#[trigger] k(r)).plain(true) by {}
        }
    }
    assert(border_updated(w, segments, node, scale).plain(true)) by {
        let p = border_updated(w, segments, node, scale);
        if p is Call {
            let k = p->Call_1;
            assert forall|r: Reply| (#[trigger] k(r)).plain(true) by {}
        }
    }
    assert(border(w, segments, repeats, node, scale).plain(true)) by {
        let p = border(w, segments, repeats, node, scale);
        if p is Call {
            let k = p->Call_1;
            assert forall|r: Reply| (#[trigger] k(r)).plain(true) by {}
        }
    }
}

proof fn brush_plain(w: WorkModel, plan: BrushPlan)
    ensures
        brush(w, plan).plain(true),
{
    segments_written_plain(w, SegmentSource::Template(w.instance.id));
    assert(brush_segmented(w, plan).plain(true));
    assert(brush_updated(w, plan).plain(true)) by {
        let p = brush_updated(w, plan);
        if p is Call {
            let k = p->Call_1;
            assert forall|r: Reply| (#[trigger] k(r)).plain(true) by {}
        }
    }
    assert(brush_invalidated(w, plan).plain(true)) by {
        let p = brush_invalidated(w, plan);
        if plan.is_animated && p is Call {
            let k = p->Call_1;
            assert forall|r: Reply| (#[trigger] k(r)).plain(true) by {}
        }
    }
    if plan.forbids_repetition {
        let k = brush(w, plan)->Call_1;
        assert forall|r: Reply| (#[trigger] k(r)).plain(true) by {}
    }
}

proof fn picture_plain(w: WorkModel, pic_index: PictureIndex, place: PrimPlace)
    requires
        w.instance.visibility_info is Some,
    ensures
        picture(w, pic_index, place).plain(true),
{
    let info = w.instance.visibility_info->0;
    segments_written_plain(w, SegmentSource::Picture);
    assert forall|can: bool| (#[trigger] picture_written(w, can)).plain(true) by {}
    assert(picture_segments(w, pic_index).plain(true)) by {
        let p = picture_segments(w, pic_index);
        if p is Call {
            let k = p->Call_1;
            assert forall|r: Reply| (#[trigger] k(r)).plain(true) by {}
        }
    }
    assert forall|dirty: Rect|
        (#[trigger] picture_plane(w, pic_index, place, info, dirty)).plain(true) by {
        let p = picture_plane(w, pic_index, place, info, dirty);
        if p is Call {
            let k = p->Call_1;
            assert forall|r: Reply| (#[trigger] k(r)).plain(true) by {}
        }
    }
    assert forall|splits: bool|
        (#[trigger] picture_split(w, pic_index, place, info, splits)).plain(true) by {
        if splits {
            let k = picture_split(w, pic_index, place, info, splits)->Call_1;
            assert forall|r: Reply| (#[trigger] k(r)).plain(true) by {}
        }
    }
    assert forall|drawn: bool|
        (#[trigger] picture_drawn(w, pic_index, place, info, drawn)).plain(true) by {
        let p = picture_drawn(w, pic_index, place, info, drawn);
        if p is Call {
            let k = p->Call_1;
            assert forall|r: Reply| (#[trigger] k(r)).plain(true) by {}
        }
    }
    assert(picture(w, pic_index, place).plain(true)) by {
        let p = picture(w, pic_index, place);
        if p is Call {
            let k = p->Call_1;
            assert forall|r: Reply| (#[trigger] k(r)).plain(true) by {}
        }
    }
}

proof fn backdrop_plain(w: WorkModel, pic_index: PictureIndex, surface: SurfaceIndex)
    ensures
        backdrop(w, pic_index, surface).plain(true),
{
    assert forall|root: TaskId, port: TaskId|
        (#[trigger] backdrop_linked(w, root, port)).plain(true) by {
        let p = backdrop_linked(w, root, port);
        if p is Call {
            let k = p->Call_1;
            assert forall|r: Reply| (#[trigger] k(r)).plain(true) by {}
        }
    }
    assert forall|tasks: Option<SurfaceTasks>|
        (#[trigger] backdrop_port(w, surface, tasks)).plain(true) by {
        let p = backdrop_port(w, surface, tasks);
        if p is Call {
            let k = p->Call_1;
            assert forall|r: Reply| (#[trigger] k(r)).plain(true) by {}
        }
    }
    assert forall|behind: SurfaceIndex|
        (#[trigger] backdrop_tasks(w, surface, behind)).plain(true) by {
        let p = backdrop_tasks(w, surface, behind);
        if p is Call {
            let k = p->Call_1;
            assert forall|r: Reply| (#[trigger] k(r)).plain(true) by {}
        }
    }
    assert(backdrop(w, pic_index, surface).plain(true)) by {
        let p = backdrop(w, pic_index, surface);
        if p is Call {
            let k = p->Call_1;
            assert forall|r: Reply| (#[trigger] k(r)).plain(true) by {}
        }
    }
}

proof fn emit_from_plain(a: EmitArgs, run: GradientRunModel, first: int)
    ensures
        emit_from(a, run, first).plain(true),
    decreases run.stops.len() - first,
{
    if 0 <= first < run.stops.len() - 1 && !a.end_offset.less(run.stops[first].offset) {
        stop_run_bounds(run.stops, first, first);
        let stop = stop_run(run.stops, first, first);
        let next = stop.next();
        emit_from_plain(a, run, next);
        if run.stops[stop.last].offset.less(a.start_offset) {
            assert(emit_from(a, run, first) == emit_from(a, run, next));
        } else {
            assert forall|key: GradientCacheKey, rect: Rect, area: Scalar|
                (#[trigger] emit_task(a, run, next, key, rect, area)).plain(true) by {
                let p = emit_task(a, run, next, key, rect, area);
                if (Scalar { bits: ZERO }).less(area) {
                    let k = p->Call_1;
                    assert forall|r: Reply| (#[trigger] k(r)).plain(true) by {
                        if let Reply::TaskHandle(handle) = r {
                            let more = with_segment(
                                run,
                                CachedGradientSegment { handle, local_rect: rect },
                            );
                            assert(k(r) == emit_from(a, more, next));
                            emit_from_plain(a, more, next);
                        }
                    }
                } else {
                    assert(p == emit_from(a, run, next));
                }
            }
            assert forall|key: GradientCacheKey, rect: Rect|
                (#[trigger] emit_area(a, run, next, key, rect)).plain(true) by {
                let p = emit_area(a, run, next, key, rect);
                if p is Call {
                    let k = p->Call_1;
                    assert forall|r: Reply| (#[trigger] k(r)).plain(true) by {
                        if let Reply::Number(area) = r {
                            assert(k(r) == emit_task(a, run, next, key, rect, area));
                        }
                    }
                }
            }
            assert forall|key: GradientCacheKey, origin: Scalar|
                (#[trigger] emit_extent(a, run, next, key, origin)).plain(true) by {
                let p = emit_extent(a, run, next, key, origin);
                if p is Call {
                    let k = p->Call_1;
                    assert forall|r: Reply| (#[trigger] k(r)).plain(true) by {
                        if let Reply::Number(extent) = r {
                            let rect = placed_rect(a, origin, extent);
                            assert(k(r) == emit_area(a, run, next, key, rect));
                        }
                    }
                }
            }
            assert forall|key: GradientCacheKey|
                (#[trigger] emit_origin(a, run, next, key)).plain(true) by {
                let p = emit_origin(a, run, next, key);
                if p is Call {
                    let k = p->Call_1;
                    assert forall|r: Reply| (#[trigger] k(r)).plain(true) by {
                        if let Reply::Number(origin) = r {
                            assert(k(r) == emit_extent(a, run, next, key, origin));
                        }
                    }
                }
            }
            let key = segment_key(
                a.orientation,
                run.stops,
                first,
                stop.last,
                a.start_offset.larger(run.stops[first].offset),
                a.end_offset.smaller(run.stops[stop.last].offset),
            );
            assert(emit_from(a, run, first) == emit_origin(a, run, next, key));
        }
    }
}

/// That the stops are these.
pub open spec fn stops_are(stops: Seq<GradientStopKey>) -> spec_fn(GradientRunModel) -> bool {
    |o: GradientRunModel| o.stops == stops
}

proof fn repeat_plain(
    g: GradientArgs,
    span: GradientSpan,
    run: GradientRunModel,
    start: Scalar,
    sound: bool,
)
    requires
        sound ==> run.stops.len() > 0,
    ensures
        repeat_from(g, span, run, start).plain(sound),
    decreases offsets_left(span, start),
{
    if start.less(span.prim_end_offset) {
        assert forall|run: GradientRunModel, base: Scalar, to: Scalar|
            (sound ==> run.stops.len() > 0) implies (#[trigger] repeat_advance(
            g,
            span,
            run,
            start,
            base,
            to,
        )).plain(sound) by {
            let k = repeat_advance(g, span, run, start, base, to)->Call_1;
            assert forall|r: Reply| (#[trigger] k(r)).plain(sound) by {
                if let Reply::Number(next) = r {
                    assert(k(r) == repeat_again(g, span, run, start, next));
                    if next.less(span.prim_end_offset) && start.less(next) {
                        assert(repeat_again(g, span, run, start, next) == repeat_from(
                            g,
                            span,
                            run,
                            next,
                        ));
                        repeat_plain(g, span, run, next, sound);
                    }
                }
            }
        }
        assert forall|base: Scalar, from: Scalar, next: Scalar|
            (#[trigger] repeat_end(g, span, run, start, base, from, next)).plain(sound) by {
            let k = repeat_end(g, span, run, start, base, from, next)->Call_1;
            assert forall|r: Reply| (#[trigger] k(r)).plain(sound) by {
                if let Reply::Number(to) = r {
                    let a = emit_args(g, span, from, to, base);
                    let inner = emit(a, run);
                    assert(k(r) == repeat_emitted(g, span, start, base, to, inner));
                    emit_from_plain(a, run, 0);
                    emitting_adds_between_stops(a, run);
                    always_weaker(
                        inner,
                        segments_emitted(run, segments_left(run, 0)),
                        stops_are(run.stops),
                    );
                    repeat_emitted_plain(g, span, run.stops, start, base, to, inner, sound);
                }
            }
        }
        assert forall|base: Scalar, from: Scalar|
            (#[trigger] repeat_next(g, span, run, start, base, from)).plain(sound) by {
            let p = repeat_next(g, span, run, start, base, from);
            if p is Call {
                let k = p->Call_1;
                assert forall|r: Reply| (#[trigger] k(r)).plain(sound) by {
                    if let Reply::Number(next) = r {
                        assert(k(r) == repeat_end(g, span, run, start, base, from, next));
                    }
                }
            }
        }
        assert forall|base: Scalar|
            (#[trigger] repeat_start(g, span, run, start, base)).plain(sound) by {
            let p = repeat_start(g, span, run, start, base);
            if p is Call {
                let k = p->Call_1;
                assert forall|r: Reply| (#[trigger] k(r)).plain(sound) by {
                    if let Reply::Number(from) = r {
                        assert(k(r) == repeat_next(g, span, run, start, base, from));
                    }
                }
            }
        }
        assert(repeat_from(g, span, run, start).plain(sound)) by {
            let p = repeat_from(g, span, run, start);
            if p is Call {
                let k = p->Call_1;
                assert forall|r: Reply| (#[trigger] k(r)).plain(sound) by {
                    if let Reply::Number(base) = r {
                        assert(k(r) == repeat_start(g, span, run, start, base));
                    }
                }
            }
        }
    }
}

proof fn repeat_emitted_plain(
    g: GradientArgs,
    span: GradientSpan,
    stops: Seq<GradientStopKey>,
    start: Scalar,
    base: Scalar,
    to: Scalar,
    p: Program<GradientRunModel>,
    sound: bool,
)
    requires
        sound ==> stops.len() > 0,
        p.always(stops_are(stops)),
        p.plain(sound),
        forall|run: GradientRunModel|
            (sound ==> run.stops.len() > 0) ==> (#[trigger] repeat_advance(
                g,
                span,
                run,
                start,
                base,
                to,
            )).plain(sound),
    ensures
        repeat_emitted(g, span, start, base, to, p).plain(sound),
    decreases p,
{
    let whole = repeat_emitted(g, span, start, base, to, p);
    match p {
        Program::Return(run) => {
            assert(stops_are(stops)(run));
            assert(whole == repeat_advance(g, span, run, start, base, to));
        },
        Program::Fail(fault) => {
            assert(whole == Program::<Seq<CachedGradientSegment>>::Fail(fault));
        },
        Program::Call(q, k) => {
            let after = whole->Call_1;
            assert forall|r: Reply| (#[trigger] after(r)).plain(sound) by {
                assert(k(r).always(stops_are(stops)));
                assert(k(r).plain(sound));
                assert(after(r) == repeat_emitted(g, span, start, base, to, k(r)));
                repeat_emitted_plain(g, span, stops, start, base, to, k(r), sound);
            }
        },
    }
}

proof fn cache_extended_plain(
    g: GradientArgs,
    span: GradientSpan,
    stops: Seq<GradientStopKey>,
    sound: bool,
)
    requires
        sound ==> stops.len() > 0,
    ensures
        cache_extended(g, span, stops).plain(sound),
{
    let none = Seq::<CachedGradientSegment>::empty();
    if drawn_once(g, span) {
        let a = emit_args(
            g,
            span,
            span.prim_start_offset,
            span.prim_end_offset,
            Scalar { bits: ZERO },
        );
        let run = GradientRunModel { stops: clamped_stops(span, stops), segments: none };
        let f = |run: GradientRunModel| Program::Return(run.segments);
        emit_from_plain(a, run, 0);
        plain_after(emit(a, run), f, sound);
        if stops.len() > 0 {
            assert(cache_extended(g, span, stops) == cached(emit(a, run)));
        }
    } else {
        repeat_plain(
            g,
            span,
            GradientRunModel { stops, segments: none },
            span.prim_start_offset,
            sound,
        );
    }
}

proof fn reverse_plain(
    g: GradientArgs,
    span: GradientSpan,
    stops: Seq<GradientStopKey>,
    reversed: Seq<GradientStopKey>,
    sound: bool,
)
    requires
        sound ==> stops.len() > 0,
    ensures
        reverse_from(g, span, stops, reversed).plain(sound),
    decreases stops.len() - reversed.len(),
{
    if reversed.len() < stops.len() {
        let source = stops[stops.len() - 1 - reversed.len()];
        let k = reverse_from(g, span, stops, reversed)->Call_1;
        assert forall|r: Reply| (#[trigger] k(r)).plain(sound) by {
            if let Reply::Number(offset) = r {
                let more = reversed.push(GradientStopKey { offset, color: source.color });
                assert(k(r) == reverse_from(g, span, stops, more));
                reverse_plain(g, span, stops, more, sound);
            }
        }
    } else {
        cache_extended_plain(g, span, reversed, sound);
    }
}

proof fn cache_gradient_plain(g: GradientArgs, stops: Seq<GradientStopKey>, sound: bool)
    requires
        sound ==> stops.len() > 0,
    ensures
        cache_gradient(g, stops).plain(sound),
{
    assert forall|span: GradientSpan| (#[trigger] cache_stops(g, stops, span)).plain(sound) by {
        if g.reverse_stops {
            reverse_plain(g, span, stops, Seq::empty(), sound);
        } else {
            cache_extended_plain(g, span, stops, sound);
        }
    }
    assert forall|orientation: LineOrientation, start: Scalar|
        (#[trigger] cache_end(g, stops, orientation, start)).plain(sound) by {
        let p = cache_end(g, stops, orientation, start);
        if p is Call {
            let k = p->Call_1;
            assert forall|r: Reply| (#[trigger] k(r)).plain(sound) by {}
        }
    }
    assert forall|orientation: LineOrientation|
        (#[trigger] cache_start(g, stops, orientation)).plain(sound) by {
        let p = cache_start(g, stops, orientation);
        if p is Call {
            let k = p->Call_1;
            assert forall|r: Reply| (#[trigger] k(r)).plain(sound) by {}
        }
    }
    assert(cache_gradient(g, stops).plain(sound)) by {
        let p = cache_gradient(g, stops);
        if p is Call {
            let k = p->Call_1;
            assert forall|r: Reply| (#[trigger] k(r)).plain(sound) by {}
        }
    }
}

proof fn tiles_from_plain(run: TileRunModel)
    ensures
        tiles_from(run).plain(true),
    decreases run.origins.len() - run.tiles.len(),
{
    if run.tiles.len() < run.origins.len() {
        assert forall|handle: GpuCacheHandle| (#[trigger] tile_done(run, handle)).plain(true) by {
            assert(tile_done(run, handle) == tiles_from(with_tile(run, handle)));
            tiles_from_plain(with_tile(run, handle));
        }
        assert forall|handle: GpuCacheHandle|
            (#[trigger] tile_finished(run, handle)).plain(true) by {
            let p = tile_finished(run, handle);
            if p is Call {
                let k = p->Call_1;
                assert forall|r: Reply| (#[trigger] k(r)).plain(true) by {
                    if r is Ack {
                        assert(k(r) == tile_done(run, handle));
                    }
                }
            }
        }
        assert forall|handle: GpuCacheHandle, packed: Scalar|
            (#[trigger] tile_written(run, handle, packed)).plain(true) by {
            let p = tile_written(run, handle, packed);
            if p is Call {
                let k = p->Call_1;
                assert forall|r: Reply| (#[trigger] k(r)).plain(true) by {
                    if r is Ack {
                        assert(k(r) == tile_finished(run, handle));
                    }
                }
            }
        }
        assert forall|handle: GpuCacheHandle|
            (#[trigger] tile_packed(run, handle)).plain(true) by {
            let p = tile_packed(run, handle);
            if p is Call {
                let k = p->Call_1;
                assert forall|r: Reply| (#[trigger] k(r)).plain(true) by {
                    if let Reply::Number(packed) = r {
                        assert(k(r) == tile_written(run, handle, packed));
                    }
                }
            }
        }
        assert forall|handle: GpuCacheHandle, granted: bool|
            (#[trigger] tile_granted(run, handle, granted)).plain(true) by {
            if granted {
                let k = tile_granted(run, handle, granted)->Call_1;
                assert forall|r: Reply| (#[trigger] k(r)).plain(true) by {
                    if r is Ack {
                        assert(k(r) == tile_packed(run, handle));
                    }
                }
            } else {
                assert(tile_granted(run, handle, granted) == tile_done(run, handle));
            }
        }
        assert(tiles_from(run).plain(true)) by {
            let p = tiles_from(run);
            if p is Call {
                let k = p->Call_1;
                assert forall|r: Reply| (#[trigger] k(r)).plain(true) by {
                    if let Reply::GpuBlocks { handle, granted } = r {
                        assert(k(r) == tile_granted(run, handle, granted));
                    }
                }
            }
        }
    }
}

proof fn decompose_plain(s: ScratchModel, t: TileArgs)
    ensures
        decompose(s, t).plain(true),
{
    assert forall|tight: Rect, visible: Rect, stride: Size|
        (#[trigger] decompose_repeated(s, t, tight, visible, stride)).plain(true) by {
        let p = decompose_repeated(s, t, tight, visible, stride);
        if p is Call {
            let k = p->Call_1;
            assert forall|r: Reply| (#[trigger] k(r)).plain(true) by {
                if let Reply::Origins(origins) = r {
                    tiles_from_plain(
                        TileRunModel {
                            s,
                            t,
                            tight_clip_rect: tight,
                            origins: origins@,
                            tiles: Seq::empty(),
                        },
                    );
                }
            }
        }
    }
    assert forall|tight: Rect, visible: Rect, width: Scalar|
        (#[trigger] decompose_stride_height(s, t, tight, visible, width)).plain(true) by {
        let p = decompose_stride_height(s, t, tight, visible, width);
        if p is Call {
            let k = p->Call_1;
            assert forall|r: Reply| (#[trigger] k(r)).plain(true) by {}
        }
    }
    assert forall|tight: Rect, visible: Rect|
        (#[trigger] decompose_stride_width(s, t, tight, visible)).plain(true) by {
        let p = decompose_stride_width(s, t, tight, visible);
        if p is Call {
            let k = p->Call_1;
            assert forall|r: Reply| (#[trigger] k(r)).plain(true) by {}
        }
    }
    assert forall|tight: Option<Rect>| (#[trigger] decompose_seen(s, t, tight)).plain(true) by {
        let p = decompose_seen(s, t, tight);
        if p is Call {
            let k = p->Call_1;
            assert forall|r: Reply| (#[trigger] k(r)).plain(true) by {}
        }
    }
    assert(decompose(s, t).plain(true)) by {
        let p = decompose(s, t);
        if p is Call {
            let k = p->Call_1;
            assert forall|r: Reply| (#[trigger] k(r)).plain(true) by {}
        }
    }
}

proof fn tiled_plain(w: WorkModel, t: TileArgs)
    ensures
        gradient_tiled(w.instance, decompose(w.scratch, t)).plain(true),
{
    let instance = w.instance;
    let f = |tiled: TiledModel| Program::Return(with_tiles(instance, tiled));
    decompose_plain(w.scratch, t);
    plain_after(decompose(w.scratch, t), f, true);
}

proof fn round_plain(w: WorkModel, tiling: GradientTiling)
    requires
        w.instance.visibility_info is Some,
    ensures
        round_gradient(w, tiling).plain(true),
{
    assert forall|t: TileArgs| (#[trigger] round_mapped(w, t)).plain(true) by {
        tiled_plain(w, t);
        let k = round_mapped(w, t)->Call_1;
        assert forall|r: Reply| (#[trigger] k(r)).plain(true) by {}
    }
    assert(round_spaced(w, tiling).plain(true)) by {
        let p = round_spaced(w, tiling);
        if p is Call {
            let k = p->Call_1;
            assert forall|r: Reply| (#[trigger] k(r)).plain(true) by {}
        }
    }
    assert(round_updated(w, tiling).plain(true)) by {
        let p = round_updated(w, tiling);
        if p is Call {
            let k = p->Call_1;
            assert forall|r: Reply| (#[trigger] k(r)).plain(true) by {}
        }
    }
    if stretches_over(tiling) {
        let k = round_gradient(w, tiling)->Call_1;
        assert forall|r: Reply| (#[trigger] k(r)).plain(true) by {}
    }
}

proof fn linear_plain(
    w: WorkModel,
    tiling: GradientTiling,
    cache: Option<(GradientArgs, Seq<GradientStopKey>)>,
    sound: bool,
)
    requires
        w.instance.visibility_info is Some,
        sound ==> (cache matches Some((g, stops)) ==> stops.len() > 0),
    ensures
        linear_gradient(w, tiling, cache).plain(sound),
{
    assert forall|w: WorkModel|
        w.instance.visibility_info is Some implies (#[trigger] linear_spaced(
        w,
        tiling,
    )).plain(sound) by {
        let info = w.instance.visibility_info->0;
        assert(linear_mapped(w, tiling).plain(sound)) by {
            let p = linear_mapped(w, tiling);
            if p is Call {
                let k = p->Call_1;
                assert forall|r: Reply| (#[trigger] k(r)).plain(sound) by {
                    if let Reply::Token(mapper) = r {
                        tiled_plain(w, tile_args(tiling, info, mapper));
                    }
                }
            }
        }
        assert(linear_spaced(w, tiling).plain(sound)) by {
            let p = linear_spaced(w, tiling);
            if p is Call {
                let k = p->Call_1;
                assert forall|r: Reply| (#[trigger] k(r)).plain(sound) by {}
            }
        }
    }
    assert(linear_cached(w, tiling, cache).plain(sound)) by {
        if let Some((g, stops)) = cache {
            let f = |segments: Seq<CachedGradientSegment>|
                linear_spaced(with_cache_segments(w, segments), tiling);
            cache_gradient_plain(g, stops, sound);
            assert forall|segments: Seq<CachedGradientSegment>|
                (#[trigger] f(segments)).plain(sound) by {}
            plain_after(cache_gradient(g, stops), f, sound);
            assert(linear_cached(w, tiling, cache) == linear_segmented(
                w,
                tiling,
                cache_gradient(g, stops),
            ));
        }
    }
    assert(linear_stretched(w, tiling, cache).plain(sound)) by {
        if stretches_over(tiling) {
            let k = linear_stretched(w, tiling, cache)->Call_1;
            assert forall|r: Reply| (#[trigger] k(r)).plain(sound) by {}
        }
    }
    assert(linear_gradient(w, tiling, cache).plain(sound)) by {
        let p = linear_gradient(w, tiling, cache);
        if p is Call {
            let k = p->Call_1;
            assert forall|r: Reply| (#[trigger] k(r)).plain(sound) by {}
        }
    }
}

/// Whether a primitive of this kind can be drawn: a gradient that is drawn from the render task
/// cache has stops.
pub open spec fn drawable(kind: PrimitiveInstanceKind) -> bool {
    kind matches PrimitiveInstanceKind::LinearGradient(t) ==> t.supports_caching ==> t.stops@.len()
        > 0
}

/// Preparing a primitive that is visible neither stamps nor counts it; where it can be drawn, few
/// faults are left.
pub proof fn interned_plain(w: WorkModel, place: PrimPlace, sound: bool)
    requires
        w.instance.visibility_info is Some,
        sound ==> drawable(w.instance.kind),
    ensures
        interned(w, place).plain(sound),
{
    let node = place.prim_spatial_node_index;
    assert forall|scale: Scalar| (#[trigger] interned_scaled(w, place, scale)).plain(sound) by {
        match w.instance.kind {
            PrimitiveInstanceKind::LineDecoration { cache_key } => {
                line_plain(w, cache_key, scale, place.limits.max_line_decoration_resolution);
            },
            PrimitiveInstanceKind::TextRun { prim_origin, reference_frame_relative_offset } => {
                let info = w.instance.visibility_info->0;
                text_plain(
                    w,
                    TextArgs {
                        prim_origin,
                        reference_frame_relative_offset,
                        pic_clip_rect: info.clip_chain.pic_clip_rect,
                        place,
                    },
                );
            },
            PrimitiveInstanceKind::NormalBorder(t) => {
                border_plain(w, t.border_segments@, border_repeats(t), node, scale);
            },
            PrimitiveInstanceKind::LinearGradient(t) => {
                linear_plain(w, linear_tiling(t, node), linear_cache(t, place.limits), sound);
            },
            PrimitiveInstanceKind::RadialGradient(t) => {
                round_plain(w, radial_tiling(t, node));
            },
            PrimitiveInstanceKind::ConicGradient(t) => {
                round_plain(w, conic_tiling(t, node));
            },
            PrimitiveInstanceKind::Picture { pic_index } => {
                picture_plain(w, pic_index, place);
            },
            PrimitiveInstanceKind::Backdrop { pic_index } => {
                backdrop_plain(w, pic_index, place.context.surface_index);
            },
            _ => {
                brush_plain(w, brush_plan(w.instance.kind));
            },
        }
    }
    assert(interned(w, place).plain(sound)) by {
        let p = interned(w, place);
        if p is Call {
            let k = p->Call_1;
            assert forall|r: Reply| (#[trigger] k(r)).plain(sound) by {}
        }
    }
}

} // verus!
