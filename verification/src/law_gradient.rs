//! What holds of every preparation of a gradient.
use vstd::prelude::*;

use crate::geometry::{Rect, Size};
use crate::gradient::{
    emit, emit_area, emit_extent, emit_from, emit_origin, emit_task, placed_rect, segment_key,
    stop_run, stop_run_bounds, with_segment, EmitArgs, GradientRunModel, GRADIENT_FP_STOPS,
};
use crate::gradient_cache::{cache_gradient, clamped_stops, GradientArgs, GradientSpan};
use crate::kept::begins;
use crate::law_prim::{prepared_from, prepared_in_sight};
use crate::model::{
    CachedGradientSegment, GpuCacheHandle, GradientStopKey, IndexRange, ScratchModel, Token,
    VisibleGradientTile, WorkModel,
};
use crate::prim_gradient::{
    gradient_tiled, linear_cached, linear_gradient, linear_mapped, linear_segmented, linear_spaced,
    linear_stretched, round_gradient, round_mapped, round_spaced, round_updated, stretches_over,
    tile_args, with_cache_segments, with_tiles, GradientTiling,
};
use crate::program::{
    always_after, always_of_bind, always_weaker, GradientCacheKey, Program, Reply,
};
use crate::scalar::{Scalar, ONE, ZERO};
use crate::tiles::{
    decompose, decompose_repeated, decompose_seen, decompose_stride_height, decompose_stride_width,
    tile_done, tile_finished, tile_granted, tile_packed, tile_written, tiles_from, tiles_stored,
    with_tile, TileArgs, TileRunModel, TiledModel,
};

verus! {

proof fn run_has_no_hard_stop(stops: Seq<GradientStopKey>, first: int, last: int)
    requires
        0 <= first <= last < stops.len(),
        first < stops.len() - 1,
        last - first < GRADIENT_FP_STOPS,
    ensures
        forall|k: int|
            last <= k < stop_run(stops, first, last).last ==> !(
            #[trigger] stops[k + 1].offset.same(stops[k].offset)),
        stop_run(stops, first, last).hard_stop ==> stops[stop_run(
            stops,
            first,
            last,
        ).next()].offset.same(stops[stop_run(stops, first, last).last].offset),
    decreases stops.len() - last,
{
    stop_run_bounds(stops, first, last);
    if last < stops.len() - 1 && last - first + 1 < GRADIENT_FP_STOPS {
        if !stops[last + 1].offset.same(stops[last].offset) {
            run_has_no_hard_stop(stops, first, last + 1);
        }
    }
}

/// A task draws at most as many stops as it has room for, with no hard stop among them. The next
/// task begins at the last of them, or behind a hard stop at the same offset, so that a gradient
/// is drawn without gaps and to its end.
pub proof fn runs_end_at_hard_stops(stops: Seq<GradientStopKey>, first: int)
    requires
        0 <= first < stops.len() - 1,
    ensures
        ({
            let run = stop_run(stops, first, first);
            &&& first <= run.last < stops.len()
            &&& run.last - first + 1 <= GRADIENT_FP_STOPS
            &&& first < run.next() < stops.len()
            &&& forall|k: int|
                first <= k < run.last ==> !(#[trigger] stops[k + 1].offset.same(stops[k].offset))
            &&& run.next() == run.last || stops[run.next()].offset.same(stops[run.last].offset)
        }),
{
    stop_run_bounds(stops, first, first);
    run_has_no_hard_stop(stops, first, first);
}

/// Clamping keeps all stops, in order. Where the primitive reaches beyond the gradient, the first or
/// the last colour is repeated at the edge of the primitive.
pub proof fn clamping_repeats_the_end_colours(span: GradientSpan, stops: Seq<GradientStopKey>)
    requires
        stops.len() > 0,
    ensures
        ({
            let all = clamped_stops(span, stops);
            let before: int = if span.prim_start_offset.less(Scalar { bits: ZERO }) {
                1
            } else {
                0
            };
            let after: int = if (Scalar { bits: ONE }).less(span.prim_end_offset) {
                1
            } else {
                0
            };
            &&& all.len() == before + stops.len() + after
            &&& all.subrange(before, before + stops.len()) == stops
            &&& before == 1 ==> all[0] == (GradientStopKey {
                offset: span.prim_start_offset,
                color: stops[0].color,
            })
            &&& after == 1 ==> all.last() == (GradientStopKey {
                offset: span.prim_end_offset,
                color: stops.last().color,
            })
        }),
{
    let all = clamped_stops(span, stops);
    let before: int = if span.prim_start_offset.less(Scalar { bits: ZERO }) {
        1
    } else {
        0
    };
    assert(all.subrange(before, before + stops.len()) =~= stops);
}

/// That segments were added, `n` of them at most, and the stops stayed.
pub open spec fn segments_emitted(run: GradientRunModel, n: int) -> spec_fn(
    GradientRunModel,
) -> bool {
    |o: GradientRunModel|
        {
            &&& o.stops == run.stops
            &&& begins(run.segments, o.segments)
            &&& o.segments.len() <= run.segments.len() + n
        }
}

/// The segments that are left for the stops from `first` on, at most.
pub open spec fn segments_left(run: GradientRunModel, first: int) -> int {
    if first < run.stops.len() - 1 {
        run.stops.len() - 1 - first
    } else {
        0
    }
}

proof fn emit_from_adds(a: EmitArgs, run: GradientRunModel, first: int)
    requires
        0 <= first,
    ensures
        emit_from(a, run, first).always(segments_emitted(run, segments_left(run, first))),
    decreases run.stops.len() - first,
{
    let post = segments_emitted(run, segments_left(run, first));
    if first < run.stops.len() - 1 && !a.end_offset.less(run.stops[first].offset) {
        stop_run_bounds(run.stops, first, first);
        let stop = stop_run(run.stops, first, first);
        let next = stop.next();
        emit_from_adds(a, run, next);
        always_weaker(
            emit_from(a, run, next),
            segments_emitted(run, segments_left(run, next)),
            post,
        );
        if !run.stops[stop.last].offset.less(a.start_offset) {
            assert forall|key: GradientCacheKey, rect: Rect, area: Scalar|
                (#[trigger] emit_task(a, run, next, key, rect, area)).always(post) by {
                let p = emit_task(a, run, next, key, rect, area);
                if (Scalar { bits: ZERO }).less(area) {
                    let k = p->Call_1;
                    assert forall|r: Reply| (#[trigger] k(r)).always(post) by {
                        if let Reply::TaskHandle(handle) = r {
                            let more = with_segment(
                                run,
                                CachedGradientSegment { handle, local_rect: rect },
                            );
                            assert(k(r) == emit_from(a, more, next));
                            emit_from_adds(a, more, next);
                            always_weaker(
                                emit_from(a, more, next),
                                segments_emitted(more, segments_left(more, next)),
                                post,
                            );
                        }
                    }
                } else {
                    assert(p == emit_from(a, run, next));
                }
            }
            assert forall|key: GradientCacheKey, rect: Rect|
                (#[trigger] emit_area(a, run, next, key, rect)).always(post) by {
                let k = emit_area(a, run, next, key, rect)->Call_1;
                assert forall|r: Reply| (#[trigger] k(r)).always(post) by {
                    if let Reply::Number(area) = r {
                        assert(k(r) == emit_task(a, run, next, key, rect, area));
                    }
                }
            }
            assert forall|key: GradientCacheKey, origin: Scalar|
                (#[trigger] emit_extent(a, run, next, key, origin)).always(post) by {
                let k = emit_extent(a, run, next, key, origin)->Call_1;
                assert forall|r: Reply| (#[trigger] k(r)).always(post) by {
                    if let Reply::Number(extent) = r {
                        let rect = placed_rect(a, origin, extent);
                        assert(k(r) == emit_area(a, run, next, key, rect));
                    }
                }
            }
            assert forall|key: GradientCacheKey|
                (#[trigger] emit_origin(a, run, next, key)).always(post) by {
                let k = emit_origin(a, run, next, key)->Call_1;
                assert forall|r: Reply| (#[trigger] k(r)).always(post) by {
                    if let Reply::Number(origin) = r {
                        assert(k(r) == emit_extent(a, run, next, key, origin));
                    }
                }
            }
            let key = segment_key(
                a.orientation,
                run.stops,
                first,
                stop.last,
                a.start_offset.larger(run.stops[first].offset),
                a.end_offset.smaller(run.stops[stop.last].offset),
            );
            assert(emit_from(a, run, first) == emit_origin(a, run, next, key));
        } else {
            assert(emit_from(a, run, first) == emit_from(a, run, next));
        }
    }
}

/// Drawing a part of a gradient adds at most one segment between two stops, behind those that are
/// there already, which stay.
pub proof fn emitting_adds_between_stops(a: EmitArgs, run: GradientRunModel)
    ensures
        emit(a, run).always(segments_emitted(run, segments_left(run, 0))),
{
    if run.stops.len() > 0 {
        emit_from_adds(a, run, 0);
    }
}

/// Whether these are the visible repetitions of a gradient: each has the size that the gradient is
/// stretched to, and all are clipped alike.
pub open spec fn are_repetitions(t: TileArgs, tiles: Seq<VisibleGradientTile>) -> bool {
    forall|i: int|
        #![trigger tiles[i]]
        0 <= i < tiles.len() ==> tiles[i].local_rect.size == t.stretch_size
            && tiles[i].local_clip_rect == tiles[0].local_clip_rect
}

/// That the repetitions of the gradient were stored behind those of earlier gradients, that the
/// range is where they are, and that nothing else changed. The range is empty if and only if there
/// are none.
pub open spec fn tiles_appended(s: ScratchModel, t: TileArgs) -> spec_fn(TiledModel) -> bool {
    |o: TiledModel|
        {
            let old = s.gradient_tiles;
            let new = o.scratch.gradient_tiles;
            &&& begins(old, new)
            &&& are_repetitions(t, new.subrange(old.len() as int, new.len() as int))
            &&& o.scratch == (ScratchModel { gradient_tiles: new, ..s })
            &&& new.len() == old.len() ==> o.range == (IndexRange { start: 0, end: 0 })
            &&& new.len() > old.len() && new.len() <= usize::MAX ==> o.range == (IndexRange {
                start: old.len() as usize,
                end: new.len() as usize,
            })
        }
}

/// Whether the repetitions that are done have the size and the clip that they should have.
pub open spec fn run_is_right(run: TileRunModel) -> bool {
    forall|i: int|
        #![trigger run.tiles[i]]
        0 <= i < run.tiles.len() ==> run.tiles[i].local_rect.size == run.t.stretch_size
            && run.tiles[i].local_clip_rect == run.tight_clip_rect
}

proof fn stored_tiles_are_right(run: TileRunModel)
    requires
        run_is_right(run),
    ensures
        tiles_appended(run.s, run.t)(tiles_stored(run)),
{
    let o = tiles_stored(run);
    let old = run.s.gradient_tiles;
    let new = o.scratch.gradient_tiles;
    assert(new.subrange(old.len() as int, new.len() as int) =~= run.tiles);
}

proof fn tiles_from_appends(run: TileRunModel)
    requires
        run_is_right(run),
    ensures
        tiles_from(run).always(tiles_appended(run.s, run.t)),
    decreases run.origins.len() - run.tiles.len(),
{
    let post = tiles_appended(run.s, run.t);
    if run.tiles.len() < run.origins.len() {
        assert forall|handle: GpuCacheHandle| (#[trigger] tile_done(run, handle)).always(
            post,
        ) by {
            assert(tile_done(run, handle) == tiles_from(with_tile(run, handle)));
            tiles_from_appends(with_tile(run, handle));
        }
        assert forall|handle: GpuCacheHandle| (#[trigger] tile_finished(run, handle)).always(
            post,
        ) by {
            let k = tile_finished(run, handle)->Call_1;
            assert forall|r: Reply| (#[trigger] k(r)).always(post) by {
                if r is Ack {
                    assert(k(r) == tile_done(run, handle));
                }
            }
        }
        assert forall|handle: GpuCacheHandle, packed: Scalar|
            (#[trigger] tile_written(run, handle, packed)).always(post) by {
            let k = tile_written(run, handle, packed)->Call_1;
            assert forall|r: Reply| (#[trigger] k(r)).always(post) by {
                if r is Ack {
                    assert(k(r) == tile_finished(run, handle));
                }
            }
        }
        assert forall|handle: GpuCacheHandle| (#[trigger] tile_packed(run, handle)).always(
            post,
        ) by {
            let k = tile_packed(run, handle)->Call_1;
            assert forall|r: Reply| (#[trigger] k(r)).always(post) by {
                if let Reply::Number(packed) = r {
                    assert(k(r) == tile_written(run, handle, packed));
                }
            }
        }
        assert forall|handle: GpuCacheHandle, granted: bool|
            (#[trigger] tile_granted(run, handle, granted)).always(post) by {
            if granted {
                let k = tile_granted(run, handle, granted)->Call_1;
                assert forall|r: Reply| (#[trigger] k(r)).always(post) by {
                    if r is Ack {
                        assert(k(r) == tile_packed(run, handle));
                    }
                }
            } else {
                assert(tile_granted(run, handle, granted) == tile_done(run, handle));
            }
        }
        let k = tiles_from(run)->Call_1;
        assert forall|r: Reply| (#[trigger] k(r)).always(post) by {
            if let Reply::GpuBlocks { handle, granted } = r {
                assert(k(r) == tile_granted(run, handle, granted));
            }
        }
    } else {
        stored_tiles_are_right(run);
    }
}

/// Decomposing a repeated gradient stores exactly its visible repetitions, and the range that comes
/// back is where they are.
pub proof fn decomposing_stores_the_repetitions(s: ScratchModel, t: TileArgs)
    ensures
        decompose(s, t).always(tiles_appended(s, t)),
{
    let post = tiles_appended(s, t);
    assert forall|tight: Rect, visible: Rect, stride: Size|
        (#[trigger] decompose_repeated(s, t, tight, visible, stride)).always(post) by {
        let k = decompose_repeated(s, t, tight, visible, stride)->Call_1;
        assert forall|r: Reply| (#[trigger] k(r)).always(post) by {
            if let Reply::Origins(origins) = r {
                tiles_from_appends(
                    TileRunModel {
                        s,
                        t,
                        tight_clip_rect: tight,
                        origins: origins@,
                        tiles: Seq::empty(),
                    },
                );
            }
        }
    }
    assert forall|tight: Rect, visible: Rect, width: Scalar|
        (#[trigger] decompose_stride_height(s, t, tight, visible, width)).always(post) by {
        let k = decompose_stride_height(s, t, tight, visible, width)->Call_1;
        assert forall|r: Reply| (#[trigger] k(r)).always(post) by {}
    }
    assert forall|tight: Rect, visible: Rect|
        (#[trigger] decompose_stride_width(s, t, tight, visible)).always(post) by {
        let k = decompose_stride_width(s, t, tight, visible)->Call_1;
        assert forall|r: Reply| (#[trigger] k(r)).always(post) by {}
    }
    assert forall|tight: Option<Rect>| (#[trigger] decompose_seen(s, t, tight)).always(post) by {
        if tight is Some {
            let k = decompose_seen(s, t, tight)->Call_1;
            assert forall|r: Reply| (#[trigger] k(r)).always(post) by {}
        }
    }
    let k = decompose(s, t)->Call_1;
    assert forall|r: Reply| (#[trigger] k(r)).always(post) by {}
}

/// That a gradient with repetitions is culled if and only if none of them is visible.
pub open spec fn culled_without_tiles(w: WorkModel) -> spec_fn(WorkModel) -> bool {
    |o: WorkModel|
        {
            let old = w.scratch.gradient_tiles.len();
            let new = o.scratch.gradient_tiles.len();
            &&& prepared_from(w)(o)
            &&& new <= usize::MAX ==> {
                &&& o.instance.visibility_info is None <==> new == old
                &&& new > old ==> o.instance.visible_tiles_range == (IndexRange {
                    start: old as usize,
                    end: new as usize,
                })
            }
        }
}

proof fn tiled_keeps(w: WorkModel, t: TileArgs)
    requires
        w.instance.visibility_info is Some,
    ensures
        gradient_tiled(w.instance, decompose(w.scratch, t)).always(culled_without_tiles(w)),
{
    let post = culled_without_tiles(w);
    let instance = w.instance;
    let f = |tiled: TiledModel| Program::Return(with_tiles(instance, tiled));
    let mid = tiles_appended(w.scratch, t);
    decomposing_stores_the_repetitions(w.scratch, t);
    assert forall|tiled: TiledModel| mid(tiled) implies (#[trigger] f(tiled)).always(post) by {}
    always_of_bind(decompose(w.scratch, t), f, mid, post);
}

/// A round gradient whose repetitions have gaps between them is culled if and only if none of its
/// repetitions is visible; otherwise it points at them.
pub proof fn repeated_gradient_without_tiles_is_culled(w: WorkModel, tiling: GradientTiling)
    requires
        !tiling.tile_spacing.zero(),
    ensures
        round_gradient(w, tiling).always(culled_without_tiles(w)),
{
    let post = culled_without_tiles(w);
    assert(round_spaced(w, tiling).always(post)) by {
        if let Some(info) = w.instance.visibility_info {
            assert forall|t: TileArgs| (#[trigger] round_mapped(w, t)).always(post) by {
                tiled_keeps(w, t);
                let k = round_mapped(w, t)->Call_1;
                assert forall|r: Reply| (#[trigger] k(r)).always(post) by {}
            }
            let k = round_spaced(w, tiling)->Call_1;
            assert forall|r: Reply| (#[trigger] k(r)).always(post) by {}
        }
    }
    round_follows(w, tiling, post);
}

proof fn round_follows(w: WorkModel, tiling: GradientTiling, post: spec_fn(WorkModel) -> bool)
    requires
        round_spaced(w, tiling).always(post),
    ensures
        round_gradient(w, tiling).always(post),
{
    assert(round_updated(w, tiling).always(post)) by {
        let k = round_updated(w, tiling)->Call_1;
        assert forall|r: Reply| (#[trigger] k(r)).always(post) by {}
    }
    if stretches_over(tiling) {
        let k = round_gradient(w, tiling)->Call_1;
        assert forall|r: Reply| (#[trigger] k(r)).always(post) by {}
    }
}

/// Preparing a round gradient keeps what is to be kept, and culls nothing where there are no gaps
/// between its repetitions.
pub proof fn round_gradient_keeps(w: WorkModel, tiling: GradientTiling)
    ensures
        round_gradient(w, tiling).always(prepared_from(w)),
        tiling.tile_spacing.zero() ==> round_gradient(w, tiling).always(prepared_in_sight(w)),
{
    if tiling.tile_spacing.zero() {
        round_follows(w, tiling, prepared_from(w));
        round_follows(w, tiling, prepared_in_sight(w));
    } else {
        repeated_gradient_without_tiles_is_culled(w, tiling);
        always_weaker(round_gradient(w, tiling), culled_without_tiles(w), prepared_from(w));
    }
}

proof fn linear_spaced_keeps(w: WorkModel, tiling: GradientTiling)
    ensures
        linear_spaced(w, tiling).always(prepared_from(w)),
        !tiling.tile_spacing.zero() ==> linear_spaced(w, tiling).always(culled_without_tiles(w)),
{
    let post = culled_without_tiles(w);
    let p = linear_spaced(w, tiling);
    if !tiling.tile_spacing.zero() {
        assert(linear_mapped(w, tiling).always(post)) by {
            if let Some(info) = w.instance.visibility_info {
                let k = linear_mapped(w, tiling)->Call_1;
                assert forall|r: Reply| (#[trigger] k(r)).always(post) by {
                    if let Reply::Token(mapper) = r {
                        tiled_keeps(w, tile_args(tiling, info, mapper));
                    }
                }
            }
        }
        let k = p->Call_1;
        assert forall|r: Reply| (#[trigger] k(r)).always(post) by {}
        always_weaker(p, post, prepared_from(w));
    }
}

proof fn linear_follows(
    w: WorkModel,
    tiling: GradientTiling,
    cache: Option<(GradientArgs, Seq<GradientStopKey>)>,
    post: spec_fn(WorkModel) -> bool,
)
    requires
        linear_cached(w, tiling, cache).always(post),
    ensures
        linear_gradient(w, tiling, cache).always(post),
{
    assert(linear_stretched(w, tiling, cache).always(post)) by {
        if stretches_over(tiling) {
            let k = linear_stretched(w, tiling, cache)->Call_1;
            assert forall|r: Reply| (#[trigger] k(r)).always(post) by {}
        }
    }
    let k = linear_gradient(w, tiling, cache)->Call_1;
    assert forall|r: Reply| (#[trigger] k(r)).always(post) by {}
}

/// Preparing a linear gradient keeps what is to be kept. One whose repetitions have gaps between
/// them is culled if and only if none of its repetitions is visible; any other is not culled.
pub proof fn linear_gradient_keeps(
    w: WorkModel,
    tiling: GradientTiling,
    cache: Option<(GradientArgs, Seq<GradientStopKey>)>,
)
    ensures
        linear_gradient(w, tiling, cache).always(prepared_from(w)),
        !tiling.tile_spacing.zero() ==> linear_gradient(w, tiling, cache).always(
            culled_without_tiles(w),
        ),
        tiling.tile_spacing.zero() ==> linear_gradient(w, tiling, cache).always(
            prepared_in_sight(w),
        ),
{
    linear_spaced_keeps(w, tiling);
    if tiling.tile_spacing.zero() {
        let post = prepared_in_sight(w);
        if let Some((g, stops)) = cache {
            let f = |segments: Seq<CachedGradientSegment>|
                linear_spaced(with_cache_segments(w, segments), tiling);
            let p = cache_gradient(g, stops);
            assert forall|segments: Seq<CachedGradientSegment>|
                (#[trigger] f(segments)).always(post) by {}
            always_after(p, f, post);
            assert(linear_cached(w, tiling, cache) == linear_segmented(w, tiling, p));
        }
        linear_follows(w, tiling, cache, post);
    }
    if let Some((g, stops)) = cache {
        let f = |segments: Seq<CachedGradientSegment>|
            linear_spaced(with_cache_segments(w, segments), tiling);
        let p = cache_gradient(g, stops);
        assert forall|segments: Seq<CachedGradientSegment>|
            (#[trigger] f(segments)).always(prepared_from(w)) by {
            let with = with_cache_segments(w, segments);
            linear_spaced_keeps(with, tiling);
            always_weaker(f(segments), prepared_from(with), prepared_from(w));
        }
        always_after(p, f, prepared_from(w));
        if !tiling.tile_spacing.zero() {
            assert forall|segments: Seq<CachedGradientSegment>|
                (#[trigger] f(segments)).always(culled_without_tiles(w)) by {
                let with = with_cache_segments(w, segments);
                linear_spaced_keeps(with, tiling);
                always_weaker(f(segments), culled_without_tiles(with), culled_without_tiles(w));
            }
            always_after(p, f, culled_without_tiles(w));
        }
        assert(linear_cached(w, tiling, cache) == linear_segmented(w, tiling, p));
    }
    linear_follows(w, tiling, cache, prepared_from(w));
    if !tiling.tile_spacing.zero() {
        linear_follows(w, tiling, cache, culled_without_tiles(w));
    }
}

} // verus!
