//! The repetitions of a gradient: how far apart they are, how large, and what is kept of them.
use vstd::prelude::*;

use crate::conversation::talks_in_bind;
use crate::geometry::{plus, value, Block, Point, Rect, Size};
use crate::gradient_cache::cache_gradient;
use crate::interned::{interned, interned_scaled};
use crate::law_gradient::{decomposing_stores_the_repetitions, tiles_appended};
use crate::model::{
    CachedGradientSegment, GpuCacheHandle, IndexRange, PrimPlace, PrimitiveInstanceKind,
    PrimitiveVisibility, ScratchModel, Token, VisibleGradientTile, WorkModel,
};
use crate::prim_gradient::{
    conic_tiling, gradient_tiled, linear_cache, linear_cached, linear_gradient, linear_mapped,
    linear_segmented, linear_spaced, linear_stretched, linear_tiling, radial_tiling, round_gradient,
    round_mapped, round_spaced, round_updated, tile_args, with_cache_segments, with_tiles,
    GradientTiling,
};
use crate::program::{always_after, always_of_bind, Fault, Program, Reply, Request};
use crate::scalar::Scalar;
use crate::tiles::{
    decompose, decompose_repeated, decompose_seen, decompose_stride_height, decompose_stride_width,
    tile_done, tile_finished, tile_granted, tile_packed, tile_written, tiles_from, with_tile,
    TileArgs, TileRunModel, TiledModel,
};

verus! {

/// A gradient is repeated over the part of its primitive that is in the clip rectangle and may be
/// seen. From one repetition to the next it is as far as the gradient is stretched and the space
/// between two repetitions is wide, in both directions. A primitive outside its clip rectangle is
/// at fault.
pub proof fn repetitions_are_spaced<T>(
    s: ScratchModel,
    t: TileArgs,
    f: spec_fn(TiledModel) -> Program<T>,
    tight: Rect,
    visible: Rect,
    width: Scalar,
    height: Scalar,
    origins: Vec<Point>,
)
    ensures
        ({
            let p = decompose(s, t).bind(f);
            let cut = p.on(Reply::MaybeRect(Some(tight)));
            let seen = cut.on(Reply::Rect(visible));
            let wide = seen.on(Reply::Number(width));
            let high = wide.on(Reply::Number(height));
            &&& p.asks(
                Request::Intersect { a: t.combined_local_clip_rect, b: t.prim_local_rect },
            )
            &&& p.on(Reply::MaybeRect(None)) == Program::<T>::Fail(Fault::OutsideClip)
            &&& cut.asks(
                Request::ConservativeVisibleRect {
                    clip_rect: tight,
                    world_rect: t.prim_world_rect,
                    mapper: t.mapper,
                },
            )
            &&& seen.asks(
                Request::Evaluate(plus(value(t.stretch_size.width), value(t.tile_spacing.width))),
            )
            &&& wide.asks(
                Request::Evaluate(
                    plus(value(t.stretch_size.height), value(t.tile_spacing.height)),
                ),
            )
            &&& high.asks(
                Request::Repetitions {
                    prim_rect: t.prim_local_rect,
                    visible_rect: visible,
                    stride: Size { width, height },
                },
            )
            &&& high.on(Reply::Origins(origins)) == tiles_from(
                TileRunModel {
                    s,
                    t,
                    tight_clip_rect: tight,
                    origins: origins@,
                    tiles: Seq::empty(),
                },
            ).bind(f)
        }),
{
    let p = decompose(s, t);
    let cut = p.on(Reply::MaybeRect(Some(tight)));
    let seen = cut.on(Reply::Rect(visible));
    let wide = seen.on(Reply::Number(width));
    let high = wide.on(Reply::Number(height));
    assert(p.on(Reply::MaybeRect(None)) == Program::<TiledModel>::Fail(Fault::OutsideClip));
    assert(cut == decompose_seen(s, t, Some(tight)));
    assert(seen == decompose_stride_width(s, t, tight, visible));
    assert(wide == decompose_stride_height(s, t, tight, visible, width));
    assert(high == decompose_repeated(s, t, tight, visible, Size { width, height }));
    talks_in_bind(p, f);
    talks_in_bind(cut, f);
    talks_in_bind(seen, f);
    talks_in_bind(wide, f);
    talks_in_bind(high, f);
}

/// Each repetition stands at its origin, is as large as the gradient is stretched, and is clipped
/// to what of the primitive is in the clip rectangle. It gets a place of its own in the GPU cache,
/// where two blocks are written if the cache asks for them: the points of the gradient, and its
/// extend mode, 0 to clamp and 1 to repeat, with what it is stretched to. When all are done they
/// are stored behind those of others, and the range is where they are; without any it is empty.
pub proof fn repetition_is_kept_at_its_origin(
    run: TileRunModel,
    handle: GpuCacheHandle,
    packed: Scalar,
)
    requires
        run.tiles.len() <= run.origins.len(),
    ensures
        ({
            let zero = Scalar { bits: 0 };
            let blocks = run.t.blocks;
            let n = run.tiles.len();
            let old = run.s.gradient_tiles.len();
            let next = tiles_from(
                TileRunModel {
                    tiles: run.tiles.push(
                        VisibleGradientTile {
                            local_rect: Rect {
                                origin: run.origins[n as int],
                                size: run.t.stretch_size,
                            },
                            local_clip_rect: run.tight_clip_rect,
                            handle,
                        },
                    ),
                    ..run
                },
            );
            let second = match blocks.lead {
                Some(lead) => Block {
                    x: lead,
                    y: packed,
                    z: blocks.stretch_size.width,
                    w: blocks.stretch_size.height,
                },
                None => Block {
                    x: packed,
                    y: blocks.stretch_size.width,
                    z: blocks.stretch_size.height,
                    w: zero,
                },
            };
            let number: u32 = if blocks.extend_mode is Repeat {
                1
            } else {
                0
            };
            let p = tiles_from(run);
            let granted = p.on(Reply::GpuBlocks { handle, granted: true });
            let one = granted.on(Reply::Ack);
            let made = one.on(Reply::Number(packed));
            let two = made.on(Reply::Ack);
            if n < run.origins.len() {
                &&& p.asks(Request::RequestGpuBlocks { handle: GpuCacheHandle { slot: None } })
                &&& p.on(Reply::GpuBlocks { handle, granted: false }) == next
                &&& granted.asks(Request::PushBlock { block: blocks.first })
                &&& one.asks(Request::PackAsFloat { value: number })
                &&& made.asks(Request::PushBlock { block: second })
                &&& two.asks(Request::FinishGpuBlocks)
                &&& two.on(Reply::Ack) == next
            } else {
                p == Program::Return(
                    if n == 0 {
                        TiledModel { scratch: run.s, range: IndexRange { start: 0, end: 0 } }
                    } else {
                        TiledModel {
                            scratch: ScratchModel {
                                gradient_tiles: run.s.gradient_tiles + run.tiles,
                                ..run.s
                            },
                            range: IndexRange { start: old as usize, end: (old + n) as usize },
                        }
                    },
                )
            }
        }),
{
    if run.tiles.len() < run.origins.len() {
        let p = tiles_from(run);
        let refused = p.on(Reply::GpuBlocks { handle, granted: false });
        assert(refused == tile_granted(run, handle, false));
        assert(refused == tile_done(run, handle));
        assert(tile_done(run, handle) == tiles_from(with_tile(run, handle)));
        let granted = p.on(Reply::GpuBlocks { handle, granted: true });
        assert(granted == tile_granted(run, handle, true));
        let one = granted.on(Reply::Ack);
        assert(one == tile_packed(run, handle));
        let made = one.on(Reply::Number(packed));
        assert(made == tile_written(run, handle, packed));
        let two = made.on(Reply::Ack);
        assert(two == tile_finished(run, handle));
        assert(two.on(Reply::Ack) == tile_done(run, handle));
    }
}

/// That every repetition that was added is of this size.
pub open spec fn new_tiles_are_of_size(w: WorkModel, size: Size) -> spec_fn(WorkModel) -> bool {
    |o: WorkModel|
        {
            &&& w.scratch.gradient_tiles.len() <= o.scratch.gradient_tiles.len()
            &&& forall|i: int|
                w.scratch.gradient_tiles.len() <= i < o.scratch.gradient_tiles.len() ==> (
                #[trigger] o.scratch.gradient_tiles[i]).local_rect.size == size
        }
}

proof fn tiles_are_of_size(
    w: WorkModel,
    base: WorkModel,
    tiling: GradientTiling,
    info: PrimitiveVisibility,
    mapper: Token,
)
    requires
        w.scratch == base.scratch,
    ensures
        gradient_tiled(w.instance, decompose(w.scratch, tile_args(tiling, info, mapper))).always(
            new_tiles_are_of_size(base, tiling.stretch_size),
        ),
{
    let t = tile_args(tiling, info, mapper);
    let post = new_tiles_are_of_size(base, tiling.stretch_size);
    let mid = tiles_appended(w.scratch, t);
    let instance = w.instance;
    let f = |tiled: TiledModel| Program::Return(with_tiles(instance, tiled));
    decomposing_stores_the_repetitions(w.scratch, t);
    assert forall|o: TiledModel| mid(o) implies (#[trigger] f(o)).always(post) by {
        let old = w.scratch.gradient_tiles;
        let new = o.scratch.gradient_tiles;
        let added = new.subrange(old.len() as int, new.len() as int);
        assert forall|i: int| old.len() <= i < new.len() implies (#[trigger] new[i]).local_rect.size
            == tiling.stretch_size by {
            assert(added[i - old.len()] == new[i]);
        }
    }
    always_of_bind(decompose(w.scratch, t), f, mid, post);
}

proof fn round_tiles_are_of_size(w: WorkModel, tiling: GradientTiling)
    ensures
        round_gradient(w, tiling).always(new_tiles_are_of_size(w, tiling.stretch_size)),
{
    let post = new_tiles_are_of_size(w, tiling.stretch_size);
    assert(round_spaced(w, tiling).always(post)) by {
        let p = round_spaced(w, tiling);
        if p is Call {
            let info = w.instance.visibility_info->0;
            let k = p->Call_1;
            assert forall|r: Reply| (#[trigger] k(r)).always(post) by {
                if let Reply::Token(mapper) = r {
                    tiles_are_of_size(w, w, tiling, info, mapper);
                    let q = round_mapped(w, tile_args(tiling, info, mapper));
                    assert(k(r) == q);
                    let l = q->Call_1;
                    assert forall|r: Reply| (#[trigger] l(r)).always(post) by {}
                }
            }
        }
    }
    assert(round_updated(w, tiling).always(post)) by {
        let k = round_updated(w, tiling)->Call_1;
        assert forall|r: Reply| (#[trigger] k(r)).always(post) by {}
    }
    let p = round_gradient(w, tiling);
    if p != round_updated(w, tiling) {
        let k = p->Call_1;
        assert forall|r: Reply| (#[trigger] k(r)).always(post) by {}
    }
}

proof fn linear_spaced_tiles_are_of_size(w: WorkModel, base: WorkModel, tiling: GradientTiling)
    requires
        w.scratch == base.scratch,
    ensures
        linear_spaced(w, tiling).always(new_tiles_are_of_size(base, tiling.stretch_size)),
{
    let post = new_tiles_are_of_size(base, tiling.stretch_size);
    assert(linear_mapped(w, tiling).always(post)) by {
        let p = linear_mapped(w, tiling);
        if p is Call {
            let info = w.instance.visibility_info->0;
            let k = p->Call_1;
            assert forall|r: Reply| (#[trigger] k(r)).always(post) by {
                if let Reply::Token(mapper) = r {
                    tiles_are_of_size(w, base, tiling, info, mapper);
                }
            }
        }
    }
    let p = linear_spaced(w, tiling);
    if p is Call {
        let k = p->Call_1;
        assert forall|r: Reply| (#[trigger] k(r)).always(post) by {}
    }
}

/// Every repetition that preparing a gradient keeps is as large as the template of the gradient is
/// stretched, whatever the renderer replies.
pub proof fn repetitions_are_as_large_as_the_stretch(w: WorkModel, place: PrimPlace)
    ensures
        match w.instance.kind {
            PrimitiveInstanceKind::LinearGradient(t) => interned(w, place).always(
                new_tiles_are_of_size(w, t.stretch_size),
            ),
            PrimitiveInstanceKind::RadialGradient(t) => interned(w, place).always(
                new_tiles_are_of_size(w, t.stretch_size),
            ),
            PrimitiveInstanceKind::ConicGradient(t) => interned(w, place).always(
                new_tiles_are_of_size(w, t.stretch_size),
            ),
            _ => true,
        },
{
    let node = place.prim_spatial_node_index;
    let k = interned(w, place)->Call_1;
    match w.instance.kind {
        PrimitiveInstanceKind::LinearGradient(t) => {
            let tiling = linear_tiling(t, node);
            let cache = linear_cache(t, place.limits);
            let post = new_tiles_are_of_size(w, t.stretch_size);
            linear_spaced_tiles_are_of_size(w, w, tiling);
            assert(linear_cached(w, tiling, cache).always(post)) by {
                if let Some((g, stops)) = cache {
                    let f = |segments: Seq<CachedGradientSegment>|
                        linear_spaced(with_cache_segments(w, segments), tiling);
                    assert forall|segments: Seq<CachedGradientSegment>|
                        (#[trigger] f(segments)).always(post) by {
                        linear_spaced_tiles_are_of_size(
                            with_cache_segments(w, segments),
                            w,
                            tiling,
                        );
                    }
                    always_after(cache_gradient(g, stops), f, post);
                    assert(linear_cached(w, tiling, cache) == linear_segmented(
                        w,
                        tiling,
                        cache_gradient(g, stops),
                    ));
                }
            }
            assert(linear_stretched(w, tiling, cache).always(post)) by {
                let p = linear_stretched(w, tiling, cache);
                if p != linear_cached(w, tiling, cache) {
                    let l = p->Call_1;
                    assert forall|r: Reply| (#[trigger] l(r)).always(post) by {}
                }
            }
            assert(linear_gradient(w, tiling, cache).always(post)) by {
                let l = linear_gradient(w, tiling, cache)->Call_1;
                assert forall|r: Reply| (#[trigger] l(r)).always(post) by {}
            }
            assert forall|r: Reply| (#[trigger] k(r)).always(post) by {
                if let Reply::Number(scale) = r {
                    assert(k(r) == interned_scaled(w, place, scale));
                }
            }
        },
        PrimitiveInstanceKind::RadialGradient(t) => {
            let post = new_tiles_are_of_size(w, t.stretch_size);
            round_tiles_are_of_size(w, radial_tiling(t, node));
            assert forall|r: Reply| (#[trigger] k(r)).always(post) by {
                if let Reply::Number(scale) = r {
                    assert(k(r) == interned_scaled(w, place, scale));
                }
            }
        },
        PrimitiveInstanceKind::ConicGradient(t) => {
            let post = new_tiles_are_of_size(w, t.stretch_size);
            round_tiles_are_of_size(w, conic_tiling(t, node));
            assert forall|r: Reply| (#[trigger] k(r)).always(post) by {
                if let Reply::Number(scale) = r {
                    assert(k(r) == interned_scaled(w, place, scale));
                }
            }
        },
        _ => {},
    }
}

} // verus!
