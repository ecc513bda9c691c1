//! Preparing gradients.
use vstd::prelude::*;

use crate::geometry::{Block, Rect, Size};
use crate::gradient_cache::{cache_gradient, cache_linear_gradient, CacheGradient, GradientArgs};
use crate::model::{
    CacheLimits, CachedGradientSegment, ConicGradientTemplate, GradientStopKey, InstanceModel,
    LinearGradientTemplate, PrimitiveInstance, PrimitiveVisibility, RadialGradientTemplate,
    SpatialNodeIndex, Token, Work, WorkModel,
};
use crate::program::{
    ask_token, tell, unexpected, Fault, Machine, Program, Progress, Reply, Request, Resume,
};
use crate::tiles::{
    decompose, decompose_repeated_primitive, Decompose, TileArgs, TileBlocks, Tiled, TiledModel,
};

verus! {

/// How a gradient is repeated over its primitive.
#[derive(Clone, Copy, Debug, PartialEq, Eq, Structural)]
pub struct GradientTiling {
    pub node: SpatialNodeIndex,
    pub prim_rect: Rect,
    pub stretch_size: Size,
    pub tile_spacing: Size,
    pub blocks: TileBlocks,
}

pub open spec fn linear_tiling(t: LinearGradientTemplate, node: SpatialNodeIndex) ->
    GradientTiling {
    GradientTiling {
        node,
        prim_rect: t.prim_rect,
        stretch_size: t.stretch_size,
        tile_spacing: t.tile_spacing,
        blocks: TileBlocks {
            first: Block {
                x: t.start_point.x,
                y: t.start_point.y,
                z: t.end_point.x,
                w: t.end_point.y,
            },
            lead: None,
            extend_mode: t.extend_mode,
            stretch_size: t.stretch_size,
        },
    }
}

pub open spec fn radial_tiling(t: RadialGradientTemplate, node: SpatialNodeIndex) ->
    GradientTiling {
    GradientTiling {
        node,
        prim_rect: t.prim_rect,
        stretch_size: t.stretch_size,
        tile_spacing: t.tile_spacing,
        blocks: TileBlocks {
            first: Block { x: t.center.x, y: t.center.y, z: t.start_radius, w: t.end_radius },
            lead: Some(t.ratio_xy),
            extend_mode: t.extend_mode,
            stretch_size: t.stretch_size,
        },
    }
}

pub open spec fn conic_tiling(t: ConicGradientTemplate, node: SpatialNodeIndex) -> GradientTiling {
    GradientTiling {
        node,
        prim_rect: t.prim_rect,
        stretch_size: t.stretch_size,
        tile_spacing: t.tile_spacing,
        blocks: TileBlocks {
            first: Block { x: t.center.x, y: t.center.y, z: t.start_offset, w: t.end_offset },
            lead: Some(t.angle),
            extend_mode: t.extend_mode,
            stretch_size: t.stretch_size,
        },
    }
}

pub open spec fn linear_args(t: LinearGradientTemplate, limits: CacheLimits) -> GradientArgs {
    GradientArgs {
        prim_rect: t.prim_rect,
        start_point: t.start_point,
        end_point: t.end_point,
        extend_mode: t.extend_mode,
        reverse_stops: t.reverse_stops,
        is_opaque: t.is_opaque,
        texture_region_dimensions: limits.texture_region_dimensions,
    }
}

fn tile_linear(t: &LinearGradientTemplate, node: SpatialNodeIndex) -> (tiling: GradientTiling)
    ensures
        tiling == linear_tiling(*t, node),
{
    GradientTiling {
        node,
        prim_rect: t.prim_rect,
        stretch_size: t.stretch_size,
        tile_spacing: t.tile_spacing,
        blocks: TileBlocks {
            first: Block {
                x: t.start_point.x,
                y: t.start_point.y,
                z: t.end_point.x,
                w: t.end_point.y,
            },
            lead: None,
            extend_mode: t.extend_mode,
            stretch_size: t.stretch_size,
        },
    }
}

/// How a radial gradient is repeated.
pub fn tile_radial(t: &RadialGradientTemplate, node: SpatialNodeIndex) -> (tiling: GradientTiling)
    ensures
        tiling == radial_tiling(*t, node),
{
    GradientTiling {
        node,
        prim_rect: t.prim_rect,
        stretch_size: t.stretch_size,
        tile_spacing: t.tile_spacing,
        blocks: TileBlocks {
            first: Block { x: t.center.x, y: t.center.y, z: t.start_radius, w: t.end_radius },
            lead: Some(t.ratio_xy),
            extend_mode: t.extend_mode,
            stretch_size: t.stretch_size,
        },
    }
}

/// How a conic gradient is repeated.
pub fn tile_conic(t: &ConicGradientTemplate, node: SpatialNodeIndex) -> (tiling: GradientTiling)
    ensures
        tiling == conic_tiling(*t, node),
{
    GradientTiling {
        node,
        prim_rect: t.prim_rect,
        stretch_size: t.stretch_size,
        tile_spacing: t.tile_spacing,
        blocks: TileBlocks {
            first: Block { x: t.center.x, y: t.center.y, z: t.start_offset, w: t.end_offset },
            lead: Some(t.angle),
            extend_mode: t.extend_mode,
            stretch_size: t.stretch_size,
        },
    }
}

/// The repetitions of a primitive that is visible.
pub open spec fn tile_args(tiling: GradientTiling, info: PrimitiveVisibility, mapper: Token) ->
    TileArgs {
    TileArgs {
        combined_local_clip_rect: info.combined_local_clip_rect,
        prim_local_rect: tiling.prim_rect,
        prim_world_rect: info.clipped_world_rect,
        stretch_size: tiling.stretch_size,
        tile_spacing: tiling.tile_spacing,
        mapper,
        blocks: tiling.blocks,
    }
}

/// The primitive with its visible repetitions; without any it is culled.
pub open spec fn with_tiles(instance: InstanceModel, t: TiledModel) -> WorkModel {
    WorkModel {
        instance: InstanceModel {
            visible_tiles_range: t.range,
            visibility_info: if t.range.vacant() {
                None
            } else {
                instance.visibility_info
            },
            ..instance
        },
        scratch: t.scratch,
    }
}

pub open spec fn gradient_tiled(instance: InstanceModel, p: Program<TiledModel>) -> Program<
    WorkModel,
> {
    p.bind(|t: TiledModel| Program::Return(with_tiles(instance, t)))
}

/// The shader need not repeat a gradient that is stretched over the whole primitive.
pub open spec fn stretches_over(tiling: GradientTiling) -> bool {
    tiling.stretch_size.covers(tiling.prim_rect.size)
}

pub open spec fn forbid_repetition(w: WorkModel, rest: Program<WorkModel>) -> Program<WorkModel> {
    tell(Request::AllowRepetition { prim: w.instance.id, may_need_repetition: false }, rest)
}

/// Prepares a linear gradient: its cached segments where it can be cached, and its repetitions
/// where there is space between them.
pub open spec fn linear_gradient(
    w: WorkModel,
    tiling: GradientTiling,
    cache: Option<(GradientArgs, Seq<GradientStopKey>)>,
) -> Program<WorkModel> {
    tell(
        Request::UpdateTemplate { prim: w.instance.id },
        linear_stretched(w, tiling, cache),
    )
}

pub open spec fn linear_stretched(
    w: WorkModel,
    tiling: GradientTiling,
    cache: Option<(GradientArgs, Seq<GradientStopKey>)>,
) -> Program<WorkModel> {
    if stretches_over(tiling) {
        forbid_repetition(w, linear_cached(w, tiling, cache))
    } else {
        linear_cached(w, tiling, cache)
    }
}

pub open spec fn linear_cached(
    w: WorkModel,
    tiling: GradientTiling,
    cache: Option<(GradientArgs, Seq<GradientStopKey>)>,
) -> Program<WorkModel> {
    match cache {
        Some((g, stops)) => linear_segmented(w, tiling, cache_gradient(g, stops)),
        None => linear_spaced(w, tiling),
    }
}

/// The primitive with other cached segments.
pub open spec fn with_cache_segments(w: WorkModel, segments: Seq<CachedGradientSegment>) ->
    WorkModel {
    WorkModel { instance: InstanceModel { cache_segments: segments, ..w.instance }, ..w }
}

pub open spec fn linear_segmented(
    w: WorkModel,
    tiling: GradientTiling,
    p: Program<Seq<CachedGradientSegment>>,
) -> Program<WorkModel> {
    p.bind(
        |segments: Seq<CachedGradientSegment>|
            linear_spaced(with_cache_segments(w, segments), tiling),
    )
}

pub open spec fn linear_spaced(w: WorkModel, tiling: GradientTiling) -> Program<WorkModel> {
    if tiling.tile_spacing.zero() {
        Program::Return(w)
    } else {
        forbid_repetition(w, linear_mapped(w, tiling))
    }
}

pub open spec fn linear_mapped(w: WorkModel, tiling: GradientTiling) -> Program<WorkModel> {
    match w.instance.visibility_info {
        None => Program::Fail(Fault::NotVisible),
        Some(info) => ask_token(
            Request::LocalToWorldMapper { node: tiling.node },
            |mapper: Token|
                gradient_tiled(
                    w.instance,
                    decompose(w.scratch, tile_args(tiling, info, mapper)),
                ),
        ),
    }
}

/// Prepares a radial or conic gradient: its repetitions where there is space between them.
pub open spec fn round_gradient(w: WorkModel, tiling: GradientTiling) -> Program<WorkModel> {
    if stretches_over(tiling) {
        forbid_repetition(w, round_updated(w, tiling))
    } else {
        round_updated(w, tiling)
    }
}

pub open spec fn round_updated(w: WorkModel, tiling: GradientTiling) -> Program<WorkModel> {
    tell(Request::UpdateTemplate { prim: w.instance.id }, round_spaced(w, tiling))
}

pub open spec fn round_spaced(w: WorkModel, tiling: GradientTiling) -> Program<WorkModel> {
    if tiling.tile_spacing.zero() {
        Program::Return(w)
    } else {
        match w.instance.visibility_info {
            None => Program::Fail(Fault::NotVisible),
            Some(info) => ask_token(
                Request::LocalToWorldMapper { node: tiling.node },
                |mapper: Token| round_mapped(w, tile_args(tiling, info, mapper)),
            ),
        }
    }
}

pub open spec fn round_mapped(w: WorkModel, t: TileArgs) -> Program<WorkModel> {
    forbid_repetition(w, gradient_tiled(w.instance, decompose(w.scratch, t)))
}

/// A run of [`prepare_linear_gradient`] or [`prepare_round_gradient`].
#[allow(inconsistent_fields)]
pub enum PrepareGradient {
    LinearUpdating {
        w: Work,
        tiling: GradientTiling,
        cache: Option<(GradientArgs, Vec<GradientStopKey>)>,
    },
    LinearForbidding {
        w: Work,
        tiling: GradientTiling,
        cache: Option<(GradientArgs, Vec<GradientStopKey>)>,
    },
    LinearCaching { w: Work, tiling: GradientTiling, inner: CacheGradient },
    LinearSpacing { w: Work, tiling: GradientTiling },
    LinearMapping { w: Work, tiling: GradientTiling, info: PrimitiveVisibility },
    RoundForbidding { w: Work, tiling: GradientTiling },
    RoundUpdating { w: Work, tiling: GradientTiling },
    RoundMapping { w: Work, tiling: GradientTiling, info: PrimitiveVisibility },
    RoundSpacing { w: Work, t: TileArgs },
    Tiling { instance: PrimitiveInstance, inner: Decompose },
}

/// What is cached, with its stops as a sequence.
pub open spec fn cache_model(cache: Option<(GradientArgs, Vec<GradientStopKey>)>) -> Option<
    (GradientArgs, Seq<GradientStopKey>),
> {
    match cache {
        Some((g, stops)) => Some((g, stops@)),
        None => None,
    }
}

impl PrepareGradient {
    fn args(tiling: GradientTiling, info: PrimitiveVisibility, mapper: Token) -> (t: TileArgs)
        ensures
            t == tile_args(tiling, info, mapper),
    {
        TileArgs {
            combined_local_clip_rect: info.combined_local_clip_rect,
            prim_local_rect: tiling.prim_rect,
            prim_world_rect: info.clipped_world_rect,
            stretch_size: tiling.stretch_size,
            tile_spacing: tiling.tile_spacing,
            mapper,
            blocks: tiling.blocks,
        }
    }

    fn cached(w: Work, tiling: GradientTiling, cache: Option<(GradientArgs, Vec<GradientStopKey>)>) -> (
    p: Progress<PrepareGradient>)
        ensures
            p.follows(linear_cached(w@, tiling, cache_model(cache))),
    {
        match cache {
            Some((g, stops)) => {
                let ghost e = cache_gradient(g, stops@);
                PrepareGradient::segmented(w, tiling, cache_linear_gradient(g, stops), Ghost(e))
            },
            None => PrepareGradient::spaced(w, tiling),
        }
    }

    fn segmented(
        w: Work,
        tiling: GradientTiling,
        p: Progress<CacheGradient>,
        Ghost(g): Ghost<Program<Seq<CachedGradientSegment>>>,
    ) -> (q: Progress<PrepareGradient>)
        requires
            p.follows(g),
        ensures
            q.follows(linear_segmented(w@, tiling, g)),
    {
        match p {
            Progress::Waiting(inner, q) => Progress::Waiting(
                PrepareGradient::LinearCaching { w, tiling, inner },
                q,
            ),
            Progress::Done(segments) => {
                let mut w = w;
                w.instance.cache_segments = segments;
                PrepareGradient::spaced(w, tiling)
            },
            Progress::Failed(fault) => Progress::Failed(fault),
        }
    }

    fn spaced(w: Work, tiling: GradientTiling) -> (p: Progress<PrepareGradient>)
        ensures
            p.follows(linear_spaced(w@, tiling)),
    {
        if tiling.tile_spacing.is_zero() {
            Progress::Done(w)
        } else {
            let prim = w.instance.id;
            Progress::Waiting(
                PrepareGradient::LinearSpacing { w, tiling },
                Request::AllowRepetition { prim, may_need_repetition: false },
            )
        }
    }

    fn round_update(w: Work, tiling: GradientTiling) -> (p: Progress<PrepareGradient>)
        ensures
            p.follows(round_updated(w@, tiling)),
    {
        let prim = w.instance.id;
        Progress::Waiting(
            PrepareGradient::RoundUpdating { w, tiling },
            Request::UpdateTemplate { prim },
        )
    }

    fn tiled(
        instance: PrimitiveInstance,
        p: Progress<Decompose>,
        Ghost(g): Ghost<Program<TiledModel>>,
    ) -> (q: Progress<PrepareGradient>)
        requires
            p.follows(g),
        ensures
            q.follows(gradient_tiled(instance@, g)),
    {
        match p {
            Progress::Waiting(inner, q) => Progress::Waiting(
                PrepareGradient::Tiling { instance, inner },
                q,
            ),
            Progress::Done(Tiled { scratch, range }) => {
                let mut instance = instance;
                instance.visible_tiles_range = range;
                if range.is_empty() {
                    instance.visibility_info = None;
                }
                Progress::Done(Work { instance, scratch })
            },
            Progress::Failed(fault) => Progress::Failed(fault),
        }
    }
}

impl Machine for PrepareGradient {
    type Out = Work;

    open spec fn after(self, r: Reply) -> Program<WorkModel> {
        match (self, r) {
            (PrepareGradient::LinearUpdating { w, tiling, cache }, Reply::Ack) => linear_stretched(
                w@,
                tiling,
                cache_model(cache),
            ),
            (PrepareGradient::LinearForbidding { w, tiling, cache }, Reply::Ack) => linear_cached(
                w@,
                tiling,
                cache_model(cache),
            ),
            (PrepareGradient::LinearCaching { w, tiling, inner }, r) => linear_segmented(
                w@,
                tiling,
                inner.after(r),
            ),
            (PrepareGradient::LinearSpacing { w, tiling }, Reply::Ack) => linear_mapped(w@, tiling),
            (PrepareGradient::LinearMapping { w, tiling, info }, Reply::Token(mapper)) => {
                gradient_tiled(
                    w@.instance,
                    decompose(w@.scratch, tile_args(tiling, info, mapper)),
                )
            },
            (PrepareGradient::RoundForbidding { w, tiling }, Reply::Ack) => round_updated(
                w@,
                tiling,
            ),
            (PrepareGradient::RoundUpdating { w, tiling }, Reply::Ack) => round_spaced(w@, tiling),
            (PrepareGradient::RoundMapping { w, tiling, info }, Reply::Token(mapper)) => {
                round_mapped(w@, tile_args(tiling, info, mapper))
            },
            (PrepareGradient::RoundSpacing { w, t }, Reply::Ack) => gradient_tiled(
                w@.instance,
                decompose(w@.scratch, t),
            ),
            (PrepareGradient::Tiling { instance, inner }, r) => gradient_tiled(
                instance@,
                inner.after(r),
            ),
            _ => unexpected(),
        }
    }
}

impl Resume for PrepareGradient {
    fn resume(self, reply: Reply) -> (p: Progress<Self>) {
        match (self, reply) {
            (PrepareGradient::LinearUpdating { w, tiling, cache }, Reply::Ack) => {
                if tiling.stretch_size.is_covering(tiling.prim_rect.size) {
                    let prim = w.instance.id;
                    Progress::Waiting(
                        PrepareGradient::LinearForbidding { w, tiling, cache },
                        Request::AllowRepetition { prim, may_need_repetition: false },
                    )
                } else {
                    PrepareGradient::cached(w, tiling, cache)
                }
            },
            (PrepareGradient::LinearForbidding { w, tiling, cache }, Reply::Ack) => {
                PrepareGradient::cached(w, tiling, cache)
            },
            (PrepareGradient::LinearCaching { w, tiling, inner }, reply) => {
                let ghost g = inner.after(reply);
                PrepareGradient::segmented(w, tiling, inner.resume(reply), Ghost(g))
            },
            (PrepareGradient::LinearSpacing { w, tiling }, Reply::Ack) => {
                match w.instance.visibility_info {
                    None => Progress::Failed(Fault::NotVisible),
                    Some(info) => Progress::Waiting(
                        PrepareGradient::LinearMapping { w, tiling, info },
                        Request::LocalToWorldMapper { node: tiling.node },
                    ),
                }
            },
            (PrepareGradient::LinearMapping { w, tiling, info }, Reply::Token(mapper)) => {
                let t = PrepareGradient::args(tiling, info, mapper);
                let ghost g = decompose(w@.scratch, t);
                let p = decompose_repeated_primitive(w.scratch, t);
                PrepareGradient::tiled(w.instance, p, Ghost(g))
            },
            (PrepareGradient::RoundForbidding { w, tiling }, Reply::Ack) => {
                PrepareGradient::round_update(w, tiling)
            },
            (PrepareGradient::RoundUpdating { w, tiling }, Reply::Ack) => {
                if tiling.tile_spacing.is_zero() {
                    return Progress::Done(w);
                }
                match w.instance.visibility_info {
                    None => Progress::Failed(Fault::NotVisible),
                    Some(info) => Progress::Waiting(
                        PrepareGradient::RoundMapping { w, tiling, info },
                        Request::LocalToWorldMapper { node: tiling.node },
                    ),
                }
            },
            (PrepareGradient::RoundMapping { w, tiling, info }, Reply::Token(mapper)) => {
                let prim = w.instance.id;
                let t = PrepareGradient::args(tiling, info, mapper);
                Progress::Waiting(
                    PrepareGradient::RoundSpacing { w, t },
                    Request::AllowRepetition { prim, may_need_repetition: false },
                )
            },
            (PrepareGradient::RoundSpacing { w, t }, Reply::Ack) => {
                let ghost g = decompose(w@.scratch, t);
                let p = decompose_repeated_primitive(w.scratch, t);
                PrepareGradient::tiled(w.instance, p, Ghost(g))
            },
            (PrepareGradient::Tiling { instance, inner }, reply) => {
                let ghost g = inner.after(reply);
                PrepareGradient::tiled(instance, inner.resume(reply), Ghost(g))
            },
            _ => Progress::Failed(Fault::UnexpectedReply),
        }
    }
}

fn copy_stops(stops: &Vec<GradientStopKey>) -> (copied: Vec<GradientStopKey>)
    ensures
        copied@ == stops@,
{
    let mut copied: Vec<GradientStopKey> = Vec::new();
    let mut i: usize = 0;
    while i < stops.len()
        invariant
            i <= stops@.len(),
            copied@ == stops@.subrange(0, i as int),
        decreases stops@.len() - i,
    {
        copied.push(stops[i]);
        i = i + 1;
    }
    copied
}

/// What is cached of a linear gradient, if it can be cached.
pub open spec fn linear_cache(t: LinearGradientTemplate, limits: CacheLimits) -> Option<
    (GradientArgs, Seq<GradientStopKey>),
> {
    if t.supports_caching {
        Some((linear_args(t, limits), t.stops@))
    } else {
        None
    }
}

/// How a linear gradient is repeated, and what is cached of it.
pub struct LinearPlan {
    pub tiling: GradientTiling,
    pub cache: Option<(GradientArgs, Vec<GradientStopKey>)>,
}

/// How a linear gradient is repeated, and what is cached of it.
pub fn plan_linear(t: &LinearGradientTemplate, node: SpatialNodeIndex, limits: CacheLimits) -> (
plan: LinearPlan)
    ensures
        plan.tiling == linear_tiling(*t, node),
        cache_model(plan.cache) == linear_cache(*t, limits),
{
    let tiling = tile_linear(t, node);
    if t.supports_caching {
        let g = GradientArgs {
            prim_rect: t.prim_rect,
            start_point: t.start_point,
            end_point: t.end_point,
            extend_mode: t.extend_mode,
            reverse_stops: t.reverse_stops,
            is_opaque: t.is_opaque,
            texture_region_dimensions: limits.texture_region_dimensions,
        };
        LinearPlan { tiling, cache: Some((g, copy_stops(&t.stops))) }
    } else {
        LinearPlan { tiling, cache: None }
    }
}

/// Prepares a linear gradient.
pub fn prepare_linear_gradient(w: Work, plan: LinearPlan) -> (p: Progress<PrepareGradient>)
    ensures
        p.follows(linear_gradient(w@, plan.tiling, cache_model(plan.cache))),
{
    let prim = w.instance.id;
    Progress::Waiting(
        PrepareGradient::LinearUpdating { w, tiling: plan.tiling, cache: plan.cache },
        Request::UpdateTemplate { prim },
    )
}

/// Prepares a radial or conic gradient.
pub fn prepare_round_gradient(w: Work, tiling: GradientTiling) -> (p: Progress<PrepareGradient>)
    ensures
        p.follows(round_gradient(w@, tiling)),
{
    if tiling.stretch_size.is_covering(tiling.prim_rect.size) {
        let prim = w.instance.id;
        Progress::Waiting(
            PrepareGradient::RoundForbidding { w, tiling },
            Request::AllowRepetition { prim, may_need_repetition: false },
        )
    } else {
        PrepareGradient::round_update(w, tiling)
    }
}

} // verus!
