//! The visible repetitions of a gradient.
use vstd::prelude::*;

use crate::geometry::{plus, value, Block, Point, Rect, Size};
use crate::model::{
    ExtendMode, GpuCacheHandle, IndexRange, PrimitiveScratchBuffer, ScratchModel, Token,
    VisibleGradientTile,
};
use crate::program::{
    ask_gpu_blocks, ask_maybe_rect, ask_number, ask_rect, tell, unexpected, Fault, Machine,
    Program, Progress, Reply, Request, Resume,
};
use crate::scalar::{Scalar, ZERO};

verus! {

/// What the GPU cache holds of each repetition of a gradient.
#[derive(Clone, Copy, Debug, PartialEq, Eq, Structural)]
pub struct TileBlocks {
    pub first: Block,
    /// The number before the extend mode in the second block, where there is one.
    pub lead: Option<Scalar>,
    pub extend_mode: ExtendMode,
    pub stretch_size: Size,
}

impl TileBlocks {
    /// The second block, with the extend mode as a number for shaders.
    pub open spec fn second_spec(self, packed: Scalar) -> Block {
        match self.lead {
            Some(lead) => Block {
                x: lead,
                y: packed,
                z: self.stretch_size.width,
                w: self.stretch_size.height,
            },
            None => Block {
                x: packed,
                y: self.stretch_size.width,
                z: self.stretch_size.height,
                w: Scalar { bits: ZERO },
            },
        }
    }

    fn second(self, packed: Scalar) -> (b: Block)
        ensures
            b == self.second_spec(packed),
    {
        match self.lead {
            Some(lead) => Block {
                x: lead,
                y: packed,
                z: self.stretch_size.width,
                w: self.stretch_size.height,
            },
            None => Block {
                x: packed,
                y: self.stretch_size.width,
                z: self.stretch_size.height,
                w: Scalar { bits: ZERO },
            },
        }
    }
}

/// The number of an extend mode.
pub open spec fn extend_mode_number(mode: ExtendMode) -> u32 {
    match mode {
        ExtendMode::Clamp => 0,
        ExtendMode::Repeat => 1,
    }
}

fn number_of(mode: ExtendMode) -> (n: u32)
    ensures
        n == extend_mode_number(mode),
{
    match mode {
        ExtendMode::Clamp => 0,
        ExtendMode::Repeat => 1,
    }
}

/// The repeated primitive.
#[derive(Clone, Copy, Debug, PartialEq, Eq, Structural)]
pub struct TileArgs {
    pub combined_local_clip_rect: Rect,
    pub prim_local_rect: Rect,
    pub prim_world_rect: Rect,
    pub stretch_size: Size,
    pub tile_spacing: Size,
    pub mapper: Token,
    pub blocks: TileBlocks,
}

/// A repeated primitive while its repetitions are collected.
pub struct TileRun {
    pub s: PrimitiveScratchBuffer,
    pub t: TileArgs,
    pub tight_clip_rect: Rect,
    pub origins: Vec<Point>,
    /// The repetitions that are done.
    pub tiles: Vec<VisibleGradientTile>,
}

/// A repeated primitive while its repetitions are collected, with sequences.
#[verifier::ext_equal]
pub struct TileRunModel {
    pub s: ScratchModel,
    pub t: TileArgs,
    pub tight_clip_rect: Rect,
    pub origins: Seq<Point>,
    pub tiles: Seq<VisibleGradientTile>,
}

impl View for TileRun {
    type V = TileRunModel;

    open spec fn view(&self) -> TileRunModel {
        TileRunModel {
            s: self.s@,
            t: self.t,
            tight_clip_rect: self.tight_clip_rect,
            origins: self.origins@,
            tiles: self.tiles@,
        }
    }
}

/// The buffers, and where in them the repetitions are.
pub struct Tiled {
    pub scratch: PrimitiveScratchBuffer,
    pub range: IndexRange,
}

/// The buffers as sequences, and where in them the repetitions are.
#[verifier::ext_equal]
pub struct TiledModel {
    pub scratch: ScratchModel,
    pub range: IndexRange,
}

impl View for Tiled {
    type V = TiledModel;

    open spec fn view(&self) -> TiledModel {
        TiledModel { scratch: self.scratch@, range: self.range }
    }
}

/// Finds the visible repetitions of a primitive and puts them at the end of the buffer. The
/// primitive has to lie in its clip rectangle at least in part.
pub open spec fn decompose(s: ScratchModel, t: TileArgs) -> Program<TiledModel> {
    ask_maybe_rect(
        Request::Intersect { a: t.combined_local_clip_rect, b: t.prim_local_rect },
        |tight: Option<Rect>| decompose_seen(s, t, tight),
    )
}

pub open spec fn decompose_seen(s: ScratchModel, t: TileArgs, tight: Option<Rect>) -> Program<
    TiledModel,
> {
    match tight {
        None => Program::Fail(Fault::OutsideClip),
        Some(rect) => ask_rect(
            Request::ConservativeVisibleRect {
                clip_rect: rect,
                world_rect: t.prim_world_rect,
                mapper: t.mapper,
            },
            |visible: Rect| decompose_stride_width(s, t, rect, visible),
        ),
    }
}

pub open spec fn decompose_stride_width(
    s: ScratchModel,
    t: TileArgs,
    tight: Rect,
    visible: Rect,
) -> Program<TiledModel> {
    ask_number(
        Request::Evaluate(plus(value(t.stretch_size.width), value(t.tile_spacing.width))),
        |width: Scalar| decompose_stride_height(s, t, tight, visible, width),
    )
}

pub open spec fn decompose_stride_height(
    s: ScratchModel,
    t: TileArgs,
    tight: Rect,
    visible: Rect,
    width: Scalar,
) -> Program<TiledModel> {
    ask_number(
        Request::Evaluate(plus(value(t.stretch_size.height), value(t.tile_spacing.height))),
        |height: Scalar| decompose_repeated(s, t, tight, visible, Size { width, height }),
    )
}

pub open spec fn decompose_repeated(
    s: ScratchModel,
    t: TileArgs,
    tight: Rect,
    visible: Rect,
    stride: Size,
) -> Program<TiledModel> {
    Program::Call(
        Request::Repetitions { prim_rect: t.prim_local_rect, visible_rect: visible, stride },
        |r: Reply|
            match r {
                Reply::Origins(origins) => tiles_from(
                    TileRunModel {
                        s,
                        t,
                        tight_clip_rect: tight,
                        origins: origins@,
                        tiles: Seq::empty(),
                    },
                ),
                _ => unexpected(),
            },
    )
}

/// The repetition that is next, with its data in the GPU cache.
pub open spec fn with_tile(run: TileRunModel, handle: GpuCacheHandle) -> TileRunModel {
    TileRunModel {
        tiles: run.tiles.push(
            VisibleGradientTile {
                local_rect: Rect {
                    origin: run.origins[run.tiles.len() as int],
                    size: run.t.stretch_size,
                },
                local_clip_rect: run.tight_clip_rect,
                handle,
            },
        ),
        ..run
    }
}

/// The repetitions that are not done yet.
pub open spec fn tiles_from(run: TileRunModel) -> Program<TiledModel>
    decreases run.origins.len() - run.tiles.len(), 9int,
{
    if run.tiles.len() < run.origins.len() {
        ask_gpu_blocks(
            Request::RequestGpuBlocks { handle: GpuCacheHandle { slot: None } },
            |handle: GpuCacheHandle, granted: bool| tile_granted(run, handle, granted),
        )
    } else {
        Program::Return(tiles_stored(run))
    }
}

pub open spec fn tile_granted(run: TileRunModel, handle: GpuCacheHandle, granted: bool) -> Program<
    TiledModel,
>
    decreases run.origins.len() - run.tiles.len(), 8int,
{
    if granted {
        tell(
            Request::PushBlock { block: run.t.blocks.first },
            tile_packed(run, handle),
        )
    } else {
        tile_done(run, handle)
    }
}

pub open spec fn tile_packed(run: TileRunModel, handle: GpuCacheHandle) -> Program<TiledModel>
    decreases run.origins.len() - run.tiles.len(), 7int,
{
    ask_number(
        Request::PackAsFloat { value: extend_mode_number(run.t.blocks.extend_mode) },
        |packed: Scalar| tile_written(run, handle, packed),
    )
}

pub open spec fn tile_written(run: TileRunModel, handle: GpuCacheHandle, packed: Scalar) -> Program<
    TiledModel,
>
    decreases run.origins.len() - run.tiles.len(), 6int,
{
    tell(
        Request::PushBlock { block: run.t.blocks.second_spec(packed) },
        tile_finished(run, handle),
    )
}

pub open spec fn tile_finished(run: TileRunModel, handle: GpuCacheHandle) -> Program<TiledModel>
    decreases run.origins.len() - run.tiles.len(), 5int,
{
    tell(Request::FinishGpuBlocks, tile_done(run, handle))
}

pub open spec fn tile_done(run: TileRunModel, handle: GpuCacheHandle) -> Program<TiledModel>
    decreases run.origins.len() - run.tiles.len(), 4int,
{
    if run.tiles.len() < run.origins.len() {
        tiles_from(with_tile(run, handle))
    } else {
        unexpected()
    }
}

/// The buffers with the repetitions at the end; without any the range is the empty one.
pub open spec fn tiles_stored(run: TileRunModel) -> TiledModel {
    if run.tiles.len() == 0 {
        TiledModel { scratch: run.s, range: IndexRange { start: 0, end: 0 } }
    } else {
        TiledModel {
            scratch: ScratchModel { gradient_tiles: run.s.gradient_tiles + run.tiles, ..run.s },
            range: IndexRange {
                start: run.s.gradient_tiles.len() as usize,
                end: (run.s.gradient_tiles.len() + run.tiles.len()) as usize,
            },
        }
    }
}

/// A run of [`decompose_repeated_primitive`].
pub enum Decompose {
    Clipping { s: PrimitiveScratchBuffer, t: TileArgs },
    Seeing { s: PrimitiveScratchBuffer, t: TileArgs, tight: Rect },
    StrideWidth { s: PrimitiveScratchBuffer, t: TileArgs, tight: Rect, visible: Rect },
    StrideHeight {
        s: PrimitiveScratchBuffer,
        t: TileArgs,
        tight: Rect,
        visible: Rect,
        width: Scalar,
    },
    Repeating { s: PrimitiveScratchBuffer, t: TileArgs, tight: Rect },
    Requesting { run: TileRun },
    PushingFirst { run: TileRun, handle: GpuCacheHandle },
    Packing { run: TileRun, handle: GpuCacheHandle },
    PushingSecond { run: TileRun, handle: GpuCacheHandle },
    Finishing { run: TileRun, handle: GpuCacheHandle },
}

impl Decompose {
    fn from(run: TileRun) -> (p: Progress<Decompose>)
        ensures
            p.follows(tiles_from(run@)),
    {
        if run.tiles.len() < run.origins.len() {
            Progress::Waiting(
                Decompose::Requesting { run },
                Request::RequestGpuBlocks { handle: GpuCacheHandle { slot: None } },
            )
        } else {
            Progress::Done(Decompose::store(run))
        }
    }

    fn done(run: TileRun, handle: GpuCacheHandle) -> (p: Progress<Decompose>)
        ensures
            p.follows(tile_done(run@, handle)),
    {
        if run.tiles.len() < run.origins.len() {
            let mut run = run;
            let origin = run.origins[run.tiles.len()];
            run.tiles.push(
                VisibleGradientTile {
                    local_rect: Rect { origin, size: run.t.stretch_size },
                    local_clip_rect: run.tight_clip_rect,
                    handle,
                },
            );
            Decompose::from(run)
        } else {
            Progress::Failed(Fault::UnexpectedReply)
        }
    }

    fn store(run: TileRun) -> (tiled: Tiled)
        ensures
            tiled@ == tiles_stored(run@),
    {
        let mut run = run;
        if run.tiles.len() == 0 {
            return Tiled { scratch: run.s, range: IndexRange::empty() };
        }
        let start: usize = run.s.gradient_tiles.len();
        run.s.gradient_tiles.append(&mut run.tiles);
        let end: usize = run.s.gradient_tiles.len();
        Tiled { scratch: run.s, range: IndexRange { start, end } }
    }
}

impl Machine for Decompose {
    type Out = Tiled;

    open spec fn after(self, r: Reply) -> Program<TiledModel> {
        match (self, r) {
            (Decompose::Clipping { s, t }, Reply::MaybeRect(tight)) => decompose_seen(s@, t, tight),
            (Decompose::Seeing { s, t, tight }, Reply::Rect(visible)) => decompose_stride_width(
                s@,
                t,
                tight,
                visible,
            ),
            (Decompose::StrideWidth { s, t, tight, visible }, Reply::Number(width)) => {
                decompose_stride_height(s@, t, tight, visible, width)
            },
            (Decompose::StrideHeight { s, t, tight, visible, width }, Reply::Number(height)) => {
                decompose_repeated(s@, t, tight, visible, Size { width, height })
            },
            (Decompose::Repeating { s, t, tight }, Reply::Origins(origins)) => tiles_from(
                TileRunModel {
                    s: s@,
                    t,
                    tight_clip_rect: tight,
                    origins: origins@,
                    tiles: Seq::empty(),
                },
            ),
            (Decompose::Requesting { run }, Reply::GpuBlocks { handle, granted }) => tile_granted(
                run@,
                handle,
                granted,
            ),
            (Decompose::PushingFirst { run, handle }, Reply::Ack) => tile_packed(run@, handle),
            (Decompose::Packing { run, handle }, Reply::Number(packed)) => tile_written(
                run@,
                handle,
                packed,
            ),
            (Decompose::PushingSecond { run, handle }, Reply::Ack) => tile_finished(run@, handle),
            (Decompose::Finishing { run, handle }, Reply::Ack) => tile_done(run@, handle),
            _ => unexpected(),
        }
    }
}

impl Resume for Decompose {
    fn resume(self, reply: Reply) -> (p: Progress<Self>) {
        match (self, reply) {
            (Decompose::Clipping { s, t }, Reply::MaybeRect(tight)) => {
                match tight {
                    None => Progress::Failed(Fault::OutsideClip),
                    Some(rect) => Progress::Waiting(
                        Decompose::Seeing { s, t, tight: rect },
                        Request::ConservativeVisibleRect {
                            clip_rect: rect,
                            world_rect: t.prim_world_rect,
                            mapper: t.mapper,
                        },
                    ),
                }
            },
            (Decompose::Seeing { s, t, tight }, Reply::Rect(visible)) => Progress::Waiting(
                Decompose::StrideWidth { s, t, tight, visible },
                Request::Evaluate(plus(value(t.stretch_size.width), value(t.tile_spacing.width))),
            ),
            (Decompose::StrideWidth { s, t, tight, visible }, Reply::Number(width)) => {
                Progress::Waiting(
                    Decompose::StrideHeight { s, t, tight, visible, width },
                    Request::Evaluate(
                        plus(value(t.stretch_size.height), value(t.tile_spacing.height)),
                    ),
                )
            },
            (Decompose::StrideHeight { s, t, tight, visible, width }, Reply::Number(height)) => {
                Progress::Waiting(
                    Decompose::Repeating { s, t, tight },
                    Request::Repetitions {
                        prim_rect: t.prim_local_rect,
                        visible_rect: visible,
                        stride: Size { width, height },
                    },
                )
            },
            (Decompose::Repeating { s, t, tight }, Reply::Origins(origins)) => Decompose::from(
                TileRun { s, t, tight_clip_rect: tight, origins, tiles: Vec::new() },
            ),
            (Decompose::Requesting { run }, Reply::GpuBlocks { handle, granted }) => {
                if granted {
                    let block = run.t.blocks.first;
                    Progress::Waiting(
                        Decompose::PushingFirst { run, handle },
                        Request::PushBlock { block },
                    )
                } else {
                    Decompose::done(run, handle)
                }
            },
            (Decompose::PushingFirst { run, handle }, Reply::Ack) => {
                let number: u32 = number_of(run.t.blocks.extend_mode);
                Progress::Waiting(
                    Decompose::Packing { run, handle },
                    Request::PackAsFloat { value: number },
                )
            },
            (Decompose::Packing { run, handle }, Reply::Number(packed)) => {
                let block = run.t.blocks.second(packed);
                Progress::Waiting(
                    Decompose::PushingSecond { run, handle },
                    Request::PushBlock { block },
                )
            },
            (Decompose::PushingSecond { run, handle }, Reply::Ack) => Progress::Waiting(
                Decompose::Finishing { run, handle },
                Request::FinishGpuBlocks,
            ),
            (Decompose::Finishing { run, handle }, Reply::Ack) => Decompose::done(run, handle),
            _ => Progress::Failed(Fault::UnexpectedReply),
        }
    }
}

/// Finds the visible repetitions of a primitive.
pub fn decompose_repeated_primitive(s: PrimitiveScratchBuffer, t: TileArgs) -> (p: Progress<
    Decompose,
>)
    ensures
        p.follows(decompose(s@, t)),
{
    Progress::Waiting(
        Decompose::Clipping { s, t },
        Request::Intersect { a: t.combined_local_clip_rect, b: t.prim_local_rect },
    )
}

} // verus!
