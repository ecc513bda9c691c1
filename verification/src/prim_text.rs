//! Preparing line decorations and text.
use vstd::prelude::*;

use crate::geometry::{minus, over, value, Expr, IntSize, Point, Rect};
use crate::model::{
    InstanceModel, LineDecorationCacheKey, PrimPlace, Token, Work, WorkModel,
};
use crate::program::{
    ask_int_size, ask_number, ask_task_handle, ask_token, tell, unexpected, Fault, Machine,
    Program, Progress, Reply, Request, Resume,
};
use crate::scalar::{Scalar, ONE};

verus! {

/// Whether the task of a line decoration would be too large.
pub open spec fn line_too_large(size: IntSize, limit: i32) -> bool {
    size.width > limit || size.height > limit
}

pub open spec fn larger_extent(size: IntSize) -> i32 {
    if size.width > size.height {
        size.width
    } else {
        size.height
    }
}

/// A line decoration with a cache key is drawn by a task, whose extents are kept within a limit.
/// A solid line needs none.
pub open spec fn line(
    w: WorkModel,
    key: Option<LineDecorationCacheKey>,
    scale: Scalar,
    limit: i32,
) -> Program<WorkModel> {
    tell(Request::UpdateTemplate { prim: w.instance.id }, line_keyed(w, key, scale, limit))
}

pub open spec fn line_keyed(
    w: WorkModel,
    key: Option<LineDecorationCacheKey>,
    scale: Scalar,
    limit: i32,
) -> Program<WorkModel> {
    match key {
        None => Program::Return(w),
        Some(key) => ask_int_size(
            Request::CeilTaskSize { size: key.size, scale, shrink: None },
            |size: IntSize| line_sized(w, key, scale, limit, size),
        ),
    }
}

pub open spec fn line_sized(
    w: WorkModel,
    key: LineDecorationCacheKey,
    scale: Scalar,
    limit: i32,
    size: IntSize,
) -> Program<WorkModel> {
    if line_too_large(size, limit) {
        ask_number(
            Request::Evaluate(
                over(Expr::Whole(limit), Expr::Whole(larger_extent(size))),
            ),
            |shrink: Scalar| line_shrunk(w, key, scale, shrink),
        )
    } else {
        line_task(w, key, size)
    }
}

pub open spec fn line_shrunk(
    w: WorkModel,
    key: LineDecorationCacheKey,
    scale: Scalar,
    shrink: Scalar,
) -> Program<WorkModel> {
    ask_int_size(
        Request::CeilTaskSize { size: key.size, scale, shrink: Some(shrink) },
        |size: IntSize| line_task(w, key, size),
    )
}

pub open spec fn line_task(w: WorkModel, key: LineDecorationCacheKey, size: IntSize) -> Program<
    WorkModel,
> {
    ask_task_handle(
        Request::LineDecorationTask { size, key },
        |handle: u64| Program::Return(with_cache_handle(w, handle)),
    )
}

/// The primitive with the task that draws it.
pub open spec fn with_cache_handle(w: WorkModel, handle: u64) -> WorkModel {
    WorkModel { instance: InstanceModel { cache_handle: Some(handle), ..w.instance }, ..w }
}

/// A run of [`prepare_line_decoration`].
#[allow(inconsistent_fields)]
pub enum PrepareLine {
    Updating { w: Work, key: Option<LineDecorationCacheKey>, scale: Scalar, limit: i32 },
    Sizing { w: Work, key: LineDecorationCacheKey, scale: Scalar, limit: i32 },
    Shrinking { w: Work, key: LineDecorationCacheKey, scale: Scalar },
    Resizing { w: Work, key: LineDecorationCacheKey },
    Requesting { w: Work },
}

impl Machine for PrepareLine {
    type Out = Work;

    open spec fn after(self, r: Reply) -> Program<WorkModel> {
        match (self, r) {
            (PrepareLine::Updating { w, key, scale, limit }, Reply::Ack) => line_keyed(
                w@,
                key,
                scale,
                limit,
            ),
            (PrepareLine::Sizing { w, key, scale, limit }, Reply::IntSize(size)) => line_sized(
                w@,
                key,
                scale,
                limit,
                size,
            ),
            (PrepareLine::Shrinking { w, key, scale }, Reply::Number(shrink)) => line_shrunk(
                w@,
                key,
                scale,
                shrink,
            ),
            (PrepareLine::Resizing { w, key }, Reply::IntSize(size)) => line_task(w@, key, size),
            (PrepareLine::Requesting { w }, Reply::TaskHandle(handle)) => Program::Return(
                with_cache_handle(w@, handle),
            ),
            _ => unexpected(),
        }
    }
}

impl Resume for PrepareLine {
    fn resume(self, reply: Reply) -> (p: Progress<Self>) {
        match (self, reply) {
            (PrepareLine::Updating { w, key, scale, limit }, Reply::Ack) => {
                match key {
                    None => Progress::Done(w),
                    Some(key) => Progress::Waiting(
                        PrepareLine::Sizing { w, key, scale, limit },
                        Request::CeilTaskSize { size: key.size, scale, shrink: None },
                    ),
                }
            },
            (PrepareLine::Sizing { w, key, scale, limit }, Reply::IntSize(size)) => {
                if size.width > limit || size.height > limit {
                    let largest: i32 = if size.width > size.height {
                        size.width
                    } else {
                        size.height
                    };
                    Progress::Waiting(
                        PrepareLine::Shrinking { w, key, scale },
                        Request::Evaluate(over(Expr::Whole(limit), Expr::Whole(largest))),
                    )
                } else {
                    Progress::Waiting(
                        PrepareLine::Requesting { w },
                        Request::LineDecorationTask { size, key },
                    )
                }
            },
            (PrepareLine::Shrinking { w, key, scale }, Reply::Number(shrink)) => Progress::Waiting(
                PrepareLine::Resizing { w, key },
                Request::CeilTaskSize { size: key.size, scale, shrink: Some(shrink) },
            ),
            (PrepareLine::Resizing { w, key }, Reply::IntSize(size)) => Progress::Waiting(
                PrepareLine::Requesting { w },
                Request::LineDecorationTask { size, key },
            ),
            (PrepareLine::Requesting { w }, Reply::TaskHandle(handle)) => {
                let mut w = w;
                w.instance.cache_handle = Some(handle);
                Progress::Done(w)
            },
            _ => Progress::Failed(Fault::UnexpectedReply),
        }
    }
}

/// Prepares a line decoration.
pub fn prepare_line_decoration(
    w: Work,
    key: Option<LineDecorationCacheKey>,
    scale: Scalar,
    limit: i32,
) -> (p: Progress<PrepareLine>)
    ensures
        p.follows(line(w@, key, scale, limit)),
{
    let prim = w.instance.id;
    Progress::Waiting(
        PrepareLine::Updating { w, key, scale, limit },
        Request::UpdateTemplate { prim },
    )
}

/// What is known of a run of text before its glyphs are requested.
#[derive(Clone, Copy, Debug, PartialEq, Eq, Structural)]
pub struct TextArgs {
    pub prim_origin: Point,
    pub reference_frame_relative_offset: Point,
    pub pic_clip_rect: Rect,
    pub place: PrimPlace,
}

/// Requests the glyphs of a run of text, in the space that they are rasterised in.
pub open spec fn text(w: WorkModel, a: TextArgs) -> Program<WorkModel> {
    tell(
        Request::AllowRepetition { prim: w.instance.id, may_need_repetition: false },
        text_transform(w, a),
    )
}

pub open spec fn text_transform(w: WorkModel, a: TextArgs) -> Program<WorkModel> {
    ask_token(
        Request::RelativeTransform {
            from: a.place.prim_spatial_node_index,
            to: a.place.context.raster_spatial_node_index,
        },
        |transform: Token| text_x(w, a, transform),
    )
}

pub open spec fn text_x(w: WorkModel, a: TextArgs, transform: Token) -> Program<WorkModel> {
    ask_number(
        Request::Evaluate(
            minus(value(a.prim_origin.x), value(a.reference_frame_relative_offset.x)),
        ),
        |x: Scalar| text_y(w, a, transform, x),
    )
}

pub open spec fn text_y(w: WorkModel, a: TextArgs, transform: Token, x: Scalar) -> Program<
    WorkModel,
> {
    ask_number(
        Request::Evaluate(
            minus(value(a.prim_origin.y), value(a.reference_frame_relative_offset.y)),
        ),
        |y: Scalar| text_space(w, a, transform, Point { x, y }),
    )
}

pub open spec fn text_space(w: WorkModel, a: TextArgs, transform: Token, offset: Point) -> Program<
    WorkModel,
> {
    ask_token(
        Request::RasterSpace { pic_index: a.place.context.pic_index },
        |space: Token| text_scaling(w, a, transform, offset, space),
    )
}

pub open spec fn text_scaling(
    w: WorkModel,
    a: TextArgs,
    transform: Token,
    offset: Point,
    space: Token,
) -> Program<WorkModel> {
    Program::Call(
        Request::RootScalingFactor { pic_index: a.place.context.pic_index },
        |r: Reply|
            match r {
                Reply::MaybeNumber(factor) => text_glyphs(w, a, transform, offset, space, factor),
                _ => unexpected(),
            },
    )
}

/// A picture that is not rasterised on its own is not scaled.
pub open spec fn scaling_or_one(factor: Option<Scalar>) -> Scalar {
    match factor {
        Some(factor) => factor,
        None => Scalar { bits: ONE },
    }
}

pub open spec fn text_glyphs(
    w: WorkModel,
    a: TextArgs,
    transform: Token,
    offset: Point,
    space: Token,
    factor: Option<Scalar>,
) -> Program<WorkModel> {
    tell(
        Request::RequestGlyphs {
            prim: w.instance.id,
            prim_offset: offset,
            pic_clip_rect: a.pic_clip_rect,
            transform,
            surface: a.place.context.surface_index,
            node: a.place.prim_spatial_node_index,
            raster_space: space,
            root_scaling_factor: scaling_or_one(factor),
            subpixel_mode: a.place.context.subpixel_mode,
        },
        text_updated(w),
    )
}

pub open spec fn text_updated(w: WorkModel) -> Program<WorkModel> {
    tell(Request::UpdateTemplate { prim: w.instance.id }, Program::Return(w))
}

/// A run of [`prepare_text_run`].
pub enum PrepareText {
    Forbidding { w: Work, a: TextArgs },
    Transforming { w: Work, a: TextArgs },
    OffsetX { w: Work, a: TextArgs, transform: Token },
    OffsetY { w: Work, a: TextArgs, transform: Token, x: Scalar },
    FindingSpace { w: Work, a: TextArgs, transform: Token, offset: Point },
    FindingScaling { w: Work, a: TextArgs, transform: Token, offset: Point, space: Token },
    Requesting { w: Work },
    Updating { w: Work },
}

impl Machine for PrepareText {
    type Out = Work;

    open spec fn after(self, r: Reply) -> Program<WorkModel> {
        match (self, r) {
            (PrepareText::Forbidding { w, a }, Reply::Ack) => text_transform(w@, a),
            (PrepareText::Transforming { w, a }, Reply::Token(transform)) => text_x(
                w@,
                a,
                transform,
            ),
            (PrepareText::OffsetX { w, a, transform }, Reply::Number(x)) => text_y(
                w@,
                a,
                transform,
                x,
            ),
            (PrepareText::OffsetY { w, a, transform, x }, Reply::Number(y)) => text_space(
                w@,
                a,
                transform,
                Point { x, y },
            ),
            (PrepareText::FindingSpace { w, a, transform, offset }, Reply::Token(space)) => {
                text_scaling(w@, a, transform, offset, space)
            },
            (
                PrepareText::FindingScaling { w, a, transform, offset, space },
                Reply::MaybeNumber(factor),
            ) => text_glyphs(w@, a, transform, offset, space, factor),
            (PrepareText::Requesting { w }, Reply::Ack) => text_updated(w@),
            (PrepareText::Updating { w }, Reply::Ack) => Program::Return(w@),
            _ => unexpected(),
        }
    }
}

impl Resume for PrepareText {
    fn resume(self, reply: Reply) -> (p: Progress<Self>) {
        match (self, reply) {
            (PrepareText::Forbidding { w, a }, Reply::Ack) => Progress::Waiting(
                PrepareText::Transforming { w, a },
                Request::RelativeTransform {
                    from: a.place.prim_spatial_node_index,
                    to: a.place.context.raster_spatial_node_index,
                },
            ),
            (PrepareText::Transforming { w, a }, Reply::Token(transform)) => Progress::Waiting(
                PrepareText::OffsetX { w, a, transform },
                Request::Evaluate(
                    minus(value(a.prim_origin.x), value(a.reference_frame_relative_offset.x)),
                ),
            ),
            (PrepareText::OffsetX { w, a, transform }, Reply::Number(x)) => Progress::Waiting(
                PrepareText::OffsetY { w, a, transform, x },
                Request::Evaluate(
                    minus(value(a.prim_origin.y), value(a.reference_frame_relative_offset.y)),
                ),
            ),
            (PrepareText::OffsetY { w, a, transform, x }, Reply::Number(y)) => Progress::Waiting(
                PrepareText::FindingSpace { w, a, transform, offset: Point { x, y } },
                Request::RasterSpace { pic_index: a.place.context.pic_index },
            ),
            (PrepareText::FindingSpace { w, a, transform, offset }, Reply::Token(space)) => {
                Progress::Waiting(
                    PrepareText::FindingScaling { w, a, transform, offset, space },
                    Request::RootScalingFactor { pic_index: a.place.context.pic_index },
                )
            },
            (
                PrepareText::FindingScaling { w, a, transform, offset, space },
                Reply::MaybeNumber(factor),
            ) => {
                let prim = w.instance.id;
                let root_scaling_factor = match factor {
                    Some(factor) => factor,
                    None => Scalar { bits: ONE },
                };
                Progress::Waiting(
                    PrepareText::Requesting { w },
                    Request::RequestGlyphs {
                        prim,
                        prim_offset: offset,
                        pic_clip_rect: a.pic_clip_rect,
                        transform,
                        surface: a.place.context.surface_index,
                        node: a.place.prim_spatial_node_index,
                        raster_space: space,
                        root_scaling_factor,
                        subpixel_mode: a.place.context.subpixel_mode,
                    },
                )
            },
            (PrepareText::Requesting { w }, Reply::Ack) => {
                let prim = w.instance.id;
                Progress::Waiting(PrepareText::Updating { w }, Request::UpdateTemplate { prim })
            },
            (PrepareText::Updating { w }, Reply::Ack) => Progress::Done(w),
            _ => Progress::Failed(Fault::UnexpectedReply),
        }
    }
}

/// Prepares a run of text.
pub fn prepare_text_run(w: Work, a: TextArgs) -> (p: Progress<PrepareText>)
    ensures
        p.follows(text(w@, a)),
{
    let prim = w.instance.id;
    Progress::Waiting(
        PrepareText::Forbidding { w, a },
        Request::AllowRepetition { prim, may_need_repetition: false },
    )
}

} // verus!
