//! Preparing a border with styled sides.
use vstd::prelude::*;

use crate::geometry::{times, value, IntSize};
use crate::model::{
    BorderSegment, BorderStyle, IndexRange, InstanceModel, NormalBorderTemplate, ScratchModel,
    SpatialNodeIndex, Work, WorkModel,
};
use crate::program::{
    ask_number, ask_task_handle, tell, unexpected, Fault, Machine, Program, Progress, Reply,
    Request, Resume,
};
use crate::scalar::Scalar;
use crate::small_list::{
    handle_count, handle_items, handles_into_vec, new_handles, push_handle, HandleList,
};

verus! {

/// Whether a side repeats a pattern.
pub open spec fn style_repeats(style: BorderStyle) -> bool {
    style == BorderStyle::Dotted || style == BorderStyle::Dashed
}

fn is_repeating(style: BorderStyle) -> (b: bool)
    ensures
        b == style_repeats(style),
{
    matches!(style, BorderStyle::Dotted | BorderStyle::Dashed)
}

/// Whether any side of a border repeats a pattern.
pub open spec fn border_repeats(t: NormalBorderTemplate) -> bool {
    style_repeats(t.top) || style_repeats(t.right) || style_repeats(t.bottom) || style_repeats(
        t.left,
    )
}

/// Whether any side of a border repeats a pattern.
pub fn is_border_repeating(t: &NormalBorderTemplate) -> (b: bool)
    ensures
        b == border_repeats(*t),
{
    is_repeating(t.top) || is_repeating(t.right) || is_repeating(t.bottom) || is_repeating(t.left)
}

/// Requests a task for each edge and corner of a border, at the scale of the border in the world.
pub open spec fn border(
    w: WorkModel,
    segments: Seq<BorderSegment>,
    repeats: bool,
    node: SpatialNodeIndex,
    scale: Scalar,
) -> Program<WorkModel> {
    tell(
        Request::AllowRepetition { prim: w.instance.id, may_need_repetition: repeats },
        border_updated(w, segments, node, scale),
    )
}

pub open spec fn border_updated(
    w: WorkModel,
    segments: Seq<BorderSegment>,
    node: SpatialNodeIndex,
    scale: Scalar,
) -> Program<WorkModel> {
    tell(
        Request::UpdateTemplate { prim: w.instance.id },
        border_factors(w, segments, node, scale),
    )
}

pub open spec fn border_factors(
    w: WorkModel,
    segments: Seq<BorderSegment>,
    node: SpatialNodeIndex,
    scale: Scalar,
) -> Program<WorkModel> {
    Program::Call(
        Request::WorldScaleFactors { node },
        |r: Reply|
            match r {
                Reply::Numbers { x, y } => border_width(w, segments, scale, x, y),
                _ => unexpected(),
            },
    )
}

pub open spec fn border_width(
    w: WorkModel,
    segments: Seq<BorderSegment>,
    scale: Scalar,
    x: Scalar,
    y: Scalar,
) -> Program<WorkModel> {
    ask_number(
        Request::ClampToScaleFactor { value: x },
        |width: Scalar| border_height(w, segments, scale, y, width),
    )
}

pub open spec fn border_height(
    w: WorkModel,
    segments: Seq<BorderSegment>,
    scale: Scalar,
    y: Scalar,
    width: Scalar,
) -> Program<WorkModel> {
    ask_number(
        Request::ClampToScaleFactor { value: y },
        |height: Scalar| border_world(w, segments, scale, width.larger(height)),
    )
}

/// The larger of the two clamped factors is the scale to the world.
pub open spec fn border_world(
    w: WorkModel,
    segments: Seq<BorderSegment>,
    scale: Scalar,
    world_scale: Scalar,
) -> Program<WorkModel> {
    ask_number(
        Request::Evaluate(times(value(world_scale), value(scale))),
        |scale: Scalar| border_limit(w, segments, scale),
    )
}

pub open spec fn border_limit(
    w: WorkModel,
    segments: Seq<BorderSegment>,
    scale: Scalar,
) -> Program<WorkModel> {
    ask_number(
        Request::MaxBorderScale { prim: w.instance.id },
        |max_scale: Scalar|
            border_from(w, segments, scale.smaller(max_scale), Seq::<u64>::empty()),
    )
}

/// The segments that no task was requested for yet. The scale that fits a segment is that of the
/// next one too.
pub open spec fn border_from(
    w: WorkModel,
    segments: Seq<BorderSegment>,
    scale: Scalar,
    handles: Seq<u64>,
) -> Program<WorkModel>
    decreases segments.len() - handles.len(), 2int,
{
    if handles.len() < segments.len() {
        Program::Call(
            Request::CacheSize {
                size: segments[handles.len() as int].local_task_size,
                scale,
            },
            |r: Reply|
                match r {
                    Reply::CacheSize { size, scale } => border_sized(
                        w,
                        segments,
                        handles,
                        size,
                        scale,
                    ),
                    _ => unexpected(),
                },
        )
    } else {
        Program::Return(with_border_handles(w, handles))
    }
}

pub open spec fn border_sized(
    w: WorkModel,
    segments: Seq<BorderSegment>,
    handles: Seq<u64>,
    size: IntSize,
    scale: Scalar,
) -> Program<WorkModel>
    decreases segments.len() - handles.len(), 1int,
{
    if handles.len() < segments.len() {
        ask_task_handle(
            Request::BorderSegmentTask {
                prim: w.instance.id,
                key: segments[handles.len() as int].cache_key,
                size,
                scale,
            },
            |handle: u64| border_from(w, segments, scale, handles.push(handle)),
        )
    } else {
        unexpected()
    }
}

/// The buffers with the handles at the end, and the primitive with where they are.
pub open spec fn with_border_handles(w: WorkModel, handles: Seq<u64>) -> WorkModel {
    let start = w.scratch.border_cache_handles.len();
    WorkModel {
        instance: InstanceModel {
            cache_handles: IndexRange {
                start: start as usize,
                end: (start + handles.len()) as usize,
            },
            ..w.instance
        },
        scratch: ScratchModel {
            border_cache_handles: w.scratch.border_cache_handles + handles,
            ..w.scratch
        },
    }
}

/// A run of [`prepare_normal_border`].
pub enum PrepareBorder {
    Allowing { w: Work, segments: Vec<BorderSegment>, node: SpatialNodeIndex, scale: Scalar },
    Updating { w: Work, segments: Vec<BorderSegment>, node: SpatialNodeIndex, scale: Scalar },
    Factoring { w: Work, segments: Vec<BorderSegment>, scale: Scalar },
    ClampingWidth { w: Work, segments: Vec<BorderSegment>, scale: Scalar, y: Scalar },
    ClampingHeight { w: Work, segments: Vec<BorderSegment>, scale: Scalar, width: Scalar },
    Scaling { w: Work, segments: Vec<BorderSegment> },
    Limiting { w: Work, segments: Vec<BorderSegment>, scale: Scalar },
    Sizing { w: Work, segments: Vec<BorderSegment>, handles: HandleList },
    Requesting {
        w: Work,
        segments: Vec<BorderSegment>,
        handles: HandleList,
        scale: Scalar,
    },
}

impl PrepareBorder {
    fn from(w: Work, segments: Vec<BorderSegment>, scale: Scalar, handles: HandleList) -> (p:
        Progress<PrepareBorder>)
        ensures
            p.follows(border_from(w@, segments@, scale, handle_items(handles))),
    {
        let i: usize = handle_count(&handles);
        if i < segments.len() {
            let size = segments[i].local_task_size;
            Progress::Waiting(
                PrepareBorder::Sizing { w, segments, handles },
                Request::CacheSize { size, scale },
            )
        } else {
            let mut w = w;
            let start: usize = w.scratch.border_cache_handles.len();
            let mut items = handles_into_vec(handles);
            w.scratch.border_cache_handles.append(&mut items);
            let end: usize = w.scratch.border_cache_handles.len();
            w.instance.cache_handles = IndexRange { start, end };
            Progress::Done(w)
        }
    }
}

impl Machine for PrepareBorder {
    type Out = Work;

    open spec fn after(self, r: Reply) -> Program<WorkModel> {
        match (self, r) {
            (PrepareBorder::Allowing { w, segments, node, scale }, Reply::Ack) => border_updated(
                w@,
                segments@,
                node,
                scale,
            ),
            (PrepareBorder::Updating { w, segments, node, scale }, Reply::Ack) => border_factors(
                w@,
                segments@,
                node,
                scale,
            ),
            (PrepareBorder::Factoring { w, segments, scale }, Reply::Numbers { x, y }) => {
                border_width(w@, segments@, scale, x, y)
            },
            (PrepareBorder::ClampingWidth { w, segments, scale, y }, Reply::Number(width)) => {
                border_height(w@, segments@, scale, y, width)
            },
            (PrepareBorder::ClampingHeight { w, segments, scale, width }, Reply::Number(height)) => {
                border_world(w@, segments@, scale, width.larger(height))
            },
            (PrepareBorder::Scaling { w, segments }, Reply::Number(scale)) => border_limit(
                w@,
                segments@,
                scale,
            ),
            (PrepareBorder::Limiting { w, segments, scale }, Reply::Number(max_scale)) => {
                border_from(w@, segments@, scale.smaller(max_scale), Seq::<u64>::empty())
            },
            (PrepareBorder::Sizing { w, segments, handles }, Reply::CacheSize { size, scale }) => {
                border_sized(w@, segments@, handle_items(handles), size, scale)
            },
            (
                PrepareBorder::Requesting { w, segments, handles, scale },
                Reply::TaskHandle(handle),
            ) => border_from(w@, segments@, scale, handle_items(handles).push(handle)),
            _ => unexpected(),
        }
    }
}

impl Resume for PrepareBorder {
    fn resume(self, reply: Reply) -> (p: Progress<Self>) {
        match (self, reply) {
            (PrepareBorder::Allowing { w, segments, node, scale }, Reply::Ack) => {
                let prim = w.instance.id;
                Progress::Waiting(
                    PrepareBorder::Updating { w, segments, node, scale },
                    Request::UpdateTemplate { prim },
                )
            },
            (PrepareBorder::Updating { w, segments, node, scale }, Reply::Ack) => Progress::Waiting(
                PrepareBorder::Factoring { w, segments, scale },
                Request::WorldScaleFactors { node },
            ),
            (PrepareBorder::Factoring { w, segments, scale }, Reply::Numbers { x, y }) => {
                Progress::Waiting(
                    PrepareBorder::ClampingWidth { w, segments, scale, y },
                    Request::ClampToScaleFactor { value: x },
                )
            },
            (PrepareBorder::ClampingWidth { w, segments, scale, y }, Reply::Number(width)) => {
                Progress::Waiting(
                    PrepareBorder::ClampingHeight { w, segments, scale, width },
                    Request::ClampToScaleFactor { value: y },
                )
            },
            (PrepareBorder::ClampingHeight { w, segments, scale, width }, Reply::Number(height)) => {
                let world_scale = width.max_of(height);
                Progress::Waiting(
                    PrepareBorder::Scaling { w, segments },
                    Request::Evaluate(times(value(world_scale), value(scale))),
                )
            },
            (PrepareBorder::Scaling { w, segments }, Reply::Number(scale)) => {
                let prim = w.instance.id;
                Progress::Waiting(
                    PrepareBorder::Limiting { w, segments, scale },
                    Request::MaxBorderScale { prim },
                )
            },
            (PrepareBorder::Limiting { w, segments, scale }, Reply::Number(max_scale)) => {
                PrepareBorder::from(w, segments, scale.min_of(max_scale), new_handles())
            },
            (PrepareBorder::Sizing { w, segments, handles }, Reply::CacheSize { size, scale }) => {
                let i: usize = handle_count(&handles);
                if i < segments.len() {
                    let prim = w.instance.id;
                    let key = segments[i].cache_key;
                    Progress::Waiting(
                        PrepareBorder::Requesting { w, segments, handles, scale },
                        Request::BorderSegmentTask { prim, key, size, scale },
                    )
                } else {
                    Progress::Failed(Fault::UnexpectedReply)
                }
            },
            (
                PrepareBorder::Requesting { w, segments, handles, scale },
                Reply::TaskHandle(handle),
            ) => {
                let mut handles = handles;
                push_handle(&mut handles, handle);
                PrepareBorder::from(w, segments, scale, handles)
            },
            _ => Progress::Failed(Fault::UnexpectedReply),
        }
    }
}

/// Prepares a border with styled sides.
pub fn prepare_normal_border(
    w: Work,
    segments: Vec<BorderSegment>,
    repeats: bool,
    node: SpatialNodeIndex,
    scale: Scalar,
) -> (p: Progress<PrepareBorder>)
    ensures
        p.follows(border(w@, segments@, repeats, node, scale)),
{
    let prim = w.instance.id;
    Progress::Waiting(
        PrepareBorder::Allowing { w, segments, node, scale },
        Request::AllowRepetition { prim, may_need_repetition: repeats },
    )
}

} // verus!
