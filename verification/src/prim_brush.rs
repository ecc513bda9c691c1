//! Preparing what is drawn as a plain brush: rectangles, images, clears and image borders.
use vstd::prelude::*;

use crate::model::{
    ColorBinding, InstanceModel, PrimitiveInstance, PrimitiveInstanceKind, ScratchModel,
    SegmentInstanceIndex, Work, WorkModel,
};
use crate::program::{
    tell, unexpected, Fault, Machine, Program, Progress, Reply, Request, Resume,
};
use crate::segment_write::{write_segment, write_segments, SegmentSource, WriteSegment};

verus! {

/// What is done for a brush.
#[derive(Clone, Copy, Debug, PartialEq, Eq, Structural)]
pub struct BrushPlan {
    /// The shader need not repeat the brush.
    pub forbids_repetition: bool,
    /// The colour is animated, so what the GPU cache holds is out of date.
    pub is_animated: bool,
    /// The brush may have segments.
    pub has_segments: bool,
}

/// What is done for a kind of brush. An image is not repeated if it is stretched over the whole
/// primitive.
pub open spec fn brush_plan(kind: PrimitiveInstanceKind) -> BrushPlan {
    match kind {
        PrimitiveInstanceKind::Rectangle { color_binding } => BrushPlan {
            forbids_repetition: true,
            is_animated: color_binding == ColorBinding::Binding,
            has_segments: true,
        },
        PrimitiveInstanceKind::YuvImage => BrushPlan {
            forbids_repetition: true,
            is_animated: false,
            has_segments: true,
        },
        PrimitiveInstanceKind::Image { stretch_size, prim_size } => BrushPlan {
            forbids_repetition: stretch_size.covers(prim_size),
            is_animated: false,
            has_segments: true,
        },
        PrimitiveInstanceKind::Clear => BrushPlan {
            forbids_repetition: true,
            is_animated: false,
            has_segments: false,
        },
        _ => BrushPlan { forbids_repetition: false, is_animated: false, has_segments: false },
    }
}

/// What is done for a kind of brush.
pub fn plan_brush(kind: &PrimitiveInstanceKind) -> (plan: BrushPlan)
    ensures
        plan == brush_plan(*kind),
{
    match kind {
        PrimitiveInstanceKind::Rectangle { color_binding } => BrushPlan {
            forbids_repetition: true,
            is_animated: matches!(color_binding, ColorBinding::Binding),
            has_segments: true,
        },
        PrimitiveInstanceKind::YuvImage => BrushPlan {
            forbids_repetition: true,
            is_animated: false,
            has_segments: true,
        },
        PrimitiveInstanceKind::Image { stretch_size, prim_size } => BrushPlan {
            forbids_repetition: stretch_size.is_covering(*prim_size),
            is_animated: false,
            has_segments: true,
        },
        PrimitiveInstanceKind::Clear => BrushPlan {
            forbids_repetition: true,
            is_animated: false,
            has_segments: false,
        },
        _ => BrushPlan { forbids_repetition: false, is_animated: false, has_segments: false },
    }
}

/// Updates the template of a brush, and its segments.
pub open spec fn brush(w: WorkModel, plan: BrushPlan) -> Program<WorkModel> {
    if plan.forbids_repetition {
        tell(
            Request::AllowRepetition { prim: w.instance.id, may_need_repetition: false },
            brush_invalidated(w, plan),
        )
    } else {
        brush_invalidated(w, plan)
    }
}

/// An animated colour invalidates the data of the segments, or of the template where the brush is
/// drawn as a whole.
pub open spec fn brush_invalidated(w: WorkModel, plan: BrushPlan) -> Program<WorkModel> {
    if !plan.is_animated {
        brush_updated(w, plan)
    } else {
        match w.instance.segment_instance_index {
            SegmentInstanceIndex::Invalid => brush_updated(w, plan),
            SegmentInstanceIndex::Unused => tell(
                Request::InvalidateTemplateBlocks { prim: w.instance.id },
                brush_updated(w, plan),
            ),
            SegmentInstanceIndex::At(k) => if k < w.scratch.segment_instances.len() {
                tell(
                    Request::InvalidateGpuBlocks {
                        handle: w.scratch.segment_instances[k as int].gpu_cache_handle,
                    },
                    brush_updated(w, plan),
                )
            } else {
                Program::Fail(Fault::NoSegments)
            },
        }
    }
}

pub open spec fn brush_updated(w: WorkModel, plan: BrushPlan) -> Program<WorkModel> {
    tell(Request::UpdateTemplate { prim: w.instance.id }, brush_segmented(w, plan))
}

pub open spec fn brush_segmented(w: WorkModel, plan: BrushPlan) -> Program<WorkModel> {
    if plan.has_segments {
        segments_written(
            w.instance,
            write_segments(
                w.scratch,
                w.instance.segment_instance_index,
                SegmentSource::Template(w.instance.id),
            ),
        )
    } else {
        Program::Return(w)
    }
}

/// A primitive, with the buffers that the writing of its segments leaves.
pub open spec fn segments_written(instance: InstanceModel, p: Program<ScratchModel>) -> Program<
    WorkModel,
> {
    p.bind(|scratch: ScratchModel| Program::Return(WorkModel { instance, scratch }))
}

/// A run of [`prepare_brush`].
pub enum PrepareBrush {
    Forbidding { w: Work, plan: BrushPlan },
    Invalidating { w: Work, plan: BrushPlan },
    Updating { w: Work, plan: BrushPlan },
    Writing { instance: PrimitiveInstance, inner: WriteSegment },
}

impl PrepareBrush {
    fn invalidate(w: Work, plan: BrushPlan) -> (p: Progress<PrepareBrush>)
        ensures
            p.follows(brush_invalidated(w@, plan)),
    {
        if !plan.is_animated {
            return PrepareBrush::update(w, plan);
        }
        let prim = w.instance.id;
        match w.instance.segment_instance_index {
            SegmentInstanceIndex::Invalid => PrepareBrush::update(w, plan),
            SegmentInstanceIndex::Unused => Progress::Waiting(
                PrepareBrush::Invalidating { w, plan },
                Request::InvalidateTemplateBlocks { prim },
            ),
            SegmentInstanceIndex::At(k) => {
                if k < w.scratch.segment_instances.len() {
                    let handle = w.scratch.segment_instances[k].gpu_cache_handle;
                    Progress::Waiting(
                        PrepareBrush::Invalidating { w, plan },
                        Request::InvalidateGpuBlocks { handle },
                    )
                } else {
                    Progress::Failed(Fault::NoSegments)
                }
            },
        }
    }

    fn update(w: Work, plan: BrushPlan) -> (p: Progress<PrepareBrush>)
        ensures
            p.follows(brush_updated(w@, plan)),
    {
        let prim = w.instance.id;
        Progress::Waiting(
            PrepareBrush::Updating { w, plan },
            Request::UpdateTemplate { prim },
        )
    }

    fn written(
        instance: PrimitiveInstance,
        p: Progress<WriteSegment>,
        Ghost(g): Ghost<Program<ScratchModel>>,
    ) -> (q: Progress<PrepareBrush>)
        requires
            p.follows(g),
        ensures
            q.follows(segments_written(instance@, g)),
    {
        match p {
            Progress::Waiting(inner, q) => Progress::Waiting(
                PrepareBrush::Writing { instance, inner },
                q,
            ),
            Progress::Done(scratch) => Progress::Done(Work { instance, scratch }),
            Progress::Failed(fault) => Progress::Failed(fault),
        }
    }
}

impl Machine for PrepareBrush {
    type Out = Work;

    open spec fn after(self, r: Reply) -> Program<WorkModel> {
        match (self, r) {
            (PrepareBrush::Forbidding { w, plan }, Reply::Ack) => brush_invalidated(w@, plan),
            (PrepareBrush::Invalidating { w, plan }, Reply::Ack) => brush_updated(w@, plan),
            (PrepareBrush::Updating { w, plan }, Reply::Ack) => brush_segmented(w@, plan),
            (PrepareBrush::Writing { instance, inner }, r) => segments_written(
                instance@,
                inner.after(r),
            ),
            _ => unexpected(),
        }
    }
}

impl Resume for PrepareBrush {
    fn resume(self, reply: Reply) -> (p: Progress<Self>) {
        match (self, reply) {
            (PrepareBrush::Forbidding { w, plan }, Reply::Ack) => PrepareBrush::invalidate(w, plan),
            (PrepareBrush::Invalidating { w, plan }, Reply::Ack) => PrepareBrush::update(w, plan),
            (PrepareBrush::Updating { w, plan }, Reply::Ack) => {
                if plan.has_segments {
                    let index = w.instance.segment_instance_index;
                    let source = SegmentSource::Template(w.instance.id);
                    let ghost g = write_segments(w@.scratch, index, source);
                    let p = write_segment(w.scratch, index, source);
                    PrepareBrush::written(w.instance, p, Ghost(g))
                } else {
                    Progress::Done(w)
                }
            },
            (PrepareBrush::Writing { instance, inner }, reply) => {
                let ghost g = inner.after(reply);
                PrepareBrush::written(instance, inner.resume(reply), Ghost(g))
            },
            _ => Progress::Failed(Fault::UnexpectedReply),
        }
    }
}

/// Prepares a plain brush.
pub fn prepare_brush(w: Work, plan: BrushPlan) -> (p: Progress<PrepareBrush>)
    ensures
        p.follows(brush(w@, plan)),
{
    if plan.forbids_repetition {
        let prim = w.instance.id;
        Progress::Waiting(
            PrepareBrush::Forbidding { w, plan },
            Request::AllowRepetition { prim, may_need_repetition: false },
        )
    } else {
        PrepareBrush::invalidate(w, plan)
    }
}

} // verus!
