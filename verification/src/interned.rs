//! Preparing one primitive, whatever its kind.
use vstd::prelude::*;

use crate::model::{BorderSegment, PrimPlace, PrimitiveInstanceKind, Work, WorkModel};
use crate::prim_border::{
    border, border_repeats, is_border_repeating, prepare_normal_border, PrepareBorder,
};
use crate::prim_brush::{brush, brush_plan, plan_brush, prepare_brush, PrepareBrush};
use crate::prim_gradient::{
    conic_tiling, linear_cache, linear_gradient, linear_tiling, plan_linear,
    prepare_linear_gradient, prepare_round_gradient, radial_tiling, round_gradient, tile_conic,
    tile_radial, PrepareGradient,
};
use crate::prim_picture::{
    backdrop, picture, prepare_backdrop, prepare_picture, PrepareBackdrop, PreparePicture,
};
use crate::prim_text::{
    line, prepare_line_decoration, prepare_text_run, text, PrepareLine, PrepareText, TextArgs,
};
use crate::program::{
    ask_number, unexpected, Fault, Machine, Program, Progress, Reply, Request, Resume,
};
use crate::scalar::Scalar;

verus! {

/// Requests what the primitive needs to be drawn.
pub open spec fn interned(w: WorkModel, place: PrimPlace) -> Program<WorkModel> {
    ask_number(
        Request::DevicePixelScale { surface: place.context.surface_index },
        |scale: Scalar| interned_scaled(w, place, scale),
    )
}

pub open spec fn interned_scaled(w: WorkModel, place: PrimPlace, scale: Scalar) -> Program<
    WorkModel,
> {
    let node = place.prim_spatial_node_index;
    match w.instance.kind {
        PrimitiveInstanceKind::LineDecoration { cache_key } => line(
            w,
            cache_key,
            scale,
            place.limits.max_line_decoration_resolution,
        ),
        PrimitiveInstanceKind::TextRun { prim_origin, reference_frame_relative_offset } => {
            match w.instance.visibility_info {
                None => Program::Fail(Fault::NotVisible),
                Some(info) => text(
                    w,
                    TextArgs {
                        prim_origin,
                        reference_frame_relative_offset,
                        pic_clip_rect: info.clip_chain.pic_clip_rect,
                        place,
                    },
                ),
            }
        },
        PrimitiveInstanceKind::NormalBorder(t) => border(
            w,
            t.border_segments@,
            border_repeats(t),
            node,
            scale,
        ),
        PrimitiveInstanceKind::LinearGradient(t) => linear_gradient(
            w,
            linear_tiling(t, node),
            linear_cache(t, place.limits),
        ),
        PrimitiveInstanceKind::RadialGradient(t) => round_gradient(w, radial_tiling(t, node)),
        PrimitiveInstanceKind::ConicGradient(t) => round_gradient(w, conic_tiling(t, node)),
        PrimitiveInstanceKind::Picture { pic_index } => picture(w, pic_index, place),
        PrimitiveInstanceKind::Backdrop { pic_index } => backdrop(
            w,
            pic_index,
            place.context.surface_index,
        ),
        _ => brush(w, brush_plan(w.instance.kind)),
    }
}

/// A run of [`prepare_interned_prim_for_render`].
pub enum PrepareInterned {
    Scaling { w: Work, place: PrimPlace },
    Line(PrepareLine),
    Text(PrepareText),
    Border(PrepareBorder),
    Brush(PrepareBrush),
    Gradient(PrepareGradient),
    Picture(PreparePicture),
    Backdrop(PrepareBackdrop),
}

fn copy_segments(segments: &Vec<BorderSegment>) -> (copied: Vec<BorderSegment>)
    ensures
        copied@ == segments@,
{
    let mut copied: Vec<BorderSegment> = Vec::new();
    let mut i: usize = 0;
    while i < segments.len()
        invariant
            i <= segments@.len(),
            copied@ == segments@.subrange(0, i as int),
        decreases segments@.len() - i,
    {
        copied.push(segments[i]);
        i = i + 1;
    }
    copied
}

impl PrepareInterned {
    fn line(p: Progress<PrepareLine>, Ghost(g): Ghost<Program<WorkModel>>) -> (q: Progress<
        PrepareInterned,
    >)
        requires
            p.follows(g),
        ensures
            q.follows(g),
    {
        match p {
            Progress::Waiting(inner, q) => Progress::Waiting(PrepareInterned::Line(inner), q),
            Progress::Done(w) => Progress::Done(w),
            Progress::Failed(fault) => Progress::Failed(fault),
        }
    }

    fn text(p: Progress<PrepareText>, Ghost(g): Ghost<Program<WorkModel>>) -> (q: Progress<
        PrepareInterned,
    >)
        requires
            p.follows(g),
        ensures
            q.follows(g),
    {
        match p {
            Progress::Waiting(inner, q) => Progress::Waiting(PrepareInterned::Text(inner), q),
            Progress::Done(w) => Progress::Done(w),
            Progress::Failed(fault) => Progress::Failed(fault),
        }
    }

    fn border(p: Progress<PrepareBorder>, Ghost(g): Ghost<Program<WorkModel>>) -> (q: Progress<
        PrepareInterned,
    >)
        requires
            p.follows(g),
        ensures
            q.follows(g),
    {
        match p {
            Progress::Waiting(inner, q) => Progress::Waiting(PrepareInterned::Border(inner), q),
            Progress::Done(w) => Progress::Done(w),
            Progress::Failed(fault) => Progress::Failed(fault),
        }
    }

    fn brush(p: Progress<PrepareBrush>, Ghost(g): Ghost<Program<WorkModel>>) -> (q: Progress<
        PrepareInterned,
    >)
        requires
            p.follows(g),
        ensures
            q.follows(g),
    {
        match p {
            Progress::Waiting(inner, q) => Progress::Waiting(PrepareInterned::Brush(inner), q),
            Progress::Done(w) => Progress::Done(w),
            Progress::Failed(fault) => Progress::Failed(fault),
        }
    }

    fn gradient(p: Progress<PrepareGradient>, Ghost(g): Ghost<Program<WorkModel>>) -> (q: Progress<
        PrepareInterned,
    >)
        requires
            p.follows(g),
        ensures
            q.follows(g),
    {
        match p {
            Progress::Waiting(inner, q) => Progress::Waiting(PrepareInterned::Gradient(inner), q),
            Progress::Done(w) => Progress::Done(w),
            Progress::Failed(fault) => Progress::Failed(fault),
        }
    }

    fn picture(p: Progress<PreparePicture>, Ghost(g): Ghost<Program<WorkModel>>) -> (q: Progress<
        PrepareInterned,
    >)
        requires
            p.follows(g),
        ensures
            q.follows(g),
    {
        match p {
            Progress::Waiting(inner, q) => Progress::Waiting(PrepareInterned::Picture(inner), q),
            Progress::Done(w) => Progress::Done(w),
            Progress::Failed(fault) => Progress::Failed(fault),
        }
    }

    fn backdrop(p: Progress<PrepareBackdrop>, Ghost(g): Ghost<Program<WorkModel>>) -> (q: Progress<
        PrepareInterned,
    >)
        requires
            p.follows(g),
        ensures
            q.follows(g),
    {
        match p {
            Progress::Waiting(inner, q) => Progress::Waiting(PrepareInterned::Backdrop(inner), q),
            Progress::Done(w) => Progress::Done(w),
            Progress::Failed(fault) => Progress::Failed(fault),
        }
    }

    fn scaled(w: Work, place: PrimPlace, scale: Scalar) -> (p: Progress<PrepareInterned>)
        ensures
            p.follows(interned_scaled(w@, place, scale)),
    {
        let ghost g = interned_scaled(w@, place, scale);
        let node = place.prim_spatial_node_index;
        match &w.instance.kind {
            PrimitiveInstanceKind::LineDecoration { cache_key } => {
                let key = *cache_key;
                let limit: i32 = place.limits.max_line_decoration_resolution;
                PrepareInterned::line(prepare_line_decoration(w, key, scale, limit), Ghost(g))
            },
            PrimitiveInstanceKind::TextRun { prim_origin, reference_frame_relative_offset } => {
                let prim_origin = *prim_origin;
                let reference_frame_relative_offset = *reference_frame_relative_offset;
                match w.instance.visibility_info {
                    None => Progress::Failed(Fault::NotVisible),
                    Some(info) => {
                        let a = TextArgs {
                            prim_origin,
                            reference_frame_relative_offset,
                            pic_clip_rect: info.clip_chain.pic_clip_rect,
                            place,
                        };
                        PrepareInterned::text(prepare_text_run(w, a), Ghost(g))
                    },
                }
            },
            PrimitiveInstanceKind::NormalBorder(t) => {
                let repeats = is_border_repeating(t);
                let segments = copy_segments(&t.border_segments);
                PrepareInterned::border(
                    prepare_normal_border(w, segments, repeats, node, scale),
                    Ghost(g),
                )
            },
            PrimitiveInstanceKind::LinearGradient(t) => {
                let plan = plan_linear(t, node, place.limits);
                PrepareInterned::gradient(prepare_linear_gradient(w, plan), Ghost(g))
            },
            PrimitiveInstanceKind::RadialGradient(t) => {
                let tiling = tile_radial(t, node);
                PrepareInterned::gradient(prepare_round_gradient(w, tiling), Ghost(g))
            },
            PrimitiveInstanceKind::ConicGradient(t) => {
                let tiling = tile_conic(t, node);
                PrepareInterned::gradient(prepare_round_gradient(w, tiling), Ghost(g))
            },
            PrimitiveInstanceKind::Picture { pic_index } => {
                let pic_index = *pic_index;
                PrepareInterned::picture(prepare_picture(w, pic_index, place), Ghost(g))
            },
            PrimitiveInstanceKind::Backdrop { pic_index } => {
                let pic_index = *pic_index;
                let surface = place.context.surface_index;
                PrepareInterned::backdrop(prepare_backdrop(w, pic_index, surface), Ghost(g))
            },
            _ => {
                let plan = plan_brush(&w.instance.kind);
                PrepareInterned::brush(prepare_brush(w, plan), Ghost(g))
            },
        }
    }
}

impl Machine for PrepareInterned {
    type Out = Work;

    open spec fn after(self, r: Reply) -> Program<WorkModel> {
        match (self, r) {
            (PrepareInterned::Scaling { w, place }, Reply::Number(scale)) => interned_scaled(
                w@,
                place,
                scale,
            ),
            (PrepareInterned::Line(inner), r) => inner.after(r),
            (PrepareInterned::Text(inner), r) => inner.after(r),
            (PrepareInterned::Border(inner), r) => inner.after(r),
            (PrepareInterned::Brush(inner), r) => inner.after(r),
            (PrepareInterned::Gradient(inner), r) => inner.after(r),
            (PrepareInterned::Picture(inner), r) => inner.after(r),
            (PrepareInterned::Backdrop(inner), r) => inner.after(r),
            _ => unexpected(),
        }
    }
}

impl Resume for PrepareInterned {
    fn resume(self, reply: Reply) -> (p: Progress<Self>) {
        match (self, reply) {
            (PrepareInterned::Scaling { w, place }, Reply::Number(scale)) => {
                PrepareInterned::scaled(w, place, scale)
            },
            (PrepareInterned::Line(inner), reply) => {
                let ghost g = inner.after(reply);
                PrepareInterned::line(inner.resume(reply), Ghost(g))
            },
            (PrepareInterned::Text(inner), reply) => {
                let ghost g = inner.after(reply);
                PrepareInterned::text(inner.resume(reply), Ghost(g))
            },
            (PrepareInterned::Border(inner), reply) => {
                let ghost g = inner.after(reply);
                PrepareInterned::border(inner.resume(reply), Ghost(g))
            },
            (PrepareInterned::Brush(inner), reply) => {
                let ghost g = inner.after(reply);
                PrepareInterned::brush(inner.resume(reply), Ghost(g))
            },
            (PrepareInterned::Gradient(inner), reply) => {
                let ghost g = inner.after(reply);
                PrepareInterned::gradient(inner.resume(reply), Ghost(g))
            },
            (PrepareInterned::Picture(inner), reply) => {
                let ghost g = inner.after(reply);
                PrepareInterned::picture(inner.resume(reply), Ghost(g))
            },
            (PrepareInterned::Backdrop(inner), reply) => {
                let ghost g = inner.after(reply);
                PrepareInterned::backdrop(inner.resume(reply), Ghost(g))
            },
            _ => Progress::Failed(Fault::UnexpectedReply),
        }
    }
}

/// Prepares a primitive for rendering, by requesting resources, render tasks and so on.
pub fn prepare_interned_prim_for_render(w: Work, place: PrimPlace) -> (p: Progress<
    PrepareInterned,
>)
    ensures
        p.follows(interned(w@, place)),
{
    Progress::Waiting(
        PrepareInterned::Scaling { w, place },
        Request::DevicePixelScale { surface: place.context.surface_index },
    )
}

} // verus!
