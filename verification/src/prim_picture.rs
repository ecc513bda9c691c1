//! Preparing pictures and backdrops.
use vstd::prelude::*;

use crate::geometry::Rect;
use crate::model::{
    PictureIndex, PrimPlace, PrimitiveInstance, PrimitiveVisibility, ScratchModel, SurfaceIndex,
    TaskId, Work, WorkModel,
};
use crate::program::{
    ask_flag, ask_rect, ask_task, tell, unexpected, Fault, Machine, Program, Progress, Reply,
    Request, Resume, SurfaceTasks,
};
use crate::prim_brush::segments_written;
use crate::segment_write::{write_segment, write_segments, SegmentSource, WriteSegment};

verus! {

/// Prepares a picture. One that needs not be drawn is culled; in a context with a plane splitter
/// its plane is added, and its segments are written if it can use any.
pub open spec fn picture(
    w: WorkModel,
    pic_index: PictureIndex,
    place: PrimPlace,
) -> Program<WorkModel> {
    match w.instance.visibility_info {
        None => Program::Fail(Fault::NotVisible),
        Some(info) => ask_flag(
            Request::PreparePicture { pic_index },
            |drawn: bool| picture_drawn(w, pic_index, place, info, drawn),
        ),
    }
}

pub open spec fn picture_drawn(
    w: WorkModel,
    pic_index: PictureIndex,
    place: PrimPlace,
    info: PrimitiveVisibility,
    drawn: bool,
) -> Program<WorkModel> {
    if drawn {
        ask_flag(
            Request::HasPlaneSplitter { state: place.context.state },
            |splits: bool| picture_split(w, pic_index, place, info, splits),
        )
    } else {
        Program::Return(w.with_visibility(None))
    }
}

pub open spec fn picture_split(
    w: WorkModel,
    pic_index: PictureIndex,
    place: PrimPlace,
    info: PrimitiveVisibility,
    splits: bool,
) -> Program<WorkModel> {
    if splits {
        ask_rect(
            Request::DirtyRegionBounds,
            |dirty: Rect| picture_plane(w, pic_index, place, info, dirty),
        )
    } else {
        picture_segments(w, pic_index)
    }
}

pub open spec fn picture_plane(
    w: WorkModel,
    pic_index: PictureIndex,
    place: PrimPlace,
    info: PrimitiveVisibility,
    dirty: Rect,
) -> Program<WorkModel> {
    tell(
        Request::AddSplitPlane {
            state: place.context.state,
            node: place.prim_spatial_node_index,
            pic_index,
            combined_local_clip_rect: info.combined_local_clip_rect,
            dirty_rect: dirty,
            anchor: place.plane_split_anchor,
        },
        picture_segments(w, pic_index),
    )
}

pub open spec fn picture_segments(w: WorkModel, pic_index: PictureIndex) -> Program<WorkModel> {
    ask_flag(
        Request::CanUseSegments { pic_index },
        |can: bool| picture_written(w, can),
    )
}

pub open spec fn picture_written(w: WorkModel, can: bool) -> Program<WorkModel> {
    if can {
        segments_written(
            w.instance,
            write_segments(
                w.scratch,
                w.instance.segment_instance_index,
                SegmentSource::Picture,
            ),
        )
    } else {
        Program::Return(w)
    }
}

/// A run of [`prepare_picture`].
pub enum PreparePicture {
    Preparing { w: Work, pic_index: PictureIndex, place: PrimPlace, info: PrimitiveVisibility },
    Splitting { w: Work, pic_index: PictureIndex, place: PrimPlace, info: PrimitiveVisibility },
    Bounding { w: Work, pic_index: PictureIndex, place: PrimPlace, info: PrimitiveVisibility },
    AddingPlane { w: Work, pic_index: PictureIndex },
    Checking { w: Work },
    Writing { instance: PrimitiveInstance, inner: WriteSegment },
}

impl PreparePicture {
    fn written(
        instance: PrimitiveInstance,
        p: Progress<WriteSegment>,
        Ghost(g): Ghost<Program<ScratchModel>>,
    ) -> (q: Progress<PreparePicture>)
        requires
            p.follows(g),
        ensures
            q.follows(segments_written(instance@, g)),
    {
        match p {
            Progress::Waiting(inner, q) => Progress::Waiting(
                PreparePicture::Writing { instance, inner },
                q,
            ),
            Progress::Done(scratch) => Progress::Done(Work { instance, scratch }),
            Progress::Failed(fault) => Progress::Failed(fault),
        }
    }
}

impl Machine for PreparePicture {
    type Out = Work;

    open spec fn after(self, r: Reply) -> Program<WorkModel> {
        match (self, r) {
            (PreparePicture::Preparing { w, pic_index, place, info }, Reply::Flag(drawn)) => {
                picture_drawn(w@, pic_index, place, info, drawn)
            },
            (PreparePicture::Splitting { w, pic_index, place, info }, Reply::Flag(splits)) => {
                picture_split(w@, pic_index, place, info, splits)
            },
            (PreparePicture::Bounding { w, pic_index, place, info }, Reply::Rect(dirty)) => {
                picture_plane(w@, pic_index, place, info, dirty)
            },
            (PreparePicture::AddingPlane { w, pic_index }, Reply::Ack) => picture_segments(
                w@,
                pic_index,
            ),
            (PreparePicture::Checking { w }, Reply::Flag(can)) => picture_written(w@, can),
            (PreparePicture::Writing { instance, inner }, r) => segments_written(
                instance@,
                inner.after(r),
            ),
            _ => unexpected(),
        }
    }
}

impl Resume for PreparePicture {
    fn resume(self, reply: Reply) -> (p: Progress<Self>) {
        match (self, reply) {
            (PreparePicture::Preparing { w, pic_index, place, info }, Reply::Flag(drawn)) => {
                if drawn {
                    Progress::Waiting(
                        PreparePicture::Splitting { w, pic_index, place, info },
                        Request::HasPlaneSplitter { state: place.context.state },
                    )
                } else {
                    let mut w = w;
                    w.instance.visibility_info = None;
                    Progress::Done(w)
                }
            },
            (PreparePicture::Splitting { w, pic_index, place, info }, Reply::Flag(splits)) => {
                if splits {
                    Progress::Waiting(
                        PreparePicture::Bounding { w, pic_index, place, info },
                        Request::DirtyRegionBounds,
                    )
                } else {
                    Progress::Waiting(
                        PreparePicture::Checking { w },
                        Request::CanUseSegments { pic_index },
                    )
                }
            },
            (PreparePicture::Bounding { w, pic_index, place, info }, Reply::Rect(dirty)) => {
                Progress::Waiting(
                    PreparePicture::AddingPlane { w, pic_index },
                    Request::AddSplitPlane {
                        state: place.context.state,
                        node: place.prim_spatial_node_index,
                        pic_index,
                        combined_local_clip_rect: info.combined_local_clip_rect,
                        dirty_rect: dirty,
                        anchor: place.plane_split_anchor,
                    },
                )
            },
            (PreparePicture::AddingPlane { w, pic_index }, Reply::Ack) => Progress::Waiting(
                PreparePicture::Checking { w },
                Request::CanUseSegments { pic_index },
            ),
            (PreparePicture::Checking { w }, Reply::Flag(can)) => {
                if can {
                    let index = w.instance.segment_instance_index;
                    let ghost g = write_segments(w@.scratch, index, SegmentSource::Picture);
                    let p = write_segment(w.scratch, index, SegmentSource::Picture);
                    PreparePicture::written(w.instance, p, Ghost(g))
                } else {
                    Progress::Done(w)
                }
            },
            (PreparePicture::Writing { instance, inner }, reply) => {
                let ghost g = inner.after(reply);
                PreparePicture::written(instance, inner.resume(reply), Ghost(g))
            },
            _ => Progress::Failed(Fault::UnexpectedReply),
        }
    }
}

/// Prepares a picture whose children are prepared.
pub fn prepare_picture(w: Work, pic_index: PictureIndex, place: PrimPlace) -> (p: Progress<
    PreparePicture,
>)
    ensures
        p.follows(picture(w@, pic_index, place)),
{
    match w.instance.visibility_info {
        None => Progress::Failed(Fault::NotVisible),
        Some(info) => Progress::Waiting(
            PreparePicture::Preparing { w, pic_index, place, info },
            Request::PreparePicture { pic_index },
        ),
    }
}

/// Makes the surface that a backdrop is drawn on depend on the tasks of the picture behind it. A
/// backdrop whose picture has no tasks is culled.
pub open spec fn backdrop(
    w: WorkModel,
    pic_index: PictureIndex,
    surface: SurfaceIndex,
) -> Program<WorkModel> {
    Program::Call(
        Request::PictureSurface { pic_index },
        |r: Reply|
            match r {
                Reply::Surface(behind) => backdrop_tasks(w, surface, behind),
                _ => unexpected(),
            },
    )
}

pub open spec fn backdrop_tasks(
    w: WorkModel,
    surface: SurfaceIndex,
    behind: SurfaceIndex,
) -> Program<WorkModel> {
    Program::Call(
        Request::SurfaceRenderTasks { surface: behind },
        |r: Reply|
            match r {
                Reply::MaybeTasks(tasks) => backdrop_port(w, surface, tasks),
                _ => unexpected(),
            },
    )
}

pub open spec fn backdrop_port(
    w: WorkModel,
    surface: SurfaceIndex,
    tasks: Option<SurfaceTasks>,
) -> Program<WorkModel> {
    match tasks {
        None => Program::Return(w.with_visibility(None)),
        Some(tasks) => ask_task(
            Request::SurfacePort { surface },
            |port: TaskId| backdrop_linked(w, tasks.root, port),
        ),
    }
}

pub open spec fn backdrop_linked(w: WorkModel, root: TaskId, port: TaskId) -> Program<WorkModel> {
    tell(Request::AddDependency { parent: port, child: root }, Program::Return(w))
}

/// A run of [`prepare_backdrop`].
pub enum PrepareBackdrop {
    FindingSurface { w: Work, surface: SurfaceIndex },
    FindingTasks { w: Work, surface: SurfaceIndex },
    FindingPort { w: Work, root: TaskId },
    Linking { w: Work },
}

impl Machine for PrepareBackdrop {
    type Out = Work;

    open spec fn after(self, r: Reply) -> Program<WorkModel> {
        match (self, r) {
            (PrepareBackdrop::FindingSurface { w, surface }, Reply::Surface(behind)) => {
                backdrop_tasks(w@, surface, behind)
            },
            (PrepareBackdrop::FindingTasks { w, surface }, Reply::MaybeTasks(tasks)) => {
                backdrop_port(w@, surface, tasks)
            },
            (PrepareBackdrop::FindingPort { w, root }, Reply::Task(port)) => backdrop_linked(
                w@,
                root,
                port,
            ),
            (PrepareBackdrop::Linking { w }, Reply::Ack) => Program::Return(w@),
            _ => unexpected(),
        }
    }
}

impl Resume for PrepareBackdrop {
    fn resume(self, reply: Reply) -> (p: Progress<Self>) {
        match (self, reply) {
            (PrepareBackdrop::FindingSurface { w, surface }, Reply::Surface(behind)) => {
                Progress::Waiting(
                    PrepareBackdrop::FindingTasks { w, surface },
                    Request::SurfaceRenderTasks { surface: behind },
                )
            },
            (PrepareBackdrop::FindingTasks { w, surface }, Reply::MaybeTasks(tasks)) => {
                match tasks {
                    None => {
                        let mut w = w;
                        w.instance.visibility_info = None;
                        Progress::Done(w)
                    },
                    Some(tasks) => Progress::Waiting(
                        PrepareBackdrop::FindingPort { w, root: tasks.root },
                        Request::SurfacePort { surface },
                    ),
                }
            },
            (PrepareBackdrop::FindingPort { w, root }, Reply::Task(port)) => Progress::Waiting(
                PrepareBackdrop::Linking { w },
                Request::AddDependency { parent: port, child: root },
            ),
            (PrepareBackdrop::Linking { w }, Reply::Ack) => Progress::Done(w),
            _ => Progress::Failed(Fault::UnexpectedReply),
        }
    }
}

/// Prepares a backdrop on a surface.
pub fn prepare_backdrop(w: Work, pic_index: PictureIndex, surface: SurfaceIndex) -> (p: Progress<
    PrepareBackdrop,
>)
    ensures
        p.follows(backdrop(w@, pic_index, surface)),
{
    Progress::Waiting(
        PrepareBackdrop::FindingSurface { w, surface },
        Request::PictureSurface { pic_index },
    )
}

} // verus!
