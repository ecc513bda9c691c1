//! Preparing the primitives of a picture, and of the pictures in it.
use vstd::prelude::*;

use crate::clip_task::{clip_task, update_clip_task, ClipPlace, UpdateClipTask};
use crate::geometry::{Point, Rect};
use crate::interned::{interned, prepare_interned_prim_for_render, PrepareInterned};
use crate::model::{
    CacheLimits, ClusterModel, DirtyRect, InstanceModel, PictureContext, PictureIndex,
    PlaneSplitAnchor, PrimPlace, PrimitiveCluster, PrimitiveInstance, PrimitiveInstanceKind,
    PrimitiveList, PrimitiveScratchBuffer, PrimitiveVisibility, ScratchModel, SpatialNodeIndex,
    Work, WorkModel,
};
use crate::program::{
    ask_flag, ask_rect, tell, unexpected, Fault, Machine, Program, Progress, Reply, Request,
    Resume,
};

verus! {

/// A primitive after it was prepared.
pub struct PrimOutcome {
    pub w: Work,
    /// Whether the primitive was found to be visible.
    pub visible: bool,
}

/// A primitive after it was prepared, with sequences.
#[verifier::ext_equal]
pub struct PrimOutcomeModel {
    pub w: WorkModel,
    pub visible: bool,
}

impl View for PrimOutcome {
    type V = PrimOutcomeModel;

    open spec fn view(&self) -> PrimOutcomeModel {
        PrimOutcomeModel { w: self.w@, visible: self.visible }
    }
}

/// A list of primitives after they were prepared, with the buffers.
pub struct Prepared {
    pub list: PrimitiveList,
    pub scratch: PrimitiveScratchBuffer,
}

/// A list of primitives after they were prepared and the buffers, as sequences.
#[verifier::ext_equal]
pub struct PreparedModel {
    pub clusters: Seq<ClusterModel>,
    pub scratch: ScratchModel,
}

impl View for Prepared {
    type V = PreparedModel;

    open spec fn view(&self) -> PreparedModel {
        PreparedModel { clusters: self.list@, scratch: self.scratch@ }
    }
}

/// A list between two of its clusters.
#[verifier::ext_equal]
pub struct ClustersModel {
    pub context: PictureContext,
    pub limits: CacheLimits,
    pub done: Seq<ClusterModel>,
    pub rest: Seq<ClusterModel>,
}

/// A list between two primitives of a cluster.
#[verifier::ext_equal]
pub struct ClusterRunModel {
    pub outer: ClustersModel,
    pub spatial_node_index: SpatialNodeIndex,
    pub first: usize,
    pub done: Seq<InstanceModel>,
    pub todo: Seq<InstanceModel>,
}

/// The number of primitives and clusters in a sequence of primitives, and in the pictures in it.
pub open spec fn instances_weight(s: Seq<InstanceModel>) -> nat
    decreases s,
{
    if s.len() == 0 {
        0
    } else {
        1 + clusters_weight(s[0].children) + instances_weight(s.drop_first())
    }
}

/// The number of primitives and clusters in a sequence of clusters, and in the pictures in it.
pub open spec fn clusters_weight(s: Seq<ClusterModel>) -> nat
    decreases s,
{
    if s.len() == 0 {
        0
    } else {
        1 + instances_weight(s[0].prim_instances) + clusters_weight(s.drop_first())
    }
}

pub open spec fn run_weight(l: ClusterRunModel) -> nat {
    clusters_weight(l.outer.rest) + instances_weight(l.todo)
}

/// Prepares the primitives of a list, cluster by cluster.
pub open spec fn primitives(
    clusters: Seq<ClusterModel>,
    s: ScratchModel,
    context: PictureContext,
    limits: CacheLimits,
) -> Program<PreparedModel>
    decreases clusters_weight(clusters), 2int, 0int,
{
    list_clusters(ClustersModel { context, limits, done: Seq::empty(), rest: clusters }, s)
}

/// The clusters that are not done yet.
pub open spec fn list_clusters(l: ClustersModel, s: ScratchModel) -> Program<PreparedModel>
    decreases clusters_weight(l.rest), 1int, 0int,
{
    if l.rest.len() == 0 {
        Program::Return(PreparedModel { clusters: l.done, scratch: s })
    } else {
        tell(
            Request::SelectSpatialNode {
                state: l.context.state,
                node: l.rest[0].spatial_node_index,
            },
            list_prims(
                ClusterRunModel {
                    outer: ClustersModel { rest: l.rest.drop_first(), ..l },
                    spatial_node_index: l.rest[0].spatial_node_index,
                    first: l.rest[0].first,
                    done: Seq::empty(),
                    todo: l.rest[0].prim_instances,
                },
                s,
            ),
        )
    }
}

/// The list with the cluster done.
pub open spec fn cluster_done(l: ClusterRunModel) -> ClustersModel {
    ClustersModel {
        done: l.outer.done.push(
            ClusterModel {
                spatial_node_index: l.spatial_node_index,
                first: l.first,
                prim_instances: l.done,
            },
        ),
        ..l.outer
    }
}

/// The cluster with another primitive done.
pub open spec fn prim_done(l: ClusterRunModel, instance: InstanceModel) -> ClusterRunModel {
    ClusterRunModel { done: l.done.push(instance), ..l }
}

/// The primitives of the cluster that are not done yet. One that is culled is left as it is.
pub open spec fn list_prims(l: ClusterRunModel, s: ScratchModel) -> Program<PreparedModel>
    decreases run_weight(l), 5int, 0int,
{
    if l.todo.len() == 0 {
        list_clusters(cluster_done(l), s)
    } else {
        let rest = ClusterRunModel { todo: l.todo.drop_first(), ..l };
        match l.todo[0].visibility_info {
            None => list_prims(prim_done(rest, l.todo[0]), s),
            Some(info) => Program::Call(
                Request::DirtyRegion,
                |r: Reply|
                    match r {
                        Reply::DirtyRects(rects) => list_dirty(
                            rest,
                            s,
                            l.todo[0],
                            info,
                            rects@,
                            0,
                        ),
                        _ => unexpected(),
                    },
            ),
        }
    }
}

/// What is found of a primitive that touches a dirty region.
pub open spec fn with_region(info: PrimitiveVisibility, region: DirtyRect) -> PrimitiveVisibility {
    PrimitiveVisibility {
        visibility_mask: info.visibility_mask | region.visibility_mask,
        ..info
    }
}

/// The dirty regions from position `i` on.
pub open spec fn list_dirty(
    l: ClusterRunModel,
    s: ScratchModel,
    instance: InstanceModel,
    info: PrimitiveVisibility,
    rects: Seq<DirtyRect>,
    i: int,
) -> Program<PreparedModel>
    decreases run_weight(l) + clusters_weight(instance.children) + 1, 4int, rects.len() - i,
{
    if 0 <= i < rects.len() {
        ask_flag(
            Request::DoIntersect { a: info.clipped_world_rect, b: rects[i].world_rect },
            |touches: bool|
                list_dirty(
                    l,
                    s,
                    instance,
                    if touches {
                        with_region(info, rects[i])
                    } else {
                        info
                    },
                    rects,
                    i + 1,
                ),
        )
    } else {
        list_prepare(l, s, instance, info)
    }
}

pub open spec fn list_place(l: ClusterRunModel) -> PrimPlace {
    PrimPlace {
        context: l.outer.context,
        prim_spatial_node_index: l.spatial_node_index,
        plane_split_anchor: PlaneSplitAnchor {
            cluster_index: l.outer.done.len() as usize,
            instance_index: (l.first + l.done.len()) as usize,
        },
        limits: l.outer.limits,
    }
}

/// A primitive outside all dirty regions is culled; any other is prepared.
pub open spec fn list_prepare(
    l: ClusterRunModel,
    s: ScratchModel,
    instance: InstanceModel,
    info: PrimitiveVisibility,
) -> Program<PreparedModel>
    decreases run_weight(l) + clusters_weight(instance.children) + 1, 3int, 0int,
{
    if info.visibility_mask == 0 {
        list_prims(prim_done(l, instance.with_visibility(None)), s)
    } else if l.first + l.done.len() > usize::MAX {
        Program::Fail(Fault::PositionOverflow)
    } else {
        list_prepared(
            l,
            prim(
                WorkModel { instance: instance.with_visibility(Some(info)), scratch: s },
                list_place(l),
            ),
        )
    }
}

/// A primitive that was found to be visible is counted.
pub open spec fn list_prepared(l: ClusterRunModel, p: Program<PrimOutcomeModel>) -> Program<
    PreparedModel,
>
    decreases run_weight(l), 6int, 0int,
{
    p.bind(
        |o: PrimOutcomeModel|
            if o.visible {
                tell(
                    Request::CountVisiblePrimitive,
                    list_prims(prim_done(l, o.w.instance), o.w.scratch),
                )
            } else {
                list_prims(prim_done(l, o.w.instance), o.w.scratch)
            },
    )
}

/// The primitive without its children, which are prepared on their own.
pub open spec fn without_children(instance: InstanceModel) -> InstanceModel {
    InstanceModel { children: Seq::empty(), ..instance }
}

/// Prepares one primitive. The children of a picture come first, as its rectangle depends on them;
/// a picture that gives no context for them is culled.
pub open spec fn prim(w: WorkModel, place: PrimPlace) -> Program<PrimOutcomeModel>
    decreases clusters_weight(w.instance.children), 4int, 0int,
{
    match w.instance.kind {
        PrimitiveInstanceKind::Picture { pic_index } => match w.instance.visibility_info {
            None => Program::Fail(Fault::NotVisible),
            Some(info) => Program::Call(
                Request::TakeContext {
                    pic_index,
                    clipped_prim_bounding_rect: info.clipped_world_rect,
                    surface_spatial_node_index: place.context.surface_spatial_node_index,
                    raster_spatial_node_index: place.context.raster_spatial_node_index,
                    surface_index: place.context.surface_index,
                    subpixel_mode: place.context.subpixel_mode,
                },
                |r: Reply|
                    match r {
                        Reply::Context(context) => prim_taken(w, place, context),
                        _ => unexpected(),
                    },
            ),
        },
        _ => prim_located(w, place, false),
    }
}

pub open spec fn prim_taken(
    w: WorkModel,
    place: PrimPlace,
    context: Option<PictureContext>,
) -> Program<PrimOutcomeModel>
    decreases clusters_weight(w.instance.children), 3int, 0int,
{
    match context {
        None => Program::Return(PrimOutcomeModel { w: w.with_visibility(None), visible: false }),
        Some(context) => prim_children(
            without_children(w.instance),
            place,
            context,
            primitives(w.instance.children, w.scratch, context, place.limits),
        ),
    }
}

pub open spec fn prim_children(
    instance: InstanceModel,
    place: PrimPlace,
    context: PictureContext,
    p: Program<PreparedModel>,
) -> Program<PrimOutcomeModel> {
    p.bind(
        |l: PreparedModel|
            prim_restored(
                WorkModel {
                    instance: InstanceModel { children: l.clusters, ..instance },
                    scratch: l.scratch,
                },
                place,
                context,
            ),
    )
}

pub open spec fn prim_restored(w: WorkModel, place: PrimPlace, context: PictureContext) -> Program<
    PrimOutcomeModel,
> {
    tell(
        Request::RestoreContext { surface_index: place.context.surface_index, context },
        prim_located(w, place, context.is_passthrough),
    )
}

pub open spec fn prim_located(w: WorkModel, place: PrimPlace, is_passthrough: bool) -> Program<
    PrimOutcomeModel,
> {
    ask_rect(
        Request::LocalPrimRect { prim: w.instance.id },
        |rect: Rect| prim_clipped(w, place, is_passthrough, rect.origin),
    )
}

pub open spec fn clip_place(place: PrimPlace, prim_origin: Point) -> ClipPlace {
    ClipPlace {
        prim_origin,
        prim_spatial_node_index: place.prim_spatial_node_index,
        root_spatial_node_index: place.context.raster_spatial_node_index,
        surface_index: place.context.surface_index,
        state: place.context.state,
    }
}

/// A picture that passes its children through is not clipped itself.
pub open spec fn prim_clipped(
    w: WorkModel,
    place: PrimPlace,
    is_passthrough: bool,
    prim_origin: Point,
) -> Program<PrimOutcomeModel> {
    if is_passthrough {
        prim_stamped(w, place)
    } else {
        prim_masked(place, clip_task(w, clip_place(place, prim_origin)))
    }
}

pub open spec fn prim_masked(place: PrimPlace, p: Program<WorkModel>) -> Program<
    PrimOutcomeModel,
> {
    p.bind(|w: WorkModel| prim_stamped(w, place))
}

pub open spec fn prim_stamped(w: WorkModel, place: PrimPlace) -> Program<PrimOutcomeModel> {
    tell(Request::StampFrame { prim: w.instance.id }, prim_interned(interned(w, place)))
}

pub open spec fn prim_interned(p: Program<WorkModel>) -> Program<PrimOutcomeModel> {
    p.bind(|w: WorkModel| Program::Return(PrimOutcomeModel { w, visible: true }))
}

pub open spec fn instance_models(s: Seq<PrimitiveInstance>) -> Seq<InstanceModel> {
    Seq::new(s.len(), |i: int| s[i].model())
}

pub open spec fn cluster_models(s: Seq<PrimitiveCluster>) -> Seq<ClusterModel> {
    Seq::new(s.len(), |i: int| s[i].model())
}

/// A list between two of its clusters.
pub struct ClustersLeft {
    pub context: PictureContext,
    pub limits: CacheLimits,
    pub done: Vec<PrimitiveCluster>,
    /// The clusters that are left, the next one last.
    pub rest: Vec<PrimitiveCluster>,
}

impl View for ClustersLeft {
    type V = ClustersModel;

    open spec fn view(&self) -> ClustersModel {
        ClustersModel {
            context: self.context,
            limits: self.limits,
            done: cluster_models(self.done@),
            rest: cluster_models(self.rest@.reverse()),
        }
    }
}

/// A list between two primitives of a cluster.
pub struct PrimsLeft {
    pub outer: ClustersLeft,
    pub spatial_node_index: SpatialNodeIndex,
    pub first: usize,
    pub done: Vec<PrimitiveInstance>,
    /// The primitives that are left, the next one last.
    pub todo: Vec<PrimitiveInstance>,
}

pub open spec fn cluster_run(
    outer: ClustersModel,
    spatial_node_index: SpatialNodeIndex,
    first: usize,
    done: Seq<PrimitiveInstance>,
    todo: Seq<PrimitiveInstance>,
) -> ClusterRunModel {
    ClusterRunModel {
        outer,
        spatial_node_index,
        first,
        done: instance_models(done),
        todo: instance_models(todo.reverse()),
    }
}

impl View for PrimsLeft {
    type V = ClusterRunModel;

    open spec fn view(&self) -> ClusterRunModel {
        cluster_run(
            self.outer@,
            self.spatial_node_index,
            self.first,
            self.done@,
            self.todo@,
        )
    }
}

/// The same elements in the opposite order.
fn reversed<T>(v: Vec<T>) -> (r: Vec<T>)
    ensures
        r@ == v@.reverse(),
{
    let mut v = v;
    let mut r: Vec<T> = Vec::new();
    let ghost all = v@;
    while v.len() > 0
        invariant
            v@ =~= all.subrange(0, v@.len() as int),
            v@.len() <= all.len(),
            r@.len() == all.len() - v@.len(),
            forall|i: int| 0 <= i < r@.len() ==> #[trigger] r@[i] == all[all.len() - 1 - i],
        decreases v@.len(),
    {
        if let Some(x) = v.pop() {
            r.push(x);
        }
    }
    r
}

/// A run of [`prepare_primitives`].
#[allow(inconsistent_fields)]
pub enum PrepareList {
    Selecting { l: PrimsLeft, s: PrimitiveScratchBuffer },
    Dirtying {
        l: PrimsLeft,
        s: PrimitiveScratchBuffer,
        instance: PrimitiveInstance,
        info: PrimitiveVisibility,
    },
    Intersecting {
        l: PrimsLeft,
        s: PrimitiveScratchBuffer,
        instance: PrimitiveInstance,
        info: PrimitiveVisibility,
        rects: Vec<DirtyRect>,
        i: usize,
    },
    Preparing { l: PrimsLeft, inner: PreparePrim },
    Counting { l: PrimsLeft, s: PrimitiveScratchBuffer },
}

/// A run of [`prepare_prim_for_render`].
#[allow(inconsistent_fields)]
pub enum PreparePrim {
    Taking { w: Work, place: PrimPlace },
    Children {
        instance: PrimitiveInstance,
        place: PrimPlace,
        context: PictureContext,
        inner: Box<PrepareList>,
    },
    Restoring { w: Work, place: PrimPlace, is_passthrough: bool },
    Locating { w: Work, place: PrimPlace, is_passthrough: bool },
    Clipping { place: PrimPlace, inner: UpdateClipTask },
    Stamping { w: Work, place: PrimPlace },
    Interning { inner: PrepareInterned },
}

impl PrepareList {
    /// What remains to be done after a reply.
    pub open spec fn list_after(self, r: Reply) -> Program<PreparedModel>
        decreases self,
    {
        match (self, r) {
            (PrepareList::Selecting { l, s }, Reply::Ack) => list_prims(l@, s@),
            (
                PrepareList::Dirtying { l, s, instance, info },
                Reply::DirtyRects(rects),
            ) => list_dirty(l@, s@, instance@, info, rects@, 0),
            (
                PrepareList::Intersecting { l, s, instance, info, rects, i },
                Reply::Flag(touches),
            ) => if i < rects@.len() {
                list_dirty(
                    l@,
                    s@,
                    instance@,
                    if touches {
                        with_region(info, rects@[i as int])
                    } else {
                        info
                    },
                    rects@,
                    i + 1,
                )
            } else {
                unexpected()
            },
            (PrepareList::Preparing { l, inner }, r) => list_prepared(l@, inner.prim_after(r)),
            (PrepareList::Counting { l, s }, Reply::Ack) => list_prims(l@, s@),
            _ => unexpected(),
        }
    }

    fn clusters(l: ClustersLeft, s: PrimitiveScratchBuffer) -> (p: Progress<PrepareList>)
        ensures
            p.follows(list_clusters(l@, s@)),
    {
        let ghost before = l;
        let ClustersLeft { context, limits, done, rest } = l;
        let mut rest = rest;
        match rest.pop() {
            None => {
                let list = PrimitiveList { clusters: done };
                assert(list@ =~= before@.done);
                Progress::Done(Prepared { list, scratch: s })
            },
            Some(cluster) => {
                let PrimitiveCluster { spatial_node_index, first, prim_instances } = cluster;
                assert(before@.rest[0] == cluster.model());
                let ghost given = prim_instances@;
                let l = PrimsLeft {
                    outer: ClustersLeft { context, limits, done, rest },
                    spatial_node_index,
                    first,
                    done: Vec::new(),
                    todo: reversed(prim_instances),
                };
                assert(l.outer@.rest =~= before@.rest.drop_first());
                assert(l.todo@.reverse() =~= given);
                assert(l@.todo =~= cluster.model().prim_instances);
                assert(l@.done =~= Seq::<InstanceModel>::empty());
                assert(l.outer@ == ClustersModel { rest: before@.rest.drop_first(), ..before@ });
                Progress::Waiting(
                    PrepareList::Selecting { l, s },
                    Request::SelectSpatialNode { state: context.state, node: spatial_node_index },
                )
            },
        }
    }

    fn prims(l: PrimsLeft, s: PrimitiveScratchBuffer) -> (p: Progress<PrepareList>)
        ensures
            p.follows(list_prims(l@, s@)),
    {
        let PrimsLeft { outer, spatial_node_index, first, done, todo } = l;
        let mut done = done;
        let mut todo = todo;
        loop
            invariant
                list_prims(l@, s@) == list_prims(
                    cluster_run(outer@, spatial_node_index, first, done@, todo@),
                    s@,
                ),
            decreases todo@.len(),
        {
            let ghost before = cluster_run(outer@, spatial_node_index, first, done@, todo@);
            match todo.pop() {
                None => {
                    let cluster = PrimitiveCluster {
                        spatial_node_index,
                        first,
                        prim_instances: done,
                    };
                    assert(cluster.model().prim_instances =~= before.done);
                    let ghost next = cluster_done(before);
                    let ClustersLeft { context, limits, done, rest } = outer;
                    let mut done = done;
                    done.push(cluster);
                    let outer = ClustersLeft { context, limits, done, rest };
                    assert(outer@.done =~= next.done);
                    assert(outer@ == next);
                    return PrepareList::clusters(outer, s);
                },
                Some(instance) => {
                    assert(before.todo[0] == instance.model());
                    let ghost rest = ClusterRunModel { todo: before.todo.drop_first(), ..before };
                    assert(instance_models(todo@.reverse()) =~= rest.todo);
                    match instance.visibility_info {
                        None => {
                            done.push(instance);
                            assert(instance_models(done@) =~= prim_done(rest, instance@).done);
                        },
                        Some(info) => {
                            let l = PrimsLeft { outer, spatial_node_index, first, done, todo };
                            assert(l@ == rest);
                            return Progress::Waiting(
                                PrepareList::Dirtying { l, s, instance, info },
                                Request::DirtyRegion,
                            );
                        },
                    }
                },
            }
        }
    }

    fn dirty(
        l: PrimsLeft,
        s: PrimitiveScratchBuffer,
        instance: PrimitiveInstance,
        info: PrimitiveVisibility,
        rects: Vec<DirtyRect>,
        i: usize,
    ) -> (p: Progress<PrepareList>)
        ensures
            p.follows(list_dirty(l@, s@, instance@, info, rects@, i as int)),
    {
        if i < rects.len() {
            let a = info.clipped_world_rect;
            let b = rects[i].world_rect;
            Progress::Waiting(
                PrepareList::Intersecting { l, s, instance, info, rects, i },
                Request::DoIntersect { a, b },
            )
        } else {
            PrepareList::prepare(l, s, instance, info)
        }
    }

    fn prepare(
        l: PrimsLeft,
        s: PrimitiveScratchBuffer,
        instance: PrimitiveInstance,
        info: PrimitiveVisibility,
    ) -> (p: Progress<PrepareList>)
        ensures
            p.follows(list_prepare(l@, s@, instance@, info)),
    {
        let ghost culled = prim_done(l@, instance@.with_visibility(None));
        let mut instance = instance;
        if info.visibility_mask == 0 {
            instance.visibility_info = None;
            let l = PrepareList::with_done(l, instance);
            PrepareList::prims(l, s)
        } else {
            instance.visibility_info = Some(info);
            match l.first.checked_add(l.done.len()) {
                None => Progress::Failed(Fault::PositionOverflow),
                Some(instance_index) => {
                    let place = PrimPlace {
                        context: l.outer.context,
                        prim_spatial_node_index: l.spatial_node_index,
                        plane_split_anchor: PlaneSplitAnchor {
                            cluster_index: l.outer.done.len(),
                            instance_index,
                        },
                        limits: l.outer.limits,
                    };
                    let w = Work { instance, scratch: s };
                    let ghost g = prim(w@, place);
                    PrepareList::prepared(l, prepare_prim_for_render(w, place), Ghost(g))
                },
            }
        }
    }

    /// The cluster with another primitive done.
    fn with_done(l: PrimsLeft, instance: PrimitiveInstance) -> (r: PrimsLeft)
        ensures
            r@ == prim_done(l@, instance@),
    {
        let ghost given = l;
        let mut l = l;
        l.done.push(instance);
        assert(l@.done =~= prim_done(given@, instance@).done);
        l
    }

    fn prepared(
        l: PrimsLeft,
        p: Progress<PreparePrim>,
        Ghost(g): Ghost<Program<PrimOutcomeModel>>,
    ) -> (q: Progress<PrepareList>)
        requires
            p.follows(g),
        ensures
            q.follows(list_prepared(l@, g)),
    {
        match p {
            Progress::Waiting(inner, q) => {
                Progress::Waiting(PrepareList::Preparing { l, inner }, q)
            },
            Progress::Done(PrimOutcome { w, visible }) => {
                let Work { instance, scratch } = w;
                let l = PrepareList::with_done(l, instance);
                if visible {
                    Progress::Waiting(
                        PrepareList::Counting { l, s: scratch },
                        Request::CountVisiblePrimitive,
                    )
                } else {
                    PrepareList::prims(l, scratch)
                }
            },
            Progress::Failed(fault) => Progress::Failed(fault),
        }
    }

    /// Goes on with a reply.
    fn list_resume(self, reply: Reply) -> (p: Progress<Self>)
        ensures
            p.follows(self.list_after(reply)),
        decreases self,
    {
        match (self, reply) {
            (PrepareList::Selecting { l, s }, Reply::Ack) => PrepareList::prims(l, s),
            (PrepareList::Dirtying { l, s, instance, info }, Reply::DirtyRects(rects)) => {
                PrepareList::dirty(l, s, instance, info, rects, 0)
            },
            (
                PrepareList::Intersecting { l, s, instance, info, rects, i },
                Reply::Flag(touches),
            ) => {
                if i >= rects.len() {
                    return Progress::Failed(Fault::UnexpectedReply);
                }
                let mut info = info;
                if touches {
                    info.visibility_mask = info.visibility_mask | rects[i].visibility_mask;
                }
                PrepareList::dirty(l, s, instance, info, rects, i + 1)
            },
            (PrepareList::Preparing { l, inner }, reply) => {
                let ghost g = inner.prim_after(reply);
                PrepareList::prepared(l, inner.prim_resume(reply), Ghost(g))
            },
            (PrepareList::Counting { l, s }, Reply::Ack) => PrepareList::prims(l, s),
            _ => Progress::Failed(Fault::UnexpectedReply),
        }
    }
}

impl Machine for PrepareList {
    type Out = Prepared;

    open spec fn after(self, r: Reply) -> Program<PreparedModel> {
        self.list_after(r)
    }
}

impl Resume for PrepareList {
    fn resume(self, reply: Reply) -> (p: Progress<Self>) {
        self.list_resume(reply)
    }
}

impl PreparePrim {
    /// What remains to be done after a reply.
    pub open spec fn prim_after(self, r: Reply) -> Program<PrimOutcomeModel>
        decreases self,
    {
        match (self, r) {
            (PreparePrim::Taking { w, place }, Reply::Context(context)) => prim_taken(
                w@,
                place,
                context,
            ),
            (PreparePrim::Children { instance, place, context, inner }, r) => prim_children(
                instance@,
                place,
                context,
                inner.list_after(r),
            ),
            (PreparePrim::Restoring { w, place, is_passthrough }, Reply::Ack) => prim_located(
                w@,
                place,
                is_passthrough,
            ),
            (
                PreparePrim::Locating { w, place, is_passthrough },
                Reply::Rect(rect),
            ) => prim_clipped(w@, place, is_passthrough, rect.origin),
            (PreparePrim::Clipping { place, inner }, r) => prim_masked(place, inner.after(r)),
            (PreparePrim::Stamping { w, place }, Reply::Ack) => prim_interned(interned(w@, place)),
            (PreparePrim::Interning { inner }, r) => prim_interned(inner.after(r)),
            _ => unexpected(),
        }
    }

    fn taken(w: Work, place: PrimPlace, context: Option<PictureContext>) -> (p: Progress<
        PreparePrim,
    >)
        ensures
            p.follows(prim_taken(w@, place, context)),
    {
        let Work { instance, scratch } = w;
        let mut instance = instance;
        match context {
            None => {
                instance.visibility_info = None;
                Progress::Done(PrimOutcome { w: Work { instance, scratch }, visible: false })
            },
            Some(context) => {
                let ghost g = primitives(w@.instance.children, w@.scratch, context, place.limits);
                let mut list = PrimitiveList { clusters: Vec::new() };
                assert(list@ =~= Seq::<ClusterModel>::empty());
                std::mem::swap(&mut list, &mut instance.children);
                PreparePrim::children(
                    instance,
                    place,
                    context,
                    prepare_primitives(list, scratch, context, place.limits),
                    Ghost(g),
                )
            },
        }
    }

    fn children(
        instance: PrimitiveInstance,
        place: PrimPlace,
        context: PictureContext,
        p: Progress<PrepareList>,
        Ghost(g): Ghost<Program<PreparedModel>>,
    ) -> (q: Progress<PreparePrim>)
        requires
            p.follows(g),
        ensures
            q.follows(prim_children(instance@, place, context, g)),
    {
        match p {
            Progress::Waiting(inner, q) => {
                Progress::Waiting(
                    PreparePrim::Children { instance, place, context, inner: Box::new(inner) },
                    q,
                )
            },
            Progress::Done(Prepared { list, scratch }) => {
                let mut instance = instance;
                instance.children = list;
                let w = Work { instance, scratch };
                Progress::Waiting(
                    PreparePrim::Restoring { w, place, is_passthrough: context.is_passthrough },
                    Request::RestoreContext {
                        surface_index: place.context.surface_index,
                        context,
                    },
                )
            },
            Progress::Failed(fault) => Progress::Failed(fault),
        }
    }

    fn located(w: Work, place: PrimPlace, is_passthrough: bool) -> (p: Progress<PreparePrim>)
        ensures
            p.follows(prim_located(w@, place, is_passthrough)),
    {
        let prim = w.instance.id;
        Progress::Waiting(
            PreparePrim::Locating { w, place, is_passthrough },
            Request::LocalPrimRect { prim },
        )
    }

    fn clipped(w: Work, place: PrimPlace, is_passthrough: bool, prim_origin: Point) -> (p:
        Progress<PreparePrim>)
        ensures
            p.follows(prim_clipped(w@, place, is_passthrough, prim_origin)),
    {
        if is_passthrough {
            PreparePrim::stamped(w, place)
        } else {
            let at = ClipPlace {
                prim_origin,
                prim_spatial_node_index: place.prim_spatial_node_index,
                root_spatial_node_index: place.context.raster_spatial_node_index,
                surface_index: place.context.surface_index,
                state: place.context.state,
            };
            let ghost g = clip_task(w@, at);
            PreparePrim::masked(place, update_clip_task(w, at), Ghost(g))
        }
    }

    fn masked(
        place: PrimPlace,
        p: Progress<UpdateClipTask>,
        Ghost(g): Ghost<Program<WorkModel>>,
    ) -> (q: Progress<PreparePrim>)
        requires
            p.follows(g),
        ensures
            q.follows(prim_masked(place, g)),
    {
        match p {
            Progress::Waiting(inner, q) => {
                Progress::Waiting(PreparePrim::Clipping { place, inner }, q)
            },
            Progress::Done(w) => PreparePrim::stamped(w, place),
            Progress::Failed(fault) => Progress::Failed(fault),
        }
    }

    fn stamped(w: Work, place: PrimPlace) -> (p: Progress<PreparePrim>)
        ensures
            p.follows(prim_stamped(w@, place)),
    {
        let prim = w.instance.id;
        Progress::Waiting(PreparePrim::Stamping { w, place }, Request::StampFrame { prim })
    }

    fn interned(p: Progress<PrepareInterned>, Ghost(g): Ghost<Program<WorkModel>>) -> (q: Progress<
        PreparePrim,
    >)
        requires
            p.follows(g),
        ensures
            q.follows(prim_interned(g)),
    {
        match p {
            Progress::Waiting(inner, q) => Progress::Waiting(PreparePrim::Interning { inner }, q),
            Progress::Done(w) => Progress::Done(PrimOutcome { w, visible: true }),
            Progress::Failed(fault) => Progress::Failed(fault),
        }
    }

    /// Goes on with a reply.
    fn prim_resume(self, reply: Reply) -> (p: Progress<Self>)
        ensures
            p.follows(self.prim_after(reply)),
        decreases self,
    {
        match (self, reply) {
            (PreparePrim::Taking { w, place }, Reply::Context(context)) => {
                PreparePrim::taken(w, place, context)
            },
            (PreparePrim::Children { instance, place, context, inner }, reply) => {
                let ghost g = inner.list_after(reply);
                let p = (*inner).list_resume(reply);
                PreparePrim::children(instance, place, context, p, Ghost(g))
            },
            (PreparePrim::Restoring { w, place, is_passthrough }, Reply::Ack) => {
                PreparePrim::located(w, place, is_passthrough)
            },
            (PreparePrim::Locating { w, place, is_passthrough }, Reply::Rect(rect)) => {
                PreparePrim::clipped(w, place, is_passthrough, rect.origin)
            },
            (PreparePrim::Clipping { place, inner }, reply) => {
                let ghost g = inner.after(reply);
                PreparePrim::masked(place, inner.resume(reply), Ghost(g))
            },
            (PreparePrim::Stamping { w, place }, Reply::Ack) => {
                let ghost g = interned(w@, place);
                PreparePrim::interned(prepare_interned_prim_for_render(w, place), Ghost(g))
            },
            (PreparePrim::Interning { inner }, reply) => {
                let ghost g = inner.after(reply);
                PreparePrim::interned(inner.resume(reply), Ghost(g))
            },
            _ => Progress::Failed(Fault::UnexpectedReply),
        }
    }
}

impl Machine for PreparePrim {
    type Out = PrimOutcome;

    open spec fn after(self, r: Reply) -> Program<PrimOutcomeModel> {
        self.prim_after(r)
    }
}

impl Resume for PreparePrim {
    fn resume(self, reply: Reply) -> (p: Progress<Self>) {
        self.prim_resume(reply)
    }
}

/// Prepares the primitives of a picture for rendering, and those of the pictures in it. A
/// primitive that touches no dirty region is culled.
pub fn prepare_primitives(
    prim_list: PrimitiveList,
    scratch: PrimitiveScratchBuffer,
    pic_context: PictureContext,
    limits: CacheLimits,
) -> (p: Progress<PrepareList>)
    ensures
        p.follows(primitives(prim_list@, scratch@, pic_context, limits)),
{
    let ghost given = prim_list;
    let PrimitiveList { clusters } = prim_list;
    let ghost all = clusters@;
    let l = ClustersLeft {
        context: pic_context,
        limits,
        done: Vec::new(),
        rest: reversed(clusters),
    };
    assert(l.rest@.reverse() =~= all);
    assert(l@.rest =~= given@);
    assert(l@.done =~= Seq::<ClusterModel>::empty());
    PrepareList::clusters(l, scratch)
}

/// Prepares one primitive for rendering, with all that is in it, and tells whether it is visible.
pub fn prepare_prim_for_render(w: Work, place: PrimPlace) -> (p: Progress<PreparePrim>)
    ensures
        p.follows(prim(w@, place)),
{
    match &w.instance.kind {
        PrimitiveInstanceKind::Picture { pic_index } => {
            let pic_index: PictureIndex = *pic_index;
            match w.instance.visibility_info {
                None => Progress::Failed(Fault::NotVisible),
                Some(info) => Progress::Waiting(
                    PreparePrim::Taking { w, place },
                    Request::TakeContext {
                        pic_index,
                        clipped_prim_bounding_rect: info.clipped_world_rect,
                        surface_spatial_node_index: place.context.surface_spatial_node_index,
                        raster_spatial_node_index: place.context.raster_spatial_node_index,
                        surface_index: place.context.surface_index,
                        subpixel_mode: place.context.subpixel_mode,
                    },
                ),
            }
        },
        _ => PreparePrim::located(w, place, false),
    }
}

} // verus!
