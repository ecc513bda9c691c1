//! How the pass can fail.
use vstd::prelude::*;

use crate::clip_task::clip_task;
use crate::faults_clip::{clip_task_plain, faults_left};
use crate::faults_prim::{drawable, interned_plain};
use crate::interned::interned;
use crate::law_clip::{clipped_from, clipping_only_appends};
use crate::law_pass::behind_next;
use crate::model::{
    CacheLimits, ClusterModel, DirtyRect, InstanceModel, PictureContext, PrimPlace,
    PrimitiveInstanceKind, PrimitiveVisibility, ScratchModel, WorkModel,
};
use crate::pass::{
    clip_place, cluster_done, clusters_weight, list_clusters, list_dirty, list_place,
    list_prepare, list_prepared, list_prims, prim, prim_children, prim_clipped, prim_done,
    prim_located, prim_restored, prim_stamped, prim_taken, primitives, run_weight, with_region,
    without_children, ClusterRunModel, ClustersModel, PreparedModel, PrimOutcomeModel,
};
use crate::program::{
    fails_only_after, fails_only_of_bind, Fault, Program, Reply,
};

verus! {

/// Whether a primitive is as a scene has it: it can be drawn, and so can its children.
pub open spec fn primitive_sound(a: InstanceModel) -> bool
    decreases a,
{
    drawable(a.kind) && clusters_sound(a.children)
}

/// Whether all primitives are as a scene has them.
pub open spec fn primitives_sound(a: Seq<InstanceModel>) -> bool
    decreases a,
{
    forall|i: int| 0 <= i < a.len() ==> primitive_sound(#[trigger] a[i])
}

/// Whether all clusters are as a scene has them: their primitives are, and have positions in the
/// list.
pub open spec fn clusters_sound(a: Seq<ClusterModel>) -> bool
    decreases a,
{
    forall|i: int|
        0 <= i < a.len() ==> {
            &&& (#[trigger] a[i]).first + a[i].prim_instances.len() <= usize::MAX
            &&& primitives_sound(a[i].prim_instances)
        }
}

proof fn prim_stamped_faults(w: WorkModel, place: PrimPlace)
    requires
        w.instance.visibility_info is Some,
        drawable(w.instance.kind),
    ensures
        prim_stamped(w, place).fails_only(faults_left()),
{
    let ok = faults_left();
    let f = |o: WorkModel| Program::Return(PrimOutcomeModel { w: o, visible: true });
    interned_plain(w, place, true);
    fails_only_after(interned(w, place), f, ok);
    let k = prim_stamped(w, place)->Call_1;
    assert forall|r: Reply| (#[trigger] k(r)).fails_only(ok) by {}
}

proof fn prim_located_faults(w: WorkModel, place: PrimPlace, is_passthrough: bool)
    requires
        w.instance.visibility_info is Some,
        drawable(w.instance.kind),
    ensures
        prim_located(w, place, is_passthrough).fails_only(faults_left()),
{
    let ok = faults_left();
    let k = prim_located(w, place, is_passthrough)->Call_1;
    let info = w.instance.visibility_info->0;
    assert forall|r: Reply| (#[trigger] k(r)).fails_only(ok) by {
        if let Reply::Rect(rect) = r {
            assert(k(r) == prim_clipped(w, place, is_passthrough, rect.origin));
            if is_passthrough {
                prim_stamped_faults(w, place);
            } else {
                let at = clip_place(place, rect.origin);
                let mid = clipped_from(w, info);
                let f = |o: WorkModel| prim_stamped(o, place);
                clip_task_plain(w, at);
                clipping_only_appends(w, at, info);
                assert forall|o: WorkModel| mid(o) implies (#[trigger] f(o)).fails_only(ok) by {
                    prim_stamped_faults(o, place);
                }
                fails_only_of_bind(clip_task(w, at), f, mid, ok);
            }
        }
    }
}

/// A program of the least kind, to stand where none is counted.
spec fn no_outcome() -> Program<PrimOutcomeModel> {
    Program::Fail(Fault::UnexpectedReply)
}

proof fn list_clusters_faults(l: ClustersModel, s: ScratchModel)
    requires
        clusters_sound(l.rest),
    ensures
        list_clusters(l, s).fails_only(faults_left()),
    decreases clusters_weight(l.rest), 1int, 0int, no_outcome(),
{
    let ok = faults_left();
    let p = list_clusters(l, s);
    if l.rest.len() > 0 {
        let run = ClusterRunModel {
            outer: ClustersModel { rest: l.rest.drop_first(), ..l },
            spatial_node_index: l.rest[0].spatial_node_index,
            first: l.rest[0].first,
            done: Seq::empty(),
            todo: l.rest[0].prim_instances,
        };
        assert forall|i: int| 0 <= i < run.outer.rest.len() implies {
            &&& (#[trigger] run.outer.rest[i]).first + run.outer.rest[i].prim_instances.len()
                <= usize::MAX
            &&& primitives_sound(run.outer.rest[i].prim_instances)
        } by {
            assert(run.outer.rest[i] == l.rest[i + 1]);
        }
        list_prims_faults(run, s);
        let k = p->Call_1;
        assert forall|r: Reply| (#[trigger] k(r)).fails_only(ok) by {
            if r is Ack {
                assert(k(r) == list_prims(run, s));
            }
        }
    }
}

/// Whether what is left of a list is as a scene has it.
pub open spec fn run_sound(l: ClusterRunModel) -> bool {
    &&& clusters_sound(l.outer.rest)
    &&& primitives_sound(l.todo)
    &&& l.first + l.done.len() + l.todo.len() <= usize::MAX
}

proof fn next_sound(l: ClusterRunModel, b: InstanceModel)
    requires
        l.todo.len() > 0,
        run_sound(l),
    ensures
        run_sound(prim_done(behind_next(l), b)),
{
    let next = prim_done(behind_next(l), b);
    assert forall|i: int| 0 <= i < next.todo.len() implies primitive_sound(
        #[trigger] next.todo[i],
    ) by {
        assert(next.todo[i] == l.todo[i + 1]);
    }
}

proof fn list_prims_faults(l: ClusterRunModel, s: ScratchModel)
    requires
        run_sound(l),
    ensures
        list_prims(l, s).fails_only(faults_left()),
    decreases run_weight(l), 5int, 0int, no_outcome(),
{
    let ok = faults_left();
    let p = list_prims(l, s);
    if l.todo.len() == 0 {
        assert(p == list_clusters(cluster_done(l), s));
        list_clusters_faults(cluster_done(l), s);
    } else {
        let instance = l.todo[0];
        match instance.visibility_info {
            None => {
                let next = prim_done(behind_next(l), instance);
                assert(p == list_prims(next, s));
                next_sound(l, instance);
                list_prims_faults(next, s);
            },
            Some(info) => {
                let k = p->Call_1;
                assert forall|r: Reply| (#[trigger] k(r)).fails_only(ok) by {
                    if let Reply::DirtyRects(rects) = r {
                        assert(k(r) == list_dirty(
                            behind_next(l),
                            s,
                            instance,
                            info,
                            rects@,
                            0,
                        ));
                        list_dirty_faults(l, s, info, rects@, 0);
                    }
                }
            },
        }
    }
}

proof fn list_dirty_faults(
    l: ClusterRunModel,
    s: ScratchModel,
    info: PrimitiveVisibility,
    rects: Seq<DirtyRect>,
    i: int,
)
    requires
        l.todo.len() > 0,
        run_sound(l),
        0 <= i <= rects.len(),
    ensures
        list_dirty(behind_next(l), s, l.todo[0], info, rects, i).fails_only(faults_left()),
    decreases run_weight(l), 4int, rects.len() - i, no_outcome(),
{
    let ok = faults_left();
    let p = list_dirty(behind_next(l), s, l.todo[0], info, rects, i);
    if i < rects.len() {
        let k = p->Call_1;
        assert forall|r: Reply| (#[trigger] k(r)).fails_only(ok) by {
            if let Reply::Flag(touches) = r {
                let found = if touches {
                    with_region(info, rects[i])
                } else {
                    info
                };
                assert(k(r) == list_dirty(behind_next(l), s, l.todo[0], found, rects, i + 1));
                list_dirty_faults(l, s, found, rects, i + 1);
            }
        }
    } else {
        assert(p == list_prepare(behind_next(l), s, l.todo[0], info));
        list_prepare_faults(l, s, info);
    }
}

proof fn list_prepare_faults(l: ClusterRunModel, s: ScratchModel, info: PrimitiveVisibility)
    requires
        l.todo.len() > 0,
        run_sound(l),
    ensures
        list_prepare(behind_next(l), s, l.todo[0], info).fails_only(faults_left()),
    decreases run_weight(l), 3int, 0int, no_outcome(),
{
    let p = list_prepare(behind_next(l), s, l.todo[0], info);
    let instance = l.todo[0];
    if info.visibility_mask == 0 {
        let culled = instance.with_visibility(None);
        let next = prim_done(behind_next(l), culled);
        assert(p == list_prims(next, s));
        next_sound(l, culled);
        list_prims_faults(next, s);
    } else {
        let w = WorkModel { instance: instance.with_visibility(Some(info)), scratch: s };
        let q = prim(w, list_place(behind_next(l)));
        assert(p == list_prepared(behind_next(l), q));
        assert(primitive_sound(instance));
        prim_faults(w, list_place(behind_next(l)));
        list_prepared_faults(l, q);
    }
}

proof fn list_prepared_faults(l: ClusterRunModel, p: Program<PrimOutcomeModel>)
    requires
        l.todo.len() > 0,
        run_sound(l),
        p.fails_only(faults_left()),
    ensures
        list_prepared(behind_next(l), p).fails_only(faults_left()),
    decreases run_weight(l), 2int, 0int, p,
{
    let ok = faults_left();
    let whole = list_prepared(behind_next(l), p);
    match p {
        Program::Return(o) => {
            let next = prim_done(behind_next(l), o.w.instance);
            let rest = list_prims(next, o.w.scratch);
            next_sound(l, o.w.instance);
            list_prims_faults(next, o.w.scratch);
            if o.visible {
                let k = whole->Call_1;
                assert forall|r: Reply| (#[trigger] k(r)).fails_only(ok) by {
                    if r is Ack {
                        assert(k(r) == rest);
                    }
                }
            } else {
                assert(whole == rest);
            }
        },
        Program::Fail(fault) => {
            assert(whole == Program::<PreparedModel>::Fail(fault));
        },
        Program::Call(q, k) => {
            let after = whole->Call_1;
            assert forall|r: Reply| (#[trigger] after(r)).fails_only(ok) by {
                assert(k(r).fails_only(ok));
                assert(after(r) == list_prepared(behind_next(l), k(r)));
                list_prepared_faults(l, k(r));
            }
        },
    }
}

proof fn prim_faults(w: WorkModel, place: PrimPlace)
    requires
        w.instance.visibility_info is Some,
        primitive_sound(w.instance),
    ensures
        prim(w, place).fails_only(faults_left()),
    decreases clusters_weight(w.instance.children), 3int, 0int, no_outcome(),
{
    let ok = faults_left();
    let p = prim(w, place);
    match w.instance.kind {
        PrimitiveInstanceKind::Picture { pic_index } => {
            let k = p->Call_1;
            assert forall|r: Reply| (#[trigger] k(r)).fails_only(ok) by {
                if let Reply::Context(context) = r {
                    assert(k(r) == prim_taken(w, place, context));
                    if let Some(context) = context {
                        prim_children_faults(w, place, context);
                    }
                }
            }
        },
        _ => {
            prim_located_faults(w, place, false);
        },
    }
}

proof fn prim_children_faults(w: WorkModel, place: PrimPlace, context: PictureContext)
    requires
        w.instance.visibility_info is Some,
        primitive_sound(w.instance),
    ensures
        prim_taken(w, place, Some(context)).fails_only(faults_left()),
    decreases clusters_weight(w.instance.children), 2int, 0int, no_outcome(),
{
    let ok = faults_left();
    let instance = without_children(w.instance);
    let l = ClustersModel {
        context,
        limits: place.limits,
        done: Seq::empty(),
        rest: w.instance.children,
    };
    let inner = primitives(w.instance.children, w.scratch, context, place.limits);
    assert(inner == list_clusters(l, w.scratch));
    list_clusters_faults(l, w.scratch);
    let f = |o: PreparedModel|
        prim_restored(
            WorkModel {
                instance: InstanceModel { children: o.clusters, ..instance },
                scratch: o.scratch,
            },
            place,
            context,
        );
    assert forall|o: PreparedModel| (#[trigger] f(o)).fails_only(ok) by {
        let with = WorkModel {
            instance: InstanceModel { children: o.clusters, ..instance },
            scratch: o.scratch,
        };
        prim_located_faults(with, place, context.is_passthrough);
        let k = f(o)->Call_1;
        assert forall|r: Reply| (#[trigger] k(r)).fails_only(ok) by {}
    }
    fails_only_after(inner, f, ok);
    assert(prim_taken(w, place, Some(context)) == prim_children(instance, place, context, inner));
}

/// Over a list whose primitives can be drawn and have positions, the pass fails only with the faults
/// that are left. In particular it never looks up what was found of a primitive that is culled.
pub proof fn drawable_scene_leaves_few_faults(
    clusters: Seq<ClusterModel>,
    s: ScratchModel,
    context: PictureContext,
    limits: CacheLimits,
)
    requires
        clusters_sound(clusters),
    ensures
        primitives(clusters, s, context, limits).fails_only(faults_left()),
{
    let l = ClustersModel { context, limits, done: Seq::empty(), rest: clusters };
    assert(primitives(clusters, s, context, limits) == list_clusters(l, s));
    list_clusters_faults(l, s);
}

} // verus!
