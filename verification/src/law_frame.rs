//! What the pass asks for each primitive of a list, and in which order.
use vstd::prelude::*;

use crate::clip_task::{clip_task, ClipPlace};
use crate::geometry::Rect;
use crate::interned::interned;
use crate::model::{
    CacheLimits, ClusterModel, DirtyRect, InstanceModel, PictureContext, PictureIndex,
    PlaneSplitAnchor, PrimPlace, PrimitiveInstanceKind, PrimitiveVisibility, ScratchModel,
    WorkModel,
};
use crate::pass::{
    list_clusters, list_dirty, list_prepare, list_prepared, list_prims, prim, prim_clipped,
    prim_interned, prim_located, prim_masked, prim_restored, prim_stamped, prim_taken, primitives,
    without_children, ClusterRunModel, ClustersModel, PreparedModel, PrimOutcomeModel,
};
use crate::program::{Fault, Program, Reply, Request};

verus! {

/// A list begins with its first cluster, and nothing of it is done.
pub proof fn list_begins_with_its_first_cluster(
    clusters: Seq<ClusterModel>,
    s: ScratchModel,
    context: PictureContext,
    limits: CacheLimits,
)
    ensures
        primitives(clusters, s, context, limits) == list_clusters(
            ClustersModel { context, limits, done: Seq::empty(), rest: clusters },
            s,
        ),
{
}

/// The clusters of a list are taken in order. For each the node that positions it is selected in
/// the mappings of the picture, and then its primitives follow. When all are done, they are the
/// result, with the buffers.
pub proof fn clusters_are_taken_in_order(l: ClustersModel, s: ScratchModel)
    ensures
        ({
            let p = list_clusters(l, s);
            if l.rest.len() == 0 {
                p == Program::Return(PreparedModel { clusters: l.done, scratch: s })
            } else {
                let first = l.rest[0];
                &&& p.asks(
                    Request::SelectSpatialNode {
                        state: l.context.state,
                        node: first.spatial_node_index,
                    },
                )
                &&& p.on(Reply::Ack) == list_prims(
                    ClusterRunModel {
                        outer: ClustersModel {
                            context: l.context,
                            limits: l.limits,
                            done: l.done,
                            rest: l.rest.subrange(1, l.rest.len() as int),
                        },
                        spatial_node_index: first.spatial_node_index,
                        first: first.first,
                        done: Seq::empty(),
                        todo: first.prim_instances,
                    },
                    s,
                )
            }
        }),
{
    if l.rest.len() > 0 {
        assert(l.rest.drop_first() =~= l.rest.subrange(1, l.rest.len() as int));
    }
}

/// The cluster with one primitive fewer to do and another one done.
pub open spec fn one_done(l: ClusterRunModel, instance: InstanceModel) -> ClusterRunModel {
    ClusterRunModel {
        outer: l.outer,
        spatial_node_index: l.spatial_node_index,
        first: l.first,
        done: l.done.push(instance),
        todo: l.todo.subrange(1, l.todo.len() as int),
    }
}

/// The primitives of a cluster are taken in order. One that is culled is left as it is, with no
/// question asked. For any other the dirty regions are asked for. A cluster whose primitives are
/// all done is put behind those that were done before.
pub proof fn primitives_are_taken_in_order(
    l: ClusterRunModel,
    s: ScratchModel,
    rects: Vec<DirtyRect>,
)
    ensures
        ({
            let p = list_prims(l, s);
            if l.todo.len() == 0 {
                p == list_clusters(
                    ClustersModel {
                        context: l.outer.context,
                        limits: l.outer.limits,
                        done: l.outer.done.push(
                            ClusterModel {
                                spatial_node_index: l.spatial_node_index,
                                first: l.first,
                                prim_instances: l.done,
                            },
                        ),
                        rest: l.outer.rest,
                    },
                    s,
                )
            } else {
                let next = l.todo[0];
                let rest = ClusterRunModel {
                    todo: l.todo.subrange(1, l.todo.len() as int),
                    ..l
                };
                match next.visibility_info {
                    None => p == list_prims(one_done(l, next), s),
                    Some(info) => {
                        &&& p.asks(Request::DirtyRegion)
                        &&& p.on(Reply::DirtyRects(rects)) == list_dirty(
                            rest,
                            s,
                            next,
                            info,
                            rects@,
                            0,
                        )
                    },
                }
            }
        }),
{
    if l.todo.len() > 0 {
        assert(l.todo.drop_first() =~= l.todo.subrange(1, l.todo.len() as int));
    }
}

/// What can be seen of the primitive is tested against each dirty region, in order, and where they
/// touch, the primitive gets the marks of the region besides those that it has.
pub proof fn primitive_is_tested_against_each_region(
    l: ClusterRunModel,
    s: ScratchModel,
    instance: InstanceModel,
    info: PrimitiveVisibility,
    rects: Seq<DirtyRect>,
    i: int,
)
    requires
        0 <= i < rects.len(),
    ensures
        ({
            let p = list_dirty(l, s, instance, info, rects, i);
            let marked = PrimitiveVisibility {
                clipped_world_rect: info.clipped_world_rect,
                combined_local_clip_rect: info.combined_local_clip_rect,
                clip_chain: info.clip_chain,
                clip_task_index: info.clip_task_index,
                visibility_mask: info.visibility_mask | rects[i].visibility_mask,
            };
            &&& p.asks(
                Request::DoIntersect { a: info.clipped_world_rect, b: rects[i].world_rect },
            )
            &&& p.on(Reply::Flag(false)) == list_dirty(l, s, instance, info, rects, i + 1)
            &&& p.on(Reply::Flag(true)) == list_dirty(l, s, instance, marked, rects, i + 1)
        }),
{
}

/// A primitive that has no mark when all regions are tested is culled, and the next one follows.
/// Any other is prepared with its marks, in the context of the list and at its place in it: the
/// number of the cluster, and the position of the cluster plus that of the primitive in it. A
/// position that is no number of the machine is a fault.
pub proof fn marked_primitive_is_prepared_at_its_place(
    l: ClusterRunModel,
    s: ScratchModel,
    instance: InstanceModel,
    info: PrimitiveVisibility,
    rects: Seq<DirtyRect>,
)
    ensures
        ({
            let p = list_dirty(l, s, instance, info, rects, rects.len() as int);
            let culled = InstanceModel { visibility_info: None, ..instance };
            let w = WorkModel {
                instance: InstanceModel { visibility_info: Some(info), ..instance },
                scratch: s,
            };
            let place = PrimPlace {
                context: l.outer.context,
                prim_spatial_node_index: l.spatial_node_index,
                plane_split_anchor: PlaneSplitAnchor {
                    cluster_index: l.outer.done.len() as usize,
                    instance_index: (l.first + l.done.len()) as usize,
                },
                limits: l.outer.limits,
            };
            if info.visibility_mask == 0 {
                p == list_prims(ClusterRunModel { done: l.done.push(culled), ..l }, s)
            } else if l.first + l.done.len() > usize::MAX {
                p == Program::<PreparedModel>::Fail(Fault::PositionOverflow)
            } else {
                p == list_prepared(l, prim(w, place))
            }
        }),
{
    assert(list_dirty(l, s, instance, info, rects, rects.len() as int) == list_prepare(
        l,
        s,
        instance,
        info,
    ));
}

/// A primitive that is prepared takes its place in the list as it came out, with the buffers as
/// they came out; one that was found to be visible is counted first.
pub proof fn prepared_primitive_takes_its_place(
    l: ClusterRunModel,
    w: WorkModel,
    visible: bool,
)
    ensures
        ({
            let p = list_prepared(l, Program::Return(PrimOutcomeModel { w, visible }));
            let next = list_prims(
                ClusterRunModel { done: l.done.push(w.instance), ..l },
                w.scratch,
            );
            if visible {
                p.asks(Request::CountVisiblePrimitive) && p.on(Reply::Ack) == next
            } else {
                p == next
            }
        }),
{
}

/// A picture takes the context for its children, for what can be seen of it and in the nodes, the
/// surface and the subpixel mode that it is drawn with. Where there is none it is culled, and is
/// not visible. Else its children are prepared in that context, the context is given back to the
/// surface that the picture is drawn on, and the picture is prepared with its children as they came
/// out; it is not clipped if it passes them through. A primitive of any other kind is prepared at
/// once.
pub proof fn picture_is_prepared_behind_its_children(
    w: WorkModel,
    place: PrimPlace,
    info: PrimitiveVisibility,
    context: PictureContext,
    children: PreparedModel,
)
    requires
        w.instance.visibility_info == Some(info),
    ensures
        ({
            let p = prim(w, place);
            let outer = place.context;
            match w.instance.kind {
                PrimitiveInstanceKind::Picture { pic_index } => {
                    let without = p.on(Reply::Context(None));
                    let with = p.on(Reply::Context(Some(context)));
                    let instance = without_children(w.instance);
                    let restore = |l: PreparedModel|
                        prim_restored(
                            WorkModel {
                                instance: InstanceModel { children: l.clusters, ..instance },
                                scratch: l.scratch,
                            },
                            place,
                            context,
                        );
                    &&& p.asks(
                        Request::TakeContext {
                            pic_index,
                            clipped_prim_bounding_rect: info.clipped_world_rect,
                            surface_spatial_node_index: outer.surface_spatial_node_index,
                            raster_spatial_node_index: outer.raster_spatial_node_index,
                            surface_index: outer.surface_index,
                            subpixel_mode: outer.subpixel_mode,
                        },
                    )
                    &&& without == Program::Return(
                        PrimOutcomeModel {
                            w: WorkModel {
                                instance: InstanceModel { visibility_info: None, ..w.instance },
                                scratch: w.scratch,
                            },
                            visible: false,
                        },
                    )
                    &&& with == primitives(
                        w.instance.children,
                        w.scratch,
                        context,
                        place.limits,
                    ).bind(restore)
                    &&& restore(children).asks(
                        Request::RestoreContext { surface_index: outer.surface_index, context },
                    )
                    &&& restore(children).on(Reply::Ack) == prim_located(
                        WorkModel {
                            instance: InstanceModel {
                                children: children.clusters,
                                ..w.instance
                            },
                            scratch: children.scratch,
                        },
                        place,
                        context.is_passthrough,
                    )
                },
                _ => p == prim_located(w, place, false),
            }
        }),
{
    let p = prim(w, place);
    if w.instance.kind is Picture {
        assert(p.on(Reply::Context(None)) == prim_taken(w, place, None));
        assert(p.on(Reply::Context(Some(context))) == prim_taken(w, place, Some(context)));
        let instance = without_children(w.instance);
        let restore = |l: PreparedModel|
            prim_restored(
                WorkModel {
                    instance: InstanceModel { children: l.clusters, ..instance },
                    scratch: l.scratch,
                },
                place,
                context,
            );
        let inner = primitives(w.instance.children, w.scratch, context, place.limits);
        assert(crate::pass::prim_children(instance, place, context, inner) == inner.bind(restore));
    }
}

/// A picture that is culled cannot be prepared.
pub proof fn culled_picture_is_a_fault(w: WorkModel, place: PrimPlace, pic_index: PictureIndex)
    requires
        w.instance.kind == (PrimitiveInstanceKind::Picture { pic_index }),
        w.instance.visibility_info is None,
    ensures
        prim(w, place) == Program::<PrimOutcomeModel>::Fail(Fault::NotVisible),
{
}

/// A primitive is clipped where its own rectangle begins, in the node that positions it, the node
/// of the raster, and the surface and the mappings of the picture, unless its children are passed
/// through. Then it is stamped, prepared by its kind, and visible.
pub proof fn primitive_is_clipped_stamped_and_prepared(
    w: WorkModel,
    place: PrimPlace,
    is_passthrough: bool,
    rect: Rect,
    clipped: WorkModel,
)
    ensures
        ({
            let p = prim_located(w, place, is_passthrough);
            let located = p.on(Reply::Rect(rect));
            let at = ClipPlace {
                prim_origin: rect.origin,
                prim_spatial_node_index: place.prim_spatial_node_index,
                root_spatial_node_index: place.context.raster_spatial_node_index,
                surface_index: place.context.surface_index,
                state: place.context.state,
            };
            let stamp = |o: WorkModel| prim_stamped(o, place);
            let done = |o: WorkModel| Program::Return(PrimOutcomeModel { w: o, visible: true });
            &&& p.asks(Request::LocalPrimRect { prim: w.instance.id })
            &&& located == if is_passthrough {
                stamp(w)
            } else {
                clip_task(w, at).bind(stamp)
            }
            &&& stamp(clipped).asks(Request::StampFrame { prim: clipped.instance.id })
            &&& stamp(clipped).on(Reply::Ack) == interned(clipped, place).bind(done)
        }),
{
    let p = prim_located(w, place, is_passthrough);
    assert(p.on(Reply::Rect(rect)) == prim_clipped(w, place, is_passthrough, rect.origin));
    let at = ClipPlace {
        prim_origin: rect.origin,
        prim_spatial_node_index: place.prim_spatial_node_index,
        root_spatial_node_index: place.context.raster_spatial_node_index,
        surface_index: place.context.surface_index,
        state: place.context.state,
    };
    let stamp = |o: WorkModel| prim_stamped(o, place);
    assert(prim_masked(place, clip_task(w, at)) == clip_task(w, at).bind(stamp));
    let done = |o: WorkModel| Program::Return(PrimOutcomeModel { w: o, visible: true });
    assert(prim_interned(interned(clipped, place)) == interned(clipped, place).bind(done));
}

} // verus!
