//! What holds of every run of the pass.
use vstd::prelude::*;

use crate::clip_task::clip_task;
use crate::interned::{interned, interned_scaled};
use crate::kept::{
    begins, buffers_grow, findings_stay, findings_stay_on, growth_is_transitive,
    same_findings_stay, same_primitive,
};
use crate::law_clip::{clipped_from, clipping_only_appends, masks_kept};
use crate::law_gradient::{linear_gradient_keeps, round_gradient_keeps};
use crate::law_prim::{
    backdrop_keeps, border_gets_one_task_per_segment, border_stored, brush_keeps, line_keeps,
    picture_keeps, prepared_from, prepared_in_sight, text_keeps,
};
use crate::model::{
    CacheLimits, ClusterModel, DirtyRect, InstanceModel, PictureContext, PrimPlace,
    PrimitiveInstanceKind, PrimitiveVisibility, ScratchModel, WorkModel,
};
use crate::pass::{
    clip_place, cluster_done, clusters_weight, list_clusters, list_dirty, list_place, list_prepare,
    list_prepared, list_prims, prim, prim_children, prim_clipped, prim_done, prim_located,
    prim_restored, prim_stamped, prim_taken, primitives, run_weight, with_region, without_children,
    ClusterRunModel, ClustersModel, PreparedModel, PrimOutcomeModel,
};
use crate::prim_border::border_repeats;
use crate::prim_brush::brush_plan;
use crate::prim_gradient::{conic_tiling, linear_cache, linear_tiling, radial_tiling};
use crate::prim_text::TextArgs;
use crate::program::{always_of_bind, always_weaker, Fault, Program, Reply, Request};
use crate::scalar::Scalar;

verus! {

/// Whether a primitive of this kind may turn out to show nothing when it is prepared: a picture, a
/// backdrop, or a gradient with gaps between its repetitions.
pub open spec fn may_show_nothing(kind: PrimitiveInstanceKind) -> bool {
    match kind {
        PrimitiveInstanceKind::LinearGradient(t) => !t.tile_spacing.zero(),
        PrimitiveInstanceKind::RadialGradient(t) => !t.tile_spacing.zero(),
        PrimitiveInstanceKind::ConicGradient(t) => !t.tile_spacing.zero(),
        PrimitiveInstanceKind::Picture { .. } => true,
        PrimitiveInstanceKind::Backdrop { .. } => true,
        _ => false,
    }
}

proof fn interned_scaled_keeps(w: WorkModel, place: PrimPlace, scale: Scalar)
    ensures
        interned_scaled(w, place, scale).always(prepared_from(w)),
        !may_show_nothing(w.instance.kind) ==> interned_scaled(w, place, scale).always(
            prepared_in_sight(w),
        ),
{
    let node = place.prim_spatial_node_index;
    match w.instance.kind {
        PrimitiveInstanceKind::LineDecoration { cache_key } => {
            line_keeps(w, cache_key, scale, place.limits.max_line_decoration_resolution);
        },
        PrimitiveInstanceKind::TextRun { prim_origin, reference_frame_relative_offset } => {
            if let Some(info) = w.instance.visibility_info {
                text_keeps(
                    w,
                    TextArgs {
                        prim_origin,
                        reference_frame_relative_offset,
                        pic_clip_rect: info.clip_chain.pic_clip_rect,
                        place,
                    },
                );
            }
        },
        PrimitiveInstanceKind::NormalBorder(t) => {
            let segments = t.border_segments@;
            border_gets_one_task_per_segment(w, segments, border_repeats(t), node, scale);
            always_weaker(
                interned_scaled(w, place, scale),
                border_stored(w, segments.len() as int),
                prepared_in_sight(w),
            );
        },
        PrimitiveInstanceKind::LinearGradient(t) => {
            linear_gradient_keeps(w, linear_tiling(t, node), linear_cache(t, place.limits));
        },
        PrimitiveInstanceKind::RadialGradient(t) => {
            round_gradient_keeps(w, radial_tiling(t, node));
        },
        PrimitiveInstanceKind::ConicGradient(t) => {
            round_gradient_keeps(w, conic_tiling(t, node));
        },
        PrimitiveInstanceKind::Picture { pic_index } => {
            picture_keeps(w, pic_index, place);
        },
        PrimitiveInstanceKind::Backdrop { pic_index } => {
            backdrop_keeps(w, pic_index, place.context.surface_index);
        },
        _ => {
            brush_keeps(w, brush_plan(w.instance.kind));
        },
    }
    if !may_show_nothing(w.instance.kind) {
        always_weaker(interned_scaled(w, place, scale), prepared_in_sight(w), prepared_from(w));
    }
}

/// Preparing a primitive of any kind leaves the buffers of masks and of segments as they are, loses
/// nothing from the others, and changes nothing of what the primitive is.
pub proof fn preparing_only_appends(w: WorkModel, place: PrimPlace)
    ensures
        interned(w, place).always(prepared_from(w)),
{
    let k = interned(w, place)->Call_1;
    assert forall|r: Reply| (#[trigger] k(r)).always(prepared_from(w)) by {
        if let Reply::Number(scale) = r {
            interned_scaled_keeps(w, place, scale);
        }
    }
}

/// Preparing culls only a picture, a backdrop, or a gradient with gaps between its repetitions; a
/// primitive of any other kind stays as visible as it was.
pub proof fn other_kinds_stay_in_sight(w: WorkModel, place: PrimPlace)
    requires
        !may_show_nothing(w.instance.kind),
    ensures
        interned(w, place).always(prepared_in_sight(w)),
{
    let k = interned(w, place)->Call_1;
    assert forall|r: Reply| (#[trigger] k(r)).always(prepared_in_sight(w)) by {
        if let Reply::Number(scale) = r {
            interned_scaled_keeps(w, place, scale);
        }
    }
}

/// That nothing was lost from the buffers, and that the primitive is the same with the same
/// children and the same findings. One that is not visible is culled.
pub open spec fn primitive_stays(w: WorkModel) -> spec_fn(PrimOutcomeModel) -> bool {
    |o: PrimOutcomeModel|
        {
            &&& buffers_grow(w.scratch, o.w.scratch)
            &&& same_primitive(w.instance, o.w.instance)
            &&& o.w.instance.children == w.instance.children
            &&& findings_stay(w.instance.visibility_info, o.w.instance.visibility_info)
            &&& !o.visible ==> o.w.instance.visibility_info is None
        }
}

proof fn prepared_primitive_stays(w: WorkModel)
    ensures
        forall|o: WorkModel| #[trigger]
            prepared_from(w)(o) ==> primitive_stays(w)(
                PrimOutcomeModel { w: o, visible: true },
            ),
{
    if let Some(info) = w.instance.visibility_info {
        same_findings_stay(info, info);
    }
}

/// What holds of a primitive that kept what is to be kept holds of it after it was stamped and
/// prepared.
proof fn stamped_keeps(
    w: WorkModel,
    place: PrimPlace,
    post: spec_fn(PrimOutcomeModel) -> bool,
)
    requires
        forall|o: WorkModel| #[trigger]
            prepared_from(w)(o) ==> post(PrimOutcomeModel { w: o, visible: true }),
    ensures
        prim_stamped(w, place).always(post),
{
    let f = |o: WorkModel| Program::Return(PrimOutcomeModel { w: o, visible: true });
    preparing_only_appends(w, place);
    assert forall|o: WorkModel| prepared_from(w)(o) implies (#[trigger] f(o)).always(post) by {}
    always_of_bind(interned(w, place), f, prepared_from(w), post);
    let k = prim_stamped(w, place)->Call_1;
    assert forall|r: Reply| (#[trigger] k(r)).always(post) by {}
}

proof fn prim_located_keeps(w: WorkModel, place: PrimPlace, is_passthrough: bool)
    ensures
        prim_located(w, place, is_passthrough).always(primitive_stays(w)),
{
    let post = primitive_stays(w);
    let k = prim_located(w, place, is_passthrough)->Call_1;
    assert forall|r: Reply| (#[trigger] k(r)).always(post) by {
        if let Reply::Rect(rect) = r {
            assert(k(r) == prim_clipped(w, place, is_passthrough, rect.origin));
            if is_passthrough {
                prepared_primitive_stays(w);
                stamped_keeps(w, place, post);
            } else if let Some(info) = w.instance.visibility_info {
                let at = clip_place(place, rect.origin);
                let mid = clipped_from(w, info);
                let f = |o: WorkModel| prim_stamped(o, place);
                clipping_only_appends(w, at, info);
                assert forall|o: WorkModel| mid(o) implies (#[trigger] f(o)).always(post) by {
                    prepared_primitive_stays(o);
                    stamped_keeps(o, place, primitive_stays(o));
                    if let Some(found) = o.instance.visibility_info {
                        same_findings_stay(info, found);
                    }
                    assert forall|e: PrimOutcomeModel| #[trigger]
                        primitive_stays(o)(e) implies post(e) by {
                        growth_is_transitive(w.scratch, o.scratch, e.w.scratch);
                        findings_stay_on(
                            w.instance.visibility_info,
                            o.instance.visibility_info,
                            e.w.instance.visibility_info,
                        );
                    }
                    always_weaker(f(o), primitive_stays(o), post);
                }
                always_of_bind(clip_task(w, at), f, mid, post);
            }
        }
    }
}

/// That the masks which a primitive that is still visible points at are those that were added for
/// it, and that no mask of another primitive was lost.
pub open spec fn points_at_its_masks(w: WorkModel, info: PrimitiveVisibility) -> spec_fn(
    PrimOutcomeModel,
) -> bool {
    |o: PrimOutcomeModel|
        {
            &&& begins(w.scratch.clip_mask_instances, o.w.scratch.clip_mask_instances)
            &&& o.w.instance.visibility_info is Some ==> masks_kept(w, info, o.w)
        }
}

/// A primitive that is clipped and prepared and still visible points at the masks that were added
/// for it, or got none.
pub proof fn prepared_primitive_points_at_its_masks(
    w: WorkModel,
    place: PrimPlace,
    is_passthrough: bool,
    info: PrimitiveVisibility,
)
    requires
        w.instance.visibility_info == Some(info),
    ensures
        prim_located(w, place, is_passthrough).always(points_at_its_masks(w, info)),
{
    let post = points_at_its_masks(w, info);
    let k = prim_located(w, place, is_passthrough)->Call_1;
    assert forall|r: Reply| (#[trigger] k(r)).always(post) by {
        if let Reply::Rect(rect) = r {
            assert(k(r) == prim_clipped(w, place, is_passthrough, rect.origin));
            if is_passthrough {
                stamped_keeps(w, place, post);
            } else {
                let at = clip_place(place, rect.origin);
                let mid = clipped_from(w, info);
                let f = |o: WorkModel| prim_stamped(o, place);
                clipping_only_appends(w, at, info);
                assert forall|o: WorkModel| mid(o) implies (#[trigger] f(o)).always(post) by {
                    stamped_keeps(o, place, post);
                }
                always_of_bind(clip_task(w, at), f, mid, post);
            }
        }
    }
}

/// That no mask and no segment was added.
pub open spec fn no_masks_added(w: WorkModel) -> spec_fn(PrimOutcomeModel) -> bool {
    |o: PrimOutcomeModel|
        {
            &&& o.w.scratch.clip_mask_instances == w.scratch.clip_mask_instances
            &&& o.w.scratch.segments == w.scratch.segments
        }
}

/// A picture that passes its children through is not clipped itself: it gets neither masks nor
/// segments.
pub proof fn passthrough_picture_is_not_clipped(w: WorkModel, place: PrimPlace)
    ensures
        prim_located(w, place, true).always(no_masks_added(w)),
{
    let post = no_masks_added(w);
    let k = prim_located(w, place, true)->Call_1;
    assert forall|r: Reply| (#[trigger] k(r)).always(post) by {
        if let Reply::Rect(rect) = r {
            assert(k(r) == prim_clipped(w, place, true, rect.origin));
            stamped_keeps(w, place, post);
        }
    }
}

/// Whether `b` is what may become of the primitive `a`: the same primitive with what may become of
/// its children. One that is culled stays as it is; of one that is still visible after it was
/// prepared, all that was found before stays but the marks of dirty regions, which may be more, and
/// where its masks are.
pub open spec fn primitive_kept(a: InstanceModel, b: InstanceModel) -> bool
    decreases a,
{
    &&& same_primitive(a, b)
    &&& a.visibility_info is None ==> b == a
    &&& findings_stay(a.visibility_info, b.visibility_info)
    &&& clusters_kept(a.children, b.children)
}

/// Whether `b` is what may become of the primitives `a`, one by one.
pub open spec fn primitives_kept(a: Seq<InstanceModel>, b: Seq<InstanceModel>) -> bool
    decreases a,
{
    &&& a.len() == b.len()
    &&& forall|i: int| 0 <= i < a.len() ==> primitive_kept(a[i], #[trigger] b[i])
}

/// Whether `b` is what may become of the clusters `a`, one by one.
pub open spec fn clusters_kept(a: Seq<ClusterModel>, b: Seq<ClusterModel>) -> bool
    decreases a,
{
    &&& a.len() == b.len()
    &&& forall|i: int|
        0 <= i < a.len() ==> {
            &&& (#[trigger] b[i]).spatial_node_index == a[i].spatial_node_index
            &&& b[i].first == a[i].first
            &&& primitives_kept(a[i].prim_instances, b[i].prim_instances)
        }
}

/// What does not change is kept.
proof fn same_clusters_are_kept(a: Seq<ClusterModel>)
    ensures
        clusters_kept(a, a),
    decreases a,
{
    assert forall|i: int| 0 <= i < a.len() implies primitives_kept(
        (#[trigger] a[i]).prim_instances,
        a[i].prim_instances,
    ) by {
        same_primitives_are_kept(a[i].prim_instances);
    }
}

proof fn same_primitives_are_kept(a: Seq<InstanceModel>)
    ensures
        primitives_kept(a, a),
    decreases a,
{
    assert forall|i: int| 0 <= i < a.len() implies primitive_kept(#[trigger] a[i], a[i]) by {
        same_clusters_are_kept(a[i].children);
        if let Some(info) = a[i].visibility_info {
            same_findings_stay(info, info);
        }
    }
}

/// What is left of a sequence from position `n` on.
pub open spec fn from_position<T>(s: Seq<T>, n: int) -> Seq<T> {
    s.subrange(n, s.len() as int)
}

/// That the clusters that were done stayed, and that the others are kept.
pub open spec fn rest_kept(l: ClustersModel, s: ScratchModel) -> spec_fn(PreparedModel) -> bool {
    |o: PreparedModel|
        {
            &&& begins(l.done, o.clusters)
            &&& clusters_kept(l.rest, from_position(o.clusters, l.done.len() as int))
            &&& buffers_grow(s, o.scratch)
        }
}

/// That what was done of the cluster stayed, and that its other primitives and the other clusters
/// are kept.
pub open spec fn todo_kept(l: ClusterRunModel, s: ScratchModel) -> spec_fn(PreparedModel) -> bool {
    |o: PreparedModel|
        {
            let at = l.outer.done.len() as int;
            &&& begins(l.outer.done, o.clusters)
            &&& at < o.clusters.len()
            &&& o.clusters[at].spatial_node_index == l.spatial_node_index
            &&& o.clusters[at].first == l.first
            &&& begins(l.done, o.clusters[at].prim_instances)
            &&& primitives_kept(
                l.todo,
                from_position(o.clusters[at].prim_instances, l.done.len() as int),
            )
            &&& clusters_kept(l.outer.rest, from_position(o.clusters, at + 1))
            &&& buffers_grow(s, o.scratch)
        }
}

/// The cluster with its next primitive taken out.
pub open spec fn behind_next(l: ClusterRunModel) -> ClusterRunModel {
    ClusterRunModel { todo: l.todo.drop_first(), ..l }
}

proof fn next_kept(l: ClusterRunModel, s: ScratchModel, b: InstanceModel, t: ScratchModel)
    requires
        l.todo.len() > 0,
        primitive_kept(l.todo[0], b),
        buffers_grow(s, t),
    ensures
        forall|o: PreparedModel| #[trigger]
            todo_kept(prim_done(behind_next(l), b), t)(o) ==> todo_kept(l, s)(o),
{
    let next = prim_done(behind_next(l), b);
    assert forall|o: PreparedModel| #[trigger] todo_kept(next, t)(o) implies todo_kept(l, s)(o) by {
        let at = l.outer.done.len() as int;
        let prims = o.clusters[at].prim_instances;
        let n = l.done.len() as int;
        growth_is_transitive(s, t, o.scratch);
        assert(prims[n] == next.done[n]);
        assert forall|i: int| 0 <= i < l.done.len() implies #[trigger] prims[i] == l.done[i] by {
            assert(prims[i] == next.done[i]);
        }
        let tail = from_position(prims, n);
        let short = from_position(prims, n + 1);
        assert forall|i: int| 0 <= i < l.todo.len() implies primitive_kept(
            l.todo[i],
            #[trigger] tail[i],
        ) by {
            if i > 0 {
                assert(tail[i] == short[i - 1]);
                assert(l.todo[i] == next.todo[i - 1]);
            }
        }
    }
}

proof fn next_cluster_kept(l: ClustersModel, s: ScratchModel, run: ClusterRunModel)
    requires
        l.rest.len() > 0,
        run.outer == (ClustersModel { rest: l.rest.drop_first(), ..l }),
        run.spatial_node_index == l.rest[0].spatial_node_index,
        run.first == l.rest[0].first,
        run.done == Seq::<InstanceModel>::empty(),
        run.todo == l.rest[0].prim_instances,
    ensures
        forall|o: PreparedModel| #[trigger] todo_kept(run, s)(o) ==> rest_kept(l, s)(o),
{
    assert forall|o: PreparedModel| #[trigger] todo_kept(run, s)(o) implies rest_kept(l, s)(o) by {
        let at = l.done.len() as int;
        let tail = from_position(o.clusters, at);
        let short = from_position(o.clusters, at + 1);
        let prims = o.clusters[at].prim_instances;
        assert(from_position(prims, 0) =~= prims);
        assert forall|i: int| 0 <= i < l.rest.len() implies {
            &&& (#[trigger] tail[i]).spatial_node_index == l.rest[i].spatial_node_index
            &&& tail[i].first == l.rest[i].first
            &&& primitives_kept(l.rest[i].prim_instances, tail[i].prim_instances)
        } by {
            if i > 0 {
                assert(tail[i] == short[i - 1]);
                assert(l.rest[i] == run.outer.rest[i - 1]);
            }
        }
    }
}

proof fn closing_keeps(l: ClusterRunModel, s: ScratchModel)
    requires
        l.todo.len() == 0,
    ensures
        forall|o: PreparedModel| #[trigger]
            rest_kept(cluster_done(l), s)(o) ==> todo_kept(l, s)(o),
{
    let closed = cluster_done(l);
    assert forall|o: PreparedModel| #[trigger] rest_kept(closed, s)(o) implies todo_kept(
        l,
        s,
    )(o) by {
        let at = l.outer.done.len() as int;
        assert(o.clusters[at] == closed.done[at]);
        assert forall|i: int| 0 <= i < at implies #[trigger] o.clusters[i] == l.outer.done[i] by {
            assert(o.clusters[i] == closed.done[i]);
        }
        assert(from_position(l.done, l.done.len() as int) =~= l.todo);
    }
}

/// That nothing was lost from the buffers, and that the primitive is the same with what may have
/// become of its children, and with the same findings.
pub open spec fn outcome_kept(w: WorkModel) -> spec_fn(PrimOutcomeModel) -> bool {
    |o: PrimOutcomeModel|
        {
            &&& buffers_grow(w.scratch, o.w.scratch)
            &&& same_primitive(w.instance, o.w.instance)
            &&& clusters_kept(w.instance.children, o.w.instance.children)
            &&& findings_stay(w.instance.visibility_info, o.w.instance.visibility_info)
            &&& !o.visible ==> o.w.instance.visibility_info is None
        }
}

proof fn list_clusters_keeps(l: ClustersModel, s: ScratchModel)
    ensures
        list_clusters(l, s).always(rest_kept(l, s)),
    decreases clusters_weight(l.rest), 1int, 0int, no_outcome(),
{
    let post = rest_kept(l, s);
    let p = list_clusters(l, s);
    if l.rest.len() == 0 {
        assert(from_position(l.done, l.done.len() as int) =~= l.rest);
    } else {
        let run = ClusterRunModel {
            outer: ClustersModel { rest: l.rest.drop_first(), ..l },
            spatial_node_index: l.rest[0].spatial_node_index,
            first: l.rest[0].first,
            done: Seq::empty(),
            todo: l.rest[0].prim_instances,
        };
        list_prims_keeps(run, s);
        next_cluster_kept(l, s, run);
        always_weaker(list_prims(run, s), todo_kept(run, s), post);
        let k = p->Call_1;
        assert forall|r: Reply| (#[trigger] k(r)).always(post) by {
            if r is Ack {
                assert(k(r) == list_prims(run, s));
            }
        }
    }
}

proof fn list_prims_keeps(l: ClusterRunModel, s: ScratchModel)
    ensures
        list_prims(l, s).always(todo_kept(l, s)),
    decreases run_weight(l), 5int, 0int, no_outcome(),
{
    let post = todo_kept(l, s);
    let p = list_prims(l, s);
    if l.todo.len() == 0 {
        let closed = cluster_done(l);
        assert(p == list_clusters(closed, s));
        list_clusters_keeps(closed, s);
        closing_keeps(l, s);
        always_weaker(p, rest_kept(closed, s), post);
    } else {
        let instance = l.todo[0];
        match instance.visibility_info {
            None => {
                let next = prim_done(behind_next(l), instance);
                assert(p == list_prims(next, s));
                same_clusters_are_kept(instance.children);
                list_prims_keeps(next, s);
                next_kept(l, s, instance, s);
                always_weaker(p, todo_kept(next, s), post);
            },
            Some(info) => {
                let k = p->Call_1;
                assert forall|r: Reply| (#[trigger] k(r)).always(post) by {
                    if let Reply::DirtyRects(rects) = r {
                        assert(k(r) == list_dirty(
                            behind_next(l),
                            s,
                            instance,
                            info,
                            rects@,
                            0,
                        ));
                        same_findings_stay(info, info);
                        list_dirty_keeps(l, s, info, rects@, 0);
                    }
                }
            },
        }
    }
}

proof fn list_dirty_keeps(
    l: ClusterRunModel,
    s: ScratchModel,
    info: PrimitiveVisibility,
    rects: Seq<DirtyRect>,
    i: int,
)
    requires
        l.todo.len() > 0,
        findings_stay(l.todo[0].visibility_info, Some(info)),
        0 <= i <= rects.len(),
    ensures
        list_dirty(behind_next(l), s, l.todo[0], info, rects, i).always(todo_kept(l, s)),
    decreases run_weight(l), 4int, rects.len() - i, no_outcome(),
{
    let post = todo_kept(l, s);
    let p = list_dirty(behind_next(l), s, l.todo[0], info, rects, i);
    if i < rects.len() {
        let k = p->Call_1;
        assert forall|r: Reply| (#[trigger] k(r)).always(post) by {
            if let Reply::Flag(touches) = r {
                let found = if touches {
                    with_region(info, rects[i])
                } else {
                    info
                };
                assert(k(r) == list_dirty(behind_next(l), s, l.todo[0], found, rects, i + 1));
                let own = info.visibility_mask;
                let region = rects[i].visibility_mask;
                assert(own & own == own && (own | region) & own == own) by (bit_vector);
                findings_stay_on(l.todo[0].visibility_info, Some(info), Some(found));
                list_dirty_keeps(l, s, found, rects, i + 1);
            }
        }
    } else {
        assert(p == list_prepare(behind_next(l), s, l.todo[0], info));
        list_prepare_keeps(l, s, info);
    }
}

proof fn list_prepare_keeps(l: ClusterRunModel, s: ScratchModel, info: PrimitiveVisibility)
    requires
        l.todo.len() > 0,
        findings_stay(l.todo[0].visibility_info, Some(info)),
    ensures
        list_prepare(behind_next(l), s, l.todo[0], info).always(todo_kept(l, s)),
    decreases run_weight(l), 3int, 0int, no_outcome(),
{
    let post = todo_kept(l, s);
    let p = list_prepare(behind_next(l), s, l.todo[0], info);
    let instance = l.todo[0];
    if info.visibility_mask == 0 {
        let culled = instance.with_visibility(None);
        let next = prim_done(behind_next(l), culled);
        assert(p == list_prims(next, s));
        same_clusters_are_kept(instance.children);
        list_prims_keeps(next, s);
        next_kept(l, s, culled, s);
        always_weaker(p, todo_kept(next, s), post);
    } else if l.first + l.done.len() <= usize::MAX {
        let w = WorkModel { instance: instance.with_visibility(Some(info)), scratch: s };
        let q = prim(w, list_place(behind_next(l)));
        assert(p == list_prepared(behind_next(l), q));
        prim_keeps(w, list_place(behind_next(l)));
        list_prepared_keeps(l, w, q);
    }
}

proof fn list_prepared_keeps(l: ClusterRunModel, w: WorkModel, p: Program<PrimOutcomeModel>)
    requires
        l.todo.len() > 0,
        w.instance.visibility_info is Some,
        findings_stay(l.todo[0].visibility_info, w.instance.visibility_info),
        same_primitive(l.todo[0], w.instance),
        w.instance.children == l.todo[0].children,
        p.always(outcome_kept(w)),
    ensures
        list_prepared(behind_next(l), p).always(todo_kept(l, w.scratch)),
    decreases run_weight(l), 2int, 0int, p,
{
    let post = todo_kept(l, w.scratch);
    let whole = list_prepared(behind_next(l), p);
    match p {
        Program::Return(o) => {
            assert(outcome_kept(w)(o));
            findings_stay_on(
                l.todo[0].visibility_info,
                w.instance.visibility_info,
                o.w.instance.visibility_info,
            );
            let next = prim_done(behind_next(l), o.w.instance);
            list_prims_keeps(next, o.w.scratch);
            next_kept(l, w.scratch, o.w.instance, o.w.scratch);
            let rest = list_prims(next, o.w.scratch);
            always_weaker(rest, todo_kept(next, o.w.scratch), post);
            if o.visible {
                let k = whole->Call_1;
                assert forall|r: Reply| (#[trigger] k(r)).always(post) by {
                    if r is Ack {
                        assert(k(r) == rest);
                    }
                }
            } else {
                assert(whole == rest);
            }
        },
        Program::Fail(_) => {},
        Program::Call(q, k) => {
            let after = whole->Call_1;
            assert forall|r: Reply| (#[trigger] after(r)).always(post) by {
                assert(k(r).always(outcome_kept(w)));
                assert(after(r) == list_prepared(behind_next(l), k(r)));
                list_prepared_keeps(l, w, k(r));
            }
        },
    }
}

/// A program of the least kind, to stand where none is counted.
spec fn no_outcome() -> Program<PrimOutcomeModel> {
    Program::Fail(Fault::UnexpectedReply)
}

proof fn prim_keeps(w: WorkModel, place: PrimPlace)
    ensures
        prim(w, place).always(outcome_kept(w)),
    decreases clusters_weight(w.instance.children), 3int, 0int, no_outcome(),
{
    let post = outcome_kept(w);
    let p = prim(w, place);
    same_clusters_are_kept(w.instance.children);
    match w.instance.kind {
        PrimitiveInstanceKind::Picture { pic_index } => {
            if let Some(info) = w.instance.visibility_info {
                let k = p->Call_1;
                assert forall|r: Reply| (#[trigger] k(r)).always(post) by {
                    if let Reply::Context(context) = r {
                        assert(k(r) == prim_taken(w, place, context));
                        if let Some(context) = context {
                            prim_children_keeps(w, place, context);
                        }
                    }
                }
            }
        },
        _ => {
            prim_located_keeps(w, place, false);
            always_weaker(p, primitive_stays(w), post);
        },
    }
}

proof fn prim_children_keeps(w: WorkModel, place: PrimPlace, context: PictureContext)
    ensures
        prim_taken(w, place, Some(context)).always(outcome_kept(w)),
    decreases clusters_weight(w.instance.children), 2int, 0int, no_outcome(),
{
    let post = outcome_kept(w);
    let instance = without_children(w.instance);
    let l = ClustersModel {
        context,
        limits: place.limits,
        done: Seq::empty(),
        rest: w.instance.children,
    };
    let inner = primitives(w.instance.children, w.scratch, context, place.limits);
    assert(inner == list_clusters(l, w.scratch));
    list_clusters_keeps(l, w.scratch);
    let mid = rest_kept(l, w.scratch);
    let f = |o: PreparedModel|
        prim_restored(
            WorkModel {
                instance: InstanceModel { children: o.clusters, ..instance },
                scratch: o.scratch,
            },
            place,
            context,
        );
    assert forall|o: PreparedModel| mid(o) implies (#[trigger] f(o)).always(post) by {
        assert(from_position(o.clusters, 0) =~= o.clusters);
        let with = WorkModel {
            instance: InstanceModel { children: o.clusters, ..instance },
            scratch: o.scratch,
        };
        prim_located_keeps(with, place, context.is_passthrough);
        assert forall|e: PrimOutcomeModel| #[trigger] primitive_stays(with)(e) implies post(e) by {
            growth_is_transitive(w.scratch, with.scratch, e.w.scratch);
        }
        always_weaker(
            prim_located(with, place, context.is_passthrough),
            primitive_stays(with),
            post,
        );
        let k = f(o)->Call_1;
        assert forall|r: Reply| (#[trigger] k(r)).always(post) by {}
    }
    always_of_bind(inner, f, mid, post);
    assert(prim_taken(w, place, Some(context)) == prim_children(instance, place, context, inner));
}

/// That nothing was lost from the buffers, and that the list holds what may have become of its
/// primitives.
pub open spec fn list_kept(clusters: Seq<ClusterModel>, s: ScratchModel) -> spec_fn(
    PreparedModel,
) -> bool {
    |o: PreparedModel| clusters_kept(clusters, o.clusters) && buffers_grow(s, o.scratch)
}

/// The pass keeps a list as it came from the scene, with the lists of the pictures in it: the same
/// primitives stand in the same order in the same clusters, one that was culled is left as it was,
/// one that is still visible keeps what was found of it but for its marks and the place of its
/// masks, and nothing is lost from the buffers.
pub proof fn the_pass_keeps_the_scene(
    clusters: Seq<ClusterModel>,
    s: ScratchModel,
    context: PictureContext,
    limits: CacheLimits,
)
    ensures
        primitives(clusters, s, context, limits).always(list_kept(clusters, s)),
{
    let l = ClustersModel { context, limits, done: Seq::empty(), rest: clusters };
    let p = primitives(clusters, s, context, limits);
    assert(p == list_clusters(l, s));
    list_clusters_keeps(l, s);
    assert forall|o: PreparedModel| #[trigger] rest_kept(l, s)(o) implies list_kept(
        clusters,
        s,
    )(o) by {
        assert(from_position(o.clusters, 0) =~= o.clusters);
    }
    always_weaker(p, rest_kept(l, s), list_kept(clusters, s));
}

/// What is found of a primitive that touches the dirty regions with a flag set, from position `i`
/// on.
pub open spec fn touched(
    info: PrimitiveVisibility,
    rects: Seq<DirtyRect>,
    flags: Seq<bool>,
    i: int,
) -> PrimitiveVisibility
    decreases rects.len() - i,
{
    if 0 <= i < rects.len() {
        touched(
            if flags[i] {
                with_region(info, rects[i])
            } else {
                info
            },
            rects,
            flags,
            i + 1,
        )
    } else {
        info
    }
}

/// The replies that tell which dirty regions a primitive touches, from position `i` on.
pub open spec fn flag_replies(flags: Seq<bool>, i: int) -> Seq<Reply> {
    Seq::new((flags.len() - i) as nat, |k: int| Reply::Flag(flags[i + k]))
}

proof fn regions_from_are_collected(
    l: ClusterRunModel,
    s: ScratchModel,
    instance: InstanceModel,
    info: PrimitiveVisibility,
    rects: Seq<DirtyRect>,
    flags: Seq<bool>,
    i: int,
)
    requires
        flags.len() == rects.len(),
        0 <= i <= rects.len(),
    ensures
        list_dirty(l, s, instance, info, rects, i).answered(flag_replies(flags, i))
            == list_prepare(l, s, instance, touched(info, rects, flags, i)),
    decreases rects.len() - i,
{
    let replies = flag_replies(flags, i);
    let p = list_dirty(l, s, instance, info, rects, i);
    if i < rects.len() {
        let found = if flags[i] {
            with_region(info, rects[i])
        } else {
            info
        };
        let k = p->Call_1;
        assert(replies[0] == Reply::Flag(flags[i]));
        assert(k(replies[0]) == list_dirty(l, s, instance, found, rects, i + 1));
        assert(replies.drop_first() =~= flag_replies(flags, i + 1));
        regions_from_are_collected(l, s, instance, found, rects, flags, i + 1);
    } else {
        assert(replies.len() == 0);
        assert(p == list_prepare(l, s, instance, info));
    }
}

/// A primitive collects the marks of exactly the dirty regions that it touches, whichever those
/// are; then it is prepared or culled.
pub proof fn touched_regions_are_collected(
    l: ClusterRunModel,
    s: ScratchModel,
    instance: InstanceModel,
    info: PrimitiveVisibility,
    rects: Seq<DirtyRect>,
    flags: Seq<bool>,
)
    requires
        flags.len() == rects.len(),
    ensures
        list_dirty(l, s, instance, info, rects, 0).answered(flag_replies(flags, 0))
            == list_prepare(l, s, instance, touched(info, rects, flags, 0)),
{
    regions_from_are_collected(l, s, instance, info, rects, flags, 0);
}

/// A primitive keeps every mark that it has and gets those of each region that it touches; all else
/// that was found of it stays.
pub proof fn marks_are_kept(
    info: PrimitiveVisibility,
    rects: Seq<DirtyRect>,
    flags: Seq<bool>,
    i: int,
)
    requires
        flags.len() == rects.len(),
        0 <= i <= rects.len(),
    ensures
        ({
            let found = touched(info, rects, flags, i);
            let mask = found.visibility_mask;
            &&& found == (PrimitiveVisibility { visibility_mask: mask, ..info })
            &&& mask & info.visibility_mask == info.visibility_mask
            &&& forall|j: int|
                #![trigger flags[j]]
                i <= j < rects.len() && flags[j] ==> mask & rects[j].visibility_mask
                    == rects[j].visibility_mask
            &&& (forall|j: int| #![trigger flags[j]] i <= j < rects.len() ==> !flags[j])
                ==> found == info
        }),
    decreases rects.len() - i,
{
    if i < rects.len() {
        let next = if flags[i] {
            with_region(info, rects[i])
        } else {
            info
        };
        marks_are_kept(next, rects, flags, i + 1);
        let mask = touched(info, rects, flags, i).visibility_mask;
        let own = info.visibility_mask;
        let region = rects[i].visibility_mask;
        assert(mask & (own | region) == (own | region) ==> mask & own == own && mask & region
            == region) by (bit_vector);
        assert(mask & own == own);
    } else {
        let own = info.visibility_mask;
        assert(own & own == own) by (bit_vector);
    }
}

/// A primitive that has no mark and touches no dirty region is culled at once, with no further
/// request on its behalf.
pub proof fn untouched_primitive_is_culled(
    l: ClusterRunModel,
    s: ScratchModel,
    info: PrimitiveVisibility,
    rects: Vec<DirtyRect>,
)
    requires
        l.todo.len() > 0,
        l.todo[0].visibility_info == Some(info),
        info.visibility_mask == 0,
    ensures
        ({
            let flags = Seq::new(rects@.len(), |i: int| false);
            list_prims(l, s).answered(
                seq![Reply::DirtyRects(rects)] + flag_replies(flags, 0),
            ) == list_prims(prim_done(behind_next(l), l.todo[0].with_visibility(None)), s)
        }),
{
    let flags = Seq::new(rects@.len(), |i: int| false);
    let replies = seq![Reply::DirtyRects(rects)] + flag_replies(flags, 0);
    let k = list_prims(l, s)->Call_1;
    assert(k(replies[0]) == list_dirty(behind_next(l), s, l.todo[0], info, rects@, 0));
    assert(replies.drop_first() =~= flag_replies(flags, 0));
    touched_regions_are_collected(behind_next(l), s, l.todo[0], info, rects@, flags);
    marks_are_kept(info, rects@, flags, 0);
}

/// Whether all primitives of a sequence are culled.
pub open spec fn all_culled(prims: Seq<InstanceModel>) -> bool {
    forall|i: int| 0 <= i < prims.len() ==> (#[trigger] prims[i]).visibility_info is None
}

pub open spec fn selects_a_node() -> spec_fn(Request) -> bool {
    |q: Request| q is SelectSpatialNode
}

pub open spec fn list_is(clusters: Seq<ClusterModel>, s: ScratchModel) -> spec_fn(
    PreparedModel,
) -> bool {
    |o: PreparedModel| o.clusters == clusters && o.scratch == s
}

proof fn culled_clusters_stay(l: ClustersModel, s: ScratchModel)
    requires
        forall|i: int| 0 <= i < l.rest.len() ==> all_culled((#[trigger] l.rest[i]).prim_instances),
    ensures
        list_clusters(l, s).always(list_is(l.done + l.rest, s)),
        list_clusters(l, s).only_asks(selects_a_node()),
    decreases l.rest.len(), 0int,
{
    let p = list_clusters(l, s);
    if l.rest.len() > 0 {
        let run = ClusterRunModel {
            outer: ClustersModel { rest: l.rest.drop_first(), ..l },
            spatial_node_index: l.rest[0].spatial_node_index,
            first: l.rest[0].first,
            done: Seq::empty(),
            todo: l.rest[0].prim_instances,
        };
        culled_prims_stay(run, s, l.rest[0]);
        let k = p->Call_1;
        assert(l.done.push(l.rest[0]) + run.outer.rest =~= l.done + l.rest);
        assert forall|r: Reply|
            (#[trigger] k(r)).always(list_is(l.done + l.rest, s)) && k(r).only_asks(
                selects_a_node(),
            ) by {
            if r is Ack {
                assert(k(r) == list_prims(run, s));
            }
        }
    } else {
        assert(l.done + l.rest =~= l.done);
    }
}

proof fn culled_prims_stay(l: ClusterRunModel, s: ScratchModel, c: ClusterModel)
    requires
        forall|i: int|
            0 <= i < l.outer.rest.len() ==> all_culled(
                (#[trigger] l.outer.rest[i]).prim_instances,
            ),
        all_culled(l.todo),
        l.spatial_node_index == c.spatial_node_index,
        l.first == c.first,
        l.done + l.todo == c.prim_instances,
    ensures
        list_prims(l, s).always(list_is(l.outer.done.push(c) + l.outer.rest, s)),
        list_prims(l, s).only_asks(selects_a_node()),
    decreases l.outer.rest.len(), l.todo.len() + 1,
{
    let p = list_prims(l, s);
    if l.todo.len() == 0 {
        let closed = cluster_done(l);
        assert(l.done + l.todo =~= l.done);
        assert(closed.done =~= l.outer.done.push(c));
        assert(p == list_clusters(closed, s));
        culled_clusters_stay(closed, s);
    } else {
        let next = prim_done(behind_next(l), l.todo[0]);
        assert(p == list_prims(next, s));
        assert(next.done + next.todo =~= l.done + l.todo);
        culled_prims_stay(next, s, c);
    }
}

/// A list of which all primitives are culled is left as it is, and nothing is asked for them.
pub proof fn culled_primitives_cost_nothing(
    clusters: Seq<ClusterModel>,
    s: ScratchModel,
    context: PictureContext,
    limits: CacheLimits,
)
    requires
        forall|i: int|
            0 <= i < clusters.len() ==> all_culled((#[trigger] clusters[i]).prim_instances),
    ensures
        primitives(clusters, s, context, limits).always(list_is(clusters, s)),
        primitives(clusters, s, context, limits).only_asks(selects_a_node()),
{
    let l = ClustersModel { context, limits, done: Seq::empty(), rest: clusters };
    assert(primitives(clusters, s, context, limits) == list_clusters(l, s));
    culled_clusters_stay(l, s);
    assert(l.done + l.rest =~= clusters);
}

/// The children of a picture are prepared before anything is asked on behalf of the picture itself:
/// the first request takes their context, and what follows them gives it back. A picture that gives
/// no context is culled.
pub proof fn children_come_first(w: WorkModel, place: PrimPlace, context: PictureContext)
    requires
        w.instance.kind is Picture,
        w.instance.visibility_info is Some,
    ensures
        prim(w, place) is Call,
        prim(w, place)->Call_0 is TakeContext,
        prim(w, place).answered(seq![Reply::Context(None)]) == Program::Return(
            PrimOutcomeModel { w: w.with_visibility(None), visible: false },
        ),
        prim(w, place).answered(seq![Reply::Context(Some(context))]) == prim_children(
            without_children(w.instance),
            place,
            context,
            primitives(w.instance.children, w.scratch, context, place.limits),
        ),
        forall|o: WorkModel|
            (#[trigger] prim_restored(o, place, context)) is Call && prim_restored(
                o,
                place,
                context,
            )->Call_0 == (Request::RestoreContext {
                surface_index: place.context.surface_index,
                context,
            }),
{
    let k = prim(w, place)->Call_1;
    let none = seq![Reply::Context(None)];
    let some = seq![Reply::Context(Some(context))];
    assert(k(none[0]) == prim_taken(w, place, None));
    assert(k(some[0]) == prim_taken(w, place, Some(context)));
    assert(prim(w, place).answered(none) == k(none[0]).answered(none.drop_first()));
    assert(prim(w, place).answered(some) == k(some[0]).answered(some.drop_first()));
}

} // verus!
