//! How often primitives are counted.
use vstd::prelude::*;

use crate::clip_task::clip_task;
use crate::faults_clip::{clip_task_plain, neither_stamps_nor_counts};
use crate::faults_prim::interned_plain;
use crate::interned::interned;
use crate::law_clip::{clipped_from, clipping_only_appends};
use crate::law_pass::behind_next;
use crate::model::{
    CacheLimits, ClusterModel, DirtyRect, InstanceModel, PictureContext, PrimPlace,
    PrimitiveInstanceKind, PrimitiveVisibility, ScratchModel, WorkModel,
};
use crate::pass::{
    clip_place, cluster_done, clusters_weight, list_clusters, list_dirty, list_place,
    list_prepare, list_prepared, list_prims, prim, prim_children, prim_clipped, prim_done,
    prim_located, prim_restored, prim_stamped, prim_taken, primitives, run_weight, with_region,
    without_children, ClusterRunModel, ClustersModel, PreparedModel, PrimOutcomeModel,
};
use crate::program::{tell, Fault, Program, Reply, Request};

verus! {

pub open spec fn stamps() -> spec_fn(Request) -> bool {
    |q: Request| q is StampFrame
}

pub open spec fn counts() -> spec_fn(Request) -> bool {
    |q: Request| q is CountVisiblePrimitive
}

/// What a request adds to the stamps that are not counted yet.
pub open spec fn uncounted(q: Request) -> int {
    if q is StampFrame {
        1
    } else if q is CountVisiblePrimitive {
        -1
    } else {
        0
    }
}

impl<S> Program<S> {
    /// How many of the requests that are made while these replies come are such.
    pub open spec fn times(self, replies: Seq<Reply>, such: spec_fn(Request) -> bool) -> nat
        decreases replies.len(),
    {
        if replies.len() == 0 {
            0
        } else {
            match self {
                Program::Call(q, k) => {
                    let rest = k(replies[0]).times(replies.drop_first(), such);
                    if such(q) {
                        rest + 1
                    } else {
                        rest
                    }
                },
                _ => 0,
            }
        }
    }

    /// Whether, with `n` stamps not counted yet, every run that ends with a result leaves as many
    /// not counted as `left` says of the result.
    pub open spec fn leaves(self, left: spec_fn(S) -> int, n: int) -> bool
        decreases self,
    {
        match self {
            Program::Return(s) => left(s) == n,
            Program::Fail(_) => true,
            Program::Call(q, k) => forall|r: Reply|
                (#[trigger] k(r)).leaves(left, n + uncounted(q)),
        }
    }
}

/// That `n` stamps are not counted.
pub open spec fn always_left<S>(n: int) -> spec_fn(S) -> int {
    |s: S| n
}

/// That `n` stamps are not counted, and another one if the primitive is visible.
pub open spec fn one_left_if_visible(n: int) -> spec_fn(PrimOutcomeModel) -> int {
    |o: PrimOutcomeModel|
        if o.visible {
            n + 1
        } else {
            n
        }
}

/// What a run leaves is what it stamps and does not count.
proof fn run_leaves<S>(p: Program<S>, left: spec_fn(S) -> int, n: int, replies: Seq<Reply>)
    requires
        p.leaves(left, n),
        p.answered(replies) is Return,
    ensures
        left(p.answered(replies)->Return_0) == n + p.times(replies, stamps()) - p.times(
            replies,
            counts(),
        ),
    decreases replies.len(),
{
    if replies.len() > 0 {
        if let Program::Call(q, k) = p {
            let next = k(replies[0]);
            assert(next.leaves(left, n + uncounted(q)));
            run_leaves(next, left, n + uncounted(q), replies.drop_first());
        }
    }
}

proof fn plain_leaves<S>(p: Program<S>, n: int)
    requires
        p.only_asks(neither_stamps_nor_counts()),
    ensures
        p.leaves(always_left(n), n),
    decreases p,
{
    if let Program::Call(q, k) = p {
        assert(neither_stamps_nor_counts()(q));
        assert forall|r: Reply| (#[trigger] k(r)).leaves(always_left(n), n + uncounted(q)) by {
            assert(k(r).only_asks(neither_stamps_nor_counts()));
            plain_leaves(k(r), n);
        }
    }
}

proof fn leaves_of_bind<S, T>(
    p: Program<S>,
    f: spec_fn(S) -> Program<T>,
    ok: spec_fn(S) -> bool,
    mid: spec_fn(S) -> int,
    left: spec_fn(T) -> int,
    n: int,
)
    requires
        p.always(ok),
        p.leaves(mid, n),
        forall|s: S| ok(s) ==> (#[trigger] f(s)).leaves(left, mid(s)),
    ensures
        p.bind(f).leaves(left, n),
    decreases p,
{
    match p {
        Program::Return(s) => {
            assert(ok(s));
            assert(f(s).leaves(left, mid(s)));
            assert(p.bind(f) == f(s));
        },
        Program::Fail(_) => {},
        Program::Call(q, k) => {
            let bound = p.bind(f)->Call_1;
            assert forall|r: Reply| (#[trigger] bound(r)).leaves(left, n + uncounted(q)) by {
                assert(bound(r) == k(r).bind(f));
                assert(k(r).always(ok));
                assert(k(r).leaves(mid, n + uncounted(q)));
                leaves_of_bind(k(r), f, ok, mid, left, n + uncounted(q));
            }
        },
    }
}

proof fn always_true<S>(p: Program<S>)
    ensures
        p.always(|s: S| true),
    decreases p,
{
    if let Program::Call(q, k) = p {
        assert forall|r: Reply| (#[trigger] k(r)).always(|s: S| true) by {
            always_true(k(r));
        }
    }
}

proof fn prim_stamped_leaves(w: WorkModel, place: PrimPlace, n: int)
    requires
        w.instance.visibility_info is Some,
    ensures
        prim_stamped(w, place).leaves(one_left_if_visible(n), n),
{
    let left = one_left_if_visible(n);
    let p = interned(w, place);
    let f = |o: WorkModel| Program::Return(PrimOutcomeModel { w: o, visible: true });
    let ok = |o: WorkModel| true;
    let mid = always_left::<WorkModel>(n + 1);
    interned_plain(w, place, false);
    plain_leaves(p, n + 1);
    always_true(p);
    assert forall|o: WorkModel| ok(o) implies (#[trigger] f(o)).leaves(left, mid(o)) by {}
    leaves_of_bind(p, f, ok, mid, left, n + 1);
    let k = prim_stamped(w, place)->Call_1;
    assert forall|r: Reply| (#[trigger] k(r)).leaves(left, n + 1) by {}
}

proof fn prim_located_leaves(w: WorkModel, place: PrimPlace, is_passthrough: bool, n: int)
    requires
        w.instance.visibility_info is Some,
    ensures
        prim_located(w, place, is_passthrough).leaves(one_left_if_visible(n), n),
{
    let left = one_left_if_visible(n);
    let info = w.instance.visibility_info->0;
    let k = prim_located(w, place, is_passthrough)->Call_1;
    assert forall|r: Reply| (#[trigger] k(r)).leaves(left, n) by {
        if let Reply::Rect(rect) = r {
            assert(k(r) == prim_clipped(w, place, is_passthrough, rect.origin));
            if is_passthrough {
                prim_stamped_leaves(w, place, n);
            } else {
                let at = clip_place(place, rect.origin);
                let ok = clipped_from(w, info);
                let mid = always_left::<WorkModel>(n);
                let f = |o: WorkModel| prim_stamped(o, place);
                clip_task_plain(w, at);
                plain_leaves(clip_task(w, at), n);
                clipping_only_appends(w, at, info);
                assert forall|o: WorkModel| ok(o) implies (#[trigger] f(o)).leaves(
                    left,
                    mid(o),
                ) by {
                    prim_stamped_leaves(o, place, n);
                }
                leaves_of_bind(clip_task(w, at), f, ok, mid, left, n);
            }
        }
    }
}

/// A program of the least kind, to stand where none is counted.
spec fn no_outcome() -> Program<PrimOutcomeModel> {
    Program::Fail(Fault::UnexpectedReply)
}

proof fn list_clusters_leaves(l: ClustersModel, s: ScratchModel, n: int)
    ensures
        list_clusters(l, s).leaves(always_left(n), n),
    decreases clusters_weight(l.rest), 1int, 0int, no_outcome(),
{
    let left = always_left::<PreparedModel>(n);
    let p = list_clusters(l, s);
    if l.rest.len() > 0 {
        let run = ClusterRunModel {
            outer: ClustersModel { rest: l.rest.drop_first(), ..l },
            spatial_node_index: l.rest[0].spatial_node_index,
            first: l.rest[0].first,
            done: Seq::empty(),
            todo: l.rest[0].prim_instances,
        };
        list_prims_leaves(run, s, n);
        let k = p->Call_1;
        assert forall|r: Reply| (#[trigger] k(r)).leaves(left, n) by {
            if r is Ack {
                assert(k(r) == list_prims(run, s));
            }
        }
    }
}

proof fn list_prims_leaves(l: ClusterRunModel, s: ScratchModel, n: int)
    ensures
        list_prims(l, s).leaves(always_left(n), n),
    decreases run_weight(l), 5int, 0int, no_outcome(),
{
    let left = always_left::<PreparedModel>(n);
    let p = list_prims(l, s);
    if l.todo.len() == 0 {
        assert(p == list_clusters(cluster_done(l), s));
        list_clusters_leaves(cluster_done(l), s, n);
    } else {
        let instance = l.todo[0];
        match instance.visibility_info {
            None => {
                let next = prim_done(behind_next(l), instance);
                assert(p == list_prims(next, s));
                list_prims_leaves(next, s, n);
            },
            Some(info) => {
                let k = p->Call_1;
                assert forall|r: Reply| (#[trigger] k(r)).leaves(left, n) by {
                    if let Reply::DirtyRects(rects) = r {
                        assert(k(r) == list_dirty(
                            behind_next(l),
                            s,
                            instance,
                            info,
                            rects@,
                            0,
                        ));
                        list_dirty_leaves(l, s, info, rects@, 0, n);
                    }
                }
            },
        }
    }
}

proof fn list_dirty_leaves(
    l: ClusterRunModel,
    s: ScratchModel,
    info: PrimitiveVisibility,
    rects: Seq<DirtyRect>,
    i: int,
    n: int,
)
    requires
        l.todo.len() > 0,
        0 <= i <= rects.len(),
    ensures
        list_dirty(behind_next(l), s, l.todo[0], info, rects, i).leaves(always_left(n), n),
    decreases run_weight(l), 4int, rects.len() - i, no_outcome(),
{
    let left = always_left::<PreparedModel>(n);
    let p = list_dirty(behind_next(l), s, l.todo[0], info, rects, i);
    if i < rects.len() {
        let k = p->Call_1;
        assert forall|r: Reply| (#[trigger] k(r)).leaves(left, n) by {
            if let Reply::Flag(touches) = r {
                let found = if touches {
                    with_region(info, rects[i])
                } else {
                    info
                };
                assert(k(r) == list_dirty(behind_next(l), s, l.todo[0], found, rects, i + 1));
                list_dirty_leaves(l, s, found, rects, i + 1, n);
            }
        }
    } else {
        assert(p == list_prepare(behind_next(l), s, l.todo[0], info));
        list_prepare_leaves(l, s, info, n);
    }
}

proof fn list_prepare_leaves(
    l: ClusterRunModel,
    s: ScratchModel,
    info: PrimitiveVisibility,
    n: int,
)
    requires
        l.todo.len() > 0,
    ensures
        list_prepare(behind_next(l), s, l.todo[0], info).leaves(always_left(n), n),
    decreases run_weight(l), 3int, 0int, no_outcome(),
{
    let p = list_prepare(behind_next(l), s, l.todo[0], info);
    let instance = l.todo[0];
    if info.visibility_mask == 0 {
        let next = prim_done(behind_next(l), instance.with_visibility(None));
        assert(p == list_prims(next, s));
        list_prims_leaves(next, s, n);
    } else if l.first + l.done.len() <= usize::MAX {
        let w = WorkModel { instance: instance.with_visibility(Some(info)), scratch: s };
        let q = prim(w, list_place(behind_next(l)));
        assert(p == list_prepared(behind_next(l), q));
        prim_leaves(w, list_place(behind_next(l)), n);
        list_prepared_leaves(l, q, n, n);
    }
}

proof fn list_prepared_leaves(l: ClusterRunModel, p: Program<PrimOutcomeModel>, n: int, at: int)
    requires
        l.todo.len() > 0,
        p.leaves(one_left_if_visible(n), at),
    ensures
        list_prepared(behind_next(l), p).leaves(always_left(n), at),
    decreases run_weight(l), 2int, 0int, p,
{
    let left = always_left::<PreparedModel>(n);
    let whole = list_prepared(behind_next(l), p);
    match p {
        Program::Return(o) => {
            let next = prim_done(behind_next(l), o.w.instance);
            let rest = list_prims(next, o.w.scratch);
            list_prims_leaves(next, o.w.scratch, n);
            assert(one_left_if_visible(n)(o) == at);
            if o.visible {
                let k = whole->Call_1;
                assert forall|r: Reply| (#[trigger] k(r)).leaves(left, n) by {
                    if r is Ack {
                        assert(k(r) == rest);
                    }
                }
            } else {
                assert(whole == rest);
            }
        },
        Program::Fail(_) => {},
        Program::Call(q, k) => {
            let after = whole->Call_1;
            assert forall|r: Reply| (#[trigger] after(r)).leaves(left, at + uncounted(q)) by {
                assert(k(r).leaves(one_left_if_visible(n), at + uncounted(q)));
                assert(after(r) == list_prepared(behind_next(l), k(r)));
                list_prepared_leaves(l, k(r), n, at + uncounted(q));
            }
        },
    }
}

proof fn prim_leaves(w: WorkModel, place: PrimPlace, n: int)
    requires
        w.instance.visibility_info is Some,
    ensures
        prim(w, place).leaves(one_left_if_visible(n), n),
    decreases clusters_weight(w.instance.children), 3int, 0int, no_outcome(),
{
    let left = one_left_if_visible(n);
    let p = prim(w, place);
    match w.instance.kind {
        PrimitiveInstanceKind::Picture { pic_index } => {
            let k = p->Call_1;
            assert forall|r: Reply| (#[trigger] k(r)).leaves(left, n) by {
                if let Reply::Context(context) = r {
                    assert(k(r) == prim_taken(w, place, context));
                    if let Some(context) = context {
                        prim_children_leaves(w, place, context, n);
                    }
                }
            }
        },
        _ => {
            prim_located_leaves(w, place, false, n);
        },
    }
}

proof fn prim_children_leaves(w: WorkModel, place: PrimPlace, context: PictureContext, n: int)
    requires
        w.instance.visibility_info is Some,
    ensures
        prim_taken(w, place, Some(context)).leaves(one_left_if_visible(n), n),
    decreases clusters_weight(w.instance.children), 2int, 0int, no_outcome(),
{
    let left = one_left_if_visible(n);
    let instance = without_children(w.instance);
    let l = ClustersModel {
        context,
        limits: place.limits,
        done: Seq::empty(),
        rest: w.instance.children,
    };
    let inner = primitives(w.instance.children, w.scratch, context, place.limits);
    assert(inner == list_clusters(l, w.scratch));
    list_clusters_leaves(l, w.scratch, n);
    let f = |o: PreparedModel|
        prim_restored(
            WorkModel {
                instance: InstanceModel { children: o.clusters, ..instance },
                scratch: o.scratch,
            },
            place,
            context,
        );
    let ok = |o: PreparedModel| true;
    let mid = always_left::<PreparedModel>(n);
    assert forall|o: PreparedModel| ok(o) implies (#[trigger] f(o)).leaves(left, mid(o)) by {
        let with = WorkModel {
            instance: InstanceModel { children: o.clusters, ..instance },
            scratch: o.scratch,
        };
        prim_located_leaves(with, place, context.is_passthrough, n);
        let k = f(o)->Call_1;
        assert forall|r: Reply| (#[trigger] k(r)).leaves(left, n) by {}
    }
    always_true(inner);
    leaves_of_bind(inner, f, ok, mid, left, n);
    assert(prim_taken(w, place, Some(context)) == prim_children(instance, place, context, inner));
}

/// How a list goes on behind a primitive: a visible one is counted, and then the next one is looked
/// at.
pub open spec fn counted_if_visible(l: ClusterRunModel, o: PrimOutcomeModel) -> Program<
    PreparedModel,
> {
    let rest = list_prims(prim_done(l, o.w.instance), o.w.scratch);
    if o.visible {
        tell(Request::CountVisiblePrimitive, rest)
    } else {
        rest
    }
}

/// As soon as a primitive of a list is prepared it is counted, once, if it was found to be visible,
/// and else not; then the list goes on with the next one.
pub proof fn visible_outcome_is_counted_at_once(
    l: ClusterRunModel,
    p: Program<PrimOutcomeModel>,
    replies: Seq<Reply>,
    o: PrimOutcomeModel,
)
    requires
        forall|i: int|
            0 <= i < replies.len() ==> (#[trigger] p.answered(replies.subrange(0, i))) is Call,
        p.answered(replies) == Program::Return(o),
    ensures
        list_prepared(l, p).answered(replies) == counted_if_visible(l, o),
    decreases replies.len(),
{
    let whole = list_prepared(l, p);
    if replies.len() == 0 {
        if o.visible {
            assert(whole->Call_1 =~= counted_if_visible(l, o)->Call_1);
        }
    } else {
        assert(p.answered(replies.subrange(0, 0)) is Call);
        let k = p->Call_1;
        let after = whole->Call_1;
        let rest = replies.drop_first();
        assert forall|i: int| 0 <= i < rest.len() implies (#[trigger] k(replies[0]).answered(
            rest.subrange(0, i),
        )) is Call by {
            let more = replies.subrange(0, i + 1);
            assert(p.answered(more) is Call);
            assert(more.drop_first() =~= rest.subrange(0, i));
            assert(p.answered(more) == k(more[0]).answered(more.drop_first()));
        }
        assert(after(replies[0]) == list_prepared(l, k(replies[0])));
        visible_outcome_is_counted_at_once(l, k(replies[0]), rest, o);
    }
}

/// A primitive is stamped once if it is found to be visible, and else not at all: what is stamped
/// besides are its children, each of which is counted.
pub proof fn visible_primitive_is_stamped_once(
    w: WorkModel,
    place: PrimPlace,
    replies: Seq<Reply>,
    o: PrimOutcomeModel,
)
    requires
        w.instance.visibility_info is Some,
        prim(w, place).answered(replies) == Program::Return(o),
    ensures
        prim(w, place).times(replies, stamps()) == prim(w, place).times(replies, counts()) + (
        if o.visible {
            1int
        } else {
            0
        }),
{
    prim_leaves(w, place, 0);
    run_leaves(prim(w, place), one_left_if_visible(0), 0, replies);
}

/// Primitives are counted exactly as often as they are found to be visible: in every run over a
/// list, however the renderer replies, there is one count for each stamp, and a primitive is
/// stamped once if it is found to be visible, and else not at all.
pub proof fn each_visible_primitive_is_counted_once(
    clusters: Seq<ClusterModel>,
    s: ScratchModel,
    context: PictureContext,
    limits: CacheLimits,
    replies: Seq<Reply>,
)
    requires
        primitives(clusters, s, context, limits).answered(replies) is Return,
    ensures
        primitives(clusters, s, context, limits).times(replies, counts()) == primitives(
            clusters,
            s,
            context,
            limits,
        ).times(replies, stamps()),
{
    let l = ClustersModel { context, limits, done: Seq::empty(), rest: clusters };
    let p = primitives(clusters, s, context, limits);
    assert(p == list_clusters(l, s));
    list_clusters_leaves(l, s, 0);
    run_leaves(p, always_left(0), 0, replies);
}

} // verus!
