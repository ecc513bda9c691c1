//! Which clips a primitive is split along.
use vstd::prelude::*;

use crate::geometry::Rect;
use crate::model::ClipsRange;
use crate::program::{
    unexpected, BoxShadowClipMode, ClipItem, ClipNode, Program, Reply, Request,
};
use crate::scalar::Scalar;
use crate::segment_build::{
    describe_clip, describe_from, describe_if_large, describe_segments, describe_shadow,
    describe_shadow_height, describe_shadow_inner,
};

verus! {

/// What a program does where the clips are known: a request for one of them is answered by it, and
/// all other requests stay.
pub open spec fn knowing_clips(p: Program<bool>, nodes: Seq<ClipNode>) -> Program<bool>
    decreases p,
{
    match p {
        Program::Call(q, k) => match q {
            Request::ClipNode { clips_range, index } => if index < nodes.len() {
                knowing_clips(k(Reply::Clip(nodes[index as int])), nodes)
            } else {
                Program::Call(q, |r: Reply| knowing_clips(k(r), nodes))
            },
            _ => Program::Call(q, |r: Reply| knowing_clips(k(r), nodes)),
        },
        _ => p,
    }
}

/// The clips that the node positions which positions the primitive, in order.
pub open spec fn clips_of_same_node(nodes: Seq<ClipNode>) -> Seq<ClipNode> {
    nodes.filter(|node: ClipNode| node.same_spatial_node)
}

/// Hands known clips to the segment builder, one after the other.
pub open spec fn describe_all(nodes: Seq<ClipNode>) -> Program<bool>
    decreases nodes.len(),
{
    if nodes.len() == 0 {
        Program::Return(true)
    } else {
        describe_clip(nodes[0], describe_all(nodes.drop_first()))
    }
}

/// Where another thing than a clip is asked for, it is asked for, and the clips are known after.
proof fn knowing_after(p: Program<bool>, nodes: Seq<ClipNode>)
    requires
        p is Call,
        !(p->Call_0 is ClipNode),
    ensures
        knowing_clips(p, nodes) is Call,
        knowing_clips(p, nodes)->Call_0 == p->Call_0,
        forall|r: Reply|
            #![trigger (knowing_clips(p, nodes)->Call_1)(r)]
            (knowing_clips(p, nodes)->Call_1)(r) == knowing_clips((p->Call_1)(r), nodes),
        knowing_clips(unexpected(), nodes) == unexpected::<bool>(),
{
}

proof fn knowing_in_shadow(
    clip_mode: BoxShadowClipMode,
    rect: Rect,
    inner_rect: Rect,
    rest: Program<bool>,
    nodes: Seq<ClipNode>,
)
    ensures
        knowing_clips(describe_shadow(clip_mode, rect, inner_rect, rest), nodes)
            == describe_shadow(clip_mode, rect, inner_rect, knowing_clips(rest, nodes)),
{
    knowing_after(describe_shadow(clip_mode, rect, inner_rect, rest), nodes);
    let a = knowing_clips(describe_shadow(clip_mode, rect, inner_rect, rest), nodes)->Call_1;
    let b = describe_shadow(clip_mode, rect, inner_rect, knowing_clips(rest, nodes))->Call_1;
    assert(a =~= b);
}

proof fn knowing_in_shadow_inner(
    clip_mode: BoxShadowClipMode,
    rect: Rect,
    width: Scalar,
    height: Scalar,
    rest: Program<bool>,
    nodes: Seq<ClipNode>,
)
    ensures
        knowing_clips(describe_shadow_inner(clip_mode, rect, width, height, rest), nodes)
            == describe_shadow_inner(clip_mode, rect, width, height, knowing_clips(rest, nodes)),
{
    let p = describe_shadow_inner(clip_mode, rect, width, height, rest);
    let known = describe_shadow_inner(clip_mode, rect, width, height, knowing_clips(rest, nodes));
    knowing_after(p, nodes);
    let a = knowing_clips(p, nodes)->Call_1;
    let b = known->Call_1;
    assert forall|r: Reply| #[trigger] a(r) == b(r) by {
        if let Reply::Rect(inner_rect) = r {
            knowing_in_shadow(clip_mode, rect, inner_rect, rest, nodes);
        }
    }
    assert(a =~= b);
}

proof fn knowing_in_shadow_height(
    clip_mode: BoxShadowClipMode,
    rect: Rect,
    alloc_height: Scalar,
    width: Scalar,
    rest: Program<bool>,
    nodes: Seq<ClipNode>,
)
    ensures
        knowing_clips(describe_shadow_height(clip_mode, rect, alloc_height, width, rest), nodes)
            == describe_shadow_height(
            clip_mode,
            rect,
            alloc_height,
            width,
            knowing_clips(rest, nodes),
        ),
{
    let p = describe_shadow_height(clip_mode, rect, alloc_height, width, rest);
    let known = describe_shadow_height(
        clip_mode,
        rect,
        alloc_height,
        width,
        knowing_clips(rest, nodes),
    );
    knowing_after(p, nodes);
    let a = knowing_clips(p, nodes)->Call_1;
    let b = known->Call_1;
    assert forall|r: Reply| #[trigger] a(r) == b(r) by {
        if let Reply::Number(height) = r {
            knowing_in_shadow_inner(clip_mode, rect, width, height, rest, nodes);
        }
    }
    assert(a =~= b);
}

/// The clips that come after one do not change how that one is handed over.
proof fn knowing_behind_a_clip(node: ClipNode, rest: Program<bool>, nodes: Seq<ClipNode>)
    ensures
        knowing_clips(describe_clip(node, rest), nodes) == describe_clip(
            node,
            knowing_clips(rest, nodes),
        ),
{
    if node.same_spatial_node {
        let known = describe_clip(node, knowing_clips(rest, nodes));
        let p = describe_clip(node, rest);
        if p is Call {
            knowing_after(p, nodes);
        }
        let a = knowing_clips(p, nodes)->Call_1;
        let b = known->Call_1;
        match node.item {
            ClipItem::BoxShadow { clip_mode, prim_shadow_rect, original_alloc_size } => {
                assert forall|r: Reply| #[trigger] a(r) == b(r) by {
                    if let Reply::Number(width) = r {
                        knowing_in_shadow_height(
                            clip_mode,
                            prim_shadow_rect,
                            original_alloc_size.height,
                            width,
                            rest,
                            nodes,
                        );
                    }
                }
                assert(a =~= b);
            },
            ClipItem::Image => {},
            _ => {
                assert(a =~= b);
            },
        }
    }
}

proof fn known_clips_are_described_from(clips_range: ClipsRange, nodes: Seq<ClipNode>, i: int)
    requires
        nodes.len() == clips_range.count,
        0 <= i <= nodes.len(),
    ensures
        knowing_clips(describe_from(clips_range, i), nodes) == describe_all(nodes.skip(i)),
    decreases nodes.len() - i,
{
    let p = describe_from(clips_range, i);
    if i < nodes.len() {
        let k = p->Call_1;
        let rest = describe_from(clips_range, i + 1);
        known_clips_are_described_from(clips_range, nodes, i + 1);
        assert(k(Reply::Clip(nodes[i])) == describe_clip(nodes[i], rest));
        knowing_behind_a_clip(nodes[i], rest, nodes);
        assert(nodes.skip(i).drop_first() =~= nodes.skip(i + 1));
    }
}

proof fn other_clips_are_passed_over(nodes: Seq<ClipNode>)
    ensures
        describe_all(nodes) == describe_all(clips_of_same_node(nodes)),
    decreases nodes.len(),
{
    let same = |node: ClipNode| node.same_spatial_node;
    reveal_with_fuel(Seq::filter, 2);
    if nodes.len() > 0 {
        let first = seq![nodes[0]];
        let rest = nodes.drop_first();
        other_clips_are_passed_over(rest);
        Seq::filter_distributes_over_add(first, rest, same);
        assert(first + rest =~= nodes);
        assert(first.drop_last() =~= Seq::<ClipNode>::empty());
        assert(first.last() == nodes[0]);
        if nodes[0].same_spatial_node {
            assert(first.filter(same) =~= first);
            assert(clips_of_same_node(nodes).drop_first() =~= clips_of_same_node(rest));
        } else {
            assert(first.filter(same) =~= Seq::<ClipNode>::empty());
            assert(clips_of_same_node(nodes) =~= clips_of_same_node(rest));
        }
    } else {
        assert(clips_of_same_node(nodes) =~= nodes);
    }
}

/// A clip that another spatial node positions makes no difference to how a primitive is split,
/// whatever its shape: with the clips known, the same things are asked of the segment builder, in
/// the same order, and the same result comes out as where only the clips of the primitive's own
/// node are in the range.
pub proof fn clips_of_other_nodes_do_not_split(
    prim_local_rect: Rect,
    prim_local_clip_rect: Rect,
    clips_range: ClipsRange,
    nodes: Seq<ClipNode>,
    fewer: ClipsRange,
)
    requires
        clips_range.count == nodes.len(),
        fewer.count == clips_of_same_node(nodes).len(),
    ensures
        knowing_clips(
            describe_segments(prim_local_rect, prim_local_clip_rect, clips_range),
            nodes,
        ) == knowing_clips(
            describe_segments(prim_local_rect, prim_local_clip_rect, fewer),
            clips_of_same_node(nodes),
        ),
{
    let kept = clips_of_same_node(nodes);
    known_clips_are_described_from(clips_range, nodes, 0);
    known_clips_are_described_from(fewer, kept, 0);
    assert(nodes.skip(0) =~= nodes);
    assert(kept.skip(0) =~= kept);
    other_clips_are_passed_over(nodes);
    assert forall|area: Scalar|
        knowing_clips(
            #[trigger] describe_if_large(prim_local_rect, prim_local_clip_rect, clips_range, area),
            nodes,
        ) == knowing_clips(
            describe_if_large(prim_local_rect, prim_local_clip_rect, fewer, area),
            kept,
        ) by {
        let p = describe_if_large(prim_local_rect, prim_local_clip_rect, clips_range, area);
        let q = describe_if_large(prim_local_rect, prim_local_clip_rect, fewer, area);
        if p is Call {
            knowing_after(p, nodes);
            knowing_after(q, kept);
            assert(knowing_clips(p, nodes)->Call_1 =~= knowing_clips(q, kept)->Call_1);
        }
    }
    let p = describe_segments(prim_local_rect, prim_local_clip_rect, clips_range);
    let q = describe_segments(prim_local_rect, prim_local_clip_rect, fewer);
    knowing_after(p, nodes);
    knowing_after(q, kept);
    assert(knowing_clips(p, nodes)->Call_1 =~= knowing_clips(q, kept)->Call_1);
}

} // verus!
