//! What holds of every building of segments.
use vstd::prelude::*;

use crate::clip_task::brush_segments_of;
use crate::geometry::{Point, Rect};
use crate::kept::{begins, buffers_fit, segments_exist};
use crate::model::{
    BrushSegment, ClipsRange, IndexRange, InstanceModel, PictureIndex, PrimitiveInstanceKind,
    ScratchModel, SegmentInstanceIndex, WorkModel,
};
use crate::program::{
    always_after, always_weaker, answered_in_parts, answered_once, BuiltSegment, Program, Reply,
    Request,
};
use crate::segment_build::{
    build_for_image, build_for_kind, build_for_picture, build_from, build_if_described,
    build_if_invalid, build_segments, describe_segments, kept_segment, refreshed, segments_stored,
};

verus! {

/// That the primitive has got new segments: two or more of them stand at the end of the buffer of
/// segments, and the last of the segmented instances is the one that the primitive points at.
pub open spec fn got_segments(w: WorkModel, o: WorkModel) -> bool {
    let old = w.scratch.segments.len();
    let new = o.scratch.segments.len();
    let at = w.scratch.segment_instances.len();
    &&& new >= old + 2
    &&& o.scratch.segment_instances.len() == at + 1
    &&& buffers_fit(o.scratch) ==> {
        &&& o.instance.segment_instance_index == SegmentInstanceIndex::At(at as usize)
        &&& o.scratch.segment_instances[at as int].segments_range == (IndexRange {
            start: old as usize,
            end: new as usize,
        })
        &&& o.scratch.segment_instances[at as int].gpu_cache_handle.slot is None
    }
}

/// That segments were added for the primitive or none were, and nothing else changed.
pub open spec fn segments_built(w: WorkModel) -> spec_fn(WorkModel) -> bool {
    |o: WorkModel|
        {
            &&& begins(w.scratch.segments, o.scratch.segments)
            &&& begins(w.scratch.segment_instances, o.scratch.segment_instances)
            &&& o.scratch == (ScratchModel {
                segments: o.scratch.segments,
                segment_instances: o.scratch.segment_instances,
                ..w.scratch
            })
            &&& o.instance == (InstanceModel {
                segment_instance_index: o.instance.segment_instance_index,
                segments_are_valid: o.instance.segments_are_valid,
                ..w.instance
            })
            &&& if o.scratch == w.scratch {
                o.instance.segment_instance_index is At ==> o.instance.segment_instance_index
                    == w.instance.segment_instance_index
            } else {
                got_segments(w, o)
            }
        }
}

/// That the primitive does not lack segments: it has them or is drawn as a whole.
pub open spec fn segments_settled(w: WorkModel) -> spec_fn(WorkModel) -> bool {
    |o: WorkModel|
        {
            &&& segments_built(w)(o)
            &&& o.instance.segment_instance_index != SegmentInstanceIndex::Invalid
            &&& o.instance.segments_are_valid == w.instance.segments_are_valid
        }
}

proof fn stored_settles(w: WorkModel, kept: Seq<BrushSegment>)
    ensures
        segments_settled(w)(segments_stored(w, kept)),
{
}

proof fn build_from_settles(
    w: WorkModel,
    origin: Point,
    built: Seq<BuiltSegment>,
    i: int,
    kept: Seq<BrushSegment>,
)
    ensures
        build_from(w, origin, built, i, kept).always(segments_settled(w)),
    decreases built.len() - i,
{
    let post = segments_settled(w);
    let p = build_from(w, origin, built, i, kept);
    if 0 <= i < built.len() {
        let k = p->Call_1;
        assert forall|r: Reply| (#[trigger] k(r)).always(post) by {
            if let Reply::Rect(local_rect) = r {
                let more = kept.push(kept_segment(built[i], local_rect));
                assert(k(r) == build_from(w, origin, built, i + 1, more));
                build_from_settles(w, origin, built, i + 1, more);
            }
        }
    } else {
        stored_settles(w, kept);
    }
}

proof fn build_if_invalid_settles(w: WorkModel, clips_range: ClipsRange, rect: Rect)
    ensures
        build_if_invalid(w, clips_range, rect).always(segments_settled(w)),
{
    let post = segments_settled(w);
    if w.instance.segment_instance_index == SegmentInstanceIndex::Invalid {
        let f = |described: bool| build_if_described(w, rect.origin, described);
        assert forall|described: bool| (#[trigger] f(described)).always(post) by {
            let p = build_if_described(w, rect.origin, described);
            if described {
                let k = p->Call_1;
                assert forall|r: Reply| (#[trigger] k(r)).always(post) by {
                    if let Reply::Segments(built) = r {
                        build_from_settles(w, rect.origin, built@, 0, Seq::empty());
                    }
                }
            } else {
                stored_settles(w, Seq::empty());
            }
        }
        always_after(describe_segments(rect, w.instance.local_clip_rect, clips_range), f, post);
    }
}

/// Whether a primitive of this kind must have segments or be drawn as a whole before it is drawn.
pub open spec fn needs_segments(kind: PrimitiveInstanceKind) -> bool {
    kind is Rectangle || kind is YuvImage || kind is Image
}

proof fn build_for_kind_settles(w: WorkModel, clips_range: ClipsRange, rect: Rect)
    ensures
        build_for_kind(w, clips_range, rect).always(segments_built(w)),
        needs_segments(w.instance.kind) ==> build_for_kind(w, clips_range, rect).always(
            segments_settled(w),
        ),
{
    let post = segments_built(w);
    let strong = segments_settled(w);
    let p = build_for_kind(w, clips_range, rect);
    build_if_invalid_settles(w, clips_range, rect);
    always_weaker(build_if_invalid(w, clips_range, rect), strong, post);
    match w.instance.kind {
        PrimitiveInstanceKind::Image { .. } => {
            let k = p->Call_1;
            assert forall|r: Reply| (#[trigger] k(r)).always(strong) by {
                if let Reply::Flag(tiled) = r {
                    assert(k(r) == build_for_image(w, clips_range, rect, tiled));
                }
            }
            always_weaker(p, strong, post);
        },
        PrimitiveInstanceKind::Picture { pic_index } => {
            let k = p->Call_1;
            assert forall|r: Reply| (#[trigger] k(r)).always(post) by {
                if let Reply::Flag(can) = r {
                    assert(k(r) == build_for_picture(w, clips_range, rect, can));
                    if can {
                        let from = refreshed(w);
                        build_if_invalid_settles(from, clips_range, rect);
                        always_weaker(
                            build_if_invalid(from, clips_range, rect),
                            segments_settled(from),
                            post,
                        );
                    }
                }
            }
        },
        _ => {},
    }
}

/// Building segments changes nothing but the segments of the primitive: what the buffers held
/// stays where it was, and what is added is one run of two or more segments, which the primitive
/// points at.
pub proof fn building_adds_one_run(w: WorkModel, clips_range: ClipsRange)
    ensures
        build_segments(w, clips_range).always(segments_built(w)),
{
    let k = build_segments(w, clips_range)->Call_1;
    assert forall|r: Reply| (#[trigger] k(r)).always(segments_built(w)) by {
        if let Reply::Rect(rect) = r {
            build_for_kind_settles(w, clips_range, rect);
        }
    }
}

/// After segments were built, a rectangle or an image has segments or is drawn as a whole.
pub proof fn building_settles(w: WorkModel, clips_range: ClipsRange)
    requires
        needs_segments(w.instance.kind),
    ensures
        build_segments(w, clips_range).always(segments_settled(w)),
{
    let k = build_segments(w, clips_range)->Call_1;
    assert forall|r: Reply| (#[trigger] k(r)).always(segments_settled(w)) by {
        if let Reply::Rect(rect) = r {
            build_for_kind_settles(w, clips_range, rect);
        }
    }
}

/// After segments were built, a picture that can use segments has up-to-date segments or is drawn
/// as a whole: those that were out of date are given up first. A picture that cannot use segments is
/// left as it is.
pub proof fn building_settles_pictures(
    w: WorkModel,
    clips_range: ClipsRange,
    pic_index: PictureIndex,
    rect: Rect,
)
    requires
        w.instance.kind == (PrimitiveInstanceKind::Picture { pic_index }),
    ensures
        ({
            let p = build_segments(w, clips_range);
            let located = p.answered(seq![Reply::Rect(rect)]);
            let can = p.answered(seq![Reply::Rect(rect), Reply::Flag(true)]);
            &&& located is Call
            &&& located->Call_0 == (Request::CanUseSegments { pic_index })
            &&& can.always(segments_settled(refreshed(w)))
            &&& can.always(segments_are_up_to_date())
            &&& p.answered(seq![Reply::Rect(rect), Reply::Flag(false)]) == Program::Return(w)
        }),
{
    let p = build_segments(w, clips_range);
    let located = build_for_kind(w, clips_range, rect);
    let can = build_for_picture(w, clips_range, rect, true);
    let first = Reply::Rect(rect);
    answered_once(p, first);
    assert((p->Call_1)(first) == located);
    assert forall|flag: bool|
        p.answered(seq![Reply::Rect(rect), Reply::Flag(flag)])
            == #[trigger] build_for_picture(w, clips_range, rect, flag) by {
        let second = Reply::Flag(flag);
        assert(seq![first, second] =~= seq![first] + seq![second]);
        answered_in_parts(p, seq![first], seq![second]);
        answered_once(located, second);
        assert((located->Call_1)(second) == build_for_picture(w, clips_range, rect, flag));
    }
    assert(build_for_picture(w, clips_range, rect, false) == Program::Return(w));
    let from = refreshed(w);
    build_if_invalid_settles(from, clips_range, rect);
    always_weaker(can, segments_settled(from), segments_are_up_to_date());
}

/// That the segments of a picture are up to date, or that it is drawn as a whole.
pub open spec fn segments_are_up_to_date() -> spec_fn(WorkModel) -> bool {
    |o: WorkModel|
        o.instance.segments_are_valid && o.instance.segment_instance_index
            != SegmentInstanceIndex::Invalid
}

/// That nothing changed, or that an image is now drawn as a whole.
pub open spec fn segments_stay(w: WorkModel) -> spec_fn(WorkModel) -> bool {
    |o: WorkModel|
        o == w || (w.instance.kind is Image && o == w.with_segments(SegmentInstanceIndex::Unused))
}

/// Segments are built once: a primitive whose segments are settled is left as it is. An image that
/// has come to be tiled is the exception, as it gives its segments up.
pub proof fn settled_segments_stay(w: WorkModel, clips_range: ClipsRange)
    requires
        w.instance.segment_instance_index != SegmentInstanceIndex::Invalid,
        w.instance.kind is Picture ==> w.instance.segments_are_valid,
    ensures
        build_segments(w, clips_range).always(segments_stay(w)),
{
    let post = segments_stay(w);
    let k = build_segments(w, clips_range)->Call_1;
    assert forall|r: Reply| (#[trigger] k(r)).always(post) by {
        if let Reply::Rect(rect) = r {
            let p = build_for_kind(w, clips_range, rect);
            assert(k(r) == p);
            match w.instance.kind {
                PrimitiveInstanceKind::Image { .. } => {
                    let after = p->Call_1;
                    assert forall|r: Reply| (#[trigger] after(r)).always(post) by {
                        if let Reply::Flag(tiled) = r {
                            assert(after(r) == build_for_image(w, clips_range, rect, tiled));
                        }
                    }
                },
                PrimitiveInstanceKind::Picture { pic_index } => {
                    let after = p->Call_1;
                    assert forall|r: Reply| (#[trigger] after(r)).always(post) by {
                        if let Reply::Flag(can) = r {
                            assert(after(r) == build_for_picture(w, clips_range, rect, can));
                        }
                    }
                },
                _ => {},
            }
        }
    }
}

/// That the segments which the primitive points at are in the buffers and can be found.
pub open spec fn segments_found() -> spec_fn(WorkModel) -> bool {
    |o: WorkModel|
        buffers_fit(o.scratch) ==> segments_exist(o) && brush_segments_of(o) is Ok
}

/// What is built can be used: where the segments that a primitive points at are in the buffers,
/// they still are after segments were built, and clipping by segments finds them.
pub proof fn built_segments_are_found(w: WorkModel, clips_range: ClipsRange)
    requires
        segments_exist(w),
    ensures
        build_segments(w, clips_range).always(segments_found()),
{
    let p = build_segments(w, clips_range);
    if needs_segments(w.instance.kind) {
        building_settles(w, clips_range);
        always_weaker(p, segments_settled(w), segments_found());
    } else {
        building_adds_one_run(w, clips_range);
        always_weaker(p, segments_built(w), segments_found());
    }
}

} // verus!
