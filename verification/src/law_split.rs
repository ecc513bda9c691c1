//! How a primitive is split into segments, and how the segments are written.
use vstd::prelude::*;

use crate::geometry::{times, value, Block, BorderRadius, Point, Rect, Size};
use crate::model::{
    BrushFlags, BrushSegment, ClipsRange, GpuCacheHandle, IndexRange, InstanceModel,
    PrimitiveInstanceKind, ScratchModel, SegmentInstanceIndex, SegmentedInstance, WorkModel,
};
use crate::program::{
    answered_in_parts, answered_once, BoxShadowClipMode, BuiltSegment, ClipItem, ClipMode, ClipNode,
    Fault, Program, Reply, Request,
};
use crate::scalar::Scalar;
use crate::segment_build::{
    build_for_kind, build_from, build_if_described, build_segments, describe_clip,
    describe_from, describe_if_large, describe_segments, describe_shadow_height,
    describe_shadow_inner, kept_segment, segments_stored, with_segmented_instance,
};
use crate::segment_write::{
    write_blocks, write_from, write_granted, write_segments, SegmentSource,
};

verus! {

/// A brush of less than 128 by 128 pixels, by its area, is not split. Any other opens the segment
/// builder with its rectangle and its clip rectangle.
pub proof fn only_a_large_brush_is_split(
    rect: Rect,
    clip_rect: Rect,
    clips_range: ClipsRange,
    area: Scalar,
)
    ensures
        ({
            let p = describe_segments(rect, clip_rect, clips_range);
            let measured = p.on(Reply::Number(area));
            &&& p.asks(
                Request::Evaluate(times(value(rect.size.width), value(rect.size.height))),
            )
            &&& if area.less(Scalar { bits: 0x4680_0000 }) {
                measured == Program::Return(false)
            } else {
                &&& measured.asks(
                    Request::InitializeSegmentBuilder {
                        local_rect: rect,
                        local_clip_rect: clip_rect,
                    },
                )
                &&& measured.on(Reply::Ack) == describe_from(clips_range, 0)
            }
        }),
{
    let p = describe_segments(rect, clip_rect, clips_range);
    assert(p.on(Reply::Number(area)) == describe_if_large(rect, clip_rect, clips_range, area));
}

/// Each clip of the range is looked at, in order, and a brush whose clips were all looked at can be
/// split. What is pushed for a clip of the same spatial node is that clip: a rectangle with its own
/// mode and no radius, a rounded rectangle with its own mode and its radius. An image mask ends the
/// attempt, and the clip of another node is passed over.
pub proof fn clip_is_pushed_as_it_is(
    clips_range: ClipsRange,
    i: int,
    rect: Rect,
    radius: BorderRadius,
    mode: ClipMode,
    item: ClipItem,
)
    requires
        0 <= i <= clips_range.count,
    ensures
        ({
            let p = describe_from(clips_range, i);
            let next = describe_from(clips_range, i + 1);
            let plain = p.on(
                Reply::Clip(
                    ClipNode {
                        same_spatial_node: true,
                        item: ClipItem::Rectangle { rect, mode },
                    },
                ),
            );
            let rounded = p.on(
                Reply::Clip(
                    ClipNode {
                        same_spatial_node: true,
                        item: ClipItem::RoundedRectangle { rect, radius, mode },
                    },
                ),
            );
            let image = p.on(
                Reply::Clip(ClipNode { same_spatial_node: true, item: ClipItem::Image }),
            );
            let other = p.on(Reply::Clip(ClipNode { same_spatial_node: false, item }));
            if i == clips_range.count {
                p == Program::Return(true)
            } else {
                &&& p.asks(Request::ClipNode { clips_range, index: i as u32 })
                &&& plain.asks(Request::PushClipRect { rect, radius: None, mode })
                &&& plain.on(Reply::Ack) == next
                &&& rounded.asks(Request::PushClipRect { rect, radius: Some(radius), mode })
                &&& rounded.on(Reply::Ack) == next
                &&& image == Program::Return(false)
                &&& other == next
            }
        }),
{
    if i < clips_range.count {
        let p = describe_from(clips_range, i);
        let next = describe_from(clips_range, i + 1);
        assert forall|node: ClipNode| #[trigger] p.on(Reply::Clip(node)) == describe_clip(
            node,
            next,
        ) by {}
    }
}

/// For a box shadow of the same spatial node a region of the mask is pushed: outside it ends at the
/// shadow, and inside at the shadow shrunk on each side by half of what its blur allocates. What is
/// inside is clipped out only if the shadow is inset, as an outset one may still be seen there.
pub proof fn box_shadow_is_pushed_as_a_region(
    clips_range: ClipsRange,
    i: int,
    clip_mode: BoxShadowClipMode,
    rect: Rect,
    alloc: Size,
    width: Scalar,
    height: Scalar,
    inner: Rect,
)
    requires
        0 <= i < clips_range.count,
    ensures
        ({
            let minus_half = Scalar { bits: 0xbf00_0000 };
            let next = describe_from(clips_range, i + 1);
            let p = describe_from(clips_range, i).on(
                Reply::Clip(
                    ClipNode {
                        same_spatial_node: true,
                        item: ClipItem::BoxShadow {
                            clip_mode,
                            prim_shadow_rect: rect,
                            original_alloc_size: alloc,
                        },
                    },
                ),
            );
            let wide = p.on(Reply::Number(width));
            let high = wide.on(Reply::Number(height));
            let shrunk = high.on(Reply::Rect(inner));
            &&& p.asks(Request::Evaluate(times(value(minus_half), value(alloc.width))))
            &&& wide.asks(Request::Evaluate(times(value(minus_half), value(alloc.height))))
            &&& high.asks(Request::Inflate { rect, width, height })
            &&& shrunk.asks(
                Request::PushMaskRegion {
                    outer_rect: rect,
                    inner_rect: inner,
                    inner_clip_mode: if clip_mode == BoxShadowClipMode::Inset {
                        Some(ClipMode::ClipOut)
                    } else {
                        None
                    },
                },
            )
            &&& shrunk.on(Reply::Ack) == next
        }),
{
    let next = describe_from(clips_range, i + 1);
    let node = ClipNode {
        same_spatial_node: true,
        item: ClipItem::BoxShadow { clip_mode, prim_shadow_rect: rect, original_alloc_size: alloc },
    };
    let p = describe_from(clips_range, i).on(Reply::Clip(node));
    assert(p == describe_clip(node, next));
    let wide = p.on(Reply::Number(width));
    assert(wide == describe_shadow_height(clip_mode, rect, alloc.height, width, next));
    let high = wide.on(Reply::Number(height));
    assert(high == describe_shadow_inner(clip_mode, rect, width, height, next));
}

/// The primitive, drawn as a whole.
pub open spec fn drawn_as_a_whole(w: WorkModel) -> WorkModel {
    WorkModel {
        instance: InstanceModel {
            segment_instance_index: SegmentInstanceIndex::Unused,
            ..w.instance
        },
        ..w
    }
}

/// Whether this is how a primitive goes on that needs segments: one that has them, or is drawn as a
/// whole, is left as it is, and any other is described with its clip rectangle and then built.
pub open spec fn builds_what_is_missing(
    p: Program<WorkModel>,
    w: WorkModel,
    rect: Rect,
    clips_range: ClipsRange,
) -> bool {
    let built = |described: bool| build_if_described(w, rect.origin, described);
    if w.instance.segment_instance_index is Invalid {
        p == describe_segments(rect, w.instance.local_clip_rect, clips_range).bind(built)
    } else {
        p == Program::Return(w)
    }
}

/// Segments are built for rectangles and video frames, for images that are not tiled, and for
/// pictures that can use them, which first give up segments that are out of date. A tiled image is
/// drawn as a whole. All else is left alone.
pub proof fn kinds_that_get_segments(
    w: WorkModel,
    clips_range: ClipsRange,
    rect: Rect,
)
    ensures
        ({
            let p = build_segments(w, clips_range);
            let located = p.on(Reply::Rect(rect));
            let no = located.on(Reply::Flag(false));
            let yes = located.on(Reply::Flag(true));
            let refreshed = if w.instance.segments_are_valid {
                w
            } else {
                WorkModel {
                    instance: InstanceModel {
                        segment_instance_index: SegmentInstanceIndex::Invalid,
                        segments_are_valid: true,
                        ..w.instance
                    },
                    ..w
                }
            };
            &&& p.asks(Request::LocalPrimRect { prim: w.instance.id })
            &&& match w.instance.kind {
                PrimitiveInstanceKind::Rectangle { .. } => builds_what_is_missing(
                    located,
                    w,
                    rect,
                    clips_range,
                ),
                PrimitiveInstanceKind::YuvImage => builds_what_is_missing(
                    located,
                    w,
                    rect,
                    clips_range,
                ),
                PrimitiveInstanceKind::Image { .. } => {
                    &&& located.asks(Request::IsTiledImage { prim: w.instance.id })
                    &&& yes == Program::Return(drawn_as_a_whole(w))
                    &&& builds_what_is_missing(no, w, rect, clips_range)
                },
                PrimitiveInstanceKind::Picture { pic_index } => {
                    &&& located.asks(Request::CanUseSegments { pic_index })
                    &&& no == Program::Return(w)
                    &&& builds_what_is_missing(yes, refreshed, rect, clips_range)
                },
                _ => located == Program::Return(w),
            }
        }),
{
    let p = build_segments(w, clips_range);
    assert(p.on(Reply::Rect(rect)) == build_for_kind(w, clips_range, rect));
}

/// The segment of a primitive that stands for one that was built, moved into its own space.
pub open spec fn moved_segment(built: BuiltSegment, moved: Rect) -> BrushSegment {
    let zero = Scalar { bits: 0 };
    BrushSegment {
        local_rect: moved,
        may_need_clip_mask: built.has_mask,
        edge_flags: built.edge_flags,
        extra_data: Block { x: zero, y: zero, z: zero, w: zero },
        brush_flags: BrushFlags::PerspectiveInterpolation,
    }
}

/// The replies that move rectangles.
pub open spec fn moves(moved: Seq<Rect>) -> Seq<Reply> {
    Seq::new(moved.len(), |i: int| Reply::Rect(moved[i]))
}

/// The first `n` segments, moved.
spec fn moved_segments(built: Seq<BuiltSegment>, moved: Seq<Rect>, n: int) -> Seq<BrushSegment> {
    Seq::new(n as nat, |i: int| moved_segment(built[i], moved[i]))
}

proof fn building_comes_to(
    w: WorkModel,
    origin: Point,
    built: Seq<BuiltSegment>,
    moved: Seq<Rect>,
    n: int,
)
    requires
        0 <= n <= built.len(),
        moved.len() == built.len(),
    ensures
        build_from(w, origin, built, 0, Seq::empty()).answered(moves(moved).take(n)) == build_from(
            w,
            origin,
            built,
            n,
            moved_segments(built, moved, n),
        ),
    decreases n,
{
    let p = build_from(w, origin, built, 0, Seq::empty());
    let all = moves(moved);
    if n == 0 {
        assert(all.take(0).len() == 0);
        assert(moved_segments(built, moved, 0) =~= Seq::<BrushSegment>::empty());
    } else {
        building_comes_to(w, origin, built, moved, n - 1);
        let last = Reply::Rect(moved[n - 1]);
        assert(all.take(n) =~= all.take(n - 1) + seq![last]);
        answered_in_parts(p, all.take(n - 1), seq![last]);
        let kept = moved_segments(built, moved, n - 1);
        let q = build_from(w, origin, built, n - 1, kept);
        answered_once(q, last);
        let segment = kept_segment(built[n - 1], moved[n - 1]);
        assert(q.on(last) == build_from(w, origin, built, n, kept.push(segment)));
        assert(kept.push(segment) =~= moved_segments(built, moved, n));
    }
}

/// What the segment builder gives out is moved, one segment after the other, back by the origin of
/// the primitive, and keeps whether a clip cuts it and its edges. Two or more segments are stored
/// behind those of others, as one more segmented instance that is not in the GPU cache yet, and the
/// primitive points at that instance. One segment or none, or a brush that cannot be split, is
/// drawn as a whole.
pub proof fn built_segments_are_moved_and_stored(
    w: WorkModel,
    origin: Point,
    built: Vec<BuiltSegment>,
    moved: Seq<Rect>,
)
    requires
        moved.len() == built@.len(),
    ensures
        ({
            let p = build_if_described(w, origin, true);
            let q = p.on(Reply::Segments(built));
            let old = w.scratch.segments.len();
            let n = built@.len();
            &&& build_if_described(w, origin, false) == Program::Return(drawn_as_a_whole(w))
            &&& p.asks(Request::BuildSegments)
            &&& forall|i: int|
                0 <= i < n ==> (#[trigger] q.answered(moves(moved).take(i))).asks(
                    Request::TranslateBack { rect: built@[i].rect, by: origin },
                )
            &&& q.answered(moves(moved)) == Program::Return(
                if n < 2 {
                    drawn_as_a_whole(w)
                } else {
                    WorkModel {
                        instance: InstanceModel {
                            segment_instance_index: SegmentInstanceIndex::At(
                                w.scratch.segment_instances.len() as usize,
                            ),
                            ..w.instance
                        },
                        scratch: ScratchModel {
                            segments: w.scratch.segments + Seq::new(
                                n,
                                |i: int| moved_segment(built@[i], moved[i]),
                            ),
                            segment_instances: w.scratch.segment_instances.push(
                                SegmentedInstance {
                                    segments_range: IndexRange {
                                        start: old as usize,
                                        end: (old + n) as usize,
                                    },
                                    gpu_cache_handle: GpuCacheHandle { slot: None },
                                },
                            ),
                            ..w.scratch
                        },
                    }
                },
            )
        }),
{
    let q = build_if_described(w, origin, true).on(Reply::Segments(built));
    let n = built@.len();
    assert(q == build_from(w, origin, built@, 0, Seq::empty()));
    assert forall|i: int| 0 <= i < n implies (#[trigger] q.answered(moves(moved).take(i))).asks(
        Request::TranslateBack { rect: built@[i].rect, by: origin },
    ) by {
        building_comes_to(w, origin, built@, moved, i);
    }
    building_comes_to(w, origin, built@, moved, n as int);
    assert(moves(moved).take(n as int) =~= moves(moved));
    let kept = moved_segments(built@, moved, n as int);
    assert(build_from(w, origin, built@, n as int, kept) == Program::Return(
        segments_stored(w, kept),
    ));
    assert(kept =~= Seq::new(n, |i: int| moved_segment(built@[i], moved[i])));
    if n >= 2 {
        assert(with_segmented_instance(w.scratch, kept).segments =~= w.scratch.segments + kept);
    }
}

/// Segments are written to the GPU cache where the cache asks for them: first the blocks of the
/// template, or those of a picture, which are white twice and then a stretch size of minus one;
/// then the rectangle of each segment of the range in order, with four zeros; then the end. The
/// instance keeps the handle that the cache gave. A primitive that is drawn as a whole has nothing
/// to write; one whose segments were not built, or point outside the buffers, is at fault.
pub proof fn segments_are_written_behind_their_blocks(
    s: ScratchModel,
    index: SegmentInstanceIndex,
    source: SegmentSource,
    handle: GpuCacheHandle,
)
    ensures
        ({
            let zero = Scalar { bits: 0 };
            let one = Scalar { bits: 0x3f80_0000 };
            let white = Request::PushBlock { block: Block { x: one, y: one, z: one, w: one } };
            let stretch = Request::PushBlock {
                block: Block { x: Scalar { bits: 0xbf80_0000 }, y: zero, z: zero, w: zero },
            };
            let p = write_segments(s, index, source);
            match index {
                SegmentInstanceIndex::Invalid => p == Program::<ScratchModel>::Fail(
                    Fault::NoSegments,
                ),
                SegmentInstanceIndex::Unused => p == Program::Return(s),
                SegmentInstanceIndex::At(k) => if k >= s.segment_instances.len() {
                    p == Program::<ScratchModel>::Fail(Fault::NoSegments)
                } else {
                    let instance = s.segment_instances[k as int];
                    let range = instance.segments_range;
                    let refreshed = ScratchModel {
                        segment_instances: s.segment_instances.update(
                            k as int,
                            SegmentedInstance { gpu_cache_handle: handle, segments_range: range },
                        ),
                        ..s
                    };
                    let granted = p.on(Reply::GpuBlocks { handle, granted: true });
                    let begun = write_from(refreshed, range, range.start as int);
                    &&& p.asks(Request::RequestGpuBlocks { handle: instance.gpu_cache_handle })
                    &&& p.on(Reply::GpuBlocks { handle, granted: false }) == Program::Return(
                        refreshed,
                    )
                    &&& if range.start > range.end || range.end > s.segments.len() {
                        granted == Program::<ScratchModel>::Fail(Fault::NoSegments)
                    } else {
                        match source {
                            SegmentSource::Template(prim) => {
                                &&& granted.asks(Request::PushTemplateBlocks { prim })
                                &&& granted.on(Reply::Ack) == begun
                            },
                            SegmentSource::Picture => {
                                &&& granted.asks(white)
                                &&& granted.on(Reply::Ack).asks(white)
                                &&& granted.on(Reply::Ack).on(Reply::Ack).asks(stretch)
                                &&& granted.on(Reply::Ack).on(Reply::Ack).on(Reply::Ack) == begun
                            },
                        }
                    }
                },
            }
        }),
{
    if let SegmentInstanceIndex::At(k) = index {
        if k < s.segment_instances.len() {
            let range = s.segment_instances[k as int].segments_range;
            let refreshed = ScratchModel {
                segment_instances: s.segment_instances.update(
                    k as int,
                    SegmentedInstance { gpu_cache_handle: handle, segments_range: range },
                ),
                ..s
            };
            let p = write_segments(s, index, source);
            let granted = p.on(Reply::GpuBlocks { handle, granted: true });
            assert(granted == write_granted(refreshed, k as int, source, true));
            if range.start <= range.end <= s.segments.len() && source is Picture {
                assert(granted == write_blocks(refreshed, range, 0));
                assert(granted.on(Reply::Ack) == write_blocks(refreshed, range, 1));
                assert(granted.on(Reply::Ack).on(Reply::Ack) == write_blocks(refreshed, range, 2));
                assert(granted.on(Reply::Ack).on(Reply::Ack).on(Reply::Ack) == write_blocks(
                    refreshed,
                    range,
                    3,
                ));
            }
        }
    }
}

/// The step of [`segments_are_written_behind_their_blocks`] at position `i` of the buffer.
pub proof fn next_segment_is_written(s: ScratchModel, range: IndexRange, i: int)
    ensures
        ({
            let zero = Scalar { bits: 0 };
            let p = write_from(s, range, i);
            if i < range.end {
                &&& p.asks(
                    Request::PushSegment {
                        local_rect: s.segments[i].local_rect,
                        extra_data: Block { x: zero, y: zero, z: zero, w: zero },
                    },
                )
                &&& p.on(Reply::Ack) == write_from(s, range, i + 1)
            } else {
                &&& p.asks(Request::FinishGpuBlocks)
                &&& p.on(Reply::Ack) == Program::Return(s)
            }
        }),
{
}

} // verus!
