//! Writing the segments of a primitive to the GPU cache.
use vstd::prelude::*;

use crate::geometry::Block;
use crate::model::{
    GpuCacheHandle, IndexRange, PrimitiveId, PrimitiveScratchBuffer, ScratchModel,
    SegmentInstanceIndex, SegmentedInstance,
};
use crate::program::{
    ask_gpu_blocks, tell, unexpected, Fault, Machine, Program, Progress, Reply, Request, Resume,
};
use crate::scalar::{Scalar, MINUS_ONE, ONE, ZERO};
use crate::segment_build::{zero_block, zeros};

verus! {

/// What the blocks that stand before the segments are taken from.
#[derive(Clone, Copy, Debug, PartialEq, Eq, Structural)]
pub enum SegmentSource {
    /// The template of a primitive.
    Template(PrimitiveId),
    /// The same blocks for every picture.
    Picture,
}

/// The number of blocks that stand before the segments of a picture.
pub const PICTURE_BLOCKS: usize = 3;

/// The blocks before the segments of a picture: white twice, and a negative stretch size, which
/// means that of the primitive.
pub open spec fn picture_block_spec(n: usize) -> Block {
    let zero = Scalar { bits: ZERO };
    let one = Scalar { bits: ONE };
    if n < 2 {
        Block { x: one, y: one, z: one, w: one }
    } else {
        Block { x: Scalar { bits: MINUS_ONE }, y: zero, z: zero, w: zero }
    }
}

/// The block at position `n` before the segments of a picture.
fn picture_block(n: usize) -> (b: Block)
    ensures
        b == picture_block_spec(n),
{
    let zero = Scalar { bits: ZERO };
    let one = Scalar { bits: ONE };
    if n < 2 {
        Block { x: one, y: one, z: one, w: one }
    } else {
        Block { x: Scalar { bits: MINUS_ONE }, y: zero, z: zero, w: zero }
    }
}

/// Whether a range lies in an array of a length.
pub open spec fn in_bounds(range: IndexRange, len: nat) -> bool {
    range.start <= range.end <= len
}

/// The buffers with another handle for the segments at position `k`.
pub open spec fn with_gpu_handle(s: ScratchModel, k: int, handle: GpuCacheHandle) -> ScratchModel {
    ScratchModel {
        segment_instances: s.segment_instances.update(
            k,
            SegmentedInstance { gpu_cache_handle: handle, ..s.segment_instances[k] },
        ),
        ..s
    }
}

/// Brings the segments of an instance in the GPU cache up to date.
pub open spec fn write_segments(
    s: ScratchModel,
    index: SegmentInstanceIndex,
    source: SegmentSource,
) -> Program<ScratchModel> {
    match index {
        SegmentInstanceIndex::Invalid => Program::Fail(Fault::NoSegments),
        SegmentInstanceIndex::Unused => Program::Return(s),
        SegmentInstanceIndex::At(k) => if k < s.segment_instances.len() {
            ask_gpu_blocks(
                Request::RequestGpuBlocks {
                    handle: s.segment_instances[k as int].gpu_cache_handle,
                },
                |handle: GpuCacheHandle, granted: bool|
                    write_granted(with_gpu_handle(s, k as int, handle), k as int, source, granted),
            )
        } else {
            Program::Fail(Fault::NoSegments)
        },
    }
}

pub open spec fn write_granted(
    s: ScratchModel,
    k: int,
    source: SegmentSource,
    granted: bool,
) -> Program<ScratchModel> {
    let range = s.segment_instances[k].segments_range;
    if !granted {
        Program::Return(s)
    } else if !in_bounds(range, s.segments.len()) {
        Program::Fail(Fault::NoSegments)
    } else {
        match source {
            SegmentSource::Template(prim) => tell(
                Request::PushTemplateBlocks { prim },
                write_from(s, range, range.start as int),
            ),
            SegmentSource::Picture => write_blocks(s, range, 0),
        }
    }
}

/// The blocks of a picture from position `n` on, and then the segments.
pub open spec fn write_blocks(s: ScratchModel, range: IndexRange, n: int) -> Program<ScratchModel>
    decreases PICTURE_BLOCKS - n,
{
    if n < PICTURE_BLOCKS {
        tell(
            Request::PushBlock { block: picture_block_spec(n as usize) },
            write_blocks(s, range, n + 1),
        )
    } else {
        write_from(s, range, range.start as int)
    }
}

/// The segments of a range from position `i` on.
pub open spec fn write_from(s: ScratchModel, range: IndexRange, i: int) -> Program<ScratchModel>
    decreases range.end - i,
{
    if i < range.end {
        tell(
            Request::PushSegment {
                local_rect: s.segments[i].local_rect,
                extra_data: zero_block(),
            },
            write_from(s, range, i + 1),
        )
    } else {
        tell(Request::FinishGpuBlocks, Program::Return(s))
    }
}

/// A run of [`write_segment`].
pub enum WriteSegment {
    Requesting { s: PrimitiveScratchBuffer, k: usize, source: SegmentSource },
    /// The blocks of the picture before position `n` are written.
    PushingBlocks { s: PrimitiveScratchBuffer, range: IndexRange, n: usize },
    /// The segments before position `i` are written.
    PushingSegments { s: PrimitiveScratchBuffer, range: IndexRange, i: usize },
    Finishing { s: PrimitiveScratchBuffer },
}

impl WriteSegment {
    fn granted(
        s: PrimitiveScratchBuffer,
        k: usize,
        source: SegmentSource,
        granted: bool,
    ) -> (p: Progress<WriteSegment>)
        requires
            k < s.segment_instances@.len(),
        ensures
            p.follows(write_granted(s@, k as int, source, granted)),
    {
        if !granted {
            return Progress::Done(s);
        }
        let range = s.segment_instances[k].segments_range;
        if range.start > range.end || range.end > s.segments.len() {
            return Progress::Failed(Fault::NoSegments);
        }
        match source {
            SegmentSource::Template(prim) => Progress::Waiting(
                WriteSegment::PushingSegments { s, range, i: range.start },
                Request::PushTemplateBlocks { prim },
            ),
            SegmentSource::Picture => WriteSegment::blocks(s, range, 0),
        }
    }

    fn blocks(s: PrimitiveScratchBuffer, range: IndexRange, n: usize) -> (p: Progress<WriteSegment>)
        requires
            in_bounds(range, s@.segments.len()),
        ensures
            p.follows(write_blocks(s@, range, n as int)),
    {
        if n < PICTURE_BLOCKS {
            Progress::Waiting(
                WriteSegment::PushingBlocks { s, range, n: n + 1 },
                Request::PushBlock { block: picture_block(n) },
            )
        } else {
            WriteSegment::segments(s, range, range.start)
        }
    }

    fn segments(s: PrimitiveScratchBuffer, range: IndexRange, i: usize) -> (p: Progress<
        WriteSegment,
    >)
        requires
            in_bounds(range, s@.segments.len()),
        ensures
            p.follows(write_from(s@, range, i as int)),
    {
        if i < range.end {
            let local_rect = s.segments[i].local_rect;
            Progress::Waiting(
                WriteSegment::PushingSegments { s, range, i: i + 1 },
                Request::PushSegment { local_rect, extra_data: zeros() },
            )
        } else {
            Progress::Waiting(WriteSegment::Finishing { s }, Request::FinishGpuBlocks)
        }
    }
}

impl Machine for WriteSegment {
    type Out = PrimitiveScratchBuffer;

    open spec fn after(self, r: Reply) -> Program<ScratchModel> {
        match (self, r) {
            (
                WriteSegment::Requesting { s, k, source },
                Reply::GpuBlocks { handle, granted },
            ) => if k < s@.segment_instances.len() {
                write_granted(with_gpu_handle(s@, k as int, handle), k as int, source, granted)
            } else {
                unexpected()
            },
            (WriteSegment::PushingBlocks { s, range, n }, Reply::Ack) => if in_bounds(
                range,
                s@.segments.len(),
            ) {
                write_blocks(s@, range, n as int)
            } else {
                unexpected()
            },
            (WriteSegment::PushingSegments { s, range, i }, Reply::Ack) => if in_bounds(
                range,
                s@.segments.len(),
            ) {
                write_from(s@, range, i as int)
            } else {
                unexpected()
            },
            (WriteSegment::Finishing { s }, Reply::Ack) => Program::Return(s@),
            _ => unexpected(),
        }
    }
}

impl Resume for WriteSegment {
    fn resume(self, reply: Reply) -> (p: Progress<Self>) {
        match (self, reply) {
            (WriteSegment::Requesting { s, k, source }, Reply::GpuBlocks { handle, granted }) => {
                if k < s.segment_instances.len() {
                    let mut s = s;
                    let segments_range = s.segment_instances[k].segments_range;
                    s.segment_instances.set(
                        k,
                        SegmentedInstance { segments_range, gpu_cache_handle: handle },
                    );
                    WriteSegment::granted(s, k, source, granted)
                } else {
                    Progress::Failed(Fault::UnexpectedReply)
                }
            },
            (WriteSegment::PushingBlocks { s, range, n }, Reply::Ack) => {
                if range.start <= range.end && range.end <= s.segments.len() {
                    WriteSegment::blocks(s, range, n)
                } else {
                    Progress::Failed(Fault::UnexpectedReply)
                }
            },
            (WriteSegment::PushingSegments { s, range, i }, Reply::Ack) => {
                if range.start <= range.end && range.end <= s.segments.len() {
                    WriteSegment::segments(s, range, i)
                } else {
                    Progress::Failed(Fault::UnexpectedReply)
                }
            },
            (WriteSegment::Finishing { s }, Reply::Ack) => Progress::Done(s),
            _ => Progress::Failed(Fault::UnexpectedReply),
        }
    }
}

/// Brings the segments of an instance in the GPU cache up to date, if it has any.
pub fn write_segment(
    s: PrimitiveScratchBuffer,
    index: SegmentInstanceIndex,
    source: SegmentSource,
) -> (p: Progress<WriteSegment>)
    ensures
        p.follows(write_segments(s@, index, source)),
{
    match index {
        SegmentInstanceIndex::Invalid => Progress::Failed(Fault::NoSegments),
        SegmentInstanceIndex::Unused => Progress::Done(s),
        SegmentInstanceIndex::At(k) => {
            if k < s.segment_instances.len() {
                let handle = s.segment_instances[k].gpu_cache_handle;
                Progress::Waiting(
                    WriteSegment::Requesting { s, k, source },
                    Request::RequestGpuBlocks { handle },
                )
            } else {
                Progress::Failed(Fault::NoSegments)
            }
        },
    }
}

} // verus!
