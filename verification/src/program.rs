//! How the pass talks to the renderer.
//!
//! The pass decides; the renderer does the rest: transforms, arithmetic on coordinates, caches and
//! render tasks. Each function of the pass is a machine that either is done, cannot go on, or
//! waits for the reply to one [`Request`]. What a machine does is stated as a [`Program`]: the
//! tree of all its conversations with a renderer.
use vstd::prelude::*;

use crate::geometry::{AuSize, Block, BorderRadius, Expr, IntRect, IntSize, Point, Rect, Size};
use crate::model::{
    ClipChainInstance, ClipsRange, DirtyRect, GpuCacheHandle, GradientStopKey,
    LineDecorationCacheKey, LineOrientation, PictureContext, PictureIndex, PictureState,
    PlaneSplitAnchor, PrimitiveId, SpatialNodeIndex, SubpixelMode, SurfaceIndex, TaskId, Token,
};
use crate::scalar::Scalar;

verus! {

/// What a gradient task is cached by: the orientation, the part of the gradient that is drawn,
/// and its stops, padded with empty ones.
#[derive(Clone, Copy, Debug, PartialEq, Eq, Structural)]
pub struct GradientCacheKey {
    pub orientation: LineOrientation,
    pub start: Scalar,
    pub end: Scalar,
    pub stops: SegmentStops,
}

/// The stops of a gradient that one task draws.
#[derive(Clone, Copy, Debug, PartialEq, Eq, Structural)]
pub struct SegmentStops {
    pub first: GradientStopKey,
    pub second: GradientStopKey,
    pub third: GradientStopKey,
    pub fourth: GradientStopKey,
}

/// Whether a clip keeps what is inside it or what is outside.
#[derive(Clone, Copy, Debug, PartialEq, Eq, Structural)]
pub enum ClipMode {
    Clip,
    ClipOut,
}

/// Whether a box shadow lies outside its box or inside.
#[derive(Clone, Copy, Debug, PartialEq, Eq, Structural)]
pub enum BoxShadowClipMode {
    Outset,
    Inset,
}

/// The shape of a clip.
#[derive(Clone, Copy, Debug, PartialEq, Eq, Structural)]
pub enum ClipItem {
    RoundedRectangle { rect: Rect, radius: BorderRadius, mode: ClipMode },
    Rectangle { rect: Rect, mode: ClipMode },
    BoxShadow {
        clip_mode: BoxShadowClipMode,
        prim_shadow_rect: Rect,
        original_alloc_size: Size,
    },
    Image,
}

/// A clip of the clip store.
#[derive(Clone, Copy, Debug, PartialEq, Eq, Structural)]
pub struct ClipNode {
    /// Whether the clip is positioned by the node that positions the primitive.
    pub same_spatial_node: bool,
    pub item: ClipItem,
}

/// A segment as the segment builder gives it out, in the space of the primitive's parent.
#[derive(Clone, Copy, Debug, PartialEq, Eq, Structural)]
pub struct BuiltSegment {
    pub rect: Rect,
    pub has_mask: bool,
    pub edge_flags: u8,
}

/// The render tasks that draw a surface.
#[derive(Clone, Copy, Debug, PartialEq, Eq, Structural)]
pub struct SurfaceTasks {
    pub root: TaskId,
    pub port: TaskId,
}

/// What the pass asks of the renderer.
#[allow(inconsistent_fields)]
#[derive(Debug, PartialEq, Eq)]
pub enum Request {
    // Coordinates. `Evaluate` is answered by a number, `IsApproximately` and `DoIntersect` by a
    // flag.
    Evaluate(Expr),
    IsApproximately { a: Scalar, b: Scalar },
    DoIntersect { a: Rect, b: Rect },
    /// The common part of two rectangles; answered by a rectangle or nothing.
    Intersect { a: Rect, b: Rect },
    /// Answered by the rectangle with all coordinates multiplied.
    ScaleRect { rect: Rect, by: Scalar },
    /// Answered by the rectangle with all coordinates multiplied by the inverse.
    UnscaleRect { rect: Rect, by: Scalar },
    /// Answered by the rectangle moved by an offset.
    Translate { rect: Rect, by: Point },
    /// Answered by the rectangle moved by the opposite of an offset.
    TranslateBack { rect: Rect, by: Point },
    /// Answered by the rectangle grown on each side.
    Inflate { rect: Rect, width: Scalar, height: Scalar },
    /// Answered by the rectangle with its coordinates cut to integers.
    ToIntRect { rect: Rect },
    /// Answered by the rectangle multiplied and rounded out to integers.
    ScaleRoundOut { rect: Rect, by: Scalar },
    /// Answered by the device pixels that a rectangle of raster space touches.
    RasterToDevicePixels { rect: Rect, scale: Scalar },
    /// Answered by a size in app units as pixels, multiplied by one or two factors in turn and
    /// rounded up.
    CeilTaskSize { size: AuSize, scale: Scalar, shrink: Option<Scalar> },
    /// Answered by the number that carries an integer to a shader.
    PackAsFloat { value: u32 },
    // Spaces. The mappings are answered by a rectangle or nothing.
    SelectSpatialNode { state: PictureState, node: SpatialNodeIndex },
    PictureToRaster { state: PictureState, rect: Rect },
    PictureToWorld { state: PictureState, rect: Rect },
    RasterToWorld { state: PictureState, rect: Rect },
    WorldToRaster { state: PictureState, rect: Rect },
    /// Answered by a token for the transform.
    RelativeTransform { from: SpatialNodeIndex, to: SpatialNodeIndex },
    /// Answered by the scale factors of the transform to the world.
    WorldScaleFactors { node: SpatialNodeIndex },
    /// Answered by a token for a mapping to the space of the root.
    LocalToWorldMapper { node: SpatialNodeIndex },
    /// Answered by a rectangle that holds all that can be visible of `clip_rect`.
    ConservativeVisibleRect { clip_rect: Rect, world_rect: Rect, mapper: Token },
    /// Answered by the origins of the repetitions that touch `visible_rect`.
    Repetitions { prim_rect: Rect, visible_rect: Rect, stride: Size },
    // The frame.
    DirtyRegion,
    DirtyRegionBounds,
    CountVisiblePrimitive,
    /// Notes, where the renderer keeps such notes, that a primitive is prepared in this frame.
    StampFrame { prim: PrimitiveId },
    DevicePixelScale { surface: SurfaceIndex },
    // Pictures.
    /// Answered by the context for the children of a picture, or nothing.
    TakeContext {
        pic_index: PictureIndex,
        clipped_prim_bounding_rect: Rect,
        surface_spatial_node_index: SpatialNodeIndex,
        raster_spatial_node_index: SpatialNodeIndex,
        surface_index: SurfaceIndex,
        subpixel_mode: SubpixelMode,
    },
    RestoreContext { surface_index: SurfaceIndex, context: PictureContext },
    PreparePicture { pic_index: PictureIndex },
    CanUseSegments { pic_index: PictureIndex },
    HasPlaneSplitter { state: PictureState },
    AddSplitPlane {
        state: PictureState,
        node: SpatialNodeIndex,
        pic_index: PictureIndex,
        combined_local_clip_rect: Rect,
        dirty_rect: Rect,
        anchor: PlaneSplitAnchor,
    },
    /// Answered by the surface that a picture is drawn to.
    PictureSurface { pic_index: PictureIndex },
    RasterSpace { pic_index: PictureIndex },
    /// Answered by the root scaling factor of a picture that has a raster configuration.
    RootScalingFactor { pic_index: PictureIndex },
    // Templates.
    LocalPrimRect { prim: PrimitiveId },
    AllowRepetition { prim: PrimitiveId, may_need_repetition: bool },
    UpdateTemplate { prim: PrimitiveId },
    IsTiledImage { prim: PrimitiveId },
    RequestGlyphs {
        prim: PrimitiveId,
        prim_offset: Point,
        pic_clip_rect: Rect,
        transform: Token,
        surface: SurfaceIndex,
        node: SpatialNodeIndex,
        raster_space: Token,
        root_scaling_factor: Scalar,
        subpixel_mode: SubpixelMode,
    },
    ClampToScaleFactor { value: Scalar },
    MaxBorderScale { prim: PrimitiveId },
    /// Answered by the size of a task and the scale that gives it.
    CacheSize { size: Size, scale: Scalar },
    // The GPU cache. A granted request is written to until it is finished.
    RequestGpuBlocks { handle: GpuCacheHandle },
    PushBlock { block: Block },
    PushTemplateBlocks { prim: PrimitiveId },
    PushSegment { local_rect: Rect, extra_data: Block },
    FinishGpuBlocks,
    InvalidateGpuBlocks { handle: GpuCacheHandle },
    InvalidateTemplateBlocks { prim: PrimitiveId },
    // Clips.
    ClipNode { clips_range: ClipsRange, index: u32 },
    InitializeSegmentBuilder { local_rect: Rect, local_clip_rect: Rect },
    PushClipRect { rect: Rect, radius: Option<BorderRadius>, mode: ClipMode },
    PushMaskRegion { outer_rect: Rect, inner_rect: Rect, inner_clip_mode: Option<ClipMode> },
    BuildSegments,
    ActivateClips { clip_chain: ClipChainInstance, node: SpatialNodeIndex },
    /// Answered by the clips that apply to a rectangle, or nothing where it is clipped away.
    BuildClipChain {
        local_rect: Rect,
        state: PictureState,
        device_pixel_scale: Scalar,
        dirty_rect: Rect,
        is_chased: bool,
    },
    // Render tasks.
    LineDecorationTask { size: IntSize, key: LineDecorationCacheKey },
    BorderSegmentTask { prim: PrimitiveId, key: Token, size: IntSize, scale: Scalar },
    GradientTask { size: IntSize, key: GradientCacheKey, is_opaque: bool },
    MaskTask {
        device_rect: IntRect,
        clips_range: ClipsRange,
        root_spatial_node_index: SpatialNodeIndex,
        device_pixel_scale: Scalar,
    },
    /// Answered by the tasks of a surface, or nothing.
    SurfaceRenderTasks { surface: SurfaceIndex },
    /// Answered by the task that the tasks of a surface depend on.
    SurfacePort { surface: SurfaceIndex },
    AddDependency { parent: TaskId, child: TaskId },
}

/// What the renderer replies.
#[derive(Debug, PartialEq, Eq)]
pub enum Reply {
    Ack,
    Flag(bool),
    Number(Scalar),
    MaybeNumber(Option<Scalar>),
    Numbers { x: Scalar, y: Scalar },
    Rect(Rect),
    MaybeRect(Option<Rect>),
    IntRect(IntRect),
    IntSize(IntSize),
    CacheSize { size: IntSize, scale: Scalar },
    Token(Token),
    Task(TaskId),
    TaskHandle(u64),
    GpuBlocks { handle: GpuCacheHandle, granted: bool },
    Surface(SurfaceIndex),
    MaybeTasks(Option<SurfaceTasks>),
    Context(Option<PictureContext>),
    DirtyRects(Vec<DirtyRect>),
    Origins(Vec<Point>),
    Segments(Vec<BuiltSegment>),
    Clip(ClipNode),
    ClipChain(Option<ClipChainInstance>),
}

/// Why the pass cannot go on.
#[derive(Clone, Copy, Debug, PartialEq, Eq, Structural)]
pub enum Fault {
    /// The reply is not one to the request.
    UnexpectedReply,
    /// The primitive is culled.
    NotVisible,
    /// The segments that the primitive has to have were not built or do not exist.
    NoSegments,
    /// The primitive lies outside its clip rectangle.
    OutsideClip,
    /// The gradient has no stops.
    NoStops,
    /// A repetition of the gradient does not get further along it.
    EndlessRepetition,
    /// The position of the primitive in its list does not fit.
    PositionOverflow,
}

/// All conversations that lead to a result of type `T`.
pub enum Program<T> {
    Return(T),
    Fail(Fault),
    Call(Request, spec_fn(Reply) -> Program<T>),
}

impl<S> Program<S> {
    /// This program, and then the one that its result leads to.
    pub open spec fn bind<T>(self, f: spec_fn(S) -> Program<T>) -> Program<T>
        decreases self,
    {
        match self {
            Program::Return(s) => f(s),
            Program::Fail(fault) => Program::Fail(fault),
            Program::Call(q, k) => Program::Call(q, |r: Reply| k(r).bind(f)),
        }
    }

    /// Whether `post` holds of every result, whatever the renderer replies.
    pub open spec fn always(self, post: spec_fn(S) -> bool) -> bool
        decreases self,
    {
        match self {
            Program::Return(s) => post(s),
            Program::Fail(_) => true,
            Program::Call(q, k) => forall|r: Reply| (#[trigger] k(r)).always(post),
        }
    }

    /// Whether `allowed` holds of every fault, whatever the renderer replies.
    pub open spec fn fails_only(self, allowed: spec_fn(Fault) -> bool) -> bool
        decreases self,
    {
        match self {
            Program::Return(_) => true,
            Program::Fail(fault) => allowed(fault),
            Program::Call(q, k) => forall|r: Reply| (#[trigger] k(r)).fails_only(allowed),
        }
    }

    /// Whether `allowed` holds of every request, whatever the renderer replies.
    pub open spec fn only_asks(self, allowed: spec_fn(Request) -> bool) -> bool
        decreases self,
    {
        match self {
            Program::Return(_) => true,
            Program::Fail(_) => true,
            Program::Call(q, k) => allowed(q) && forall|r: Reply|
                (#[trigger] k(r)).only_asks(allowed),
        }
    }

    /// What is left of the program after the renderer has made these replies.
    pub open spec fn answered(self, replies: Seq<Reply>) -> Program<S>
        decreases replies.len(),
    {
        if replies.len() == 0 {
            self
        } else {
            match self {
                Program::Call(q, k) => k(replies[0]).answered(replies.drop_first()),
                _ => self,
            }
        }
    }
}

pub open spec fn unexpected<T>() -> Program<T> {
    Program::Fail(Fault::UnexpectedReply)
}

/// Asks, and goes on once the renderer has acted.
pub open spec fn tell<T>(q: Request, p: Program<T>) -> Program<T> {
    Program::Call(
        q,
        |r: Reply|
            match r {
                Reply::Ack => p,
                _ => unexpected(),
            },
    )
}

pub open spec fn ask_flag<T>(q: Request, f: spec_fn(bool) -> Program<T>) -> Program<T> {
    Program::Call(
        q,
        |r: Reply|
            match r {
                Reply::Flag(b) => f(b),
                _ => unexpected(),
            },
    )
}

pub open spec fn ask_number<T>(q: Request, f: spec_fn(Scalar) -> Program<T>) -> Program<T> {
    Program::Call(
        q,
        |r: Reply|
            match r {
                Reply::Number(x) => f(x),
                _ => unexpected(),
            },
    )
}

pub open spec fn ask_rect<T>(q: Request, f: spec_fn(Rect) -> Program<T>) -> Program<T> {
    Program::Call(
        q,
        |r: Reply|
            match r {
                Reply::Rect(x) => f(x),
                _ => unexpected(),
            },
    )
}

pub open spec fn ask_maybe_rect<T>(
    q: Request,
    f: spec_fn(Option<Rect>) -> Program<T>,
) -> Program<T> {
    Program::Call(
        q,
        |r: Reply|
            match r {
                Reply::MaybeRect(x) => f(x),
                _ => unexpected(),
            },
    )
}

pub open spec fn ask_int_rect<T>(q: Request, f: spec_fn(IntRect) -> Program<T>) -> Program<T> {
    Program::Call(
        q,
        |r: Reply|
            match r {
                Reply::IntRect(x) => f(x),
                _ => unexpected(),
            },
    )
}

pub open spec fn ask_int_size<T>(q: Request, f: spec_fn(IntSize) -> Program<T>) -> Program<T> {
    Program::Call(
        q,
        |r: Reply|
            match r {
                Reply::IntSize(x) => f(x),
                _ => unexpected(),
            },
    )
}

pub open spec fn ask_token<T>(q: Request, f: spec_fn(Token) -> Program<T>) -> Program<T> {
    Program::Call(
        q,
        |r: Reply|
            match r {
                Reply::Token(x) => f(x),
                _ => unexpected(),
            },
    )
}

pub open spec fn ask_task<T>(q: Request, f: spec_fn(TaskId) -> Program<T>) -> Program<T> {
    Program::Call(
        q,
        |r: Reply|
            match r {
                Reply::Task(x) => f(x),
                _ => unexpected(),
            },
    )
}

pub open spec fn ask_task_handle<T>(q: Request, f: spec_fn(u64) -> Program<T>) -> Program<T> {
    Program::Call(
        q,
        |r: Reply|
            match r {
                Reply::TaskHandle(x) => f(x),
                _ => unexpected(),
            },
    )
}

pub open spec fn ask_gpu_blocks<T>(
    q: Request,
    f: spec_fn(GpuCacheHandle, bool) -> Program<T>,
) -> Program<T> {
    Program::Call(
        q,
        |r: Reply|
            match r {
                Reply::GpuBlocks { handle, granted } => f(handle, granted),
                _ => unexpected(),
            },
    )
}

/// A computation of the pass that stopped at a request.
pub trait Machine: Sized {
    /// What the computation ends with.
    type Out: View;

    /// What remains to be done after a reply.
    spec fn after(self, r: Reply) -> Program<<Self::Out as View>::V>;
}

/// How far a computation of the pass has come.
pub enum Progress<M: Machine> {
    /// The machine waits for the reply to a request.
    Waiting(M, Request),
    /// The result.
    Done(M::Out),
    /// The pass cannot go on.
    Failed(Fault),
}

impl<M: Machine> Progress<M> {
    /// Whether this is where `p` begins, and what the machine does after each reply is what `p`
    /// does.
    pub open spec fn follows(self, p: Program<<M::Out as View>::V>) -> bool {
        match self {
            Progress::Waiting(m, q) => p matches Program::Call(asked, k) && q == asked && forall|
                r: Reply,
            |
                #![trigger k(r)]
                #![trigger m.after(r)]
                k(r) == m.after(r),
            Progress::Done(out) => p == Program::<<M::Out as View>::V>::Return(out@),
            Progress::Failed(fault) => p == Program::<<M::Out as View>::V>::Fail(fault),
        }
    }
}

/// A computation of the pass that can go on.
pub trait Resume: Machine {
    /// Goes on with a reply.
    fn resume(self, reply: Reply) -> (p: Progress<Self>)
        ensures
            p.follows(self.after(reply)),
    ;
}

/// What holds of every result of a first program, and makes a property hold of every result of
/// what follows, makes it hold of every result of both.
pub proof fn always_of_bind<S, T>(
    p: Program<S>,
    f: spec_fn(S) -> Program<T>,
    mid: spec_fn(S) -> bool,
    post: spec_fn(T) -> bool,
)
    requires
        p.always(mid),
        forall|s: S| mid(s) ==> (#[trigger] f(s)).always(post),
    ensures
        p.bind(f).always(post),
    decreases p,
{
    match p {
        Program::Return(s) => {
            assert(mid(s));
            assert(f(s).always(post));
            assert(p.bind(f) == f(s));
        },
        Program::Fail(_) => {},
        Program::Call(q, k) => {
            let bound = p.bind(f)->Call_1;
            assert forall|r: Reply| (#[trigger] bound(r)).always(post) by {
                assert(bound(r) == k(r).bind(f));
                always_of_bind(k(r), f, mid, post);
            }
        },
    }
}

/// Faults of two programs in turn are faults of one of them.
pub proof fn fails_only_of_bind<S, T>(
    p: Program<S>,
    f: spec_fn(S) -> Program<T>,
    mid: spec_fn(S) -> bool,
    allowed: spec_fn(Fault) -> bool,
)
    requires
        p.always(mid),
        p.fails_only(allowed),
        forall|s: S| mid(s) ==> (#[trigger] f(s)).fails_only(allowed),
    ensures
        p.bind(f).fails_only(allowed),
    decreases p,
{
    match p {
        Program::Return(s) => {
            assert(mid(s));
            assert(f(s).fails_only(allowed));
            assert(p.bind(f) == f(s));
        },
        Program::Fail(fault) => {
            assert(p.bind(f) == Program::<T>::Fail(fault));
        },
        Program::Call(q, k) => {
            let bound = p.bind(f)->Call_1;
            assert forall|r: Reply| (#[trigger] bound(r)).fails_only(allowed) by {
                assert(bound(r) == k(r).bind(f));
                assert(k(r).always(mid));
                assert(k(r).fails_only(allowed));
                fails_only_of_bind(k(r), f, mid, allowed);
            }
        },
    }
}

/// Faults of two programs in turn are faults of one of them.
pub proof fn fails_only_after<S, T>(
    p: Program<S>,
    f: spec_fn(S) -> Program<T>,
    allowed: spec_fn(Fault) -> bool,
)
    requires
        p.fails_only(allowed),
        forall|s: S| (#[trigger] f(s)).fails_only(allowed),
    ensures
        p.bind(f).fails_only(allowed),
    decreases p,
{
    match p {
        Program::Return(s) => {
            assert(f(s).fails_only(allowed));
            assert(p.bind(f) == f(s));
        },
        Program::Fail(fault) => {
            assert(p.bind(f) == Program::<T>::Fail(fault));
        },
        Program::Call(q, k) => {
            let bound = p.bind(f)->Call_1;
            assert forall|r: Reply| (#[trigger] bound(r)).fails_only(allowed) by {
                assert(bound(r) == k(r).bind(f));
                assert(k(r).fails_only(allowed));
                fails_only_after(k(r), f, allowed);
            }
        },
    }
}

/// Requests of two programs in turn are requests of one of them.
pub proof fn only_asks_of_bind<S, T>(
    p: Program<S>,
    f: spec_fn(S) -> Program<T>,
    mid: spec_fn(S) -> bool,
    allowed: spec_fn(Request) -> bool,
)
    requires
        p.always(mid),
        p.only_asks(allowed),
        forall|s: S| mid(s) ==> (#[trigger] f(s)).only_asks(allowed),
    ensures
        p.bind(f).only_asks(allowed),
    decreases p,
{
    match p {
        Program::Return(s) => {
            assert(mid(s));
            assert(f(s).only_asks(allowed));
            assert(p.bind(f) == f(s));
        },
        Program::Fail(_) => {},
        Program::Call(q, k) => {
            let bound = p.bind(f)->Call_1;
            assert forall|r: Reply| (#[trigger] bound(r)).only_asks(allowed) by {
                assert(bound(r) == k(r).bind(f));
                assert(k(r).always(mid));
                assert(k(r).only_asks(allowed));
                only_asks_of_bind(k(r), f, mid, allowed);
            }
        },
    }
}

/// Requests of two programs in turn are requests of one of them.
pub proof fn only_asks_after<S, T>(
    p: Program<S>,
    f: spec_fn(S) -> Program<T>,
    allowed: spec_fn(Request) -> bool,
)
    requires
        p.only_asks(allowed),
        forall|s: S| (#[trigger] f(s)).only_asks(allowed),
    ensures
        p.bind(f).only_asks(allowed),
    decreases p,
{
    match p {
        Program::Return(s) => {
            assert(f(s).only_asks(allowed));
            assert(p.bind(f) == f(s));
        },
        Program::Fail(_) => {},
        Program::Call(q, k) => {
            let bound = p.bind(f)->Call_1;
            assert forall|r: Reply| (#[trigger] bound(r)).only_asks(allowed) by {
                assert(bound(r) == k(r).bind(f));
                assert(k(r).only_asks(allowed));
                only_asks_after(k(r), f, allowed);
            }
        },
    }
}

/// Requests that are allowed by less are allowed by more.
pub proof fn only_asks_weaker<S>(
    p: Program<S>,
    strong: spec_fn(Request) -> bool,
    weak: spec_fn(Request) -> bool,
)
    requires
        p.only_asks(strong),
        forall|q: Request| #[trigger] strong(q) ==> weak(q),
    ensures
        p.only_asks(weak),
    decreases p,
{
    if let Program::Call(q, k) = p {
        assert(strong(q));
        assert forall|r: Reply| (#[trigger] k(r)).only_asks(weak) by {
            only_asks_weaker(k(r), strong, weak);
        }
    }
}

/// Replies can be made in two parts.
pub proof fn answered_in_parts<S>(p: Program<S>, a: Seq<Reply>, b: Seq<Reply>)
    ensures
        p.answered(a + b) == p.answered(a).answered(b),
    decreases a.len(),
{
    if a.len() == 0 {
        assert(a + b =~= b);
    } else {
        match p {
            Program::Call(q, k) => {
                assert((a + b).drop_first() =~= a.drop_first() + b);
                answered_in_parts(k(a[0]), a.drop_first(), b);
            },
            _ => {
                assert(p.answered(a) == p);
                assert(p.answered(b) == p);
            },
        }
    }
}

/// While a first program is still asking, the replies are made to it.
pub proof fn answered_inside_bind<S, T>(p: Program<S>, f: spec_fn(S) -> Program<T>, rs: Seq<Reply>)
    requires
        forall|i: int| 0 <= i < rs.len() ==> (#[trigger] p.answered(rs.subrange(0, i))) is Call,
    ensures
        p.bind(f).answered(rs) == p.answered(rs).bind(f),
    decreases rs.len(),
{
    if rs.len() > 0 {
        assert(p.answered(rs.subrange(0, 0)) is Call);
        let k = p->Call_1;
        let rest = rs.drop_first();
        let bound = p.bind(f)->Call_1;
        assert(bound(rs[0]) == k(rs[0]).bind(f));
        assert forall|i: int| 0 <= i < rest.len() implies (
        #[trigger] k(rs[0]).answered(rest.subrange(0, i))) is Call by {
            let more = rs.subrange(0, i + 1);
            assert(p.answered(more) is Call);
            assert(more.drop_first() =~= rest.subrange(0, i));
            assert(p.answered(more) == k(more[0]).answered(more.drop_first()));
        }
        answered_inside_bind(k(rs[0]), f, rest);
    }
}

/// What is left of a request after its reply.
pub proof fn answered_once<S>(p: Program<S>, r: Reply)
    requires
        p is Call,
    ensures
        p.answered(seq![r]) == (p->Call_1)(r),
{
    let rs = seq![r];
    assert(p.answered(rs) == (p->Call_1)(rs[0]).answered(rs.drop_first()));
}

/// What holds of every result of what follows a program holds of every result of both.
pub proof fn always_after<S, T>(
    p: Program<S>,
    f: spec_fn(S) -> Program<T>,
    post: spec_fn(T) -> bool,
)
    requires
        forall|s: S| (#[trigger] f(s)).always(post),
    ensures
        p.bind(f).always(post),
    decreases p,
{
    match p {
        Program::Return(s) => {
            assert(f(s).always(post));
            assert(p.bind(f) == f(s));
        },
        Program::Fail(_) => {},
        Program::Call(q, k) => {
            let bound = p.bind(f)->Call_1;
            assert forall|r: Reply| (#[trigger] bound(r)).always(post) by {
                assert(bound(r) == k(r).bind(f));
                always_after(k(r), f, post);
            }
        },
    }
}

/// A property that is weaker than one that always holds always holds.
pub proof fn always_weaker<S>(p: Program<S>, strong: spec_fn(S) -> bool, weak: spec_fn(S) -> bool)
    requires
        p.always(strong),
        forall|s: S| #[trigger] strong(s) ==> weak(s),
    ensures
        p.always(weak),
    decreases p,
{
    match p {
        Program::Return(s) => {},
        Program::Fail(_) => {},
        Program::Call(q, k) => {
            assert forall|r: Reply| (#[trigger] k(r)).always(weak) by {
                always_weaker(k(r), strong, weak);
            }
        },
    }
}

} // verus!
