//! What each kind of primitive asks for when it is prepared.
use vstd::prelude::*;

use crate::geometry::{minus, over, plus, times, value, Block, Expr, IntSize, Point, Rect, Size};
use crate::gradient_cache::{cache_gradient, GradientArgs};
use crate::interned::{interned, interned_scaled};
use crate::law_tiles::repetitions_are_spaced;
use crate::model::{
    BorderSegment, BorderStyle, CachedGradientSegment, ConicGradientTemplate, IndexRange,
    InstanceModel, LineDecorationCacheKey, LinearGradientTemplate, NormalBorderTemplate,
    PictureIndex, PrimPlace, PrimitiveId, PrimitiveInstanceKind, PrimitiveVisibility,
    RadialGradientTemplate, ScratchModel, SegmentInstanceIndex, SpatialNodeIndex, SurfaceIndex,
    TaskId, Token, WorkModel,
};
use crate::prim_border::{
    border_factors, border_from, border_height, border_limit, border_sized, border_updated,
    border_width, border_world,
};
use crate::prim_brush::{brush_invalidated, brush_plan, brush_segmented, brush_updated};
use crate::prim_gradient::{
    conic_tiling, gradient_tiled, linear_cache, linear_cached, linear_mapped, linear_segmented,
    linear_spaced, linear_stretched, linear_tiling, radial_tiling, round_mapped, round_spaced,
    round_updated, tile_args, with_cache_segments, with_tiles, GradientTiling,
};
use crate::prim_picture::{
    backdrop_linked, backdrop_port, backdrop_tasks, picture_drawn, picture_plane, picture_segments,
    picture_split, picture_written,
};
use crate::prim_text::{
    line_keyed, line_shrunk, line_sized, line_task, text_glyphs, text_scaling, text_space,
    text_transform, text_updated, text_x, text_y, TextArgs,
};
use crate::program::{Fault, Program, Reply, Request, SurfaceTasks};
use crate::scalar::Scalar;
use crate::segment_write::{write_segments, SegmentSource};
use crate::tiles::{decompose, TileArgs, TileBlocks, TiledModel};

verus! {

/// Whether a program first allows the shader to repeat a primitive, or forbids it.
pub open spec fn sets_repetition(p: Program<WorkModel>, prim: PrimitiveId, repeats: bool) -> bool {
    p.asks(Request::AllowRepetition { prim, may_need_repetition: repeats })
}

/// Whether one side of a border is drawn in a style.
pub open spec fn has_side(t: NormalBorderTemplate, style: BorderStyle) -> bool {
    t.top == style || t.right == style || t.bottom == style || t.left == style
}

/// A border may be repeated by the shader if and only if any of its four sides is dotted or dashed.
/// Its tasks are drawn at the larger of the two clamped scale factors to the world times the scale
/// of the surface, but no larger than the border allows.
pub proof fn border_repeats_if_a_side_does(
    w: WorkModel,
    place: PrimPlace,
    t: NormalBorderTemplate,
    scale: Scalar,
    x: Scalar,
    y: Scalar,
    width: Scalar,
    height: Scalar,
    world: Scalar,
    most: Scalar,
)
    requires
        w.instance.kind == PrimitiveInstanceKind::NormalBorder(t),
    ensures
        ({
            let prim = w.instance.id;
            let begun = interned(w, place);
            let scaled = begun.on(Reply::Number(scale));
            let allowed = scaled.on(Reply::Ack);
            let updated = allowed.on(Reply::Ack);
            let factored = updated.on(Reply::Numbers { x, y });
            let wide = factored.on(Reply::Number(width));
            let high = wide.on(Reply::Number(height));
            let sized = high.on(Reply::Number(world));
            let limited = sized.on(Reply::Number(most));
            let larger = if width.nan() || width.less(height) {
                height
            } else {
                width
            };
            let smaller = if world.nan() || most.less(world) {
                most
            } else {
                world
            };
            &&& begun.asks(Request::DevicePixelScale { surface: place.context.surface_index })
            &&& sets_repetition(
                scaled,
                prim,
                has_side(t, BorderStyle::Dotted) || has_side(t, BorderStyle::Dashed),
            )
            &&& allowed.asks(Request::UpdateTemplate { prim })
            &&& updated.asks(Request::WorldScaleFactors { node: place.prim_spatial_node_index })
            &&& factored.asks(Request::ClampToScaleFactor { value: x })
            &&& wide.asks(Request::ClampToScaleFactor { value: y })
            &&& high.asks(Request::Evaluate(times(value(larger), value(scale))))
            &&& sized.asks(Request::MaxBorderScale { prim })
            &&& limited == border_from(w, t.border_segments@, smaller, Seq::empty())
        }),
{
    let segments = t.border_segments@;
    let node = place.prim_spatial_node_index;
    let scaled = interned(w, place).on(Reply::Number(scale));
    assert(scaled == interned_scaled(w, place, scale));
    let allowed = scaled.on(Reply::Ack);
    assert(allowed == border_updated(w, segments, node, scale));
    let updated = allowed.on(Reply::Ack);
    assert(updated == border_factors(w, segments, node, scale));
    let factored = updated.on(Reply::Numbers { x, y });
    assert(factored == border_width(w, segments, scale, x, y));
    let wide = factored.on(Reply::Number(width));
    assert(wide == border_height(w, segments, scale, y, width));
    let high = wide.on(Reply::Number(height));
    assert(high == border_world(w, segments, scale, width.larger(height)));
    assert(high.on(Reply::Number(world)) == border_limit(w, segments, world));
}

/// Which side of a border is drawn in which style makes no difference to whether it is repeated:
/// borders with the same styles on whatever sides are asked for alike.
pub proof fn sides_of_a_border_are_alike(
    a: WorkModel,
    b: WorkModel,
    place: PrimPlace,
    s: NormalBorderTemplate,
    t: NormalBorderTemplate,
    scale: Scalar,
)
    requires
        a.instance.kind == PrimitiveInstanceKind::NormalBorder(s),
        b.instance.kind == PrimitiveInstanceKind::NormalBorder(t),
        a.instance.id == b.instance.id,
        forall|style: BorderStyle| #[trigger] has_side(s, style) == has_side(t, style),
    ensures
        interned(a, place).on(Reply::Number(scale)) is Call,
        interned(b, place).on(Reply::Number(scale)) is Call,
        interned(a, place).on(Reply::Number(scale))->Call_0 == interned(b, place).on(
            Reply::Number(scale),
        )->Call_0,
{
    let n = scale;
    border_repeats_if_a_side_does(a, place, s, scale, n, n, n, n, n, n);
    border_repeats_if_a_side_does(b, place, t, scale, n, n, n, n, n, n);
    assert(has_side(s, BorderStyle::Dotted) == has_side(t, BorderStyle::Dotted));
    assert(has_side(s, BorderStyle::Dashed) == has_side(t, BorderStyle::Dashed));
}

/// Each segment of a border, in order, gets the task of its own key: of the size that its own size
/// comes to at the scale, and at the scale that this size fits, which the next segment begins with.
/// The handles are stored behind those of others, and the border keeps where they are.
pub proof fn border_segment_gets_its_own_task(
    w: WorkModel,
    segments: Seq<BorderSegment>,
    scale: Scalar,
    handles: Seq<u64>,
    size: IntSize,
    fitting: Scalar,
    handle: u64,
)
    requires
        handles.len() <= segments.len(),
    ensures
        ({
            let n = handles.len();
            let old = w.scratch.border_cache_handles;
            let p = border_from(w, segments, scale, handles);
            let sized = p.on(Reply::CacheSize { size, scale: fitting });
            if n < segments.len() {
                let segment = segments[n as int];
                &&& p.asks(Request::CacheSize { size: segment.local_task_size, scale })
                &&& sized.asks(
                    Request::BorderSegmentTask {
                        prim: w.instance.id,
                        key: segment.cache_key,
                        size,
                        scale: fitting,
                    },
                )
                &&& sized.on(Reply::TaskHandle(handle)) == border_from(
                    w,
                    segments,
                    fitting,
                    handles.push(handle),
                )
            } else {
                p == Program::Return(
                    WorkModel {
                        instance: InstanceModel {
                            cache_handles: IndexRange {
                                start: old.len() as usize,
                                end: (old.len() + n) as usize,
                            },
                            ..w.instance
                        },
                        scratch: ScratchModel {
                            border_cache_handles: old + handles,
                            ..w.scratch
                        },
                    },
                )
            }
        }),
{
    if handles.len() < segments.len() {
        let p = border_from(w, segments, scale, handles);
        assert(p.on(Reply::CacheSize { size, scale: fitting }) == border_sized(
            w,
            segments,
            handles,
            size,
            fitting,
        ));
    }
}

/// A line decoration is updated first. A solid one, which has no key, needs nothing more. Any other
/// gets a task of its own key, of its size in device pixels rounded up; where that exceeds the
/// limit in either extent, the size is scaled by the limit over the larger extent before it is
/// rounded.
pub proof fn line_gets_a_task_within_the_limit(
    w: WorkModel,
    place: PrimPlace,
    cache_key: Option<LineDecorationCacheKey>,
    scale: Scalar,
    size: IntSize,
    shrink: Scalar,
    shrunk: IntSize,
    handle: u64,
)
    requires
        w.instance.kind == (PrimitiveInstanceKind::LineDecoration { cache_key }),
    ensures
        ({
            let limit = place.limits.max_line_decoration_resolution;
            let begun = interned(w, place);
            let scaled = begun.on(Reply::Number(scale));
            let updated = scaled.on(Reply::Ack);
            let sized = updated.on(Reply::IntSize(size));
            let large = size.width > limit || size.height > limit;
            let largest = if size.width > size.height {
                size.width
            } else {
                size.height
            };
            let resized = if large {
                sized.on(Reply::Number(shrink)).on(Reply::IntSize(shrunk))
            } else {
                sized
            };
            &&& begun.asks(Request::DevicePixelScale { surface: place.context.surface_index })
            &&& scaled.asks(Request::UpdateTemplate { prim: w.instance.id })
            &&& match cache_key {
                None => updated == Program::Return(w),
                Some(key) => {
                    &&& updated.asks(Request::CeilTaskSize { size: key.size, scale, shrink: None })
                    &&& large ==> {
                        &&& sized.asks(
                            Request::Evaluate(over(Expr::Whole(limit), Expr::Whole(largest))),
                        )
                        &&& sized.on(Reply::Number(shrink)).asks(
                            Request::CeilTaskSize {
                                size: key.size,
                                scale,
                                shrink: Some(shrink),
                            },
                        )
                    }
                    &&& resized.asks(
                        Request::LineDecorationTask {
                            size: if large {
                                shrunk
                            } else {
                                size
                            },
                            key,
                        },
                    )
                    &&& resized.on(Reply::TaskHandle(handle)) == Program::Return(
                        WorkModel {
                            instance: InstanceModel { cache_handle: Some(handle), ..w.instance },
                            ..w
                        },
                    )
                },
            }
        }),
{
    let limit = place.limits.max_line_decoration_resolution;
    let scaled = interned(w, place).on(Reply::Number(scale));
    assert(scaled == interned_scaled(w, place, scale));
    let updated = scaled.on(Reply::Ack);
    assert(updated == line_keyed(w, cache_key, scale, limit));
    if let Some(key) = cache_key {
        let sized = updated.on(Reply::IntSize(size));
        assert(sized == line_sized(w, key, scale, limit, size));
        if size.width > limit || size.height > limit {
            let shrinking = sized.on(Reply::Number(shrink));
            assert(shrinking == line_shrunk(w, key, scale, shrink));
            assert(shrinking.on(Reply::IntSize(shrunk)) == line_task(w, key, shrunk));
        } else {
            assert(sized == line_task(w, key, size));
        }
    }
}

/// A run of text is never repeated by the shader. Its glyphs are requested for the transform from
/// its node to the node of the raster, at the offset of its origin from its reference frame, within
/// its clip rectangle, in the raster space and at the scaling factor of the picture, which is one
/// where the picture is not rasterised on its own. Then the template is updated.
pub proof fn text_requests_its_glyphs(
    w: WorkModel,
    place: PrimPlace,
    prim_origin: Point,
    reference_frame_relative_offset: Point,
    info: PrimitiveVisibility,
    scale: Scalar,
    transform: Token,
    x: Scalar,
    y: Scalar,
    space: Token,
    factor: Option<Scalar>,
)
    requires
        w.instance.kind == (PrimitiveInstanceKind::TextRun {
            prim_origin,
            reference_frame_relative_offset,
        }),
        w.instance.visibility_info == Some(info),
    ensures
        ({
            let prim = w.instance.id;
            let context = place.context;
            let offset = reference_frame_relative_offset;
            let begun = interned(w, place);
            let scaled = begun.on(Reply::Number(scale));
            let forbidden = scaled.on(Reply::Ack);
            let transformed = forbidden.on(Reply::Token(transform));
            let across = transformed.on(Reply::Number(x));
            let down = across.on(Reply::Number(y));
            let spaced = down.on(Reply::Token(space));
            let factored = spaced.on(Reply::MaybeNumber(factor));
            let requested = factored.on(Reply::Ack);
            &&& begun.asks(Request::DevicePixelScale { surface: context.surface_index })
            &&& sets_repetition(scaled, prim, false)
            &&& forbidden.asks(
                Request::RelativeTransform {
                    from: place.prim_spatial_node_index,
                    to: context.raster_spatial_node_index,
                },
            )
            &&& transformed.asks(
                Request::Evaluate(minus(value(prim_origin.x), value(offset.x))),
            )
            &&& across.asks(Request::Evaluate(minus(value(prim_origin.y), value(offset.y))))
            &&& down.asks(Request::RasterSpace { pic_index: context.pic_index })
            &&& spaced.asks(Request::RootScalingFactor { pic_index: context.pic_index })
            &&& factored.asks(
                Request::RequestGlyphs {
                    prim,
                    prim_offset: Point { x, y },
                    pic_clip_rect: info.clip_chain.pic_clip_rect,
                    transform,
                    surface: context.surface_index,
                    node: place.prim_spatial_node_index,
                    raster_space: space,
                    root_scaling_factor: match factor {
                        Some(factor) => factor,
                        None => Scalar { bits: 0x3f80_0000 },
                    },
                    subpixel_mode: context.subpixel_mode,
                },
            )
            &&& requested.asks(Request::UpdateTemplate { prim })
            &&& requested.on(Reply::Ack) == Program::Return(w)
        }),
{
    let a = TextArgs {
        prim_origin,
        reference_frame_relative_offset,
        pic_clip_rect: info.clip_chain.pic_clip_rect,
        place,
    };
    let scaled = interned(w, place).on(Reply::Number(scale));
    assert(scaled == interned_scaled(w, place, scale));
    let forbidden = scaled.on(Reply::Ack);
    assert(forbidden == text_transform(w, a));
    let transformed = forbidden.on(Reply::Token(transform));
    assert(transformed == text_x(w, a, transform));
    let across = transformed.on(Reply::Number(x));
    assert(across == text_y(w, a, transform, x));
    let down = across.on(Reply::Number(y));
    assert(down == text_space(w, a, transform, Point { x, y }));
    let spaced = down.on(Reply::Token(space));
    assert(spaced == text_scaling(w, a, transform, Point { x, y }, space));
    let factored = spaced.on(Reply::MaybeNumber(factor));
    assert(factored == text_glyphs(w, a, transform, Point { x, y }, space, factor));
    assert(factored.on(Reply::Ack) == text_updated(w));
}

/// Text and pictures that are culled cannot be prepared.
pub proof fn culled_text_and_pictures_are_a_fault(w: WorkModel, place: PrimPlace, scale: Scalar)
    requires
        w.instance.visibility_info is None,
        w.instance.kind is TextRun || w.instance.kind is Picture,
    ensures
        interned(w, place).on(Reply::Number(scale)) == Program::<WorkModel>::Fail(
            Fault::NotVisible,
        ),
{
    assert(interned(w, place).on(Reply::Number(scale)) == interned_scaled(w, place, scale));
}

/// Whether this is how a brush goes on: its template is updated, and then its segments are written
/// where it may have any.
pub open spec fn updates_a_brush(p: Program<WorkModel>, w: WorkModel, segmented: bool) -> bool {
    let instance = w.instance;
    let written = |scratch: ScratchModel| Program::Return(WorkModel { instance, scratch });
    &&& p.asks(Request::UpdateTemplate { prim: instance.id })
    &&& p.on(Reply::Ack) == if segmented {
        write_segments(
            w.scratch,
            instance.segment_instance_index,
            SegmentSource::Template(instance.id),
        ).bind(written)
    } else {
        Program::Return(w)
    }
}

/// The shader does not repeat rectangles, video frames and what is cleared, nor an image that is
/// stretched over its whole primitive; of other images and of image borders nothing is said. A
/// rectangle whose colour is animated has what the GPU cache holds of it invalidated: the data of
/// its segments, or that of its template where it is drawn as a whole. Then the template is
/// updated, and rectangles, video frames and images have their segments written.
pub proof fn brushes_are_updated(w: WorkModel, place: PrimPlace, scale: Scalar)
    ensures
        ({
            let prim = w.instance.id;
            let begun = interned(w, place);
            let scaled = begun.on(Reply::Number(scale));
            let forbidden = scaled.on(Reply::Ack);
            let segmented = w.scratch.segment_instances;
            &&& begun.asks(Request::DevicePixelScale { surface: place.context.surface_index })
            &&& match w.instance.kind {
                PrimitiveInstanceKind::Rectangle { color_binding } => {
                    &&& sets_repetition(scaled, prim, false)
                    &&& if color_binding is Binding {
                        match w.instance.segment_instance_index {
                            SegmentInstanceIndex::Invalid => updates_a_brush(forbidden, w, true),
                            SegmentInstanceIndex::Unused => {
                                &&& forbidden.asks(Request::InvalidateTemplateBlocks { prim })
                                &&& updates_a_brush(forbidden.on(Reply::Ack), w, true)
                            },
                            SegmentInstanceIndex::At(k) => if k < segmented.len() {
                                &&& forbidden.asks(
                                    Request::InvalidateGpuBlocks {
                                        handle: segmented[k as int].gpu_cache_handle,
                                    },
                                )
                                &&& updates_a_brush(forbidden.on(Reply::Ack), w, true)
                            } else {
                                forbidden == Program::<WorkModel>::Fail(Fault::NoSegments)
                            },
                        }
                    } else {
                        updates_a_brush(forbidden, w, true)
                    }
                },
                PrimitiveInstanceKind::YuvImage => {
                    &&& sets_repetition(scaled, prim, false)
                    &&& updates_a_brush(forbidden, w, true)
                },
                PrimitiveInstanceKind::Image { stretch_size, prim_size } => if
                prim_size.width.at_most(stretch_size.width) && prim_size.height.at_most(
                    stretch_size.height,
                ) {
                    &&& sets_repetition(scaled, prim, false)
                    &&& updates_a_brush(forbidden, w, true)
                } else {
                    updates_a_brush(scaled, w, true)
                },
                PrimitiveInstanceKind::Clear => {
                    &&& sets_repetition(scaled, prim, false)
                    &&& updates_a_brush(forbidden, w, false)
                },
                PrimitiveInstanceKind::ImageBorder { .. } => updates_a_brush(scaled, w, false),
                _ => true,
            }
        }),
{
    let plan = brush_plan(w.instance.kind);
    let scaled = interned(w, place).on(Reply::Number(scale));
    assert(scaled == interned_scaled(w, place, scale));
    let updated = brush_updated(w, plan);
    assert(updated.on(Reply::Ack) == brush_segmented(w, plan));
    let instance = w.instance;
    let written = |scratch: ScratchModel| Program::Return(WorkModel { instance, scratch });
    let inner = write_segments(
        w.scratch,
        instance.segment_instance_index,
        SegmentSource::Template(instance.id),
    );
    assert(crate::prim_brush::segments_written(instance, inner) == inner.bind(written));
    if w.instance.kind is Rectangle || w.instance.kind is YuvImage || w.instance.kind is Image
        || w.instance.kind is Clear || w.instance.kind is ImageBorder {
        if plan.forbids_repetition {
            assert(scaled.on(Reply::Ack) == brush_invalidated(w, plan));
        } else {
            assert(scaled == brush_invalidated(w, plan));
        }
    }
}

/// Whether this is how a picture goes on whose plane is added where it has to be: its segments are
/// written, behind the blocks of a picture, if it can use them.
pub open spec fn writes_a_picture(
    p: Program<WorkModel>,
    w: WorkModel,
    pic_index: PictureIndex,
) -> bool {
    let instance = w.instance;
    let written = |scratch: ScratchModel| Program::Return(WorkModel { instance, scratch });
    &&& p.asks(Request::CanUseSegments { pic_index })
    &&& p.on(Reply::Flag(false)) == Program::Return(w)
    &&& p.on(Reply::Flag(true)) == write_segments(
        w.scratch,
        instance.segment_instance_index,
        SegmentSource::Picture,
    ).bind(written)
}

/// A picture that need not be drawn is culled. Where the picture it stands in splits planes, its
/// plane is added, with its node, its clip rectangle, the bounds of the dirty regions, and where it
/// stands in the list.
pub proof fn picture_adds_its_plane(
    w: WorkModel,
    place: PrimPlace,
    pic_index: PictureIndex,
    info: PrimitiveVisibility,
    scale: Scalar,
    dirty: Rect,
)
    requires
        w.instance.kind == (PrimitiveInstanceKind::Picture { pic_index }),
        w.instance.visibility_info == Some(info),
    ensures
        ({
            let begun = interned(w, place);
            let scaled = begun.on(Reply::Number(scale));
            let drawn = scaled.on(Reply::Flag(true));
            let split = drawn.on(Reply::Flag(true));
            let bounded = split.on(Reply::Rect(dirty));
            &&& begun.asks(Request::DevicePixelScale { surface: place.context.surface_index })
            &&& scaled.asks(Request::PreparePicture { pic_index })
            &&& scaled.on(Reply::Flag(false)) == Program::Return(
                WorkModel {
                    instance: InstanceModel { visibility_info: None, ..w.instance },
                    ..w
                },
            )
            &&& drawn.asks(Request::HasPlaneSplitter { state: place.context.state })
            &&& writes_a_picture(drawn.on(Reply::Flag(false)), w, pic_index)
            &&& split.asks(Request::DirtyRegionBounds)
            &&& bounded.asks(
                Request::AddSplitPlane {
                    state: place.context.state,
                    node: place.prim_spatial_node_index,
                    pic_index,
                    combined_local_clip_rect: info.combined_local_clip_rect,
                    dirty_rect: dirty,
                    anchor: place.plane_split_anchor,
                },
            )
            &&& writes_a_picture(bounded.on(Reply::Ack), w, pic_index)
        }),
{
    let scaled = interned(w, place).on(Reply::Number(scale));
    assert(scaled == interned_scaled(w, place, scale));
    let drawn = scaled.on(Reply::Flag(true));
    assert(drawn == picture_drawn(w, pic_index, place, info, true));
    assert(scaled.on(Reply::Flag(false)) == picture_drawn(w, pic_index, place, info, false));
    let split = drawn.on(Reply::Flag(true));
    assert(split == picture_split(w, pic_index, place, info, true));
    assert(drawn.on(Reply::Flag(false)) == picture_segments(w, pic_index));
    let bounded = split.on(Reply::Rect(dirty));
    assert(bounded == picture_plane(w, pic_index, place, info, dirty));
    assert(bounded.on(Reply::Ack) == picture_segments(w, pic_index));
    let instance = w.instance;
    let written = |scratch: ScratchModel| Program::Return(WorkModel { instance, scratch });
    let inner = write_segments(
        w.scratch,
        instance.segment_instance_index,
        SegmentSource::Picture,
    );
    assert(crate::prim_brush::segments_written(instance, inner) == inner.bind(written));
    assert(picture_segments(w, pic_index).on(Reply::Flag(true)) == picture_written(w, true));
}

/// A backdrop makes the port of the surface that it is drawn on depend on the root task of the
/// picture behind it. Where that picture has no tasks, the backdrop is culled.
pub proof fn backdrop_waits_for_the_picture_behind(
    w: WorkModel,
    place: PrimPlace,
    pic_index: PictureIndex,
    scale: Scalar,
    behind: SurfaceIndex,
    tasks: SurfaceTasks,
    port: TaskId,
)
    requires
        w.instance.kind == (PrimitiveInstanceKind::Backdrop { pic_index }),
    ensures
        ({
            let surface = place.context.surface_index;
            let begun = interned(w, place);
            let scaled = begun.on(Reply::Number(scale));
            let found = scaled.on(Reply::Surface(behind));
            let some = found.on(Reply::MaybeTasks(Some(tasks)));
            let linked = some.on(Reply::Task(port));
            &&& begun.asks(Request::DevicePixelScale { surface })
            &&& scaled.asks(Request::PictureSurface { pic_index })
            &&& found.asks(Request::SurfaceRenderTasks { surface: behind })
            &&& found.on(Reply::MaybeTasks(None)) == Program::Return(
                WorkModel {
                    instance: InstanceModel { visibility_info: None, ..w.instance },
                    ..w
                },
            )
            &&& some.asks(Request::SurfacePort { surface })
            &&& linked.asks(Request::AddDependency { parent: port, child: tasks.root })
            &&& linked.on(Reply::Ack) == Program::Return(w)
        }),
{
    let surface = place.context.surface_index;
    let scaled = interned(w, place).on(Reply::Number(scale));
    assert(scaled == interned_scaled(w, place, scale));
    let found = scaled.on(Reply::Surface(behind));
    assert(found == backdrop_tasks(w, surface, behind));
    assert(found.on(Reply::MaybeTasks(None)) == backdrop_port(w, surface, None));
    let some = found.on(Reply::MaybeTasks(Some(tasks)));
    assert(some == backdrop_port(w, surface, Some(tasks)));
    assert(some.on(Reply::Task(port)) == backdrop_linked(w, tasks.root, port));
}

/// What the repetitions of a gradient are found with: the rectangle, the stretch and the spacing of
/// the template, and what was found of its visibility.
pub open spec fn repetitions_of(
    info: PrimitiveVisibility,
    prim_rect: Rect,
    stretch_size: Size,
    tile_spacing: Size,
    blocks: TileBlocks,
    mapper: Token,
) -> TileArgs {
    TileArgs {
        combined_local_clip_rect: info.combined_local_clip_rect,
        prim_local_rect: prim_rect,
        prim_world_rect: info.clipped_world_rect,
        stretch_size,
        tile_spacing,
        mapper,
        blocks,
    }
}

/// Whether this is how the repetitions of a gradient are collected: they are kept by the primitive,
/// which is culled if there are none.
pub open spec fn keeps_repetitions(p: Program<WorkModel>, w: WorkModel, t: TileArgs) -> bool {
    let instance = w.instance;
    let kept = |tiled: TiledModel|
        Program::Return(
            WorkModel {
                instance: InstanceModel {
                    visible_tiles_range: tiled.range,
                    visibility_info: if tiled.range.start < tiled.range.end {
                        instance.visibility_info
                    } else {
                        None
                    },
                    ..instance
                },
                scratch: tiled.scratch,
            },
        );
    p == decompose(w.scratch, t).bind(kept)
}

proof fn repetitions_are_kept(w: WorkModel, t: TileArgs)
    ensures
        keeps_repetitions(gradient_tiled(w.instance, decompose(w.scratch, t)), w, t),
{
    let instance = w.instance;
    let kept = |tiled: TiledModel|
        Program::Return(
            WorkModel {
                instance: InstanceModel {
                    visible_tiles_range: tiled.range,
                    visibility_info: if tiled.range.start < tiled.range.end {
                        instance.visibility_info
                    } else {
                        None
                    },
                    ..instance
                },
                scratch: tiled.scratch,
            },
        );
    let spoken = |tiled: TiledModel| Program::Return(with_tiles(instance, tiled));
    assert(spoken =~= kept);
    let inner = decompose(w.scratch, t);
    assert(gradient_tiled(instance, inner) == inner.bind(spoken));
}

/// Whether no space is left between the repetitions of a gradient.
pub open spec fn no_space(tile_spacing: Size) -> bool {
    let zero = Scalar { bits: 0 };
    tile_spacing.width.same(zero) && tile_spacing.height.same(zero)
}

/// Whether a gradient is stretched over the whole of its primitive.
pub open spec fn fills(stretch_size: Size, prim_rect: Rect) -> bool {
    prim_rect.size.width.at_most(stretch_size.width) && prim_rect.size.height.at_most(
        stretch_size.height,
    )
}

/// Whether this is how a radial or conic gradient is prepared: the shader does not repeat one that
/// fills its primitive, the template is updated, and where there is space between the repetitions
/// those that are visible are collected instead of being repeated by the shader.
pub open spec fn prepares_round(
    scaled: Program<WorkModel>,
    w: WorkModel,
    node: SpatialNodeIndex,
    prim_rect: Rect,
    stretch_size: Size,
    tile_spacing: Size,
    blocks: TileBlocks,
    mapper: Token,
) -> bool {
    let prim = w.instance.id;
    let begun = if fills(stretch_size, prim_rect) {
        scaled.on(Reply::Ack)
    } else {
        scaled
    };
    let updated = begun.on(Reply::Ack);
    let mapped = updated.on(Reply::Token(mapper));
    &&& fills(stretch_size, prim_rect) ==> sets_repetition(scaled, prim, false)
    &&& begun.asks(Request::UpdateTemplate { prim })
    &&& if no_space(tile_spacing) {
        updated == Program::Return(w)
    } else {
        match w.instance.visibility_info {
            None => updated == Program::<WorkModel>::Fail(Fault::NotVisible),
            Some(info) => {
                &&& updated.asks(Request::LocalToWorldMapper { node })
                &&& sets_repetition(mapped, prim, false)
                &&& keeps_repetitions(
                    mapped.on(Reply::Ack),
                    w,
                    repetitions_of(info, prim_rect, stretch_size, tile_spacing, blocks, mapper),
                )
            },
        }
    }
}

proof fn round_is_prepared(
    w: WorkModel,
    tiling: GradientTiling,
    mapper: Token,
)
    ensures
        prepares_round(
            crate::prim_gradient::round_gradient(w, tiling),
            w,
            tiling.node,
            tiling.prim_rect,
            tiling.stretch_size,
            tiling.tile_spacing,
            tiling.blocks,
            mapper,
        ),
{
    let updated = round_updated(w, tiling);
    let spaced = round_spaced(w, tiling);
    assert(updated.on(Reply::Ack) == spaced);
    if let Some(info) = w.instance.visibility_info {
        let t = tile_args(tiling, info, mapper);
        repetitions_are_kept(w, t);
        if !no_space(tiling.tile_spacing) {
            let mapped = spaced.on(Reply::Token(mapper));
            assert(mapped == round_mapped(w, t));
            assert(mapped.on(Reply::Ack) == gradient_tiled(w.instance, decompose(w.scratch, t)));
        }
    }
}

/// A radial gradient is prepared from its template: its repetitions are as far apart as its stretch
/// and its spacing say, and for each the GPU cache gets the centre and the radii, and the ratio of
/// the axes, the extend mode and the stretch.
pub proof fn radial_gradient_is_prepared(
    w: WorkModel,
    place: PrimPlace,
    t: RadialGradientTemplate,
    scale: Scalar,
    mapper: Token,
)
    requires
        w.instance.kind == PrimitiveInstanceKind::RadialGradient(t),
    ensures
        interned(w, place).asks(
            Request::DevicePixelScale { surface: place.context.surface_index },
        ),
        prepares_round(
            interned(w, place).on(Reply::Number(scale)),
            w,
            place.prim_spatial_node_index,
            t.prim_rect,
            t.stretch_size,
            t.tile_spacing,
            TileBlocks {
                first: Block { x: t.center.x, y: t.center.y, z: t.start_radius, w: t.end_radius },
                lead: Some(t.ratio_xy),
                extend_mode: t.extend_mode,
                stretch_size: t.stretch_size,
            },
            mapper,
        ),
{
    assert(interned(w, place).on(Reply::Number(scale)) == interned_scaled(w, place, scale));
    round_is_prepared(w, radial_tiling(t, place.prim_spatial_node_index), mapper);
}

/// A conic gradient is prepared from its template: its repetitions are as far apart as its stretch
/// and its spacing say, and for each the GPU cache gets the centre and the offsets, and the angle,
/// the extend mode and the stretch.
pub proof fn conic_gradient_is_prepared(
    w: WorkModel,
    place: PrimPlace,
    t: ConicGradientTemplate,
    scale: Scalar,
    mapper: Token,
)
    requires
        w.instance.kind == PrimitiveInstanceKind::ConicGradient(t),
    ensures
        interned(w, place).asks(
            Request::DevicePixelScale { surface: place.context.surface_index },
        ),
        prepares_round(
            interned(w, place).on(Reply::Number(scale)),
            w,
            place.prim_spatial_node_index,
            t.prim_rect,
            t.stretch_size,
            t.tile_spacing,
            TileBlocks {
                first: Block { x: t.center.x, y: t.center.y, z: t.start_offset, w: t.end_offset },
                lead: Some(t.angle),
                extend_mode: t.extend_mode,
                stretch_size: t.stretch_size,
            },
            mapper,
        ),
{
    assert(interned(w, place).on(Reply::Number(scale)) == interned_scaled(w, place, scale));
    round_is_prepared(w, conic_tiling(t, place.prim_spatial_node_index), mapper);
}

/// The blocks of a linear gradient: its points, and its extend mode and its stretch.
pub open spec fn blocks_of_linear(t: LinearGradientTemplate) -> TileBlocks {
    TileBlocks {
        first: Block {
            x: t.start_point.x,
            y: t.start_point.y,
            z: t.end_point.x,
            w: t.end_point.y,
        },
        lead: None,
        extend_mode: t.extend_mode,
        stretch_size: t.stretch_size,
    }
}

/// Whether this is how the repetitions of a linear gradient are prepared: only where there is space
/// between them, and then not by the shader.
pub open spec fn repeats_linear(
    p: Program<WorkModel>,
    w: WorkModel,
    node: SpatialNodeIndex,
    t: LinearGradientTemplate,
    mapper: Token,
) -> bool {
    let forbidden = p.on(Reply::Ack);
    if no_space(t.tile_spacing) {
        p == Program::Return(w)
    } else {
        &&& sets_repetition(p, w.instance.id, false)
        &&& match w.instance.visibility_info {
            None => forbidden == Program::<WorkModel>::Fail(Fault::NotVisible),
            Some(info) => {
                &&& forbidden.asks(Request::LocalToWorldMapper { node })
                &&& keeps_repetitions(
                    forbidden.on(Reply::Token(mapper)),
                    w,
                    repetitions_of(
                        info,
                        t.prim_rect,
                        t.stretch_size,
                        t.tile_spacing,
                        blocks_of_linear(t),
                        mapper,
                    ),
                )
            },
        }
    }
}

proof fn linear_is_repeated(
    w: WorkModel,
    node: SpatialNodeIndex,
    t: LinearGradientTemplate,
    mapper: Token,
)
    ensures
        repeats_linear(linear_spaced(w, linear_tiling(t, node)), w, node, t, mapper),
{
    let tiling = linear_tiling(t, node);
    let p = linear_spaced(w, tiling);
    if !no_space(t.tile_spacing) {
        let forbidden = p.on(Reply::Ack);
        assert(forbidden == linear_mapped(w, tiling));
        if let Some(info) = w.instance.visibility_info {
            let args = tile_args(tiling, info, mapper);
            repetitions_are_kept(w, args);
            assert(forbidden.on(Reply::Token(mapper)) == gradient_tiled(
                w.instance,
                decompose(w.scratch, args),
            ));
        }
    }
}

/// A linear gradient is prepared from its template: the template is updated, the shader does not
/// repeat one that fills its primitive, and one that can be cached is drawn from the segments that
/// are cached for its rectangle, its points, its stops and its modes. Its repetitions are as far
/// apart as its stretch and its spacing say.
pub proof fn linear_gradient_is_prepared(
    w: WorkModel,
    place: PrimPlace,
    t: LinearGradientTemplate,
    scale: Scalar,
    segments: Seq<CachedGradientSegment>,
    mapper: Token,
)
    requires
        w.instance.kind == PrimitiveInstanceKind::LinearGradient(t),
    ensures
        ({
            let node = place.prim_spatial_node_index;
            let begun = interned(w, place);
            let scaled = begun.on(Reply::Number(scale));
            let updated = scaled.on(Reply::Ack);
            let stretched = if fills(t.stretch_size, t.prim_rect) {
                updated.on(Reply::Ack)
            } else {
                updated
            };
            let g = GradientArgs {
                prim_rect: t.prim_rect,
                start_point: t.start_point,
                end_point: t.end_point,
                extend_mode: t.extend_mode,
                reverse_stops: t.reverse_stops,
                is_opaque: t.is_opaque,
                texture_region_dimensions: place.limits.texture_region_dimensions,
            };
            let after = |found: Seq<CachedGradientSegment>|
                linear_spaced(with_cache_segments(w, found), linear_tiling(t, node));
            let cached = WorkModel {
                instance: InstanceModel { cache_segments: segments, ..w.instance },
                ..w
            };
            &&& begun.asks(Request::DevicePixelScale { surface: place.context.surface_index })
            &&& scaled.asks(Request::UpdateTemplate { prim: w.instance.id })
            &&& fills(t.stretch_size, t.prim_rect) ==> sets_repetition(
                updated,
                w.instance.id,
                false,
            )
            &&& if t.supports_caching {
                &&& stretched == cache_gradient(g, t.stops@).bind(after)
                &&& repeats_linear(after(segments), cached, node, t, mapper)
            } else {
                repeats_linear(stretched, w, node, t, mapper)
            }
        }),
{
    let node = place.prim_spatial_node_index;
    let tiling = linear_tiling(t, node);
    let cache = linear_cache(t, place.limits);
    let scaled = interned(w, place).on(Reply::Number(scale));
    assert(scaled == interned_scaled(w, place, scale));
    let updated = scaled.on(Reply::Ack);
    assert(updated == linear_stretched(w, tiling, cache));
    if fills(t.stretch_size, t.prim_rect) {
        assert(updated.on(Reply::Ack) == linear_cached(w, tiling, cache));
    } else {
        assert(updated == linear_cached(w, tiling, cache));
    }
    let cached = WorkModel {
        instance: InstanceModel { cache_segments: segments, ..w.instance },
        ..w
    };
    assert(with_cache_segments(w, segments) == cached);
    linear_is_repeated(w, node, t, mapper);
    linear_is_repeated(cached, node, t, mapper);
    if let Some((g, stops)) = cache {
        let after = |found: Seq<CachedGradientSegment>|
            linear_spaced(with_cache_segments(w, found), tiling);
        let inner = cache_gradient(g, stops);
        assert(linear_segmented(w, tiling, inner) == inner.bind(after));
    }
}

/// Whether a program asks for the repetitions of a gradient with this rectangle, stretch and
/// spacing: once what is in the clip rectangle and what of it may be seen is known, the distance
/// from one repetition to the next is the stretch plus the spacing, in each direction.
pub open spec fn steps_by_stretch_and_spacing(
    p: Program<WorkModel>,
    prim_rect: Rect,
    stretch_size: Size,
    tile_spacing: Size,
    tight: Rect,
    visible: Rect,
    width: Scalar,
    height: Scalar,
) -> bool {
    let seen = p.on(Reply::MaybeRect(Some(tight))).on(Reply::Rect(visible));
    let wide = seen.on(Reply::Number(width));
    let high = wide.on(Reply::Number(height));
    &&& seen.asks(Request::Evaluate(plus(value(stretch_size.width), value(tile_spacing.width))))
    &&& wide.asks(
        Request::Evaluate(plus(value(stretch_size.height), value(tile_spacing.height))),
    )
    &&& high.asks(
        Request::Repetitions {
            prim_rect,
            visible_rect: visible,
            stride: Size { width, height },
        },
    )
}

proof fn kept_repetitions_are_spaced(
    p: Program<WorkModel>,
    w: WorkModel,
    t: TileArgs,
    tight: Rect,
    visible: Rect,
    width: Scalar,
    height: Scalar,
    origins: Vec<Point>,
)
    requires
        keeps_repetitions(p, w, t),
    ensures
        steps_by_stretch_and_spacing(
            p,
            t.prim_local_rect,
            t.stretch_size,
            t.tile_spacing,
            tight,
            visible,
            width,
            height,
        ),
{
    let instance = w.instance;
    let kept = |tiled: TiledModel|
        Program::Return(
            WorkModel {
                instance: InstanceModel {
                    visible_tiles_range: tiled.range,
                    visibility_info: if tiled.range.start < tiled.range.end {
                        instance.visibility_info
                    } else {
                        None
                    },
                    ..instance
                },
                scratch: tiled.scratch,
            },
        );
    repetitions_are_spaced(w.scratch, t, kept, tight, visible, width, height, origins);
}

/// The repetitions of a gradient with space between them follow each other at the stretch of its
/// template plus the spacing of its template.
pub proof fn repetitions_step_as_the_template_says(
    w: WorkModel,
    place: PrimPlace,
    scale: Scalar,
    mapper: Token,
    tight: Rect,
    visible: Rect,
    width: Scalar,
    height: Scalar,
    origins: Vec<Point>,
)
    requires
        w.instance.visibility_info is Some,
    ensures
        ({
            let scaled = interned(w, place).on(Reply::Number(scale));
            match w.instance.kind {
                PrimitiveInstanceKind::RadialGradient(t) => !no_space(t.tile_spacing) ==> {
                    let begun = if fills(t.stretch_size, t.prim_rect) {
                        scaled.on(Reply::Ack)
                    } else {
                        scaled
                    };
                    steps_by_stretch_and_spacing(
                        begun.on(Reply::Ack).on(Reply::Token(mapper)).on(Reply::Ack),
                        t.prim_rect,
                        t.stretch_size,
                        t.tile_spacing,
                        tight,
                        visible,
                        width,
                        height,
                    )
                },
                PrimitiveInstanceKind::ConicGradient(t) => !no_space(t.tile_spacing) ==> {
                    let begun = if fills(t.stretch_size, t.prim_rect) {
                        scaled.on(Reply::Ack)
                    } else {
                        scaled
                    };
                    steps_by_stretch_and_spacing(
                        begun.on(Reply::Ack).on(Reply::Token(mapper)).on(Reply::Ack),
                        t.prim_rect,
                        t.stretch_size,
                        t.tile_spacing,
                        tight,
                        visible,
                        width,
                        height,
                    )
                },
                PrimitiveInstanceKind::LinearGradient(t) => !t.supports_caching && !no_space(
                    t.tile_spacing,
                ) ==> {
                    let updated = scaled.on(Reply::Ack);
                    let stretched = if fills(t.stretch_size, t.prim_rect) {
                        updated.on(Reply::Ack)
                    } else {
                        updated
                    };
                    steps_by_stretch_and_spacing(
                        stretched.on(Reply::Ack).on(Reply::Token(mapper)),
                        t.prim_rect,
                        t.stretch_size,
                        t.tile_spacing,
                        tight,
                        visible,
                        width,
                        height,
                    )
                },
                _ => true,
            }
        }),
{
    let info = w.instance.visibility_info->0;
    let scaled = interned(w, place).on(Reply::Number(scale));
    match w.instance.kind {
        PrimitiveInstanceKind::RadialGradient(t) => {
            if !no_space(t.tile_spacing) {
                let begun = if fills(t.stretch_size, t.prim_rect) {
                    scaled.on(Reply::Ack)
                } else {
                    scaled
                };
                radial_gradient_is_prepared(w, place, t, scale, mapper);
                let blocks = radial_tiling(t, place.prim_spatial_node_index).blocks;
                kept_repetitions_are_spaced(
                    begun.on(Reply::Ack).on(Reply::Token(mapper)).on(Reply::Ack),
                    w,
                    repetitions_of(
                        info,
                        t.prim_rect,
                        t.stretch_size,
                        t.tile_spacing,
                        blocks,
                        mapper,
                    ),
                    tight,
                    visible,
                    width,
                    height,
                    origins,
                );
            }
        },
        PrimitiveInstanceKind::ConicGradient(t) => {
            if !no_space(t.tile_spacing) {
                let begun = if fills(t.stretch_size, t.prim_rect) {
                    scaled.on(Reply::Ack)
                } else {
                    scaled
                };
                conic_gradient_is_prepared(w, place, t, scale, mapper);
                let blocks = conic_tiling(t, place.prim_spatial_node_index).blocks;
                kept_repetitions_are_spaced(
                    begun.on(Reply::Ack).on(Reply::Token(mapper)).on(Reply::Ack),
                    w,
                    repetitions_of(
                        info,
                        t.prim_rect,
                        t.stretch_size,
                        t.tile_spacing,
                        blocks,
                        mapper,
                    ),
                    tight,
                    visible,
                    width,
                    height,
                    origins,
                );
            }
        },
        PrimitiveInstanceKind::LinearGradient(t) => {
            if !t.supports_caching && !no_space(t.tile_spacing) {
                let updated = scaled.on(Reply::Ack);
                let stretched = if fills(t.stretch_size, t.prim_rect) {
                    updated.on(Reply::Ack)
                } else {
                    updated
                };
                linear_gradient_is_prepared(w, place, t, scale, Seq::empty(), mapper);
                kept_repetitions_are_spaced(
                    stretched.on(Reply::Ack).on(Reply::Token(mapper)),
                    w,
                    repetitions_of(
                        info,
                        t.prim_rect,
                        t.stretch_size,
                        t.tile_spacing,
                        blocks_of_linear(t),
                        mapper,
                    ),
                    tight,
                    visible,
                    width,
                    height,
                    origins,
                );
            }
        },
        _ => {},
    }
}

} // verus!
