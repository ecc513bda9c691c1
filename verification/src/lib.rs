//! The pass that prepares the primitives of a frame for rendering.
//!
//! [`pass`] walks the primitives of a picture and of the pictures in it. A primitive that touches a
//! region to be drawn anew is clipped ([`clip_task`]) and then prepared by its kind ([`interned`]).
//! The pass decides and keeps the buffers; what it needs of the renderer it asks for, as
//! [`program`] describes. The modules whose names begin with `law` and `faults` prove what holds of
//! every run, whatever the renderer replies.

// The vocabulary.
pub mod conversation;
pub mod geometry;
pub mod model;
pub mod program;
pub mod scalar;
pub mod small_list;

// Clip masks and segments.
pub mod brush_clip;
pub mod clip_rect;
pub mod clip_task;
pub mod segment_build;
pub mod segment_write;

// The kinds of primitives.
pub mod gradient;
pub mod gradient_cache;
pub mod interned;
pub mod prim_border;
pub mod prim_brush;
pub mod prim_gradient;
pub mod prim_picture;
pub mod prim_text;
pub mod tiles;

// Lists of primitives.
pub mod pass;

// What holds of every run.
pub mod faults_clip;
pub mod faults_pass;
pub mod faults_prim;
pub mod kept;
pub mod law_axis;
pub mod law_clip;
pub mod law_count;
pub mod law_describe;
pub mod law_device;
pub mod law_frame;
pub mod law_gradient;
pub mod law_kinds;
pub mod law_masks;
pub mod law_numbers;
pub mod law_pass;
pub mod law_prim;
pub mod law_reversal;
pub mod law_runs;
pub mod law_segments;
pub mod law_split;
pub mod law_tiles;
