//! Turning vector paths into triangle meshes, the verified part.
//!
//! A path is recorded command by command in a [`LyonBuilder`]. Building it for
//! a fill or for a stroke checks the recorded coordinates and yields a
//! [`BuildStep`]: either the finished geometry, or a [`TessellationJob`] that
//! says exactly what a tessellator has to do. What the tessellator hands back
//! goes through [`TessellationJob::finish`], which lets only a well-formed
//! triangle list with pairwise distinct vertices through.
//!
//! Coordinates, widths and tolerances are IEEE 754 binary32 numbers. They are
//! held by their bit patterns, as `u32`, so that every rule on them is a rule
//! on integers; see [`scalar`].

pub mod distinct;
pub mod job;
pub mod mesh;
pub mod path;
pub mod point;
pub mod scalar;
pub mod stroke;

pub use job::{
    build_fill, build_stroke, build_stroke_with, BuildStep, FillRule, Operation, Pass,
    TessellationError, TessellationJob, TessellatorFailure,
};
pub use mesh::{convert_points, GeometryView, LyonGeometry, MeshDefect, VertexBuffers};
pub use path::{new_builder, LyonBuilder, Path, PathCommand};
pub use point::{LyonPoint, LyonVector};
pub use stroke::{LineCap, LineJoin, StrokeStyle};
