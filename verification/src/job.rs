//! From a recorded path to a finished mesh, in two steps around the
//! tessellator.
//!
//! [`build_fill`] and [`build_stroke`] check the path and say what is to be
//! done with it. Where a tessellator has to run, they hand out a
//! [`TessellationJob`]; its [`finish`](TessellationJob::finish) takes what the
//! tessellator gave and decides what the caller gets.

use vstd::prelude::*;
use crate::distinct::pairwise_distinct;
use crate::mesh::{
    convert_points, lemma_deduplication_keeps_triangles, lemma_same_corners_after_deduplication,
    GeometryView, LyonGeometry, MeshDefect, VertexBuffers,
};
use crate::path::{all_finite, LyonBuilder, Path, PathCommand};
use crate::scalar::{is_non_positive, DEFAULT_TOLERANCE};
use crate::stroke::StrokeStyle;

verus! {

/// The two tessellation passes.
#[derive(Clone, Copy, Debug, PartialEq, Eq, Structural)]
pub enum Pass {
    Fill,
    Stroke,
}

/// Which regions of a path count as inside.
#[derive(Clone, Copy, Debug, PartialEq, Eq, Structural)]
pub enum FillRule {
    /// Those where the number of crossings of a ray to infinity is odd.
    EvenOdd,
    /// Those where the signed sum of crossings of a ray to infinity is not
    /// zero.
    NonZero,
}

/// What a tessellator is asked to do with a path.
#[derive(Clone, Copy, Debug, PartialEq, Eq, Structural)]
pub enum Operation {
    /// Triangulate the inside, all subpaths taken as closed.
    Fill(FillRule),
    /// Triangulate the outline.
    Stroke(StrokeStyle),
}

impl Operation {
    /// The pass that carries the operation out.
    pub open spec fn pass(self) -> Pass {
        match self {
            Operation::Fill(_) => Pass::Fill,
            Operation::Stroke(_) => Pass::Stroke,
        }
    }

    /// The pass that carries the operation out.
    pub fn which_pass(&self) -> (pass: Pass)
        ensures
            pass == self.pass(),
    {
        match self {
            Operation::Fill(_) => Pass::Fill,
            Operation::Stroke(_) => Pass::Stroke,
        }
    }
}

/// Why a tessellator gave up.
#[derive(Clone, Copy, Debug, PartialEq, Eq, Structural)]
pub enum TessellatorFailure {
    /// It does not support one of the options.
    UnsupportedParameter,
    /// A vertex could not be added to the buffers.
    InvalidVertex,
    /// The mesh needs more vertices than 16-bit indices can address.
    TooManyVertices,
    /// It could not resolve an event of its sweep.
    Internal,
}

/// Why no geometry is returned.
#[derive(Clone, Copy, Debug, PartialEq, Eq, Structural)]
pub enum TessellationError {
    /// A coordinate of the path is an infinity or not a number.
    InvalidInput,
    /// The tessellator gave up during the pass.
    Failed { pass: Pass, cause: TessellatorFailure },
    /// The pass ended with buffers that are no triangle mesh.
    Malformed { pass: Pass, defect: MeshDefect },
}

/// A path, what is to be done with it, and how closely curves are to be
/// followed. `tolerance` is the bit pattern of the largest distance allowed
/// between a curve and the line segments that stand for it.
#[derive(Debug)]
pub struct TessellationJob {
    pub path: Path,
    pub operation: Operation,
    pub tolerance: u32,
}

/// What is to be done after a path was built.
#[derive(Debug)]
pub enum BuildStep {
    /// Nothing: this is the geometry.
    Done(LyonGeometry),
    /// Run a tessellator on the job, then finish the job with what it gave.
    Tessellate(TessellationJob),
}

/// `r` is the step that follows for a builder that recorded `commands`, asked
/// for `operation`:
/// - a coordinate that is no finite number makes the input invalid;
/// - without commands, the geometry is empty and no tessellator is needed;
/// - else the whole path goes to the tessellator, at the default tolerance.
pub open spec fn is_step_for(
    r: Result<BuildStep, TessellationError>,
    commands: Seq<PathCommand>,
    operation: Operation,
) -> bool {
    if !all_finite(commands) {
        r == Err::<BuildStep, TessellationError>(TessellationError::InvalidInput)
    } else if commands.len() == 0 {
        r matches Ok(BuildStep::Done(geometry)) && geometry@ == GeometryView::empty()
    } else {
        r matches Ok(BuildStep::Tessellate(job)) && job.path@ == commands && job.operation
            == operation && job.tolerance == DEFAULT_TOLERANCE
    }
}

/// `r` is what a job of the given pass ends with, after the tessellator gave
/// `outcome`:
/// - where it gave up, the failure, with the pass;
/// - where its buffers have a defect, the first defect, with the pass;
/// - else its mesh with each position kept once.
pub open spec fn is_result_for(
    r: Result<LyonGeometry, TessellationError>,
    pass: Pass,
    outcome: Result<VertexBuffers, TessellatorFailure>,
) -> bool {
    match outcome {
        Err(cause) => r == Err::<LyonGeometry, TessellationError>(
            TessellationError::Failed { pass, cause },
        ),
        Ok(buffers) => match buffers@.defect() {
            Some(defect) => r == Err::<LyonGeometry, TessellationError>(
                TessellationError::Malformed { pass, defect },
            ),
            None => r matches Ok(geometry) && geometry@.is_deduplication_of(buffers@),
        },
    }
}

/// Builds the path and decides what follows.
fn plan(builder: Box<LyonBuilder>, operation: Operation) -> (r: Result<
    BuildStep,
    TessellationError,
>)
    ensures
        is_step_for(r, builder@, operation),
{
    let path = builder.build();
    if !path.finite() {
        return Err(TessellationError::InvalidInput);
    }
    if path.len() == 0 {
        return Ok(BuildStep::Done(LyonGeometry::empty()));
    }
    Ok(BuildStep::Tessellate(TessellationJob { path, operation, tolerance: DEFAULT_TOLERANCE }))
}

/// Builds the path for filling, under the non-zero winding rule.
pub fn build_fill(builder: Box<LyonBuilder>) -> (r: Result<BuildStep, TessellationError>)
    ensures
        is_step_for(r, builder@, Operation::Fill(FillRule::NonZero)),
        r matches Ok(BuildStep::Done(geometry)) ==> geometry@.is_well_formed(),
{
    plan(builder, Operation::Fill(FillRule::NonZero))
}

/// Builds the path for a plain stroke of the given width: miter joins and
/// butt caps.
pub fn build_stroke(builder: Box<LyonBuilder>, line_width: u32) -> (r: Result<
    BuildStep,
    TessellationError,
>)
    requires
        !is_non_positive(line_width),
    ensures
        is_step_for(r, builder@, Operation::Stroke(StrokeStyle::plain(line_width))),
        r matches Ok(BuildStep::Done(geometry)) ==> geometry@.is_well_formed(),
{
    build_stroke_with(builder, StrokeStyle::new(line_width))
}

/// Builds the path for a stroke of the given style.
pub fn build_stroke_with(builder: Box<LyonBuilder>, style: StrokeStyle) -> (r: Result<
    BuildStep,
    TessellationError,
>)
    requires
        style.has_usable_width(),
    ensures
        is_step_for(r, builder@, Operation::Stroke(style)),
        r matches Ok(BuildStep::Done(geometry)) ==> geometry@.is_well_formed(),
{
    plan(builder, Operation::Stroke(style))
}

impl TessellationJob {
    /// Ends the job with what the tessellator gave for it.
    pub fn finish(self, outcome: Result<VertexBuffers, TessellatorFailure>) -> (r: Result<
        LyonGeometry,
        TessellationError,
    >)
        ensures
            is_result_for(r, self.operation.pass(), outcome),
            r matches Ok(geometry) ==> geometry@.is_well_formed() && pairwise_distinct(
                geometry@.vertices,
            ),
    {
        let pass = self.operation.which_pass();
        match outcome {
            Err(cause) => Err(TessellationError::Failed { pass, cause }),
            Ok(buffers) => {
                let raw = LyonGeometry {
                    vertices: convert_points(buffers.vertices),
                    indices: buffers.indices,
                };
                match raw.deduplicated() {
                    Err(defect) => Err(TessellationError::Malformed { pass, defect }),
                    Ok(geometry) => {
                        proof {
                            lemma_deduplication_keeps_triangles(geometry@, raw@);
                        }
                        Ok(geometry)
                    },
                }
            },
        }
    }
}

/// The two steps are the same: the same error, or geometries with the same
/// view, or jobs with the same commands, operation and tolerance.
pub open spec fn is_same_step(
    a: Result<BuildStep, TessellationError>,
    b: Result<BuildStep, TessellationError>,
) -> bool {
    match (a, b) {
        (Err(e), Err(f)) => e == f,
        (Ok(BuildStep::Done(g)), Ok(BuildStep::Done(h))) => g@ == h@,
        (Ok(BuildStep::Tessellate(j)), Ok(BuildStep::Tessellate(k))) => j.path@ == k.path@
            && j.operation == k.operation && j.tolerance == k.tolerance,
        _ => false,
    }
}

/// A builder that recorded nothing is answered with the empty geometry,
/// whatever the operation: no tessellator runs, and nothing can fail.
pub proof fn lemma_empty_path_gives_empty_geometry(
    r: Result<BuildStep, TessellationError>,
    operation: Operation,
)
    requires
        is_step_for(r, Seq::empty(), operation),
    ensures
        r matches Ok(BuildStep::Done(geometry)) && geometry@ == GeometryView::empty()
            && geometry@.triangle_count() == 0 && geometry@.is_well_formed(),
{
}

/// Builders that recorded the same commands, asked for the same operation,
/// are answered with the same step.
pub proof fn lemma_same_commands_same_step(
    a: Result<BuildStep, TessellationError>,
    b: Result<BuildStep, TessellationError>,
    commands: Seq<PathCommand>,
    operation: Operation,
)
    requires
        is_step_for(a, commands, operation),
        is_step_for(b, commands, operation),
    ensures
        is_same_step(a, b),
{
}

/// Two jobs whose tessellators gave buffers without defect that describe the
/// same triangles, however each numbered its vertices, both end with a
/// geometry; the two geometries have equally many triangles, with corners at
/// the same positions.
pub proof fn lemma_same_triangles_same_geometry(
    a: Result<LyonGeometry, TessellationError>,
    pass_a: Pass,
    buffers_a: VertexBuffers,
    b: Result<LyonGeometry, TessellationError>,
    pass_b: Pass,
    buffers_b: VertexBuffers,
)
    requires
        is_result_for(a, pass_a, Ok(buffers_a)),
        is_result_for(b, pass_b, Ok(buffers_b)),
        buffers_a@.defect() is None,
        buffers_b@.defect() is None,
        buffers_a@.has_corners_of(buffers_b@),
    ensures
        a matches Ok(g) && b matches Ok(h) && g@.triangle_count() == h@.triangle_count()
            && g@.has_corners_of(h@),
{
    lemma_same_corners_after_deduplication(a->Ok_0@, buffers_a@, b->Ok_0@, buffers_b@);
}

} // verus!
