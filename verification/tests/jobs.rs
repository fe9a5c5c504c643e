use tessellation::scalar::DEFAULT_TOLERANCE;
use tessellation::{
    build_fill, build_stroke, build_stroke_with, new_builder, BuildStep, FillRule, LineCap,
    LineJoin, LyonBuilder, LyonPoint, LyonVector, MeshDefect, Operation, Pass, PathCommand,
    StrokeStyle, TessellationError, TessellationJob, TessellatorFailure, VertexBuffers,
};

fn at(x: f32, y: f32) -> LyonPoint {
    LyonPoint { x: x.to_bits(), y: y.to_bits() }
}

fn pair(x: f32, y: f32) -> (u32, u32) {
    (x.to_bits(), y.to_bits())
}

fn segment() -> Box<LyonBuilder> {
    let mut builder = new_builder();
    builder.move_to(&at(0.0, 0.0));
    builder.line_to(&at(10.0, 0.0));
    builder
}

fn job_of(step: Result<BuildStep, TessellationError>) -> TessellationJob {
    match step {
        Ok(BuildStep::Tessellate(job)) => job,
        other => panic!("expected a job, got {other:?}"),
    }
}

fn fill_job() -> TessellationJob {
    job_of(build_fill(segment()))
}

fn stroke_job() -> TessellationJob {
    job_of(build_stroke(segment(), 2.0f32.to_bits()))
}

#[test]
fn empty_path_fills_to_empty_geometry() {
    match build_fill(new_builder()) {
        Ok(BuildStep::Done(geometry)) => {
            assert!(geometry.vertices.is_empty());
            assert!(geometry.indices.is_empty());
        }
        other => panic!("expected the empty geometry, got {other:?}"),
    }
}

#[test]
fn empty_path_strokes_to_empty_geometry() {
    match build_stroke(new_builder(), 2.0f32.to_bits()) {
        Ok(BuildStep::Done(geometry)) => {
            assert!(geometry.vertices.is_empty());
            assert!(geometry.indices.is_empty());
        }
        other => panic!("expected the empty geometry, got {other:?}"),
    }
    let style = StrokeStyle::new(1.0f32.to_bits()).with_line_cap(LineCap::Round);
    assert!(matches!(build_stroke_with(new_builder(), style), Ok(BuildStep::Done(_))));
}

#[test]
fn fill_job_carries_path_rule_and_tolerance() {
    let job = fill_job();
    assert_eq!(
        job.path.commands(),
        &vec![PathCommand::MoveTo(at(0.0, 0.0)), PathCommand::LineTo(at(10.0, 0.0))]
    );
    assert_eq!(job.operation, Operation::Fill(FillRule::NonZero));
    assert_eq!(job.operation.which_pass(), Pass::Fill);
    assert_eq!(job.tolerance, DEFAULT_TOLERANCE);
    assert_eq!(f32::from_bits(job.tolerance), 0.01);
}

#[test]
fn stroke_job_carries_path_style_and_tolerance() {
    let job = stroke_job();
    assert_eq!(
        job.path.commands(),
        &vec![PathCommand::MoveTo(at(0.0, 0.0)), PathCommand::LineTo(at(10.0, 0.0))]
    );
    assert_eq!(
        job.operation,
        Operation::Stroke(StrokeStyle {
            line_width: 2.0f32.to_bits(),
            line_join: LineJoin::Miter,
            line_cap: LineCap::Butt,
            miter_limit: 4.0f32.to_bits(),
        })
    );
    assert_eq!(job.operation.which_pass(), Pass::Stroke);
    assert_eq!(f32::from_bits(job.tolerance), 0.01);
}

#[test]
fn styled_stroke_job_carries_the_style() {
    let style = StrokeStyle::new(0.5f32.to_bits())
        .with_line_join(LineJoin::Round)
        .with_line_cap(LineCap::Square);
    assert_eq!(
        style,
        StrokeStyle {
            line_width: 0.5f32.to_bits(),
            line_join: LineJoin::Round,
            line_cap: LineCap::Square,
            miter_limit: 4.0f32.to_bits(),
        }
    );
    let job = job_of(build_stroke_with(segment(), style));
    assert_eq!(job.operation, Operation::Stroke(style));
    let bevel = StrokeStyle::new(3.0f32.to_bits()).with_line_join(LineJoin::Bevel);
    assert_eq!(bevel.line_join, LineJoin::Bevel);
    assert_eq!(bevel.line_cap, LineCap::Butt);
    assert_eq!(bevel.line_width, 3.0f32.to_bits());
}

#[test]
fn a_width_that_is_no_number_is_handed_on() {
    let job = job_of(build_stroke(segment(), f32::NAN.to_bits()));
    assert_eq!(job.operation, Operation::Stroke(StrokeStyle::new(f32::NAN.to_bits())));
}

#[test]
fn coordinate_that_is_no_number_is_invalid_input() {
    let mut builder = segment();
    builder.line_to(&at(f32::NAN, 1.0));
    assert_eq!(build_fill(builder).err(), Some(TessellationError::InvalidInput));

    let mut builder = segment();
    builder.quadratic_bezier_to(&at(1.0, f32::NAN), &at(2.0, 2.0));
    assert_eq!(
        build_stroke(builder, 1.0f32.to_bits()).err(),
        Some(TessellationError::InvalidInput)
    );
}

#[test]
fn infinite_coordinate_is_invalid_input() {
    let mut builder = new_builder();
    builder.move_to(&at(f32::INFINITY, 0.0));
    assert_eq!(build_fill(builder).err(), Some(TessellationError::InvalidInput));

    let mut builder = segment();
    builder.cubic_bezier_to(&at(1.0, 1.0), &at(2.0, f32::NEG_INFINITY), &at(3.0, 3.0));
    assert_eq!(build_fill(builder).err(), Some(TessellationError::InvalidInput));

    let mut builder = segment();
    builder.relative_move_to(LyonVector { x: 0.0f32.to_bits(), y: f32::INFINITY.to_bits() });
    assert_eq!(
        build_stroke(builder, 1.0f32.to_bits()).err(),
        Some(TessellationError::InvalidInput)
    );
}

#[test]
fn largest_finite_coordinates_are_valid_input() {
    let mut builder = new_builder();
    builder.move_to(&at(f32::MAX, f32::MIN));
    builder.line_to(&at(f32::MIN_POSITIVE, -0.0));
    assert!(matches!(build_fill(builder), Ok(BuildStep::Tessellate(_))));
}

#[test]
fn finish_reports_the_failure_with_its_pass() {
    let causes = [
        TessellatorFailure::UnsupportedParameter,
        TessellatorFailure::InvalidVertex,
        TessellatorFailure::TooManyVertices,
        TessellatorFailure::Internal,
    ];
    for cause in causes {
        assert_eq!(
            fill_job().finish(Err(cause)).err(),
            Some(TessellationError::Failed { pass: Pass::Fill, cause })
        );
        assert_eq!(
            stroke_job().finish(Err(cause)).err(),
            Some(TessellationError::Failed { pass: Pass::Stroke, cause })
        );
    }
}

#[test]
fn finish_refuses_an_index_list_that_is_no_triangle_list() {
    let buffers = VertexBuffers {
        vertices: vec![pair(0.0, 0.0), pair(1.0, 0.0), pair(0.0, 1.0)],
        indices: vec![0, 1, 2, 0],
    };
    assert_eq!(
        fill_job().finish(Ok(buffers)).err(),
        Some(TessellationError::Malformed {
            pass: Pass::Fill,
            defect: MeshDefect::IncompleteTriangle
        })
    );
}

#[test]
fn finish_refuses_a_dangling_index() {
    let buffers = VertexBuffers {
        vertices: vec![pair(0.0, 0.0), pair(1.0, 0.0), pair(0.0, 1.0)],
        indices: vec![0, 1, 3],
    };
    assert_eq!(
        stroke_job().finish(Ok(buffers)).err(),
        Some(TessellationError::Malformed { pass: Pass::Stroke, defect: MeshDefect::DanglingIndex })
    );
}

#[test]
fn finish_refuses_more_vertices_than_indices_reach() {
    let buffers = VertexBuffers { vertices: vec![pair(0.0, 0.0); 65537], indices: vec![0, 1, 2] };
    assert_eq!(
        fill_job().finish(Ok(buffers)).err(),
        Some(TessellationError::Malformed {
            pass: Pass::Fill,
            defect: MeshDefect::TooManyVertices
        })
    );
}

#[test]
fn finish_keeps_each_position_once() {
    let buffers = VertexBuffers {
        vertices: vec![
            pair(11.0, -1.0),
            pair(9.0, 1.0),
            pair(11.0, 11.0),
            pair(9.0, 9.0),
            pair(-1.0, 11.0),
            pair(1.0, 9.0),
            pair(-1.0, -1.0),
            pair(1.0, 1.0),
            pair(1.0, 1.0),
            pair(-1.0, -1.0),
        ],
        indices: vec![
            0, 1, 3, 0, 3, 2, 2, 3, 5, 2, 5, 4, 4, 5, 7, 4, 7, 6, 9, 8, 1, 9, 1, 0,
        ],
    };
    let geometry = stroke_job().finish(Ok(buffers)).unwrap();
    assert_eq!(
        geometry.vertices,
        vec![
            at(11.0, -1.0),
            at(9.0, 1.0),
            at(11.0, 11.0),
            at(9.0, 9.0),
            at(-1.0, 11.0),
            at(1.0, 9.0),
            at(-1.0, -1.0),
            at(1.0, 1.0),
        ]
    );
    assert_eq!(
        geometry.indices,
        vec![0, 1, 3, 0, 3, 2, 2, 3, 5, 2, 5, 4, 4, 5, 7, 4, 7, 6, 6, 7, 1, 6, 1, 0]
    );
    assert_eq!(geometry.triangle_count(), 8);
}

#[test]
fn finish_of_empty_buffers_is_the_empty_geometry() {
    let geometry =
        fill_job().finish(Ok(VertexBuffers { vertices: vec![], indices: vec![] })).unwrap();
    assert!(geometry.vertices.is_empty());
    assert!(geometry.indices.is_empty());
}

#[test]
fn finish_gives_the_same_triangles_however_the_vertices_are_numbered() {
    let first = VertexBuffers {
        vertices: vec![pair(0.0, 0.0), pair(10.0, 0.0), pair(0.0, 10.0), pair(10.0, 10.0)],
        indices: vec![1, 0, 2, 1, 2, 3],
    };
    let second = VertexBuffers {
        vertices: vec![
            pair(10.0, 10.0),
            pair(0.0, 10.0),
            pair(10.0, 0.0),
            pair(-0.0, 0.0),
            pair(10.0, 0.0),
        ],
        indices: vec![4, 3, 1, 2, 1, 0],
    };
    let a = fill_job().finish(Ok(first)).unwrap();
    let b = fill_job().finish(Ok(second)).unwrap();
    assert_eq!(a.triangle_count(), b.triangle_count());
    assert_eq!(a.indices.len(), b.indices.len());
    for k in 0..a.indices.len() {
        let p = a.vertices[a.indices[k] as usize];
        let q = b.vertices[b.indices[k] as usize];
        assert!(p.coincides(&q), "corner {k}");
    }
}
