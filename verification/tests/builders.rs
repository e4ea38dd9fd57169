use causal_triangulations::config::CdtTopology;
use causal_triangulations::errors::{
    BackendMutationOperation, CdtError, CoordinateRange, DelaunayGenerationFailure, DelaunayGenerationStage, FoliationError,
    GenerationParameterIssue, TriangulationMetadataField,
};
use causal_triangulations::foliation::{EdgeType, SimplexType};
use causal_triangulations::mesh::{CdtMesh, MeshEdge, MeshFace};
use causal_triangulations::triangulation::builders::{
    first_valid_toroidal_candidate, open_profile_face_count, remap_strip_generation_error,
    remap_toroidal_generation_error, toroidal_generation_error, validate_spatial_profile, validate_strip_counts,
    validate_toroidal_counts,
};
use causal_triangulations::triangulation::CdtTriangulation;
use std::cell::RefCell;

/// A regular open strip: `n` vertices on each of `t` slices, vertex
/// `s * n + i` at spatial position `i` of slice `s`.
fn strip_mesh(n: usize, t: usize) -> CdtMesh {
    let mut labels = Vec::new();
    let mut ranks = Vec::new();
    for s in 0..t {
        for i in 0..n {
            labels.push(Some(s as u32));
            ranks.push((i * t + s) as u64);
        }
    }
    let v = |s: usize, i: usize| s * n + i;
    let mut edges = Vec::new();
    let mut faces = Vec::new();
    for s in 0..t {
        for i in 0..n - 1 {
            edges.push(MeshEdge { a: v(s, i), b: v(s, i + 1) });
        }
    }
    for s in 0..t - 1 {
        for i in 0..n {
            edges.push(MeshEdge { a: v(s, i), b: v(s + 1, i) });
        }
        for i in 0..n - 1 {
            edges.push(MeshEdge { a: v(s, i + 1), b: v(s + 1, i) });
            faces.push(MeshFace { v0: v(s, i), v1: v(s, i + 1), v2: v(s + 1, i) });
            faces.push(MeshFace { v0: v(s, i + 1), v1: v(s + 1, i + 1), v2: v(s + 1, i) });
        }
    }
    CdtMesh::new(labels, ranks, edges, faces).expect("strip indices are in range")
}

/// A regular torus: `n` vertices on each of `t` periodic slices.
fn torus_mesh(n: usize, t: usize) -> CdtMesh {
    let mut labels = Vec::new();
    let mut ranks = Vec::new();
    for s in 0..t {
        for i in 0..n {
            labels.push(Some(s as u32));
            ranks.push((i * t + s) as u64);
        }
    }
    let v = |s: usize, i: usize| (s % t) * n + (i % n);
    let mut edges = Vec::new();
    let mut faces = Vec::new();
    for s in 0..t {
        for i in 0..n {
            edges.push(MeshEdge { a: v(s, i), b: v(s, i + 1) });
            edges.push(MeshEdge { a: v(s, i), b: v(s + 1, i) });
            edges.push(MeshEdge { a: v(s, i + 1), b: v(s + 1, i) });
            faces.push(MeshFace { v0: v(s, i), v1: v(s, i + 1), v2: v(s + 1, i) });
            faces.push(MeshFace { v0: v(s, i + 1), v1: v(s + 1, i + 1), v2: v(s + 1, i) });
        }
    }
    CdtMesh::new(labels, ranks, edges, faces).expect("torus indices are in range")
}

fn parameter_error(result: Result<CdtTriangulation, CdtError>) -> (GenerationParameterIssue, String, String) {
    match result {
        Err(CdtError::InvalidGenerationParameters { issue, provided_value, expected_range }) => {
            (issue, provided_value, expected_range)
        }
        other => panic!("expected a parameter error, got {other:?}"),
    }
}

#[test]
fn test_remap_toroidal_generation_error_updates_context() {
    let remapped = remap_toroidal_generation_error(
        CdtError::DelaunayGenerationFailed {
            vertex_count: 3,
            coordinate_range: CoordinateRange { start: -1, end: 1 },
            attempt: 7,
            failure: DelaunayGenerationFailure::Upstream {
                stage: DelaunayGenerationStage::TriangulationConstruction,
                detail: "builder failed".to_string(),
            },
        },
        12,
        4,
    );

    assert!(matches!(
        remapped,
        CdtError::DelaunayGenerationFailed {
            vertex_count: 12,
            coordinate_range: CoordinateRange { start: -1, end: 1 },
            attempt: 4,
            failure: DelaunayGenerationFailure::Upstream { ref detail, .. },
        } if detail == "builder failed"
    ));
}

#[test]
fn test_remap_toroidal_generation_error_preserves_other_errors() {
    let original = CdtError::InvalidGenerationParameters {
        issue: GenerationParameterIssue::InvalidCoordinateRange,
        provided_value: "x".to_string(),
        expected_range: "y".to_string(),
    };
    assert_eq!(remap_toroidal_generation_error(original.clone(), 12, 4), original);
}

#[test]
fn remap_strip_generation_error_sets_strip_range_and_first_attempt() {
    let remapped = remap_strip_generation_error(
        CdtError::DelaunayGenerationFailed {
            vertex_count: 3,
            coordinate_range: CoordinateRange { start: -5, end: 5 },
            attempt: 9,
            failure: DelaunayGenerationFailure::NoEmbeddingCandidates,
        },
        16,
        4,
    );
    assert_eq!(
        remapped,
        CdtError::DelaunayGenerationFailed {
            vertex_count: 16,
            coordinate_range: CoordinateRange { start: 0, end: 4 },
            attempt: 1,
            failure: DelaunayGenerationFailure::NoEmbeddingCandidates,
        }
    );
}

#[test]
fn test_open_profile_face_count_matches_open_strip_topology() {
    assert_eq!(
        open_profile_face_count(&vec![4, 4]).expect("regular two-slice strip should count"),
        6
    );
    assert_eq!(
        open_profile_face_count(&vec![4, 4, 4]).expect("regular three-slice strip should count"),
        12
    );
    assert_eq!(
        open_profile_face_count(&vec![4, 6, 5]).expect("nonuniform strip should count"),
        17
    );
}

#[test]
fn test_open_profile_face_count_rejects_empty_profile() {
    let result = open_profile_face_count(&vec![]);

    assert!(matches!(
        result,
        Err(CdtError::InvalidGenerationParameters {
            ref issue,
            ref provided_value,
            ref expected_range,
        }) if *issue == GenerationParameterIssue::EmptyVolumeProfile
            && provided_value == "[]"
            && expected_range == "at least one time slice"
    ));
}

#[test]
fn open_profile_face_count_reports_overflowing_sum_and_count() {
    match open_profile_face_count(&vec![u32::MAX, 1]) {
        Err(CdtError::InvalidGenerationParameters { issue, provided_value, expected_range }) => {
            assert_eq!(issue, GenerationParameterIssue::VertexCountOverflow);
            assert_eq!(provided_value, "[4294967295, 1]");
            assert_eq!(expected_range, "sum ≤ u32::MAX");
        }
        other => panic!("unexpected {other:?}"),
    }
    match open_profile_face_count(&vec![1, 1]) {
        Err(CdtError::InvalidGenerationParameters { issue, provided_value, expected_range }) => {
            assert_eq!(issue, GenerationParameterIssue::SimplexCountOverflow);
            assert_eq!(provided_value, "[1, 1]");
            assert_eq!(expected_range, "open-strip face count must fit in u32");
        }
        other => panic!("unexpected {other:?}"),
    }
}

#[test]
fn validate_spatial_profile_checks_in_order() {
    assert_eq!(validate_spatial_profile(&vec![4, 6, 5], 2, 4, "open-boundary topology"), Ok((15, 3)));
    match validate_spatial_profile(&vec![4], 2, 4, "open-boundary topology") {
        Err(CdtError::InvalidGenerationParameters { issue, provided_value, expected_range }) => {
            assert_eq!(issue, GenerationParameterIssue::InsufficientNumberOfTimeSlices);
            assert_eq!(provided_value, "1");
            assert_eq!(expected_range, "≥ 2 for open-boundary topology");
        }
        other => panic!("unexpected {other:?}"),
    }
    match validate_spatial_profile(&vec![4, 3, 5], 2, 4, "open-boundary topology") {
        Err(CdtError::InvalidGenerationParameters { issue, provided_value, expected_range }) => {
            assert_eq!(issue, GenerationParameterIssue::InsufficientVerticesInVolumeProfileSlice);
            assert_eq!(provided_value, "slice 1 has 3");
            assert_eq!(expected_range, "each slice ≥ 4 for open-boundary topology");
        }
        other => panic!("unexpected {other:?}"),
    }
}

#[test]
fn toroidal_candidate_retry_returns_first_success_with_actual_attempt() {
    let attempted = RefCell::new(Vec::new());
    let result = first_valid_toroidal_candidate(
        4,
        8,
        |candidate: u8, attempt: u32| {
            attempted.borrow_mut().push((candidate, attempt));
            if attempt < 3 {
                Err(toroidal_generation_error(
                    12,
                    CoordinateRange { start: 0, end: 3 },
                    attempt,
                    DelaunayGenerationFailure::Upstream {
                        stage: DelaunayGenerationStage::TriangulationConstruction,
                        detail: format!("candidate {candidate} failed"),
                    },
                ))
            } else {
                Ok((candidate, attempt))
            }
        },
        || unreachable!("nonempty candidate range should be attempted"),
    )
    .expect("third candidate should succeed");

    assert_eq!(result, (6, 3));
    assert_eq!(*attempted.borrow(), vec![(4, 1), (5, 2), (6, 3)]);
}

#[test]
fn toroidal_candidate_exhaustion_preserves_final_attempt_and_cause() {
    let error = first_valid_toroidal_candidate(
        4,
        7,
        |candidate: u8, attempt: u32| {
            Err::<(), _>(toroidal_generation_error(
                12,
                CoordinateRange { start: 0, end: 3 },
                attempt,
                DelaunayGenerationFailure::Upstream {
                    stage: DelaunayGenerationStage::TriangulationConstruction,
                    detail: format!("candidate {candidate} failed"),
                },
            ))
        },
        || unreachable!("nonempty candidate range should be attempted"),
    )
    .expect_err("all candidates should fail");

    assert!(matches!(
        error,
        CdtError::DelaunayGenerationFailed {
            attempt: 3,
            failure: DelaunayGenerationFailure::Upstream { ref detail, .. },
            ..
        } if detail == "candidate 6 failed"
    ));
}

#[test]
fn empty_candidate_range_reports_the_fallback_error() {
    let error = first_valid_toroidal_candidate(
        5,
        5,
        |_candidate: u8, _attempt: u32| Ok::<u32, CdtError>(1),
        || CdtError::Foliation(FoliationError::MissingBookkeeping),
    );
    assert_eq!(error, Err(CdtError::Foliation(FoliationError::MissingBookkeeping)));
}

#[test]
fn test_from_cdt_strip_builds_valid_mesh() {
    let tri = CdtTriangulation::from_cdt_strip(4, 2, || Ok(strip_mesh(4, 2))).expect("strip should build");
    assert_eq!(tri.vertex_count(), 8);
    assert_eq!(tri.face_count(), 6);
    assert!(tri.has_foliation());
    assert_eq!(tri.slice_sizes(), &[4, 4]);
    assert!(tri.validate_simplex_classification().is_ok());
    assert_eq!(tri.strict_causal_simplex_violation_count(), Ok(0));
}

#[test]
fn test_from_cdt_strip_rejects_invalid_params() {
    let (issue, provided, expected) = parameter_error(CdtTriangulation::from_cdt_strip(3, 2, || Ok(strip_mesh(4, 2))));
    assert_eq!(issue, GenerationParameterIssue::InsufficientVerticesPerSlice);
    assert_eq!(provided, "3");
    assert_eq!(expected, "≥ 4");

    let (issue, provided, expected) = parameter_error(CdtTriangulation::from_cdt_strip(4, 1, || Ok(strip_mesh(4, 2))));
    assert_eq!(issue, GenerationParameterIssue::InsufficientNumberOfTimeSlices);
    assert_eq!(provided, "1");
    assert_eq!(expected, "≥ 2");
}

#[test]
fn test_from_cdt_strip_rejects_simplex_count_overflow() {
    let (issue, provided, expected) =
        parameter_error(CdtTriangulation::from_cdt_strip(65_536, 65_536, || Ok(strip_mesh(4, 2))));
    assert_eq!(issue, GenerationParameterIssue::VertexCountOverflow);
    assert_eq!(provided, "65536 × 65536");
    assert_eq!(expected, "product ≤ u32::MAX");

    let (issue, provided, expected) =
        parameter_error(CdtTriangulation::from_cdt_strip(65_536, 65_535, || Ok(strip_mesh(4, 2))));
    assert_eq!(issue, GenerationParameterIssue::SimplexCountOverflow);
    assert_eq!(provided, "2 × 4294770690");
    assert_eq!(expected, "product ≤ u32::MAX");
}

#[test]
fn from_cdt_strip_reports_a_mesh_of_the_wrong_size() {
    let result = CdtTriangulation::from_cdt_strip(5, 2, || Ok(strip_mesh(4, 2)));
    assert_eq!(
        result.err(),
        Some(CdtError::DelaunayGenerationFailed {
            vertex_count: 10,
            coordinate_range: CoordinateRange { start: 0, end: 2 },
            attempt: 1,
            failure: DelaunayGenerationFailure::MeshSizeMismatch {
                actual_vertices: 8,
                expected_vertices: 10,
                actual_faces: 6,
                expected_faces: 8,
            },
        })
    );
}

#[test]
fn from_cdt_strip_restates_generator_failures() {
    let result = CdtTriangulation::from_cdt_strip(4, 3, || {
        Err(CdtError::DelaunayGenerationFailed {
            vertex_count: 1,
            coordinate_range: CoordinateRange { start: 7, end: 9 },
            attempt: 5,
            failure: DelaunayGenerationFailure::NoEmbeddingCandidates,
        })
    });
    assert_eq!(
        result.err(),
        Some(CdtError::DelaunayGenerationFailed {
            vertex_count: 12,
            coordinate_range: CoordinateRange { start: 0, end: 3 },
            attempt: 1,
            failure: DelaunayGenerationFailure::NoEmbeddingCandidates,
        })
    );
}

#[test]
fn test_profile_strip_count_validation_rejects_backend_count_mismatch() {
    let tri = CdtTriangulation::from_cdt_strip_profile(&vec![4, 6, 5], || Ok(profile_strip_mesh(&[4, 6, 5])))
        .expect("nonuniform strip should build");
    let result = validate_strip_counts(tri.geometry(), 15, 16, 18, 3);
    assert_eq!(
        result,
        Err(CdtError::DelaunayGenerationFailed {
            vertex_count: 15,
            coordinate_range: CoordinateRange { start: 0, end: 3 },
            attempt: 1,
            failure: DelaunayGenerationFailure::MeshSizeMismatch {
                actual_vertices: 15,
                expected_vertices: 16,
                actual_faces: 17,
                expected_faces: 18,
            },
        })
    );
}

#[test]
fn test_from_cdt_strip_profile_rejects_invalid_profile() {
    let (issue, provided, expected) =
        parameter_error(CdtTriangulation::from_cdt_strip_profile(&vec![4, 3, 5], || Ok(strip_mesh(4, 3))));
    assert_eq!(issue, GenerationParameterIssue::InsufficientVerticesInVolumeProfileSlice);
    assert_eq!(provided, "slice 1 has 3");
    assert_eq!(expected, "each slice ≥ 4 for open-boundary topology");
}

#[test]
fn from_cdt_strip_profile_accepts_a_uniform_profile() {
    let tri = CdtTriangulation::from_cdt_strip_profile(&vec![4, 4, 4], || Ok(strip_mesh(4, 3)))
        .expect("uniform profile strip should build");
    assert_eq!(tri.slice_sizes(), &[4, 4, 4]);
    assert!(tri.validate_simplex_classification().is_ok());
}

#[test]
fn test_from_toroidal_cdt_builds_valid_torus() {
    let tri = CdtTriangulation::from_toroidal_cdt(4, 3, |_candidate: u8, _attempt: u32| Ok(torus_mesh(4, 3)))
        .expect("torus should build");
    assert_eq!(tri.vertex_count(), 12);
    assert_eq!(tri.face_count(), 24);
    assert!(tri.has_foliation());
    assert_eq!(tri.slice_sizes(), &[4, 4, 4]);
}

#[test]
fn from_toroidal_cdt_retries_until_a_mesh_has_the_requested_size() {
    let attempts = RefCell::new(Vec::new());
    let tri = CdtTriangulation::from_toroidal_cdt(4, 3, |candidate: u8, attempt: u32| {
        attempts.borrow_mut().push((candidate, attempt));
        if candidate < 2 { Ok(torus_mesh(3, 3)) } else { Ok(torus_mesh(4, 3)) }
    })
    .expect("third candidate should build");
    assert_eq!(tri.vertex_count(), 12);
    assert_eq!(*attempts.borrow(), vec![(0, 1), (1, 2), (2, 3)]);
}

#[test]
fn from_toroidal_cdt_reports_the_last_failed_attempt() {
    let result = CdtTriangulation::from_toroidal_cdt(4, 3, |_candidate: u8, _attempt: u32| Ok(torus_mesh(3, 3)));
    assert_eq!(
        result.err(),
        Some(CdtError::DelaunayGenerationFailed {
            vertex_count: 12,
            coordinate_range: CoordinateRange { start: 0, end: 3 },
            attempt: 14,
            failure: DelaunayGenerationFailure::MeshSizeMismatch {
                actual_vertices: 9,
                expected_vertices: 12,
                actual_faces: 18,
                expected_faces: 24,
            },
        })
    );
}

#[test]
fn from_toroidal_cdt_rejects_two_slices() {
    let (issue, provided, expected) =
        parameter_error(CdtTriangulation::from_toroidal_cdt(4, 2, |_c: u8, _a: u32| Ok(torus_mesh(4, 3))));
    assert_eq!(issue, GenerationParameterIssue::InsufficientNumberOfTimeSlices);
    assert_eq!(provided, "2");
    assert_eq!(expected, "≥ 3");
}

#[test]
fn from_toroidal_cdt_profile_builds_a_uniform_profile() {
    let tri = CdtTriangulation::from_toroidal_cdt_profile(&vec![3, 3, 3], |_c: u8, _a: u32| Ok(torus_mesh(3, 3)))
        .expect("uniform toroidal profile should build");
    assert_eq!(tri.slice_sizes(), &[3, 3, 3]);
    assert_eq!(tri.time_slices(), 3);
}

#[test]
fn builders_test_from_labeled_delaunay_preserves_foliation() {
    let mesh = CdtMesh::new(
        vec![Some(0), Some(0), Some(1)],
        vec![0, 2, 1],
        vec![MeshEdge { a: 0, b: 1 }, MeshEdge { a: 1, b: 2 }, MeshEdge { a: 2, b: 0 }],
        vec![MeshFace { v0: 0, v1: 1, v2: 2 }],
    )
    .expect("triangle indices are in range");
    let tri = CdtTriangulation::from_labeled_delaunay(mesh, 2, 2).expect("labeled triangle should wrap");
    assert!(tri.has_foliation());
    assert_eq!(tri.slice_sizes(), &[2, 1]);
}

#[test]
fn test_from_labeled_delaunay_rejects_invalid_dimension_and_labels() {
    assert_eq!(
        CdtTriangulation::from_labeled_delaunay(strip_mesh(4, 2), 2, 3).err(),
        Some(CdtError::UnsupportedDimension(3))
    );
    assert_eq!(
        CdtTriangulation::from_labeled_delaunay(strip_mesh(4, 2), 1, 2).err(),
        Some(CdtError::Foliation(FoliationError::OutOfRangeVertexLabel {
            vertex: 4,
            label: 1,
            expected_range_end: 1,
        }))
    );
    assert_eq!(
        CdtTriangulation::from_labeled_delaunay(strip_mesh(4, 2), 3, 2).err(),
        Some(CdtError::Foliation(FoliationError::EmptySlice { slice: 2 }))
    );
}

#[test]
fn filtered_strip_keeps_an_already_strict_mesh() {
    let tri = CdtTriangulation::from_filtered_delaunay_strip(
        4,
        2,
        || Ok(strip_mesh(4, 2)),
        |_mesh: &CdtMesh, _vertex: usize| Err("no removal expected".to_string()),
    )
    .expect("strict strip needs no filtering");
    assert_eq!(tri.strict_causal_simplex_violation_count(), Ok(0));
    assert_eq!(tri.slice_sizes(), &[4, 4]);
}

#[test]
fn uniform_profile_strip_matches_the_uniform_strip() {
    let uniform = CdtTriangulation::from_cdt_strip(5, 3, || Ok(strip_mesh(5, 3))).expect("uniform strip");
    let profiled =
        CdtTriangulation::from_cdt_strip_profile(&vec![5, 5, 5], || Ok(strip_mesh(5, 3))).expect("profile strip");
    assert_eq!(open_profile_face_count(&vec![5, 5, 5]), Ok(2 * 4 * 2));
    assert_eq!(uniform.face_count(), profiled.face_count());
    assert_eq!(uniform.vertex_count(), profiled.vertex_count());
    assert_eq!(uniform.slice_sizes(), profiled.slice_sizes());
    assert_eq!(uniform.volume_profile(), profiled.volume_profile());
}

/// An open strip whose slice `s` holds `profile[s]` vertices, each slab
/// triangulated by a monotone zig-zag.
fn profile_strip_mesh(profile: &[usize]) -> CdtMesh {
    let mut offsets = Vec::new();
    let mut labels = Vec::new();
    let mut ranks = Vec::new();
    for (s, &n) in profile.iter().enumerate() {
        offsets.push(labels.len());
        for i in 0..n {
            labels.push(Some(s as u32));
            ranks.push(i as u64);
        }
    }
    let mut edges = Vec::new();
    let mut faces = Vec::new();
    for (s, &n) in profile.iter().enumerate() {
        for i in 0..n - 1 {
            edges.push(MeshEdge { a: offsets[s] + i, b: offsets[s] + i + 1 });
        }
    }
    for s in 0..profile.len() - 1 {
        let (a, b) = (profile[s], profile[s + 1]);
        let lower = |i: usize| offsets[s] + i;
        let upper = |j: usize| offsets[s + 1] + j;
        let (mut i, mut j) = (0, 0);
        edges.push(MeshEdge { a: lower(0), b: upper(0) });
        while i < a - 1 || j < b - 1 {
            if j == b - 1 || (i < a - 1 && (i + 1) * (b - 1) <= (j + 1) * (a - 1)) {
                faces.push(MeshFace { v0: lower(i), v1: lower(i + 1), v2: upper(j) });
                edges.push(MeshEdge { a: lower(i + 1), b: upper(j) });
                i += 1;
            } else {
                faces.push(MeshFace { v0: lower(i), v1: upper(j + 1), v2: upper(j) });
                edges.push(MeshEdge { a: lower(i), b: upper(j + 1) });
                j += 1;
            }
        }
    }
    CdtMesh::new(labels, ranks, edges, faces).expect("profile strip indices are in range")
}

/// A torus whose periodic slice `s` holds `profile[s]` vertices on a ring.
fn profile_torus_mesh(profile: &[usize]) -> CdtMesh {
    let t = profile.len();
    let mut offsets = Vec::new();
    let mut labels = Vec::new();
    let mut ranks = Vec::new();
    for (s, &n) in profile.iter().enumerate() {
        offsets.push(labels.len());
        for i in 0..n {
            labels.push(Some(s as u32));
            ranks.push(i as u64);
        }
    }
    let mut edges = Vec::new();
    let mut faces = Vec::new();
    for (s, &n) in profile.iter().enumerate() {
        for i in 0..n {
            edges.push(MeshEdge { a: offsets[s] + i, b: offsets[s] + (i + 1) % n });
        }
    }
    for s in 0..t {
        let next = (s + 1) % t;
        let (a, b) = (profile[s], profile[next]);
        let lower = |i: usize| offsets[s] + i % a;
        let upper = |j: usize| offsets[next] + j % b;
        let (mut i, mut j) = (0, 0);
        edges.push(MeshEdge { a: lower(0), b: upper(0) });
        for step in 0..a + b {
            let last = step + 1 == a + b;
            if j == b || (i < a && (i + 1) * b <= (j + 1) * a) {
                faces.push(MeshFace { v0: lower(i), v1: lower(i + 1), v2: upper(j) });
                if !last {
                    edges.push(MeshEdge { a: lower(i + 1), b: upper(j) });
                }
                i += 1;
            } else {
                faces.push(MeshFace { v0: lower(i), v1: upper(j + 1), v2: upper(j) });
                if !last {
                    edges.push(MeshEdge { a: lower(i), b: upper(j + 1) });
                }
                j += 1;
            }
        }
    }
    CdtMesh::new(labels, ranks, edges, faces).expect("profile torus indices are in range")
}

fn strict_strip(n: u32, t: u32) -> CdtTriangulation {
    let tri = CdtTriangulation::from_cdt_strip(n, t, || Ok(strip_mesh(n as usize, t as usize)))
        .expect("strip construction should succeed");
    assert_eq!(tri.vertex_count(), n as usize * t as usize);
    assert_eq!(tri.face_count(), 2 * (n as usize - 1) * (t as usize - 1));
    tri.validate_foliation().expect("strip foliation should validate");
    tri.validate_causality_delaunay().expect("strip causality should validate");
    tri.validate_simplex_classification().expect("all strip simplices should classify");
    tri
}

fn torus(n: u32, t: u32) -> CdtTriangulation {
    CdtTriangulation::from_toroidal_cdt(n, t, |_c: u8, _a: u32| Ok(torus_mesh(n as usize, t as usize)))
        .expect("toroidal CDT should build")
}

fn triangle_mesh(labels: [u32; 3]) -> CdtMesh {
    CdtMesh::new(
        labels.iter().map(|&l| Some(l)).collect(),
        vec![0, 2, 1],
        vec![MeshEdge { a: 0, b: 1 }, MeshEdge { a: 1, b: 2 }, MeshEdge { a: 2, b: 0 }],
        vec![MeshFace { v0: 0, v1: 1, v2: 2 }],
    )
    .expect("triangle indices are in range")
}

#[test]
fn test_from_labeled_delaunay_rejects_invalid_dimension() {
    assert_eq!(
        CdtTriangulation::from_labeled_delaunay(triangle_mesh([0, 0, 1]), 2, 3).err(),
        Some(CdtError::UnsupportedDimension(3))
    );
}

#[test]
fn test_from_labeled_delaunay_rejects_zero_slices() {
    match CdtTriangulation::from_labeled_delaunay(triangle_mesh([0, 0, 1]), 0, 2) {
        Err(CdtError::InvalidTriangulationMetadata { field, provided_value, expected, .. }) => {
            assert_eq!(field, TriangulationMetadataField::Timeslices);
            assert_eq!(provided_value, "0");
            assert_eq!(expected, "≥ 1");
        }
        other => panic!("unexpected {other:?}"),
    }
}

#[test]
fn builders_test_from_labeled_delaunay_rejects_out_of_range_labels() {
    assert!(matches!(
        CdtTriangulation::from_labeled_delaunay(triangle_mesh([0, 0, 5]), 2, 2),
        Err(CdtError::Foliation(FoliationError::OutOfRangeVertexLabel { label: 5, expected_range_end: 2, .. }))
    ));
}

#[test]
fn builders_test_from_labeled_delaunay_rejects_empty_intermediate_slice() {
    assert_eq!(
        CdtTriangulation::from_labeled_delaunay(triangle_mesh([0, 2, 2]), 3, 2).err(),
        Some(CdtError::Foliation(FoliationError::EmptySlice { slice: 1 }))
    );
}

#[test]
fn test_from_labeled_delaunay_rejects_non_interval_spatial_slice() {
    let mesh = CdtMesh::new(
        vec![Some(0), Some(0), Some(0), Some(1)],
        vec![0, 1, 0, 1],
        vec![
            MeshEdge { a: 0, b: 1 },
            MeshEdge { a: 1, b: 2 },
            MeshEdge { a: 2, b: 0 },
            MeshEdge { a: 1, b: 3 },
            MeshEdge { a: 3, b: 2 },
        ],
        vec![MeshFace { v0: 0, v1: 1, v2: 2 }, MeshFace { v0: 1, v1: 3, v2: 2 }],
    )
    .expect("square indices are in range");
    assert_eq!(
        CdtTriangulation::from_labeled_delaunay(mesh, 2, 2).err(),
        Some(CdtError::Foliation(FoliationError::SpacelikeOpenSliceEndpointCount { slice: 0, observed: 0, expected: 2 }))
    );
}

#[test]
fn test_from_cdt_strip_all_vertices_labeled() {
    let tri = strict_strip(5, 3);
    for v in 0..tri.vertex_count() {
        assert!(tri.time_label(v).is_ok_and(|label| label.is_some()));
    }
}

#[test]
fn test_from_cdt_strip_edge_classification() {
    let tri = strict_strip(5, 3);
    for e in 0..tri.edge_count() {
        assert!(matches!(tri.edge_type(e), Ok(Some(EdgeType::Spacelike | EdgeType::Timelike))));
    }
}

/// A strip of `n × t` vertices plus, for more than two slices, one surplus
/// vertex on the first and one on the last slice, each hanging off its slice
/// by a single non-strict face.
fn strip_with_surplus(n: usize, t: usize) -> CdtMesh {
    let base = strip_mesh(n, t);
    if t <= 2 {
        return base;
    }
    let mut labels: Vec<Option<u32>> = (0..base.vertex_count()).map(|v| base.vertex_label(v)).collect();
    let mut ranks: Vec<u64> = (0..base.vertex_count()).map(|v| base.spatial_rank(v)).collect();
    let mut edges: Vec<MeshEdge> = (0..base.edge_count()).map(|e| base.edge(e)).collect();
    let mut faces: Vec<MeshFace> = (0..base.face_count()).map(|f| base.face(f)).collect();
    for (slice, first) in [(0, 0), (t - 1, (t - 1) * n)] {
        let surplus = labels.len();
        labels.push(Some(slice as u32));
        ranks.push(0);
        edges.push(MeshEdge { a: surplus, b: first });
        edges.push(MeshEdge { a: surplus, b: first + 1 });
        faces.push(MeshFace { v0: surplus, v1: first, v2: first + 1 });
    }
    CdtMesh::new(labels, ranks, edges, faces).expect("surplus strip indices are in range")
}

/// The mesh without vertex `v`, its incident edges and faces.
fn without_vertex(mesh: &CdtMesh, v: usize) -> Result<CdtMesh, String> {
    if v >= mesh.vertex_count() {
        return Err(format!("vertex {v} does not exist"));
    }
    let index = |u: usize| if u > v { u - 1 } else { u };
    let labels = (0..mesh.vertex_count()).filter(|&u| u != v).map(|u| mesh.vertex_label(u)).collect();
    let ranks = (0..mesh.vertex_count()).filter(|&u| u != v).map(|u| mesh.spatial_rank(u)).collect();
    let edges = (0..mesh.edge_count())
        .map(|e| mesh.edge(e))
        .filter(|e| e.a != v && e.b != v)
        .map(|e| MeshEdge { a: index(e.a), b: index(e.b) })
        .collect();
    let faces = (0..mesh.face_count())
        .map(|f| mesh.face(f))
        .filter(|f| f.v0 != v && f.v1 != v && f.v2 != v)
        .map(|f| MeshFace { v0: index(f.v0), v1: index(f.v1), v2: index(f.v2) })
        .collect();
    CdtMesh::new(labels, ranks, edges, faces).ok_or_else(|| "removal left an inconsistent mesh".to_string())
}

#[test]
fn test_from_filtered_delaunay_strip_removes_surplus_invalid_vertices() {
    let tri = CdtTriangulation::from_filtered_delaunay_strip(4, 3, || Ok(strip_with_surplus(4, 3)), without_vertex)
        .expect("filtered strip should build");
    assert_eq!(tri.vertex_count(), 12);
    assert_eq!(tri.slice_sizes(), &[4, 4, 4]);
    assert!(tri.has_foliation());
    assert!(tri.validate_topology().is_ok());
    assert!(tri.validate_foliation().is_ok());
    assert!(tri.validate_causality_delaunay().is_ok());
    assert!(tri.validate_simplex_classification().is_ok());
    assert_eq!(tri.strict_causal_simplex_violation_count(), Ok(0));
}

#[test]
fn test_from_filtered_delaunay_strip_accepts_two_slice_boundary() {
    let tri = CdtTriangulation::from_filtered_delaunay_strip(4, 2, || Ok(strip_with_surplus(4, 2)), without_vertex)
        .expect("filtered strip should build without surplus vertices");
    assert_eq!(tri.vertex_count(), 8);
    assert_eq!(tri.face_count(), 6);
    assert_eq!(tri.slice_sizes(), &[4, 4]);
    assert!(tri.has_foliation());
    assert!(tri.validate_topology().is_ok());
    assert!(tri.validate_foliation().is_ok());
    assert!(tri.validate_causality_delaunay().is_ok());
    assert!(tri.validate_simplex_classification().is_ok());
    assert_eq!(tri.strict_causal_simplex_violation_count(), Ok(0));
}

fn same_slice_non_strict_triangle() -> CdtTriangulation {
    let mut tri = CdtTriangulation::try_new(triangle_mesh([0, 0, 0]), 1, 2).expect("single triangle has χ = 1");
    tri.assign_foliation_from_bands(&vec![0, 0, 0], 1).expect("one slice holds every vertex");
    tri
}

#[test]
fn test_invalid_simplex_removal_candidate_allows_surplus_same_slice_vertex() {
    let tri = same_slice_non_strict_triangle();
    let candidate = tri
        .invalid_simplex_removal_candidate(2, 3, 2)
        .expect("surplus same-slice face should be inspectable")
        .expect("same-slice face should yield a removable vertex");
    assert_eq!(tri.geometry().vertex_label(candidate), Some(0));
}

#[test]
fn test_invalid_simplex_removal_candidate_respects_minimum_slice_size() {
    let tri = same_slice_non_strict_triangle();
    match tri.invalid_simplex_removal_candidate(3, 3, 2) {
        Err(CdtError::DelaunayGenerationFailed {
            vertex_count: 3,
            coordinate_range: CoordinateRange { start: 0, end: 2 },
            attempt: 1,
            failure: DelaunayGenerationFailure::MinimumSliceSizeReached { minimum_slice_size: 3, .. },
        }) => {}
        other => panic!("minimum slice size should prevent removal, got {other:?}"),
    }
}

#[test]
fn test_invalid_simplex_removal_candidate_returns_none_for_strict_strip() {
    let tri = strict_strip(4, 2);
    assert_eq!(tri.invalid_simplex_removal_candidate(4, 8, 2), Ok(None));
}

#[test]
fn test_filter_invalid_open_delaunay_simplices_rejects_missing_live_label() {
    let mut tri = same_slice_non_strict_triangle();
    tri.set_vertex_data(0, None);
    assert_eq!(
        tri.filter_invalid_open_delaunay_simplices(2, 1, 3, 2, without_vertex),
        Err(CdtError::Foliation(FoliationError::MissingVertexLabel { vertex: 0 }))
    );
}

#[test]
fn test_filter_invalid_open_delaunay_simplices_reports_pass_budget_exhaustion() {
    let mut tri = same_slice_non_strict_triangle();
    assert_eq!(
        tri.filter_invalid_open_delaunay_simplices(2, 0, 3, 2, without_vertex),
        Err(CdtError::DelaunayGenerationFailed {
            vertex_count: 3,
            coordinate_range: CoordinateRange { start: 0, end: 2 },
            attempt: 1,
            failure: DelaunayGenerationFailure::FilterPassBudgetExhausted { max_passes: 0, remaining_violations: 1 },
        })
    );
}

#[test]
fn test_from_filtered_delaunay_strip_rejects_invalid_parameters() {
    let generate = || Ok(strip_mesh(4, 2));
    let (issue, _, _) = parameter_error(CdtTriangulation::from_filtered_delaunay_strip(3, 3, generate, without_vertex));
    assert_eq!(issue, GenerationParameterIssue::InsufficientVerticesPerSlice);

    let (issue, _, _) = parameter_error(CdtTriangulation::from_filtered_delaunay_strip(4, 1, generate, without_vertex));
    assert_eq!(issue, GenerationParameterIssue::InsufficientNumberOfTimeSlices);

    let (issue, provided, expected) =
        parameter_error(CdtTriangulation::from_filtered_delaunay_strip(u32::MAX, 2, generate, without_vertex));
    assert_eq!(issue, GenerationParameterIssue::VertexCountOverflow);
    assert_eq!(provided, "4294967295 × 2");
    assert_eq!(expected, "product ≤ u32::MAX");

    let (issue, provided, expected) =
        parameter_error(CdtTriangulation::from_filtered_delaunay_strip(1_431_655_765, 3, generate, without_vertex));
    assert_eq!(issue, GenerationParameterIssue::VertexCountOverflow);
    assert_eq!(provided, "4294967295 + 2");
    assert_eq!(expected, "sum ≤ u32::MAX");
}

#[test]
fn test_from_cdt_strip_profile_builds_nonuniform_valid_mesh() {
    let tri = CdtTriangulation::from_cdt_strip_profile(&vec![4, 6, 5], || Ok(profile_strip_mesh(&[4, 6, 5])))
        .expect("nonuniform strip should build");
    assert_eq!(tri.vertex_count(), 15);
    assert_eq!(tri.face_count(), 17);
    assert_eq!(tri.slice_sizes(), &[4, 6, 5]);
    assert_eq!(tri.volume_profile().expect("nonuniform strip profile should be valid").len(), 3);
    assert!(tri.validate_topology().is_ok());
    assert!(tri.validate_foliation().is_ok());
    assert!(tri.validate_causality_delaunay().is_ok());
    assert!(tri.validate_simplex_classification().is_ok());
}

#[test]
fn test_from_cdt_strip_profile_rejects_too_few_slices() {
    let (issue, provided, expected) =
        parameter_error(CdtTriangulation::from_cdt_strip_profile(&vec![4], || Ok(strip_mesh(4, 2))));
    assert_eq!(issue, GenerationParameterIssue::InsufficientNumberOfTimeSlices);
    assert_eq!(provided, "1");
    assert_eq!(expected, "≥ 2 for open-boundary topology");
}

#[test]
fn test_explicit_strip_count_validation_rejects_face_mismatch() {
    let tri = strict_strip(4, 2);
    assert_eq!(
        validate_strip_counts(tri.geometry(), 8, 8, 7, 1),
        Err(CdtError::DelaunayGenerationFailed {
            vertex_count: 8,
            coordinate_range: CoordinateRange { start: 0, end: 1 },
            attempt: 1,
            failure: DelaunayGenerationFailure::MeshSizeMismatch {
                actual_vertices: 8,
                expected_vertices: 8,
                actual_faces: 6,
                expected_faces: 7,
            },
        })
    );
}

#[test]
fn test_simplex_type_returns_up_or_down() {
    let tri = strict_strip(5, 3);
    for face in 0..tri.face_count() {
        assert!(matches!(tri.simplex_type(face), Ok(Some(SimplexType::Up | SimplexType::Down))));
    }
}

#[test]
fn test_from_toroidal_cdt_basic() {
    let tri = torus(4, 3);
    assert_eq!(tri.vertex_count(), 12);
    assert_eq!(tri.face_count(), 24);
    assert_eq!(tri.edge_count(), 36);
    assert_eq!(tri.geometry().euler_characteristic(), 0);
    assert_eq!(tri.dimension(), 2);
    assert_eq!(tri.time_slices(), 3);
    assert_eq!(tri.topology(), CdtTopology::Toroidal);
}

#[test]
fn test_from_toroidal_cdt_various_sizes() {
    for (n, t) in [(3_u32, 3_u32), (4, 3), (5, 4), (6, 5), (8, 4)] {
        let tri = torus(n, t);
        let nt = (n as usize) * (t as usize);
        assert_eq!(tri.vertex_count(), nt);
        assert_eq!(tri.face_count(), 2 * nt);
        assert_eq!(tri.edge_count(), 3 * nt);
        assert_eq!(tri.geometry().euler_characteristic(), 0);
    }
}

#[test]
fn test_from_toroidal_cdt_foliation_per_slice() {
    let tri = torus(5, 4);
    assert!(tri.has_foliation());
    assert_eq!(tri.slice_sizes(), &[5, 5, 5, 5]);
    for t in 0..4 {
        assert_eq!(tri.vertices_at_time(t).len(), 5, "slice {t} should contain N=5 vertices");
    }
}

#[test]
fn test_from_toroidal_cdt_profile_builds_nonuniform_valid_mesh() {
    let tri = CdtTriangulation::from_toroidal_cdt_profile(&vec![3, 4, 5, 4], |_c: u8, _a: u32| {
        Ok(profile_torus_mesh(&[3, 4, 5, 4]))
    })
    .expect("nonuniform toroidal CDT should build");
    assert_eq!(tri.vertex_count(), 16);
    assert_eq!(tri.face_count(), 32);
    assert_eq!(tri.edge_count(), 48);
    assert_eq!(tri.slice_sizes(), &[3, 4, 5, 4]);
    assert_eq!(tri.geometry().euler_characteristic(), 0);
    assert_eq!(tri.topology(), CdtTopology::Toroidal);
    assert!(tri.validate_topology().is_ok());
    assert!(tri.validate_foliation().is_ok());
    assert!(tri.validate_causality().is_ok());
    assert!(tri.validate_simplex_classification().is_ok());
}

#[test]
fn test_from_toroidal_cdt_profile_rejects_invalid_profile() {
    let build = |_c: u8, _a: u32| Ok(torus_mesh(3, 3));
    let (issue, provided, expected) = parameter_error(CdtTriangulation::from_toroidal_cdt_profile(&vec![3, 4], build));
    assert_eq!(issue, GenerationParameterIssue::InsufficientNumberOfTimeSlices);
    assert_eq!(provided, "2");
    assert_eq!(expected, "≥ 3 for toroidal topology");

    let (issue, provided, expected) =
        parameter_error(CdtTriangulation::from_toroidal_cdt_profile(&vec![3, 2, 3], build));
    assert_eq!(issue, GenerationParameterIssue::InsufficientVerticesInVolumeProfileSlice);
    assert_eq!(provided, "slice 1 has 2");
    assert_eq!(expected, "each slice ≥ 3 for toroidal topology");
}

#[test]
fn test_from_toroidal_cdt_initializes_delaunay_pl_manifold() {
    let tri = torus(4, 3);
    assert_eq!(tri.vertex_count(), 12);
    assert_eq!(tri.face_count(), 24);
    tri.validate_topology().expect("initial toroidal CDT must satisfy torus topology");
    tri.validate_foliation().expect("initial toroidal CDT must have valid time-slice foliation");
    tri.validate_causality().expect("initial toroidal CDT must only contain adjacent-slice edges");
    tri.validate_simplex_classification().expect("every face is an Up or Down CDT simplex");
}

#[test]
fn test_from_toroidal_cdt_each_slice_is_closed_s1() {
    let tri = torus(6, 4);
    tri.validate_foliation().expect("periodic toroidal CDT must satisfy closed-S¹ per-slice invariant");
}

#[test]
fn test_from_toroidal_cdt_invalid_params() {
    let build = |_c: u8, _a: u32| Ok(torus_mesh(3, 3));
    let (issue, provided, expected) = parameter_error(CdtTriangulation::from_toroidal_cdt(2, 3, build));
    assert_eq!(issue, GenerationParameterIssue::InsufficientVerticesPerSlice);
    assert_eq!(provided, "2");
    assert_eq!(expected, "≥ 3");
    for slices in [1, 2] {
        let (issue, provided, expected) = parameter_error(CdtTriangulation::from_toroidal_cdt(4, slices, build));
        assert_eq!(issue, GenerationParameterIssue::InsufficientNumberOfTimeSlices);
        assert_eq!(provided, slices.to_string());
        assert_eq!(expected, "≥ 3");
    }
}

#[test]
fn test_from_toroidal_cdt_rejects_vertex_count_overflow() {
    let (issue, provided, expected) =
        parameter_error(CdtTriangulation::from_toroidal_cdt(u32::MAX, 3, |_c: u8, _a: u32| Ok(torus_mesh(3, 3))));
    assert_eq!(issue, GenerationParameterIssue::VertexCountOverflow);
    assert_eq!(provided, "4294967295 × 3");
    assert_eq!(expected, "product ≤ u32::MAX");
}

#[test]
fn test_periodic_toroidal_count_validation_rejects_face_mismatch() {
    let tri = torus(4, 3);
    assert_eq!(
        validate_toroidal_counts(tri.geometry(), 12, 12, 23, CoordinateRange { start: 0, end: 3 }, 5),
        Err(CdtError::DelaunayGenerationFailed {
            vertex_count: 12,
            coordinate_range: CoordinateRange { start: 0, end: 3 },
            attempt: 5,
            failure: DelaunayGenerationFailure::MeshSizeMismatch {
                actual_vertices: 12,
                expected_vertices: 12,
                actual_faces: 24,
                expected_faces: 23,
            },
        })
    );
}

#[test]
fn test_toroidal_simplex_classification_uses_temporal_wrap() {
    let tri = torus(4, 3);
    let mut saw_wrap_up = false;
    let mut saw_wrap_down = false;
    let mut saw_wrap_timelike_edge = false;
    for face in 0..tri.face_count() {
        let f = tri.geometry().face(face);
        let labels: Vec<u32> =
            [f.v0, f.v1, f.v2].iter().map(|&v| tri.geometry().vertex_label(v).expect("labeled")).collect();
        if labels.contains(&0) && labels.contains(&2) {
            let simplex_type = tri.simplex_type(face).expect("query").expect("wrap face should classify");
            let edge_types = tri.face_edge_types(face).expect("query").expect("wrap face edge types");
            saw_wrap_timelike_edge |= edge_types.iter().any(|e| matches!(e, EdgeType::Timelike));
            let zero_count = labels.iter().filter(|&&l| l == 0).count();
            let two_count = labels.iter().filter(|&&l| l == 2).count();
            let is_wrap_up = zero_count == 1 && two_count == 2;
            let is_wrap_down = zero_count == 2 && two_count == 1;
            if is_wrap_up {
                assert_eq!(simplex_type, SimplexType::Up);
            }
            if is_wrap_down {
                assert_eq!(simplex_type, SimplexType::Down);
            }
            saw_wrap_up |= is_wrap_up;
            saw_wrap_down |= is_wrap_down;
        }
    }
    assert!(saw_wrap_up, "expected an Up simplex across the temporal wrap");
    assert!(saw_wrap_down, "expected a Down simplex across the temporal wrap");
    assert!(saw_wrap_timelike_edge, "expected a timelike edge across the temporal wrap");
}

#[test]
fn open_strip_volume_profile_ends_with_an_empty_slab() {
    let tri = CdtTriangulation::from_cdt_strip_profile(&vec![4, 6, 5], || Ok(profile_strip_mesh(&[4, 6, 5])))
        .expect("nonuniform strip should build");
    assert_eq!(tri.volume_profile(), Ok(vec![8, 9, 0]));
    assert_eq!(strict_strip(5, 4).volume_profile(), Ok(vec![8, 8, 8, 0]));
}

#[test]
fn filter_runs_pass_after_pass_until_strict_or_out_of_budget() {
    let mut tri = CdtTriangulation::try_new(strip_with_surplus(4, 3), 3, 2).expect("surplus strip wraps");
    tri.filter_invalid_open_delaunay_simplices(4, 5, 14, 3, without_vertex).expect("two removals suffice");
    assert_eq!(tri.vertex_count(), 12);
    assert_eq!(tri.strict_causal_simplex_violation_count(), Ok(0));

    let mut tri = CdtTriangulation::try_new(strip_with_surplus(4, 3), 3, 2).expect("surplus strip wraps");
    assert_eq!(
        tri.filter_invalid_open_delaunay_simplices(4, 1, 14, 3, without_vertex),
        Err(CdtError::DelaunayGenerationFailed {
            vertex_count: 14,
            coordinate_range: CoordinateRange { start: 0, end: 3 },
            attempt: 2,
            failure: DelaunayGenerationFailure::FilterPassBudgetExhausted { max_passes: 1, remaining_violations: 1 },
        })
    );
    assert_eq!(tri.vertex_count(), 13);

    let calls = RefCell::new(0);
    let flaky = |mesh: &CdtMesh, v: usize| {
        *calls.borrow_mut() += 1;
        if *calls.borrow() == 1 { without_vertex(mesh, v) } else { Err("cavity could not be filled".to_string()) }
    };
    let mut tri = CdtTriangulation::try_new(strip_with_surplus(4, 3), 3, 2).expect("surplus strip wraps");
    assert_eq!(
        tri.filter_invalid_open_delaunay_simplices(4, 5, 14, 3, flaky),
        Err(CdtError::BackendMutationFailed {
            operation: BackendMutationOperation::RemoveVertex,
            target: "vertex 12".to_string(),
            detail: "cavity could not be filled".to_string(),
        })
    );
}
