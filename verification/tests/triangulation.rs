use causal_triangulations::config::CdtTopology;
use causal_triangulations::errors::{
    CdtError, CdtValidationCheck, CdtValidationFailure, DelaunayValidationLevel, FoliationError, SimplexCountField,
    SlabEdge, TriangulationMetadataField,
};
use causal_triangulations::foliation::{EdgeType, Foliation, SimplexType};
use causal_triangulations::mesh::{CdtMesh, MeshEdge, MeshFace};
use causal_triangulations::triangulation::checks::{validation_detail, CdtValidationProfile, GeometryCheckError};
use causal_triangulations::triangulation::validation::{
    first_slab_crossing, orders_match_with_orientation, slab_edges_share_endpoint,
};
use causal_triangulations::triangulation::{CdtSimplexCounts, CdtTriangulation};

fn strip_mesh(n: usize, t: usize) -> CdtMesh {
    let mut labels = Vec::new();
    let mut ranks = Vec::new();
    for s in 0..t {
        for i in 0..n {
            labels.push(Some(s as u32));
            ranks.push((i * t + s) as u64);
        }
    }
    let v = |s: usize, i: usize| s * n + i;
    let mut edges = Vec::new();
    let mut faces = Vec::new();
    for s in 0..t {
        for i in 0..n - 1 {
            edges.push(MeshEdge { a: v(s, i), b: v(s, i + 1) });
        }
    }
    for s in 0..t - 1 {
        for i in 0..n {
            edges.push(MeshEdge { a: v(s, i), b: v(s + 1, i) });
        }
        for i in 0..n - 1 {
            edges.push(MeshEdge { a: v(s, i + 1), b: v(s + 1, i) });
            faces.push(MeshFace { v0: v(s, i), v1: v(s, i + 1), v2: v(s + 1, i) });
            faces.push(MeshFace { v0: v(s, i + 1), v1: v(s + 1, i + 1), v2: v(s + 1, i) });
        }
    }
    CdtMesh::new(labels, ranks, edges, faces).expect("strip indices are in range")
}

fn torus_mesh(n: usize, t: usize) -> CdtMesh {
    let mut labels = Vec::new();
    let mut ranks = Vec::new();
    for s in 0..t {
        for i in 0..n {
            labels.push(Some(s as u32));
            ranks.push((i * t + s) as u64);
        }
    }
    let v = |s: usize, i: usize| (s % t) * n + (i % n);
    let mut edges = Vec::new();
    let mut faces = Vec::new();
    for s in 0..t {
        for i in 0..n {
            edges.push(MeshEdge { a: v(s, i), b: v(s, i + 1) });
            edges.push(MeshEdge { a: v(s, i), b: v(s + 1, i) });
            edges.push(MeshEdge { a: v(s, i + 1), b: v(s + 1, i) });
            faces.push(MeshFace { v0: v(s, i), v1: v(s, i + 1), v2: v(s + 1, i) });
            faces.push(MeshFace { v0: v(s, i + 1), v1: v(s + 1, i + 1), v2: v(s + 1, i) });
        }
    }
    CdtMesh::new(labels, ranks, edges, faces).expect("torus indices are in range")
}

fn triangle(labels: [u32; 3]) -> CdtMesh {
    CdtMesh::new(
        labels.iter().map(|&l| Some(l)).collect(),
        vec![0, 2, 1],
        vec![MeshEdge { a: 0, b: 1 }, MeshEdge { a: 1, b: 2 }, MeshEdge { a: 2, b: 0 }],
        vec![MeshFace { v0: 0, v1: 1, v2: 2 }],
    )
    .expect("triangle indices are in range")
}

fn strict_strip(n: u32, t: u32) -> CdtTriangulation {
    CdtTriangulation::from_cdt_strip(n, t, || Ok(strip_mesh(n as usize, t as usize))).expect("strip should build")
}

#[test]
fn simplex_counts_reject_zero_counts_before_storage() {
    assert_eq!(
        CdtSimplexCounts::try_new(3, 0, 1).err(),
        Some(CdtError::InvalidSimplexCount { field: SimplexCountField::Edges, provided_value: 0 })
    );
    let counts = CdtSimplexCounts::try_new(8, 13, 6).expect("positive counts");
    assert_eq!((counts.vertices(), counts.edges(), counts.triangles()), (8, 13, 6));
}

#[test]
fn triangulation_simplex_counts_preserve_nonzero_counts() {
    let tri = strict_strip(4, 3);
    let counts = tri.simplex_counts().expect("constructed strip has positive counts");
    assert_eq!(counts.vertices(), tri.vertex_count());
    assert_eq!(counts.edges(), tri.edge_count());
    assert_eq!(counts.triangles(), tri.face_count());
}

#[test]
fn test_try_new_rejects_zero_time_slices_and_dimension_mismatch() {
    match CdtTriangulation::try_new(triangle([0, 0, 1]), 0, 2) {
        Err(CdtError::InvalidTriangulationMetadata { field, topology, provided_value, expected }) => {
            assert_eq!(field, TriangulationMetadataField::Timeslices);
            assert_eq!(topology, CdtTopology::OpenBoundary);
            assert_eq!(provided_value, "0");
            assert_eq!(expected, "≥ 1");
        }
        other => panic!("unexpected {other:?}"),
    }
    match CdtTriangulation::try_new(triangle([0, 0, 1]), 2, 3) {
        Err(CdtError::InvalidTriangulationMetadata { field, provided_value, expected, .. }) => {
            assert_eq!(field, TriangulationMetadataField::Dimension);
            assert_eq!(provided_value, "3");
            assert_eq!(expected, "backend dimension (2)");
        }
        other => panic!("unexpected {other:?}"),
    }
}

#[test]
fn try_new_rejects_an_open_boundary_with_the_wrong_euler_characteristic() {
    match CdtTriangulation::try_new(torus_mesh(3, 3), 3, 2) {
        Err(CdtError::TopologyMismatch { topology, euler_characteristic, expected_euler_characteristics, .. }) => {
            assert_eq!(topology, CdtTopology::OpenBoundary);
            assert_eq!(euler_characteristic, 0);
            assert_eq!(expected_euler_characteristics, vec![1, 2]);
        }
        other => panic!("unexpected {other:?}"),
    }
}

#[test]
fn toroidal_topology_needs_three_slices() {
    match CdtTriangulation::with_topology(torus_mesh(3, 3), 2, 2, CdtTopology::Toroidal) {
        Err(CdtError::InvalidTriangulationMetadata { field, expected, .. }) => {
            assert_eq!(field, TriangulationMetadataField::Timeslices);
            assert_eq!(expected, "≥ 3");
        }
        other => panic!("unexpected {other:?}"),
    }
}

#[test]
fn set_time_slices_noop_and_change() {
    let mut tri = strict_strip(4, 2);
    let before = tri.modification_count();
    tri.set_time_slices(2).expect("unchanged count is accepted");
    assert_eq!(tri.modification_count(), before);
    assert!(tri.has_foliation());

    tri.set_time_slices(3).expect("open boundary can widen");
    assert_eq!(tri.time_slices(), 3);
    assert_eq!(tri.modification_count(), before + 1);
    assert!(!tri.has_foliation());
    assert!(tri.slice_sizes().is_empty());
}

#[test]
fn cache_refresh_tracks_edge_count() {
    let mut tri = strict_strip(4, 2);
    tri.refresh_cache();
    assert_eq!(tri.edge_count(), 13);
    tri.bump_modification_count();
    assert_eq!(tri.edge_count(), 13);
}

#[test]
fn validate_foliation_is_vacuous_without_foliation() {
    let tri = CdtTriangulation::try_new(strip_mesh(4, 2), 2, 2).expect("strip wraps");
    assert_eq!(tri.validate_foliation(), Ok(()));
    assert_eq!(tri.validate_causality(), Ok(()));
}

#[test]
fn validate_foliation_rejects_stale_bookkeeping_before_live_labels() {
    let mut tri = CdtTriangulation::from_labeled_delaunay(triangle([0, 0, 1]), 2, 2).expect("labels preserved");
    tri.set_vertex_data(0, None);
    assert!(matches!(
        tri.validate_foliation(),
        Err(CdtError::Foliation(FoliationError::StaleBookkeeping { .. }))
    ));
    assert!(!tri.has_foliation());
    assert!(tri.has_stored_foliation());
}

#[test]
fn synchronizing_foliation_detects_missing_and_out_of_range_live_labels() {
    let mut tri = CdtTriangulation::from_labeled_delaunay(triangle([0, 0, 1]), 2, 2).expect("labels preserved");
    tri.set_vertex_data(0, None);
    assert_eq!(
        tri.synchronize_foliation_from_live_labels(),
        Err(CdtError::Foliation(FoliationError::MissingVertexLabel { vertex: 0 }))
    );

    let mut tri = CdtTriangulation::from_labeled_delaunay(triangle([0, 0, 1]), 2, 2).expect("labels preserved");
    tri.set_vertex_data(0, Some(7));
    assert_eq!(
        tri.synchronize_foliation_from_live_labels(),
        Err(CdtError::Foliation(FoliationError::OutOfRangeVertexLabel {
            vertex: 0,
            label: 7,
            expected_range_end: 2,
        }))
    );
}

#[test]
fn synchronizing_after_a_label_rewrite_restores_current_foliation() {
    let mut tri = strict_strip(4, 2);
    tri.set_vertex_data(0, Some(0));
    assert!(!tri.has_foliation());
    tri.synchronize_foliation_from_live_labels().expect("labels are unchanged");
    assert!(tri.has_foliation());
    assert_eq!(tri.slice_sizes(), &[4, 4]);
    assert_eq!(tri.simplex_type_from_data(0), Ok(Some(SimplexType::Up)));
}

#[test]
fn classification_rejects_same_slice_triangle() {
    assert_eq!(
        CdtTriangulation::from_labeled_delaunay(triangle([0, 0, 0]), 1, 2).err(),
        Some(CdtError::Foliation(FoliationError::SpacelikeOpenSliceEndpointCount {
            slice: 0,
            observed: 0,
            expected: 2,
        }))
    );
}

#[test]
fn face_and_edge_queries_follow_the_labels() {
    let tri = strict_strip(4, 2);
    assert_eq!(tri.simplex_type(0), Ok(Some(SimplexType::Up)));
    assert_eq!(tri.simplex_type(1), Ok(Some(SimplexType::Down)));
    assert_eq!(tri.edge_type(0), Ok(Some(EdgeType::Spacelike)));
    assert_eq!(tri.edge_type(6), Ok(Some(EdgeType::Timelike)));
    assert_eq!(tri.face_edge_types(0), Ok(Some([EdgeType::Spacelike, EdgeType::Timelike, EdgeType::Timelike])));
    assert_eq!(tri.time_label(5), Ok(Some(1)));
    assert_eq!(tri.vertices_at_time(1), vec![4, 5, 6, 7]);
    assert_eq!(tri.simplex_type_from_data(0), Ok(Some(SimplexType::Up)));
    assert!(tri.simplex_type(99).is_err());
}

#[test]
fn stale_foliation_hides_public_queries() {
    let mut tri = strict_strip(4, 2);
    tri.set_vertex_data(0, Some(0));
    assert_eq!(tri.simplex_type(0), Ok(None));
    assert_eq!(tri.simplex_type_from_data(0), Ok(None));
    assert_eq!(tri.time_label(0), Ok(None));
    assert!(tri.vertices_at_time(0).is_empty());
    assert_eq!(tri.volume_profile(), Ok(vec![]));
    assert!(matches!(tri.validate_causality(), Err(CdtError::Foliation(FoliationError::StaleBookkeeping { .. }))));
}

#[test]
fn strict_causal_simplex_violation_count_reports_non_strict_faces() {
    let mut tri = CdtTriangulation::try_new(triangle([0, 0, 0]), 1, 2).expect("single triangle has χ = 1");
    tri.assign_foliation_from_bands(&vec![0, 0, 0], 1).expect("one band holds every vertex");
    assert_eq!(tri.strict_causal_simplex_violation_count(), Ok(1));
    assert_eq!(
        tri.validate_simplex_classification(),
        Err(CdtError::ValidationFailed {
            check: CdtValidationCheck::SimplexClassification,
            failure: CdtValidationFailure::NonStrictSimplex { face: 0 },
        })
    );
    assert_eq!(
        tri.validate_causality(),
        Err(CdtError::ValidationFailed {
            check: CdtValidationCheck::Causality,
            failure: CdtValidationFailure::InvalidCdtTriangle { face: 0, spacelike_edges: 3, timelike_edges: 0 },
        })
    );
}

#[test]
fn causality_violation_reports_the_step_distance() {
    let mut tri = CdtTriangulation::try_new(triangle([0, 0, 2]), 3, 2).expect("triangle wraps");
    tri.assign_foliation_from_bands(&vec![0, 1, 2], 3).expect("three bands");
    tri.set_vertex_data(1, Some(0));
    tri.synchronize_foliation_from_live_labels().expect_err("slice 1 is empty now");
    let mut tri = CdtTriangulation::try_new(triangle([0, 0, 2]), 3, 2).expect("triangle wraps");
    tri.assign_foliation_from_bands(&vec![0, 2, 1], 3).expect("three bands");
    assert_eq!(
        tri.validate_causality(),
        Err(CdtError::CausalityViolation { time_0: 0, time_1: 2, step_distance: 2 })
    );
}

#[test]
fn assign_foliation_from_bands_writes_labels_and_bookkeeping() {
    let mut tri = CdtTriangulation::try_new(strip_mesh(4, 2), 2, 2).expect("strip wraps");
    let before = tri.modification_count();
    tri.assign_foliation_from_bands(&vec![0, 0, 0, 0, 1, 1, 1, 1], 2).expect("two bands");
    assert!(tri.has_foliation());
    assert_eq!(tri.slice_sizes(), &[4, 4]);
    assert_eq!(tri.slice_sizes().iter().sum::<usize>(), tri.vertex_count());
    assert_eq!(tri.modification_count(), before + 1);
    assert_eq!(tri.simplex_type_from_data(0), Ok(None));
    assert_eq!(tri.validate_foliation(), Ok(()));
}

#[test]
fn assign_foliation_from_bands_error_paths_preserve_state() {
    let mut tri = strict_strip(4, 2);
    assert_eq!(
        tri.assign_foliation_from_bands(&vec![0, 0, 0, 0, 0, 0, 0, 0], 2),
        Err(CdtError::Foliation(FoliationError::EmptySlice { slice: 1 }))
    );
    assert!(tri.has_foliation());
    assert_eq!(tri.slice_sizes(), &[4, 4]);

    let mut torus = CdtTriangulation::from_toroidal_cdt(3, 3, |_c: u8, _a: u32| Ok(torus_mesh(3, 3))).expect("torus");
    match torus.assign_foliation_from_bands(&vec![0, 0, 0, 1, 1, 1, 1, 1, 1], 2) {
        Err(CdtError::InvalidTriangulationMetadata { field, expected, .. }) => {
            assert_eq!(field, TriangulationMetadataField::Timeslices);
            assert_eq!(expected, "≥ 3");
        }
        other => panic!("unexpected {other:?}"),
    }
    assert_eq!(torus.time_slices(), 3);
}

#[test]
fn reassigning_foliation_with_other_bands_breaks_open_intervals() {
    let mut tri = strict_strip(4, 3);
    tri.assign_foliation_from_bands(&vec![0, 0, 0, 0, 1, 1, 1, 1, 1, 1, 1, 1], 2).expect("two bands");
    assert_eq!(tri.time_slices(), 2);
    assert_eq!(tri.slice_sizes(), &[4, 8]);
    assert!(matches!(tri.validate_foliation(), Err(CdtError::Foliation(_))));
}

#[test]
fn validate_foliation_rejects_stored_label_count_mismatch() {
    let mut tri = strict_strip(4, 2);
    tri.assign_foliation_from_bands(&vec![0, 0, 0, 0, 1, 1, 1, 1], 2).expect("two bands");
    assert_eq!(tri.validate_foliation(), Ok(()));
    let foliation = Foliation::from_slice_sizes(vec![4, 4], 2).expect("positive sizes");
    assert_eq!(foliation.slice_sizes(), &vec![4, 4]);
    assert_eq!(foliation.labeled_vertex_count(), 8);
    assert_eq!(
        Foliation::from_slice_sizes(vec![4, 0], 2).err(),
        Some(FoliationError::EmptySlice { slice: 1 })
    );
    assert_eq!(
        Foliation::from_slice_sizes(vec![4], 2).err(),
        Some(FoliationError::SliceSizeMismatch { slice_sizes_len: 1, num_slices: 2 })
    );
}

#[test]
fn volume_profile_counts_temporal_wrap_slab() {
    let tri = CdtTriangulation::from_toroidal_cdt(4, 3, |_c: u8, _a: u32| Ok(torus_mesh(4, 3))).expect("torus");
    let profile = tri.volume_profile().expect("valid torus has a profile");
    assert_eq!(profile, vec![8, 8, 8]);
    assert_eq!(profile.iter().sum::<u32>(), 24);

    let strip = strict_strip(4, 3);
    assert_eq!(strip.volume_profile(), Ok(vec![6, 6, 0]));
}

#[test]
fn named_profiles_reject_unfoliated_state() {
    let tri = CdtTriangulation::try_new(strip_mesh(4, 2), 2, 2).expect("strip wraps");
    for profile in [CdtValidationProfile::InitialDelaunay, CdtValidationProfile::Evolved, CdtValidationProfile::StrictDelaunay] {
        assert_eq!(
            tri.validate_with_profile(profile, Ok(())),
            Err(CdtError::Foliation(FoliationError::MissingBookkeeping))
        );
    }
}

#[test]
fn named_profiles_accept_a_strict_strip() {
    let tri = strict_strip(4, 3);
    assert_eq!(tri.validate(Ok(())), Ok(()));
    assert_eq!(tri.validate_with_profile(CdtValidationProfile::StrictDelaunay, Ok(())), Ok(()));
    assert_eq!(tri.validate_domain(), Ok(()));
}

#[test]
fn validate_reports_embedding_failure_with_triangulation_counts() {
    let tri = strict_strip(4, 2);
    assert_eq!(
        tri.validate(Err(GeometryCheckError::ValidationFailed { detail: "overlapping faces".to_string() })),
        Err(CdtError::DelaunayValidationFailed {
            level: DelaunayValidationLevel::Four,
            detail: "overlapping faces; triangulation counts: V=8, E=13, F=6".to_string(),
        })
    );
    assert_eq!(
        tri.validate_with_profile(
            CdtValidationProfile::InitialDelaunay,
            Err(GeometryCheckError::Other { message: "not Delaunay".to_string() }),
        ),
        Err(CdtError::DelaunayValidationFailed {
            level: DelaunayValidationLevel::Five,
            detail: "not Delaunay".to_string(),
        })
    );
    assert_eq!(validation_detail(GeometryCheckError::ValidationFailed { detail: "d".to_string() }), "d");
}

#[test]
fn classify_all_simplices_stores_payloads() {
    let mut tri = CdtTriangulation::try_new(strip_mesh(4, 2), 2, 2).expect("strip wraps");
    assert_eq!(tri.classify_all_simplices(), Ok(None));
    tri.assign_foliation_from_bands(&vec![0, 0, 0, 0, 1, 1, 1, 1], 2).expect("two bands");
    assert_eq!(tri.classify_all_simplices(), Ok(Some(6)));
    assert_eq!(tri.simplex_type_from_data(1), Ok(Some(SimplexType::Down)));
}

#[test]
fn removal_candidate_prefers_extreme_labels_of_the_first_bad_face() {
    let mut tri = CdtTriangulation::try_new(triangle([0, 0, 2]), 3, 2).expect("triangle wraps");
    tri.assign_foliation_from_bands(&vec![0, 2, 1], 3).expect("three bands");
    assert_eq!(tri.invalid_simplex_removal_candidate(0, 3, 3), Ok(Some(0)));
    assert!(matches!(
        tri.invalid_simplex_removal_candidate(1, 3, 3),
        Err(CdtError::DelaunayGenerationFailed { .. })
    ));
    let strip = strict_strip(4, 2);
    assert_eq!(strip.invalid_simplex_removal_candidate(1, 8, 2), Ok(None));
}

#[test]
fn volume_profile_and_violations_account_for_every_face() {
    let strip = strict_strip(4, 3);
    let profile = strip.volume_profile().expect("strip profile");
    let violations = strip.strict_causal_simplex_violation_count().expect("current foliation");
    assert_eq!(profile.iter().map(|&c| c as usize).sum::<usize>() + violations, strip.face_count());

    let mut flat = CdtTriangulation::try_new(triangle([0, 0, 0]), 1, 2).expect("single triangle has χ = 1");
    flat.assign_foliation_from_bands(&vec![0, 0, 0], 1).expect("one band holds every vertex");
    let profile = flat.volume_profile().expect("flat profile");
    assert_eq!(profile, vec![0]);
    assert_eq!(flat.strict_causal_simplex_violation_count(), Ok(1));
    assert_eq!(flat.face_count(), 1);
}

fn checked_strict_strip(n: u32, t: u32) -> CdtTriangulation {
    let tri = strict_strip(n, t);
    assert_eq!(tri.vertex_count(), n as usize * t as usize);
    assert_eq!(tri.face_count(), 2 * (n as usize - 1) * (t as usize - 1));
    assert_eq!(tri.slice_sizes(), vec![n as usize; t as usize].as_slice());
    tri.validate_foliation().expect("strip foliation should validate");
    tri.validate_causality_delaunay().expect("strip causality should validate");
    tri.validate_simplex_classification().expect("all strip simplices should classify");
    assert_eq!(tri.strict_causal_simplex_violation_count(), Ok(0));
    tri
}

#[test]
fn slice_order_matching_accepts_only_coordinate_order_or_reversal() {
    let tri = checked_strict_strip(4, 2);
    let path_order = tri.vertices_at_time(0);
    let reversed_order: Vec<usize> = path_order.iter().rev().copied().collect();
    let mut rotated_order = path_order.clone();
    rotated_order.rotate_left(1);
    assert!(orders_match_with_orientation(&path_order, &path_order));
    assert!(orders_match_with_orientation(&path_order, &reversed_order));
    assert!(
        !orders_match_with_orientation(&path_order, &rotated_order),
        "cyclic rotations are not valid for open-boundary interval slices"
    );
}

fn slice_positions(tri: &CdtTriangulation, slice: u32) -> Vec<Option<usize>> {
    let mut positions = vec![None; tri.vertex_count()];
    for (index, vertex) in tri.vertices_at_time(slice).into_iter().enumerate() {
        positions[vertex] = Some(index);
    }
    positions
}

#[test]
fn first_slab_crossing_ignores_incident_edges_and_reports_inversion() {
    let tri = checked_strict_strip(4, 2);
    let lower = tri.vertices_at_time(0);
    let upper = tri.vertices_at_time(1);
    let lower_positions = slice_positions(&tri, 0);
    let upper_positions = slice_positions(&tri, 1);
    let incident_edges =
        vec![SlabEdge { lower: lower[0], upper: upper[3] }, SlabEdge { lower: lower[0], upper: upper[0] }];
    let crossing_edges =
        vec![SlabEdge { lower: lower[0], upper: upper[3] }, SlabEdge { lower: lower[1], upper: upper[1] }];
    assert!(slab_edges_share_endpoint(&incident_edges[0], &incident_edges[1]));
    assert!(
        first_slab_crossing(&incident_edges, &lower_positions, &upper_positions).is_none(),
        "edges sharing a vertex are incident and should not be reported as crossings"
    );
    let (first, second) = first_slab_crossing(&crossing_edges, &lower_positions, &upper_positions)
        .expect("expected an inverted non-incident edge pair to be reported");
    assert_eq!(crossing_edges[first], crossing_edges[0]);
    assert_eq!(crossing_edges[second], crossing_edges[1]);
}

#[test]
fn slab_crossing_skips_missing_positions_and_ties() {
    let tri = checked_strict_strip(4, 2);
    let lower = tri.vertices_at_time(0);
    let upper = tri.vertices_at_time(1);
    let mut lower_positions = slice_positions(&tri, 0);
    let mut upper_positions = slice_positions(&tri, 1);
    let crossing_edges =
        vec![SlabEdge { lower: lower[0], upper: upper[3] }, SlabEdge { lower: lower[1], upper: upper[1] }];
    assert!(first_slab_crossing(&crossing_edges, &lower_positions, &upper_positions).is_some());

    lower_positions[lower[1]] = None;
    assert!(
        first_slab_crossing(&crossing_edges, &lower_positions, &upper_positions).is_none(),
        "edges missing lower position data should be skipped rather than reported"
    );
    lower_positions[lower[1]] = Some(0);
    assert!(
        first_slab_crossing(&crossing_edges, &lower_positions, &upper_positions).is_none(),
        "edges with the same lower rank are not ordered crossings"
    );
    lower_positions[lower[1]] = Some(1);
    upper_positions[upper[3]] = None;
    assert!(
        first_slab_crossing(&crossing_edges, &lower_positions, &upper_positions).is_none(),
        "edges missing upper position data should be skipped rather than reported"
    );
}

/// Band of each vertex of a regular strip when its `t` slices at heights
/// `0..t` are cut into `bands` equal bands.
fn strip_bands(n: usize, t: usize, bands: u32) -> Vec<u32> {
    let height = (t - 1) as f64;
    (0..t)
        .flat_map(|s| {
            let band = if height == 0.0 { 0 } else { ((s as f64 / height) * f64::from(bands)) as u32 };
            std::iter::repeat(band.min(bands - 1)).take(n)
        })
        .collect()
}

#[test]
fn assign_foliation_by_y_updates_metadata_invalidates_cache_and_writes_labels() {
    let mut tri = CdtTriangulation::try_new(strip_mesh(5, 3), 3, 2).expect("strip wraps");
    let initial_modification_count = tri.modification_count();
    let initial_edge_count = tri.edge_count();
    tri.refresh_cache();
    tri.assign_foliation_from_bands(&strip_bands(5, 3, 3), 3).expect("Should assign foliation");
    assert!(tri.has_foliation());
    assert_eq!(tri.time_slices(), 3);
    assert_eq!(tri.slice_sizes().iter().sum::<usize>(), tri.vertex_count());
    assert_eq!(tri.modification_count(), initial_modification_count + 1);
    assert_eq!(tri.edge_count(), initial_edge_count);
    for v in 0..tri.vertex_count() {
        assert!(tri.time_label(v).is_ok_and(|label| label.is_some()));
    }
}

#[test]
fn assign_foliation_by_y_error_paths_preserve_state() {
    let mut tri = CdtTriangulation::try_new(strip_mesh(4, 2), 2, 2).expect("strip wraps");
    let initial_time_slices = tri.time_slices();
    let initial_modification_count = tri.modification_count();
    let requested_slices = u32::try_from(tri.vertex_count()).expect("vertex count fits") + 1;
    let bands: Vec<u32> = (0..tri.vertex_count() as u32).collect();
    assert!(matches!(
        tri.assign_foliation_from_bands(&bands, requested_slices),
        Err(CdtError::Foliation(FoliationError::EmptySlice { .. }))
    ));
    assert_eq!(tri.time_slices(), initial_time_slices);
    assert_eq!(tri.modification_count(), initial_modification_count);
    assert!(!tri.has_foliation());
    for v in 0..tri.vertex_count() {
        assert_eq!(tri.geometry().vertex_label(v), Some((v / 4) as u32));
    }
}

#[test]
fn assign_foliation_by_y_rejects_invalid_toroidal_slice_count() {
    let mut tri = CdtTriangulation::from_toroidal_cdt(4, 3, |_c: u8, _a: u32| Ok(torus_mesh(4, 3))).expect("torus");
    let initial_slice_sizes = tri.slice_sizes().to_vec();
    match tri.assign_foliation_from_bands(&vec![0, 0, 0, 0, 0, 0, 1, 1, 1, 1, 1, 1], 2) {
        Err(CdtError::InvalidTriangulationMetadata { field, topology, provided_value, expected }) => {
            assert_eq!(field, TriangulationMetadataField::Timeslices);
            assert_eq!(topology, CdtTopology::Toroidal);
            assert_eq!(provided_value, "2");
            assert_eq!(expected, "≥ 3");
        }
        other => panic!("unexpected {other:?}"),
    }
    assert_eq!(tri.time_slices(), 3);
    assert_eq!(tri.slice_sizes(), initial_slice_sizes.as_slice());
    assert!(tri.has_foliation());
}

#[test]
fn foliation_queries_report_current_labels_only() {
    let mut tri = CdtTriangulation::try_new(triangle([0, 0, 0]), 1, 2).expect("single triangle has χ = 1");
    assert!(!tri.has_foliation());
    assert!(tri.foliation().is_none());
    assert!(tri.slice_sizes().is_empty());
    assert!(tri.vertices_at_time(0).is_empty());
    tri.assign_foliation_from_bands(&vec![0, 0, 0], 1).expect("Should assign single-slice foliation");
    assert!(tri.has_foliation());
    assert_eq!(tri.slice_sizes(), &[tri.vertex_count()]);
    assert_eq!(tri.vertices_at_time(0).len(), tri.vertex_count());
    assert!(tri.vertices_at_time(999).is_empty());
    for v in 0..tri.vertex_count() {
        assert_eq!(tri.time_label(v), Ok(Some(0)));
    }
}

#[test]
fn stale_foliation_hides_public_queries_and_fails_validation() {
    let mut tri = checked_strict_strip(4, 2);
    let label = tri.geometry().vertex_label(0).expect("strip vertices should be labeled");
    tri.set_vertex_data(0, Some(label));
    assert!(!tri.has_foliation());
    assert!(tri.foliation().is_none());
    assert_eq!(tri.time_label(0), Ok(None));
    assert!(tri.vertices_at_time(label).is_empty());
    assert_eq!(tri.edge_type(0), Ok(None));
    assert_eq!(tri.simplex_type(0), Ok(None));
    assert_eq!(tri.face_edge_types(0), Ok(None));
    assert_eq!(tri.simplex_type_from_data(0), Ok(None));
    assert!(matches!(
        tri.strict_causal_simplex_violation_count(),
        Err(CdtError::Foliation(FoliationError::StaleBookkeeping { .. }))
    ));
    for result in [tri.validate_foliation(), tri.validate_causality(), tri.validate_simplex_classification()] {
        assert!(matches!(result, Err(CdtError::Foliation(FoliationError::StaleBookkeeping { .. }))));
    }
}

#[test]
fn face_and_simplex_classification_cover_foliated_and_unfoliated_states() {
    let tri = CdtTriangulation::try_new(strip_mesh(5, 2), 2, 2).expect("strip wraps");
    for face in 0..tri.face_count() {
        assert_eq!(tri.face_edge_types(face), Ok(None));
        assert_eq!(tri.simplex_type(face), Ok(None));
    }
    tri.validate_simplex_classification().expect("missing foliation should validate vacuously");
    assert_eq!(
        tri.strict_causal_simplex_violation_count(),
        Err(CdtError::Foliation(FoliationError::MissingBookkeeping))
    );

    let mut tri = checked_strict_strip(5, 3);
    for face in 0..tri.face_count() {
        let edge_types = tri.face_edge_types(face).expect("face query").expect("face edge types");
        assert_eq!(edge_types.iter().filter(|e| matches!(e, EdgeType::Spacelike)).count(), 1);
        assert_eq!(edge_types.iter().filter(|e| matches!(e, EdgeType::Timelike)).count(), 2);
    }
    let classified = tri.classify_all_simplices().expect("classify").expect("foliation is present");
    assert_eq!(classified, tri.face_count());
}

#[test]
fn classification_payloads_are_cleared_when_foliation_becomes_stale() {
    let mut tri = CdtTriangulation::from_labeled_delaunay(triangle([0, 0, 1]), 2, 2).expect("labels preserved");
    assert_eq!(tri.simplex_type_from_data(0), tri.simplex_type(0));
    let live_ct = tri.simplex_type(0).expect("query").expect("classifiable");
    assert!(matches!(live_ct, SimplexType::Up | SimplexType::Down));
    tri.classify_all_simplices().expect("classify").expect("foliation is present");
    assert_eq!(tri.simplex_type_from_data(0), Ok(Some(live_ct)));
    tri.set_vertex_data(0, Some(7));
    assert_eq!(tri.simplex_type_from_data(0), Ok(None));
}

#[test]
fn reassigning_foliation_clears_stale_simplex_payloads() {
    let mut tri = strict_strip(5, 3);
    tri.assign_foliation_from_bands(&strip_bands(5, 3, 3), 3).expect("First foliation assignment should succeed");
    tri.classify_all_simplices().expect("classify").expect("foliation is present");
    tri.assign_foliation_from_bands(&strip_bands(5, 3, 2), 2).expect("Re-assignment should succeed");
    assert_eq!(tri.time_slices(), 2);
    assert_eq!(tri.slice_sizes().len(), 2);
    assert_eq!(tri.slice_sizes().iter().sum::<usize>(), tri.vertex_count());
    for face in 0..tri.face_count() {
        assert_eq!(tri.simplex_type_from_data(face), Ok(None));
    }
    assert!(matches!(
        tri.validate_foliation(),
        Err(CdtError::Foliation(
            FoliationError::SpacelikeNonOpenInterval { .. }
                | FoliationError::OpenBoundarySpatialOrderMismatch { .. }
                | FoliationError::SpacelikeOpenSliceDegreeViolation { .. }
        ))
    ));
}

#[test]
fn volume_profile_is_empty_without_current_foliation() {
    let tri = CdtTriangulation::try_new(strip_mesh(5, 3), 3, 2).expect("strip wraps");
    assert!(tri.volume_profile().expect("missing foliation should not fail").is_empty());
    let mut tri = checked_strict_strip(4, 2);
    let label = tri.geometry().vertex_label(0).expect("labeled");
    tri.set_vertex_data(0, Some(label));
    assert!(tri.volume_profile().expect("stale foliation should not fail").is_empty());
}

#[test]
fn named_profiles_accept_initial_delaunay_state() {
    let tri = strict_strip(4, 3);
    for profile in [CdtValidationProfile::InitialDelaunay, CdtValidationProfile::Evolved, CdtValidationProfile::StrictDelaunay] {
        tri.validate_with_profile(profile, Ok(()))
            .unwrap_or_else(|error| panic!("{profile:?} should accept initial state: {error:?}"));
    }
}

#[test]
fn evolved_profile_rejects_noncausal_foliated_state() {
    let mut tri = CdtTriangulation::try_new(triangle([0, 0, 0]), 3, 2).expect("triangle enters unfoliated state");
    tri.assign_foliation_from_bands(&vec![0, 1, 2], 3).expect("y bands establish current foliation");
    assert_eq!(
        tri.validate_with_profile(CdtValidationProfile::Evolved, Ok(())),
        Err(CdtError::CausalityViolation { time_0: 0, time_1: 2, step_distance: 2 })
    );
    assert_eq!(tri.validate(Ok(())), Err(CdtError::CausalityViolation { time_0: 0, time_1: 2, step_distance: 2 }));
}

#[test]
fn validate_causality_is_vacuous_without_foliation() {
    let tri = CdtTriangulation::try_new(strip_mesh(5, 2), 2, 2).expect("strip wraps");
    tri.validate_causality().expect("causality should pass without foliation");
}

#[test]
fn causality_violation_detected() {
    let mut tri = CdtTriangulation::try_new(triangle([0, 0, 0]), 2, 2).expect("triangle");
    tri.assign_foliation_from_bands(&vec![0, 0, 1], 2).expect("Should derive foliation from triangle coordinates");
    assert_eq!(tri.slice_sizes(), &[2, 1]);
    tri.validate_causality_delaunay().expect("causal triangle should start causally valid");
    assert!((0..tri.face_count()).any(|face| {
        tri.face_edge_types(face)
            .is_ok_and(|edge_types| edge_types.is_some_and(|ets| ets.iter().any(|e| matches!(e, EdgeType::Timelike))))
    }));
    tri.set_vertex_data(0, Some(3));
    assert!(matches!(
        tri.validate_causality_delaunay(),
        Err(CdtError::Foliation(FoliationError::StaleBookkeeping { .. }))
    ));
}

#[test]
fn validate_causality_rejects_missing_live_label() {
    let mut tri = CdtTriangulation::from_labeled_delaunay(triangle([0, 0, 1]), 2, 2).expect("labels preserved");
    tri.set_vertex_data(0, None);
    assert!(matches!(
        tri.validate_causality_delaunay(),
        Err(CdtError::Foliation(FoliationError::StaleBookkeeping { .. }))
    ));
}

#[test]
fn validate_rejects_all_spacelike_triangle_before_causality_check() {
    assert_eq!(
        CdtTriangulation::from_labeled_delaunay(triangle([0, 0, 0]), 1, 2).err(),
        Some(CdtError::Foliation(FoliationError::SpacelikeOpenSliceEndpointCount { slice: 0, observed: 0, expected: 2 }))
    );
}

#[test]
fn toroidal_causality_violation_reports_circular_step_distance() {
    let mut tri =
        CdtTriangulation::from_toroidal_cdt(3, 10, |_c: u8, _a: u32| Ok(torus_mesh(3, 10))).expect("torus (3, 10)");
    let slice0_vertex = (0..tri.vertex_count()).find(|&v| tri.geometry().vertex_label(v) == Some(0)).expect("slice 0");
    tri.set_vertex_data(slice0_vertex, Some(8));
    assert!(matches!(
        tri.validate_causality_delaunay(),
        Err(CdtError::Foliation(FoliationError::StaleBookkeeping { .. }))
    ));
}

#[test]
fn test_try_new_rejects_zero_time_slices() {
    match CdtTriangulation::try_new(triangle([0, 0, 1]), 0, 2) {
        Err(CdtError::InvalidTriangulationMetadata { field, topology, provided_value, expected }) => {
            assert_eq!(field, TriangulationMetadataField::Timeslices);
            assert_eq!(topology, CdtTopology::OpenBoundary);
            assert_eq!(provided_value, "0");
            assert_eq!(expected, "≥ 1");
        }
        other => panic!("unexpected {other:?}"),
    }
}

#[test]
fn test_try_new_rejects_dimension_mismatch() {
    match CdtTriangulation::try_new(triangle([0, 0, 1]), 2, 3) {
        Err(CdtError::InvalidTriangulationMetadata { field, topology, provided_value, expected }) => {
            assert_eq!(field, TriangulationMetadataField::Dimension);
            assert_eq!(topology, CdtTopology::OpenBoundary);
            assert_eq!(provided_value, "3");
            assert_eq!(expected, "backend dimension (2)");
        }
        other => panic!("unexpected {other:?}"),
    }
}

#[test]
fn test_try_new_rejects_open_boundary_topology_mismatch() {
    match CdtTriangulation::try_new(torus_mesh(3, 3), 3, 2) {
        Err(CdtError::TopologyMismatch { topology, euler_characteristic, expected_euler_characteristics, .. }) => {
            assert_eq!(topology, CdtTopology::OpenBoundary);
            assert_eq!(euler_characteristic, 0);
            assert_eq!(expected_euler_characteristics, vec![1, 2]);
        }
        other => panic!("unexpected {other:?}"),
    }
}

#[test]
fn state_test_basic_properties() {
    let tri = CdtTriangulation::try_new(strip_mesh(4, 2), 4, 2).expect("strip wraps");
    assert_eq!(tri.dimension(), 2);
    assert_eq!(tri.time_slices(), 4);
    assert_eq!(tri.vertex_count(), 8);
    let edge_count = tri.edge_count();
    let face_count = tri.face_count();
    assert!(edge_count > 0, "Should have edges");
    assert!(face_count > 0, "Should have faces");
    assert!(edge_count >= tri.vertex_count(), "Usually E >= V for connected triangulation");
}

#[test]
fn test_metadata_mutation_invalidates_cache() {
    let mut tri = CdtTriangulation::try_new(strip_mesh(4, 2), 2, 2).expect("strip wraps");
    let initial_edge_count = tri.edge_count();
    assert!(initial_edge_count > 0);
    let initial_mod_count = tri.modification_count();
    tri.bump_modification_count();
    assert_eq!(tri.modification_count(), initial_mod_count + 1);
    assert_eq!(tri.edge_count(), initial_edge_count);
}

#[test]
fn state_test_cache_refresh_functionality() {
    let mut tri = CdtTriangulation::try_new(strip_mesh(4, 2), 2, 2).expect("strip wraps");
    let edge_count_1 = tri.edge_count();
    tri.refresh_cache();
    let edge_count_2 = tri.edge_count();
    assert_eq!(edge_count_1, edge_count_2, "Cache should return consistent values");
    assert_eq!(edge_count_1, tri.edge_count(), "Multiple cache hits should be consistent");
}

#[test]
fn state_test_cache_invalidation_on_mutation() {
    let mut tri = CdtTriangulation::try_new(strip_mesh(4, 2), 2, 2).expect("strip wraps");
    tri.refresh_cache();
    let cached_count = tri.edge_count();
    tri.bump_modification_count();
    assert_eq!(cached_count, tri.edge_count(), "Edge count should remain consistent after cache invalidation");
}

#[test]
fn state_test_euler_characteristic() {
    let tri = CdtTriangulation::try_new(strip_mesh(4, 2), 2, 2).expect("strip wraps");
    assert_eq!(tri.geometry().euler_characteristic(), 1);
    assert_eq!(torus_mesh(3, 3).euler_characteristic(), 0);
}

#[test]
fn state_test_validate_topology() {
    for (n, t) in [(4, 2), (5, 3), (4, 4)] {
        let tri = CdtTriangulation::try_new(strip_mesh(n, t), t as u32, 2).expect("strip wraps");
        assert!(tri.validate_topology().is_ok(), "Topology validation should succeed for {n} × {t}");
    }
}

#[test]
fn state_test_modification_count() {
    let mut tri = CdtTriangulation::try_new(strip_mesh(4, 2), 2, 2).expect("strip wraps");
    assert_eq!(tri.modification_count(), 0);
    tri.bump_modification_count();
    assert_eq!(tri.modification_count(), 1);
    tri.bump_modification_count();
    assert_eq!(tri.modification_count(), 2);
    let _geometry = tri.geometry();
    let _edge_count = tri.edge_count();
    assert_eq!(tri.modification_count(), 2);
}

#[test]
fn test_zero_time_slices_rejected() {
    match CdtTriangulation::try_new(strip_mesh(4, 2), 0, 2) {
        Err(CdtError::InvalidTriangulationMetadata { field, provided_value, expected, .. }) => {
            assert_eq!(field, TriangulationMetadataField::Timeslices);
            assert_eq!(provided_value, "0");
            assert_eq!(expected, "≥ 1");
        }
        other => panic!("unexpected {other:?}"),
    }
}

#[test]
fn test_set_time_slices_noop_preserves_metadata() {
    let mut tri = CdtTriangulation::try_new(strip_mesh(4, 2), 2, 2).expect("strip wraps");
    let initial_modification_count = tri.modification_count();
    tri.set_time_slices(2).expect("unchanged time-slice count should be accepted");
    assert_eq!(tri.time_slices(), 2);
    assert_eq!(tri.modification_count(), initial_modification_count);
}

#[test]
fn test_set_time_slices_updates_and_clears_mismatched_foliation() {
    let mut tri = CdtTriangulation::from_labeled_delaunay(triangle([0, 0, 1]), 2, 2).expect("labels preserved");
    let initial_modification_count = tri.modification_count();
    tri.set_time_slices(3).expect("open-boundary time-slice metadata can be widened");
    assert_eq!(tri.time_slices(), 3);
    assert_eq!(tri.modification_count(), initial_modification_count + 1);
    assert!(!tri.has_foliation());
    assert!(tri.slice_sizes().is_empty());
}

#[test]
fn state_test_large_time_slices() {
    let tri = CdtTriangulation::try_new(strip_mesh(4, 2), 100, 2).expect("Should allow large time slice count");
    assert_eq!(tri.time_slices(), 100);
}

#[test]
fn state_test_consistency_across_methods() {
    let tri = strict_strip(4, 3);
    assert_eq!(tri.vertex_count(), tri.geometry().vertex_count(), "Vertex count should be consistent");
    assert_eq!(tri.face_count(), tri.geometry().face_count(), "Face count should be consistent");
    assert_eq!(tri.edge_count(), tri.geometry().edge_count(), "Edge count should be consistent");
}

#[test]
fn state_test_extreme_vertex_counts() {
    let min_tri = CdtTriangulation::try_new(triangle([0, 0, 0]), 1, 2).expect("three vertices");
    assert_eq!(min_tri.vertex_count(), 3);
    let large_tri = CdtTriangulation::try_new(strip_mesh(10, 5), 1, 2).expect("fifty vertices");
    assert_eq!(large_tri.vertex_count(), 50);
    assert!(large_tri.edge_count() > 50, "Large triangulation should have many edges");
    assert!(large_tri.face_count() > 10, "Large triangulation should have many faces");
}

#[test]
fn test_validate_topology_open_boundary() {
    let tri = CdtTriangulation::try_new(strip_mesh(5, 2), 1, 2).expect("strip wraps");
    assert!(tri.validate_topology().is_ok());
}

#[test]
fn test_validate_topology_open_boundary_rejects_chi_zero() {
    match CdtTriangulation::with_topology(torus_mesh(4, 3), 3, 2, CdtTopology::OpenBoundary) {
        Err(CdtError::TopologyMismatch { topology, euler_characteristic, expected_euler_characteristics, .. }) => {
            assert_eq!(topology, CdtTopology::OpenBoundary);
            assert_eq!(euler_characteristic, 0);
            assert_eq!(expected_euler_characteristics, vec![1, 2]);
        }
        other => panic!("unexpected {other:?}"),
    }
}

#[test]
fn test_validate_topology_toroidal_rejects_chi_nonzero() {
    match CdtTriangulation::with_topology(triangle([0, 0, 1]), 3, 2, CdtTopology::Toroidal) {
        Err(CdtError::TopologyMismatch { topology, euler_characteristic, expected_euler_characteristics, .. }) => {
            assert_eq!(topology, CdtTopology::Toroidal);
            assert_eq!(euler_characteristic, 1);
            assert_eq!(expected_euler_characteristics, vec![0]);
        }
        other => panic!("unexpected {other:?}"),
    }
}

#[test]
fn test_toroidal_rejects_few_slices() {
    let mut tri = CdtTriangulation::from_toroidal_cdt(4, 3, |_c: u8, _a: u32| Ok(torus_mesh(4, 3))).expect("torus");
    match tri.set_time_slices(2) {
        Err(CdtError::InvalidTriangulationMetadata { field, topology, provided_value, expected }) => {
            assert_eq!(field, TriangulationMetadataField::Timeslices);
            assert_eq!(topology, CdtTopology::Toroidal);
            assert_eq!(provided_value, "2");
            assert_eq!(expected, "≥ 3");
        }
        other => panic!("unexpected {other:?}"),
    }
    assert_eq!(tri.time_slices(), 3);
    assert!(tri.validate_topology().is_ok());
}

#[test]
fn test_with_topology_rejects_few_toroidal_slices() {
    match CdtTriangulation::with_topology(triangle([0, 0, 1]), 2, 3, CdtTopology::Toroidal) {
        Err(CdtError::InvalidTriangulationMetadata { field, topology, provided_value, expected }) => {
            assert_eq!(field, TriangulationMetadataField::Timeslices);
            assert_eq!(topology, CdtTopology::Toroidal);
            assert_eq!(provided_value, "2");
            assert_eq!(expected, "≥ 3");
        }
        other => panic!("unexpected {other:?}"),
    }
}

#[test]
fn set_vertex_data_marks_foliation_stale_and_invalidates_cache() {
    let mut tri = strict_strip(4, 2);
    let label = tri.geometry().vertex_label(0).expect("strip vertices should be labeled");
    tri.refresh_cache();
    let initial_modification_count = tri.modification_count();
    tri.set_vertex_data(0, Some(label));
    assert_eq!(tri.modification_count(), initial_modification_count + 1);
    assert!(!tri.has_foliation());
    assert!(tri.slice_sizes().is_empty());
}

#[test]
fn triangulation_test_from_labeled_delaunay_preserves_foliation() {
    let tri = CdtTriangulation::from_labeled_delaunay(triangle([0, 0, 1]), 2, 2).expect("labels preserved");
    assert!(tri.has_foliation());
    assert_eq!(tri.slice_sizes(), &[2, 1]);
    assert!(tri.validate_foliation().is_ok());
    for v in 0..tri.vertex_count() {
        assert!(tri.time_label(v).is_ok_and(|label| label.is_some()));
    }
}

#[test]
fn triangulation_test_basic_properties() {
    let tri = CdtTriangulation::try_new(strip_mesh(4, 2), 4, 2).expect("strip wraps");
    assert_eq!(tri.dimension(), 2);
    assert_eq!(tri.time_slices(), 4);
    assert_eq!(tri.vertex_count(), 8);
    assert!(tri.edge_count() > 0);
    assert!(tri.face_count() > 0);
    assert!(tri.edge_count() >= tri.vertex_count());
}

#[test]
fn triangulation_test_cache_refresh_functionality() {
    let mut tri = CdtTriangulation::try_new(strip_mesh(5, 2), 2, 2).expect("strip wraps");
    let edge_count_1 = tri.edge_count();
    tri.refresh_cache();
    assert_eq!(edge_count_1, tri.edge_count());
    assert_eq!(edge_count_1, tri.edge_count());
}

#[test]
fn triangulation_test_cache_invalidation_on_mutation() {
    let mut tri = CdtTriangulation::try_new(strip_mesh(5, 2), 2, 2).expect("strip wraps");
    tri.refresh_cache();
    let cached_count = tri.edge_count();
    tri.bump_modification_count();
    assert_eq!(cached_count, tri.edge_count());
}

#[test]
fn triangulation_test_euler_characteristic() {
    let tri = CdtTriangulation::try_new(strip_mesh(5, 2), 2, 2).expect("strip wraps");
    assert_eq!(tri.geometry().euler_characteristic(), 1);
}

#[test]
fn triangulation_test_validate_topology() {
    for (n, t) in [(4, 2), (5, 2), (6, 3)] {
        let tri = CdtTriangulation::try_new(strip_mesh(n, t), 1, 2).expect("strip wraps");
        assert!(tri.validate_topology().is_ok(), "topology of a {n} × {t} strip");
    }
}

#[test]
fn triangulation_test_modification_count() {
    let mut tri = CdtTriangulation::try_new(strip_mesh(4, 2), 2, 2).expect("strip wraps");
    assert_eq!(tri.modification_count(), 0);
    tri.bump_modification_count();
    assert_eq!(tri.modification_count(), 1);
    let _ = tri.geometry();
    let _ = tri.edge_count();
    assert_eq!(tri.modification_count(), 1);
}

#[test]
fn triangulation_test_large_time_slices() {
    let tri = CdtTriangulation::try_new(strip_mesh(5, 2), 100, 2).expect("large slice counts are allowed");
    assert_eq!(tri.time_slices(), 100);
}

#[test]
fn triangulation_test_consistency_across_methods() {
    let tri = CdtTriangulation::try_new(strip_mesh(4, 2), 3, 2).expect("strip wraps");
    assert_eq!(tri.vertex_count(), tri.geometry().vertex_count());
    assert_eq!(tri.face_count(), tri.geometry().face_count());
    assert_eq!(tri.edge_count(), tri.geometry().edge_count());
}

#[test]
fn triangulation_test_extreme_vertex_counts() {
    let min_tri = CdtTriangulation::try_new(triangle([0, 0, 0]), 1, 2).expect("three vertices");
    assert_eq!(min_tri.vertex_count(), 3);
    let large_tri = CdtTriangulation::try_new(strip_mesh(25, 2), 1, 2).expect("fifty vertices");
    assert_eq!(large_tri.vertex_count(), 50);
    assert!(large_tri.edge_count() > 50);
    assert!(large_tri.face_count() > 10);
}

#[test]
fn test_assign_foliation_by_y() {
    let mut tri = CdtTriangulation::try_new(strip_mesh(5, 3), 3, 2).expect("strip wraps");
    assert!(!tri.has_foliation());
    tri.assign_foliation_from_bands(&strip_bands(5, 3, 3), 3).expect("Should assign foliation");
    assert!(tri.has_foliation());
    assert_eq!(tri.time_slices(), 3);
    assert_eq!(tri.slice_sizes().iter().sum::<usize>(), tri.vertex_count());
    for v in 0..tri.vertex_count() {
        assert!(tri.time_label(v).is_ok_and(|label| label.is_some()));
    }
    let result = tri.validate_foliation();
    assert!(result.is_ok(), "Foliation validation should pass: {result:?}");
}

#[test]
fn test_assign_foliation_single_slice() {
    let mut tri = CdtTriangulation::try_new(strip_mesh(3, 2), 1, 2).expect("strip wraps");
    tri.assign_foliation_from_bands(&vec![0; 6], 1).expect("Should assign single-slice foliation");
    assert!(tri.has_foliation());
    for v in 0..tri.vertex_count() {
        assert_eq!(tri.time_label(v), Ok(Some(0)));
    }
    assert_eq!(tri.slice_sizes(), &[tri.vertex_count()]);
}

#[test]
fn test_no_foliation_queries_return_none() {
    let tri = CdtTriangulation::try_new(strip_mesh(5, 2), 2, 2).expect("strip wraps");
    assert!(!tri.has_foliation());
    assert!(tri.foliation().is_none());
    assert!(tri.slice_sizes().is_empty());
    assert!(tri.vertices_at_time(0).is_empty());
    for v in 0..tri.vertex_count() {
        assert_eq!(tri.time_label(v), Ok(None));
    }
    for face in 0..tri.face_count() {
        assert_eq!(tri.face_edge_types(face), Ok(None));
    }
}

#[test]
fn test_cell_type_no_foliation_returns_none() {
    let tri = CdtTriangulation::try_new(strip_mesh(5, 2), 2, 2).expect("strip wraps");
    assert!(!tri.has_foliation());
    for face in 0..tri.face_count() {
        assert_eq!(tri.simplex_type(face), Ok(None));
    }
}

#[test]
fn test_classify_all_cells_no_foliation_returns_none() {
    let mut tri = CdtTriangulation::try_new(strip_mesh(5, 2), 2, 2).expect("strip wraps");
    assert_eq!(tri.classify_all_simplices().expect("No foliation should classify as a no-op"), None);
}

#[test]
fn metadata_accessors_do_not_require_backend_query_trait() {
    let mut tri = CdtTriangulation::try_new(strip_mesh(4, 2), 2, 2).expect("strip wraps");
    assert_eq!(tri.time_slices(), 2);
    assert_eq!(tri.dimension(), 2);
    assert_eq!(tri.topology(), CdtTopology::OpenBoundary);
    tri.set_time_slices(3).expect("open-boundary metadata update should validate");
    assert_eq!(tri.time_slices(), 3);
    assert_eq!(tri.modification_count(), 1);
}

#[test]
fn topology_errors_name_the_expected_values() {
    match CdtTriangulation::try_new(triangle([0, 0, 1]), 2, 3) {
        Err(CdtError::InvalidTriangulationMetadata { provided_value, expected, .. }) => {
            assert_eq!(provided_value, "3");
            assert_eq!(expected, "backend dimension (2)");
        }
        other => panic!("unexpected {other:?}"),
    }
    match CdtTriangulation::with_topology(triangle([0, 0, 1]), 3, 2, CdtTopology::Toroidal) {
        Err(CdtError::TopologyMismatch { euler_characteristic, expected_euler_characteristics, .. }) => {
            assert_eq!(euler_characteristic, 1);
            assert_eq!(expected_euler_characteristics, vec![0]);
        }
        other => panic!("unexpected {other:?}"),
    }
}

#[test]
fn checkpoint_restore_checks_the_restored_state() {
    let foliation = || Foliation::from_slice_sizes(vec![4, 4, 4], 3).expect("positive sizes");
    let tri = CdtTriangulation::from_checkpoint(
        strip_mesh(4, 3),
        3,
        2,
        CdtTopology::OpenBoundary,
        17,
        Some(foliation()),
        Ok(()),
    )
    .expect("a strict strip restores");
    assert_eq!(tri.modification_count(), 17);
    assert!(tri.has_foliation());
    assert_eq!(tri.slice_sizes(), &[4, 4, 4]);
    assert_eq!(tri.volume_profile(), Ok(vec![6, 6, 0]));

    match CdtTriangulation::from_checkpoint(torus_mesh(3, 3), 2, 2, CdtTopology::Toroidal, 0, None, Ok(())) {
        Err(CdtError::InvalidTriangulationMetadata { field, provided_value, expected, .. }) => {
            assert_eq!(field, TriangulationMetadataField::Timeslices);
            assert_eq!(provided_value, "2");
            assert_eq!(expected, "≥ 3");
        }
        other => panic!("unexpected {other:?}"),
    }
    assert_eq!(
        CdtTriangulation::from_checkpoint(strip_mesh(4, 3), 2, 2, CdtTopology::OpenBoundary, 0, Some(foliation()), Ok(()))
            .err(),
        Some(CdtError::Foliation(FoliationError::SliceSizeMismatch { slice_sizes_len: 3, num_slices: 2 }))
    );
    assert_eq!(
        CdtTriangulation::from_checkpoint(strip_mesh(4, 3), 3, 2, CdtTopology::OpenBoundary, 0, None, Ok(())).err(),
        Some(CdtError::Foliation(FoliationError::MissingBookkeeping))
    );
    assert_eq!(
        CdtTriangulation::from_checkpoint(
            strip_mesh(4, 2),
            2,
            2,
            CdtTopology::OpenBoundary,
            3,
            Some(Foliation::from_slice_sizes(vec![4, 4], 2).expect("positive sizes")),
            Err(GeometryCheckError::ValidationFailed { detail: "overlapping faces".to_string() }),
        )
        .err(),
        Some(CdtError::DelaunayValidationFailed {
            level: DelaunayValidationLevel::Four,
            detail: "overlapping faces; triangulation counts: V=8, E=13, F=6".to_string(),
        })
    );
    assert_eq!(
        CdtTriangulation::from_checkpoint(
            strip_mesh(4, 3),
            3,
            2,
            CdtTopology::OpenBoundary,
            0,
            Some(Foliation::from_slice_sizes(vec![5, 4, 3], 3).expect("positive sizes")),
            Ok(()),
        )
        .err(),
        Some(CdtError::Foliation(FoliationError::LabelMismatch { slice: 0, expected: 5, actual: 4 }))
    );
}

#[test]
fn counter_wrap_advances_the_epoch() {
    let mut tri = CdtTriangulation::from_checkpoint(
        strip_mesh(4, 2),
        2,
        2,
        CdtTopology::OpenBoundary,
        u64::MAX,
        Some(Foliation::from_slice_sizes(vec![4, 4], 2).expect("positive sizes")),
        Ok(()),
    )
    .expect("a strict strip restores");
    assert_eq!((tri.wrap_epoch(), tri.modification_count()), (0, u64::MAX));
    tri.bump_modification_count();
    assert_eq!((tri.wrap_epoch(), tri.modification_count()), (1, 1));
    assert!(!tri.has_foliation());
    tri.bump_modification_count();
    assert_eq!((tri.wrap_epoch(), tri.modification_count()), (1, 2));
}
