//! Typed errors for configuration, construction, foliation, and validation.
//!
//! Every variant carries structured values; the human-readable text fields are
//! rendered by the functions that raise them from the same values.

use crate::config::CdtTopology;
use vstd::prelude::*;

verus! {

/// Configuration entry that a validation error refers to.
#[derive(Debug, Clone, Copy, PartialEq, Eq)]
pub enum ConfigurationSetting {
    Dimension,
    Vertices,
    Timeslices,
    SpatialVertexProfile,
    Temperature,
    Steps,
    ThermalizationSteps,
    MeasurementFrequency,
    MeasurementSchedule,
    Coupling0,
    Coupling2,
    CosmologicalConstant,
}

/// Kind of invalid generation parameter supplied to a CDT builder.
#[derive(Debug, Clone, Copy, PartialEq, Eq)]
pub enum GenerationParameterIssue {
    EmptyVolumeProfile,
    VolumeProfileLengthOverflow,
    InsufficientNumberOfTimeSlices,
    InsufficientVerticesInVolumeProfileSlice,
    InsufficientVerticesPerSlice,
    InsufficientVertexCount,
    VertexCountOverflow,
    SimplexCountOverflow,
    InvalidCoordinateRange,
}

/// Simplex count named by an [`CdtError::InvalidSimplexCount`] error.
#[derive(Debug, Clone, Copy, PartialEq, Eq)]
pub enum SimplexCountField {
    Vertices,
    Edges,
    Triangles,
}

/// Metadata field named by an [`CdtError::InvalidTriangulationMetadata`] error.
#[derive(Debug, Clone, Copy, PartialEq, Eq)]
pub enum TriangulationMetadataField {
    Timeslices,
    Dimension,
}

/// Measurement counter named by an [`CdtError::MeasurementCountOverflow`] error.
#[derive(Debug, Clone, Copy, PartialEq, Eq)]
pub enum MeasurementCountField {
    Triangles,
}

/// Quantity whose numeric conversion failed during mesh generation.
#[derive(Debug, Clone, Copy, PartialEq, Eq)]
pub enum DelaunayGenerationQuantity {
    SliceVolume,
    SliceIndex,
    TotalVertices,
    TotalFaces,
    VerticesPerSlice,
    TimeSlices,
}

/// Stage of mesh generation at which an upstream builder failed.
#[derive(Debug, Clone, Copy, PartialEq, Eq)]
pub enum DelaunayGenerationStage {
    PointGeneration,
    VertexConstruction,
    TriangulationConstruction,
}

/// Mesh mutation that a backend failed to perform.
#[derive(Debug, Clone, Copy, PartialEq, Eq)]
pub enum BackendMutationOperation {
    RemoveVertex,
}

/// Validation level of a failed Delaunay check.
#[derive(Debug, Clone, Copy, PartialEq, Eq)]
pub enum DelaunayValidationLevel {
    Four,
    Five,
}

/// Reason a mesh generation attempt failed.
#[derive(Debug, Clone, PartialEq, Eq)]
pub enum DelaunayGenerationFailure {
    /// The upstream builder rejected its input.
    Upstream { stage: DelaunayGenerationStage, detail: String },
    /// The built mesh has other vertex or face counts than requested.
    MeshSizeMismatch {
        actual_vertices: usize,
        expected_vertices: usize,
        actual_faces: usize,
        expected_faces: usize,
    },
    /// A count does not fit the platform index type.
    NumericConversion { quantity: DelaunayGenerationQuantity },
    /// No embedding candidate was available.
    NoEmbeddingCandidates,
    /// A non-strict face has only vertices in slices at their minimum size.
    MinimumSliceSizeReached { face: usize, minimum_slice_size: usize },
    /// The filtering pass budget ran out with violations left.
    FilterPassBudgetExhausted { max_passes: u32, remaining_violations: usize },
    /// Filtering found no vertex it could remove.
    NoRemovableFilterVertex { remaining_violations: usize },
}

/// The coordinate interval a generation attempt placed its points in.
///
/// Every builder lays its points out on a lattice whose extent is a whole
/// number of lattice spacings, so both ends are integers.
#[derive(Debug, Clone, Copy, PartialEq, Eq)]
pub struct CoordinateRange {
    pub start: i64,
    pub end: i64,
}

/// Which validation pass detected a failure.
#[derive(Debug, Clone, Copy, PartialEq, Eq)]
pub enum CdtValidationCheck {
    Geometry,
    Causality,
    SimplexClassification,
    FoliationAssignment,
}

/// What a validation pass found wrong.
#[derive(Debug, Clone, PartialEq, Eq)]
pub enum CdtValidationFailure {
    /// A face is not a strict Up `(2,1)` or Down `(1,2)` triangle.
    NonStrictSimplex { face: usize },
    /// A vertex carries no time label.
    MissingVertexTimeLabel { vertex: usize },
    /// A face does not have one spacelike and two timelike edges.
    InvalidCdtTriangle { face: usize, spacelike_edges: u32, timelike_edges: u32 },
    /// A geometry query reported an error.
    BackendGeometry { detail: String },
}

/// A timelike edge between two adjacent open-boundary slices, given by its
/// lower and upper vertex.
#[derive(Debug, Clone, Copy, PartialEq, Eq)]
pub struct SlabEdge {
    pub lower: usize,
    pub upper: usize,
}

/// Violations of foliation bookkeeping and slice structure.
#[derive(Debug, Clone, PartialEq, Eq)]
pub enum FoliationError {
    /// Slice sizes do not have one entry per time slice.
    SliceSizeMismatch { slice_sizes_len: usize, num_slices: u32 },
    /// A time slice holds no vertex.
    EmptySlice { slice: usize },
    /// The slice sizes add up to more than `usize::MAX`.
    LabelCountOverflow,
    /// The labeled vertex count differs from the mesh vertex count.
    LabelCountMismatch { labeled: usize, expected: usize },
    /// A vertex carries no time label.
    MissingVertexLabel { vertex: usize },
    /// A vertex label lies outside `0..expected_range_end`.
    OutOfRangeVertexLabel { vertex: usize, label: u32, expected_range_end: usize },
    /// Stored and live per-slice counts differ.
    LabelMismatch { slice: usize, expected: usize, actual: usize },
    /// No foliation is stored.
    MissingBookkeeping,
    /// The stored foliation predates the current geometry revision.
    StaleBookkeeping { synced_at_modification: Option<u64>, current_modification_count: u64 },
    /// A slice has no timelike neighbour across the periodic time direction.
    MissingTemporalWrapAround { slice: usize, missing_neighbor: usize },
    /// The spacelike subgraph of a slice has another vertex count than stored.
    SpacelikeSubgraphSizeMismatch { slice: usize, observed: usize, expected: usize },
    /// A vertex of a periodic slice does not have exactly two spacelike neighbours.
    SpacelikeDegreeViolation { slice: usize, vertex: usize, observed_degree: usize },
    /// The spacelike subgraph of a periodic slice is not one closed ring.
    SpacelikeNonClosedRing { slice: usize, walked: usize, expected: usize },
    /// A vertex of an open slice has more than two spacelike neighbours (or a
    /// single-vertex slice has any).
    SpacelikeOpenSliceDegreeViolation { slice: usize, vertex: usize, observed_degree: usize },
    /// An open slice does not have exactly two path endpoints.
    SpacelikeOpenSliceEndpointCount { slice: usize, observed: usize, expected: usize },
    /// The spacelike subgraph of an open slice is not one simple path.
    SpacelikeNonOpenInterval { slice: usize, walked: usize, expected: usize },
    /// The path order of an open slice disagrees with its spatial order.
    OpenBoundarySpatialOrderMismatch { slice: usize, path_vertices: usize, coordinate_vertices: usize },
    /// Two timelike edges of one slab cross.
    OpenBoundarySlabEdgeCrossing {
        lower_slice: usize,
        first_edge: SlabEdge,
        second_edge: SlabEdge,
    },
}

/// Errors raised by this library.
#[derive(Debug, Clone, PartialEq, Eq)]
pub enum CdtError {
    /// A configuration value violates a geometry, topology, or count rule.
    InvalidConfiguration { setting: ConfigurationSetting, provided_value: String, expected: String },
    /// A Metropolis schedule value is invalid.
    InvalidSimulationConfiguration {
        setting: ConfigurationSetting,
        provided_value: String,
        expected: String,
    },
    /// A builder received parameters outside its supported range.
    InvalidGenerationParameters {
        issue: GenerationParameterIssue,
        provided_value: String,
        expected_range: String,
    },
    /// Mesh generation failed.
    DelaunayGenerationFailed {
        vertex_count: u32,
        coordinate_range: CoordinateRange,
        attempt: u32,
        failure: DelaunayGenerationFailure,
    },
    /// Delaunay validation of a built mesh failed.
    DelaunayValidationFailed { level: DelaunayValidationLevel, detail: String },
    /// A simplex count is zero.
    InvalidSimplexCount { field: SimplexCountField, provided_value: usize },
    /// Triangulation metadata is invalid for its topology.
    InvalidTriangulationMetadata {
        field: TriangulationMetadataField,
        topology: CdtTopology,
        provided_value: String,
        expected: String,
    },
    /// Only dimension 2 is supported.
    UnsupportedDimension(u32),
    /// Foliation bookkeeping is inconsistent.
    Foliation(FoliationError),
    /// A validation pass failed.
    ValidationFailed { check: CdtValidationCheck, failure: CdtValidationFailure },
    /// An edge of a face spans more than one time step.
    CausalityViolation { time_0: u32, time_1: u32, step_distance: u32 },
    /// The Euler characteristic does not match the topology.
    TopologyMismatch {
        topology: CdtTopology,
        euler_characteristic: i128,
        expected_euler_characteristics: Vec<i128>,
        vertices: usize,
        edges: usize,
        faces: usize,
    },
    /// The geometry backend failed to mutate the mesh.
    BackendMutationFailed { operation: BackendMutationOperation, target: String, detail: String },
    /// A measurement counter does not fit its storage.
    MeasurementCountOverflow { field: MeasurementCountField, provided_value: usize, max: u32 },
}

/// `e` is an [`CdtError::InvalidGenerationParameters`] error with these
/// contents.
pub open spec fn is_parameter_error(e: CdtError, issue: GenerationParameterIssue, provided: Seq<char>, expected: Seq<char>) -> bool {
    e matches CdtError::InvalidGenerationParameters { issue: i, provided_value, expected_range } && i == issue
        && provided_value@ == provided && expected_range@ == expected
}

} // verus!
