//! Metadata, modification tracking, and topology checks.

use crate::config::CdtTopology;
use crate::errors::{CdtError, FoliationError, SimplexCountField, TriangulationMetadataField};
use crate::foliation::Foliation;
use crate::mesh::{euler_of, CdtMesh};
use crate::text::{decimal, decimal_string, owned};
use vstd::prelude::*;
use vstd::string::*;

verus! {

/// Strictly positive vertex, edge, and triangle counts of a CDT triangulation.
#[derive(Debug, Clone, Copy, PartialEq, Eq, Hash)]
pub struct CdtSimplexCounts {
    vertices: usize,
    edges: usize,
    triangles: usize,
}

/// The error for a zero simplex count.
pub open spec fn zero_count_error(field: SimplexCountField) -> CdtError {
    CdtError::InvalidSimplexCount { field, provided_value: 0 }
}

impl CdtSimplexCounts {
    /// The vertex count.
    pub closed spec fn spec_vertices(self) -> usize {
        self.vertices
    }

    /// The edge count.
    pub closed spec fn spec_edges(self) -> usize {
        self.edges
    }

    /// The triangle count.
    pub closed spec fn spec_triangles(self) -> usize {
        self.triangles
    }

    /// Accepts three counts when all of them are positive.
    ///
    /// # Errors
    ///
    /// [`CdtError::InvalidSimplexCount`] naming the first zero count, in the
    /// order vertices, edges, triangles.
    pub fn try_new(vertices: usize, edges: usize, triangles: usize) -> (result: Result<Self, CdtError>)
        ensures
            result matches Ok(c) ==> c.spec_vertices() == vertices && c.spec_edges() == edges
                && c.spec_triangles() == triangles,
            result is Ok <==> (vertices > 0 && edges > 0 && triangles > 0),
            vertices == 0 ==> result == Err::<Self, CdtError>(zero_count_error(SimplexCountField::Vertices)),
            vertices > 0 && edges == 0 ==> result == Err::<Self, CdtError>(
                zero_count_error(SimplexCountField::Edges),
            ),
            vertices > 0 && edges > 0 && triangles == 0 ==> result == Err::<Self, CdtError>(
                zero_count_error(SimplexCountField::Triangles),
            ),
    {
        let vertices = nonzero_simplex_count(SimplexCountField::Vertices, vertices)?;
        let edges = nonzero_simplex_count(SimplexCountField::Edges, edges)?;
        let triangles = nonzero_simplex_count(SimplexCountField::Triangles, triangles)?;
        Ok(CdtSimplexCounts { vertices, edges, triangles })
    }

    /// The vertex count (always positive).
    pub fn vertices(&self) -> (n: usize)
        ensures
            n == self.spec_vertices(),
    {
        self.vertices
    }

    /// The edge count (always positive).
    pub fn edges(&self) -> (n: usize)
        ensures
            n == self.spec_edges(),
    {
        self.edges
    }

    /// The triangle count (always positive).
    pub fn triangles(&self) -> (n: usize)
        ensures
            n == self.spec_triangles(),
    {
        self.triangles
    }

    /// The vertex count.
    pub fn vertex_count(&self) -> (n: usize)
        ensures
            n == self.spec_vertices(),
    {
        self.vertices
    }

    /// The edge count.
    pub fn edge_count(&self) -> (n: usize)
        ensures
            n == self.spec_edges(),
    {
        self.edges
    }

    /// The triangle count.
    pub fn triangle_count(&self) -> (n: usize)
        ensures
            n == self.spec_triangles(),
    {
        self.triangles
    }
}

/// Accepts a positive count.
fn nonzero_simplex_count(field: SimplexCountField, value: usize) -> (result: Result<usize, CdtError>)
    ensures
        value > 0 ==> result == Ok::<usize, CdtError>(value),
        value == 0 ==> result == Err::<usize, CdtError>(zero_count_error(field)),
{
    if value == 0 {
        Err(CdtError::InvalidSimplexCount { field, provided_value: value })
    } else {
        Ok(value)
    }
}

/// A cached count together with the modification counter it was taken at.
#[derive(Debug, Clone, Copy)]
struct CachedCount {
    value: usize,
    modification_count: u64,
}

/// Smallest slice count a topology admits.
pub open spec fn minimum_time_slices(topology: CdtTopology) -> u32 {
    if topology == CdtTopology::Toroidal { 3 } else { 1 }
}

/// The metadata error for an unusable time-slice count.
pub open spec fn time_slice_error_matches(e: CdtError, topology: CdtTopology, time_slices: u32) -> bool {
    e matches CdtError::InvalidTriangulationMetadata { field, topology: t, provided_value, expected }
        && field == TriangulationMetadataField::Timeslices && t == topology
        && provided_value@ == decimal(time_slices as nat)
        && expected@ == (if time_slices == 0 { "≥ 1"@ } else { "≥ 3"@ })
}

/// Euler characteristics a 2D topology admits: 1 or 2 for an open strip, 0
/// for a torus.
pub open spec fn admissible_euler(topology: CdtTopology, chi: int) -> bool {
    if topology == CdtTopology::Toroidal { chi == 0 } else { chi == 1 || chi == 2 }
}

/// The admissible Euler characteristics a topology mismatch reports.
pub open spec fn expected_euler_list(topology: CdtTopology) -> Seq<i128> {
    if topology == CdtTopology::Toroidal { seq![0i128] } else { seq![1i128, 2i128] }
}

/// The metadata error for a dimension other than the mesh's, 2.
pub open spec fn dimension_error_matches(e: CdtError, topology: CdtTopology, dimension: u8) -> bool {
    e matches CdtError::InvalidTriangulationMetadata { field, topology: t, provided_value, expected }
        && field == TriangulationMetadataField::Dimension && t == topology
        && provided_value@ == decimal(dimension as nat) && expected@ == "backend dimension (2)"@
}

/// CDT triangulation: a labeled mesh with CDT metadata and foliation
/// bookkeeping.
///
/// The foliation is current while its synchronization stamp equals the
/// modification counter; every geometry or label edit bumps the counter and so
/// marks the foliation stale until it is rebuilt.
#[derive(Debug)]
pub struct CdtTriangulation {
    mesh: CdtMesh,
    time_slices: u32,
    dimension: u8,
    topology: CdtTopology,
    modification_count: u64,
    foliation: Option<Foliation>,
    foliation_synced_at_modification: Option<u64>,
    cached_edge_count: Option<CachedCount>,
    wrap_epoch: u64,
}

impl CdtTriangulation {
    /// The underlying mesh.
    pub closed spec fn mesh_spec(self) -> CdtMesh {
        self.mesh
    }

    /// Number of time slices.
    pub closed spec fn spec_time_slices(self) -> u32 {
        self.time_slices
    }

    /// Spacetime dimension.
    pub closed spec fn spec_dimension(self) -> u8 {
        self.dimension
    }

    /// Boundary conditions.
    pub closed spec fn spec_topology(self) -> CdtTopology {
        self.topology
    }

    /// Number of modifications made so far.
    pub closed spec fn spec_modification_count(self) -> u64 {
        self.modification_count
    }

    /// How often the modification counter has wrapped around; with the
    /// counter it names each revision of this triangulation once.
    pub closed spec fn spec_wrap_epoch(self) -> u64 {
        self.wrap_epoch
    }

    /// Stored foliation bookkeeping, current or stale.
    pub closed spec fn stored_foliation(self) -> Option<Foliation> {
        self.foliation
    }

    /// Modification count at which the foliation was last synchronized.
    pub closed spec fn synced_at(self) -> Option<u64> {
        self.foliation_synced_at_modification
    }

    /// The stored foliation describes the current geometry revision.
    pub open spec fn has_current(self) -> bool {
        self.stored_foliation() is Some && self.synced_at() == Some(self.spec_modification_count())
    }

    /// The state invariant every triangulation keeps.
    pub closed spec fn wf(self) -> bool {
        &&& self.mesh.consistent()
        &&& self.time_slices >= minimum_time_slices(self.topology)
        &&& (self.foliation matches Some(f) ==> f.slices() == self.time_slices && f.sizes().len() == f.slices())
        &&& (self.foliation_synced_at_modification is Some ==> self.foliation is Some)
        &&& (self.cached_edge_count matches Some(c) ==> (c.modification_count == self.modification_count
            ==> c.value == self.mesh.edges().len()))
    }

    /// Facts about the state that follow from the invariant.
    pub proof fn lemma_wf(self)
        requires
            self.wf(),
        ensures
            self.mesh_spec().consistent(),
            self.spec_time_slices() >= minimum_time_slices(self.spec_topology()),
            self.spec_time_slices() > 0,
            self.stored_foliation() matches Some(f) ==> f.slices() == self.spec_time_slices()
                && f.sizes().len() == f.slices(),
            self.synced_at() is Some ==> self.stored_foliation() is Some,
    {
    }

    /// Validates a time-slice count for a topology.
    ///
    /// # Errors
    ///
    /// [`CdtError::InvalidTriangulationMetadata`] when `time_slices` is 0, or
    /// below 3 for toroidal topology.
    pub fn parse_time_slices(topology: CdtTopology, time_slices: u32) -> (result: Result<u32, CdtError>)
        ensures
            time_slices >= minimum_time_slices(topology) ==> result == Ok::<u32, CdtError>(time_slices),
            time_slices < minimum_time_slices(topology) ==> (result matches Err(e)
                && time_slice_error_matches(e, topology, time_slices)),
    {
        if time_slices == 0 {
            proof { reveal_strlit("≥ 1"); }
            let provided_value = decimal_string(0);
            return Err(CdtError::InvalidTriangulationMetadata {
                field: TriangulationMetadataField::Timeslices,
                topology,
                provided_value,
                expected: owned("≥ 1"),
            });
        }
        if matches!(topology, CdtTopology::Toroidal) && time_slices < 3 {
            proof { reveal_strlit("≥ 3"); }
            return Err(CdtError::InvalidTriangulationMetadata {
                field: TriangulationMetadataField::Timeslices,
                topology,
                provided_value: decimal_string(time_slices as u64),
                expected: owned("≥ 3"),
            });
        }
        Ok(time_slices)
    }

    /// Checks a time-slice count for a topology.
    pub fn check_time_slices(topology: CdtTopology, time_slices: u32) -> (result: Result<(), CdtError>)
        ensures
            result is Ok <==> time_slices >= minimum_time_slices(topology),
            result matches Err(e) ==> time_slice_error_matches(e, topology, time_slices),
    {
        Self::parse_time_slices(topology, time_slices)?;
        Ok(())
    }

    /// Pairs a mesh with unvalidated metadata.
    fn from_parts(mesh: CdtMesh, time_slices: u32, dimension: u8, topology: CdtTopology) -> (result:
        Result<Self, CdtError>)
        requires
            mesh.consistent(),
        ensures
            result is Ok <==> time_slices >= minimum_time_slices(topology),
            result matches Err(e) ==> time_slice_error_matches(e, topology, time_slices),
            result matches Ok(t) ==> t.wf() && t.fresh(mesh, time_slices, dimension, topology) && t == Self::initial(
                mesh,
                time_slices,
                dimension,
                topology,
            ),
    {
        let time_slices = Self::parse_time_slices(topology, time_slices)?;
        Ok(CdtTriangulation {
            mesh,
            time_slices,
            dimension,
            topology,
            modification_count: 0,
            foliation: None,
            foliation_synced_at_modification: None,
            cached_edge_count: None,
            wrap_epoch: 0,
        })
    }

    /// The triangulation a constructor wraps `mesh` in: no modification, no
    /// foliation, no cached count.
    pub closed spec fn initial(mesh: CdtMesh, time_slices: u32, dimension: u8, topology: CdtTopology) -> Self {
        CdtTriangulation {
            mesh,
            time_slices,
            dimension,
            topology,
            modification_count: 0,
            foliation: None,
            foliation_synced_at_modification: None,
            cached_edge_count: None,
            wrap_epoch: 0,
        }
    }

    /// A triangulation restored from a checkpoint: the stored foliation, if
    /// any, is current at the stored modification count; no cached count.
    pub closed spec fn restored(
        mesh: CdtMesh,
        time_slices: u32,
        dimension: u8,
        topology: CdtTopology,
        modification_count: u64,
        foliation: Option<Foliation>,
    ) -> Self {
        CdtTriangulation {
            mesh,
            time_slices,
            dimension,
            topology,
            modification_count,
            foliation,
            foliation_synced_at_modification: if foliation is Some {
                Some(modification_count)
            } else {
                None
            },
            cached_edge_count: None,
            wrap_epoch: 0,
        }
    }

    /// Facts about [`Self::restored`].
    pub proof fn lemma_restored(
        mesh: CdtMesh,
        time_slices: u32,
        dimension: u8,
        topology: CdtTopology,
        modification_count: u64,
        foliation: Option<Foliation>,
    )
        ensures
            ({
                let t = Self::restored(mesh, time_slices, dimension, topology, modification_count, foliation);
                &&& t.mesh_spec() == mesh
                &&& t.spec_time_slices() == time_slices
                &&& t.spec_dimension() == dimension
                &&& t.spec_topology() == topology
                &&& t.spec_modification_count() == modification_count
                &&& t.stored_foliation() == foliation
                &&& t.has_current() == (foliation is Some)
            }),
    {
    }

    /// Builds the state a checkpoint describes.
    pub(crate) fn restore(
        mesh: CdtMesh,
        time_slices: u32,
        dimension: u8,
        topology: CdtTopology,
        modification_count: u64,
        foliation: Option<Foliation>,
    ) -> (t: Self)
        requires
            mesh.consistent(),
            time_slices >= minimum_time_slices(topology),
            foliation matches Some(f) ==> f.slices() == time_slices,
        ensures
            t.wf(),
            t == Self::restored(mesh, time_slices, dimension, topology, modification_count, foliation),
    {
        let synced = match &foliation {
            Some(f) => {
                let _ = f.slice_sizes(); // the slice sizes fit in a Vec, one per slice
                Some(modification_count)
            },
            None => None,
        };
        CdtTriangulation {
            mesh,
            time_slices,
            dimension,
            topology,
            modification_count,
            foliation,
            foliation_synced_at_modification: synced,
            cached_edge_count: None,
            wrap_epoch: 0,
        }
    }

    /// Facts about [`Self::initial`].
    pub proof fn lemma_initial(mesh: CdtMesh, time_slices: u32, dimension: u8, topology: CdtTopology)
        requires
            mesh.consistent(),
            time_slices >= minimum_time_slices(topology),
        ensures
            Self::initial(mesh, time_slices, dimension, topology).wf(),
            Self::initial(mesh, time_slices, dimension, topology).fresh(mesh, time_slices, dimension, topology),
    {
    }

    /// A newly built triangulation of `mesh`: no modification, no foliation.
    pub open spec fn fresh(self, mesh: CdtMesh, time_slices: u32, dimension: u8, topology: CdtTopology) -> bool {
        &&& self.mesh_spec() == mesh
        &&& self.spec_time_slices() == time_slices
        &&& self.spec_dimension() == dimension
        &&& self.spec_topology() == topology
        &&& self.spec_modification_count() == 0
        &&& self.stored_foliation() is None
        &&& self.synced_at() is None
    }

    /// The topology check passes.
    pub open spec fn topology_ok(self) -> bool {
        self.spec_dimension() == 2 ==> admissible_euler(
            self.spec_topology(),
            euler_of(
                self.mesh_spec().labels().len(),
                self.mesh_spec().edges().len(),
                self.mesh_spec().faces().len(),
            ),
        )
    }

    /// The metadata and topology checks pass.
    pub open spec fn metadata_and_topology_ok(self) -> bool {
        &&& self.spec_dimension() == 2
        &&& self.topology_ok()
    }

    /// `e` is the error [`Self::validate_topology`] reports for this state.
    pub open spec fn topology_error_matches(self, e: CdtError) -> bool {
        if self.spec_dimension() != 2 {
            dimension_error_matches(e, self.spec_topology(), self.spec_dimension())
        } else {
            &&& e is TopologyMismatch
            &&& e->TopologyMismatch_topology == self.spec_topology()
            &&& e->TopologyMismatch_expected_euler_characteristics@ == expected_euler_list(self.spec_topology())
            &&& e->TopologyMismatch_euler_characteristic == euler_of(
                self.mesh_spec().labels().len(),
                self.mesh_spec().edges().len(),
                self.mesh_spec().faces().len(),
            )
            &&& e->TopologyMismatch_vertices == self.mesh_spec().labels().len()
            &&& e->TopologyMismatch_edges == self.mesh_spec().edges().len()
            &&& e->TopologyMismatch_faces == self.mesh_spec().faces().len()
        }
    }

    /// Wraps a mesh in an open-boundary CDT triangulation without foliation.
    ///
    /// # Errors
    ///
    /// [`CdtError::InvalidTriangulationMetadata`] when `time_slices == 0` or
    /// `dimension != 2`; [`CdtError::TopologyMismatch`] when the Euler
    /// characteristic is neither 1 nor 2.
    pub fn try_new(mesh: CdtMesh, time_slices: u32, dimension: u8) -> (result: Result<Self, CdtError>)
        requires
            mesh.consistent(),
        ensures
            result matches Ok(t) ==> t.wf() && t.fresh(mesh, time_slices, dimension, CdtTopology::OpenBoundary) && t
                == Self::initial(mesh, time_slices, dimension, CdtTopology::OpenBoundary),
            result is Ok <==> (time_slices >= 1 && dimension == 2 && admissible_euler(
                CdtTopology::OpenBoundary,
                euler_of(mesh.labels().len(), mesh.edges().len(), mesh.faces().len()),
            )),
            time_slices == 0 ==> (result matches Err(e) && time_slice_error_matches(
                e,
                CdtTopology::OpenBoundary,
                time_slices,
            )),
            time_slices >= 1 && dimension != 2 ==> (result matches Err(e) && dimension_error_matches(
                e,
                CdtTopology::OpenBoundary,
                dimension,
            )),
            time_slices >= 1 && dimension == 2 && !admissible_euler(
                CdtTopology::OpenBoundary,
                euler_of(mesh.labels().len(), mesh.edges().len(), mesh.faces().len()),
            ) ==> (result matches Err(e) && Self::initial(
                mesh,
                time_slices,
                dimension,
                CdtTopology::OpenBoundary,
            ).topology_error_matches(e)),
    {
        let tri = Self::from_parts(mesh, time_slices, dimension, CdtTopology::OpenBoundary)?;
        tri.validate_topology()?;
        Ok(tri)
    }

    /// Wraps a mesh in a CDT triangulation with the given topology.
    ///
    /// # Errors
    ///
    /// [`CdtError::InvalidTriangulationMetadata`] when `time_slices` is below
    /// the topology's minimum (1 open, 3 toroidal) or `dimension != 2`;
    /// [`CdtError::TopologyMismatch`] when the Euler characteristic does not
    /// fit the topology.
    pub fn with_topology(mesh: CdtMesh, time_slices: u32, dimension: u8, topology: CdtTopology) -> (result:
        Result<Self, CdtError>)
        requires
            mesh.consistent(),
        ensures
            result matches Ok(t) ==> t.wf() && t.fresh(mesh, time_slices, dimension, topology) && t == Self::initial(
                mesh,
                time_slices,
                dimension,
                topology,
            ),
            time_slices >= minimum_time_slices(topology) && dimension == 2 ==> (result matches Err(e)
                ==> Self::initial(mesh, time_slices, dimension, topology).topology_error_matches(e)),
            result is Ok <==> (time_slices >= minimum_time_slices(topology) && dimension == 2
                && admissible_euler(topology, euler_of(mesh.labels().len(), mesh.edges().len(), mesh.faces().len()))),
            time_slices < minimum_time_slices(topology) ==> (result matches Err(e) && time_slice_error_matches(
                e,
                topology,
                time_slices,
            )),
            time_slices >= minimum_time_slices(topology) && dimension != 2 ==> (result matches Err(e)
                && dimension_error_matches(e, topology, dimension)),
            time_slices >= minimum_time_slices(topology) && dimension == 2 && !admissible_euler(
                topology,
                euler_of(mesh.labels().len(), mesh.edges().len(), mesh.faces().len()),
            ) ==> (result matches Err(e) && Self::initial(mesh, time_slices, dimension, topology).topology_error_matches(e)),
    {
        let tri = Self::from_parts(mesh, time_slices, dimension, topology)?;
        tri.validate_topology()?;
        Ok(tri)
    }

    /// Checks the time-slice count and that the dimension is the mesh's, 2.
    fn validate_metadata(&self) -> (result: Result<(), CdtError>)
        requires
            self.wf(),
        ensures
            result is Ok <==> self.spec_dimension() == 2,
            result matches Err(e) ==> dimension_error_matches(e, self.spec_topology(), self.spec_dimension()),
    {
        proof { self.lemma_wf(); }
        Self::check_time_slices(self.topology, self.time_slices)?;
        if self.dimension != 2 {
            proof { reveal_strlit("backend dimension (2)"); }
            let expected = owned("backend dimension (2)");
            return Err(CdtError::InvalidTriangulationMetadata {
                field: TriangulationMetadataField::Dimension,
                topology: self.topology,
                provided_value: decimal_string(self.dimension as u64),
                expected,
            });
        }
        Ok(())
    }

    /// Checks metadata and that the Euler characteristic fits the topology.
    ///
    /// # Errors
    ///
    /// [`CdtError::InvalidTriangulationMetadata`] for a dimension other than 2;
    /// [`CdtError::TopologyMismatch`] when `V - E + F` is not 1 or 2 (open
    /// boundary) or 0 (toroidal).
    pub fn validate_topology(&self) -> (result: Result<(), CdtError>)
        requires
            self.wf(),
        ensures
            result is Ok <==> self.metadata_and_topology_ok(),
            result matches Err(e) ==> self.topology_error_matches(e),
            self.spec_dimension() != 2 ==> (result matches Err(e) && dimension_error_matches(
                e,
                self.spec_topology(),
                self.spec_dimension(),
            )),
            self.spec_dimension() == 2 && !self.topology_ok() ==> (result matches Err(e) && e is TopologyMismatch
                && e->TopologyMismatch_expected_euler_characteristics@ == expected_euler_list(self.spec_topology())
                && e->TopologyMismatch_topology == self.spec_topology()
                && e->TopologyMismatch_euler_characteristic == euler_of(
                    self.mesh_spec().labels().len(),
                    self.mesh_spec().edges().len(),
                    self.mesh_spec().faces().len(),
                )
                && e->TopologyMismatch_vertices == self.mesh_spec().labels().len()
                && e->TopologyMismatch_edges == self.mesh_spec().edges().len()
                && e->TopologyMismatch_faces == self.mesh_spec().faces().len()),
    {
        self.validate_metadata()?;
        let chi = self.mesh.euler_characteristic();
        let ok = match self.topology {
            CdtTopology::OpenBoundary => chi == 1 || chi == 2,
            CdtTopology::Toroidal => chi == 0,
        };
        if !ok {
            let mut expected: Vec<i128> = Vec::new();
            match self.topology {
                CdtTopology::OpenBoundary => {
                    expected.push(1);
                    expected.push(2);
                    assert(expected@ =~= expected_euler_list(self.spec_topology()));
                },
                CdtTopology::Toroidal => {
                    expected.push(0);
                    assert(expected@ =~= expected_euler_list(self.spec_topology()));
                },
            }
            let vertices = self.mesh.vertex_count();
            let edges = self.mesh.edge_count();
            let faces = self.mesh.face_count();
            return Err(CdtError::TopologyMismatch {
                topology: self.topology,
                euler_characteristic: chi,
                expected_euler_characteristics: expected,
                vertices,
                edges,
                faces,
            });
        }
        Ok(())
    }
}


impl CdtTriangulation {
    /// The underlying mesh.
    pub fn geometry(&self) -> (mesh: &CdtMesh)
        ensures
            *mesh == self.mesh_spec(),
    {
        &self.mesh
    }

    /// Number of time slices (always positive).
    pub fn time_slices(&self) -> (n: u32)
        requires
            self.wf(),
        ensures
            n == self.spec_time_slices(),
            n >= minimum_time_slices(self.spec_topology()),
    {
        self.time_slices
    }

    /// Spacetime dimension.
    pub fn dimension(&self) -> (d: u8)
        ensures
            d == self.spec_dimension(),
    {
        self.dimension
    }

    /// Boundary conditions.
    pub fn topology(&self) -> (t: CdtTopology)
        ensures
            t == self.spec_topology(),
    {
        self.topology
    }

    /// Number of modifications made since construction.
    pub fn modification_count(&self) -> (n: u64)
        ensures
            n == self.spec_modification_count(),
    {
        self.modification_count
    }

    /// How often the modification counter has wrapped around.
    pub fn wrap_epoch(&self) -> (n: u64)
        ensures
            n == self.spec_wrap_epoch(),
    {
        self.wrap_epoch
    }

    /// Number of vertices.
    pub fn vertex_count(&self) -> (n: usize)
        ensures
            n == self.mesh_spec().labels().len(),
    {
        self.mesh.vertex_count()
    }

    /// Number of triangles.
    pub fn face_count(&self) -> (n: usize)
        ensures
            n == self.mesh_spec().faces().len(),
    {
        self.mesh.face_count()
    }

    /// Number of edges, from the cache when it is current.
    pub fn edge_count(&self) -> (n: usize)
        requires
            self.wf(),
        ensures
            n == self.mesh_spec().edges().len(),
    {
        if let Some(cached) = &self.cached_edge_count {
            if cached.modification_count == self.modification_count {
                return cached.value;
            }
        }
        self.mesh.edge_count()
    }

    /// Positive vertex, edge, and triangle counts.
    ///
    /// # Errors
    ///
    /// [`CdtError::InvalidSimplexCount`] when a count is zero.
    pub fn simplex_counts(&self) -> (result: Result<CdtSimplexCounts, CdtError>)
        requires
            self.wf(),
        ensures
            result is Ok <==> (self.mesh_spec().labels().len() > 0 && self.mesh_spec().edges().len() > 0
                && self.mesh_spec().faces().len() > 0),
            result matches Ok(c) ==> c.spec_vertices() == self.mesh_spec().labels().len()
                && c.spec_edges() == self.mesh_spec().edges().len()
                && c.spec_triangles() == self.mesh_spec().faces().len(),
    {
        CdtSimplexCounts::try_new(self.vertex_count(), self.edge_count(), self.face_count())
    }

    /// The edge-count cache holds the edge count of the current revision.
    pub closed spec fn edge_count_cached(self) -> bool {
        self.cached_edge_count matches Some(c) && c.modification_count == self.modification_count && c.value
            == self.mesh.edges().len()
    }

    /// Records the current edge count in the cache.
    pub fn refresh_cache(&mut self)
        requires
            old(self).wf(),
        ensures
            final(self).wf(),
            final(self).same_state(*old(self)),
            final(self).edge_count_cached(),
    {
        let value = self.mesh.edge_count();
        self.cached_edge_count = Some(CachedCount { value, modification_count: self.modification_count });
    }

    /// Everything observable is unchanged.
    pub open spec fn same_state(self, other: Self) -> bool {
        &&& self.mesh_spec() == other.mesh_spec()
        &&& self.spec_time_slices() == other.spec_time_slices()
        &&& self.spec_dimension() == other.spec_dimension()
        &&& self.spec_topology() == other.spec_topology()
        &&& self.spec_modification_count() == other.spec_modification_count()
        &&& self.stored_foliation() == other.stored_foliation()
        &&& self.synced_at() == other.synced_at()
    }

    /// Whether current foliation bookkeeping exists.
    pub fn has_foliation(&self) -> (b: bool)
        ensures
            b == self.has_current(),
    {
        self.foliation.is_some() && match self.foliation_synced_at_modification {
            Some(at) => at == self.modification_count,
            None => false,
        }
    }

    /// Whether foliation bookkeeping is stored, current or stale.
    pub fn has_stored_foliation(&self) -> (b: bool)
        ensures
            b == self.stored_foliation() is Some,
    {
        self.foliation.is_some()
    }

    /// The foliation, when it is current.
    pub fn foliation(&self) -> (f: Option<&Foliation>)
        ensures
            self.has_current() ==> f == Some(&self.stored_foliation()->0),
            !self.has_current() ==> f is None,
    {
        if self.has_foliation() {
            self.foliation.as_ref()
        } else {
            None
        }
    }

    /// The error reported when stored foliation bookkeeping is stale.
    pub open spec fn stale_error(self) -> CdtError {
        CdtError::Foliation(
            FoliationError::StaleBookkeeping {
                synced_at_modification: self.synced_at(),
                current_modification_count: self.spec_modification_count(),
            },
        )
    }

    pub(crate) fn stale_foliation_error(&self) -> (e: CdtError)
        ensures
            e == self.stale_error(),
    {
        CdtError::Foliation(
            FoliationError::StaleBookkeeping {
                synced_at_modification: self.foliation_synced_at_modification,
                current_modification_count: self.modification_count,
            },
        )
    }

    /// Stamps stored foliation bookkeeping as current.
    pub(crate) fn mark_foliation_synchronized(&mut self)
        requires
            old(self).wf(),
        ensures
            final(self).wf(),
            final(self).mesh_spec() == old(self).mesh_spec(),
            final(self).spec_time_slices() == old(self).spec_time_slices(),
            final(self).spec_dimension() == old(self).spec_dimension(),
            final(self).spec_topology() == old(self).spec_topology(),
            final(self).spec_modification_count() == old(self).spec_modification_count(),
            final(self).stored_foliation() == old(self).stored_foliation(),
            final(self).synced_at() == (if old(self).stored_foliation() is Some {
                Some(old(self).spec_modification_count())
            } else {
                None
            }),
    {
        self.foliation_synced_at_modification = if self.foliation.is_some() {
            Some(self.modification_count)
        } else {
            None
        };
    }

    /// Records one modification: the counter advances (restarting at 1 after
    /// `u64::MAX`) and stored foliation bookkeeping becomes stale.
    pub fn bump_modification_count(&mut self)
        requires
            old(self).wf(),
        ensures
            final(self).wf(),
            final(self).bumped_from(*old(self)),
    {
        self.cached_edge_count = None;
        if self.foliation.is_some() {
            self.foliation_synced_at_modification = None;
        }
        if self.modification_count == u64::MAX {
            self.modification_count = 1;
            self.wrap_epoch = if self.wrap_epoch == u64::MAX { 0 } else { self.wrap_epoch + 1 };
        } else {
            self.modification_count = self.modification_count + 1;
        }
    }

    /// The counter advanced by one step and foliation became stale; nothing
    /// else changed.
    pub open spec fn bumped_from(self, before: Self) -> bool {
        &&& self.mesh_spec() == before.mesh_spec()
        &&& self.spec_time_slices() == before.spec_time_slices()
        &&& self.spec_dimension() == before.spec_dimension()
        &&& self.spec_topology() == before.spec_topology()
        &&& self.stored_foliation() == before.stored_foliation()
        &&& self.synced_at() is None
        &&& self.spec_modification_count() == (if before.spec_modification_count() == u64::MAX {
            1
        } else {
            (before.spec_modification_count() + 1) as u64
        })
        &&& self.spec_wrap_epoch() == (if before.spec_modification_count() != u64::MAX {
            before.spec_wrap_epoch()
        } else if before.spec_wrap_epoch() == u64::MAX {
            0
        } else {
            (before.spec_wrap_epoch() + 1) as u64
        })
    }

    /// Stores a new time-slice count, dropping foliation bookkeeping built for
    /// another count.
    fn apply_time_slices(&mut self, time_slices: u32) -> (result: Result<(), CdtError>)
        requires
            old(self).wf(),
        ensures
            final(self).wf(),
            result is Ok <==> time_slices >= minimum_time_slices(old(self).spec_topology()),
            result matches Err(e) ==> time_slice_error_matches(e, old(self).spec_topology(), time_slices),
            result is Err ==> final(self).same_state(*old(self)),
            result is Ok ==> final(self).time_slices_applied(*old(self), time_slices),
    {
        let time_slices = Self::parse_time_slices(self.topology, time_slices)?;
        self.time_slices = time_slices;
        let mismatch = match &self.foliation {
            Some(f) => f.num_slices() != time_slices,
            None => false,
        };
        if mismatch {
            self.foliation = None;
            self.foliation_synced_at_modification = None;
        }
        Ok(())
    }

    /// `time_slices` was stored and foliation built for another count dropped.
    pub open spec fn time_slices_applied(self, before: Self, time_slices: u32) -> bool {
        &&& self.mesh_spec() == before.mesh_spec()
        &&& self.spec_time_slices() == time_slices
        &&& self.spec_dimension() == before.spec_dimension()
        &&& self.spec_topology() == before.spec_topology()
        &&& self.spec_modification_count() == before.spec_modification_count()
        &&& (if before.stored_foliation() matches Some(f) && f.slices() != time_slices {
            self.stored_foliation() is None && self.synced_at() is None
        } else {
            self.stored_foliation() == before.stored_foliation() && self.synced_at() == before.synced_at()
        })
    }

    /// Changes the number of time slices; a change counts as a modification.
    ///
    /// # Errors
    ///
    /// [`CdtError::InvalidTriangulationMetadata`] when `time_slices` is below
    /// the topology's minimum; the triangulation is then unchanged.
    pub fn set_time_slices(&mut self, time_slices: u32) -> (result: Result<(), CdtError>)
        requires
            old(self).wf(),
        ensures
            final(self).wf(),
            result is Ok <==> time_slices >= minimum_time_slices(old(self).spec_topology()),
            result matches Err(e) ==> time_slice_error_matches(e, old(self).spec_topology(), time_slices),
            result is Err ==> final(self).same_state(*old(self)),
            result is Ok && time_slices == old(self).spec_time_slices() ==> final(self).same_state(*old(self)),
            result is Ok && time_slices != old(self).spec_time_slices() ==> exists|mid: Self|
                mid.time_slices_applied(*old(self), time_slices) && #[trigger] final(self).bumped_from(mid),
    {
        if self.time_slices == time_slices {
            return self.apply_time_slices(time_slices);
        }
        self.apply_time_slices(time_slices)?;
        let ghost mid = *self;
        self.bump_modification_count();
        Ok(())
    }
}


impl CdtTriangulation {
    /// Replaces the classification payload of face `f`; counts as no
    /// modification.
    pub(crate) fn set_face_data(&mut self, f: usize, data: Option<i32>)
        requires
            old(self).wf(),
            f < old(self).mesh_spec().faces().len(),
        ensures
            final(self).wf(),
            final(self).mesh_spec().face_data() == old(self).mesh_spec().face_data().update(f as int, data),
            final(self).mesh_spec().labels() == old(self).mesh_spec().labels(),
            final(self).mesh_spec().ranks() == old(self).mesh_spec().ranks(),
            final(self).mesh_spec().edges() == old(self).mesh_spec().edges(),
            final(self).mesh_spec().faces() == old(self).mesh_spec().faces(),
            final(self).spec_time_slices() == old(self).spec_time_slices(),
            final(self).spec_dimension() == old(self).spec_dimension(),
            final(self).spec_topology() == old(self).spec_topology(),
            final(self).spec_modification_count() == old(self).spec_modification_count(),
            final(self).stored_foliation() == old(self).stored_foliation(),
            final(self).synced_at() == old(self).synced_at(),
    {
        self.mesh.set_simplex_data(f, data);
    }
}


impl CdtTriangulation {
    /// Replaces the time label of vertex `v` without recording a
    /// modification; callers record it.
    pub(crate) fn write_vertex_label(&mut self, v: usize, label: Option<u32>)
        requires
            old(self).wf(),
            v < old(self).mesh_spec().labels().len(),
        ensures
            final(self).wf(),
            final(self).mesh_spec().labels() == old(self).mesh_spec().labels().update(v as int, label),
            final(self).mesh_spec().ranks() == old(self).mesh_spec().ranks(),
            final(self).mesh_spec().edges() == old(self).mesh_spec().edges(),
            final(self).mesh_spec().faces() == old(self).mesh_spec().faces(),
            final(self).mesh_spec().face_data() == old(self).mesh_spec().face_data(),
            final(self).spec_time_slices() == old(self).spec_time_slices(),
            final(self).spec_dimension() == old(self).spec_dimension(),
            final(self).spec_topology() == old(self).spec_topology(),
            final(self).spec_modification_count() == old(self).spec_modification_count(),
            final(self).stored_foliation() == old(self).stored_foliation(),
            final(self).synced_at() == old(self).synced_at(),
    {
        self.mesh.set_vertex_label(v, label);
    }

    /// This state with `f` stored as current foliation bookkeeping for
    /// `f.slices()` time slices.
    pub closed spec fn with_current_foliation(self, f: Foliation) -> Self {
        CdtTriangulation {
            time_slices: f.slices(),
            foliation: Some(f),
            foliation_synced_at_modification: Some(self.modification_count),
            ..self
        }
    }

    /// Stores `foliation` for `time_slices` slices, current at the present
    /// revision.
    pub(crate) fn install_foliation(&mut self, foliation: Foliation, time_slices: u32)
        requires
            old(self).wf(),
            foliation.slices() == time_slices,
            time_slices >= minimum_time_slices(old(self).spec_topology()),
        ensures
            final(self).wf(),
            final(self).has_current(),
            final(self).mesh_spec() == old(self).mesh_spec(),
            final(self).spec_time_slices() == time_slices,
            final(self).spec_dimension() == old(self).spec_dimension(),
            final(self).spec_topology() == old(self).spec_topology(),
            final(self).spec_modification_count() == old(self).spec_modification_count(),
            final(self).stored_foliation() == Some(foliation),
            final(self).synced_at() == Some(old(self).spec_modification_count()),
            *final(self) == old(self).with_current_foliation(foliation),
    {
        let _ = foliation.slice_sizes(); // the slice sizes fit in a Vec
        self.time_slices = time_slices;
        self.foliation = Some(foliation);
        self.foliation_synced_at_modification = Some(self.modification_count);
    }

    /// Facts about [`Self::with_current_foliation`].
    pub proof fn lemma_with_current_foliation(self, f: Foliation)
        requires
            self.wf(),
            f.slices() >= minimum_time_slices(self.spec_topology()),
            f.sizes().len() == f.slices(),
        ensures
            self.with_current_foliation(f).wf(),
            self.with_current_foliation(f).has_current(),
            self.with_current_foliation(f).mesh_spec() == self.mesh_spec(),
            self.with_current_foliation(f).spec_time_slices() == f.slices(),
            self.with_current_foliation(f).spec_dimension() == self.spec_dimension(),
            self.with_current_foliation(f).spec_topology() == self.spec_topology(),
            self.with_current_foliation(f).spec_modification_count() == self.spec_modification_count(),
            self.with_current_foliation(f).stored_foliation() == Some(f),
    {
    }

    /// This state with its mesh replaced by `mesh`.
    pub closed spec fn with_mesh(self, mesh: CdtMesh) -> Self {
        CdtTriangulation { mesh, ..self }
    }

    /// Facts about [`Self::with_mesh`].
    pub proof fn lemma_with_mesh(self, mesh: CdtMesh)
        ensures
            self.with_mesh(mesh).mesh_spec() == mesh,
            self.with_mesh(mesh).spec_time_slices() == self.spec_time_slices(),
            self.with_mesh(mesh).spec_dimension() == self.spec_dimension(),
            self.with_mesh(mesh).spec_topology() == self.spec_topology(),
            self.with_mesh(mesh).spec_modification_count() == self.spec_modification_count(),
            self.with_mesh(mesh).stored_foliation() == self.stored_foliation(),
            self.with_mesh(mesh).synced_at() == self.synced_at(),
    {
    }

    /// Replaces the mesh after a geometry edit, recording one modification.
    pub(crate) fn replace_mesh(&mut self, mesh: CdtMesh)
        requires
            old(self).wf(),
            mesh.consistent(),
        ensures
            final(self).wf(),
            final(self).mesh_spec() == mesh,
            final(self).spec_time_slices() == old(self).spec_time_slices(),
            final(self).spec_dimension() == old(self).spec_dimension(),
            final(self).spec_topology() == old(self).spec_topology(),
            final(self).stored_foliation() == old(self).stored_foliation(),
            final(self).synced_at() is None,
    {
        self.cached_edge_count = None;
        self.mesh = mesh;
        self.bump_modification_count();
    }

    /// Drops foliation bookkeeping.
    pub(crate) fn drop_foliation(&mut self)
        requires
            old(self).wf(),
        ensures
            final(self).wf(),
            final(self).mesh_spec() == old(self).mesh_spec(),
            final(self).spec_time_slices() == old(self).spec_time_slices(),
            final(self).spec_dimension() == old(self).spec_dimension(),
            final(self).spec_topology() == old(self).spec_topology(),
            final(self).spec_modification_count() == old(self).spec_modification_count(),
            final(self).stored_foliation() is None,
            final(self).synced_at() is None,
    {
        self.foliation = None;
        self.foliation_synced_at_modification = None;
    }
}

} // verus!
