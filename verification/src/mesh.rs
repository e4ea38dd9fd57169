//! Combinatorial model of a 2D triangulation with per-vertex time labels.
//!
//! Vertices are numbered `0..vertex_count`. Each vertex may carry a time label
//! and has a spatial rank: the position of the vertex in the order of its
//! embedding coordinates (space first, then time), distinct per vertex. Edges
//! and faces are given by their vertex numbers, and each face may carry a
//! stored simplex classification payload.

use vstd::prelude::*;

verus! {

/// An edge between two vertices.
#[derive(Debug, Clone, Copy, PartialEq, Eq)]
pub struct MeshEdge {
    pub a: usize,
    pub b: usize,
}

/// A triangle given by its three vertices.
#[derive(Debug, Clone, Copy, PartialEq, Eq)]
pub struct MeshFace {
    pub v0: usize,
    pub v1: usize,
    pub v2: usize,
}

/// A triangulated surface with time labels and classification payloads.
#[derive(Debug)]
pub struct CdtMesh {
    labels: Vec<Option<u32>>,
    spatial_rank: Vec<u64>,
    edges: Vec<MeshEdge>,
    faces: Vec<MeshFace>,
    face_data: Vec<Option<i32>>,
}

/// Every vertex number in the edges and faces names a vertex.
pub open spec fn indices_in_range(vertex_count: nat, edges: Seq<MeshEdge>, faces: Seq<MeshFace>) -> bool {
    &&& forall|e: int| #![trigger edges[e]] 0 <= e < edges.len() ==> edges[e].a < vertex_count && edges[e].b < vertex_count
    &&& forall|f: int| #![trigger faces[f]]
        0 <= f < faces.len() ==> faces[f].v0 < vertex_count && faces[f].v1 < vertex_count
            && faces[f].v2 < vertex_count
}

/// Euler characteristic `V - E + F`.
pub open spec fn euler_of(vertices: nat, edges: nat, faces: nat) -> int {
    vertices - edges + faces
}

impl CdtMesh {
    /// Time label of each vertex.
    pub closed spec fn labels(self) -> Seq<Option<u32>> {
        self.labels@
    }

    /// Spatial rank of each vertex.
    pub closed spec fn ranks(self) -> Seq<u64> {
        self.spatial_rank@
    }

    /// The edges.
    pub closed spec fn edges(self) -> Seq<MeshEdge> {
        self.edges@
    }

    /// The faces.
    pub closed spec fn faces(self) -> Seq<MeshFace> {
        self.faces@
    }

    /// Stored classification payload of each face.
    pub closed spec fn face_data(self) -> Seq<Option<i32>> {
        self.face_data@
    }

    /// The facts that every mesh satisfies.
    pub open spec fn consistent(self) -> bool {
        &&& self.ranks().len() == self.labels().len()
        &&& self.face_data().len() == self.faces().len()
        &&& indices_in_range(self.labels().len(), self.edges(), self.faces())
    }

    /// Builds a mesh; every face starts without a stored classification.
    ///
    /// Returns `None` when `spatial_rank` does not have one entry per vertex or
    /// an edge or face names a vertex that does not exist.
    pub fn new(
        labels: Vec<Option<u32>>,
        spatial_rank: Vec<u64>,
        edges: Vec<MeshEdge>,
        faces: Vec<MeshFace>,
    ) -> (mesh: Option<CdtMesh>)
        ensures
            mesh is Some <==> (spatial_rank@.len() == labels@.len() && indices_in_range(
                labels@.len(),
                edges@,
                faces@,
            )),
            mesh matches Some(m) ==> {
                &&& m.consistent()
                &&& m.labels() == labels@
                &&& m.ranks() == spatial_rank@
                &&& m.edges() == edges@
                &&& m.faces() == faces@
                &&& m.face_data() == Seq::new(faces@.len(), |i: int| None::<i32>)
            },
    {
        if spatial_rank.len() != labels.len() {
            return None;
        }
        let n = labels.len();
        let mut i: usize = 0;
        while i < edges.len()
            invariant
                n == labels@.len(),
                forall|e: int| #![trigger edges@[e]] 0 <= e < i ==> edges@[e].a < n && edges@[e].b < n,
            decreases edges.len() - i,
        {
            if edges[i].a >= n || edges[i].b >= n {
                return None;
            }
            i = i + 1;
        }
        let mut j: usize = 0;
        while j < faces.len()
            invariant
                n == labels@.len(),
                forall|f: int| #![trigger faces@[f]]
                    0 <= f < j ==> faces@[f].v0 < n && faces@[f].v1 < n && faces@[f].v2 < n,
            decreases faces.len() - j,
        {
            if faces[j].v0 >= n || faces[j].v1 >= n || faces[j].v2 >= n {
                return None;
            }
            j = j + 1;
        }
        let mut face_data: Vec<Option<i32>> = Vec::new();
        let mut k: usize = 0;
        while k < faces.len()
            invariant
                k <= faces.len(),
                face_data@ == Seq::new(k as nat, |i: int| None::<i32>),
            decreases faces.len() - k,
        {
            face_data.push(None);
            k = k + 1;
        }
        Some(CdtMesh { labels, spatial_rank, edges, faces, face_data })
    }

    /// Number of vertices.
    pub fn vertex_count(&self) -> (n: usize)
        ensures
            n == self.labels().len(),
    {
        self.labels.len()
    }

    /// Number of edges.
    pub fn edge_count(&self) -> (n: usize)
        ensures
            n == self.edges().len(),
    {
        self.edges.len()
    }

    /// Number of faces.
    pub fn face_count(&self) -> (n: usize)
        ensures
            n == self.faces().len(),
    {
        self.faces.len()
    }

    /// Euler characteristic `V - E + F`.
    pub fn euler_characteristic(&self) -> (chi: i128)
        ensures
            chi == euler_of(self.labels().len(), self.edges().len(), self.faces().len()),
    {
        self.labels.len() as i128 - self.edges.len() as i128 + self.faces.len() as i128
    }

    /// The time label of vertex `v`.
    pub fn vertex_label(&self, v: usize) -> (label: Option<u32>)
        requires
            v < self.labels().len(),
        ensures
            label == self.labels()[v as int],
    {
        self.labels[v]
    }

    /// The spatial rank of vertex `v`.
    pub fn spatial_rank(&self, v: usize) -> (rank: u64)
        requires
            self.consistent(),
            v < self.labels().len(),
        ensures
            rank == self.ranks()[v as int],
    {
        self.spatial_rank[v]
    }

    /// Edge number `e`.
    pub fn edge(&self, e: usize) -> (edge: MeshEdge)
        requires
            self.consistent(),
            e < self.edges().len(),
        ensures
            edge == self.edges()[e as int],
            edge.a < self.labels().len(),
            edge.b < self.labels().len(),
    {
        self.edges[e]
    }

    /// Face number `f`.
    pub fn face(&self, f: usize) -> (face: MeshFace)
        requires
            self.consistent(),
            f < self.faces().len(),
        ensures
            face == self.faces()[f as int],
            face.v0 < self.labels().len(),
            face.v1 < self.labels().len(),
            face.v2 < self.labels().len(),
    {
        self.faces[f]
    }

    /// The stored classification payload of face `f`.
    pub fn simplex_data(&self, f: usize) -> (data: Option<i32>)
        requires
            self.consistent(),
            f < self.faces().len(),
        ensures
            data == self.face_data()[f as int],
    {
        self.face_data[f]
    }

    /// Replaces the time label of vertex `v`.
    pub fn set_vertex_label(&mut self, v: usize, label: Option<u32>)
        requires
            old(self).consistent(),
            v < old(self).labels().len(),
        ensures
            final(self).labels() == old(self).labels().update(v as int, label),
            final(self).ranks() == old(self).ranks(),
            final(self).edges() == old(self).edges(),
            final(self).faces() == old(self).faces(),
            final(self).face_data() == old(self).face_data(),
            final(self).consistent(),
    {
        self.labels.set(v, label);
    }

    /// Replaces the stored classification payload of face `f`.
    pub fn set_simplex_data(&mut self, f: usize, data: Option<i32>)
        requires
            old(self).consistent(),
            f < old(self).faces().len(),
        ensures
            final(self).face_data() == old(self).face_data().update(f as int, data),
            final(self).labels() == old(self).labels(),
            final(self).ranks() == old(self).ranks(),
            final(self).edges() == old(self).edges(),
            final(self).faces() == old(self).faces(),
            final(self).consistent(),
    {
        self.face_data.set(f, data);
    }
}

} // verus!
