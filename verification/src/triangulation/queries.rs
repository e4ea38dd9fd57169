//! Foliation queries and causal classification of the mesh.

use super::state::CdtTriangulation;
use crate::config::CdtTopology;
use crate::errors::{CdtError, CdtValidationCheck, CdtValidationFailure, FoliationError, MeasurementCountField};
use crate::foliation::{
    classify_edge, classify_labels, classify_simplex, edge_type_of, lemma_open_slab_below_last, lemma_slab_iff_classified, lower_slab,
    lemma_toroidal_slab_is_earlier_slice,
    lower_slab_of,
    simplex_code, simplex_of_code, step_distance, time_step_distance, EdgeType, SimplexType,
};
use crate::mesh::{CdtMesh, MeshFace};
use crate::text::owned;
use vstd::prelude::*;
use vstd::string::*;

verus! {

/// The labels of the three vertices of face `f`, when all three are labeled.
pub open spec fn face_labels(m: CdtMesh, f: int) -> Option<(u32, u32, u32)> {
    let face = m.faces()[f];
    let l0 = m.labels()[face.v0 as int];
    let l1 = m.labels()[face.v1 as int];
    let l2 = m.labels()[face.v2 as int];
    if l0 is Some && l1 is Some && l2 is Some {
        Some((l0->0, l1->0, l2->0))
    } else {
        None
    }
}

/// Strict CDT classification of face `f` under current foliation.
pub open spec fn face_simplex(t: CdtTriangulation, f: int) -> Option<SimplexType> {
    if !t.has_current() {
        None
    } else {
        match face_labels(t.mesh_spec(), f) {
            None => None,
            Some((a, b, c)) => classify_labels(t.spec_topology(), t.spec_time_slices(), a, b, c),
        }
    }
}

/// Lower slab of face `f`, when it is a strict CDT triangle under current
/// foliation.
pub open spec fn face_slab(t: CdtTriangulation, f: int) -> Option<u32> {
    if !t.has_current() {
        None
    } else {
        match face_labels(t.mesh_spec(), f) {
            None => None,
            Some((a, b, c)) => lower_slab_of(t.spec_topology(), t.spec_time_slices(), a, b, c),
        }
    }
}

/// Number of faces among the first `n` that are not strict CDT triangles.
pub open spec fn non_strict_count(t: CdtTriangulation, n: int) -> nat
    decreases n,
{
    if n <= 0 {
        0
    } else {
        non_strict_count(t, n - 1) + (if face_simplex(t, n - 1) is None { 1nat } else { 0nat })
    }
}

/// Number of faces among the first `n` whose lower slab is `slab`.
pub open spec fn slab_count(t: CdtTriangulation, n: int, slab: u32) -> nat
    decreases n,
{
    if n <= 0 {
        0
    } else {
        slab_count(t, n - 1, slab) + (if face_slab(t, n - 1) == Some(slab) { 1nat } else { 0nat })
    }
}

/// Strict CDT classification of face `f` from the live labels, whether or
/// not foliation bookkeeping is current.
pub open spec fn live_face_simplex(t: CdtTriangulation, f: int) -> Option<SimplexType> {
    match face_labels(t.mesh_spec(), f) {
        None => None,
        Some((a, b, c)) => classify_labels(t.spec_topology(), t.spec_time_slices(), a, b, c),
    }
}

/// Number of faces among the first `n` that the live labels do not make
/// strict CDT triangles.
pub open spec fn live_non_strict_count(t: CdtTriangulation, n: int) -> nat
    decreases n,
{
    if n <= 0 {
        0
    } else {
        live_non_strict_count(t, n - 1) + (if live_face_simplex(t, n - 1) is None { 1nat } else { 0nat })
    }
}

/// Index of the first face among the first `n` that the live labels do not
/// make a strict CDT triangle, if any.
pub open spec fn live_first_non_strict(t: CdtTriangulation, n: int) -> Option<int>
    decreases n,
{
    if n <= 0 {
        None
    } else {
        match live_first_non_strict(t, n - 1) {
            Some(f) => Some(f),
            None => if live_face_simplex(t, n - 1) is None { Some(n - 1) } else { None },
        }
    }
}

/// Under current bookkeeping the classification is the live one.
pub proof fn lemma_current_is_live(t: CdtTriangulation, n: int)
    requires
        t.has_current(),
    ensures
        non_strict_count(t, n) == live_non_strict_count(t, n),
        first_non_strict(t, n) == live_first_non_strict(t, n),
    decreases n,
{
    if n > 0 {
        lemma_current_is_live(t, n - 1);
    }
}

/// The live classification reads only the mesh, the topology and the slice
/// count.
pub proof fn lemma_live_same_parts(a: CdtTriangulation, b: CdtTriangulation, n: int)
    requires
        a.mesh_spec() == b.mesh_spec(),
        a.spec_topology() == b.spec_topology(),
        a.spec_time_slices() == b.spec_time_slices(),
    ensures
        live_non_strict_count(a, n) == live_non_strict_count(b, n),
        live_first_non_strict(a, n) == live_first_non_strict(b, n),
    decreases n,
{
    if n > 0 {
        lemma_live_same_parts(a, b, n - 1);
    }
}

/// A positive live violation count has a first live violation.
pub proof fn lemma_live_violation_found(t: CdtTriangulation, n: int)
    requires
        live_non_strict_count(t, n) > 0,
    ensures
        live_first_non_strict(t, n) is Some,
    decreases n,
{
    if n > 0 && live_non_strict_count(t, n - 1) > 0 {
        lemma_live_violation_found(t, n - 1);
    }
}

/// Index of the first face among the first `n` that is not a strict CDT
/// triangle, if any.
pub open spec fn first_non_strict(t: CdtTriangulation, n: int) -> Option<int>
    decreases n,
{
    if n <= 0 {
        None
    } else {
        match first_non_strict(t, n - 1) {
            Some(f) => Some(f),
            None => if face_simplex(t, n - 1) is None { Some(n - 1) } else { None },
        }
    }
}

/// Once a non-strict face is found in a prefix, longer prefixes report the
/// same face.
pub proof fn lemma_first_non_strict_stable(t: CdtTriangulation, k: int, m: int)
    requires
        0 <= k <= m,
        first_non_strict(t, k) is Some,
    ensures
        first_non_strict(t, m) == first_non_strict(t, k),
    decreases m - k,
{
    if m > k {
        lemma_first_non_strict_stable(t, k, m - 1);
    }
}

/// Slab counts grow with the prefix.
pub proof fn lemma_slab_count_monotone(t: CdtTriangulation, k: int, m: int, slab: u32)
    requires
        0 <= k <= m,
    ensures
        slab_count(t, k, slab) <= slab_count(t, m, slab),
    decreases m - k,
{
    if m > k {
        lemma_slab_count_monotone(t, k, m - 1, slab);
    }
}

/// The causality diagnostic for face `f`, if it violates causality.
///
/// An unlabeled vertex (checked in the order `v0`, `v1`, `v2`) comes first;
/// then the first of the edges `(v0,v1)`, `(v1,v2)`, `(v2,v0)` spanning more
/// than one step; then a triangle without exactly one spacelike and two
/// timelike edges.
pub open spec fn face_causality_error(t: CdtTriangulation, f: int) -> Option<CdtError> {
    let m = t.mesh_spec();
    let face = m.faces()[f];
    let l0 = m.labels()[face.v0 as int];
    let l1 = m.labels()[face.v1 as int];
    let l2 = m.labels()[face.v2 as int];
    let missing = |v: usize| CdtError::ValidationFailed {
        check: CdtValidationCheck::Causality,
        failure: CdtValidationFailure::MissingVertexTimeLabel { vertex: v },
    };
    if l0 is None {
        Some(missing(face.v0))
    } else if l1 is None {
        Some(missing(face.v1))
    } else if l2 is None {
        Some(missing(face.v2))
    } else {
        let (a, b, c) = (l0->0, l1->0, l2->0);
        let topo = t.spec_topology();
        let total = t.spec_time_slices();
        let d01 = step_distance(topo, total, a, b);
        let d12 = step_distance(topo, total, b, c);
        let d20 = step_distance(topo, total, c, a);
        let violation = |x: u32, y: u32, d: u32| CdtError::CausalityViolation {
            time_0: if x <= y { x } else { y },
            time_1: if x <= y { y } else { x },
            step_distance: d,
        };
        if d01 > 1 {
            Some(violation(a, b, d01))
        } else if d12 > 1 {
            Some(violation(b, c, d12))
        } else if d20 > 1 {
            Some(violation(c, a, d20))
        } else {
            let spacelike = (if d01 == 0 { 1u32 } else { 0u32 }) + (if d12 == 0 { 1u32 } else { 0u32 }) + (
            if d20 == 0 { 1u32 } else { 0u32 });
            let timelike = 3 - spacelike;
            if spacelike == 1 {
                None
            } else {
                Some(
                    CdtError::ValidationFailed {
                        check: CdtValidationCheck::Causality,
                        failure: CdtValidationFailure::InvalidCdtTriangle {
                            face: f as usize,
                            spacelike_edges: spacelike as u32,
                            timelike_edges: timelike as u32,
                        },
                    },
                )
            }
        }
    }
}

/// Once a causality diagnostic is found in a prefix, longer prefixes report
/// the same one.
pub proof fn lemma_first_causality_error_stable(t: CdtTriangulation, k: int, m: int)
    requires
        0 <= k <= m,
        first_causality_error(t, k) is Some,
    ensures
        first_causality_error(t, m) == first_causality_error(t, k),
    decreases m - k,
{
    if m > k {
        lemma_first_causality_error_stable(t, k, m - 1);
    }
}

/// The first causality diagnostic among the first `n` faces.
pub open spec fn first_causality_error(t: CdtTriangulation, n: int) -> Option<CdtError>
    decreases n,
{
    if n <= 0 {
        None
    } else {
        match first_causality_error(t, n - 1) {
            Some(e) => Some(e),
            None => face_causality_error(t, n - 1),
        }
    }
}

/// The result is the geometry-query error raised for an unknown element.
pub open spec fn is_geometry_query_error(e: CdtError, context: Seq<char>) -> bool {
    e matches CdtError::ValidationFailed {
        check: CdtValidationCheck::Geometry,
        failure: CdtValidationFailure::BackendGeometry { detail },
    } && detail@ == context + " query failed: "@ + "element does not exist"@
}

/// Builds the error for a geometry query that failed with `error`.
pub fn geometry_query_error(context: &str, error: &str) -> (e: CdtError)
    ensures
        e matches CdtError::ValidationFailed {
            check: CdtValidationCheck::Geometry,
            failure: CdtValidationFailure::BackendGeometry { detail },
        } && detail@ == context@ + " query failed: "@ + error@,
{
    let mut detail = owned(context);
    detail.append(" query failed: ");
    detail.append(error);
    CdtError::ValidationFailed {
        check: CdtValidationCheck::Geometry,
        failure: CdtValidationFailure::BackendGeometry { detail },
    }
}

fn missing_element_error(context: &str) -> (e: CdtError)
    ensures
        is_geometry_query_error(e, context@),
{
    proof { reveal_strlit("element does not exist"); }
    geometry_query_error(context, "element does not exist")
}

/// The error reported when a slab count exceeds `u32::MAX`.
pub open spec fn slab_overflow_error() -> CdtError {
    CdtError::MeasurementCountOverflow {
        field: MeasurementCountField::Triangles,
        provided_value: if usize::MAX > u32::MAX { (u32::MAX + 1) as usize } else { usize::MAX },
        max: u32::MAX,
    }
}

/// Builds the error reported when a slab count exceeds `u32::MAX`.
pub fn volume_profile_count_overflow() -> (e: CdtError)
    ensures
        e == slab_overflow_error(),
{
    let provided_value = if usize::MAX as u64 > u32::MAX as u64 {
        (u32::MAX as usize) + 1
    } else {
        usize::MAX
    };
    CdtError::MeasurementCountOverflow { field: MeasurementCountField::Triangles, provided_value, max: u32::MAX }
}

impl CdtTriangulation {
    /// Reads the labels of face `f`, when all three vertices are labeled.
    fn labels_of_face(&self, f: usize) -> (labels: Option<(u32, u32, u32)>)
        requires
            self.wf(),
            f < self.mesh_spec().faces().len(),
        ensures
            labels == face_labels(self.mesh_spec(), f as int),
    {
        proof { self.lemma_wf(); }
        let face = self.geometry().face(f);
        match (self.geometry().vertex_label(face.v0), self.geometry().vertex_label(face.v1), self.geometry().vertex_label(face.v2)) {
            (Some(a), Some(b), Some(c)) => Some((a, b, c)),
            _ => None,
        }
    }

    /// Strict classification of face `f`, assuming `f` exists.
    fn classify_face(&self, f: usize) -> (kind: Option<SimplexType>)
        requires
            self.wf(),
            f < self.mesh_spec().faces().len(),
        ensures
            kind == face_simplex(*self, f as int),
    {
        proof { self.lemma_wf(); }
        if !self.has_foliation() {
            return None;
        }
        match self.labels_of_face(f) {
            None => None,
            Some((a, b, c)) => classify_simplex(self.topology(), self.time_slices(), a, b, c),
        }
    }

    /// Classifies face `face` as an Up or Down CDT triangle from its vertex
    /// labels; `None` without current foliation, with an unlabeled vertex, or
    /// for a non-strict triangle.
    ///
    /// # Errors
    ///
    /// [`CdtError::ValidationFailed`] when the face does not exist.
    pub fn simplex_type(&self, face: usize) -> (result: Result<Option<SimplexType>, CdtError>)
        requires
            self.wf(),
        ensures
            face < self.mesh_spec().faces().len() ==> result == Ok::<Option<SimplexType>, CdtError>(
                face_simplex(*self, face as int),
            ),
            face >= self.mesh_spec().faces().len() ==> (result matches Err(e) && is_geometry_query_error(
                e,
                "simplex classification"@,
            )),
    {
        if face >= self.geometry().face_count() {
            return Err(missing_element_error("simplex classification"));
        }
        Ok(self.classify_face(face))
    }

    /// The stored classification payload of face `face`, decoded; `None`
    /// without current foliation.
    ///
    /// # Errors
    ///
    /// [`CdtError::ValidationFailed`] when the face does not exist.
    pub fn simplex_type_from_data(&self, face: usize) -> (result: Result<Option<SimplexType>, CdtError>)
        requires
            self.wf(),
        ensures
            face < self.mesh_spec().faces().len() ==> result == Ok::<Option<SimplexType>, CdtError>(
                if self.has_current() {
                    match self.mesh_spec().face_data()[face as int] {
                        Some(code) => simplex_of_code(code),
                        None => None,
                    }
                } else {
                    None
                },
            ),
            face >= self.mesh_spec().faces().len() ==> (result matches Err(e) && is_geometry_query_error(
                e,
                "stored simplex classification"@,
            )),
    {
        proof { self.lemma_wf(); }
        if face >= self.geometry().face_count() {
            return Err(missing_element_error("stored simplex classification"));
        }
        let raw = self.geometry().simplex_data(face);
        if !self.has_foliation() {
            return Ok(None);
        }
        Ok(
            match raw {
                Some(code) => SimplexType::from_i32(code),
                None => None,
            },
        )
    }

    /// Classifies edge `edge` from its endpoint labels; `None` without current
    /// foliation or with an unlabeled endpoint.
    ///
    /// # Errors
    ///
    /// [`CdtError::ValidationFailed`] when the edge does not exist.
    pub fn edge_type(&self, edge: usize) -> (result: Result<Option<EdgeType>, CdtError>)
        requires
            self.wf(),
        ensures
            edge < self.mesh_spec().edges().len() ==> result == Ok::<Option<EdgeType>, CdtError>({
                let e = self.mesh_spec().edges()[edge as int];
                let l0 = self.mesh_spec().labels()[e.a as int];
                let l1 = self.mesh_spec().labels()[e.b as int];
                if self.has_current() && l0 is Some && l1 is Some {
                    Some(edge_type_of(self.spec_topology(), self.spec_time_slices(), l0->0, l1->0))
                } else {
                    None
                }
            }),
            edge >= self.mesh_spec().edges().len() ==> (result matches Err(e) && is_geometry_query_error(
                e,
                "edge classification"@,
            )),
    {
        proof { self.lemma_wf(); }
        if edge >= self.geometry().edge_count() {
            return Err(missing_element_error("edge classification"));
        }
        let e = self.geometry().edge(edge);
        if !self.has_foliation() {
            return Ok(None);
        }
        match (self.geometry().vertex_label(e.a), self.geometry().vertex_label(e.b)) {
            (Some(t0), Some(t1)) => Ok(Some(classify_edge(self.topology(), self.time_slices(), t0, t1))),
            _ => Ok(None),
        }
    }

    /// Classifies the three edges `(v0,v1)`, `(v1,v2)`, `(v2,v0)` of face
    /// `face`; `None` without current foliation or with an unlabeled vertex.
    ///
    /// # Errors
    ///
    /// [`CdtError::ValidationFailed`] when the face does not exist.
    pub fn face_edge_types(&self, face: usize) -> (result: Result<Option<[EdgeType; 3]>, CdtError>)
        requires
            self.wf(),
        ensures
            face < self.mesh_spec().faces().len() ==> (match result {
                Ok(Some(kinds)) => self.has_current() && (face_labels(self.mesh_spec(), face as int) matches Some(
                    (a, b, c),
                ) && kinds@ == seq![
                    edge_type_of(self.spec_topology(), self.spec_time_slices(), a, b),
                    edge_type_of(self.spec_topology(), self.spec_time_slices(), b, c),
                    edge_type_of(self.spec_topology(), self.spec_time_slices(), c, a),
                ]),
                Ok(None) => !self.has_current() || face_labels(self.mesh_spec(), face as int) is None,
                Err(_) => false,
            }),
            face >= self.mesh_spec().faces().len() ==> (result matches Err(e) && is_geometry_query_error(
                e,
                "face edge classification"@,
            )),
    {
        proof { self.lemma_wf(); }
        if face >= self.geometry().face_count() {
            return Err(missing_element_error("face edge classification"));
        }
        if !self.has_foliation() {
            return Ok(None);
        }
        match self.labels_of_face(face) {
            None => Ok(None),
            Some((a, b, c)) => {
                let kinds = [
                    classify_edge(self.topology(), self.time_slices(), a, b),
                    classify_edge(self.topology(), self.time_slices(), b, c),
                    classify_edge(self.topology(), self.time_slices(), c, a),
                ];
                Ok(Some(kinds))
            },
        }
    }

    /// The time label of vertex `vertex`; `None` without current foliation or
    /// for an unlabeled vertex.
    ///
    /// # Errors
    ///
    /// [`CdtError::ValidationFailed`] when the vertex does not exist.
    pub fn time_label(&self, vertex: usize) -> (result: Result<Option<u32>, CdtError>)
        requires
            self.wf(),
        ensures
            vertex < self.mesh_spec().labels().len() ==> result == Ok::<Option<u32>, CdtError>(
                if self.has_current() {
                    self.mesh_spec().labels()[vertex as int]
                } else {
                    None
                },
            ),
            vertex >= self.mesh_spec().labels().len() ==> (result matches Err(e) && is_geometry_query_error(
                e,
                "time label"@,
            )),
    {
        if vertex >= self.geometry().vertex_count() {
            return Err(missing_element_error("time label"));
        }
        let label = self.geometry().vertex_label(vertex);
        if self.has_foliation() {
            Ok(label)
        } else {
            Ok(None)
        }
    }

    /// The vertices labeled `t`, in increasing order; empty without current
    /// foliation.
    pub fn vertices_at_time(&self, t: u32) -> (vertices: Vec<usize>)
        requires
            self.wf(),
        ensures
            !self.has_current() ==> vertices@.len() == 0,
            self.has_current() ==> {
                &&& forall|k: int| 0 <= k < vertices@.len() ==> #[trigger] vertices@[k] < self.mesh_spec().labels().len()
                    && self.mesh_spec().labels()[vertices@[k] as int] == Some(t)
                &&& forall|k: int, j: int| 0 <= k < j < vertices@.len() ==> vertices@[k] < vertices@[j]
                &&& forall|v: int|
                    0 <= v < self.mesh_spec().labels().len() && self.mesh_spec().labels()[v] == Some(t)
                        ==> vertices@.contains(v as usize)
            },
    {
        let mut vertices: Vec<usize> = Vec::new();
        if !self.has_foliation() {
            return vertices;
        }
        let n = self.geometry().vertex_count();
        let mut v: usize = 0;
        while v < n
            invariant
                n == self.mesh_spec().labels().len(),
                v <= n,
                forall|k: int| 0 <= k < vertices@.len() ==> #[trigger] vertices@[k] < v
                    && self.mesh_spec().labels()[vertices@[k] as int] == Some(t),
                forall|k: int, j: int| 0 <= k < j < vertices@.len() ==> vertices@[k] < vertices@[j],
                forall|w: int|
                    0 <= w < v && self.mesh_spec().labels()[w] == Some(t) ==> vertices@.contains(w as usize),
            decreases n - v,
        {
            let ghost before = vertices@;
            if self.geometry().vertex_label(v) == Some(t) {
                vertices.push(v);
                assert(vertices@[vertices@.len() - 1] == v);
                assert forall|w: int| 0 <= w < v + 1 && self.mesh_spec().labels()[w] == Some(t) implies vertices@.contains(w as usize) by {
                    if w < v {
                        let k = choose|k: int| 0 <= k < before.len() && before[k] == w as usize;
                        assert(vertices@[k] == w as usize);
                    } else {
                        assert(vertices@[vertices@.len() - 1] == w as usize);
                    }
                };
            }
            v = v + 1;
        }
        vertices
    }

    /// Per-slice vertex counts of current foliation; empty otherwise.
    pub fn slice_sizes(&self) -> (sizes: &[usize])
        ensures
            self.has_current() ==> sizes@ == self.stored_foliation()->0.sizes(),
            !self.has_current() ==> sizes@.len() == 0,
    {
        match self.foliation() {
            Some(f) => f.slice_sizes().as_slice(),
            None => &[],
        }
    }
}


impl CdtTriangulation {
    /// Counts triangles per lower time slab; empty without current foliation.
    ///
    /// Entry `s` (for `s < time_slices`) is the number of strict CDT triangles
    /// whose earlier slice is `s` (toroidal triangulations wrap the last slab
    /// back to slice 0).
    ///
    /// # Errors
    ///
    /// [`CdtError::MeasurementCountOverflow`] when a slab holds more than
    /// `u32::MAX` triangles.
    pub fn volume_profile(&self) -> (result: Result<Vec<u32>, CdtError>)
        requires
            self.wf(),
        ensures
            !self.has_current() ==> (result matches Ok(p) && p@.len() == 0),
            self.has_current() ==> {
                let n = self.mesh_spec().faces().len() as int;
                let fits = forall|s: u32| s < self.spec_time_slices() ==> #[trigger] slab_count(*self, n, s) <= u32::MAX;
                &&& result is Ok <==> fits
                &&& result matches Err(e) ==> e == slab_overflow_error()
                &&& result matches Ok(p) ==> p@.len() == self.spec_time_slices() && forall|s: int|
                    0 <= s < p@.len() ==> p@[s] == slab_count(*self, n, s as u32)
            },
    {
        proof { self.lemma_wf(); }
        if !self.has_foliation() {
            return Ok(Vec::new());
        }
        let total = self.time_slices();
        let mut profile: Vec<u32> = Vec::new();
        let mut s: u32 = 0;
        while s < total
            invariant
                s <= total,
                profile@.len() == s,
                forall|k: int| 0 <= k < s ==> profile@[k] == 0,
            decreases total - s,
        {
            profile.push(0);
            s = s + 1;
        }
        let n = self.face_count();
        let mut f: usize = 0;
        while f < n
            invariant
                self.wf(),
                self.has_current(),
                total == self.spec_time_slices(),
                total > 0,
                n == self.mesh_spec().faces().len(),
                f <= n,
                profile@.len() == total,
                forall|k: int| 0 <= k < total ==> profile@[k] == slab_count(*self, f as int, k as u32),
            decreases n - f,
        {
            let slab = match self.labels_of_face(f) {
                None => None,
                Some((a, b, c)) => lower_slab(self.topology(), total, a, b, c),
            };
            assert(slab == face_slab(*self, f as int));
            if let Some(sl) = slab {
                if sl < total {
                    let current = profile[sl as usize];
                    if current == u32::MAX {
                        proof {
                            assert(slab_count(*self, f + 1, sl) > u32::MAX);
                            lemma_slab_count_monotone(*self, f + 1, n as int, sl);
                        }
                        return Err(volume_profile_count_overflow());
                    }
                    profile.set(sl as usize, current + 1);
                }
            }
            f = f + 1;
        }
        assert forall|s: u32| s < self.spec_time_slices() implies #[trigger] slab_count(*self, n as int, s) <= u32::MAX by {
            assert(profile@[s as int] == slab_count(*self, n as int, s as int as u32));
        };
        Ok(profile)
    }

    /// Counts faces that are not strict Up or Down CDT triangles.
    ///
    /// # Errors
    ///
    /// [`FoliationError::MissingBookkeeping`] without stored foliation;
    /// [`FoliationError::StaleBookkeeping`] when it is stale.
    pub fn strict_causal_simplex_violation_count(&self) -> (result: Result<usize, CdtError>)
        requires
            self.wf(),
        ensures
            self.stored_foliation() is None ==> result == Err::<usize, CdtError>(
                CdtError::Foliation(FoliationError::MissingBookkeeping),
            ),
            self.stored_foliation() is Some && !self.has_current() ==> result == Err::<usize, CdtError>(
                self.stale_error(),
            ),
            self.has_current() ==> result == Ok::<usize, CdtError>(
                non_strict_count(*self, self.mesh_spec().faces().len() as int) as usize,
            ),
    {
        if !self.has_stored_foliation() {
            return Err(CdtError::Foliation(FoliationError::MissingBookkeeping));
        }
        if !self.has_foliation() {
            return Err(self.stale_foliation_error());
        }
        let n = self.face_count();
        let mut count: usize = 0;
        let mut f: usize = 0;
        while f < n
            invariant
                self.wf(),
                n == self.mesh_spec().faces().len(),
                f <= n,
                count == non_strict_count(*self, f as int),
                count <= f,
            decreases n - f,
        {
            if self.classify_face(f).is_none() {
                count = count + 1;
            }
            f = f + 1;
        }
        Ok(count)
    }

    /// Checks that every face is a strict Up or Down CDT triangle.
    ///
    /// Succeeds vacuously without stored foliation.
    ///
    /// # Errors
    ///
    /// [`FoliationError::StaleBookkeeping`] when foliation is stale;
    /// [`CdtError::ValidationFailed`] naming the first non-strict face.
    pub fn validate_simplex_classification(&self) -> (result: Result<(), CdtError>)
        requires
            self.wf(),
        ensures
            self.stored_foliation() is None ==> result is Ok,
            self.stored_foliation() is Some && !self.has_current() ==> result == Err::<(), CdtError>(
                self.stale_error(),
            ),
            self.has_current() ==> result == match first_non_strict(*self, self.mesh_spec().faces().len() as int) {
                None => Ok::<(), CdtError>(()),
                Some(f) => Err(non_strict_error(f)),
            },
    {
        if !self.has_stored_foliation() {
            return Ok(());
        }
        if !self.has_foliation() {
            return Err(self.stale_foliation_error());
        }
        let n = self.face_count();
        let mut f: usize = 0;
        while f < n
            invariant
                self.wf(),
                self.has_current(),
                n == self.mesh_spec().faces().len(),
                f <= n,
                first_non_strict(*self, f as int) is None,
            decreases n - f,
        {
            if self.classify_face(f).is_none() {
                proof { lemma_first_non_strict_stable(*self, f + 1, n as int); }
                return Err(non_strict_error_value(CdtValidationCheck::SimplexClassification, f));
            }
            f = f + 1;
        }
        Ok(())
    }

    /// Classifies every face and stores the classification as its payload.
    ///
    /// Returns `Ok(None)` without stored foliation and `Ok(Some(count))` with
    /// the number of faces classified.
    ///
    /// # Errors
    ///
    /// [`FoliationError::StaleBookkeeping`] when foliation is stale;
    /// [`CdtError::ValidationFailed`] naming the first non-strict face. The
    /// triangulation is unchanged on error.
    pub fn classify_all_simplices(&mut self) -> (result: Result<Option<usize>, CdtError>)
        requires
            old(self).wf(),
        ensures
            final(self).wf(),
            old(self).stored_foliation() is None ==> result == Ok::<Option<usize>, CdtError>(None),
            old(self).stored_foliation() is Some && !old(self).has_current() ==> result == Err::<
                Option<usize>,
                CdtError,
            >(old(self).stale_error()),
            old(self).has_current() ==> result == match first_non_strict(
                *old(self),
                old(self).mesh_spec().faces().len() as int,
            ) {
                None => Ok::<Option<usize>, CdtError>(Some(old(self).mesh_spec().faces().len() as usize)),
                Some(f) => Err(non_strict_error(f)),
            },
            result matches Ok(Some(_)) ==> final(self).classified_from(*old(self)),
            !(result matches Ok(Some(_))) ==> final(self).same_state(*old(self)),
    {
        proof { self.lemma_wf(); }
        if !self.has_stored_foliation() {
            return Ok(None);
        }
        if !self.has_foliation() {
            return Err(self.stale_foliation_error());
        }
        let n = self.face_count();
        let mut kinds: Vec<SimplexType> = Vec::new();
        let mut f: usize = 0;
        while f < n
            invariant
                self.wf(),
                self.has_current(),
                n == self.mesh_spec().faces().len(),
                f <= n,
                kinds@.len() == f,
                first_non_strict(*self, f as int) is None,
                forall|g: int| 0 <= g < f ==> face_simplex(*self, g) == Some(kinds@[g]),
            decreases n - f,
        {
            match self.classify_face(f) {
                Some(kind) => kinds.push(kind),
                None => {
                    proof { lemma_first_non_strict_stable(*self, f + 1, n as int); }
                    return Err(non_strict_error_value(CdtValidationCheck::SimplexClassification, f));
                },
            }
            f = f + 1;
        }
        let ghost before = *self;
        let mut g: usize = 0;
        while g < n
            invariant
                self.wf(),
                n == self.mesh_spec().faces().len(),
                g <= n,
                kinds@.len() == n,
                forall|h: int| 0 <= h < n ==> face_simplex(before, h) == Some(kinds@[h]),
                self.mesh_spec().face_data().len() == n,
                forall|h: int| 0 <= h < g ==> self.mesh_spec().face_data()[h] == Some(simplex_code(kinds@[h])),
                self.mesh_spec().labels() == before.mesh_spec().labels(),
                self.mesh_spec().ranks() == before.mesh_spec().ranks(),
                self.mesh_spec().edges() == before.mesh_spec().edges(),
                self.mesh_spec().faces() == before.mesh_spec().faces(),
                self.spec_time_slices() == before.spec_time_slices(),
                self.spec_dimension() == before.spec_dimension(),
                self.spec_topology() == before.spec_topology(),
                self.spec_modification_count() == before.spec_modification_count(),
                self.stored_foliation() == before.stored_foliation(),
                self.synced_at() == before.synced_at(),
            decreases n - g,
        {
            let code = kinds[g].to_i32();
            self.set_face_data(g, Some(code));
            g = g + 1;
        }
        Ok(Some(n))
    }

    /// Every face stores the payload of its classification; nothing else changed.
    pub open spec fn classified_from(self, before: Self) -> bool {
        &&& self.mesh_spec().labels() == before.mesh_spec().labels()
        &&& self.mesh_spec().ranks() == before.mesh_spec().ranks()
        &&& self.mesh_spec().edges() == before.mesh_spec().edges()
        &&& self.mesh_spec().faces() == before.mesh_spec().faces()
        &&& self.spec_time_slices() == before.spec_time_slices()
        &&& self.spec_dimension() == before.spec_dimension()
        &&& self.spec_topology() == before.spec_topology()
        &&& self.spec_modification_count() == before.spec_modification_count()
        &&& self.stored_foliation() == before.stored_foliation()
        &&& self.synced_at() == before.synced_at()
        &&& self.mesh_spec().face_data().len() == before.mesh_spec().faces().len()
        &&& forall|f: int|
            0 <= f < before.mesh_spec().faces().len() ==> #[trigger] self.mesh_spec().face_data()[f] == Some(
                simplex_code(face_simplex(before, f)->0),
            )
    }

    /// Checks that every face has one spacelike and two timelike edges.
    ///
    /// Succeeds vacuously without stored foliation.
    ///
    /// # Errors
    ///
    /// [`FoliationError::StaleBookkeeping`] when foliation is stale; otherwise
    /// the diagnostic of the first face violating causality (see
    /// [`face_causality_error`]).
    pub fn validate_causality(&self) -> (result: Result<(), CdtError>)
        requires
            self.wf(),
        ensures
            result == self.causality_result(),
    {
        self.validate_causality_delaunay()
    }

    /// The outcome of the causality check.
    pub open spec fn causality_result(self) -> Result<(), CdtError> {
        if self.stored_foliation() is None {
            Ok(())
        } else if !self.has_current() {
            Err(self.stale_error())
        } else {
            match first_causality_error(self, self.mesh_spec().faces().len() as int) {
                None => Ok(()),
                Some(e) => Err(e),
            }
        }
    }

    /// Face-by-face causality check; see [`Self::validate_causality`].
    pub fn validate_causality_delaunay(&self) -> (result: Result<(), CdtError>)
        requires
            self.wf(),
        ensures
            result == self.causality_result(),
    {
        proof { self.lemma_wf(); }
        if !self.has_stored_foliation() {
            return Ok(());
        }
        if !self.has_foliation() {
            return Err(self.stale_foliation_error());
        }
        let n = self.face_count();
        let mut f: usize = 0;
        while f < n
            invariant
                self.wf(),
                self.has_current(),
                n == self.mesh_spec().faces().len(),
                f <= n,
                first_causality_error(*self, f as int) is None,
            decreases n - f,
        {
            if let Some(e) = self.face_causality(f) {
                proof { lemma_first_causality_error_stable(*self, f + 1, n as int); }
                return Err(e);
            }
            f = f + 1;
        }
        Ok(())
    }

    /// Causality diagnostic for one face.
    fn face_causality(&self, f: usize) -> (e: Option<CdtError>)
        requires
            self.wf(),
            f < self.mesh_spec().faces().len(),
        ensures
            e == face_causality_error(*self, f as int),
    {
        proof { self.lemma_wf(); }
        let face = self.geometry().face(f);
        let a = match self.geometry().vertex_label(face.v0) {
            Some(a) => a,
            None => return Some(missing_label_error(face.v0)),
        };
        let b = match self.geometry().vertex_label(face.v1) {
            Some(b) => b,
            None => return Some(missing_label_error(face.v1)),
        };
        let c = match self.geometry().vertex_label(face.v2) {
            Some(c) => c,
            None => return Some(missing_label_error(face.v2)),
        };
        let topo = self.topology();
        let total = self.time_slices();
        let d01 = time_step_distance(topo, total, a, b);
        let d12 = time_step_distance(topo, total, b, c);
        let d20 = time_step_distance(topo, total, c, a);
        if d01 > 1 {
            return Some(violation_error(a, b, d01));
        }
        if d12 > 1 {
            return Some(violation_error(b, c, d12));
        }
        if d20 > 1 {
            return Some(violation_error(c, a, d20));
        }
        let spacelike: u32 = (if d01 == 0 { 1u32 } else { 0u32 }) + (if d12 == 0 { 1u32 } else { 0u32 }) + (
        if d20 == 0 { 1u32 } else { 0u32 });
        let timelike: u32 = 3 - spacelike;
        if spacelike == 1 {
            None
        } else {
            Some(
                CdtError::ValidationFailed {
                    check: CdtValidationCheck::Causality,
                    failure: CdtValidationFailure::InvalidCdtTriangle {
                        face: f,
                        spacelike_edges: spacelike,
                        timelike_edges: timelike,
                    },
                },
            )
        }
    }
}

/// The diagnostic for a non-strict face `f`.
pub open spec fn non_strict_error(f: int) -> CdtError {
    CdtError::ValidationFailed {
        check: CdtValidationCheck::SimplexClassification,
        failure: CdtValidationFailure::NonStrictSimplex { face: f as usize },
    }
}

fn non_strict_error_value(check: CdtValidationCheck, f: usize) -> (e: CdtError)
    ensures
        e == (CdtError::ValidationFailed { check, failure: CdtValidationFailure::NonStrictSimplex { face: f } }),
{
    CdtError::ValidationFailed { check, failure: CdtValidationFailure::NonStrictSimplex { face: f } }
}

fn missing_label_error(v: usize) -> (e: CdtError)
    ensures
        e == (CdtError::ValidationFailed {
            check: CdtValidationCheck::Causality,
            failure: CdtValidationFailure::MissingVertexTimeLabel { vertex: v },
        }),
{
    CdtError::ValidationFailed {
        check: CdtValidationCheck::Causality,
        failure: CdtValidationFailure::MissingVertexTimeLabel { vertex: v },
    }
}

fn violation_error(x: u32, y: u32, d: u32) -> (e: CdtError)
    ensures
        e == (CdtError::CausalityViolation {
            time_0: if x <= y { x } else { y },
            time_1: if x <= y { y } else { x },
            step_distance: d,
        }),
{
    CdtError::CausalityViolation {
        time_0: if x <= y { x } else { y },
        time_1: if x <= y { y } else { x },
        step_distance: d,
    }
}

} // verus!

verus! {

/// Every vertex of the mesh is labeled, within `0..time_slices` for toroidal
/// topology.
pub open spec fn labels_usable(t: CdtTriangulation) -> bool {
    forall|v: int|
        0 <= v < t.mesh_spec().labels().len() ==> (#[trigger] t.mesh_spec().labels()[v]) is Some && (
        t.spec_topology() == CdtTopology::Toroidal ==> t.mesh_spec().labels()[v]->0 < t.spec_time_slices())
}

/// Every vertex carries a label inside `0..time_slices`.
pub open spec fn labels_in_range(t: CdtTriangulation) -> bool {
    forall|v: int|
        0 <= v < t.mesh_spec().labels().len() ==> (#[trigger] t.mesh_spec().labels()[v]) is Some
            && t.mesh_spec().labels()[v]->0 < t.spec_time_slices()
}

/// The entries `0..k` of the volume profile over the first `n` faces, summed.
pub open spec fn slab_total(t: CdtTriangulation, n: int, k: int) -> nat
    decreases k,
{
    if k <= 0 {
        0
    } else {
        slab_total(t, n, k - 1) + slab_count(t, n, (k - 1) as u32)
    }
}

proof fn lemma_slab_total_step(t: CdtTriangulation, n: int, k: int)
    requires
        0 < n,
        0 <= k <= u32::MAX + 1,
    ensures
        slab_total(t, n, k) == slab_total(t, n - 1, k) + (if face_slab(t, n - 1) matches Some(s) && s < k {
            1nat
        } else {
            0nat
        }),
    decreases k,
{
    if k > 0 {
        lemma_slab_total_step(t, n, k - 1);
    }
}

/// With every label inside the slices, each face lies in exactly one slab
/// or is counted as a violation: the volume profile and the violation count
/// together account for every face.
pub proof fn lemma_volume_profile_accounts_faces(t: CdtTriangulation, n: int)
    requires
        t.wf(),
        t.has_current(),
        labels_in_range(t),
        0 <= n <= t.mesh_spec().faces().len(),
    ensures
        slab_total(t, n, t.spec_time_slices() as int) + non_strict_count(t, n) == n,
    decreases n,
{
    t.lemma_wf();
    if n > 0 {
        lemma_volume_profile_accounts_faces(t, n - 1);
        lemma_slab_total_step(t, n, t.spec_time_slices() as int);
        let m = t.mesh_spec();
        let face = m.faces()[n - 1];
        assert(m.labels()[face.v0 as int] is Some);
        assert(m.labels()[face.v1 as int] is Some);
        assert(m.labels()[face.v2 as int] is Some);
        let (a, b, c) = face_labels(m, n - 1)->0;
        lemma_slab_iff_classified(t.spec_topology(), t.spec_time_slices(), a, b, c);
        assert(face_slab(t, n - 1) == lower_slab_of(t.spec_topology(), t.spec_time_slices(), a, b, c));
        assert(face_simplex(t, n - 1) == classify_labels(t.spec_topology(), t.spec_time_slices(), a, b, c));
    } else {
        lemma_slab_total_empty(t, t.spec_time_slices() as int);
    }
}

/// On an open boundary with every label inside the slices, no strict
/// triangle has the last slice as its lower slice: the last entry of the
/// volume profile is zero.
pub proof fn lemma_open_boundary_last_slab_empty(t: CdtTriangulation, n: int)
    requires
        t.wf(),
        t.has_current(),
        t.spec_topology() == CdtTopology::OpenBoundary,
        labels_in_range(t),
        0 <= n <= t.mesh_spec().faces().len(),
    ensures
        slab_count(t, n, (t.spec_time_slices() - 1) as u32) == 0,
    decreases n,
{
    t.lemma_wf();
    if n > 0 {
        lemma_open_boundary_last_slab_empty(t, n - 1);
        let m = t.mesh_spec();
        let face = m.faces()[n - 1];
        assert(m.labels()[face.v0 as int] is Some);
        assert(m.labels()[face.v1 as int] is Some);
        assert(m.labels()[face.v2 as int] is Some);
        let (a, b, c) = face_labels(m, n - 1)->0;
        lemma_slab_iff_classified(t.spec_topology(), t.spec_time_slices(), a, b, c);
        if classify_labels(t.spec_topology(), t.spec_time_slices(), a, b, c) is Some {
            lemma_open_slab_below_last(t.spec_time_slices(), a, b, c);
        }
        assert(face_slab(t, n - 1) == lower_slab_of(t.spec_topology(), t.spec_time_slices(), a, b, c));
    }
}

/// With every label inside the slices, a face counted in slab `s` of the
/// volume profile has its vertices in slice `s` and the slice after it (for a
/// torus, `(s + 1) mod T`, the last slab wrapping to slice 0), with at least
/// one vertex in each.
pub proof fn lemma_face_slab_is_earlier_slice(t: CdtTriangulation, f: int)
    requires
        t.wf(),
        t.has_current(),
        labels_in_range(t),
        0 <= f < t.mesh_spec().faces().len(),
        face_slab(t, f) is Some,
    ensures
        face_slab(t, f) matches Some(s) && {
            let m = t.mesh_spec();
            let face = m.faces()[f];
            let later: int = if t.spec_topology() == CdtTopology::Toroidal {
                (s + 1) % (t.spec_time_slices() as int)
            } else {
                s + 1
            };
            let l0 = m.labels()[face.v0 as int]->0 as int;
            let l1 = m.labels()[face.v1 as int]->0 as int;
            let l2 = m.labels()[face.v2 as int]->0 as int;
            &&& later != s
            &&& l0 == s || l0 == later
            &&& l1 == s || l1 == later
            &&& l2 == s || l2 == later
            &&& l0 == s || l1 == s || l2 == s
            &&& l0 == later || l1 == later || l2 == later
        },
{
    t.lemma_wf();
    let m = t.mesh_spec();
    let face = m.faces()[f];
    assert(m.labels()[face.v0 as int] is Some);
    assert(m.labels()[face.v1 as int] is Some);
    assert(m.labels()[face.v2 as int] is Some);
    let (a, b, c) = face_labels(m, f)->0;
    lemma_slab_iff_classified(t.spec_topology(), t.spec_time_slices(), a, b, c);
    if t.spec_topology() == CdtTopology::Toroidal {
        lemma_toroidal_slab_is_earlier_slice(t.spec_time_slices(), a, b, c);
    }
}

proof fn lemma_slab_total_empty(t: CdtTriangulation, k: int)
    ensures
        slab_total(t, 0, k) == 0,
    decreases k,
{
    if k > 0 {
        lemma_slab_total_empty(t, k - 1);
    }
}

/// Without a non-strict face in a prefix, every face of the prefix is strict.
pub proof fn lemma_no_non_strict_prefix(t: CdtTriangulation, n: int, f: int)
    requires
        0 <= f < n,
        first_non_strict(t, n) is None,
    ensures
        face_simplex(t, f) is Some,
    decreases n,
{
    if f < n - 1 {
        lemma_no_non_strict_prefix(t, n - 1, f);
    }
}

/// At most `n` of the first `n` faces are non-strict.
pub proof fn lemma_non_strict_count_bounded(t: CdtTriangulation, n: int)
    requires
        0 <= n,
    ensures
        non_strict_count(t, n) <= n,
    decreases n,
{
    if n > 0 {
        lemma_non_strict_count_bounded(t, n - 1);
    }
}

/// There is no non-strict face exactly when the violation count is zero.
pub proof fn lemma_violation_count_zero_iff_strict(t: CdtTriangulation, n: int)
    requires
        0 <= n,
    ensures
        (non_strict_count(t, n) == 0) <==> (first_non_strict(t, n) is None),
    decreases n,
{
    if n > 0 {
        lemma_violation_count_zero_iff_strict(t, n - 1);
    }
}

/// After all faces were classified, the stored payload of every face decodes
/// to its live classification: reading back the payloads gives what
/// [`CdtTriangulation::simplex_type`] computes.
pub proof fn lemma_stored_classification_matches_live(before: CdtTriangulation, after: CdtTriangulation)
    requires
        before.has_current(),
        first_non_strict(before, before.mesh_spec().faces().len() as int) is None,
        after.classified_from(before),
    ensures
        after.has_current(),
        forall|f: int|
            0 <= f < after.mesh_spec().faces().len() ==> (match #[trigger] after.mesh_spec().face_data()[f] {
                Some(code) => simplex_of_code(code),
                None => None,
            }) == face_simplex(after, f) && face_simplex(after, f) is Some,
{
    assert forall|f: int| 0 <= f < after.mesh_spec().faces().len() implies (match #[trigger] after.mesh_spec().face_data()[f] {
        Some(code) => simplex_of_code(code),
        None => None,
    }) == face_simplex(after, f) && face_simplex(after, f) is Some by {
        lemma_no_non_strict_prefix(before, before.mesh_spec().faces().len() as int, f);
        assert(face_simplex(after, f) == face_simplex(before, f));
        let k = face_simplex(before, f)->0;
        assert(simplex_of_code(simplex_code(k)) == Some(k));
    };
}

/// With every vertex labeled (in range, for toroidal topology), a face passes
/// the causality check exactly when it is a strict CDT triangle.
pub proof fn lemma_face_causal_iff_strict(t: CdtTriangulation, f: int)
    requires
        t.has_current(),
        t.spec_time_slices() > 0,
        t.mesh_spec().consistent(),
        labels_usable(t),
        0 <= f < t.mesh_spec().faces().len(),
    ensures
        face_causality_error(t, f) is None <==> face_simplex(t, f) is Some,
{
    let m = t.mesh_spec();
    let face = m.faces()[f];
    assert(face.v0 < m.labels().len() && face.v1 < m.labels().len() && face.v2 < m.labels().len());
    let l0 = m.labels()[face.v0 as int];
    let l1 = m.labels()[face.v1 as int];
    let l2 = m.labels()[face.v2 as int];
    assert(l0 is Some && l1 is Some && l2 is Some);
    let (a, b, c) = (l0->0, l1->0, l2->0);
    crate::foliation::lemma_step_distance_symmetric(t.spec_topology(), t.spec_time_slices(), c, a);
    crate::foliation::lemma_causal_iff_classified(t.spec_topology(), t.spec_time_slices(), a, b, c);
}

/// With every vertex labeled (in range, for toroidal topology), the causality
/// check passes exactly when the strict classification check passes.
pub proof fn lemma_causality_iff_classification(t: CdtTriangulation, n: int)
    requires
        t.has_current(),
        t.spec_time_slices() > 0,
        t.mesh_spec().consistent(),
        labels_usable(t),
        0 <= n <= t.mesh_spec().faces().len(),
    ensures
        first_causality_error(t, n) is None <==> first_non_strict(t, n) is None,
    decreases n,
{
    if n > 0 {
        lemma_causality_iff_classification(t, n - 1);
        lemma_face_causal_iff_strict(t, n - 1);
    }
}

} // verus!
