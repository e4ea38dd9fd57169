//! Filtering an over-complete labeled strip down to a strict CDT: removal
//! candidates on non-strict faces and the bounded removal loop.

use super::builders::{
    parameter_error, remap_strip_generation_error, strip_range, strip_remapped, times_string, times_text,
};
use crate::errors::{is_parameter_error, GenerationParameterIssue};
use crate::text::decimal_string;
use super::checks::{domain_checks_pass, domain_error_matches};
use super::queries::{
    first_non_strict, lemma_current_is_live, lemma_first_non_strict_stable, lemma_live_same_parts,
    lemma_live_violation_found, lemma_non_strict_count_bounded, lemma_violation_count_zero_iff_strict,
    live_first_non_strict, live_non_strict_count, non_strict_count,
};
use super::state::{admissible_euler, CdtTriangulation};
use super::validation::{first_label_error, lemma_live_sizes_total, live_sizes, live_slice_sizes_from_vertex_labels};
use crate::config::CdtTopology;
use crate::errors::{
    BackendMutationOperation, CdtError, CdtValidationCheck, CdtValidationFailure, DelaunayGenerationFailure,
    FoliationError,
};
use crate::foliation::{first_empty_slice, Foliation};
use crate::mesh::{euler_of, CdtMesh};
use crate::text::{decimal, owned, push_decimal};
use vstd::prelude::*;
use vstd::string::*;

verus! {

/// Vertex at corner `i` (0, 1 or 2) of face `f`.
pub open spec fn corner(m: CdtMesh, f: int, i: int) -> usize {
    let face = m.faces()[f];
    if i == 0 {
        face.v0
    } else if i == 1 {
        face.v1
    } else {
        face.v2
    }
}

/// Label of corner `i` of face `f`.
pub open spec fn corner_label(m: CdtMesh, f: int, i: int) -> u32 {
    m.labels()[corner(m, f, i) as int]->0
}

/// Number of corners of face `f` sharing the label of corner `i`.
pub open spec fn same_label_count(m: CdtMesh, f: int, i: int) -> nat {
    let l = corner_label(m, f, i);
    (if corner_label(m, f, 0) == l { 1nat } else { 0nat }) + (if corner_label(m, f, 1) == l { 1nat } else { 0nat }) + (
    if corner_label(m, f, 2) == l { 1nat } else { 0nat })
}

/// Corner `i` may be removed from face `f`: when the face spans more than one
/// step, only its extreme labels are candidates; otherwise every corner is.
pub open spec fn is_removal_candidate(m: CdtMesh, f: int, i: int) -> bool {
    let l0 = corner_label(m, f, 0);
    let l1 = corner_label(m, f, 1);
    let l2 = corner_label(m, f, 2);
    let lo = if l0 <= l1 && l0 <= l2 { l0 } else if l1 <= l2 { l1 } else { l2 };
    let hi = if l0 >= l1 && l0 >= l2 { l0 } else if l1 >= l2 { l1 } else { l2 };
    if hi - lo > 1 {
        corner_label(m, f, i) == lo || corner_label(m, f, i) == hi
    } else {
        true
    }
}

/// Corner `i` is a candidate whose slice is above `minimum`.
pub open spec fn removable(m: CdtMesh, sizes: Seq<usize>, minimum: usize, f: int, i: int) -> bool {
    &&& 0 <= i < 3
    &&& is_removal_candidate(m, f, i)
    &&& (corner_label(m, f, i) as int) < sizes.len()
    &&& sizes[corner_label(m, f, i) as int] > minimum
}

/// Corner `i` comes before corner `j`: fewer corners with its label, then a
/// smaller label, then an earlier position.
pub open spec fn ranks_before(m: CdtMesh, f: int, i: int, j: int) -> bool {
    let ci = same_label_count(m, f, i);
    let cj = same_label_count(m, f, j);
    let li = corner_label(m, f, i);
    let lj = corner_label(m, f, j);
    ci < cj || (ci == cj && (li < lj || (li == lj && i < j)))
}

/// The removable corner of face `f` that ranks first.
pub open spec fn removal_corner(m: CdtMesh, sizes: Seq<usize>, minimum: usize, f: int) -> Option<int> {
    if exists|i: int| removable(m, sizes, minimum, f, i) {
        Some(
            choose|i: int|
                removable(m, sizes, minimum, f, i) && forall|j: int|
                    removable(m, sizes, minimum, f, j) && j != i ==> ranks_before(m, f, i, j),
        )
    } else {
        None
    }
}

/// The per-slice sizes of current foliation; empty otherwise.
pub open spec fn current_sizes(t: CdtTriangulation) -> Seq<usize> {
    if t.has_current() {
        t.stored_foliation()->0.sizes()
    } else {
        Seq::empty()
    }
}

/// The error for a vertex without label found while choosing a removal.
pub open spec fn unlabeled_candidate_error(v: usize) -> CdtError {
    CdtError::ValidationFailed {
        check: CdtValidationCheck::SimplexClassification,
        failure: CdtValidationFailure::MissingVertexTimeLabel { vertex: v },
    }
}

/// What choosing a removal from the non-strict face `f` gives.
pub open spec fn removal_decision(
    t: CdtTriangulation,
    minimum: usize,
    total_vertices: u32,
    coordinate_max: u32,
    f: int,
) -> Result<Option<usize>, CdtError> {
    removal_choice(t.mesh_spec(), current_sizes(t), minimum, total_vertices, coordinate_max, f)
}

/// What choosing a removal from the non-strict face `f` of `m` gives, with
/// `sizes` as the per-slice vertex counts.
pub open spec fn removal_choice(
    m: CdtMesh,
    sizes: Seq<usize>,
    minimum: usize,
    total_vertices: u32,
    coordinate_max: u32,
    f: int,
) -> Result<Option<usize>, CdtError> {
    if m.labels()[corner(m, f, 0) as int] is None {
        Err(unlabeled_candidate_error(corner(m, f, 0)))
    } else if m.labels()[corner(m, f, 1) as int] is None {
        Err(unlabeled_candidate_error(corner(m, f, 1)))
    } else if m.labels()[corner(m, f, 2) as int] is None {
        Err(unlabeled_candidate_error(corner(m, f, 2)))
    } else {
        match removal_corner(m, sizes, minimum, f) {
            Some(i) => Ok(Some(corner(m, f, i))),
            None => Err(
                CdtError::DelaunayGenerationFailed {
                    vertex_count: total_vertices,
                    coordinate_range: strip_range(coordinate_max),
                    attempt: 1,
                    failure: DelaunayGenerationFailure::MinimumSliceSizeReached {
                        face: f as usize,
                        minimum_slice_size: minimum,
                    },
                },
            ),
        }
    }
}

fn unlabeled_error(v: usize) -> (e: CdtError)
    ensures
        e == unlabeled_candidate_error(v),
{
    CdtError::ValidationFailed {
        check: CdtValidationCheck::SimplexClassification,
        failure: CdtValidationFailure::MissingVertexTimeLabel { vertex: v },
    }
}

proof fn lemma_ranks_before_asymmetric(m: CdtMesh, f: int, i: int, j: int)
    requires
        i != j,
    ensures
        !(ranks_before(m, f, i, j) && ranks_before(m, f, j, i)),
        ranks_before(m, f, i, j) || ranks_before(m, f, j, i),
{
}

impl CdtTriangulation {
    /// Chooses a vertex to remove from the first face that is not a strict
    /// CDT triangle: among its candidate corners (the extreme labels of a face
    /// spanning more than one step, else all three), the one with the fewest
    /// corners sharing its label, then the smallest label, then the earliest
    /// position, whose slice still has more than `minimum_slice_size`
    /// vertices. `Ok(None)` when every face is strict.
    ///
    /// # Errors
    ///
    /// An unlabeled corner of that face, or
    /// [`DelaunayGenerationFailure::MinimumSliceSizeReached`] when no candidate
    /// may be removed, as [`removal_decision`] states.
    pub fn invalid_simplex_removal_candidate(
        &self,
        minimum_slice_size: usize,
        total_vertices: u32,
        coordinate_max: u32,
    ) -> (result: Result<Option<usize>, CdtError>)
        requires
            self.wf(),
        ensures
            result == match first_non_strict(*self, self.mesh_spec().faces().len() as int) {
                None => Ok::<Option<usize>, CdtError>(None),
                Some(f) => removal_decision(*self, minimum_slice_size, total_vertices, coordinate_max, f),
            },
    {
        let n = self.face_count();
        let mut f: usize = 0;
        while f < n
            invariant
                self.wf(),
                n == self.mesh_spec().faces().len(),
                f <= n,
                first_non_strict(*self, f as int) is None,
            decreases n - f,
        {
            match self.simplex_type(f) {
                Ok(Some(_)) => {},
                _ => {
                    proof { lemma_first_non_strict_stable(*self, f + 1, n as int); }
                    return self.removal_from_face(f, minimum_slice_size, total_vertices, coordinate_max);
                },
            }
            f = f + 1;
        }
        Ok(None)
    }

    fn removal_from_face(&self, f: usize, minimum: usize, total_vertices: u32, coordinate_max: u32) -> (result: Result<
        Option<usize>,
        CdtError,
    >)
        requires
            self.wf(),
            f < self.mesh_spec().faces().len(),
        ensures
            result == removal_decision(*self, minimum, total_vertices, coordinate_max, f as int),
    {
        proof { self.lemma_wf(); }
        let ghost m = self.mesh_spec();
        let mesh = self.geometry();
        let face = mesh.face(f);
        let corners = [face.v0, face.v1, face.v2];
        let l0 = match mesh.vertex_label(face.v0) {
            Some(l) => l,
            None => return Err(unlabeled_error(face.v0)),
        };
        let l1 = match mesh.vertex_label(face.v1) {
            Some(l) => l,
            None => return Err(unlabeled_error(face.v1)),
        };
        let l2 = match mesh.vertex_label(face.v2) {
            Some(l) => l,
            None => return Err(unlabeled_error(face.v2)),
        };
        let labels = [l0, l1, l2];
        let lo = if l0 <= l1 && l0 <= l2 { l0 } else if l1 <= l2 { l1 } else { l2 };
        let hi = if l0 >= l1 && l0 >= l2 { l0 } else if l1 >= l2 { l1 } else { l2 };
        let sizes = self.slice_sizes();
        let ghost fi = f as int;
        let mut best: Option<usize> = None;
        let mut i: usize = 0;
        while i < 3
            invariant
                i <= 3,
                m == self.mesh_spec(),
                sizes@ == current_sizes(*self),
                fi == f as int,
                labels@ == seq![corner_label(m, fi, 0), corner_label(m, fi, 1), corner_label(m, fi, 2)],
                corners@ == seq![corner(m, fi, 0), corner(m, fi, 1), corner(m, fi, 2)],
                lo == (if l0 <= l1 && l0 <= l2 { l0 } else if l1 <= l2 { l1 } else { l2 }),
                hi == (if l0 >= l1 && l0 >= l2 { l0 } else if l1 >= l2 { l1 } else { l2 }),
                l0 == corner_label(m, fi, 0),
                l1 == corner_label(m, fi, 1),
                l2 == corner_label(m, fi, 2),
                match best {
                    None => forall|j: int| 0 <= j < i ==> !removable(m, sizes@, minimum, fi, j),
                    Some(b) => b < i && removable(m, sizes@, minimum, fi, b as int) && forall|j: int|
                        0 <= j < i && j != b && removable(m, sizes@, minimum, fi, j) ==> ranks_before(
                            m,
                            fi,
                            b as int,
                            j,
                        ),
                },
            decreases 3 - i,
        {
            let l = labels[i];
            let candidate = if hi - lo > 1 { l == lo || l == hi } else { true };
            let eligible = candidate && (l as usize) < sizes.len() && sizes[l as usize] > minimum;
            if eligible {
                let count_i = (if l0 == l { 1u32 } else { 0 }) + (if l1 == l { 1u32 } else { 0 }) + (if l2 == l {
                    1u32
                } else {
                    0
                });
                let better = match best {
                    None => true,
                    Some(b) => {
                        let lb = labels[b];
                        let count_b = (if l0 == lb { 1u32 } else { 0 }) + (if l1 == lb { 1u32 } else { 0 }) + (if l2
                            == lb {
                            1u32
                        } else {
                            0
                        });
                        count_i < count_b || (count_i == count_b && l < lb)
                    },
                };
                proof {
                    assert(removable(m, sizes@, minimum, fi, i as int));
                    if let Some(b) = best {
                        lemma_ranks_before_asymmetric(m, fi, b as int, i as int);
                    }
                }
                if better {
                    best = Some(i);
                }
            } else {
                proof {
                    assert(!removable(m, sizes@, minimum, fi, i as int));
                }
            }
            i = i + 1;
        }
        match best {
            Some(b) => {
                proof {
                    let bi = b as int;
                    assert(forall|j: int| removable(m, sizes@, minimum, fi, j) ==> 0 <= j < 3);
                    let c = choose|c: int|
                        removable(m, sizes@, minimum, fi, c) && forall|j: int|
                            removable(m, sizes@, minimum, fi, j) && j != c ==> ranks_before(m, fi, c, j);
                    if c != bi {
                        lemma_ranks_before_asymmetric(m, fi, c, bi);
                    }
                    assert(removal_corner(m, current_sizes(*self), minimum, fi) == Some(bi));
                }
                Ok(Some(corners[b]))
            },
            None => {
                proof {
                    assert(forall|j: int| removable(m, sizes@, minimum, fi, j) ==> 0 <= j < 3);
                }
                Err(
                    CdtError::DelaunayGenerationFailed {
                        vertex_count: total_vertices,
                        coordinate_range: crate::errors::CoordinateRange { start: 0, end: coordinate_max as i64 },
                        attempt: 1,
                        failure: DelaunayGenerationFailure::MinimumSliceSizeReached { face: f, minimum_slice_size: minimum },
                    },
                )
            },
        }
    }
}

/// What rebuilding foliation from live labels gives for `before`.
pub open spec fn rebuild_outcome(before: CdtTriangulation, after: CdtTriangulation, result: Result<(), CdtError>) -> bool {
    let m = before.mesh_spec();
    let ts = before.spec_time_slices();
    let live = live_sizes(m.labels(), ts);
    let label_error = first_label_error(m.labels(), m.labels().len() as int, ts);
    if label_error is Some {
        result == Err::<(), CdtError>(CdtError::Foliation(label_error->0)) && after.same_state(before)
    } else if first_empty_slice(live) is Some {
        &&& result == Err::<(), CdtError>(
            CdtError::Foliation(FoliationError::EmptySlice { slice: first_empty_slice(live)->0 as usize }),
        )
        &&& after.same_state(before)
    } else {
        result is Ok && exists|f: Foliation| f.sizes() == live && f.slices() == ts && after == #[trigger] before.with_current_foliation(f)
    }
}

/// The error rebuilding foliation from the live labels of `t` meets, if any:
/// the first missing or out-of-range label, then the first empty slice.
pub open spec fn rebuild_failure(t: CdtTriangulation) -> Option<CdtError> {
    let m = t.mesh_spec();
    let ts = t.spec_time_slices();
    let label_error = first_label_error(m.labels(), m.labels().len() as int, ts);
    let live = live_sizes(m.labels(), ts);
    if label_error is Some {
        Some(CdtError::Foliation(label_error->0))
    } else if first_empty_slice(live) is Some {
        Some(CdtError::Foliation(FoliationError::EmptySlice { slice: first_empty_slice(live)->0 as usize }))
    } else {
        None
    }
}

/// The removal a filter pass chooses for `t` once foliation is rebuilt from
/// its live labels.
pub open spec fn live_removal(t: CdtTriangulation, minimum: usize, total_vertices: u32, coordinate_max: u32) -> Result<
    Option<usize>,
    CdtError,
> {
    let m = t.mesh_spec();
    match live_first_non_strict(t, m.faces().len() as int) {
        None => Ok(None),
        Some(f) => removal_choice(m, live_sizes(m.labels(), t.spec_time_slices()), minimum, total_vertices, coordinate_max, f),
    }
}

/// The error of a filter pass whose violations outlast the pass budget.
pub open spec fn budget_exhausted(total_vertices: u32, coordinate_max: u32, attempt: u32, max_passes: u32, remaining: usize) -> CdtError {
    CdtError::DelaunayGenerationFailed {
        vertex_count: total_vertices,
        coordinate_range: strip_range(coordinate_max),
        attempt,
        failure: DelaunayGenerationFailure::FilterPassBudgetExhausted { max_passes, remaining_violations: remaining },
    }
}

/// The first filter pass on `t` removes a vertex and goes on: foliation
/// rebuilds, violations remain, the budget allows a removal, a vertex is
/// chosen, and `remove` may succeed on it.
pub open spec fn first_pass_continues<R: Fn(&CdtMesh, usize) -> Result<CdtMesh, String>>(
    t: CdtTriangulation,
    minimum: usize,
    max_passes: u32,
    total_vertices: u32,
    coordinate_max: u32,
    remove: R,
) -> bool {
    &&& rebuild_failure(t) is None
    &&& live_non_strict_count(t, t.mesh_spec().faces().len() as int) > 0
    &&& max_passes > 0
    &&& live_removal(t, minimum, total_vertices, coordinate_max) matches Ok(Some(v))
    &&& exists|g: Result<CdtMesh, String>| call_ensures(remove, (&t.mesh_spec(), v), g) && g is Ok
}

/// The error of a filter pass that finds no vertex it may remove.
pub open spec fn no_removable(total_vertices: u32, coordinate_max: u32, attempt: u32, remaining: usize) -> CdtError {
    CdtError::DelaunayGenerationFailed {
        vertex_count: total_vertices,
        coordinate_range: strip_range(coordinate_max),
        attempt,
        failure: DelaunayGenerationFailure::NoRemovableFilterVertex { remaining_violations: remaining },
    }
}

/// `result` is the error a failed removal of vertex `v` reports.
pub open spec fn removal_failed(v: usize, detail: String, result: Result<(), CdtError>) -> bool {
    result matches Err(CdtError::BackendMutationFailed { operation, target, detail: d }) && operation
        == BackendMutationOperation::RemoveVertex && target@ == "vertex "@ + decimal(v as nat) && d == detail
}

/// What the filter passes from pass `pass` on give, when the state `frame`
/// holds the mesh `m` at the start of that pass: each pass rebuilds
/// foliation from the live labels (its failure is the result), stops with
/// success when no face is non-strict (`final_mesh` is then the mesh), fails
/// when the budget is spent, fails with the candidate error or when no vertex
/// may go, and otherwise hands the chosen vertex to `remove`, whose failure
/// is reported and whose mesh the next pass starts from.
pub open spec fn filter_outcome<R: Fn(&CdtMesh, usize) -> Result<CdtMesh, String>>(
    frame: CdtTriangulation,
    m: CdtMesh,
    pass: nat,
    minimum: usize,
    max_passes: u32,
    total_vertices: u32,
    coordinate_max: u32,
    remove: R,
    result: Result<(), CdtError>,
    final_mesh: CdtMesh,
) -> bool
    decreases max_passes - pass,
{
    let t = frame.with_mesh(m);
    let count = live_non_strict_count(t, m.faces().len() as int);
    if pass > max_passes {
        false
    } else if rebuild_failure(t) is Some {
        result == Err::<(), CdtError>(rebuild_failure(t)->0)
    } else if count == 0 {
        result is Ok && final_mesh == m
    } else if pass == max_passes {
        result == Err::<(), CdtError>(
            budget_exhausted(total_vertices, coordinate_max, (pass + 1) as u32, max_passes, count as usize),
        )
    } else {
        match live_removal(t, minimum, total_vertices, coordinate_max) {
            Err(e) => result == Err::<(), CdtError>(e),
            Ok(None) => result == Err::<(), CdtError>(
                no_removable(total_vertices, coordinate_max, (pass + 1) as u32, count as usize),
            ),
            Ok(Some(v)) => exists|g: Result<CdtMesh, String>|
                #[trigger] call_ensures(remove, (&m, v), g) && match g {
                    Err(detail) => removal_failed(v, detail, result),
                    Ok(m2) => filter_outcome(
                        frame,
                        m2,
                        pass + 1,
                        minimum,
                        max_passes,
                        total_vertices,
                        coordinate_max,
                        remove,
                        result,
                        final_mesh,
                    ),
                },
        }
    }
}

/// The state a filter loop works on keeps its metadata.
pub open spec fn same_metadata(a: CdtTriangulation, b: CdtTriangulation) -> bool {
    &&& a.spec_time_slices() == b.spec_time_slices()
    &&& a.spec_dimension() == b.spec_dimension()
    &&& a.spec_topology() == b.spec_topology()
}

impl CdtTriangulation {
    /// Rebuilds foliation bookkeeping from the live labels, current at the
    /// present revision.
    ///
    /// # Errors
    ///
    /// The first missing or out-of-range label, or the first empty slice, as
    /// [`rebuild_outcome`] states; the triangulation is unchanged then.
    pub fn rebuild_open_foliation_from_live_labels(&mut self) -> (result: Result<(), CdtError>)
        requires
            old(self).wf(),
        ensures
            final(self).wf(),
            same_metadata(*final(self), *old(self)),
            result is Ok ==> final(self).has_current(),
            rebuild_outcome(*old(self), *final(self), result),
    {
        proof { self.lemma_wf(); }
        let ghost before = *self;
        let _n = self.vertex_count(); // the vertex count fits in usize
        let ts = self.time_slices();
        let sizes = match live_slice_sizes_from_vertex_labels(self.geometry(), ts) {
            Ok(sizes) => sizes,
            Err(e) => return Err(e),
        };
        proof { lemma_live_sizes_total(before.mesh_spec().labels(), ts); }
        let foliation = match Foliation::from_slice_sizes(sizes, ts) {
            Ok(f) => f,
            Err(e) => return Err(CdtError::Foliation(e)),
        };
        let ghost fg = foliation;
        self.install_foliation(foliation, ts);
        assert(*self == before.with_current_foliation(fg));
        Ok(())
    }

    /// Removes vertices of non-strict faces until every face is a strict CDT
    /// triangle, with at most `max_passes` removals.
    ///
    /// Each pass rebuilds foliation from the live labels and counts the
    /// non-strict faces; with none left it stops. Otherwise it chooses a
    /// vertex by [`Self::invalid_simplex_removal_candidate`] and asks `remove`
    /// for the mesh without it (the geometry backend retriangulates the
    /// cavity), which counts as a modification. A mesh without violations
    /// after the first rebuild is left as it is.
    ///
    /// # Errors
    ///
    /// Rebuild and candidate errors; [`DelaunayGenerationFailure::FilterPassBudgetExhausted`]
    /// when violations remain after `max_passes` removals;
    /// [`DelaunayGenerationFailure::NoRemovableFilterVertex`] when no vertex
    /// may be removed; [`CdtError::BackendMutationFailed`] when `remove` fails;
    /// pass by pass as [`filter_outcome`] states.
    #[verifier::rlimit(40)]
    #[verifier::spinoff_prover]
    pub fn filter_invalid_open_delaunay_simplices<R: Fn(&CdtMesh, usize) -> Result<CdtMesh, String>>(
        &mut self,
        minimum_vertices_per_slice: usize,
        max_passes: u32,
        total_vertices: u32,
        coordinate_max: u32,
        remove: R,
    ) -> (result: Result<(), CdtError>)
        requires
            old(self).wf(),
            max_passes < u32::MAX,
            forall|m: &CdtMesh, v: usize| call_requires(remove, (m, v)),
            forall|m: &CdtMesh, v: usize, r: Result<CdtMesh, String>| #[trigger] call_ensures(remove, (m, v), r) ==> (r matches Ok(
                mm,
            ) ==> mm.consistent()),
        ensures
            final(self).wf(),
            same_metadata(*final(self), *old(self)),
            result is Ok ==> final(self).has_current() && first_non_strict(
                *final(self),
                final(self).mesh_spec().faces().len() as int,
            ) is None,
            rebuild_failure(*old(self)) matches Some(e) ==> result == Err::<(), CdtError>(e),
            rebuild_failure(*old(self)) is None && live_non_strict_count(
                *old(self),
                old(self).mesh_spec().faces().len() as int,
            ) == 0 ==> result is Ok && exists|f: Foliation|
                f.sizes() == live_sizes(old(self).mesh_spec().labels(), old(self).spec_time_slices()) && f.slices()
                    == old(self).spec_time_slices() && *final(self) == #[trigger] old(self).with_current_foliation(f),
            rebuild_failure(*old(self)) is None && live_non_strict_count(
                *old(self),
                old(self).mesh_spec().faces().len() as int,
            ) > 0 && max_passes == 0 ==> result == Err::<(), CdtError>(
                budget_exhausted(
                    total_vertices,
                    coordinate_max,
                    1,
                    0,
                    live_non_strict_count(*old(self), old(self).mesh_spec().faces().len() as int) as usize,
                ),
            ),
            rebuild_failure(*old(self)) is None && live_non_strict_count(
                *old(self),
                old(self).mesh_spec().faces().len() as int,
            ) > 0 && max_passes > 0 ==> match live_removal(
                *old(self),
                minimum_vertices_per_slice,
                total_vertices,
                coordinate_max,
            ) {
                Err(e) => result == Err::<(), CdtError>(e),
                Ok(Some(v)) => exists|g: Result<CdtMesh, String>|
                    call_ensures(remove, (&old(self).mesh_spec(), v), g) && (g matches Err(detail) ==> result matches Err(
                        CdtError::BackendMutationFailed { operation, target, detail: d },
                    ) && operation == BackendMutationOperation::RemoveVertex && target@ == "vertex "@ + decimal(v as nat)
                        && d == detail),
                Ok(None) => true,
            },
            filter_outcome(
                *old(self),
                old(self).mesh_spec(),
                0,
                minimum_vertices_per_slice,
                max_passes,
                total_vertices,
                coordinate_max,
                remove,
                result,
                final(self).mesh_spec(),
            ),
    {
        let ghost start = *self;
        let ghost nf = self.mesh_spec().faces().len() as int;
        let mut pass: u32 = 0;
        loop
            invariant
                self.wf(),
                start == *old(self),
                nf == start.mesh_spec().faces().len(),
                same_metadata(*self, start),
                pass == 0 ==> *self == start,
                pass > 0 ==> first_pass_continues(
                    start,
                    minimum_vertices_per_slice,
                    max_passes,
                    total_vertices,
                    coordinate_max,
                    remove,
                ),
                pass <= max_passes < u32::MAX,
                forall|r: Result<(), CdtError>, fm: CdtMesh|
                    #[trigger] filter_outcome(
                        start,
                        self.mesh_spec(),
                        pass as nat,
                        minimum_vertices_per_slice,
                        max_passes,
                        total_vertices,
                        coordinate_max,
                        remove,
                        r,
                        fm,
                    ) ==> filter_outcome(
                        start,
                        start.mesh_spec(),
                        0,
                        minimum_vertices_per_slice,
                        max_passes,
                        total_vertices,
                        coordinate_max,
                        remove,
                        r,
                        fm,
                    ),
                forall|m: &CdtMesh, v: usize| call_requires(remove, (m, v)),
                forall|m: &CdtMesh, v: usize, r: Result<CdtMesh, String>| #[trigger] call_ensures(remove, (m, v), r) ==> (r matches Ok(
                    mm,
                ) ==> mm.consistent()),
            decreases max_passes - pass,
        {
            let ghost head = *self;
            let ghost hn = head.mesh_spec().faces().len() as int;
            let ghost frame_t = start.with_mesh(head.mesh_spec());
            proof {
                start.lemma_with_mesh(head.mesh_spec());
                head.lemma_wf();
            }
            match self.rebuild_open_foliation_from_live_labels() {
                Ok(()) => {},
                Err(e) => {
                    proof {
                        assert(filter_outcome(start, head.mesh_spec(), pass as nat, minimum_vertices_per_slice,
                            max_passes, total_vertices, coordinate_max, remove, Err::<(), CdtError>(e), self.mesh_spec()));
                    }
                    return Err(e);
                },
            }
            assert(self.has_current());
            let violations = match self.strict_causal_simplex_violation_count() {
                Ok(v) => v,
                Err(e) => return Err(e),
            };
            let _nf = self.face_count(); // the face count fits in usize
            proof {
                lemma_non_strict_count_bounded(*self, self.mesh_spec().faces().len() as int);
                self.lemma_wf();
                let ts = head.spec_time_slices();
                let live = live_sizes(head.mesh_spec().labels(), ts);
                let f = choose|f: Foliation|
                    f.sizes() == live && f.slices() == ts && *self == #[trigger] head.with_current_foliation(f);
                head.lemma_with_current_foliation(f);
                lemma_current_is_live(*self, hn);
                lemma_live_same_parts(*self, frame_t, hn);
                if pass == 0 {
                    lemma_current_is_live(*self, nf);
                    lemma_live_same_parts(*self, start, nf);
                }
            }
            if violations == 0 {
                proof {
                    let n = self.mesh_spec().faces().len() as int;
                    lemma_non_strict_count_bounded(*self, n);
                    lemma_violation_count_zero_iff_strict(*self, n);
                    assert(filter_outcome(start, head.mesh_spec(), pass as nat, minimum_vertices_per_slice,
                        max_passes, total_vertices, coordinate_max, remove, Ok::<(), CdtError>(()), self.mesh_spec()));
                }
                return Ok(());
            }
            if pass == max_passes {
                let r = Err(
                    CdtError::DelaunayGenerationFailed {
                        vertex_count: total_vertices,
                        coordinate_range: crate::errors::CoordinateRange { start: 0, end: coordinate_max as i64 },
                        attempt: pass + 1,
                        failure: DelaunayGenerationFailure::FilterPassBudgetExhausted {
                            max_passes,
                            remaining_violations: violations,
                        },
                    },
                );
                proof {
                    assert(filter_outcome(start, head.mesh_spec(), pass as nat, minimum_vertices_per_slice,
                        max_passes, total_vertices, coordinate_max, remove, r, self.mesh_spec()));
                }
                return r;
            }
            let candidate = self.invalid_simplex_removal_candidate(
                minimum_vertices_per_slice,
                total_vertices,
                coordinate_max,
            );
            proof {
                lemma_live_violation_found(frame_t, hn);
                assert(candidate == live_removal(frame_t, minimum_vertices_per_slice, total_vertices, coordinate_max));
            }
            let vertex = match candidate {
                Err(e) => {
                    proof {
                        assert(filter_outcome(start, head.mesh_spec(), pass as nat, minimum_vertices_per_slice,
                            max_passes, total_vertices, coordinate_max, remove, Err::<(), CdtError>(e), self.mesh_spec()));
                    }
                    return Err(e);
                },
                Ok(Some(v)) => v,
                Ok(None) => {
                    let r = Err(
                        CdtError::DelaunayGenerationFailed {
                            vertex_count: total_vertices,
                            coordinate_range: crate::errors::CoordinateRange { start: 0, end: coordinate_max as i64 },
                            attempt: pass + 1,
                            failure: DelaunayGenerationFailure::NoRemovableFilterVertex { remaining_violations: violations },
                        },
                    );
                    proof {
                        assert(filter_outcome(start, head.mesh_spec(), pass as nat, minimum_vertices_per_slice,
                            max_passes, total_vertices, coordinate_max, remove, r, self.mesh_spec()));
                    }
                    return r;
                },
            };
            let reduced = remove(self.geometry(), vertex);
            let ghost g = reduced;
            match reduced {
                Ok(mesh) => {
                    self.replace_mesh(mesh);
                    proof {
                        assert forall|r: Result<(), CdtError>, fm: CdtMesh|
                            #[trigger] filter_outcome(start, self.mesh_spec(), (pass + 1) as nat,
                                minimum_vertices_per_slice, max_passes, total_vertices, coordinate_max, remove, r, fm)
                            implies filter_outcome(start, start.mesh_spec(), 0, minimum_vertices_per_slice,
                                max_passes, total_vertices, coordinate_max, remove, r, fm) by {
                            assert(call_ensures(remove, (&head.mesh_spec(), vertex), g));
                            assert(filter_outcome(start, head.mesh_spec(), pass as nat, minimum_vertices_per_slice,
                                max_passes, total_vertices, coordinate_max, remove, r, fm));
                        };
                    }
                },
                Err(detail) => {
                    proof { reveal_strlit("vertex "); }
                    let mut target = owned("vertex ");
                    push_decimal(&mut target, vertex as u64);
                    let r = Err(
                        CdtError::BackendMutationFailed {
                            operation: BackendMutationOperation::RemoveVertex,
                            target,
                            detail,
                        },
                    );
                    proof {
                        assert(call_ensures(remove, (&head.mesh_spec(), vertex), g));
                        assert(filter_outcome(start, head.mesh_spec(), pass as nat, minimum_vertices_per_slice,
                            max_passes, total_vertices, coordinate_max, remove, r, self.mesh_spec()));
                    }
                    return r;
                },
            }
            pass = pass + 1;
        }
    }
}

/// Removal passes a filtered strip builder allows.
pub const FILTERED_DELAUNAY_MAX_PASSES: u32 = 50;

/// Vertex count of a filtered strip: the strip points plus two surplus
/// points for more than two slices.
pub open spec fn filtered_total(vertices_per_slice: u32, num_slices: u32) -> u32 {
    (vertices_per_slice * num_slices + (if num_slices > 2 { 2int } else { 0int })) as u32
}

/// `"{a} + {b}"`.
pub open spec fn plus_text(a: nat, b: nat) -> Seq<char> {
    decimal(a) + " + "@ + decimal(b)
}

impl CdtTriangulation {
    /// Builds an open 1+1 CDT strip by filtering an over-complete labeled
    /// mesh: `generate` triangulates `vertices_per_slice · num_slices` strip
    /// points plus, for more than two slices, two surplus points near the
    /// opposite temporal boundaries; then vertices of non-strict faces are
    /// removed (through `remove`, at most 50 times) until every face is strict,
    /// and the result is validated as a strict CDT. A generated mesh whose
    /// live labels already make every face strict is not filtered: the build
    /// succeeds exactly when it passes the CDT-domain checks.
    ///
    /// # Errors
    ///
    /// In this order: [`GenerationParameterIssue::InsufficientVerticesPerSlice`]
    /// below 4; [`GenerationParameterIssue::InsufficientNumberOfTimeSlices`]
    /// below 2; [`GenerationParameterIssue::VertexCountOverflow`] when the
    /// vertex count leaves `u32`; the generator's failure restated for the
    /// strip; then errors of wrapping, of filtering (as [`filter_outcome`]
    /// states, from the wrapped mesh with 50 passes) and of validation.
    #[verifier::rlimit(40)]
    #[verifier::spinoff_prover]
    pub fn from_filtered_delaunay_strip<
        G: FnOnce() -> Result<CdtMesh, CdtError>,
        R: Fn(&CdtMesh, usize) -> Result<CdtMesh, String>,
    >(vertices_per_slice: u32, num_slices: u32, generate: G, remove: R) -> (result: Result<CdtTriangulation, CdtError>)
        requires
            call_requires(generate, ()),
            forall|g: Result<CdtMesh, CdtError>| #[trigger] call_ensures(generate, (), g) ==> (g matches Ok(m) ==> m.consistent()),
            forall|m: &CdtMesh, v: usize| call_requires(remove, (m, v)),
            forall|m: &CdtMesh, v: usize, r: Result<CdtMesh, String>| #[trigger] call_ensures(remove, (m, v), r) ==> (r matches Ok(
                mm,
            ) ==> mm.consistent()),
        ensures
            vertices_per_slice < 4 ==> result is Err && is_parameter_error(
                result->Err_0,
                GenerationParameterIssue::InsufficientVerticesPerSlice,
                decimal(vertices_per_slice as nat),
                "≥ 4"@,
            ),
            vertices_per_slice >= 4 && num_slices < 2 ==> result is Err && is_parameter_error(
                result->Err_0,
                GenerationParameterIssue::InsufficientNumberOfTimeSlices,
                decimal(num_slices as nat),
                "≥ 2"@,
            ),
            vertices_per_slice >= 4 && num_slices >= 2 && vertices_per_slice * num_slices > u32::MAX ==> result is Err
                && is_parameter_error(
                result->Err_0,
                GenerationParameterIssue::VertexCountOverflow,
                times_text(vertices_per_slice as nat, num_slices as nat),
                "product ≤ u32::MAX"@,
            ),
            vertices_per_slice >= 4 && num_slices >= 2 && vertices_per_slice * num_slices <= u32::MAX
                && vertices_per_slice * num_slices + (if num_slices > 2 { 2int } else { 0int }) > u32::MAX ==> result is Err
                && is_parameter_error(
                result->Err_0,
                GenerationParameterIssue::VertexCountOverflow,
                plus_text((vertices_per_slice * num_slices) as nat, (if num_slices > 2 { 2nat } else { 0nat })),
                "sum ≤ u32::MAX"@,
            ),
            vertices_per_slice >= 4 && num_slices >= 2 && vertices_per_slice * num_slices + (if num_slices > 2 {
                2int
            } else {
                0int
            }) <= u32::MAX ==> exists|g: Result<CdtMesh, CdtError>|
                #[trigger] call_ensures(generate, (), g) && (g matches Err(e) ==> result == Err::<CdtTriangulation, CdtError>(
                    strip_remapped(
                        e,
                        (vertices_per_slice * num_slices + (if num_slices > 2 { 2int } else { 0int })) as u32,
                        num_slices,
                    ),
                )) && (g matches Ok(mesh) ==> {
                    let chi = euler_of(mesh.labels().len(), mesh.edges().len(), mesh.faces().len());
                    let start = CdtTriangulation::initial(mesh, num_slices, 2, CdtTopology::OpenBoundary);
                    &&& !admissible_euler(CdtTopology::OpenBoundary, chi) ==> (result matches Err(e) && e is TopologyMismatch)
                    &&& admissible_euler(CdtTopology::OpenBoundary, chi) && rebuild_failure(start) is Some
                        ==> result == Err::<CdtTriangulation, CdtError>(rebuild_failure(start)->0)
                    &&& admissible_euler(CdtTopology::OpenBoundary, chi) && rebuild_failure(start) is None
                        && live_non_strict_count(start, mesh.faces().len() as int) == 0 ==> exists|f: Foliation|
                        f.sizes() == live_sizes(mesh.labels(), num_slices) && f.slices() == num_slices && (result is Ok
                            <==> domain_checks_pass(#[trigger] start.with_current_foliation(f))) && (result matches Err(e)
                            ==> domain_error_matches(start.with_current_foliation(f), e))
                    &&& admissible_euler(CdtTopology::OpenBoundary, chi) ==> exists|
                        rf: Result<(), CdtError>,
                        fm: CdtMesh,
                    |
                        #[trigger] filter_outcome(
                            start,
                            mesh,
                            0,
                            vertices_per_slice as usize,
                            FILTERED_DELAUNAY_MAX_PASSES,
                            filtered_total(vertices_per_slice, num_slices),
                            num_slices,
                            remove,
                            rf,
                            fm,
                        ) && match rf {
                            Err(e) => result == Err::<CdtTriangulation, CdtError>(e),
                            Ok(()) => exists|t2: CdtTriangulation|
                                #![auto]
                                t2.mesh_spec() == fm && t2.has_current() && same_metadata(t2, start) && (
                                result is Ok <==> domain_checks_pass(t2)) && (result matches Err(e) ==> domain_error_matches(
                                    t2,
                                    e,
                                )),
                        }
                }),
            result matches Ok(t) ==> t.wf() && t.spec_time_slices() == num_slices && t.spec_topology()
                == CdtTopology::OpenBoundary && exists|mid: CdtTriangulation|
                domain_checks_pass(mid) && #[trigger] t.classified_from(mid),
    {
        proof {
            reveal_strlit("≥ 4");
            reveal_strlit("≥ 2");
            reveal_strlit("product ≤ u32::MAX");
            reveal_strlit("sum ≤ u32::MAX");
            reveal_strlit(" + ");
        }
        if vertices_per_slice < 4 {
            return Err(parameter_error(
                GenerationParameterIssue::InsufficientVerticesPerSlice,
                decimal_string(vertices_per_slice as u64),
                "≥ 4",
            ));
        }
        if num_slices < 2 {
            return Err(parameter_error(
                GenerationParameterIssue::InsufficientNumberOfTimeSlices,
                decimal_string(num_slices as u64),
                "≥ 2",
            ));
        }
        let core_vertices = match vertices_per_slice.checked_mul(num_slices) {
            Some(t) => t,
            None => return Err(parameter_error(
                GenerationParameterIssue::VertexCountOverflow,
                times_string(vertices_per_slice, num_slices),
                "product ≤ u32::MAX",
            )),
        };
        let surplus_vertices: u32 = if num_slices > 2 { 2 } else { 0 };
        let total_vertices = match core_vertices.checked_add(surplus_vertices) {
            Some(t) => t,
            None => {
                let mut provided = decimal_string(core_vertices as u64);
                provided.append(" + ");
                push_decimal(&mut provided, surplus_vertices as u64);
                return Err(parameter_error(GenerationParameterIssue::VertexCountOverflow, provided, "sum ≤ u32::MAX"));
            },
        };
        let coordinate_max = num_slices;
        let generated = generate();
        let ghost g = generated;
        let mesh = match generated {
            Ok(mesh) => mesh,
            Err(e) => {
                proof { assert(call_ensures(generate, (), g)); }
                return Err(remap_strip_generation_error(e, total_vertices, coordinate_max));
            },
        };
        proof { assert(call_ensures(generate, (), g)); }
        proof { CdtTriangulation::lemma_initial(mesh, num_slices, 2, CdtTopology::OpenBoundary); }
        let mut tri = Self::try_new(mesh, num_slices, 2)?;
        let ghost start = tri;
        proof { assert(total_vertices == filtered_total(vertices_per_slice, num_slices)); }
        let filtered = tri.filter_invalid_open_delaunay_simplices(
            vertices_per_slice as usize,
            FILTERED_DELAUNAY_MAX_PASSES,
            total_vertices,
            coordinate_max,
            remove,
        );
        let ghost fm = tri.mesh_spec();
        proof {
            assert(filter_outcome(start, start.mesh_spec(), 0, vertices_per_slice as usize, FILTERED_DELAUNAY_MAX_PASSES,
                filtered_total(vertices_per_slice, num_slices), num_slices, remove, filtered, fm));
        }
        if let Err(e) = filtered {
            return Err(e);
        }
        let ghost mid = tri;
        let checked = tri.validate_initial_cdt();
        proof {
            assert(mid.mesh_spec() == fm && mid.has_current() && same_metadata(mid, start));
            assert(checked is Ok <==> domain_checks_pass(mid));
        }
        if let Err(e) = checked {
            return Err(e);
        }
        proof { assert(tri.classified_from(mid)); }
        Ok(tri)
    }
}

} // verus!
