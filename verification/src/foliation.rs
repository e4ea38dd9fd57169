//! Time-slice bookkeeping and the causal classification of edges and triangles.
//!
//! Every vertex of a foliated 1+1 triangulation carries an integer time label.
//! An edge is spacelike when its endpoints share a slice, timelike when they lie
//! in adjacent slices, and acausal otherwise. A strict CDT triangle has two
//! vertices in one slice and the third in an adjacent slice: it is `Up` `(2,1)`
//! when the apex lies one step in the future, `Down` `(1,2)` when it lies one
//! step in the past. In toroidal topology the time direction is periodic.

use crate::config::CdtTopology;
use crate::errors::FoliationError;
use vstd::prelude::*;

verus! {

/// Causal character of an edge.
#[derive(Debug, Clone, Copy, PartialEq, Eq)]
pub enum EdgeType {
    /// Both endpoints lie in the same time slice.
    Spacelike,
    /// The endpoints lie in adjacent time slices.
    Timelike,
    /// The endpoints are more than one time step apart.
    Acausal,
}

/// Orientation of a strict CDT triangle.
#[derive(Debug, Clone, Copy, PartialEq, Eq)]
pub enum SimplexType {
    /// Two vertices at time `t`, one at `t + 1`.
    Up,
    /// One vertex at time `t`, two at `t + 1`.
    Down,
}

/// The stored integer payload of a simplex classification.
pub open spec fn simplex_code(kind: SimplexType) -> i32 {
    match kind {
        SimplexType::Up => 1,
        SimplexType::Down => 2,
    }
}

/// The classification that a stored payload denotes, if any.
pub open spec fn simplex_of_code(code: i32) -> Option<SimplexType> {
    if code == 1 {
        Some(SimplexType::Up)
    } else if code == 2 {
        Some(SimplexType::Down)
    } else {
        None
    }
}

impl SimplexType {
    /// Encodes the classification as a simplex payload.
    pub fn to_i32(self) -> (code: i32)
        ensures
            code == simplex_code(self),
            simplex_of_code(code) == Some(self),
    {
        match self {
            SimplexType::Up => 1,
            SimplexType::Down => 2,
        }
    }

    /// Decodes a simplex payload written by [`Self::to_i32`].
    pub fn from_i32(code: i32) -> (kind: Option<SimplexType>)
        ensures
            kind == simplex_of_code(code),
    {
        if code == 1 {
            Some(SimplexType::Up)
        } else if code == 2 {
            Some(SimplexType::Down)
        } else {
            None
        }
    }
}

/// `|a - b|` for two labels.
pub open spec fn label_gap(a: u32, b: u32) -> u32 {
    if a >= b {
        (a - b) as u32
    } else {
        (b - a) as u32
    }
}

/// Number of time steps between two labels.
///
/// For toroidal topology with both labels inside `0..total`, the distance wraps
/// around the periodic time direction; otherwise it is the plain difference.
pub open spec fn step_distance(topology: CdtTopology, total: u32, t0: u32, t1: u32) -> u32 {
    let raw = label_gap(t0, t1);
    if topology == CdtTopology::Toroidal && t0 < total && t1 < total {
        if raw <= total - raw {
            raw
        } else {
            (total - raw) as u32
        }
    } else {
        raw
    }
}

/// Edge classification for a given step distance.
pub open spec fn edge_type_for_distance(distance: u32) -> EdgeType {
    if distance == 0 {
        EdgeType::Spacelike
    } else if distance == 1 {
        EdgeType::Timelike
    } else {
        EdgeType::Acausal
    }
}

/// Edge classification for two endpoint labels.
pub open spec fn edge_type_of(topology: CdtTopology, total: u32, t0: u32, t1: u32) -> EdgeType {
    edge_type_for_distance(step_distance(topology, total, t0, t1))
}

/// The three pairwise step distances of a triangle are `{0, 1, 1}`.
pub open spec fn distances_are_cdt(topology: CdtTopology, total: u32, t0: u32, t1: u32, t2: u32) -> bool {
    let d01 = step_distance(topology, total, t0, t1);
    let d12 = step_distance(topology, total, t1, t2);
    let d02 = step_distance(topology, total, t0, t2);
    ||| d01 == 0 && d12 == 1 && d02 == 1
    ||| d01 == 1 && d12 == 0 && d02 == 1
    ||| d01 == 1 && d12 == 1 && d02 == 0
}

/// The slice following `slice` (periodic for toroidal topology).
pub open spec fn next_slice(topology: CdtTopology, total: u32, slice: u32) -> int {
    if topology == CdtTopology::Toroidal {
        (slice + 1) % (total as int)
    } else {
        slice + 1
    }
}

/// The slice preceding `slice` (periodic for toroidal topology).
pub open spec fn previous_slice(topology: CdtTopology, total: u32, slice: u32) -> int {
    if topology == CdtTopology::Toroidal && slice == 0 {
        total - 1
    } else {
        slice - 1
    }
}

/// Strict CDT classification of a triangle from its vertex labels.
pub open spec fn classify_labels(
    topology: CdtTopology,
    total: u32,
    t0: u32,
    t1: u32,
    t2: u32,
) -> Option<SimplexType> {
    if !distances_are_cdt(topology, total, t0, t1, t2) {
        None
    } else {
        let (base, apex) = if t0 == t1 {
            (t0, t2)
        } else if t1 == t2 {
            (t1, t0)
        } else {
            (t0, t1)
        };
        if t0 != t1 && t1 != t2 && t0 != t2 {
            None
        } else if apex == next_slice(topology, total, base) {
            Some(SimplexType::Up)
        } else if apex == previous_slice(topology, total, base) {
            Some(SimplexType::Down)
        } else {
            None
        }
    }
}

/// Lower slab index of a strict CDT triangle: the earlier of its two slices
/// (for toroidal topology, the slice whose successor is the other one).
pub open spec fn lower_slab_of(topology: CdtTopology, total: u32, t0: u32, t1: u32, t2: u32) -> Option<u32> {
    if classify_labels(topology, total, t0, t1, t2).is_none() {
        None
    } else if topology == CdtTopology::OpenBoundary {
        Some(min_u32(t0, min_u32(t1, t2)))
    } else {
        let second = if t1 != t0 { t1 } else { t2 };
        if next_slice(topology, total, t0) == second {
            Some(t0)
        } else if next_slice(topology, total, second) == t0 {
            Some(second)
        } else {
            None
        }
    }
}

pub open spec fn min_u32(a: u32, b: u32) -> u32 {
    if a <= b { a } else { b }
}

/// Computes the step distance between two time labels.
pub fn time_step_distance(topology: CdtTopology, total: u32, t0: u32, t1: u32) -> (distance: u32)
    ensures
        distance == step_distance(topology, total, t0, t1),
{
    let raw = if t0 >= t1 { t0 - t1 } else { t1 - t0 };
    if matches!(topology, CdtTopology::Toroidal) && t0 < total && t1 < total {
        let wrapped = total - raw;
        if raw <= wrapped { raw } else { wrapped }
    } else {
        raw
    }
}

/// Classifies an edge from its step distance.
pub fn edge_type_from_distance(distance: u32) -> (kind: EdgeType)
    ensures
        kind == edge_type_for_distance(distance),
{
    if distance == 0 {
        EdgeType::Spacelike
    } else if distance == 1 {
        EdgeType::Timelike
    } else {
        EdgeType::Acausal
    }
}

/// Classifies an edge from its endpoint labels.
pub fn classify_edge(topology: CdtTopology, total: u32, t0: u32, t1: u32) -> (kind: EdgeType)
    ensures
        kind == edge_type_of(topology, total, t0, t1),
{
    edge_type_from_distance(time_step_distance(topology, total, t0, t1))
}

/// Classifies a triangle from its three vertex labels.
pub fn classify_simplex(topology: CdtTopology, total: u32, t0: u32, t1: u32, t2: u32) -> (kind:
    Option<SimplexType>)
    requires
        total > 0,
    ensures
        kind == classify_labels(topology, total, t0, t1, t2),
{
    let d01 = time_step_distance(topology, total, t0, t1);
    let d12 = time_step_distance(topology, total, t1, t2);
    let d02 = time_step_distance(topology, total, t0, t2);
    let cdt = (d01 == 0 && d12 == 1 && d02 == 1) || (d01 == 1 && d12 == 0 && d02 == 1) || (d01 == 1
        && d12 == 1 && d02 == 0);
    if !cdt {
        return None;
    }
    let (base, apex) = if t0 == t1 {
        (t0, t2)
    } else if t1 == t2 {
        (t1, t0)
    } else if t0 == t2 {
        (t0, t1)
    } else {
        return None;
    };
    let toroidal = matches!(topology, CdtTopology::Toroidal);
    let up = if toroidal {
        ((base as u64 + 1) % (total as u64)) == apex as u64
    } else {
        base as u64 + 1 == apex as u64
    };
    let down = if toroidal {
        if base == 0 { apex == total - 1 } else { apex == base - 1 }
    } else {
        base > 0 && apex == base - 1
    };
    if up {
        Some(SimplexType::Up)
    } else if down {
        Some(SimplexType::Down)
    } else {
        None
    }
}

/// Returns the lower slab index of a strict CDT triangle, if it is one.
pub fn lower_slab(topology: CdtTopology, total: u32, t0: u32, t1: u32, t2: u32) -> (slab: Option<u32>)
    requires
        total > 0,
    ensures
        slab == lower_slab_of(topology, total, t0, t1, t2),
{
    if classify_simplex(topology, total, t0, t1, t2).is_none() {
        return None;
    }
    match topology {
        CdtTopology::OpenBoundary => {
            let m = if t0 <= t1 { t0 } else { t1 };
            Some(if m <= t2 { m } else { t2 })
        },
        CdtTopology::Toroidal => {
            let second = if t1 != t0 { t1 } else { t2 };
            if (t0 as u64 + 1) % (total as u64) == second as u64 {
                Some(t0)
            } else if (second as u64 + 1) % (total as u64) == t0 as u64 {
                Some(second)
            } else {
                None
            }
        },
    }
}

/// Step distance does not depend on the order of the two labels.
pub proof fn lemma_step_distance_symmetric(topology: CdtTopology, total: u32, t0: u32, t1: u32)
    ensures
        step_distance(topology, total, t0, t1) == step_distance(topology, total, t1, t0),
        edge_type_of(topology, total, t0, t1) == edge_type_of(topology, total, t1, t0),
{
}

/// In periodic time, the step distance of two in-range labels is at most half
/// the number of slices.
pub proof fn lemma_toroidal_distance_bounded(total: u32, t0: u32, t1: u32)
    requires
        t0 < total,
        t1 < total,
    ensures
        2 * step_distance(CdtTopology::Toroidal, total, t0, t1) <= total,
{
}

/// A triangle has one spacelike and two timelike edges exactly when it is a
/// strict Up or Down CDT triangle (for toroidal topology, labels in range).
pub proof fn lemma_causal_iff_classified(topology: CdtTopology, total: u32, t0: u32, t1: u32, t2: u32)
    requires
        total > 0,
        topology == CdtTopology::Toroidal ==> (t0 < total && t1 < total && t2 < total),
    ensures
        distances_are_cdt(topology, total, t0, t1, t2) <==> classify_labels(
            topology,
            total,
            t0,
            t1,
            t2,
        ).is_some(),
{
    if distances_are_cdt(topology, total, t0, t1, t2) {
        let d01 = step_distance(topology, total, t0, t1);
        let d12 = step_distance(topology, total, t1, t2);
        let d02 = step_distance(topology, total, t0, t2);
        if d01 == 0 {
            assert(t0 == t1);
            lemma_one_step_is_adjacent(topology, total, t1, t2);
        } else if d12 == 0 {
            assert(t1 == t2);
            lemma_one_step_is_adjacent(topology, total, t1, t0);
        } else {
            assert(t0 == t2);
            assert(t0 != t1);
            lemma_one_step_is_adjacent(topology, total, t0, t1);
        }
    }
}

/// Labels one step apart are adjacent slices, in one direction or the other.
proof fn lemma_one_step_is_adjacent(topology: CdtTopology, total: u32, base: u32, apex: u32)
    requires
        total > 0,
        topology == CdtTopology::Toroidal ==> (base < total && apex < total),
        step_distance(topology, total, base, apex) == 1,
    ensures
        apex == next_slice(topology, total, base) || apex == previous_slice(topology, total, base),
{
    if topology == CdtTopology::Toroidal {
        let raw = label_gap(base, apex);
        if raw == 1 {
            if apex == base + 1 {
                vstd::arithmetic::div_mod::lemma_small_mod((base + 1) as nat, total as nat);
            }
        } else {
            assert(raw == total - 1);
            if apex > base {
                assert(base == 0);
            } else {
                assert(apex == 0 && base == total - 1);
                vstd::arithmetic::div_mod::lemma_mod_self_0(total as int);
            }
        }
    }
}

/// In periodic time, the slice after an in-range slice is the next one, or
/// slice 0 after the last.
proof fn lemma_toroidal_next(total: u32, slice: u32)
    requires
        slice < total,
    ensures
        next_slice(CdtTopology::Toroidal, total, slice) == (if slice + 1 < total { slice + 1 } else { 0 }),
{
    if slice + 1 < total {
        vstd::arithmetic::div_mod::lemma_small_mod((slice + 1) as nat, total as nat);
    } else {
        vstd::arithmetic::div_mod::lemma_mod_self_0(total as int);
    }
}

/// A triangle has a lower slab exactly when it is a strict CDT triangle, and
/// with labels inside `0..total` that slab is one of the slices.
pub proof fn lemma_slab_iff_classified(topology: CdtTopology, total: u32, t0: u32, t1: u32, t2: u32)
    requires
        t0 < total,
        t1 < total,
        t2 < total,
    ensures
        lower_slab_of(topology, total, t0, t1, t2) is Some <==> classify_labels(topology, total, t0, t1, t2) is Some,
        lower_slab_of(topology, total, t0, t1, t2) matches Some(s) ==> s < total,
{
    if topology == CdtTopology::Toroidal && classify_labels(topology, total, t0, t1, t2) is Some {
        lemma_toroidal_next(total, t0);
        lemma_toroidal_next(total, t1);
        lemma_toroidal_next(total, t2);
    }
}

/// A strict toroidal triangle with labels inside `0..total` lies in the slab
/// of its earlier slice: the lower slab is one of its labels, and the periodic
/// successor of that label is its other label.
pub proof fn lemma_toroidal_slab_is_earlier_slice(total: u32, t0: u32, t1: u32, t2: u32)
    requires
        t0 < total,
        t1 < total,
        t2 < total,
        classify_labels(CdtTopology::Toroidal, total, t0, t1, t2) is Some,
    ensures
        lower_slab_of(CdtTopology::Toroidal, total, t0, t1, t2) matches Some(s) && {
            let later = (s + 1) % (total as int);
            &&& s == t0 || s == t1 || s == t2
            &&& later == t0 || later == t1 || later == t2
            &&& later != s
            &&& (t0 == s || t0 == later) && (t1 == s || t1 == later) && (t2 == s || t2 == later)
        },
{
    lemma_toroidal_next(total, t0);
    lemma_toroidal_next(total, t1);
    lemma_toroidal_next(total, t2);
}

/// An open-boundary strict triangle with labels inside `0..total` spans its
/// lower slice and the next one, so its lower slab is never the last slice.
pub proof fn lemma_open_slab_below_last(total: u32, t0: u32, t1: u32, t2: u32)
    requires
        t0 < total,
        t1 < total,
        t2 < total,
        classify_labels(CdtTopology::OpenBoundary, total, t0, t1, t2) is Some,
    ensures
        lower_slab_of(CdtTopology::OpenBoundary, total, t0, t1, t2) matches Some(s) && s + 1 < total,
{
}

/// Strict CDT triangles have exactly one spacelike edge and two timelike ones.
pub proof fn lemma_classified_edge_types(topology: CdtTopology, total: u32, t0: u32, t1: u32, t2: u32)
    requires
        classify_labels(topology, total, t0, t1, t2).is_some(),
    ensures
        ({
            let e01 = edge_type_of(topology, total, t0, t1);
            let e12 = edge_type_of(topology, total, t1, t2);
            let e20 = edge_type_of(topology, total, t2, t0);
            ||| e01 == EdgeType::Spacelike && e12 == EdgeType::Timelike && e20 == EdgeType::Timelike
            ||| e01 == EdgeType::Timelike && e12 == EdgeType::Spacelike && e20 == EdgeType::Timelike
            ||| e01 == EdgeType::Timelike && e12 == EdgeType::Timelike && e20 == EdgeType::Spacelike
        }),
{
    lemma_step_distance_symmetric(topology, total, t0, t2);
}

} // verus!

verus! {

/// Sum of a sequence of counts.
pub open spec fn total_of(sizes: Seq<usize>) -> int
    decreases sizes.len(),
{
    if sizes.len() == 0 {
        0
    } else {
        total_of(sizes.drop_last()) + sizes.last()
    }
}

/// Index of the first zero entry, if any.
pub open spec fn first_empty_slice(sizes: Seq<usize>) -> Option<int> {
    if exists|i: int| 0 <= i < sizes.len() && sizes[i] == 0 {
        Some(choose|i: int| 0 <= i < sizes.len() && sizes[i] == 0 && forall|j: int| 0 <= j < i ==> sizes[j] != 0)
    } else {
        None
    }
}

/// Finds the first empty slice.
pub fn find_empty_slice(sizes: &Vec<usize>) -> (slice: Option<usize>)
    ensures
        match first_empty_slice(sizes@) {
            Some(s) => slice == Some(s as usize),
            None => slice is None,
        },
{
    let mut i: usize = 0;
    while i < sizes.len()
        invariant
            i <= sizes@.len(),
            forall|j: int| 0 <= j < i ==> sizes@[j] != 0,
        decreases sizes@.len() - i,
    {
        if sizes[i] == 0 {
            proof {
                let ii = i as int;
                assert(0 <= ii < sizes@.len() && sizes@[ii] == 0 && forall|j: int| 0 <= j < ii ==> sizes@[j] != 0);
                let k = choose|k: int| 0 <= k < sizes@.len() && sizes@[k] == 0 && forall|j: int| 0 <= j < k ==> sizes@[j] != 0;
                if k < ii { assert(sizes@[k] != 0); }
                if k > ii { assert(sizes@[ii] != 0); }
            }
            return Some(i);
        }
        i = i + 1;
    }
    None
}

/// Per-slice vertex counts of a foliated triangulation.
///
/// There is one non-empty entry per time slice, and their sum (the number of
/// labeled vertices) fits in `usize`.
#[derive(Debug, PartialEq, Eq)]
pub struct Foliation {
    slice_sizes: Vec<usize>,
    num_slices: u32,
    labeled_vertex_count: usize,
}

impl Foliation {
    #[verifier::type_invariant]
    closed spec fn well_formed(self) -> bool {
        &&& self.num_slices > 0
        &&& self.slice_sizes.len() == self.num_slices
        &&& forall|i: int| 0 <= i < self.slice_sizes.len() ==> self.slice_sizes[i] > 0
        &&& self.labeled_vertex_count == total_of(self.slice_sizes@)
    }

    /// The stored per-slice vertex counts.
    pub closed spec fn sizes(self) -> Seq<usize> {
        self.slice_sizes@
    }

    /// The number of time slices.
    pub closed spec fn slices(self) -> u32 {
        self.num_slices
    }

    /// Builds foliation bookkeeping from per-slice vertex counts.
    ///
    /// # Errors
    ///
    /// [`FoliationError::SliceSizeMismatch`] when there is not exactly one count
    /// per slice, [`FoliationError::EmptySlice`] naming the first empty slice,
    /// and [`FoliationError::LabelCountOverflow`] when the counts add up to more
    /// than `usize::MAX`.
    pub fn from_slice_sizes(slice_sizes: Vec<usize>, num_slices: u32) -> (result: Result<Foliation, FoliationError>)
        requires
            num_slices > 0,
        ensures
            match result {
                Ok(f) => f.sizes() == slice_sizes@ && f.slices() == num_slices,
                Err(e) => if slice_sizes@.len() != num_slices {
                    e == FoliationError::SliceSizeMismatch { slice_sizes_len: slice_sizes@.len() as usize, num_slices }
                } else if (first_empty_slice(slice_sizes@) is Some) {
                    e == FoliationError::EmptySlice { slice: first_empty_slice(slice_sizes@)->0 as usize }
                } else {
                    e == FoliationError::LabelCountOverflow && total_of(slice_sizes@) > usize::MAX
                },
            },
            result is Ok <==> (slice_sizes@.len() == num_slices && first_empty_slice(slice_sizes@) is None
                && total_of(slice_sizes@) <= usize::MAX),
    {
        if slice_sizes.len() != num_slices as usize {
            return Err(FoliationError::SliceSizeMismatch { slice_sizes_len: slice_sizes.len(), num_slices });
        }
        let mut total: usize = 0;
        let mut overflow = false;
        let mut i: usize = 0;
        while i < slice_sizes.len()
            invariant
                0 <= i <= slice_sizes.len(),
                slice_sizes@.len() == num_slices,
                forall|j: int| 0 <= j < i ==> slice_sizes@[j] != 0,
                !overflow ==> total == total_of(slice_sizes@.take(i as int)),
                overflow ==> total_of(slice_sizes@.take(i as int)) > usize::MAX,
            decreases slice_sizes.len() - i,
        {
            assert(slice_sizes@.take(i + 1).drop_last() == slice_sizes@.take(i as int));
            if slice_sizes[i] == 0 {
                proof {
                    let ii = i as int;
                    assert(0 <= ii < slice_sizes@.len() && slice_sizes@[ii] == 0);
                    assert(0 <= ii < slice_sizes@.len() && slice_sizes@[ii] == 0 && forall|j: int| 0 <= j < ii ==> slice_sizes@[j] != 0);
                    let k = choose|k: int| 0 <= k < slice_sizes@.len() && slice_sizes@[k] == 0 && forall|j: int| 0 <= j < k ==> slice_sizes@[j] != 0;
                    if k < ii { assert(slice_sizes@[k] != 0); }
                    if k > ii { assert(slice_sizes@[ii] != 0); }
                    assert(k == ii);
                    assert(first_empty_slice(slice_sizes@) == Some(ii));
                }
                return Err(FoliationError::EmptySlice { slice: i });
            }
            if !overflow {
                if total <= usize::MAX - slice_sizes[i] {
                    total = total + slice_sizes[i];
                } else {
                    overflow = true;
                }
            }
            i = i + 1;
        }
        assert(slice_sizes@.take(i as int) == slice_sizes@);
        if overflow {
            return Err(FoliationError::LabelCountOverflow);
        }
        Ok(Foliation { slice_sizes, num_slices, labeled_vertex_count: total })
    }

    /// The per-slice vertex counts.
    pub fn slice_sizes(&self) -> (sizes: &Vec<usize>)
        ensures
            sizes@ == self.sizes(),
            sizes@.len() == self.slices(),
            self.slices() > 0,
            forall|i: int| 0 <= i < sizes@.len() ==> sizes@[i] > 0,
            total_of(sizes@) <= usize::MAX,
    {
        proof { use_type_invariant(self); }
        &self.slice_sizes
    }

    /// The number of time slices.
    pub fn num_slices(&self) -> (n: u32)
        ensures
            n == self.slices(),
            n > 0,
    {
        proof { use_type_invariant(self); }
        self.num_slices
    }

    /// The number of labeled vertices: the sum of all slice counts.
    pub fn labeled_vertex_count(&self) -> (n: usize)
        ensures
            n == total_of(self.sizes()),
    {
        proof { use_type_invariant(self); }
        self.labeled_vertex_count
    }
}

} // verus!
