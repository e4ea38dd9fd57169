//! Foliation consistency: live labels against stored bookkeeping, and the
//! shape of every spatial slice.

use super::state::CdtTriangulation;
use crate::config::CdtTopology;
use crate::errors::{CdtError, FoliationError, SlabEdge};
use crate::foliation::{total_of, Foliation};
use crate::mesh::CdtMesh;
use super::queries::{first_non_strict, labels_usable, lemma_causality_iff_classification};
use vstd::prelude::*;

verus! {

/// The first vertex among the first `n` whose label is missing or not below
/// `num_slices`.
pub open spec fn first_label_error(labels: Seq<Option<u32>>, n: int, num_slices: u32) -> Option<FoliationError>
    decreases n,
{
    if n <= 0 {
        None
    } else {
        match first_label_error(labels, n - 1, num_slices) {
            Some(e) => Some(e),
            None => match labels[n - 1] {
                None => Some(FoliationError::MissingVertexLabel { vertex: (n - 1) as usize }),
                Some(l) => if l >= num_slices {
                    Some(
                        FoliationError::OutOfRangeVertexLabel {
                            vertex: (n - 1) as usize,
                            label: l,
                            expected_range_end: num_slices as usize,
                        },
                    )
                } else {
                    None
                },
            },
        }
    }
}

/// Number of vertices among the first `n` labeled `slice`.
pub open spec fn label_count(labels: Seq<Option<u32>>, n: int, slice: u32) -> nat
    decreases n,
{
    if n <= 0 {
        0
    } else {
        label_count(labels, n - 1, slice) + (if labels[n - 1] == Some(slice) { 1nat } else { 0nat })
    }
}

/// Live per-slice vertex counts of a mesh.
pub open spec fn live_sizes(labels: Seq<Option<u32>>, num_slices: u32) -> Seq<usize> {
    Seq::new(num_slices as nat, |s: int| label_count(labels, labels.len() as int, s as u32) as usize)
}

/// A label occurs at most once per vertex.
pub proof fn lemma_label_count_bounded(labels: Seq<Option<u32>>, n: int, slice: u32)
    requires
        0 <= n,
    ensures
        label_count(labels, n, slice) <= n,
    decreases n,
{
    if n > 0 {
        lemma_label_count_bounded(labels, n - 1, slice);
    }
}

proof fn lemma_first_label_error_stable(labels: Seq<Option<u32>>, k: int, m: int, num_slices: u32)
    requires
        0 <= k <= m,
        first_label_error(labels, k, num_slices) is Some,
    ensures
        first_label_error(labels, m, num_slices) == first_label_error(labels, k, num_slices),
    decreases m - k,
{
    if m > k {
        lemma_first_label_error_stable(labels, k, m - 1, num_slices);
    }
}

/// With every label below `num_slices`, the live counts add up to the number
/// of vertices.
pub proof fn lemma_live_sizes_total(labels: Seq<Option<u32>>, num_slices: u32)
    requires
        first_label_error(labels, labels.len() as int, num_slices) is None,
        labels.len() <= usize::MAX,
    ensures
        total_of(live_sizes(labels, num_slices)) == labels.len(),
{
    lemma_count_sum(labels, labels.len() as int, num_slices);
    assert(live_sizes(labels, num_slices) =~= Seq::new(num_slices as nat, |s: int| label_count(labels, labels.len() as int, s as u32) as usize));
    lemma_total_prefix_counts(labels, labels.len() as int, num_slices as int);
}

/// Sum over slices `0..k` of the counts in the first `n` vertices.
pub open spec fn counts_total(labels: Seq<Option<u32>>, n: int, k: int) -> int
    decreases k,
{
    if k <= 0 {
        0
    } else {
        counts_total(labels, n, k - 1) + label_count(labels, n, (k - 1) as u32)
    }
}

proof fn lemma_count_sum(labels: Seq<Option<u32>>, n: int, num_slices: u32)
    requires
        0 <= n <= labels.len(),
        first_label_error(labels, n, num_slices) is None,
    ensures
        counts_total(labels, n, num_slices as int) == n,
    decreases n,
{
    if n == 0 {
        lemma_counts_total_empty(labels, num_slices as int);
    } else {
        assert(first_label_error(labels, n - 1, num_slices) is None);
        assert(labels[n - 1] is Some && labels[n - 1]->0 < num_slices);
        lemma_count_sum(labels, n - 1, num_slices);
        let l = labels[n - 1]->0;
        lemma_counts_total_step(labels, n, num_slices as int, l);
    }
}

proof fn lemma_counts_total_empty(labels: Seq<Option<u32>>, k: int)
    requires
        0 <= k,
    ensures
        counts_total(labels, 0, k) == 0,
    decreases k,
{
    if k > 0 {
        lemma_counts_total_empty(labels, k - 1);
    }
}

proof fn lemma_counts_total_step(labels: Seq<Option<u32>>, n: int, k: int, l: u32)
    requires
        0 < n <= labels.len(),
        labels[n - 1] == Some(l),
        0 <= k <= u32::MAX + 1,
    ensures
        counts_total(labels, n, k) == counts_total(labels, n - 1, k) + (if l < k { 1int } else { 0int }),
    decreases k,
{
    if k > 0 {
        lemma_counts_total_step(labels, n, k - 1, l);
    }
}

proof fn lemma_total_prefix_counts(labels: Seq<Option<u32>>, n: int, k: int)
    requires
        0 <= k,
        0 <= n <= usize::MAX,
    ensures
        total_of(Seq::new(k as nat, |s: int| label_count(labels, n, s as u32) as usize)) == counts_total(labels, n, k),
    decreases k,
{
    if k > 0 {
        lemma_total_prefix_counts(labels, n, k - 1);
        let sq = Seq::new(k as nat, |s: int| label_count(labels, n, s as u32) as usize);
        assert(sq.drop_last() =~= Seq::new((k - 1) as nat, |s: int| label_count(labels, n, s as u32) as usize));
        lemma_label_count_bounded(labels, n, (k - 1) as u32);
    }
}

/// Counts vertices per time slice from the live labels.
///
/// # Errors
///
/// [`FoliationError::SliceSizeMismatch`] when `num_slices == 0`; otherwise
/// [`FoliationError::MissingVertexLabel`] or
/// [`FoliationError::OutOfRangeVertexLabel`] for the first vertex without a
/// label in `0..num_slices`.
pub fn live_slice_sizes_from_vertex_labels(mesh: &CdtMesh, num_slices: u32) -> (result: Result<Vec<usize>, CdtError>)
    requires
        mesh.consistent(),
    ensures
        num_slices == 0 ==> result == Err::<Vec<usize>, CdtError>(
            CdtError::Foliation(FoliationError::SliceSizeMismatch { slice_sizes_len: 0, num_slices: 0 }),
        ),
        num_slices > 0 ==> match first_label_error(mesh.labels(), mesh.labels().len() as int, num_slices) {
            Some(e) => result == Err::<Vec<usize>, CdtError>(CdtError::Foliation(e)),
            None => result matches Ok(sizes) && sizes@ == live_sizes(mesh.labels(), num_slices),
        },
{
    if num_slices == 0 {
        return Err(CdtError::Foliation(FoliationError::SliceSizeMismatch { slice_sizes_len: 0, num_slices }));
    }
    let mut sizes: Vec<usize> = Vec::new();
    let mut s: u32 = 0;
    while s < num_slices
        invariant
            s <= num_slices,
            sizes@.len() == s,
            forall|k: int| 0 <= k < s ==> sizes@[k] == 0,
        decreases num_slices - s,
    {
        sizes.push(0);
        s = s + 1;
    }
    let n = mesh.vertex_count();
    let mut v: usize = 0;
    while v < n
        invariant
            n == mesh.labels().len(),
            v <= n,
            num_slices > 0,
            sizes@.len() == num_slices,
            first_label_error(mesh.labels(), v as int, num_slices) is None,
            forall|k: int| 0 <= k < num_slices ==> sizes@[k] == label_count(mesh.labels(), v as int, k as u32),
        decreases n - v,
    {
        match mesh.vertex_label(v) {
            None => {
                proof { lemma_first_label_error_stable(mesh.labels(), v + 1, n as int, num_slices); }
                return Err(CdtError::Foliation(FoliationError::MissingVertexLabel { vertex: v }));
            },
            Some(l) => {
                if l >= num_slices {
                    proof { lemma_first_label_error_stable(mesh.labels(), v + 1, n as int, num_slices); }
                    return Err(
                        CdtError::Foliation(
                            FoliationError::OutOfRangeVertexLabel {
                                vertex: v,
                                label: l,
                                expected_range_end: num_slices as usize,
                            },
                        ),
                    );
                }
                proof { lemma_label_count_bounded(mesh.labels(), v as int, l); }
                let current = sizes[l as usize];
                sizes.set(l as usize, current + 1);
            },
        }
        v = v + 1;
    }
    assert(sizes@ =~= live_sizes(mesh.labels(), num_slices));
    Ok(sizes)
}

} // verus!

verus! {

/// Edge `e` joins two vertices of one slice below `num_slices`.
pub open spec fn is_spacelike_edge(m: CdtMesh, num_slices: u32, e: int) -> bool {
    let edge = m.edges()[e];
    let la = m.labels()[edge.a as int];
    let lb = m.labels()[edge.b as int];
    la is Some && lb is Some && la->0 == lb->0 && la->0 < num_slices
}

/// Spacelike neighbours of `v` contributed by the first `k` edges, in edge
/// order (a loop edge contributes `v` twice).
pub open spec fn neighbors_from(m: CdtMesh, num_slices: u32, v: int, k: int) -> Seq<usize>
    decreases k,
{
    if k <= 0 {
        seq![]
    } else {
        let prev = neighbors_from(m, num_slices, v, k - 1);
        let edge = m.edges()[k - 1];
        if is_spacelike_edge(m, num_slices, k - 1) {
            let p1 = if edge.a == v { prev.push(edge.b) } else { prev };
            if edge.b == v { p1.push(edge.a) } else { p1 }
        } else {
            prev
        }
    }
}

/// Spacelike neighbours of `v`.
pub open spec fn neighbors(m: CdtMesh, num_slices: u32, v: int) -> Seq<usize> {
    neighbors_from(m, num_slices, v, m.edges().len() as int)
}

/// Builds the spacelike neighbour list of every vertex.
fn spacelike_adjacency_by_slice(mesh: &CdtMesh, num_slices: u32) -> (adj: Vec<Vec<usize>>)
    requires
        mesh.consistent(),
    ensures
        adj@.len() == mesh.labels().len(),
        forall|v: int| 0 <= v < adj@.len() ==> #[trigger] adj@[v]@ == neighbors(*mesh, num_slices, v),
{
    let n = mesh.vertex_count();
    let mut adj: Vec<Vec<usize>> = Vec::new();
    let mut v: usize = 0;
    while v < n
        invariant
            v <= n,
            adj@.len() == v,
            forall|w: int| 0 <= w < v ==> #[trigger] adj@[w]@ == Seq::<usize>::empty(),
        decreases n - v,
    {
        adj.push(Vec::new());
        v = v + 1;
    }
    let m = mesh.edge_count();
    let mut k: usize = 0;
    while k < m
        invariant
            mesh.consistent(),
            n == mesh.labels().len(),
            m == mesh.edges().len(),
            k <= m,
            adj@.len() == n,
            forall|w: int| 0 <= w < n ==> #[trigger] adj@[w]@ == neighbors_from(*mesh, num_slices, w, k as int),
        decreases m - k,
    {
        let edge = mesh.edge(k);
        let la = mesh.vertex_label(edge.a);
        let lb = mesh.vertex_label(edge.b);
        let spacelike = match (la, lb) {
            (Some(x), Some(y)) => x == y && x < num_slices,
            _ => false,
        };
        let ghost before = adj@;
        if spacelike {
            let mut list: Vec<usize> = Vec::new();
            adj.set_and_swap(edge.a, &mut list);
            list.push(edge.b);
            adj.set_and_swap(edge.a, &mut list);
            let mut list2: Vec<usize> = Vec::new();
            adj.set_and_swap(edge.b, &mut list2);
            list2.push(edge.a);
            adj.set_and_swap(edge.b, &mut list2);
        }
        assert forall|w: int| 0 <= w < n implies #[trigger] adj@[w]@ == neighbors_from(*mesh, num_slices, w, k + 1) by {
            assert(before[w]@ == neighbors_from(*mesh, num_slices, w, k as int));
        };
        k = k + 1;
    }
    adj
}

/// The smallest vertex labeled `slice`, if any.
pub open spec fn first_in_slice(labels: Seq<Option<u32>>, slice: u32) -> Option<usize> {
    if exists|v: int| 0 <= v < labels.len() && labels[v] == Some(slice) {
        Some(
            (choose|v: int|
                0 <= v < labels.len() && labels[v] == Some(slice) && forall|w: int|
                    0 <= w < v ==> labels[w] != Some(slice)) as usize,
        )
    } else {
        None
    }
}

/// The first vertex of `slice` (in vertex order, among the first `n`) whose
/// spacelike degree is not 2.
pub open spec fn first_ring_degree_error(m: CdtMesh, num_slices: u32, slice: u32, n: int) -> Option<usize>
    decreases n,
{
    if n <= 0 {
        None
    } else {
        match first_ring_degree_error(m, num_slices, slice, n - 1) {
            Some(v) => Some(v),
            None => if m.labels()[n - 1] == Some(slice) && neighbors(m, num_slices, n - 1).len() != 2 {
                Some((n - 1) as usize)
            } else {
                None
            },
        }
    }
}

/// `(previous, current)` after `k + 1` steps of the ring walk from `start`:
/// the walk first moves to the first neighbour of `start`, then always to the
/// neighbour of the current vertex that is not the one it came from.
pub open spec fn ring_step(m: CdtMesh, num_slices: u32, start: usize, k: nat) -> (usize, usize)
    decreases k,
{
    if k == 0 {
        (start, neighbors(m, num_slices, start as int)[0])
    } else {
        let (prev, cur) = ring_step(m, num_slices, start, (k - 1) as nat);
        let nb = neighbors(m, num_slices, cur as int);
        (cur, if nb[0] == prev { nb[1] } else { nb[0] })
    }
}

/// The vertex reached after `k + 1` ring steps.
pub open spec fn ring_at(m: CdtMesh, num_slices: u32, start: usize, k: nat) -> usize {
    ring_step(m, num_slices, start, k).1
}

/// Step `k` of the ring walk closes the ring or revisits a vertex.
pub open spec fn ring_stops_at(m: CdtMesh, num_slices: u32, start: usize, k: nat) -> bool {
    ring_at(m, num_slices, start, k) == start || exists|j: nat| j < k && ring_at(m, num_slices, start, j) == ring_at(
        m,
        num_slices,
        start,
        k,
    )
}

/// The first step at which the ring walk stops.
pub open spec fn ring_stop(m: CdtMesh, num_slices: u32, start: usize) -> nat {
    choose|k: nat| ring_stops_at(m, num_slices, start, k) && forall|j: nat| j < k ==> !ring_stops_at(m, num_slices, start, j)
}

/// Outcome of the closed-ring check of one toroidal slice.
pub open spec fn ring_result(m: CdtMesh, num_slices: u32, slice: u32, expected: usize) -> Option<FoliationError> {
    let observed = label_count(m.labels(), m.labels().len() as int, slice);
    if observed != expected {
        Some(
            FoliationError::SpacelikeSubgraphSizeMismatch {
                slice: slice as usize,
                observed: observed as usize,
                expected,
            },
        )
    } else if first_ring_degree_error(m, num_slices, slice, m.labels().len() as int) is Some {
        let v = first_ring_degree_error(m, num_slices, slice, m.labels().len() as int)->0;
        Some(
            FoliationError::SpacelikeDegreeViolation {
                slice: slice as usize,
                vertex: v,
                observed_degree: neighbors(m, num_slices, v as int).len() as usize,
            },
        )
    } else {
        match first_in_slice(m.labels(), slice) {
            None => None,
            Some(start) => {
                let k = ring_stop(m, num_slices, start);
                if ring_at(m, num_slices, start, k) == start && k + 1 == expected {
                    None
                } else {
                    Some(
                        FoliationError::SpacelikeNonClosedRing {
                            slice: slice as usize,
                            walked: (k + 1) as usize,
                            expected,
                        },
                    )
                }
            },
        }
    }
}

/// The first toroidal slice (below `k`) whose spacelike subgraph is not a
/// closed ring of the stored size.
pub open spec fn first_ring_error(m: CdtMesh, sizes: Seq<usize>, k: int) -> Option<FoliationError>
    decreases k,
{
    if k <= 0 {
        None
    } else {
        match first_ring_error(m, sizes, k - 1) {
            Some(e) => Some(e),
            None => ring_result(m, sizes.len() as u32, (k - 1) as u32, sizes[k - 1]),
        }
    }
}

} // verus!

verus! {

/// Spacelike neighbours exist and share the slice of their vertex.
proof fn lemma_neighbors_from_facts(m: CdtMesh, num_slices: u32, v: int, k: int)
    requires
        m.consistent(),
        0 <= v < m.labels().len(),
        0 <= k <= m.edges().len(),
    ensures
        forall|i: int|
            0 <= i < neighbors_from(m, num_slices, v, k).len() ==> (#[trigger] neighbors_from(m, num_slices, v, k)[i])
                < m.labels().len() && m.labels()[neighbors_from(m, num_slices, v, k)[i] as int] == m.labels()[v],
    decreases k,
{
    if k > 0 {
        lemma_neighbors_from_facts(m, num_slices, v, k - 1);
        let edge = m.edges()[k - 1];
        assert(edge.a < m.labels().len() && edge.b < m.labels().len());
        let prev = neighbors_from(m, num_slices, v, k - 1);
        if is_spacelike_edge(m, num_slices, k - 1) {
            let p1 = if edge.a == v { prev.push(edge.b) } else { prev };
            assert forall|i: int| 0 <= i < p1.len() implies p1[i] < m.labels().len() && m.labels()[p1[i] as int] == m.labels()[v] by {
                if i < prev.len() {
                    assert(p1[i] == prev[i]);
                }
            };
            let p2 = if edge.b == v { p1.push(edge.a) } else { p1 };
            assert forall|i: int| 0 <= i < p2.len() implies p2[i] < m.labels().len() && m.labels()[p2[i] as int] == m.labels()[v] by {
                if i < p1.len() {
                    assert(p2[i] == p1[i]);
                }
            };
        }
    }
}

/// Facts about the spacelike neighbours of a vertex.
pub proof fn lemma_neighbors_facts(m: CdtMesh, num_slices: u32, v: int)
    requires
        m.consistent(),
        0 <= v < m.labels().len(),
    ensures
        forall|i: int|
            0 <= i < neighbors(m, num_slices, v).len() ==> (#[trigger] neighbors(m, num_slices, v)[i]) < m.labels().len()
                && m.labels()[neighbors(m, num_slices, v)[i] as int] == m.labels()[v],
{
    lemma_neighbors_from_facts(m, num_slices, v, m.edges().len() as int);
}

proof fn lemma_ring_degree_scan(m: CdtMesh, num_slices: u32, slice: u32, n: int, v: int)
    requires
        0 <= v < n,
        first_ring_degree_error(m, num_slices, slice, n) is None,
        m.labels()[v] == Some(slice),
    ensures
        neighbors(m, num_slices, v).len() == 2,
    decreases n,
{
    if v < n - 1 {
        lemma_ring_degree_scan(m, num_slices, slice, n - 1, v);
    }
}

proof fn lemma_ring_degree_stable(m: CdtMesh, num_slices: u32, slice: u32, k: int, n: int)
    requires
        0 <= k <= n,
        first_ring_degree_error(m, num_slices, slice, k) is Some,
    ensures
        first_ring_degree_error(m, num_slices, slice, n) == first_ring_degree_error(m, num_slices, slice, k),
    decreases n - k,
{
    if n > k {
        lemma_ring_degree_stable(m, num_slices, slice, k, n - 1);
    }
}

/// Number of `true` entries among the first `n`.
pub open spec fn marked(marks: Seq<bool>, n: int) -> nat
    decreases n,
{
    if n <= 0 {
        0
    } else {
        marked(marks, n - 1) + (if marks[n - 1] { 1nat } else { 0nat })
    }
}

proof fn lemma_marked_bounded(marks: Seq<bool>, n: int)
    requires
        0 <= n,
    ensures
        marked(marks, n) <= n,
    decreases n,
{
    if n > 0 {
        lemma_marked_bounded(marks, n - 1);
    }
}

proof fn lemma_marked_set(marks: Seq<bool>, n: int, i: int)
    requires
        0 <= i < n <= marks.len(),
        !marks[i],
    ensures
        marked(marks.update(i, true), n) == marked(marks, n) + 1,
    decreases n,
{
    if n - 1 > i {
        lemma_marked_set(marks, n - 1, i);
    } else {
        assert(marks.update(i, true).take(i) =~= marks.take(i));
        lemma_marked_same_prefix(marks.update(i, true), marks, i);
    }
}

proof fn lemma_marked_same_prefix(a: Seq<bool>, b: Seq<bool>, n: int)
    requires
        0 <= n <= a.len(),
        n <= b.len(),
        forall|j: int| 0 <= j < n ==> a[j] == b[j],
    ensures
        marked(a, n) == marked(b, n),
    decreases n,
{
    if n > 0 {
        lemma_marked_same_prefix(a, b, n - 1);
    }
}

proof fn lemma_slice_count_positive(labels: Seq<Option<u32>>, n: int, slice: u32)
    requires
        0 <= n <= labels.len(),
        label_count(labels, n, slice) > 0,
    ensures
        exists|v: int| 0 <= v < n && labels[v] == Some(slice),
    decreases n,
{
    if n > 0 && labels[n - 1] != Some(slice) {
        lemma_slice_count_positive(labels, n - 1, slice);
    }
}

/// Number of vertices labeled `slice`, and the smallest of them.
fn scan_slice(mesh: &CdtMesh, slice: u32) -> (result: (usize, Option<usize>))
    requires
        mesh.consistent(),
    ensures
        result.0 == label_count(mesh.labels(), mesh.labels().len() as int, slice),
        result.1 == first_in_slice(mesh.labels(), slice),
        result.1 matches Some(s) ==> s < mesh.labels().len() && mesh.labels()[s as int] == Some(slice),
{
    let n = mesh.vertex_count();
    let ghost m = *mesh;
    let mut observed: usize = 0;
    let mut start: Option<usize> = None;
    let mut v: usize = 0;
    while v < n
        invariant
            m == *mesh,
            n == m.labels().len(),
            v <= n,
            observed == label_count(m.labels(), v as int, slice),
            observed <= v,
            start is None ==> forall|w: int| 0 <= w < v ==> m.labels()[w] != Some(slice),
            start matches Some(s) ==> s < v && m.labels()[s as int] == Some(slice) && forall|w: int|
                0 <= w < s ==> m.labels()[w] != Some(slice),
        decreases n - v,
    {
        if mesh.vertex_label(v) == Some(slice) {
            observed = observed + 1;
            if start.is_none() {
                start = Some(v);
            }
        }
        v = v + 1;
    }
    proof {
        match start {
            None => {
                if exists|w: int| 0 <= w < m.labels().len() && m.labels()[w] == Some(slice) {
                    let w = choose|w: int| 0 <= w < m.labels().len() && m.labels()[w] == Some(slice);
                    assert(m.labels()[w] != Some(slice));
                }
            },
            Some(s) => {
                let w = s as int;
                assert(0 <= w < m.labels().len() && m.labels()[w] == Some(slice));
                let c = choose|c: int|
                    0 <= c < m.labels().len() && m.labels()[c] == Some(slice) && forall|x: int|
                        0 <= x < c ==> m.labels()[x] != Some(slice);
                if c < w { assert(m.labels()[c] != Some(slice)); }
                if c > w { assert(m.labels()[w] != Some(slice)); }
            },
        }
    }
    (observed, start)
}

/// The first vertex of `slice` whose spacelike degree is not 2.
fn first_bad_ring_degree(mesh: &CdtMesh, adj: &Vec<Vec<usize>>, num_slices: u32, slice: u32) -> (result: Option<usize>)
    requires
        mesh.consistent(),
        adj@.len() == mesh.labels().len(),
        forall|v: int| 0 <= v < adj@.len() ==> #[trigger] adj@[v]@ == neighbors(*mesh, num_slices, v),
    ensures
        result == first_ring_degree_error(*mesh, num_slices, slice, mesh.labels().len() as int),
        result matches Some(v) ==> v < mesh.labels().len(),
{
    let n = mesh.vertex_count();
    let ghost m = *mesh;
    let mut d: usize = 0;
    while d < n
        invariant
            m == *mesh,
            n == m.labels().len(),
            d <= n,
            adj@.len() == n,
            forall|v: int| 0 <= v < adj@.len() ==> #[trigger] adj@[v]@ == neighbors(*mesh, num_slices, v),
            first_ring_degree_error(m, num_slices, slice, d as int) is None,
        decreases n - d,
    {
        if mesh.vertex_label(d) == Some(slice) && adj[d].len() != 2 {
            proof { lemma_ring_degree_stable(m, num_slices, slice, d + 1, n as int); }
            assert(first_ring_degree_error(m, num_slices, slice, d + 1) == Some(d));
            return Some(d);
        }
        d = d + 1;
    }
    None
}

/// Walks the ring of a slice whose vertices all have spacelike degree 2;
/// returns whether the walk closed at `start` and the number of vertices it
/// visited.
#[verifier::rlimit(40)]
fn walk_ring(mesh: &CdtMesh, adj: &Vec<Vec<usize>>, num_slices: u32, slice: u32, start: usize) -> (result: (bool, usize))
    requires
        mesh.consistent(),
        adj@.len() == mesh.labels().len(),
        forall|v: int| 0 <= v < adj@.len() ==> #[trigger] adj@[v]@ == neighbors(*mesh, num_slices, v),
        first_ring_degree_error(*mesh, num_slices, slice, mesh.labels().len() as int) is None,
        start < mesh.labels().len(),
        mesh.labels()[start as int] == Some(slice),
    ensures
        result.1 == ring_stop(*mesh, num_slices, start) + 1,
        result.0 == (ring_at(*mesh, num_slices, start, ring_stop(*mesh, num_slices, start)) == start),
{
    let n = mesh.vertex_count();
    let ghost m = *mesh;
    proof {
        lemma_ring_degree_scan(m, num_slices, slice, n as int, start as int);
        lemma_neighbors_facts(m, num_slices, start as int);
    }
    let mut marks: Vec<bool> = Vec::new();
    let mut i: usize = 0;
    while i < n
        invariant
            i <= n,
            marks@.len() == i,
            forall|j: int| 0 <= j < i ==> !marks@[j],
        decreases n - i,
    {
        marks.push(false);
        i = i + 1;
    }
    proof {
        lemma_marked_same_prefix(marks@, Seq::new(n as nat, |j: int| false), n as int);
        lemma_marked_zero(n as int);
        lemma_marked_set(marks@, n as int, start as int);
    }
    marks.set(start, true);
    let mut count: usize = 1;
    let mut prev: usize = start;
    let mut cur: usize = adj[start][0];
    let ghost mut k: nat = 0;
    while cur != start
        invariant
            mesh.consistent(),
            m == *mesh,
            n == m.labels().len(),
            adj@.len() == n,
            forall|v: int| 0 <= v < adj@.len() ==> #[trigger] adj@[v]@ == neighbors(*mesh, num_slices, v),
            first_ring_degree_error(m, num_slices, slice, n as int) is None,
            start < n,
            marks@.len() == n,
            (prev, cur) == ring_step(m, num_slices, start, k),
            prev < n,
            cur < n,
            m.labels()[cur as int] == Some(slice),
            count == k + 1,
            count == marked(marks@, n as int),
            marks@[start as int],
            forall|j: nat| j < k ==> (#[trigger] ring_at(m, num_slices, start, j)) < n
                && ring_at(m, num_slices, start, j) != start
                && marks@[ring_at(m, num_slices, start, j) as int],
            forall|j1: nat, j2: nat| j1 < j2 < k ==> ring_at(m, num_slices, start, j1) != ring_at(m, num_slices, start, j2),
            forall|w: int| 0 <= w < n && #[trigger] marks@[w] && w != start ==> exists|j: nat| j < k && ring_at(m, num_slices, start, j) == w,
        decreases n - count,
    {
        if marks[cur] {
            proof {
                let j = choose|j: nat| j < k && ring_at(m, num_slices, start, j) == cur;
                assert(ring_stops_at(m, num_slices, start, k));
                lemma_no_stop_before(m, num_slices, start, k);
                lemma_ring_stop_is(m, num_slices, start, k);
            }
            return (false, count);
        }
        proof {
            assert forall|j: nat| j < k implies ring_at(m, num_slices, start, j) != cur by {
                assert(marks@[ring_at(m, num_slices, start, j) as int]);
            };
            lemma_marked_set(marks@, n as int, cur as int);
            lemma_ring_degree_scan(m, num_slices, slice, n as int, cur as int);
            lemma_neighbors_facts(m, num_slices, cur as int);
        }
        marks.set(cur, true);
        proof { lemma_marked_bounded(marks@, n as int); }
        count = count + 1;
        let nb0 = adj[cur][0];
        let next = if nb0 == prev { adj[cur][1] } else { nb0 };
        prev = cur;
        cur = next;
        proof {
            assert(ring_at(m, num_slices, start, k) == prev);
            k = k + 1;
            assert forall|w: int| 0 <= w < n && #[trigger] marks@[w] && w != start implies exists|j: nat| j < k && ring_at(m, num_slices, start, j) == w by {
                if w == prev {
                    assert(ring_at(m, num_slices, start, (k - 1) as nat) == w);
                }
            };
        }
    }
    proof {
        assert(ring_stops_at(m, num_slices, start, k));
        lemma_no_stop_before(m, num_slices, start, k);
        lemma_ring_stop_is(m, num_slices, start, k);
    }
    (true, count)
}

/// Checks that one toroidal slice is a closed spacelike ring of `expected`
/// vertices.
fn check_ring(mesh: &CdtMesh, adj: &Vec<Vec<usize>>, num_slices: u32, slice: u32, expected: usize) -> (result:
    Option<FoliationError>)
    requires
        mesh.consistent(),
        adj@.len() == mesh.labels().len(),
        forall|v: int| 0 <= v < adj@.len() ==> #[trigger] adj@[v]@ == neighbors(*mesh, num_slices, v),
    ensures
        result == ring_result(*mesh, num_slices, slice, expected),
{
    let (observed, start) = scan_slice(mesh, slice);
    if observed != expected {
        return Some(FoliationError::SpacelikeSubgraphSizeMismatch { slice: slice as usize, observed, expected });
    }
    if let Some(v) = first_bad_ring_degree(mesh, adj, num_slices, slice) {
        return Some(
            FoliationError::SpacelikeDegreeViolation { slice: slice as usize, vertex: v, observed_degree: adj[v].len() },
        );
    }
    let start = match start {
        None => return None,
        Some(s) => s,
    };
    let (closed, count) = walk_ring(mesh, adj, num_slices, slice, start);
    if closed && count == expected {
        None
    } else {
        Some(FoliationError::SpacelikeNonClosedRing { slice: slice as usize, walked: count, expected })
    }
}

proof fn lemma_marked_zero(n: int)
    requires
        0 <= n,
    ensures
        marked(Seq::new(n as nat, |j: int| false), n) == 0,
    decreases n,
{
    if n > 0 {
        lemma_marked_zero(n - 1);
        lemma_marked_same_prefix(Seq::new(n as nat, |j: int| false), Seq::new((n - 1) as nat, |j: int| false), n - 1);
    }
}

proof fn lemma_no_stop_before(m: CdtMesh, num_slices: u32, start: usize, k: nat)
    requires
        forall|j: nat| j < k ==> (#[trigger] ring_at(m, num_slices, start, j)) != start,
        forall|j1: nat, j2: nat| j1 < j2 < k ==> ring_at(m, num_slices, start, j1) != ring_at(m, num_slices, start, j2),
    ensures
        forall|j: nat| j < k ==> !(#[trigger] ring_stops_at(m, num_slices, start, j)),
{
    assert forall|j: nat| j < k implies !(#[trigger] ring_stops_at(m, num_slices, start, j)) by {
        assert(ring_at(m, num_slices, start, j) != start);
        assert forall|i: nat| i < j implies ring_at(m, num_slices, start, i) != ring_at(m, num_slices, start, j) by {
        };
    };
}

proof fn lemma_ring_stop_is(m: CdtMesh, num_slices: u32, start: usize, k: nat)
    requires
        ring_stops_at(m, num_slices, start, k),
        forall|j: nat| j < k ==> !(#[trigger] ring_stops_at(m, num_slices, start, j)),
    ensures
        ring_stop(m, num_slices, start) == k,
{
    let c = ring_stop(m, num_slices, start);
    assert(ring_stops_at(m, num_slices, start, c) && forall|j: nat| j < c ==> !ring_stops_at(m, num_slices, start, j));
    if c < k {
        assert(!ring_stops_at(m, num_slices, start, c));
    }
    if c > k {
        assert(!ring_stops_at(m, num_slices, start, k));
    }
}

} // verus!

verus! {

/// Some edge joins a vertex labeled `s1` to one labeled `s2`, both labels
/// below `total` and one periodic time step apart.
pub open spec fn slices_linked(m: CdtMesh, total: u32, s1: u32, s2: u32) -> bool {
    exists|e: int|
        0 <= e < m.edges().len() && #[trigger] edge_links(m, total, e, s1, s2)
}

/// Edge `e` joins slices `s1` and `s2` (in either direction) with one time step.
pub open spec fn edge_links(m: CdtMesh, total: u32, e: int, s1: u32, s2: u32) -> bool {
    let edge = m.edges()[e];
    let la = m.labels()[edge.a as int];
    let lb = m.labels()[edge.b as int];
    &&& la is Some && lb is Some
    &&& la->0 < total && lb->0 < total
    &&& crate::foliation::step_distance(CdtTopology::Toroidal, total, la->0, lb->0) == 1
    &&& ((la->0 == s1 && lb->0 == s2) || (la->0 == s2 && lb->0 == s1))
}

/// The periodic predecessor of slice `s`.
pub open spec fn wrap_prev(total: u32, s: u32) -> u32 {
    if s == 0 { (total - 1) as u32 } else { (s - 1) as u32 }
}

/// The periodic successor of slice `s`.
pub open spec fn wrap_next(total: u32, s: u32) -> u32 {
    ((s + 1) % (total as int)) as u32
}

/// The first slice below `k` without a timelike link to its predecessor or
/// successor.
pub open spec fn first_wrap_error(m: CdtMesh, total: u32, k: int) -> Option<FoliationError>
    decreases k,
{
    if k <= 0 {
        None
    } else {
        match first_wrap_error(m, total, k - 1) {
            Some(e) => Some(e),
            None => {
                let s = (k - 1) as u32;
                if !slices_linked(m, total, s, wrap_prev(total, s)) {
                    Some(
                        FoliationError::MissingTemporalWrapAround {
                            slice: s as usize,
                            missing_neighbor: wrap_prev(total, s) as usize,
                        },
                    )
                } else if !slices_linked(m, total, s, wrap_next(total, s)) {
                    Some(
                        FoliationError::MissingTemporalWrapAround {
                            slice: s as usize,
                            missing_neighbor: wrap_next(total, s) as usize,
                        },
                    )
                } else {
                    None
                }
            },
        }
    }
}

proof fn lemma_first_wrap_error_stable(m: CdtMesh, total: u32, k: int, n: int)
    requires
        0 <= k <= n,
        first_wrap_error(m, total, k) is Some,
    ensures
        first_wrap_error(m, total, n) == first_wrap_error(m, total, k),
    decreases n - k,
{
    if n > k {
        lemma_first_wrap_error_stable(m, total, k, n - 1);
    }
}

/// Checks that every slice has timelike links to both periodic neighbours.
fn validate_toroidal_temporal_wraparound(mesh: &CdtMesh, total: u32) -> (result: Option<FoliationError>)
    requires
        mesh.consistent(),
        total >= 2,
    ensures
        result == first_wrap_error(*mesh, total, total as int),
{
    let ghost m = *mesh;
    let mut has_prev: Vec<bool> = Vec::new();
    let mut has_next: Vec<bool> = Vec::new();
    let mut s: u32 = 0;
    while s < total
        invariant
            s <= total,
            has_prev@.len() == s,
            has_next@.len() == s,
            forall|i: int| 0 <= i < s ==> !has_prev@[i] && !has_next@[i],
        decreases total - s,
    {
        has_prev.push(false);
        has_next.push(false);
        s = s + 1;
    }
    let ne = mesh.edge_count();
    let mut e: usize = 0;
    while e < ne
        invariant
            m == *mesh,
            mesh.consistent(),
            total >= 2,
            ne == m.edges().len(),
            e <= ne,
            has_prev@.len() == total,
            has_next@.len() == total,
            forall|i: int| 0 <= i < total ==> (#[trigger] has_prev@[i] <==> exists|f: int|
                0 <= f < e && #[trigger] edge_links(m, total, f, i as u32, wrap_prev(total, i as u32))),
            forall|i: int| 0 <= i < total ==> (#[trigger] has_next@[i] <==> exists|f: int|
                0 <= f < e && #[trigger] edge_links(m, total, f, i as u32, wrap_next(total, i as u32))),
        decreases ne - e,
    {
        let edge = mesh.edge(e);
        let la = mesh.vertex_label(edge.a);
        let lb = mesh.vertex_label(edge.b);
        let ghost prev_before = has_prev@;
        let ghost next_before = has_next@;
        if let (Some(t0), Some(t1)) = (la, lb) {
            if t0 < total && t1 < total
                && crate::foliation::time_step_distance(CdtTopology::Toroidal, total, t0, t1) == 1 {
                let p0 = if t0 == 0 { total - 1 } else { t0 - 1 };
                let n0 = if t0 + 1 == total { 0 } else { t0 + 1 };
                let p1 = if t1 == 0 { total - 1 } else { t1 - 1 };
                let n1 = if t1 + 1 == total { 0 } else { t1 + 1 };
                proof {
                    assert(n0 == wrap_next(total, t0)) by {
                        if t0 + 1 < total { vstd::arithmetic::div_mod::lemma_small_mod((t0 + 1) as nat, total as nat); }
                        else { vstd::arithmetic::div_mod::lemma_mod_self_0(total as int); }
                    };
                    assert(n1 == wrap_next(total, t1)) by {
                        if t1 + 1 < total { vstd::arithmetic::div_mod::lemma_small_mod((t1 + 1) as nat, total as nat); }
                        else { vstd::arithmetic::div_mod::lemma_mod_self_0(total as int); }
                    };
                }
                if t1 == p0 { has_prev.set(t0 as usize, true); }
                if t1 == n0 { has_next.set(t0 as usize, true); }
                if t0 == p1 { has_prev.set(t1 as usize, true); }
                if t0 == n1 { has_next.set(t1 as usize, true); }
            }
        }
        proof {
            assert forall|i: int| 0 <= i < total implies (#[trigger] has_prev@[i] <==> exists|f: int|
                0 <= f < e + 1 && #[trigger] edge_links(m, total, f, i as u32, wrap_prev(total, i as u32))) by {
                if has_prev@[i] && !prev_before[i] {
                    assert(edge_links(m, total, e as int, i as u32, wrap_prev(total, i as u32)));
                }
                if exists|f: int| 0 <= f < e + 1 && #[trigger] edge_links(m, total, f, i as u32, wrap_prev(total, i as u32)) {
                    let f = choose|f: int| 0 <= f < e + 1 && #[trigger] edge_links(m, total, f, i as u32, wrap_prev(total, i as u32));
                    if f < e {
                        assert(prev_before[i]);
                    }
                }
            };
            assert forall|i: int| 0 <= i < total implies (#[trigger] has_next@[i] <==> exists|f: int|
                0 <= f < e + 1 && #[trigger] edge_links(m, total, f, i as u32, wrap_next(total, i as u32))) by {
                if has_next@[i] && !next_before[i] {
                    assert(edge_links(m, total, e as int, i as u32, wrap_next(total, i as u32)));
                }
                if exists|f: int| 0 <= f < e + 1 && #[trigger] edge_links(m, total, f, i as u32, wrap_next(total, i as u32)) {
                    let f = choose|f: int| 0 <= f < e + 1 && #[trigger] edge_links(m, total, f, i as u32, wrap_next(total, i as u32));
                    if f < e {
                        assert(next_before[i]);
                    }
                }
            };
        }
        e = e + 1;
    }
    let mut s: u32 = 0;
    while s < total
        invariant
            m == *mesh,
            s <= total,
            total >= 2,
            ne == m.edges().len(),
            has_prev@.len() == total,
            has_next@.len() == total,
            forall|i: int| 0 <= i < total ==> (#[trigger] has_prev@[i] <==> slices_linked(m, total, i as u32, wrap_prev(total, i as u32))),
            forall|i: int| 0 <= i < total ==> (#[trigger] has_next@[i] <==> slices_linked(m, total, i as u32, wrap_next(total, i as u32))),
            first_wrap_error(m, total, s as int) is None,
        decreases total - s,
    {
        if !has_prev[s as usize] {
            let p = if s == 0 { total - 1 } else { s - 1 };
            proof { lemma_first_wrap_error_stable(m, total, s + 1, total as int); }
            return Some(FoliationError::MissingTemporalWrapAround { slice: s as usize, missing_neighbor: p as usize });
        }
        if !has_next[s as usize] {
            let nx = if s + 1 == total { 0 } else { s + 1 };
            proof {
                assert(nx == wrap_next(total, s)) by {
                    if s + 1 < total { vstd::arithmetic::div_mod::lemma_small_mod((s + 1) as nat, total as nat); }
                    else { vstd::arithmetic::div_mod::lemma_mod_self_0(total as int); }
                };
                lemma_first_wrap_error_stable(m, total, s + 1, total as int);
            }
            return Some(FoliationError::MissingTemporalWrapAround { slice: s as usize, missing_neighbor: nx as usize });
        }
        s = s + 1;
    }
    None
}

} // verus!

verus! {

/// The spacelike neighbour of `cur` that the interval walk moves to: its first
/// neighbour other than `prev` (vertices on the walk have at most two).
pub open spec fn interval_next(m: CdtMesh, num_slices: u32, prev: Option<usize>, cur: usize) -> Option<usize> {
    let nb = neighbors(m, num_slices, cur as int);
    if nb.len() > 0 && Some(nb[0]) != prev {
        Some(nb[0])
    } else if nb.len() > 1 && Some(nb[1]) != prev {
        Some(nb[1])
    } else {
        None
    }
}

/// `(previous, current)` at step `k` of the interval walk from `start`.
pub open spec fn interval_step(m: CdtMesh, num_slices: u32, start: usize, k: nat) -> (Option<usize>, usize)
    decreases k,
{
    if k == 0 {
        (None, start)
    } else {
        let (p, c) = interval_step(m, num_slices, start, (k - 1) as nat);
        (
            Some(c),
            match interval_next(m, num_slices, p, c) {
                Some(x) => x,
                None => c,
            },
        )
    }
}

/// The vertex at step `k` of the interval walk.
pub open spec fn interval_at(m: CdtMesh, num_slices: u32, start: usize, k: nat) -> usize {
    interval_step(m, num_slices, start, k).1
}

/// Step `k` of the interval walk revisits a vertex.
pub open spec fn interval_repeats(m: CdtMesh, num_slices: u32, start: usize, k: nat) -> bool {
    exists|j: nat| j < k && interval_at(m, num_slices, start, j) == interval_at(m, num_slices, start, k)
}

/// The interval walk stops at step `k`: it revisits a vertex or has nowhere
/// left to go.
pub open spec fn interval_stops_at(m: CdtMesh, num_slices: u32, start: usize, k: nat) -> bool {
    interval_repeats(m, num_slices, start, k) || interval_next(
        m,
        num_slices,
        interval_step(m, num_slices, start, k).0,
        interval_step(m, num_slices, start, k).1,
    ) is None
}

/// The first step at which the interval walk stops.
pub open spec fn interval_stop(m: CdtMesh, num_slices: u32, start: usize) -> nat {
    choose|k: nat| interval_stops_at(m, num_slices, start, k) && forall|j: nat|
        j < k ==> !interval_stops_at(m, num_slices, start, j)
}

/// Slice vertices (in vertex order, among the first `n`) with one spacelike
/// neighbour.
pub open spec fn endpoints_upto(m: CdtMesh, num_slices: u32, slice: u32, n: int) -> Seq<usize>
    decreases n,
{
    if n <= 0 {
        seq![]
    } else {
        let prev = endpoints_upto(m, num_slices, slice, n - 1);
        if m.labels()[n - 1] == Some(slice) && neighbors(m, num_slices, n - 1).len() == 1 {
            prev.push((n - 1) as usize)
        } else {
            prev
        }
    }
}

/// The first slice vertex (in vertex order, among the first `n`) with more
/// than two spacelike neighbours or none.
pub open spec fn first_interval_degree_error(m: CdtMesh, num_slices: u32, slice: u32, n: int) -> Option<usize>
    decreases n,
{
    if n <= 0 {
        None
    } else {
        match first_interval_degree_error(m, num_slices, slice, n - 1) {
            Some(v) => Some(v),
            None => {
                let d = neighbors(m, num_slices, n - 1).len();
                if m.labels()[n - 1] == Some(slice) && d != 1 && d != 2 {
                    Some((n - 1) as usize)
                } else {
                    None
                }
            },
        }
    }
}

/// Spatial ranks strictly increase along `path`.
pub open spec fn ranks_increase(m: CdtMesh, path: Seq<usize>) -> bool {
    forall|i: int, j: int| 0 <= i < j < path.len() ==> m.ranks()[path[i] as int] < m.ranks()[path[j] as int]
}

/// Spatial ranks strictly decrease along `path`.
pub open spec fn ranks_decrease(m: CdtMesh, path: Seq<usize>) -> bool {
    forall|i: int, j: int| 0 <= i < j < path.len() ==> m.ranks()[path[i] as int] > m.ranks()[path[j] as int]
}

/// The vertices of the interval walk from `start` up to step `k`.
pub open spec fn interval_path(m: CdtMesh, num_slices: u32, start: usize, k: nat) -> Seq<usize> {
    Seq::new(k + 1, |i: int| interval_at(m, num_slices, start, i as nat))
}

/// Result of checking that an open-boundary slice is one spacelike interval
/// of `expected` vertices whose path order agrees with the spatial order (up
/// to orientation). On success, the slice's vertices in spatial order.
pub open spec fn interval_result(m: CdtMesh, num_slices: u32, slice: u32, expected: usize) -> Result<
    Seq<usize>,
    FoliationError,
> {
    let n = m.labels().len() as int;
    let observed = label_count(m.labels(), n, slice);
    if observed != expected {
        Err(
            FoliationError::SpacelikeSubgraphSizeMismatch {
                slice: slice as usize,
                observed: observed as usize,
                expected,
            },
        )
    } else if expected == 1 {
        single_vertex_result(m, num_slices, slice)
    } else {
        path_result(m, num_slices, slice, expected)
    }
}

/// A one-vertex open slice must have no spacelike neighbour.
pub open spec fn single_vertex_result(m: CdtMesh, num_slices: u32, slice: u32) -> Result<Seq<usize>, FoliationError> {
    let v = first_in_slice(m.labels(), slice)->0;
    let d = neighbors(m, num_slices, v as int).len();
    if d != 0 {
        Err(
            FoliationError::SpacelikeOpenSliceDegreeViolation {
                slice: slice as usize,
                vertex: v,
                observed_degree: d as usize,
            },
        )
    } else {
        Ok(seq![v])
    }
}

/// A larger open slice must be one spacelike path between its two endpoints.
pub open spec fn path_result(m: CdtMesh, num_slices: u32, slice: u32, expected: usize) -> Result<
    Seq<usize>,
    FoliationError,
> {
    let n = m.labels().len() as int;
    if first_interval_degree_error(m, num_slices, slice, n) is Some {
        let v = first_interval_degree_error(m, num_slices, slice, n)->0;
        Err(
            FoliationError::SpacelikeOpenSliceDegreeViolation {
                slice: slice as usize,
                vertex: v,
                observed_degree: neighbors(m, num_slices, v as int).len() as usize,
            },
        )
    } else {
        let ends = endpoints_upto(m, num_slices, slice, n);
        if ends.len() != 2 {
            Err(
                FoliationError::SpacelikeOpenSliceEndpointCount {
                    slice: slice as usize,
                    observed: ends.len() as usize,
                    expected: 2,
                },
            )
        } else {
            walk_result(m, num_slices, slice, ends[0], ends[1], expected)
        }
    }
}

/// The walk from `start` must end at `target` after visiting `expected`
/// distinct vertices, in spatial order or its reverse.
pub open spec fn walk_result(m: CdtMesh, num_slices: u32, slice: u32, start: usize, target: usize, expected: usize) -> Result<
    Seq<usize>,
    FoliationError,
> {
    let s = slice as usize;
    let k = interval_stop(m, num_slices, start);
    if interval_repeats(m, num_slices, start, k) {
        Err(FoliationError::SpacelikeNonOpenInterval { slice: s, walked: k as usize, expected })
    } else if interval_at(m, num_slices, start, k) != target || k + 1 != expected {
        Err(FoliationError::SpacelikeNonOpenInterval { slice: s, walked: (k + 1) as usize, expected })
    } else {
        oriented_order(m, slice, interval_path(m, num_slices, start, k))
    }
}

/// The spatial order of a slice path: the path itself when ranks increase
/// along it, reversed when they decrease.
pub open spec fn oriented_order(m: CdtMesh, slice: u32, path: Seq<usize>) -> Result<Seq<usize>, FoliationError> {
    if ranks_increase(m, path) {
        Ok(path)
    } else if ranks_decrease(m, path) {
        Ok(path.reverse())
    } else {
        Err(
            FoliationError::OpenBoundarySpatialOrderMismatch {
                slice: slice as usize,
                path_vertices: path.len() as usize,
                coordinate_vertices: path.len() as usize,
            },
        )
    }
}

} // verus!

verus! {

proof fn lemma_interval_degree_scan(m: CdtMesh, num_slices: u32, slice: u32, n: int, v: int)
    requires
        0 <= v < n,
        first_interval_degree_error(m, num_slices, slice, n) is None,
        m.labels()[v] == Some(slice),
    ensures
        neighbors(m, num_slices, v).len() == 1 || neighbors(m, num_slices, v).len() == 2,
    decreases n,
{
    if v < n - 1 {
        lemma_interval_degree_scan(m, num_slices, slice, n - 1, v);
    }
}

proof fn lemma_interval_degree_stable(m: CdtMesh, num_slices: u32, slice: u32, k: int, n: int)
    requires
        0 <= k <= n,
        first_interval_degree_error(m, num_slices, slice, k) is Some,
    ensures
        first_interval_degree_error(m, num_slices, slice, n) == first_interval_degree_error(m, num_slices, slice, k),
    decreases n - k,
{
    if n > k {
        lemma_interval_degree_stable(m, num_slices, slice, k, n - 1);
    }
}

/// The first slice vertex whose spacelike degree is neither 1 nor 2.
fn first_bad_interval_degree(mesh: &CdtMesh, adj: &Vec<Vec<usize>>, num_slices: u32, slice: u32) -> (result:
    Option<usize>)
    requires
        mesh.consistent(),
        adj@.len() == mesh.labels().len(),
        forall|v: int| 0 <= v < adj@.len() ==> #[trigger] adj@[v]@ == neighbors(*mesh, num_slices, v),
    ensures
        result == first_interval_degree_error(*mesh, num_slices, slice, mesh.labels().len() as int),
        result matches Some(v) ==> v < mesh.labels().len(),
{
    let n = mesh.vertex_count();
    let ghost m = *mesh;
    let mut d: usize = 0;
    while d < n
        invariant
            m == *mesh,
            n == m.labels().len(),
            d <= n,
            adj@.len() == n,
            forall|v: int| 0 <= v < adj@.len() ==> #[trigger] adj@[v]@ == neighbors(*mesh, num_slices, v),
            first_interval_degree_error(m, num_slices, slice, d as int) is None,
        decreases n - d,
    {
        let deg = adj[d].len();
        if mesh.vertex_label(d) == Some(slice) && deg != 1 && deg != 2 {
            proof { lemma_interval_degree_stable(m, num_slices, slice, d + 1, n as int); }
            assert(first_interval_degree_error(m, num_slices, slice, d + 1) == Some(d));
            return Some(d);
        }
        d = d + 1;
    }
    None
}

/// Slice vertices with one spacelike neighbour, in vertex order.
fn collect_endpoints(mesh: &CdtMesh, adj: &Vec<Vec<usize>>, num_slices: u32, slice: u32) -> (ends: Vec<usize>)
    requires
        mesh.consistent(),
        adj@.len() == mesh.labels().len(),
        forall|v: int| 0 <= v < adj@.len() ==> #[trigger] adj@[v]@ == neighbors(*mesh, num_slices, v),
    ensures
        ends@ == endpoints_upto(*mesh, num_slices, slice, mesh.labels().len() as int),
        forall|i: int| 0 <= i < ends@.len() ==> #[trigger] ends@[i] < mesh.labels().len()
            && mesh.labels()[ends@[i] as int] == Some(slice),
{
    let n = mesh.vertex_count();
    let ghost m = *mesh;
    let mut ends: Vec<usize> = Vec::new();
    let mut d: usize = 0;
    while d < n
        invariant
            m == *mesh,
            n == m.labels().len(),
            d <= n,
            adj@.len() == n,
            forall|v: int| 0 <= v < adj@.len() ==> #[trigger] adj@[v]@ == neighbors(*mesh, num_slices, v),
            ends@ == endpoints_upto(m, num_slices, slice, d as int),
            forall|i: int| 0 <= i < ends@.len() ==> #[trigger] ends@[i] < n && m.labels()[ends@[i] as int] == Some(slice),
        decreases n - d,
    {
        if mesh.vertex_label(d) == Some(slice) && adj[d].len() == 1 {
            ends.push(d);
        }
        d = d + 1;
    }
    ends
}

proof fn lemma_interval_stop_is(m: CdtMesh, num_slices: u32, start: usize, k: nat)
    requires
        interval_stops_at(m, num_slices, start, k),
        forall|j: nat| j < k ==> !(#[trigger] interval_stops_at(m, num_slices, start, j)),
    ensures
        interval_stop(m, num_slices, start) == k,
{
    let c = interval_stop(m, num_slices, start);
    assert(interval_stops_at(m, num_slices, start, c) && forall|j: nat|
        j < c ==> !interval_stops_at(m, num_slices, start, j));
    if c < k {
        assert(!interval_stops_at(m, num_slices, start, c));
    }
    if c > k {
        assert(!interval_stops_at(m, num_slices, start, k));
    }
}

/// Walks the spacelike path of an open slice from `start`; returns whether
/// the walk stopped on a revisit, and the vertices it visited.
#[verifier::rlimit(40)]
fn walk_interval(mesh: &CdtMesh, adj: &Vec<Vec<usize>>, num_slices: u32, slice: u32, start: usize) -> (result: (
    bool,
    Vec<usize>,
))
    requires
        mesh.consistent(),
        adj@.len() == mesh.labels().len(),
        forall|v: int| 0 <= v < adj@.len() ==> #[trigger] adj@[v]@ == neighbors(*mesh, num_slices, v),
        first_interval_degree_error(*mesh, num_slices, slice, mesh.labels().len() as int) is None,
        start < mesh.labels().len(),
        mesh.labels()[start as int] == Some(slice),
    ensures
        result.0 == interval_repeats(*mesh, num_slices, start, interval_stop(*mesh, num_slices, start)),
        result.0 ==> result.1@.len() == interval_stop(*mesh, num_slices, start),
        !result.0 ==> result.1@ == interval_path(*mesh, num_slices, start, interval_stop(*mesh, num_slices, start)),
{
    let n = mesh.vertex_count();
    let ghost m = *mesh;
    let mut marks: Vec<bool> = Vec::new();
    let mut i: usize = 0;
    while i < n
        invariant
            i <= n,
            marks@.len() == i,
            forall|j: int| 0 <= j < i ==> !marks@[j],
        decreases n - i,
    {
        marks.push(false);
        i = i + 1;
    }
    proof {
        lemma_marked_same_prefix(marks@, Seq::new(n as nat, |j: int| false), n as int);
        lemma_marked_zero(n as int);
    }
    let mut path: Vec<usize> = Vec::new();
    let mut prev: Option<usize> = None;
    let mut cur: usize = start;
    let ghost mut k: nat = 0;
    loop
        invariant
            mesh.consistent(),
            m == *mesh,
            n == m.labels().len(),
            adj@.len() == n,
            forall|v: int| 0 <= v < adj@.len() ==> #[trigger] adj@[v]@ == neighbors(*mesh, num_slices, v),
            first_interval_degree_error(m, num_slices, slice, n as int) is None,
            start < n,
            marks@.len() == n,
            (prev, cur) == interval_step(m, num_slices, start, k),
            cur < n,
            m.labels()[cur as int] == Some(slice),
            path@.len() == k,
            k == marked(marks@, n as int),
            forall|j: int| 0 <= j < k ==> #[trigger] path@[j] == interval_at(m, num_slices, start, j as nat),
            forall|j: nat| j < k ==> (#[trigger] interval_at(m, num_slices, start, j)) < n && marks@[interval_at(
                m,
                num_slices,
                start,
                j,
            ) as int],
            forall|j: nat| j < k ==> !(#[trigger] interval_stops_at(m, num_slices, start, j)),
            forall|w: int| 0 <= w < n && #[trigger] marks@[w] ==> exists|j: nat| j < k && interval_at(m, num_slices, start, j) == w,
        decreases n - k,
    {
        proof { lemma_marked_bounded(marks@, n as int); }
        if marks[cur] {
            proof {
                let j = choose|j: nat| j < k && interval_at(m, num_slices, start, j) == cur;
                assert(interval_repeats(m, num_slices, start, k));
                lemma_interval_stop_is(m, num_slices, start, k);
            }
            return (true, path);
        }
        proof {
            assert(!interval_repeats(m, num_slices, start, k)) by {
                if interval_repeats(m, num_slices, start, k) {
                    let j = choose|j: nat| j < k && interval_at(m, num_slices, start, j) == interval_at(m, num_slices, start, k);
                    assert(marks@[interval_at(m, num_slices, start, j) as int]);
                }
            };
            lemma_marked_set(marks@, n as int, cur as int);
            lemma_interval_degree_scan(m, num_slices, slice, n as int, cur as int);
            lemma_neighbors_facts(m, num_slices, cur as int);
        }
        marks.set(cur, true);
        proof { lemma_marked_bounded(marks@, n as int); }
        path.push(cur);
        let nb0 = adj[cur][0];
        let next = if Some(nb0) != prev {
            Some(nb0)
        } else if adj[cur].len() > 1 && Some(adj[cur][1]) != prev {
            Some(adj[cur][1])
        } else {
            None
        };
        assert(next == interval_next(m, num_slices, prev, cur));
        match next {
            None => {
                proof {
                    assert(interval_stops_at(m, num_slices, start, k));
                    lemma_interval_stop_is(m, num_slices, start, k);
                    assert(path@ =~= interval_path(m, num_slices, start, k));
                }
                return (false, path);
            },
            Some(x) => {
                proof {
                    assert(!interval_stops_at(m, num_slices, start, k));
                }
                prev = Some(cur);
                cur = x;
                proof {
                    k = k + 1;
                    assert forall|w: int| 0 <= w < n && #[trigger] marks@[w] implies exists|j: nat| j < k && interval_at(m, num_slices, start, j) == w by {
                        if w == path@[k - 1] {
                            assert(interval_at(m, num_slices, start, (k - 1) as nat) == w);
                        } else {
                            let j = choose|j: nat| j < k - 1 && interval_at(m, num_slices, start, j) == w;
                        }
                    };
                }
            },
        }
    }
}

} // verus!

verus! {

/// Whether spatial ranks strictly increase (`increasing`) or strictly
/// decrease along `path`.
fn ranks_monotone(mesh: &CdtMesh, path: &Vec<usize>, increasing: bool) -> (ok: bool)
    requires
        mesh.consistent(),
        forall|i: int| 0 <= i < path@.len() ==> #[trigger] path@[i] < mesh.labels().len(),
    ensures
        increasing ==> (ok == ranks_increase(*mesh, path@)),
        !increasing ==> (ok == ranks_decrease(*mesh, path@)),
{
    let ghost m = *mesh;
    if path.len() < 2 {
        return true;
    }
    let mut i: usize = 1;
    while i < path.len()
        invariant
            m == *mesh,
            mesh.consistent(),
            forall|x: int| 0 <= x < path@.len() ==> #[trigger] path@[x] < mesh.labels().len(),
            1 <= i <= path@.len(),
            increasing ==> forall|a: int, b: int| 0 <= a < b < i ==> m.ranks()[path@[a] as int] < m.ranks()[path@[b] as int],
            !increasing ==> forall|a: int, b: int| 0 <= a < b < i ==> m.ranks()[path@[a] as int] > m.ranks()[path@[b] as int],
        decreases path@.len() - i,
    {
        let r0 = mesh.spatial_rank(path[i - 1]);
        let r1 = mesh.spatial_rank(path[i]);
        if increasing && !(r0 < r1) {
            return false;
        }
        if !increasing && !(r0 > r1) {
            return false;
        }
        i = i + 1;
    }
    true
}

/// The reverse of `path`.
fn reversed(path: &Vec<usize>) -> (r: Vec<usize>)
    ensures
        r@ == path@.reverse(),
{
    let walked = path.len();
    let mut reversed: Vec<usize> = Vec::new();
    let mut j: usize = walked;
    while j > 0
        invariant
            j <= walked,
            walked == path@.len(),
            reversed@ =~= path@.reverse().take((walked - j) as int),
        decreases j,
    {
        j = j - 1;
        reversed.push(path[j]);
    }
    assert(reversed@ =~= path@.reverse());
    reversed
}

/// Orients a slice path by spatial rank.
fn orient_path(mesh: &CdtMesh, slice: u32, path: Vec<usize>) -> (result: Result<Vec<usize>, FoliationError>)
    requires
        mesh.consistent(),
        forall|i: int| 0 <= i < path@.len() ==> #[trigger] path@[i] < mesh.labels().len(),
    ensures
        match oriented_order(*mesh, slice, path@) {
            Ok(order) => result matches Ok(r) && r@ == order,
            Err(e) => result == Err::<Vec<usize>, FoliationError>(e),
        },
{
    if ranks_monotone(mesh, &path, true) {
        return Ok(path);
    }
    if ranks_monotone(mesh, &path, false) {
        return Ok(reversed(&path));
    }
    let walked = path.len();
    Err(FoliationError::OpenBoundarySpatialOrderMismatch { slice: slice as usize, path_vertices: walked, coordinate_vertices: walked })
}

/// Walks from `start` and checks the walk against `target` and `expected`.
fn check_walk(
    mesh: &CdtMesh,
    adj: &Vec<Vec<usize>>,
    num_slices: u32,
    slice: u32,
    start: usize,
    target: usize,
    expected: usize,
) -> (result: Result<Vec<usize>, FoliationError>)
    requires
        mesh.consistent(),
        adj@.len() == mesh.labels().len(),
        forall|v: int| 0 <= v < adj@.len() ==> #[trigger] adj@[v]@ == neighbors(*mesh, num_slices, v),
        first_interval_degree_error(*mesh, num_slices, slice, mesh.labels().len() as int) is None,
        start < mesh.labels().len(),
        mesh.labels()[start as int] == Some(slice),
    ensures
        match walk_result(*mesh, num_slices, slice, start, target, expected) {
            Ok(order) => result matches Ok(r) && r@ == order,
            Err(e) => result == Err::<Vec<usize>, FoliationError>(e),
        },
{
    let ghost m = *mesh;
    let (repeated, path) = walk_interval(mesh, adj, num_slices, slice, start);
    if repeated {
        return Err(FoliationError::SpacelikeNonOpenInterval { slice: slice as usize, walked: path.len(), expected });
    }
    let walked = path.len();
    if path[walked - 1] != target || walked != expected {
        return Err(FoliationError::SpacelikeNonOpenInterval { slice: slice as usize, walked, expected });
    }
    proof {
        assert forall|i: int| 0 <= i < path@.len() implies #[trigger] path@[i] < mesh.labels().len() by {
            lemma_interval_walk_in_slice(m, num_slices, slice, start, i as nat);
        };
    }
    orient_path(mesh, slice, path)
}

/// Checks a slice of more than one vertex.
fn check_path_slice(mesh: &CdtMesh, adj: &Vec<Vec<usize>>, num_slices: u32, slice: u32, expected: usize) -> (result:
    Result<Vec<usize>, FoliationError>)
    requires
        mesh.consistent(),
        adj@.len() == mesh.labels().len(),
        forall|v: int| 0 <= v < adj@.len() ==> #[trigger] adj@[v]@ == neighbors(*mesh, num_slices, v),
    ensures
        match path_result(*mesh, num_slices, slice, expected) {
            Ok(order) => result matches Ok(r) && r@ == order,
            Err(e) => result == Err::<Vec<usize>, FoliationError>(e),
        },
{
    if let Some(v) = first_bad_interval_degree(mesh, adj, num_slices, slice) {
        return Err(
            FoliationError::SpacelikeOpenSliceDegreeViolation {
                slice: slice as usize,
                vertex: v,
                observed_degree: adj[v].len(),
            },
        );
    }
    let ends = collect_endpoints(mesh, adj, num_slices, slice);
    if ends.len() != 2 {
        return Err(
            FoliationError::SpacelikeOpenSliceEndpointCount { slice: slice as usize, observed: ends.len(), expected: 2 },
        );
    }
    check_walk(mesh, adj, num_slices, slice, ends[0], ends[1], expected)
}

/// Checks that one open-boundary slice is a spacelike interval of `expected`
/// vertices in spatial order; returns its vertices in spatial order.
fn check_interval(mesh: &CdtMesh, adj: &Vec<Vec<usize>>, num_slices: u32, slice: u32, expected: usize) -> (result:
    Result<Vec<usize>, FoliationError>)
    requires
        mesh.consistent(),
        adj@.len() == mesh.labels().len(),
        forall|v: int| 0 <= v < adj@.len() ==> #[trigger] adj@[v]@ == neighbors(*mesh, num_slices, v),
    ensures
        match interval_result(*mesh, num_slices, slice, expected) {
            Ok(order) => result matches Ok(r) && r@ == order,
            Err(e) => result == Err::<Vec<usize>, FoliationError>(e),
        },
{
    let ghost m = *mesh;
    let (observed, first) = scan_slice(mesh, slice);
    if observed != expected {
        return Err(FoliationError::SpacelikeSubgraphSizeMismatch { slice: slice as usize, observed, expected });
    }
    if expected == 1 {
        proof { lemma_slice_count_positive(m.labels(), m.labels().len() as int, slice); }
        let v = match first {
            Some(v) => v,
            None => {
                proof {
                    let w = choose|w: int| 0 <= w < m.labels().len() && m.labels()[w] == Some(slice);
                }
                return Ok(Vec::new());
            },
        };
        let d = adj[v].len();
        if d != 0 {
            return Err(FoliationError::SpacelikeOpenSliceDegreeViolation { slice: slice as usize, vertex: v, observed_degree: d });
        }
        let mut order: Vec<usize> = Vec::new();
        order.push(v);
        return Ok(order);
    }
    check_path_slice(mesh, adj, num_slices, slice, expected)
}

/// Every vertex of the interval walk lies in the walk's slice.
proof fn lemma_interval_walk_in_slice(m: CdtMesh, num_slices: u32, slice: u32, start: usize, k: nat)
    requires
        m.consistent(),
        start < m.labels().len(),
        m.labels()[start as int] == Some(slice),
    ensures
        interval_at(m, num_slices, start, k) < m.labels().len(),
        m.labels()[interval_at(m, num_slices, start, k) as int] == Some(slice),
        interval_step(m, num_slices, start, k).0 matches Some(p) ==> p < m.labels().len(),
    decreases k,
{
    if k > 0 {
        lemma_interval_walk_in_slice(m, num_slices, slice, start, (k - 1) as nat);
        let (p, c) = interval_step(m, num_slices, start, (k - 1) as nat);
        lemma_neighbors_facts(m, num_slices, c as int);
    }
}

} // verus!

verus! {

/// The two edges share an endpoint.
pub open spec fn share_endpoint(first: SlabEdge, second: SlabEdge) -> bool {
    first.lower == second.lower || first.lower == second.upper || first.upper == second.lower || first.upper
        == second.upper
}

/// Reports whether two slab edges share either endpoint.
pub fn slab_edges_share_endpoint(first: &SlabEdge, second: &SlabEdge) -> (shared: bool)
    ensures
        shared == share_endpoint(*first, *second),
{
    first.lower == second.lower || first.lower == second.upper || first.upper == second.lower || first.upper
        == second.upper
}

/// Whether a path order equals a coordinate order, possibly reversed.
pub fn orders_match_with_orientation(path_order: &Vec<usize>, coordinate_order: &Vec<usize>) -> (matches: bool)
    ensures
        matches == (path_order@ == coordinate_order@ || path_order@ == coordinate_order@.reverse()),
{
    let n = path_order.len();
    if n != coordinate_order.len() {
        proof {
            assert(path_order@.len() != coordinate_order@.reverse().len());
        }
        return false;
    }
    let mut same = true;
    let mut flipped = true;
    let mut i: usize = 0;
    while i < n
        invariant
            n == path_order@.len(),
            n == coordinate_order@.len(),
            i <= n,
            same == forall|j: int| 0 <= j < i ==> path_order@[j] == coordinate_order@[j],
            flipped == forall|j: int| 0 <= j < i ==> path_order@[j] == coordinate_order@[n - 1 - j],
        decreases n - i,
    {
        if path_order[i] != coordinate_order[i] {
            same = false;
        }
        if path_order[i] != coordinate_order[n - 1 - i] {
            flipped = false;
        }
        i = i + 1;
    }
    assert(same ==> path_order@ =~= coordinate_order@);
    assert(flipped ==> path_order@ =~= coordinate_order@.reverse());
    assert(path_order@ == coordinate_order@ ==> same);
    assert(path_order@ == coordinate_order@.reverse() ==> flipped) by {
        if path_order@ == coordinate_order@.reverse() {
            assert forall|j: int| 0 <= j < n implies path_order@[j] == coordinate_order@[n - 1 - j] by {
                assert(coordinate_order@.reverse()[j] == coordinate_order@[n - 1 - j]);
            };
        }
    };
    same || flipped
}

/// Lexicographic order on triples.
pub open spec fn lex_lt(a: (usize, usize, usize), b: (usize, usize, usize)) -> bool {
    a.0 < b.0 || (a.0 == b.0 && (a.1 < b.1 || (a.1 == b.1 && a.2 < b.2)))
}

/// Edge `i` has a position on both slices.
pub open spec fn positioned(edges: Seq<SlabEdge>, lower: Seq<Option<usize>>, upper: Seq<Option<usize>>, i: int) -> bool {
    &&& edges[i].lower < lower.len() && lower[edges[i].lower as int] is Some
    &&& edges[i].upper < upper.len() && upper[edges[i].upper as int] is Some
}

pub open spec fn lower_pos(edges: Seq<SlabEdge>, lower: Seq<Option<usize>>, i: int) -> usize {
    lower[edges[i].lower as int]->0
}

pub open spec fn upper_pos(edges: Seq<SlabEdge>, upper: Seq<Option<usize>>, i: int) -> usize {
    upper[edges[i].upper as int]->0
}

/// Edge `i` starts left of edge `j` on the lower slice, ends right of it on
/// the upper slice, and the two share no vertex.
pub open spec fn crosses(edges: Seq<SlabEdge>, lower: Seq<Option<usize>>, upper: Seq<Option<usize>>, i: int, j: int) -> bool {
    &&& 0 <= i < edges.len() && 0 <= j < edges.len()
    &&& positioned(edges, lower, upper, i) && positioned(edges, lower, upper, j)
    &&& lower_pos(edges, lower, i) < lower_pos(edges, lower, j)
    &&& upper_pos(edges, upper, i) > upper_pos(edges, upper, j)
    &&& !share_endpoint(edges[i], edges[j])
}

/// Order in which edges are examined as the later edge of a crossing: by
/// lower position, then upper position, then input order.
pub open spec fn scan_key(edges: Seq<SlabEdge>, lower: Seq<Option<usize>>, upper: Seq<Option<usize>>, j: int) -> (usize, usize, usize) {
    (lower_pos(edges, lower, j), upper_pos(edges, upper, j), j as usize)
}

/// Order in which earlier edges are preferred as the first edge of a
/// crossing: by upper position, then lower position, then input order.
pub open spec fn partner_key(edges: Seq<SlabEdge>, lower: Seq<Option<usize>>, upper: Seq<Option<usize>>, i: int) -> (usize, usize, usize) {
    (upper_pos(edges, upper, i), lower_pos(edges, lower, i), i as usize)
}

/// The pair `(i, j)` reported as the first crossing: `j` comes first by
/// [`scan_key`] among edges crossed by an earlier edge, and `i` comes first by
/// [`partner_key`] among the edges crossing `j`.
pub open spec fn is_first_crossing(edges: Seq<SlabEdge>, lower: Seq<Option<usize>>, upper: Seq<Option<usize>>, i: int, j: int) -> bool {
    &&& crosses(edges, lower, upper, i, j)
    &&& forall|a: int, b: int| #[trigger] crosses(edges, lower, upper, a, b) ==> !lex_lt(scan_key(edges, lower, upper, b), scan_key(edges, lower, upper, j))
    &&& forall|a: int| #[trigger] crosses(edges, lower, upper, a, j) ==> !lex_lt(partner_key(edges, lower, upper, a), partner_key(edges, lower, upper, i))
}

/// Finds the first pair of non-incident slab edges that cross, as indices
/// into `edges`.
///
/// Edges without a position on their slice are ignored. The reported pair is
/// the one [`is_first_crossing`] describes.
pub fn first_slab_crossing(edges: &Vec<SlabEdge>, lower_positions: &Vec<Option<usize>>, upper_positions: &Vec<Option<usize>>) -> (result:
    Option<(usize, usize)>)
    ensures
        result is None <==> forall|a: int, b: int| !crosses(edges@, lower_positions@, upper_positions@, a, b),
        result matches Some((i, j)) ==> is_first_crossing(edges@, lower_positions@, upper_positions@, i as int, j as int),
{
    let ghost e = edges@;
    let ghost lp = lower_positions@;
    let ghost up = upper_positions@;
    let n = edges.len();
    let mut best: Option<(usize, usize)> = None;
    let mut j: usize = 0;
    while j < n
        invariant
            e == edges@,
            lp == lower_positions@,
            up == upper_positions@,
            n == e.len(),
            j <= n,
            best is None ==> forall|a: int, b: int| 0 <= b < j ==> !crosses(e, lp, up, a, b),
            best matches Some((bi, bj)) ==> bj < j && crosses(e, lp, up, bi as int, bj as int)
                && (forall|a: int, b: int| 0 <= b < j && #[trigger] crosses(e, lp, up, a, b) ==> !lex_lt(scan_key(e, lp, up, b), scan_key(e, lp, up, bj as int)))
                && (forall|a: int| #[trigger] crosses(e, lp, up, a, bj as int) ==> !lex_lt(partner_key(e, lp, up, a), partner_key(e, lp, up, bi as int))),
        decreases n - j,
    {
        if let Some(partner) = best_partner(edges, lower_positions, upper_positions, j) {
            let replace = match best {
                None => true,
                Some((_, bj)) => {
                    let a = (lower_positions[edges[j].lower].unwrap(), upper_positions[edges[j].upper].unwrap(), j);
                    let b = (lower_positions[edges[bj].lower].unwrap(), upper_positions[edges[bj].upper].unwrap(), bj);
                    a.0 < b.0 || (a.0 == b.0 && (a.1 < b.1 || (a.1 == b.1 && a.2 < b.2)))
                },
            };
            if replace {
                best = Some((partner, j));
            }
        }
        proof {
            assert forall|a: int, b: int| 0 <= b < j + 1 && #[trigger] crosses(e, lp, up, a, b) implies (best matches Some((bi, bj)) && !lex_lt(scan_key(e, lp, up, b), scan_key(e, lp, up, bj as int))) by {
                if b < j {
                } else {
                }
            };
        }
        j = j + 1;
    }
    proof {
        if best is None {
            assert forall|a: int, b: int| !crosses(e, lp, up, a, b) by {
                if crosses(e, lp, up, a, b) {
                    assert(0 <= b < n);
                }
            };
        }
    }
    best
}

/// The edge crossing edge `j` that comes first by [`partner_key`], if any.
fn best_partner(edges: &Vec<SlabEdge>, lower_positions: &Vec<Option<usize>>, upper_positions: &Vec<Option<usize>>, j: usize) -> (result:
    Option<usize>)
    requires
        j < edges@.len(),
    ensures
        result is None <==> forall|a: int| !crosses(edges@, lower_positions@, upper_positions@, a, j as int),
        result matches Some(i) ==> crosses(edges@, lower_positions@, upper_positions@, i as int, j as int)
            && forall|a: int| #[trigger] crosses(edges@, lower_positions@, upper_positions@, a, j as int)
                ==> !lex_lt(partner_key(edges@, lower_positions@, upper_positions@, a), partner_key(edges@, lower_positions@, upper_positions@, i as int)),
{
    let ghost e = edges@;
    let ghost lp = lower_positions@;
    let ghost up = upper_positions@;
    let n = edges.len();
    let cj = edges[j];
    if cj.lower >= lower_positions.len() || cj.upper >= upper_positions.len() {
        return None;
    }
    let (lj, uj) = match (lower_positions[cj.lower], upper_positions[cj.upper]) {
        (Some(l), Some(u)) => (l, u),
        _ => return None,
    };
    let mut best: Option<usize> = None;
    let mut i: usize = 0;
    while i < n
        invariant
            e == edges@,
            lp == lower_positions@,
            up == upper_positions@,
            n == e.len(),
            j < n,
            i <= n,
            cj == e[j as int],
            positioned(e, lp, up, j as int),
            lj == lower_pos(e, lp, j as int),
            uj == upper_pos(e, up, j as int),
            best is None ==> forall|a: int| 0 <= a < i ==> !crosses(e, lp, up, a, j as int),
            best matches Some(bi) ==> bi < i && crosses(e, lp, up, bi as int, j as int)
                && forall|a: int| 0 <= a < i && #[trigger] crosses(e, lp, up, a, j as int)
                    ==> !lex_lt(partner_key(e, lp, up, a), partner_key(e, lp, up, bi as int)),
        decreases n - i,
    {
        let ci = edges[i];
        if ci.lower < lower_positions.len() && ci.upper < upper_positions.len() {
            if let (Some(li), Some(ui)) = (lower_positions[ci.lower], upper_positions[ci.upper]) {
                let crossing = li < lj && ui > uj && !slab_edges_share_endpoint(&ci, &cj);
                if crossing {
                    let better = match best {
                        None => true,
                        Some(bi) => {
                            let bu = upper_positions[edges[bi].upper].unwrap();
                            let bl = lower_positions[edges[bi].lower].unwrap();
                            ui < bu || (ui == bu && (li < bl || (li == bl && i < bi)))
                        },
                    };
                    if better {
                        best = Some(i);
                    }
                }
            }
        }
        i = i + 1;
    }
    best
}

} // verus!

verus! {

/// Edge `e` as a timelike edge of the slab above slice `lower_slice`, oriented
/// from its lower to its upper vertex.
pub open spec fn slab_edge(m: CdtMesh, e: int, lower_slice: u32) -> Option<SlabEdge> {
    let edge = m.edges()[e];
    let la = m.labels()[edge.a as int];
    let lb = m.labels()[edge.b as int];
    if la is Some && lb is Some && crate::foliation::label_gap(la->0, lb->0) == 1 && crate::foliation::min_u32(la->0, lb->0) == lower_slice {
        if la->0 < lb->0 {
            Some(SlabEdge { lower: edge.a, upper: edge.b })
        } else {
            Some(SlabEdge { lower: edge.b, upper: edge.a })
        }
    } else {
        None
    }
}

/// Timelike edges of the slab above `lower_slice` among the first `k` edges.
pub open spec fn slab_edges_upto(m: CdtMesh, lower_slice: u32, k: int) -> Seq<SlabEdge>
    decreases k,
{
    if k <= 0 {
        seq![]
    } else {
        let prev = slab_edges_upto(m, lower_slice, k - 1);
        match slab_edge(m, k - 1, lower_slice) {
            Some(se) => prev.push(se),
            None => prev,
        }
    }
}

/// Position of each of `n` vertices in `order` (from its first `k` entries;
/// a later entry wins).
pub open spec fn positions_from(order: Seq<usize>, n: nat, k: int) -> Seq<Option<usize>>
    decreases k,
{
    if k <= 0 {
        Seq::new(n, |v: int| None::<usize>)
    } else {
        let prev = positions_from(order, n, k - 1);
        if order[k - 1] < n {
            prev.update(order[k - 1] as int, Some((k - 1) as usize))
        } else {
            prev
        }
    }
}

/// Position of each of `n` vertices in `order`.
pub open spec fn order_positions(order: Seq<usize>, n: nat) -> Seq<Option<usize>> {
    positions_from(order, n, order.len() as int)
}

/// The crossing diagnostic for the slab above `lower_slice`, given the spatial
/// order of every slice.
pub open spec fn slab_result(m: CdtMesh, orders: Seq<Seq<usize>>, lower_slice: u32) -> Option<FoliationError> {
    let edges = slab_edges_upto(m, lower_slice, m.edges().len() as int);
    let lo = order_positions(orders[lower_slice as int], m.labels().len());
    let hi = order_positions(orders[lower_slice + 1], m.labels().len());
    if exists|a: int, b: int| crosses(edges, lo, hi, a, b) {
        let (i, j) = choose|i: int, j: int| is_first_crossing(edges, lo, hi, i, j);
        Some(
            FoliationError::OpenBoundarySlabEdgeCrossing {
                lower_slice: lower_slice as usize,
                first_edge: edges[i],
                second_edge: edges[j],
            },
        )
    } else {
        None
    }
}

/// The first slab (below `k`) with crossing timelike edges.
pub open spec fn first_slab_error(m: CdtMesh, orders: Seq<Seq<usize>>, k: int) -> Option<FoliationError>
    decreases k,
{
    if k <= 0 {
        None
    } else {
        match first_slab_error(m, orders, k - 1) {
            Some(e) => Some(e),
            None => slab_result(m, orders, (k - 1) as u32),
        }
    }
}

proof fn lemma_lex_lt_total(a: (usize, usize, usize), b: (usize, usize, usize))
    requires
        a != b,
    ensures
        lex_lt(a, b) || lex_lt(b, a),
{
}

/// At most one pair is the first crossing.
proof fn lemma_first_crossing_unique(edges: Seq<SlabEdge>, lo: Seq<Option<usize>>, hi: Seq<Option<usize>>, i: int, j: int, i2: int, j2: int)
    requires
        edges.len() <= usize::MAX,
        is_first_crossing(edges, lo, hi, i, j),
        is_first_crossing(edges, lo, hi, i2, j2),
    ensures
        i == i2 && j == j2,
{
    if j != j2 {
        assert(j as usize != j2 as usize);
        lemma_lex_lt_total(scan_key(edges, lo, hi, j), scan_key(edges, lo, hi, j2));
        assert(crosses(edges, lo, hi, i2, j2));
        assert(crosses(edges, lo, hi, i, j));
    }
    if i != i2 {
        assert(i as usize != i2 as usize);
        lemma_lex_lt_total(partner_key(edges, lo, hi, i), partner_key(edges, lo, hi, i2));
        assert(crosses(edges, lo, hi, i2, j));
        assert(crosses(edges, lo, hi, i, j));
    }
}

/// Positions of `n` vertices in `order`.
fn positions_in(order: &Vec<usize>, n: usize) -> (pos: Vec<Option<usize>>)
    ensures
        pos@ == order_positions(order@, n as nat),
{
    let mut pos: Vec<Option<usize>> = Vec::new();
    let mut v: usize = 0;
    while v < n
        invariant
            v <= n,
            pos@ =~= Seq::new(v as nat, |w: int| None::<usize>),
        decreases n - v,
    {
        pos.push(None);
        v = v + 1;
    }
    let mut k: usize = 0;
    while k < order.len()
        invariant
            k <= order@.len(),
            pos@ == positions_from(order@, n as nat, k as int),
            pos@.len() == n,
        decreases order@.len() - k,
    {
        if order[k] < n {
            pos.set(order[k], Some(k));
        }
        k = k + 1;
    }
    pos
}

/// Timelike edges of the slab above `lower_slice`.
fn collect_slab_edges(mesh: &CdtMesh, lower_slice: u32) -> (edges: Vec<SlabEdge>)
    requires
        mesh.consistent(),
    ensures
        edges@ == slab_edges_upto(*mesh, lower_slice, mesh.edges().len() as int),
{
    let ghost m = *mesh;
    let ne = mesh.edge_count();
    let mut edges: Vec<SlabEdge> = Vec::new();
    let mut k: usize = 0;
    while k < ne
        invariant
            m == *mesh,
            mesh.consistent(),
            ne == m.edges().len(),
            k <= ne,
            edges@ == slab_edges_upto(m, lower_slice, k as int),
        decreases ne - k,
    {
        let edge = mesh.edge(k);
        if let (Some(t0), Some(t1)) = (mesh.vertex_label(edge.a), mesh.vertex_label(edge.b)) {
            let gap = if t0 >= t1 { t0 - t1 } else { t1 - t0 };
            let low = if t0 <= t1 { t0 } else { t1 };
            if gap == 1 && low == lower_slice {
                if t0 < t1 {
                    edges.push(SlabEdge { lower: edge.a, upper: edge.b });
                } else {
                    edges.push(SlabEdge { lower: edge.b, upper: edge.a });
                }
            }
        }
        k = k + 1;
    }
    edges
}

/// Checks that the slab above `lower_slice` has no crossing timelike edges.
fn check_slab(mesh: &CdtMesh, orders: &Vec<Vec<usize>>, lower_slice: u32) -> (result: Option<FoliationError>)
    requires
        mesh.consistent(),
        lower_slice + 1 < orders@.len(),
    ensures
        result == slab_result(*mesh, orders@.map_values(|o: Vec<usize>| o@), lower_slice),
{
    let ghost os = orders@.map_values(|o: Vec<usize>| o@);
    let n = mesh.vertex_count();
    let edges = collect_slab_edges(mesh, lower_slice);
    let count = orders.len();
    let lo = positions_in(&orders[lower_slice as usize], n);
    let hi = positions_in(&orders[lower_slice as usize + 1], n);
    assert(os[lower_slice as int] == orders@[lower_slice as int]@);
    assert(os[lower_slice + 1] == orders@[lower_slice + 1]@);
    match first_slab_crossing(&edges, &lo, &hi) {
        None => None,
        Some((i, j)) => {
            proof {
                assert(crosses(edges@, lo@, hi@, i as int, j as int));
                let (ci, cj) = choose|ci: int, cj: int| is_first_crossing(edges@, lo@, hi@, ci, cj);
                lemma_first_crossing_unique(edges@, lo@, hi@, i as int, j as int, ci, cj);
            }
            Some(
                FoliationError::OpenBoundarySlabEdgeCrossing {
                    lower_slice: lower_slice as usize,
                    first_edge: edges[i],
                    second_edge: edges[j],
                },
            )
        },
    }
}

} // verus!

verus! {

/// The first open-boundary slice (below `k`) that is not an interval in
/// spatial order.
pub open spec fn first_interval_error(m: CdtMesh, sizes: Seq<usize>, k: int) -> Option<FoliationError>
    decreases k,
{
    if k <= 0 {
        None
    } else {
        match first_interval_error(m, sizes, k - 1) {
            Some(e) => Some(e),
            None => match interval_result(m, sizes.len() as u32, (k - 1) as u32, sizes[k - 1]) {
                Ok(_) => None,
                Err(e) => Some(e),
            },
        }
    }
}

/// The spatial order of every open-boundary slice.
pub open spec fn interval_orders(m: CdtMesh, sizes: Seq<usize>) -> Seq<Seq<usize>> {
    Seq::new(
        sizes.len(),
        |s: int|
            match interval_result(m, sizes.len() as u32, s as u32, sizes[s]) {
                Ok(order) => order,
                Err(_) => seq![],
            },
    )
}

/// Shape diagnostic for an open-boundary foliation with stored slice sizes.
pub open spec fn open_boundary_error(m: CdtMesh, sizes: Seq<usize>) -> Option<FoliationError> {
    match first_interval_error(m, sizes, sizes.len() as int) {
        Some(e) => Some(e),
        None => if sizes.len() < 2 {
            None
        } else {
            first_slab_error(m, interval_orders(m, sizes), sizes.len() - 1)
        },
    }
}

/// Shape diagnostic for a toroidal foliation with stored slice sizes.
pub open spec fn toroidal_error(m: CdtMesh, sizes: Seq<usize>, total: u32) -> Option<FoliationError> {
    match first_ring_error(m, sizes, sizes.len() as int) {
        Some(e) => Some(e),
        None => if total < 2 { None } else { first_wrap_error(m, total, total as int) },
    }
}

proof fn lemma_first_interval_error_stable(m: CdtMesh, sizes: Seq<usize>, k: int, n: int)
    requires
        0 <= k <= n,
        first_interval_error(m, sizes, k) is Some,
    ensures
        first_interval_error(m, sizes, n) == first_interval_error(m, sizes, k),
    decreases n - k,
{
    if n > k {
        lemma_first_interval_error_stable(m, sizes, k, n - 1);
    }
}

proof fn lemma_first_ring_error_stable(m: CdtMesh, sizes: Seq<usize>, k: int, n: int)
    requires
        0 <= k <= n,
        first_ring_error(m, sizes, k) is Some,
    ensures
        first_ring_error(m, sizes, n) == first_ring_error(m, sizes, k),
    decreases n - k,
{
    if n > k {
        lemma_first_ring_error_stable(m, sizes, k, n - 1);
    }
}

proof fn lemma_first_slab_error_stable(m: CdtMesh, orders: Seq<Seq<usize>>, k: int, n: int)
    requires
        0 <= k <= n,
        first_slab_error(m, orders, k) is Some,
    ensures
        first_slab_error(m, orders, n) == first_slab_error(m, orders, k),
    decreases n - k,
{
    if n > k {
        lemma_first_slab_error_stable(m, orders, k, n - 1);
    }
}

/// Checks every open-boundary slice and slab.
fn validate_open_boundary_spatial_intervals(mesh: &CdtMesh, sizes: &Vec<usize>) -> (result: Option<FoliationError>)
    requires
        mesh.consistent(),
        sizes@.len() <= u32::MAX,
    ensures
        result == open_boundary_error(*mesh, sizes@),
{
    let ghost m = *mesh;
    let num = sizes.len() as u32;
    let adj = spacelike_adjacency_by_slice(mesh, num);
    let mut orders: Vec<Vec<usize>> = Vec::new();
    let mut s: usize = 0;
    while s < sizes.len()
        invariant
            m == *mesh,
            mesh.consistent(),
            num == sizes@.len(),
            s <= sizes@.len(),
            adj@.len() == m.labels().len(),
            forall|v: int| 0 <= v < adj@.len() ==> #[trigger] adj@[v]@ == neighbors(*mesh, num, v),
            first_interval_error(m, sizes@, s as int) is None,
            orders@.len() == s,
            forall|i: int| 0 <= i < s ==> #[trigger] orders@[i]@ == interval_orders(m, sizes@)[i],
        decreases sizes@.len() - s,
    {
        match check_interval(mesh, &adj, num, s as u32, sizes[s]) {
            Err(e) => {
                proof { lemma_first_interval_error_stable(m, sizes@, s + 1, sizes@.len() as int); }
                return Some(e);
            },
            Ok(order) => {
                orders.push(order);
            },
        }
        s = s + 1;
    }
    if sizes.len() < 2 {
        return None;
    }
    assert(orders@.map_values(|o: Vec<usize>| o@) =~= interval_orders(m, sizes@));
    validate_open_boundary_slab_embedding(mesh, &orders)
}

/// Checks every slab between consecutive slices of the given spatial orders.
fn validate_open_boundary_slab_embedding(mesh: &CdtMesh, orders: &Vec<Vec<usize>>) -> (result: Option<FoliationError>)
    requires
        mesh.consistent(),
        2 <= orders@.len() <= u32::MAX,
    ensures
        result == first_slab_error(*mesh, orders@.map_values(|o: Vec<usize>| o@), orders@.len() - 1),
{
    let ghost m = *mesh;
    let ghost os = orders@.map_values(|o: Vec<usize>| o@);
    let mut l: usize = 0;
    while l + 1 < orders.len()
        invariant
            m == *mesh,
            mesh.consistent(),
            2 <= orders@.len() <= u32::MAX,
            l + 1 <= orders@.len(),
            os == orders@.map_values(|o: Vec<usize>| o@),
            first_slab_error(m, os, l as int) is None,
        decreases orders@.len() - l,
    {
        if let Some(e) = check_slab(mesh, orders, l as u32) {
            proof { lemma_first_slab_error_stable(m, os, l + 1, orders@.len() - 1); }
            return Some(e);
        }
        l = l + 1;
    }
    None
}

/// Checks every toroidal slice ring and the periodic time links.
fn validate_toroidal_spatial_rings(mesh: &CdtMesh, sizes: &Vec<usize>, total: u32) -> (result: Option<FoliationError>)
    requires
        mesh.consistent(),
        sizes@.len() <= u32::MAX,
    ensures
        result == toroidal_error(*mesh, sizes@, total),
{
    let ghost m = *mesh;
    let num = sizes.len() as u32;
    let adj = spacelike_adjacency_by_slice(mesh, num);
    let mut s: usize = 0;
    while s < sizes.len()
        invariant
            m == *mesh,
            mesh.consistent(),
            num == sizes@.len(),
            s <= sizes@.len(),
            adj@.len() == m.labels().len(),
            forall|v: int| 0 <= v < adj@.len() ==> #[trigger] adj@[v]@ == neighbors(*mesh, num, v),
            first_ring_error(m, sizes@, s as int) is None,
        decreases sizes@.len() - s,
    {
        if let Some(e) = check_ring(mesh, &adj, num, s as u32, sizes[s]) {
            proof { lemma_first_ring_error_stable(m, sizes@, s + 1, sizes@.len() as int); }
            return Some(e);
        }
        s = s + 1;
    }
    if total < 2 {
        return None;
    }
    validate_toroidal_temporal_wraparound(mesh, total)
}

} // verus!

verus! {

/// The first slice (below `k`) whose stored and live counts differ.
pub open spec fn first_size_mismatch(stored: Seq<usize>, live: Seq<usize>, k: int) -> Option<int>
    decreases k,
{
    if k <= 0 {
        None
    } else {
        match first_size_mismatch(stored, live, k - 1) {
            Some(s) => Some(s),
            None => if stored[k - 1] != live[k - 1] { Some(k - 1) } else { None },
        }
    }
}

proof fn lemma_first_size_mismatch_stable(stored: Seq<usize>, live: Seq<usize>, k: int, n: int)
    requires
        0 <= k <= n,
        first_size_mismatch(stored, live, k) is Some,
    ensures
        first_size_mismatch(stored, live, n) == first_size_mismatch(stored, live, k),
    decreases n - k,
{
    if n > k {
        lemma_first_size_mismatch_stable(stored, live, k, n - 1);
    }
}

/// The outcome of [`CdtTriangulation::validate_foliation`].
pub open spec fn foliation_result(t: CdtTriangulation) -> Result<(), CdtError> {
    match t.stored_foliation() {
        None => Ok(()),
        Some(f) => if !t.has_current() {
            Err(t.stale_error())
        } else {
            let m = t.mesh_spec();
            let n = m.labels().len();
            let sizes = f.sizes();
            let live = live_sizes(m.labels(), sizes.len() as u32);
            if total_of(sizes) != n {
                Err(
                    CdtError::Foliation(
                        FoliationError::LabelCountMismatch { labeled: total_of(sizes) as usize, expected: n as usize },
                    ),
                )
            } else if first_label_error(m.labels(), n as int, sizes.len() as u32) is Some {
                Err(CdtError::Foliation(first_label_error(m.labels(), n as int, sizes.len() as u32)->0))
            } else if first_size_mismatch(sizes, live, sizes.len() as int) is Some {
                let s = first_size_mismatch(sizes, live, sizes.len() as int)->0;
                Err(
                    CdtError::Foliation(
                        FoliationError::LabelMismatch { slice: s as usize, expected: sizes[s], actual: live[s] },
                    ),
                )
            } else {
                let shape = if t.spec_topology() == CdtTopology::OpenBoundary {
                    open_boundary_error(m, sizes)
                } else {
                    toroidal_error(m, sizes, t.spec_time_slices())
                };
                match shape {
                    None => Ok(()),
                    Some(e) => Err(CdtError::Foliation(e)),
                }
            }
        },
    }
}

impl CdtTriangulation {
    /// Validates foliation bookkeeping against the mesh.
    ///
    /// Succeeds vacuously without stored foliation. Otherwise checks, in this
    /// order, that the bookkeeping is current, that it counts every vertex,
    /// that every vertex has a label inside the foliation, that the stored
    /// per-slice counts match the live labels, and that every slice has the
    /// shape its topology demands: for an open boundary, a spacelike path in
    /// spatial order with noncrossing timelike edges between consecutive
    /// slices; for a torus, a closed spacelike ring with timelike links to
    /// both periodic neighbour slices.
    ///
    /// # Errors
    ///
    /// The [`FoliationError`] of the first failing check, as
    /// [`foliation_result`] states.
    #[verifier::loop_isolation(false)]
    pub fn validate_foliation(&self) -> (result: Result<(), CdtError>)
        requires
            self.wf(),
        ensures
            result == foliation_result(*self),
    {
        proof { self.lemma_wf(); }
        let f = match self.foliation() {
            Some(f) => f,
            None => {
                if self.has_stored_foliation() {
                    return Err(self.stale_foliation_error());
                }
                return Ok(());
            },
        };
        let ghost m = self.mesh_spec();
        let mesh = self.geometry();
        let n = mesh.vertex_count();
        let sizes = f.slice_sizes();
        if f.labeled_vertex_count() != n {
            return Err(
                CdtError::Foliation(
                    FoliationError::LabelCountMismatch { labeled: f.labeled_vertex_count(), expected: n },
                ),
            );
        }
        let num = sizes.len() as u32;
        let live = match live_slice_sizes_from_vertex_labels(mesh, num) {
            Ok(live) => live,
            Err(e) => return Err(e),
        };
        let mut s: usize = 0;
        while s < sizes.len()
            invariant
                sizes@.len() == num,
                live@ == live_sizes(m.labels(), num),
                s <= sizes@.len(),
                first_size_mismatch(sizes@, live@, s as int) is None,
            decreases sizes@.len() - s,
        {
            if sizes[s] != live[s] {
                proof { lemma_first_size_mismatch_stable(sizes@, live@, s + 1, sizes@.len() as int); }
                return Err(
                    CdtError::Foliation(FoliationError::LabelMismatch { slice: s, expected: sizes[s], actual: live[s] }),
                );
            }
            s = s + 1;
        }
        let shape = match self.topology() {
            CdtTopology::OpenBoundary => validate_open_boundary_spatial_intervals(mesh, sizes),
            CdtTopology::Toroidal => validate_toroidal_spatial_rings(mesh, sizes, self.time_slices()),
        };
        match shape {
            None => Ok(()),
            Some(e) => Err(CdtError::Foliation(e)),
        }
    }
}

/// A successful foliation check leaves every vertex labeled inside the
/// foliation, with live per-slice counts equal to the stored ones.
pub proof fn lemma_valid_foliation_labels(t: CdtTriangulation)
    requires
        t.wf(),
        t.stored_foliation() is Some,
        foliation_result(t) is Ok,
    ensures
        t.has_current(),
        forall|v: int|
            0 <= v < t.mesh_spec().labels().len() ==> (#[trigger] t.mesh_spec().labels()[v]) is Some
                && t.mesh_spec().labels()[v]->0 < t.spec_time_slices(),
        live_sizes(t.mesh_spec().labels(), t.spec_time_slices()) == t.stored_foliation()->0.sizes(),
{
    t.lemma_wf();
    lemma_foliation_ok_parts(t);
    let f = t.stored_foliation()->0;
    let m = t.mesh_spec();
    let n = m.labels().len() as int;
    let num = f.sizes().len() as u32;
    assert forall|v: int| 0 <= v < n implies (#[trigger] m.labels()[v]) is Some && m.labels()[v]->0 < t.spec_time_slices() by {
        lemma_no_label_error(m.labels(), n, num, v);
    };
    let live = live_sizes(m.labels(), num);
    assert forall|s: int| 0 <= s < num implies live[s] == f.sizes()[s] by {
        lemma_no_size_mismatch(f.sizes(), live, num as int, s);
    };
    assert(live =~= f.sizes());
}

/// A slice scan without a wrap-around error links every scanned slice to its
/// periodic successor.
proof fn lemma_no_wrap_error_links(m: CdtMesh, total: u32, k: int)
    requires
        0 <= k <= total,
        first_wrap_error(m, total, k) is None,
    ensures
        forall|s: int| 0 <= s < k ==> slices_linked(m, total, s as u32, #[trigger] wrap_next(total, s as u32)),
    decreases k,
{
    if k > 0 {
        lemma_no_wrap_error_links(m, total, k - 1);
    }
}

/// A toroidal triangulation whose foliation passes validation is closed in
/// time: for every slice `s` some edge joins a vertex labeled `s` to a vertex
/// labeled `(s + 1) mod T`, the last slice to slice 0 included.
#[verifier::spinoff_prover]
#[verifier::rlimit(40)]
pub proof fn lemma_valid_torus_closed_in_time(t: CdtTriangulation)
    requires
        t.wf(),
        t.stored_foliation() is Some,
        t.spec_topology() == CdtTopology::Toroidal,
        t.spec_time_slices() >= 2,
        foliation_result(t) is Ok,
    ensures
        forall|s: int|
            #![trigger (s + 1) % (t.spec_time_slices() as int)]
            0 <= s < t.spec_time_slices() ==> exists|e: int|
                0 <= e < t.mesh_spec().edges().len() && {
                    let la = t.mesh_spec().labels()[#[trigger] t.mesh_spec().edges()[e].a as int];
                    let lb = t.mesh_spec().labels()[t.mesh_spec().edges()[e].b as int];
                    let next = (s + 1) % (t.spec_time_slices() as int);
                    ||| la == Some(s as u32) && lb == Some(next as u32)
                    ||| la == Some(next as u32) && lb == Some(s as u32)
                },
{
    t.lemma_wf();
    lemma_foliation_ok_parts(t);
    let m = t.mesh_spec();
    let total = t.spec_time_slices();
    let sizes = t.stored_foliation()->0.sizes();
    assert(toroidal_error(m, sizes, total) is None);
    assert(first_wrap_error(m, total, total as int) is None);
    lemma_no_wrap_error_links(m, total, total as int);
    assert forall|s: int|
        #![trigger (s + 1) % (total as int)]
        0 <= s < total implies exists|e: int|
            0 <= e < m.edges().len() && {
                let la = m.labels()[#[trigger] m.edges()[e].a as int];
                let lb = m.labels()[m.edges()[e].b as int];
                let next = (s + 1) % (total as int);
                ||| la == Some(s as u32) && lb == Some(next as u32)
                ||| la == Some(next as u32) && lb == Some(s as u32)
            } by {
        assert(slices_linked(m, total, s as u32, wrap_next(total, s as u32)));
        let e = choose|e: int| 0 <= e < m.edges().len() && #[trigger] edge_links(m, total, e, s as u32, wrap_next(total, s as u32));
        assert(wrap_next(total, s as u32) == (s + 1) % (total as int));
        assert(edge_links(m, total, e, s as u32, wrap_next(total, s as u32)));
    };
}

/// A slab scan without a crossing error leaves every scanned slab without one.
proof fn lemma_no_slab_error_each(m: CdtMesh, orders: Seq<Seq<usize>>, k: int)
    requires
        0 <= k,
        first_slab_error(m, orders, k) is None,
    ensures
        forall|s: int| 0 <= s < k ==> #[trigger] slab_result(m, orders, s as u32) is None,
    decreases k,
{
    if k > 0 {
        lemma_no_slab_error_each(m, orders, k - 1);
    }
}

/// Every timelike edge of a slab among the first `k` edges is listed.
proof fn lemma_slab_edge_listed(m: CdtMesh, lower_slice: u32, k: int, e: int)
    requires
        0 <= e < k,
        slab_edge(m, e, lower_slice) is Some,
    ensures
        exists|i: int|
            0 <= i < slab_edges_upto(m, lower_slice, k).len() && #[trigger] slab_edges_upto(m, lower_slice, k)[i]
                == slab_edge(m, e, lower_slice)->0,
    decreases k,
{
    let prev = slab_edges_upto(m, lower_slice, k - 1);
    if e < k - 1 {
        lemma_slab_edge_listed(m, lower_slice, k - 1, e);
        let i = choose|i: int| 0 <= i < prev.len() && #[trigger] prev[i] == slab_edge(m, e, lower_slice)->0;
        match slab_edge(m, k - 1, lower_slice) {
            Some(se) => assert(prev.push(se)[i] == prev[i]),
            None => {},
        }
        assert(slab_edges_upto(m, lower_slice, k)[i] == slab_edge(m, e, lower_slice)->0);
    } else {
        assert(slab_edges_upto(m, lower_slice, k)[prev.len() as int] == slab_edge(m, e, lower_slice)->0);
    }
}

/// An interval scan without an error leaves every scanned slice with a
/// spatial order.
proof fn lemma_no_interval_error_each(m: CdtMesh, sizes: Seq<usize>, k: int)
    requires
        0 <= k,
        first_interval_error(m, sizes, k) is None,
    ensures
        forall|s: int| 0 <= s < k ==> #[trigger] interval_result(m, sizes.len() as u32, s as u32, sizes[s]) is Ok,
    decreases k,
{
    if k > 0 {
        lemma_no_interval_error_each(m, sizes, k - 1);
    }
}

/// In a duplicate-free order, each entry's position is its index.
proof fn lemma_positions_of_distinct(order: Seq<usize>, n: nat, k: int)
    requires
        order.no_duplicates(),
        0 <= k <= order.len(),
        forall|i: int| 0 <= i < order.len() ==> (#[trigger] order[i]) < n,
    ensures
        positions_from(order, n, k).len() == n,
        forall|i: int| 0 <= i < k ==> positions_from(order, n, k)[#[trigger] order[i] as int] == Some(i as usize),
    decreases k,
{
    lemma_positions_len(order, n, k);
    if k > 0 {
        lemma_positions_of_distinct(order, n, k - 1);
        assert forall|i: int| 0 <= i < k implies positions_from(order, n, k)[#[trigger] order[i] as int] == Some(i as usize) by {
            if i < k - 1 {
                assert(order[i] != order[k - 1]);
            }
        };
    }
}

/// In an open-boundary triangulation whose foliation passes validation, every
/// slice is one spacelike path: its spatial order lists each vertex of the
/// slice exactly once, and nothing else, in strictly increasing spatial rank,
/// with an edge joining each entry to the next.
pub proof fn lemma_valid_open_slices_in_rank_order(t: CdtTriangulation)
    requires
        t.wf(),
        t.stored_foliation() is Some,
        t.spec_topology() == CdtTopology::OpenBoundary,
        t.mesh_spec().labels().len() <= usize::MAX,
        foliation_result(t) is Ok,
    ensures
        forall|s: int|
            #![trigger interval_orders(t.mesh_spec(), t.stored_foliation()->0.sizes())[s]]
            0 <= s < t.spec_time_slices() ==> {
                let m = t.mesh_spec();
                let order = interval_orders(m, t.stored_foliation()->0.sizes())[s];
                &&& order.len() == label_count(m.labels(), m.labels().len() as int, s as u32)
                &&& order.no_duplicates()
                &&& ranks_increase(m, order)
                &&& forall|i: int|
                    0 <= i < order.len() ==> (#[trigger] order[i]) < m.labels().len() && m.labels()[order[i] as int]
                        == Some(s as u32)
                &&& forall|v: int|
                    0 <= v < m.labels().len() && #[trigger] m.labels()[v] == Some(s as u32) ==> order.contains(v as usize)
                &&& forall|i: int| 0 <= i < order.len() - 1 ==> #[trigger] joined_in_path(m, order, i)
            },
{
    t.lemma_wf();
    lemma_foliation_ok_parts(t);
    let m = t.mesh_spec();
    let sizes = t.stored_foliation()->0.sizes();
    assert(first_interval_error(m, sizes, sizes.len() as int) is None);
    lemma_no_interval_error_each(m, sizes, sizes.len() as int);
    assert forall|s: int|
        #![trigger interval_orders(m, sizes)[s]]
        0 <= s < t.spec_time_slices() implies {
        let order = interval_orders(m, sizes)[s];
        &&& order.len() == label_count(m.labels(), m.labels().len() as int, s as u32)
        &&& order.no_duplicates()
        &&& ranks_increase(m, order)
        &&& forall|i: int|
            0 <= i < order.len() ==> (#[trigger] order[i]) < m.labels().len() && m.labels()[order[i] as int] == Some(s as u32)
        &&& forall|v: int| 0 <= v < m.labels().len() && #[trigger] m.labels()[v] == Some(s as u32) ==> order.contains(v as usize)
        &&& forall|i: int| 0 <= i < order.len() - 1 ==> #[trigger] joined_in_path(m, order, i)
    } by {
        assert(interval_result(m, sizes.len() as u32, s as u32, sizes[s]) is Ok);
        lemma_interval_ok_order(m, sizes.len() as u32, s as u32, sizes[s]);
    };
}

/// A slice holding two distinct vertices counts at least two.
proof fn lemma_two_in_slice(labels: Seq<Option<u32>>, slice: u32, v: int, w: int)
    requires
        labels.len() <= usize::MAX,
        0 <= v < labels.len(),
        0 <= w < labels.len(),
        v != w,
        labels[v] == Some(slice),
        labels[w] == Some(slice),
    ensures
        label_count(labels, labels.len() as int, slice) >= 2,
{
    let all = slice_vertices(labels, labels.len() as int, slice);
    lemma_label_count_is_size(labels, labels.len() as int, slice);
    let pair = Set::<usize>::empty().insert(v as usize).insert(w as usize);
    assert(pair.len() == 2);
    assert(pair.subset_of(all));
    vstd::set_lib::lemma_len_subset(pair, all);
}

/// In an open-boundary triangulation whose foliation passes validation, the
/// only vertex of a one-vertex slice has no spacelike neighbour, and every
/// vertex of a larger slice has one or two.
pub proof fn lemma_valid_open_spacelike_degrees(t: CdtTriangulation)
    requires
        t.wf(),
        t.stored_foliation() is Some,
        t.spec_topology() == CdtTopology::OpenBoundary,
        t.mesh_spec().labels().len() <= usize::MAX,
        foliation_result(t) is Ok,
    ensures
        forall|v: int|
            #![trigger neighbors(t.mesh_spec(), t.spec_time_slices(), v)]
            0 <= v < t.mesh_spec().labels().len() ==> {
                let m = t.mesh_spec();
                let s = m.labels()[v]->0;
                let d = neighbors(m, t.spec_time_slices(), v).len();
                if label_count(m.labels(), m.labels().len() as int, s) == 1 {
                    d == 0
                } else {
                    d == 1 || d == 2
                }
            },
{
    t.lemma_wf();
    lemma_foliation_ok_parts(t);
    lemma_valid_foliation_labels(t);
    let m = t.mesh_spec();
    let total = t.spec_time_slices();
    let sizes = t.stored_foliation()->0.sizes();
    let n = m.labels().len() as int;
    assert(first_interval_error(m, sizes, sizes.len() as int) is None);
    lemma_no_interval_error_each(m, sizes, sizes.len() as int);
    assert forall|v: int|
        #![trigger neighbors(m, total, v)]
        0 <= v < n implies {
        let s = m.labels()[v]->0;
        let d = neighbors(m, total, v).len();
        if label_count(m.labels(), n, s) == 1 {
            d == 0
        } else {
            d == 1 || d == 2
        }
    } by {
        let s = m.labels()[v]->0;
        assert(m.labels()[v] == Some(s) && s < total);
        assert(interval_result(m, total, s, sizes[s as int]) is Ok);
        assert(label_count(m.labels(), n, s) == sizes[s as int]);
        if sizes[s as int] == 1 {
            lemma_least_labeled(m.labels(), s, v);
            let first = first_in_slice(m.labels(), s)->0;
            assert(first < n && m.labels()[first as int] == Some(s));
            if first != v {
                lemma_two_in_slice(m.labels(), s, v, first as int);
            }
        } else {
            lemma_interval_degree_scan(m, total, s, n, v);
        }
    };
}

/// In an open-boundary triangulation whose foliation passes validation, no
/// two timelike edges of a slab cross: for edges `l1-u1` and `l2-u2` with `l1`,
/// `l2` in one slice and `u1`, `u2` in the next, and `l1 != l2`, `u1 != u2`,
/// it is never the case that `l1` has a smaller spatial rank than `l2` while
/// `u1` has a larger one than `u2`.
#[verifier::spinoff_prover]
#[verifier::rlimit(40)]
pub proof fn lemma_valid_open_slabs_do_not_cross(t: CdtTriangulation)
    requires
        t.wf(),
        t.stored_foliation() is Some,
        t.spec_topology() == CdtTopology::OpenBoundary,
        t.mesh_spec().labels().len() <= usize::MAX,
        foliation_result(t) is Ok,
    ensures
        forall|e1: int, e2: int, l1: usize, u1: usize, l2: usize, u2: usize|
            0 <= e1 < t.mesh_spec().edges().len() && 0 <= e2 < t.mesh_spec().edges().len() && #[trigger] edge_joins(
                t.mesh_spec(),
                e1,
                l1,
                u1,
            ) && #[trigger] edge_joins(t.mesh_spec(), e2, l2, u2) && t.mesh_spec().labels()[l1 as int] is Some
                && t.mesh_spec().labels()[u1 as int] is Some && t.mesh_spec().labels()[u1 as int]->0
                == t.mesh_spec().labels()[l1 as int]->0 + 1 && t.mesh_spec().labels()[l2 as int]
                == t.mesh_spec().labels()[l1 as int] && t.mesh_spec().labels()[u2 as int]
                == t.mesh_spec().labels()[u1 as int] && l1 != l2 && u1 != u2 ==> !(t.mesh_spec().ranks()[l1 as int]
                < t.mesh_spec().ranks()[l2 as int] && t.mesh_spec().ranks()[u1 as int] > t.mesh_spec().ranks()[u2 as int]),
{
    let m = t.mesh_spec();
    assert forall|e1: int, e2: int, l1: usize, u1: usize, l2: usize, u2: usize|
        0 <= e1 < m.edges().len() && 0 <= e2 < m.edges().len() && #[trigger] edge_joins(m, e1, l1, u1)
            && #[trigger] edge_joins(m, e2, l2, u2) && m.labels()[l1 as int] is Some && m.labels()[u1 as int] is Some
            && m.labels()[u1 as int]->0 == m.labels()[l1 as int]->0 + 1 && m.labels()[l2 as int] == m.labels()[l1 as int]
            && m.labels()[u2 as int] == m.labels()[u1 as int] && l1 != l2 && u1 != u2 implies !(m.ranks()[l1 as int]
            < m.ranks()[l2 as int] && m.ranks()[u1 as int] > m.ranks()[u2 as int]) by {
        lemma_open_slab_pair_ordered(t, e1, e2, l1, u1, l2, u2);
    };
}

/// One pair of edges of [`lemma_valid_open_slabs_do_not_cross`]: crossing by
/// rank would be a crossing the slab check reports.
#[verifier::spinoff_prover]
#[verifier::rlimit(40)]
proof fn lemma_open_slab_pair_ordered(t: CdtTriangulation, e1: int, e2: int, l1: usize, u1: usize, l2: usize, u2: usize)
    requires
        t.wf(),
        t.stored_foliation() is Some,
        t.spec_topology() == CdtTopology::OpenBoundary,
        t.mesh_spec().labels().len() <= usize::MAX,
        foliation_result(t) is Ok,
        0 <= e1 < t.mesh_spec().edges().len(),
        0 <= e2 < t.mesh_spec().edges().len(),
        edge_joins(t.mesh_spec(), e1, l1, u1),
        edge_joins(t.mesh_spec(), e2, l2, u2),
        t.mesh_spec().labels()[l1 as int] is Some,
        t.mesh_spec().labels()[u1 as int] is Some,
        t.mesh_spec().labels()[u1 as int]->0 == t.mesh_spec().labels()[l1 as int]->0 + 1,
        t.mesh_spec().labels()[l2 as int] == t.mesh_spec().labels()[l1 as int],
        t.mesh_spec().labels()[u2 as int] == t.mesh_spec().labels()[u1 as int],
        l1 != l2,
        u1 != u2,
    ensures
        !(t.mesh_spec().ranks()[l1 as int] < t.mesh_spec().ranks()[l2 as int] && t.mesh_spec().ranks()[u1 as int]
            > t.mesh_spec().ranks()[u2 as int]),
{
    if t.mesh_spec().ranks()[l1 as int] < t.mesh_spec().ranks()[l2 as int] && t.mesh_spec().ranks()[u1 as int]
        > t.mesh_spec().ranks()[u2 as int] {
        lemma_open_slab_crossing_listed(t, e1, e2, l1, u1, l2, u2);
        lemma_foliation_ok_parts(t);
        let m = t.mesh_spec();
        let sizes = t.stored_foliation()->0.sizes();
        let orders = interval_orders(m, sizes);
        assert(open_boundary_error(m, sizes) is None);
        assert(first_slab_error(m, orders, sizes.len() - 1) is None);
        lemma_no_slab_error_each(m, orders, sizes.len() - 1);
        assert(slab_result(m, orders, m.labels()[l1 as int]->0) is None);
    }
}

/// Two edges crossing by rank form a crossing of the slab's edge list.
#[verifier::spinoff_prover]
#[verifier::rlimit(40)]
proof fn lemma_open_slab_crossing_listed(t: CdtTriangulation, e1: int, e2: int, l1: usize, u1: usize, l2: usize, u2: usize)
    requires
        t.wf(),
        t.stored_foliation() is Some,
        t.spec_topology() == CdtTopology::OpenBoundary,
        t.mesh_spec().labels().len() <= usize::MAX,
        foliation_result(t) is Ok,
        0 <= e1 < t.mesh_spec().edges().len(),
        0 <= e2 < t.mesh_spec().edges().len(),
        edge_joins(t.mesh_spec(), e1, l1, u1),
        edge_joins(t.mesh_spec(), e2, l2, u2),
        t.mesh_spec().labels()[l1 as int] is Some,
        t.mesh_spec().labels()[u1 as int] is Some,
        t.mesh_spec().labels()[u1 as int]->0 == t.mesh_spec().labels()[l1 as int]->0 + 1,
        t.mesh_spec().labels()[l2 as int] == t.mesh_spec().labels()[l1 as int],
        t.mesh_spec().labels()[u2 as int] == t.mesh_spec().labels()[u1 as int],
        l1 != l2,
        u1 != u2,
        t.mesh_spec().ranks()[l1 as int] < t.mesh_spec().ranks()[l2 as int],
        t.mesh_spec().ranks()[u1 as int] > t.mesh_spec().ranks()[u2 as int],
    ensures
        ({
            let m = t.mesh_spec();
            let s = m.labels()[l1 as int]->0;
            let orders = interval_orders(m, t.stored_foliation()->0.sizes());
            &&& s + 1 < t.stored_foliation()->0.sizes().len()
            &&& slab_result(m, orders, s) is Some
        }),
{
    t.lemma_wf();
    lemma_foliation_ok_parts(t);
    lemma_valid_foliation_labels(t);
    lemma_valid_open_slices_in_rank_order(t);
    let m = t.mesh_spec();
    let total = t.spec_time_slices();
    let sizes = t.stored_foliation()->0.sizes();
    let orders = interval_orders(m, sizes);
    let n = m.labels().len();
    let s = m.labels()[l1 as int]->0;
    assert(u1 < n);
    assert(m.labels()[u1 as int]->0 < total);
    let lower = orders[s as int];
    let upper = orders[s + 1];
    assert(m.labels()[l1 as int] == Some(s));
    assert(m.labels()[u1 as int] == Some((s + 1) as u32));
    assert(lower.contains(l1) && lower.contains(l2));
    assert(upper.contains(u1) && upper.contains(u2));
    lemma_label_count_bounded(m.labels(), n as int, s);
    lemma_label_count_bounded(m.labels(), n as int, (s + 1) as u32);
    lemma_rank_crossing_listed(m, orders, s, e1, e2, l1, u1, l2, u2);
}

/// An edge joining a vertex of slice `s` to one of slice `s + 1` is a
/// timelike edge of the slab above `s`, oriented from the first to the second.
proof fn lemma_slab_edge_of_join(m: CdtMesh, s: u32, e: int, l: usize, u: usize)
    requires
        edge_joins(m, e, l, u),
        m.labels()[l as int] == Some(s),
        m.labels()[u as int] == Some((s + 1) as u32),
        s + 1 <= u32::MAX,
    ensures
        slab_edge(m, e, s) == Some(SlabEdge { lower: l, upper: u }),
{
    let edge = m.edges()[e];
    assert(crate::foliation::label_gap(s, (s + 1) as u32) == 1);
    assert(crate::foliation::label_gap((s + 1) as u32, s) == 1);
    assert(crate::foliation::min_u32(s, (s + 1) as u32) == s);
    assert(crate::foliation::min_u32((s + 1) as u32, s) == s);
    if edge.a == l {
        assert(edge.b == u);
    } else {
        assert(edge.a == u && edge.b == l);
    }
}

/// With the spatial orders of two consecutive slices listing their vertices
/// in increasing rank, two edges of the slab that cross by rank are a
/// crossing of the slab's edge list.
#[verifier::spinoff_prover]
#[verifier::rlimit(40)]
proof fn lemma_rank_crossing_listed(
    m: CdtMesh,
    orders: Seq<Seq<usize>>,
    s: u32,
    e1: int,
    e2: int,
    l1: usize,
    u1: usize,
    l2: usize,
    u2: usize,
)
    requires
        m.consistent(),
        s < u32::MAX,
        s + 1 < orders.len(),
        orders[s as int].len() <= usize::MAX,
        orders[s + 1].len() <= usize::MAX,
        orders[s as int].no_duplicates(),
        orders[s + 1].no_duplicates(),
        ranks_increase(m, orders[s as int]),
        ranks_increase(m, orders[s + 1]),
        forall|i: int| 0 <= i < orders[s as int].len() ==> (#[trigger] orders[s as int][i]) < m.labels().len(),
        forall|i: int| 0 <= i < orders[s + 1].len() ==> (#[trigger] orders[s + 1][i]) < m.labels().len(),
        orders[s as int].contains(l1),
        orders[s as int].contains(l2),
        orders[s + 1].contains(u1),
        orders[s + 1].contains(u2),
        0 <= e1 < m.edges().len(),
        0 <= e2 < m.edges().len(),
        edge_joins(m, e1, l1, u1),
        edge_joins(m, e2, l2, u2),
        m.labels()[l1 as int] == Some(s),
        m.labels()[l2 as int] == Some(s),
        m.labels()[u1 as int] == Some((s + 1) as u32),
        m.labels()[u2 as int] == Some((s + 1) as u32),
        l1 != l2,
        u1 != u2,
        m.ranks()[l1 as int] < m.ranks()[l2 as int],
        m.ranks()[u1 as int] > m.ranks()[u2 as int],
    ensures
        slab_result(m, orders, s) is Some,
{
    let n = m.labels().len();
    let f = SlabEdge { lower: l1, upper: u1 };
    let g = SlabEdge { lower: l2, upper: u2 };
    lemma_slab_edge_of_join(m, s, e1, l1, u1);
    lemma_slab_edge_of_join(m, s, e2, l2, u2);
    let ne = m.edges().len() as int;
    let edges = slab_edges_upto(m, s, ne);
    lemma_slab_edge_listed(m, s, ne, e1);
    lemma_slab_edge_listed(m, s, ne, e2);
    let i1 = choose|i: int| 0 <= i < edges.len() && #[trigger] edges[i] == f;
    let i2 = choose|i: int| 0 <= i < edges.len() && #[trigger] edges[i] == g;
    let lower = orders[s as int];
    let upper = orders[s + 1];
    let p1 = choose|i: int| 0 <= i < lower.len() && lower[i] == l1;
    let p2 = choose|i: int| 0 <= i < lower.len() && lower[i] == l2;
    let q1 = choose|i: int| 0 <= i < upper.len() && upper[i] == u1;
    let q2 = choose|i: int| 0 <= i < upper.len() && upper[i] == u2;
    assert(p1 < p2) by {
        if p2 < p1 {
            assert(m.ranks()[lower[p2] as int] < m.ranks()[lower[p1] as int]);
        }
    };
    assert(q2 < q1) by {
        if q1 < q2 {
            assert(m.ranks()[upper[q1] as int] < m.ranks()[upper[q2] as int]);
        }
    };
    let lo = order_positions(lower, n);
    let hi = order_positions(upper, n);
    lemma_positions_of_distinct(lower, n, lower.len() as int);
    lemma_positions_of_distinct(upper, n, upper.len() as int);
    assert(lo[l1 as int] == Some(p1 as usize));
    assert(lo[l2 as int] == Some(p2 as usize));
    assert(hi[u1 as int] == Some(q1 as usize));
    assert(hi[u2 as int] == Some(q2 as usize));
    assert(crosses(edges, lo, hi, i1, i2));
}

/// The position table has one entry per vertex.
proof fn lemma_positions_len(order: Seq<usize>, n: nat, k: int)
    ensures
        positions_from(order, n, k).len() == n,
    decreases k,
{
    if k > 0 {
        lemma_positions_len(order, n, k - 1);
    }
}

/// The endpoints of a slice lie in it.
proof fn lemma_endpoints_in_slice(m: CdtMesh, num_slices: u32, slice: u32, k: int)
    requires
        0 <= k <= m.labels().len(),
        m.labels().len() <= usize::MAX,
    ensures
        forall|i: int|
            0 <= i < endpoints_upto(m, num_slices, slice, k).len() ==> (#[trigger] endpoints_upto(m, num_slices, slice, k)[i])
                < k && m.labels()[endpoints_upto(m, num_slices, slice, k)[i] as int] == Some(slice),
    decreases k,
{
    if k > 0 {
        lemma_endpoints_in_slice(m, num_slices, slice, k - 1);
        let prev = endpoints_upto(m, num_slices, slice, k - 1);
        if m.labels()[k - 1] == Some(slice) && neighbors(m, num_slices, k - 1).len() == 1 {
            assert forall|i: int| 0 <= i < prev.len() implies prev.push((k - 1) as usize)[i] == prev[i] by {};
        }
    }
}

/// Strictly increasing ranks visit no vertex twice.
proof fn lemma_rank_order_distinct(m: CdtMesh, order: Seq<usize>)
    requires
        ranks_increase(m, order),
    ensures
        order.no_duplicates(),
{
    assert forall|i: int, j: int| 0 <= i < order.len() && 0 <= j < order.len() && i != j implies order[i] != order[j] by {
        if i < j {
            assert(m.ranks()[order[i] as int] < m.ranks()[order[j] as int]);
        } else {
            assert(m.ranks()[order[j] as int] < m.ranks()[order[i] as int]);
        }
    };
}

/// A slice that passes the open-interval check yields its spatial order: every
/// vertex of the slice once, and nothing else, in strictly increasing rank.
#[verifier::spinoff_prover]
#[verifier::rlimit(40)]
proof fn lemma_interval_ok_order(m: CdtMesh, num_slices: u32, slice: u32, expected: usize)
    requires
        m.consistent(),
        m.labels().len() <= usize::MAX,
        interval_result(m, num_slices, slice, expected) is Ok,
    ensures
        ({
            let order = interval_result(m, num_slices, slice, expected)->Ok_0;
            &&& order.len() == label_count(m.labels(), m.labels().len() as int, slice)
            &&& order.no_duplicates()
            &&& ranks_increase(m, order)
            &&& forall|i: int|
                0 <= i < order.len() ==> (#[trigger] order[i]) < m.labels().len() && m.labels()[order[i] as int] == Some(slice)
            &&& forall|v: int|
                0 <= v < m.labels().len() && #[trigger] m.labels()[v] == Some(slice) ==> order.contains(v as usize)
            &&& forall|i: int| 0 <= i < order.len() - 1 ==> #[trigger] joined_in_path(m, order, i)
        }),
{
    let n = m.labels().len() as int;
    let order = interval_result(m, num_slices, slice, expected)->Ok_0;
    assert(label_count(m.labels(), n, slice) == expected);
    if expected == 1 {
        lemma_slice_count_positive(m.labels(), n, slice);
        let w = choose|w: int| 0 <= w < n && m.labels()[w] == Some(slice);
        lemma_least_labeled(m.labels(), slice, w);
        assert(order.len() == 1);
    } else {
        let ends = endpoints_upto(m, num_slices, slice, n);
        lemma_endpoints_in_slice(m, num_slices, slice, n);
        let start = ends[0];
        assert(start < n && m.labels()[start as int] == Some(slice));
        let k = interval_stop(m, num_slices, start);
        let path = interval_path(m, num_slices, start, k);
        assert forall|i: int| 0 <= i < path.len() implies (#[trigger] path[i]) < n && m.labels()[path[i] as int] == Some(slice) by {
            lemma_interval_walk_in_slice(m, num_slices, slice, start, i as nat);
        };
        lemma_interval_path_joined(m, num_slices, slice, start);
        if ranks_increase(m, path) {
            assert(order == path);
        } else {
            assert forall|i: int| 0 <= i < order.len() - 1 implies #[trigger] joined_in_path(m, order, i) by {
                let j = path.len() - 2 - i;
                assert(joined_in_path(m, path, j));
                let e = choose|e: int| 0 <= e < m.edges().len() && #[trigger] edge_joins(m, e, path[j], path[j + 1]);
                assert(order[i] == path[j + 1]);
                assert(order[i + 1] == path[j]);
                assert(edge_joins(m, e, order[i], order[i + 1]));
            };
            assert(order == path.reverse());
            assert forall|i: int, j: int| 0 <= i < j < order.len() implies m.ranks()[order[i] as int] < m.ranks()[order[j] as int] by {
                assert(order[i] == path[path.len() - 1 - i]);
                assert(order[j] == path[path.len() - 1 - j]);
            };
            assert forall|i: int| 0 <= i < order.len() implies (#[trigger] order[i]) < n && m.labels()[order[i] as int] == Some(slice) by {
                assert(order[i] == path[path.len() - 1 - i]);
            };
        }
    }
    lemma_rank_order_distinct(m, order);
    lemma_full_sequence_covers(m.labels(), slice, order);
}

/// Some edge joins entry `i` of `path` to entry `i + 1`.
pub open spec fn joined_in_path(m: CdtMesh, path: Seq<usize>, i: int) -> bool {
    exists|e: int| 0 <= e < m.edges().len() && #[trigger] edge_joins(m, e, path[i], path[i + 1])
}

/// Below any stopping step of the interval walk lies a first one.
proof fn lemma_least_interval_stop(m: CdtMesh, num_slices: u32, start: usize, k: nat)
    requires
        interval_stops_at(m, num_slices, start, k),
    ensures
        forall|j: nat| j < interval_stop(m, num_slices, start) ==> !(#[trigger] interval_stops_at(m, num_slices, start, j)),
    decreases k,
{
    if exists|j: nat| j < k && #[trigger] interval_stops_at(m, num_slices, start, j) {
        let j = choose|j: nat| j < k && #[trigger] interval_stops_at(m, num_slices, start, j);
        lemma_least_interval_stop(m, num_slices, start, j);
    } else {
        lemma_interval_stop_is(m, num_slices, start, k);
    }
}

/// The interval walk from a vertex of `slice` stops, and before its first
/// stop each step moves along an edge.
#[verifier::spinoff_prover]
proof fn lemma_interval_path_joined(m: CdtMesh, num_slices: u32, slice: u32, start: usize)
    requires
        m.consistent(),
        start < m.labels().len(),
        m.labels()[start as int] == Some(slice),
    ensures
        forall|i: int|
            0 <= i < interval_stop(m, num_slices, start) ==> #[trigger] joined_in_path(
                m,
                interval_path(m, num_slices, start, interval_stop(m, num_slices, start)),
                i,
            ),
{
    let n = m.labels().len() as int;
    let w = Seq::new((n + 1) as nat, |i: int| interval_at(m, num_slices, start, i as nat) as int);
    assert forall|i: int| 0 <= i < w.len() implies 0 <= #[trigger] w[i] < n by {
        lemma_interval_walk_in_slice(m, num_slices, slice, start, i as nat);
    };
    lemma_pigeonhole(w, n);
    let (i1, i2) = choose|i1: int, i2: int| 0 <= i1 < w.len() && 0 <= i2 < w.len() && i1 != i2 && w[i1] == w[i2];
    let hi: nat = if i1 < i2 { i2 as nat } else { i1 as nat };
    let lo: nat = if i1 < i2 { i1 as nat } else { i2 as nat };
    assert(interval_at(m, num_slices, start, lo) == interval_at(m, num_slices, start, hi));
    assert(interval_repeats(m, num_slices, start, hi));
    lemma_least_interval_stop(m, num_slices, start, hi);
    let k = interval_stop(m, num_slices, start);
    let path = interval_path(m, num_slices, start, k);
    assert forall|i: int| 0 <= i < k implies #[trigger] joined_in_path(m, path, i) by {
        let (p, c) = interval_step(m, num_slices, start, i as nat);
        assert(!interval_stops_at(m, num_slices, start, i as nat));
        let x = interval_next(m, num_slices, p, c)->0;
        assert(interval_at(m, num_slices, start, (i + 1) as nat) == x);
        assert(path[i] == c);
        assert(path[i + 1] == x);
        lemma_interval_walk_in_slice(m, num_slices, slice, start, i as nat);
        let nb = neighbors(m, num_slices, c as int);
        let j: int = if nb.len() > 0 && Some(nb[0]) != p { 0 } else { 1 };
        assert(x == nb[j]);
        lemma_neighbor_edge(m, num_slices, c as int, m.edges().len() as int, j);
        let e = choose|e: int| 0 <= e < m.edges().len() && #[trigger] edge_joins(m, e, c, nb[j]);
        assert(edge_joins(m, e, path[i], path[i + 1]));
    };
}

/// Edge `e` joins vertices `x` and `y`, in either direction.
pub open spec fn edge_joins(m: CdtMesh, e: int, x: usize, y: usize) -> bool {
    let edge = m.edges()[e];
    (edge.a == x && edge.b == y) || (edge.a == y && edge.b == x)
}

/// `cyc` runs once through as many distinct vertices as `slice` holds, all
/// labeled `slice`, each joined by an edge to the next and the last to the
/// first: a closed ring around the slice.
pub open spec fn is_slice_ring(m: CdtMesh, slice: u32, cyc: Seq<usize>) -> bool {
    &&& cyc.len() == label_count(m.labels(), m.labels().len() as int, slice)
    &&& cyc.no_duplicates()
    &&& forall|i: int| 0 <= i < cyc.len() ==> (#[trigger] cyc[i]) < m.labels().len() && m.labels()[cyc[i] as int] == Some(slice)
    &&& forall|i: int| 0 <= i < cyc.len() ==> #[trigger] joined_to_next(m, cyc, i)
    &&& forall|v: int| 0 <= v < m.labels().len() && #[trigger] m.labels()[v] == Some(slice) ==> cyc.contains(v as usize)
}

/// The vertices among the first `k` labeled `slice`.
pub open spec fn slice_vertices(labels: Seq<Option<u32>>, k: int, slice: u32) -> Set<usize> {
    Set::new(|v: usize| (v as int) < k && labels[v as int] == Some(slice))
}

/// `label_count` counts the vertices of a slice.
proof fn lemma_label_count_is_size(labels: Seq<Option<u32>>, k: int, slice: u32)
    requires
        0 <= k <= labels.len(),
        labels.len() <= usize::MAX,
    ensures
        slice_vertices(labels, k, slice).finite(),
        slice_vertices(labels, k, slice).len() == label_count(labels, k, slice),
    decreases k,
{
    if k <= 0 {
        assert(slice_vertices(labels, k, slice) =~= Set::<usize>::empty());
    } else {
        lemma_label_count_is_size(labels, k - 1, slice);
        let prev = slice_vertices(labels, k - 1, slice);
        let last = (k - 1) as usize;
        if labels[k - 1] == Some(slice) {
            assert(slice_vertices(labels, k, slice) =~= prev.insert(last));
            assert(!prev.contains(last));
        } else {
            assert(slice_vertices(labels, k, slice) =~= prev);
        }
    }
}

/// A duplicate-free sequence of vertices of a slice, as long as the slice,
/// holds every vertex of the slice.
proof fn lemma_full_sequence_covers(labels: Seq<Option<u32>>, slice: u32, cyc: Seq<usize>)
    requires
        labels.len() <= usize::MAX,
        cyc.no_duplicates(),
        cyc.len() == label_count(labels, labels.len() as int, slice),
        forall|i: int| 0 <= i < cyc.len() ==> (#[trigger] cyc[i]) < labels.len() && labels[cyc[i] as int] == Some(slice),
    ensures
        forall|v: int| 0 <= v < labels.len() && #[trigger] labels[v] == Some(slice) ==> cyc.contains(v as usize),
{
    let n = labels.len() as int;
    let all = slice_vertices(labels, n, slice);
    lemma_label_count_is_size(labels, n, slice);
    cyc.unique_seq_to_set();
    assert forall|x: usize| cyc.to_set().contains(x) implies all.contains(x) by {
        let i = choose|i: int| 0 <= i < cyc.len() && cyc[i] == x;
    };
    vstd::set_lib::lemma_len_subset(cyc.to_set(), all);
    vstd::set_lib::lemma_subset_equality(cyc.to_set(), all);
    assert forall|v: int| 0 <= v < labels.len() && #[trigger] labels[v] == Some(slice) implies cyc.contains(v as usize) by {
        assert(all.contains(v as usize));
        assert(cyc.to_set().contains(v as usize));
    };
}

/// Some edge joins entry `i` of `cyc` to the next entry, the last to the first.
pub open spec fn joined_to_next(m: CdtMesh, cyc: Seq<usize>, i: int) -> bool {
    exists|e: int| 0 <= e < m.edges().len() && #[trigger] edge_joins(m, e, cyc[i], cyc[(i + 1) % cyc.len() as int])
}

/// Some cycle is a closed ring around `slice`.
pub open spec fn slice_is_ring(m: CdtMesh, slice: u32) -> bool {
    exists|cyc: Seq<usize>| is_slice_ring(m, slice, cyc)
}

/// Every spacelike neighbour of `v` is joined to `v` by an edge.
proof fn lemma_neighbor_edge(m: CdtMesh, num_slices: u32, v: int, k: int, i: int)
    requires
        0 <= k <= m.edges().len(),
        0 <= i < neighbors_from(m, num_slices, v, k).len(),
    ensures
        exists|e: int| 0 <= e < k && #[trigger] edge_joins(m, e, v as usize, neighbors_from(m, num_slices, v, k)[i]),
    decreases k,
{
    let prev = neighbors_from(m, num_slices, v, k - 1);
    let edge = m.edges()[k - 1];
    let w = neighbors_from(m, num_slices, v, k)[i];
    if i < prev.len() {
        if is_spacelike_edge(m, num_slices, k - 1) {
            let p1 = if edge.a == v { prev.push(edge.b) } else { prev };
            assert(p1[i] == prev[i]);
            if edge.b == v {
                assert(p1.push(edge.a)[i] == p1[i]);
            }
        }
        lemma_neighbor_edge(m, num_slices, v, k - 1, i);
        let e = choose|e: int| 0 <= e < k - 1 && #[trigger] edge_joins(m, e, v as usize, prev[i]);
        assert(edge_joins(m, e, v as usize, w));
    } else {
        assert(edge_joins(m, k - 1, v as usize, w));
    }
}

/// The ring walk from a vertex of `slice` stays in `slice`, and each step
/// moves to a spacelike neighbour of the vertex it leaves.
#[verifier::spinoff_prover]
proof fn lemma_ring_walk_in_slice(m: CdtMesh, num_slices: u32, slice: u32, start: usize, j: nat)
    requires
        m.consistent(),
        start < m.labels().len(),
        m.labels()[start as int] == Some(slice),
        first_ring_degree_error(m, num_slices, slice, m.labels().len() as int) is None,
    ensures
        ring_step(m, num_slices, start, j).0 < m.labels().len(),
        ring_step(m, num_slices, start, j).1 < m.labels().len(),
        m.labels()[ring_step(m, num_slices, start, j).0 as int] == Some(slice),
        m.labels()[ring_step(m, num_slices, start, j).1 as int] == Some(slice),
        exists|e: int|
            0 <= e < m.edges().len() && #[trigger] edge_joins(
                m,
                e,
                ring_step(m, num_slices, start, j).0,
                ring_step(m, num_slices, start, j).1,
            ),
    decreases j,
{
    let n = m.labels().len() as int;
    let prev = ring_step(m, num_slices, start, j).0;
    if j > 0 {
        lemma_ring_walk_in_slice(m, num_slices, slice, start, (j - 1) as nat);
    }
    lemma_ring_degree_scan(m, num_slices, slice, n, prev as int);
    lemma_neighbors_facts(m, num_slices, prev as int);
    let nb = neighbors(m, num_slices, prev as int);
    assert(nb[0] < n && m.labels()[nb[0] as int] == m.labels()[prev as int]);
    assert(nb[1] < n && m.labels()[nb[1] as int] == m.labels()[prev as int]);
    let cur = ring_step(m, num_slices, start, j).1;
    let i: int = if cur == nb[0] { 0 } else { 1 };
    assert(cur == nb[i]);
    lemma_neighbor_edge(m, num_slices, prev as int, m.edges().len() as int, i);
    let e = choose|e: int| 0 <= e < m.edges().len() && #[trigger] edge_joins(m, e, prev, nb[i]);
    assert(edge_joins(m, e, prev, cur));
}

/// `n + 1` distinct integers cannot all lie in `0..n`.
proof fn lemma_pigeonhole(w: Seq<int>, n: int)
    requires
        0 <= n,
        w.len() == n + 1,
        forall|i: int| 0 <= i < w.len() ==> 0 <= #[trigger] w[i] < n,
    ensures
        !w.no_duplicates(),
{
    if w.no_duplicates() {
        w.unique_seq_to_set();
        vstd::set_lib::lemma_int_range(0, n);
        assert forall|x: int| w.to_set().contains(x) implies vstd::set_lib::set_int_range(0, n).contains(x) by {
            let i = choose|i: int| 0 <= i < w.len() && w[i] == x;
        };
        vstd::set_lib::lemma_len_subset(w.to_set(), vstd::set_lib::set_int_range(0, n));
    }
}

/// A stopping step exists, so some step is the first at which the walk stops.
proof fn lemma_ring_stop_exists(m: CdtMesh, num_slices: u32, slice: u32, start: usize)
    requires
        m.consistent(),
        start < m.labels().len(),
        m.labels()[start as int] == Some(slice),
        first_ring_degree_error(m, num_slices, slice, m.labels().len() as int) is None,
    ensures
        ring_stops_at(m, num_slices, start, ring_stop(m, num_slices, start)),
        forall|j: nat| j < ring_stop(m, num_slices, start) ==> !(#[trigger] ring_stops_at(m, num_slices, start, j)),
{
    let n = m.labels().len() as int;
    let w = Seq::new((n + 1) as nat, |i: int| ring_at(m, num_slices, start, i as nat) as int);
    assert forall|i: int| 0 <= i < w.len() implies 0 <= #[trigger] w[i] < n by {
        lemma_ring_walk_in_slice(m, num_slices, slice, start, i as nat);
    };
    lemma_pigeonhole(w, n);
    let (i1, i2) = choose|i1: int, i2: int| 0 <= i1 < w.len() && 0 <= i2 < w.len() && i1 != i2 && w[i1] == w[i2];
    let hi: nat = if i1 < i2 { i2 as nat } else { i1 as nat };
    let lo: nat = if i1 < i2 { i1 as nat } else { i2 as nat };
    assert(ring_at(m, num_slices, start, lo) == ring_at(m, num_slices, start, hi));
    assert(ring_stops_at(m, num_slices, start, hi));
    lemma_least_stop(m, num_slices, start, hi);
}

/// Below any stopping step lies a first one.
proof fn lemma_least_stop(m: CdtMesh, num_slices: u32, start: usize, k: nat)
    requires
        ring_stops_at(m, num_slices, start, k),
    ensures
        ring_stops_at(m, num_slices, start, ring_stop(m, num_slices, start)),
        forall|j: nat| j < ring_stop(m, num_slices, start) ==> !(#[trigger] ring_stops_at(m, num_slices, start, j)),
    decreases k,
{
    if exists|j: nat| j < k && #[trigger] ring_stops_at(m, num_slices, start, j) {
        let j = choose|j: nat| j < k && #[trigger] ring_stops_at(m, num_slices, start, j);
        lemma_least_stop(m, num_slices, start, j);
    } else {
        lemma_ring_stop_is(m, num_slices, start, k);
    }
}

/// A ring scan without an error leaves every scanned slice without one.
proof fn lemma_no_ring_error_each(m: CdtMesh, sizes: Seq<usize>, k: int)
    requires
        0 <= k,
        first_ring_error(m, sizes, k) is None,
    ensures
        forall|s: int| 0 <= s < k ==> #[trigger] ring_result(m, sizes.len() as u32, s as u32, sizes[s]) is None,
    decreases k,
{
    if k > 0 {
        lemma_no_ring_error_each(m, sizes, k - 1);
    }
}

/// Below any vertex of `slice` lies a first one.
proof fn lemma_least_labeled(labels: Seq<Option<u32>>, slice: u32, v: int)
    requires
        0 <= v < labels.len(),
        labels[v] == Some(slice),
    ensures
        exists|c: int|
            0 <= c < labels.len() && labels[c] == Some(slice) && forall|w: int| 0 <= w < c ==> labels[w] != Some(slice),
    decreases v,
{
    if exists|w: int| 0 <= w < v && labels[w] == Some(slice) {
        let w = choose|w: int| 0 <= w < v && labels[w] == Some(slice);
        lemma_least_labeled(labels, slice, w);
    } else {
        assert(forall|w: int| 0 <= w < v ==> labels[w] != Some(slice));
    }
}

/// The vertices the ring walk from `start` visits up to its first stop,
/// `start` first.
pub open spec fn walk_cycle(m: CdtMesh, num_slices: u32, start: usize) -> Seq<usize> {
    Seq::new(
        ring_stop(m, num_slices, start) + 1,
        |i: int| if i == 0 { start } else { ring_at(m, num_slices, start, (i - 1) as nat) },
    )
}

/// When the walk stops by closing, each visited vertex lies in the slice and
/// is joined by an edge to the next one, the last to `start`.
proof fn lemma_walk_cycle_step(m: CdtMesh, num_slices: u32, slice: u32, start: usize, i: int)
    requires
        m.consistent(),
        start < m.labels().len(),
        m.labels()[start as int] == Some(slice),
        first_ring_degree_error(m, num_slices, slice, m.labels().len() as int) is None,
        ring_at(m, num_slices, start, ring_stop(m, num_slices, start)) == start,
        0 <= i < walk_cycle(m, num_slices, start).len(),
    ensures
        walk_cycle(m, num_slices, start)[i] < m.labels().len(),
        m.labels()[walk_cycle(m, num_slices, start)[i] as int] == Some(slice),
        joined_to_next(m, walk_cycle(m, num_slices, start), i),
{
    let cyc = walk_cycle(m, num_slices, start);
    let k = ring_stop(m, num_slices, start);
    if i < k {
        vstd::arithmetic::div_mod::lemma_small_mod((i + 1) as nat, cyc.len());
    } else {
        vstd::arithmetic::div_mod::lemma_mod_self_0(cyc.len() as int);
    }
    assert(cyc[i] == ring_step(m, num_slices, start, i as nat).0);
    assert(cyc[(i + 1) % cyc.len() as int] == ring_step(m, num_slices, start, i as nat).1);
    lemma_ring_walk_in_slice(m, num_slices, slice, start, i as nat);
}

/// Before its first stop the walk visits no vertex twice.
proof fn lemma_walk_cycle_distinct(m: CdtMesh, num_slices: u32, start: usize)
    requires
        forall|j: nat| j < ring_stop(m, num_slices, start) ==> !(#[trigger] ring_stops_at(m, num_slices, start, j)),
    ensures
        walk_cycle(m, num_slices, start).no_duplicates(),
{
    let cyc = walk_cycle(m, num_slices, start);
    assert forall|i: int, j: int| 0 <= i < j < cyc.len() implies cyc[i] != cyc[j] by {
        let b = (j - 1) as nat;
        assert(!ring_stops_at(m, num_slices, start, b));
        assert(cyc[j] == ring_at(m, num_slices, start, b));
        if i > 0 {
            let a = (i - 1) as nat;
            assert(cyc[i] == ring_at(m, num_slices, start, a));
            assert(a < b);
        }
    };
}

/// A slice that passes the closed-ring check is a closed ring through as many
/// vertices as it holds.
#[verifier::spinoff_prover]
#[verifier::rlimit(40)]
proof fn lemma_ring_ok_is_ring(m: CdtMesh, num_slices: u32, slice: u32, expected: usize)
    requires
        m.consistent(),
        m.labels().len() <= usize::MAX,
        ring_result(m, num_slices, slice, expected) is None,
    ensures
        slice_is_ring(m, slice),
{
    let n = m.labels().len() as int;
    match first_in_slice(m.labels(), slice) {
        None => {
            if label_count(m.labels(), n, slice) > 0 {
                lemma_slice_count_positive(m.labels(), n, slice);
            }
            assert(is_slice_ring(m, slice, Seq::<usize>::empty()));
        },
        Some(start) => {
            let w = choose|w: int| 0 <= w < m.labels().len() && m.labels()[w] == Some(slice);
            lemma_least_labeled(m.labels(), slice, w);
            lemma_ring_stop_exists(m, num_slices, slice, start);
            let cyc = walk_cycle(m, num_slices, start);
            lemma_walk_cycle_distinct(m, num_slices, start);
            assert forall|i: int| 0 <= i < cyc.len() implies (#[trigger] cyc[i]) < m.labels().len() && m.labels()[cyc[i] as int] == Some(slice) by {
                lemma_walk_cycle_step(m, num_slices, slice, start, i);
            };
            assert forall|i: int| 0 <= i < cyc.len() implies #[trigger] joined_to_next(m, cyc, i) by {
                lemma_walk_cycle_step(m, num_slices, slice, start, i);
            };
            assert(cyc.len() == label_count(m.labels(), n, slice));
            lemma_full_sequence_covers(m.labels(), slice, cyc);
            assert(is_slice_ring(m, slice, cyc));
        },
    }
}

/// In a toroidal triangulation whose foliation passes validation, every slice
/// is one closed spacelike ring: a cycle through every vertex of that slice
/// once, each joined by an edge to the next and the last to the first; and
/// every vertex has exactly two spacelike neighbours.
#[verifier::spinoff_prover]
#[verifier::rlimit(40)]
pub proof fn lemma_valid_torus_slices_are_rings(t: CdtTriangulation)
    requires
        t.wf(),
        t.stored_foliation() is Some,
        t.spec_topology() == CdtTopology::Toroidal,
        t.mesh_spec().labels().len() <= usize::MAX,
        foliation_result(t) is Ok,
    ensures
        forall|s: u32| s < t.spec_time_slices() ==> #[trigger] slice_is_ring(t.mesh_spec(), s),
        forall|v: int|
            0 <= v < t.mesh_spec().labels().len() ==> (#[trigger] neighbors(t.mesh_spec(), t.spec_time_slices(), v)).len()
                == 2,
{
    t.lemma_wf();
    lemma_foliation_ok_parts(t);
    lemma_valid_foliation_labels(t);
    let m = t.mesh_spec();
    let total = t.spec_time_slices();
    let sizes = t.stored_foliation()->0.sizes();
    let n = m.labels().len() as int;
    assert(toroidal_error(m, sizes, total) is None);
    lemma_no_ring_error_each(m, sizes, sizes.len() as int);
    assert forall|s: u32| s < total implies #[trigger] slice_is_ring(m, s) by {
        assert(ring_result(m, sizes.len() as u32, s, sizes[s as int]) is None);
        lemma_ring_ok_is_ring(m, sizes.len() as u32, s, sizes[s as int]);
    };
    assert forall|v: int| 0 <= v < n implies (#[trigger] neighbors(m, total, v)).len() == 2 by {
        let s = m.labels()[v]->0;
        assert(m.labels()[v] == Some(s) && s < total);
        assert(ring_result(m, sizes.len() as u32, s, sizes[s as int]) is None);
        assert(label_count(m.labels(), n, s) == sizes[s as int]);
        lemma_ring_degree_scan(m, total, s, n, v);
    };
}

proof fn lemma_foliation_ok_parts(t: CdtTriangulation)
    requires
        t.wf(),
        t.stored_foliation() is Some,
        foliation_result(t) is Ok,
    ensures
        t.has_current(),
        t.stored_foliation()->0.sizes().len() == t.spec_time_slices(),
        first_label_error(
            t.mesh_spec().labels(),
            t.mesh_spec().labels().len() as int,
            t.stored_foliation()->0.sizes().len() as u32,
        ) is None,
        first_size_mismatch(
            t.stored_foliation()->0.sizes(),
            live_sizes(t.mesh_spec().labels(), t.stored_foliation()->0.sizes().len() as u32),
            t.stored_foliation()->0.sizes().len() as int,
        ) is None,
        t.spec_topology() == CdtTopology::Toroidal ==> toroidal_error(
            t.mesh_spec(),
            t.stored_foliation()->0.sizes(),
            t.spec_time_slices(),
        ) is None,
        t.spec_topology() == CdtTopology::OpenBoundary ==> open_boundary_error(
            t.mesh_spec(),
            t.stored_foliation()->0.sizes(),
        ) is None,
{
    t.lemma_wf();
}

proof fn lemma_no_label_error(labels: Seq<Option<u32>>, n: int, num_slices: u32, v: int)
    requires
        0 <= v < n,
        first_label_error(labels, n, num_slices) is None,
    ensures
        labels[v] is Some && labels[v]->0 < num_slices,
    decreases n,
{
    if v < n - 1 {
        lemma_no_label_error(labels, n - 1, num_slices, v);
    }
}

proof fn lemma_no_size_mismatch(stored: Seq<usize>, live: Seq<usize>, k: int, s: int)
    requires
        0 <= s < k,
        first_size_mismatch(stored, live, k) is None,
    ensures
        stored[s] == live[s],
    decreases k,
{
    if s < k - 1 {
        lemma_no_size_mismatch(stored, live, k - 1, s);
    }
}

/// Under a foliation that passes validation, the causality check and the
/// strict simplex classification check agree: one passes exactly when the
/// other does.
pub proof fn lemma_valid_foliation_causality_iff_classification(t: CdtTriangulation)
    requires
        t.wf(),
        t.stored_foliation() is Some,
        foliation_result(t) is Ok,
    ensures
        t.causality_result() is Ok <==> first_non_strict(t, t.mesh_spec().faces().len() as int) is None,
{
    t.lemma_wf();
    lemma_valid_foliation_labels(t);
    assert(labels_usable(t));
    lemma_causality_iff_classification(t, t.mesh_spec().faces().len() as int);
}

} // verus!
