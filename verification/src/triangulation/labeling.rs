//! Writing time labels and rebuilding foliation bookkeeping from them.

use super::queries::{first_non_strict, non_strict_error};
use super::state::{minimum_time_slices, time_slice_error_matches, CdtTriangulation};
use super::validation::{
    first_label_error, label_count, lemma_label_count_bounded, lemma_live_sizes_total, live_sizes,
    live_slice_sizes_from_vertex_labels,
};
use crate::errors::{CdtError, FoliationError};
use crate::foliation::{first_empty_slice, Foliation};
use vstd::prelude::*;

verus! {

/// What classifying the faces of `mid` leaves behind.
pub open spec fn resync_classified(mid: CdtTriangulation, after: CdtTriangulation, result: Result<(), CdtError>) -> bool {
    match first_non_strict(mid, mid.mesh_spec().faces().len() as int) {
        None => result is Ok && after.classified_from(mid),
        Some(k) => {
            &&& result == Err::<(), CdtError>(non_strict_error(k))
            &&& after.mesh_spec() == mid.mesh_spec()
            &&& after.spec_time_slices() == mid.spec_time_slices()
            &&& after.spec_dimension() == mid.spec_dimension()
            &&& after.spec_topology() == mid.spec_topology()
            &&& after.spec_modification_count() == mid.spec_modification_count()
            &&& after.stored_foliation() is None
            &&& after.synced_at() is None
        },
    }
}

/// The outcome of [`CdtTriangulation::synchronize_foliation_from_live_labels`]
/// from the state `before`.
pub open spec fn resync_outcome(before: CdtTriangulation, after: CdtTriangulation, result: Result<(), CdtError>) -> bool {
    let m = before.mesh_spec();
    let ts = before.spec_time_slices();
    let live = live_sizes(m.labels(), ts);
    let label_error = first_label_error(m.labels(), m.labels().len() as int, ts);
    if before.stored_foliation() is None {
        result is Ok && after.same_state(before)
    } else if label_error is Some {
        result == Err::<(), CdtError>(CdtError::Foliation(label_error->0)) && after.same_state(before)
    } else if first_empty_slice(live) is Some {
        &&& result == Err::<(), CdtError>(
            CdtError::Foliation(FoliationError::EmptySlice { slice: first_empty_slice(live)->0 as usize }),
        )
        &&& after.same_state(before)
    } else {
        exists|f: Foliation|
            f.sizes() == live && f.slices() == ts && #[trigger] resync_classified(
                before.with_current_foliation(f),
                after,
                result,
            )
    }
}

/// Time labels given by one band index per vertex.
pub open spec fn band_labels(bands: Seq<u32>) -> Seq<Option<u32>> {
    Seq::new(bands.len(), |v: int| Some(bands[v]))
}

/// The state after bands were written as labels and foliation rebuilt from
/// them: faces lose their classification payloads, the change counts as one
/// modification, and the new foliation is current.
pub open spec fn bands_assigned(after: CdtTriangulation, before: CdtTriangulation, bands: Seq<u32>, num_slices: u32) -> bool {
    let m = before.mesh_spec();
    &&& after.mesh_spec().labels() == band_labels(bands)
    &&& after.mesh_spec().ranks() == m.ranks()
    &&& after.mesh_spec().edges() == m.edges()
    &&& after.mesh_spec().faces() == m.faces()
    &&& after.mesh_spec().face_data() == Seq::new(m.faces().len(), |f: int| None::<i32>)
    &&& after.spec_time_slices() == num_slices
    &&& after.spec_dimension() == before.spec_dimension()
    &&& after.spec_topology() == before.spec_topology()
    &&& after.spec_modification_count() == (if before.spec_modification_count() == u64::MAX {
        1
    } else {
        (before.spec_modification_count() + 1) as u64
    })
    &&& after.has_current()
    &&& after.stored_foliation()->0.sizes() == live_sizes(band_labels(bands), num_slices)
    &&& after.stored_foliation()->0.slices() == num_slices
}

proof fn lemma_bands_labeled(bands: Seq<u32>, n: int, num_slices: u32)
    requires
        0 <= n <= bands.len(),
        forall|v: int| 0 <= v < bands.len() ==> bands[v] < num_slices,
    ensures
        first_label_error(band_labels(bands), n, num_slices) is None,
    decreases n,
{
    if n > 0 {
        lemma_bands_labeled(bands, n - 1, num_slices);
    }
}

/// Counts how many vertices each band holds.
fn band_sizes(bands: &Vec<u32>, num_slices: u32) -> (sizes: Vec<usize>)
    requires
        forall|v: int| 0 <= v < bands@.len() ==> bands@[v] < num_slices,
    ensures
        sizes@ == live_sizes(band_labels(bands@), num_slices),
{
    let ghost labels = band_labels(bands@);
    let mut sizes: Vec<usize> = Vec::new();
    let mut s: u32 = 0;
    while s < num_slices
        invariant
            s <= num_slices,
            sizes@.len() == s,
            forall|k: int| 0 <= k < s ==> sizes@[k] == 0,
        decreases num_slices - s,
    {
        sizes.push(0);
        s = s + 1;
    }
    let mut v: usize = 0;
    while v < bands.len()
        invariant
            labels == band_labels(bands@),
            forall|u: int| 0 <= u < bands@.len() ==> bands@[u] < num_slices,
            v <= bands@.len(),
            sizes@.len() == num_slices,
            forall|k: int| 0 <= k < num_slices ==> sizes@[k] == label_count(labels, v as int, k as u32),
        decreases bands@.len() - v,
    {
        let b = bands[v];
        proof { lemma_label_count_bounded(labels, v as int, b); }
        let c = sizes[b as usize];
        sizes.set(b as usize, c + 1);
        v = v + 1;
        assert forall|k: int| 0 <= k < num_slices implies sizes@[k] == label_count(labels, v as int, k as u32) by {
            assert(labels[v - 1] == Some(bands@[v - 1]));
        };
    }
    assert(sizes@ =~= live_sizes(labels, num_slices));
    sizes
}

impl CdtTriangulation {
    /// Rebuilds foliation bookkeeping from the live vertex labels after a
    /// geometry edit, then reclassifies every face.
    ///
    /// Does nothing without stored foliation. When reclassification fails the
    /// rebuilt bookkeeping is dropped again.
    ///
    /// # Errors
    ///
    /// The first missing or out-of-range label, an empty slice, or the first
    /// face that is not a strict CDT triangle, as [`resync_outcome`] states.
    pub fn synchronize_foliation_from_live_labels(&mut self) -> (result: Result<(), CdtError>)
        requires
            old(self).wf(),
        ensures
            final(self).wf(),
            resync_outcome(*old(self), *final(self), result),
    {
        proof { self.lemma_wf(); }
        if !self.has_stored_foliation() {
            return Ok(());
        }
        let ghost before = *self;
        let _n = self.vertex_count(); // the vertex count fits in usize
        let ts = self.time_slices();
        let sizes = match live_slice_sizes_from_vertex_labels(self.geometry(), ts) {
            Ok(sizes) => sizes,
            Err(e) => return Err(e),
        };
        proof {
            lemma_live_sizes_total(before.mesh_spec().labels(), ts);
        }
        let ghost live = sizes@;
        let foliation = match Foliation::from_slice_sizes(sizes, ts) {
            Ok(f) => f,
            Err(e) => return Err(CdtError::Foliation(e)),
        };
        let ghost fg = foliation;
        self.install_foliation(foliation, ts);
        let ghost mid = *self;
        let result = match self.classify_all_simplices() {
            Ok(_) => Ok(()),
            Err(e) => {
                self.drop_foliation();
                Err(e)
            },
        };
        proof {
            assert(mid == before.with_current_foliation(fg));
            assert(resync_classified(before.with_current_foliation(fg), *self, result));
        }
        result
    }

    /// Writes one band index per vertex as its time label and rebuilds
    /// foliation bookkeeping for `num_slices` slices from them.
    ///
    /// Every face loses its classification payload; the whole change counts
    /// as one modification and leaves the new foliation current.
    ///
    /// # Errors
    ///
    /// [`CdtError::InvalidTriangulationMetadata`] when `num_slices` is below
    /// the topology's minimum, then [`FoliationError::EmptySlice`] naming the
    /// first band that holds no vertex. The triangulation is unchanged on
    /// error.
    pub fn assign_foliation_from_bands(&mut self, bands: &Vec<u32>, num_slices: u32) -> (result: Result<(), CdtError>)
        requires
            old(self).wf(),
            num_slices > 0,
            bands@.len() == old(self).mesh_spec().labels().len(),
            forall|v: int| 0 <= v < bands@.len() ==> bands@[v] < num_slices,
        ensures
            final(self).wf(),
            num_slices < minimum_time_slices(old(self).spec_topology()) ==> (result matches Err(e)
                && time_slice_error_matches(e, old(self).spec_topology(), num_slices)),
            num_slices >= minimum_time_slices(old(self).spec_topology()) ==> match first_empty_slice(
                live_sizes(band_labels(bands@), num_slices),
            ) {
                Some(s) => result == Err::<(), CdtError>(
                    CdtError::Foliation(FoliationError::EmptySlice { slice: s as usize }),
                ),
                None => result is Ok,
            },
            result is Err ==> final(self).same_state(*old(self)),
            result is Ok ==> bands_assigned(*final(self), *old(self), bands@, num_slices),
    {
        proof { self.lemma_wf(); }
        let ghost before = *self;
        let ghost labels = band_labels(bands@);
        let _n = self.vertex_count(); // the vertex count fits in usize
        let sizes = band_sizes(bands, num_slices);
        Self::check_time_slices(self.topology(), num_slices)?;
        proof {
            lemma_bands_labeled(bands@, bands@.len() as int, num_slices);
            lemma_live_sizes_total(labels, num_slices);
        }
        let foliation = match Foliation::from_slice_sizes(sizes, num_slices) {
            Ok(f) => f,
            Err(e) => return Err(CdtError::Foliation(e)),
        };
        self.clear_face_data();
        self.write_band_labels(bands);
        assert(self.mesh_spec().labels() =~= labels);
        self.bump_modification_count();
        self.install_foliation(foliation, num_slices);
        Ok(())
    }

    /// Drops the classification payload of every face.
    fn clear_face_data(&mut self)
        requires
            old(self).wf(),
        ensures
            final(self).wf(),
            final(self).mesh_spec().labels() == old(self).mesh_spec().labels(),
            final(self).mesh_spec().ranks() == old(self).mesh_spec().ranks(),
            final(self).mesh_spec().edges() == old(self).mesh_spec().edges(),
            final(self).mesh_spec().faces() == old(self).mesh_spec().faces(),
            final(self).mesh_spec().face_data() == Seq::new(old(self).mesh_spec().faces().len(), |j: int| None::<i32>),
            final(self).spec_time_slices() == old(self).spec_time_slices(),
            final(self).spec_dimension() == old(self).spec_dimension(),
            final(self).spec_topology() == old(self).spec_topology(),
            final(self).spec_modification_count() == old(self).spec_modification_count(),
            final(self).stored_foliation() == old(self).stored_foliation(),
            final(self).synced_at() == old(self).synced_at(),
    {
        let ghost before = *self;
        proof { self.lemma_wf(); }
        let nf = self.face_count();
        let mut f: usize = 0;
        while f < nf
            invariant
                self.wf(),
                nf == self.mesh_spec().faces().len(),
                f <= nf,
                self.mesh_spec().labels() == before.mesh_spec().labels(),
                self.mesh_spec().ranks() == before.mesh_spec().ranks(),
                self.mesh_spec().edges() == before.mesh_spec().edges(),
                self.mesh_spec().faces() == before.mesh_spec().faces(),
                self.mesh_spec().face_data().len() == nf,
                forall|j: int| 0 <= j < f ==> self.mesh_spec().face_data()[j] is None,
                self.spec_time_slices() == before.spec_time_slices(),
                self.spec_dimension() == before.spec_dimension(),
                self.spec_topology() == before.spec_topology(),
                self.spec_modification_count() == before.spec_modification_count(),
                self.stored_foliation() == before.stored_foliation(),
                self.synced_at() == before.synced_at(),
            decreases nf - f,
        {
            self.set_face_data(f, None);
            f = f + 1;
        }
        assert(self.mesh_spec().face_data() =~= Seq::new(before.mesh_spec().faces().len(), |j: int| None::<i32>));
    }

    /// Writes `bands[v]` as the label of every vertex `v`.
    fn write_band_labels(&mut self, bands: &Vec<u32>)
        requires
            old(self).wf(),
            bands@.len() == old(self).mesh_spec().labels().len(),
        ensures
            final(self).wf(),
            final(self).mesh_spec().labels() == band_labels(bands@),
            final(self).mesh_spec().ranks() == old(self).mesh_spec().ranks(),
            final(self).mesh_spec().edges() == old(self).mesh_spec().edges(),
            final(self).mesh_spec().faces() == old(self).mesh_spec().faces(),
            final(self).mesh_spec().face_data() == old(self).mesh_spec().face_data(),
            final(self).spec_time_slices() == old(self).spec_time_slices(),
            final(self).spec_dimension() == old(self).spec_dimension(),
            final(self).spec_topology() == old(self).spec_topology(),
            final(self).spec_modification_count() == old(self).spec_modification_count(),
            final(self).stored_foliation() == old(self).stored_foliation(),
            final(self).synced_at() == old(self).synced_at(),
    {
        let ghost before = *self;
        let n = self.vertex_count();
        let mut v: usize = 0;
        while v < n
            invariant
                self.wf(),
                n == self.mesh_spec().labels().len(),
                n == bands@.len(),
                v <= n,
                forall|u: int| 0 <= u < v ==> self.mesh_spec().labels()[u] == Some(bands@[u]),
                self.mesh_spec().ranks() == before.mesh_spec().ranks(),
                self.mesh_spec().edges() == before.mesh_spec().edges(),
                self.mesh_spec().faces() == before.mesh_spec().faces(),
                self.mesh_spec().face_data() == before.mesh_spec().face_data(),
                self.spec_time_slices() == before.spec_time_slices(),
                self.spec_dimension() == before.spec_dimension(),
                self.spec_topology() == before.spec_topology(),
                self.spec_modification_count() == before.spec_modification_count(),
                self.stored_foliation() == before.stored_foliation(),
                self.synced_at() == before.synced_at(),
            decreases n - v,
        {
            self.write_vertex_label(v, Some(bands[v]));
            v = v + 1;
        }
        assert(self.mesh_spec().labels() =~= band_labels(bands@));
    }

    /// Replaces the time label of vertex `v`; counts as a modification, so
    /// stored foliation becomes stale.
    pub fn set_vertex_data(&mut self, v: usize, data: Option<u32>)
        requires
            old(self).wf(),
            v < old(self).mesh_spec().labels().len(),
        ensures
            final(self).wf(),
            final(self).mesh_spec().labels() == old(self).mesh_spec().labels().update(v as int, data),
            final(self).mesh_spec().ranks() == old(self).mesh_spec().ranks(),
            final(self).mesh_spec().edges() == old(self).mesh_spec().edges(),
            final(self).mesh_spec().faces() == old(self).mesh_spec().faces(),
            final(self).mesh_spec().face_data() == old(self).mesh_spec().face_data(),
            final(self).spec_time_slices() == old(self).spec_time_slices(),
            final(self).spec_dimension() == old(self).spec_dimension(),
            final(self).spec_topology() == old(self).spec_topology(),
            final(self).stored_foliation() == old(self).stored_foliation(),
            !final(self).has_current(),
            final(self).spec_modification_count() == (if old(self).spec_modification_count() == u64::MAX {
                1
            } else {
                (old(self).spec_modification_count() + 1) as u64
            }),
    {
        self.write_vertex_label(v, data);
        self.bump_modification_count();
    }
}

} // verus!
