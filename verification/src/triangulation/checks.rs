//! Whole-triangulation validation: the CDT-domain checks in their fixed
//! order, and the named profiles that put a geometry predicate in front.

use super::queries::{first_non_strict, non_strict_error};
use super::state::CdtTriangulation;
use super::validation::foliation_result;
use crate::errors::{CdtError, DelaunayValidationLevel, FoliationError};
use crate::text::{decimal, owned, push_decimal};
use vstd::prelude::*;
use vstd::string::*;

verus! {

/// Named invariant sets for validating a CDT triangulation.
///
/// Every profile requires foliation bookkeeping and valid CDT topology,
/// foliation, causality and strict simplex classification. The profiles differ
/// in the geometry predicate put in front: [`Self::Evolved`] asks for a valid
/// straight-line embedding, [`Self::InitialDelaunay`] and
/// [`Self::StrictDelaunay`] for the Delaunay empty-circumcircle property.
#[derive(Debug, Clone, Copy, PartialEq, Eq, Hash)]
pub enum CdtValidationProfile {
    /// Initial Delaunay-backed CDT state before Monte Carlo evolution.
    InitialDelaunay,
    /// Evolved CDT state, which need not remain Delaunay.
    Evolved,
    /// Strict validation requiring an evolved state to remain Delaunay.
    StrictDelaunay,
}

/// A failed geometry predicate, as the geometry backend reports it.
#[derive(Debug, Clone, PartialEq, Eq)]
pub enum GeometryCheckError {
    /// The backend's validator rejected the mesh with this diagnostic.
    ValidationFailed { detail: String },
    /// Any other backend failure, with its rendered message.
    Other { message: String },
}

/// The diagnostic text a geometry failure contributes.
pub open spec fn detail_of(error: GeometryCheckError) -> Seq<char> {
    match error {
        GeometryCheckError::ValidationFailed { detail } => detail@,
        GeometryCheckError::Other { message } => message@,
    }
}

/// Extracts the validator's own diagnostic from a geometry failure.
pub fn validation_detail(error: GeometryCheckError) -> (detail: String)
    ensures
        detail@ == detail_of(error),
{
    match error {
        GeometryCheckError::ValidationFailed { detail } => detail,
        GeometryCheckError::Other { message } => message,
    }
}

/// The embedding-failure diagnostic: the validator's text followed by the
/// mesh counts.
pub open spec fn embedding_detail(detail: Seq<char>, vertices: nat, edges: nat, faces: nat) -> Seq<char> {
    detail + "; triangulation counts: V="@ + decimal(vertices) + ", E="@ + decimal(edges) + ", F="@ + decimal(
        faces,
    )
}

/// Every CDT-domain check passes.
pub open spec fn domain_checks_pass(t: CdtTriangulation) -> bool {
    &&& t.stored_foliation() is Some
    &&& t.metadata_and_topology_ok()
    &&& foliation_result(t) is Ok
    &&& t.causality_result() is Ok
    &&& first_non_strict(t, t.mesh_spec().faces().len() as int) is None
}

/// `e` is the error of the first failing CDT-domain check: missing foliation,
/// topology, foliation, causality, then strict classification.
pub open spec fn domain_error_matches(t: CdtTriangulation, e: CdtError) -> bool {
    if t.stored_foliation() is None {
        e == CdtError::Foliation(FoliationError::MissingBookkeeping)
    } else if !t.metadata_and_topology_ok() {
        t.topology_error_matches(e)
    } else if foliation_result(t) is Err {
        e == foliation_result(t)->Err_0
    } else if t.causality_result() is Err {
        e == t.causality_result()->Err_0
    } else {
        first_non_strict(t, t.mesh_spec().faces().len() as int) matches Some(k) && e == non_strict_error(k)
    }
}

/// `e` is the error a named validation profile reports for `t`, given the
/// outcome of the profile's geometry predicate.
pub open spec fn profile_error_matches(
    t: CdtTriangulation,
    profile: CdtValidationProfile,
    geometry: Result<(), GeometryCheckError>,
    e: CdtError,
) -> bool {
    if t.stored_foliation() is None {
        e == CdtError::Foliation(FoliationError::MissingBookkeeping)
    } else if geometry is Err {
        match profile {
            CdtValidationProfile::Evolved => e matches CdtError::DelaunayValidationFailed { level, detail } && level
                == DelaunayValidationLevel::Four && detail@ == embedding_detail(
                detail_of(geometry->Err_0),
                t.mesh_spec().labels().len(),
                t.mesh_spec().edges().len(),
                t.mesh_spec().faces().len(),
            ),
            _ => e matches CdtError::DelaunayValidationFailed { level, detail } && level == DelaunayValidationLevel::Five
                && detail@ == detail_of(geometry->Err_0),
        }
    } else {
        domain_error_matches(t, e)
    }
}

impl CdtTriangulation {
    /// Runs the CDT-domain checks in order: foliation present, topology,
    /// foliation, causality, strict simplex classification.
    ///
    /// # Errors
    ///
    /// The error of the first failing check, as [`domain_error_matches`]
    /// states.
    pub fn validate_domain(&self) -> (result: Result<(), CdtError>)
        requires
            self.wf(),
        ensures
            result is Ok <==> domain_checks_pass(*self),
            result matches Err(e) ==> domain_error_matches(*self, e),
    {
        if !self.has_stored_foliation() {
            return Err(CdtError::Foliation(FoliationError::MissingBookkeeping));
        }
        self.validate_topology()?;
        self.validate_foliation()?;
        self.validate_causality()?;
        proof {
            super::validation::lemma_valid_foliation_labels(*self);
        }
        self.validate_simplex_classification()
    }

    /// Validates the state a labeled constructor hands out, and stores the
    /// classification of every face.
    ///
    /// # Errors
    ///
    /// The error of the first failing CDT-domain check, as
    /// [`domain_error_matches`] states; the triangulation is unchanged then.
    pub fn validate_initial_cdt(&mut self) -> (result: Result<(), CdtError>)
        requires
            old(self).wf(),
        ensures
            final(self).wf(),
            result is Ok <==> domain_checks_pass(*old(self)),
            result matches Err(e) ==> domain_error_matches(*old(self), e),
            result is Ok ==> final(self).classified_from(*old(self)),
            result is Err ==> final(self).same_state(*old(self)),
    {
        if !self.has_stored_foliation() {
            return Err(CdtError::Foliation(FoliationError::MissingBookkeeping));
        }
        self.validate_topology()?;
        self.validate_foliation()?;
        self.validate_causality()?;
        proof {
            super::validation::lemma_valid_foliation_labels(*self);
        }
        match self.classify_all_simplices() {
            Ok(_) => Ok(()),
            Err(e) => Err(e),
        }
    }

    /// Maps a failed embedding check to the public error, adding the mesh
    /// counts to the diagnostic.
    fn embedding_failure(&self, error: GeometryCheckError) -> (e: CdtError)
        requires
            self.wf(),
        ensures
            e matches CdtError::DelaunayValidationFailed { level, detail } && level == DelaunayValidationLevel::Four
                && detail@ == embedding_detail(
                detail_of(error),
                self.mesh_spec().labels().len(),
                self.mesh_spec().edges().len(),
                self.mesh_spec().faces().len(),
            ),
    {
        proof {
            reveal_strlit("; triangulation counts: V=");
            reveal_strlit(", E=");
            reveal_strlit(", F=");
        }
        let mut detail = validation_detail(error);
        detail.append("; triangulation counts: V=");
        push_decimal(&mut detail, self.vertex_count() as u64);
        detail.append(", E=");
        push_decimal(&mut detail, self.geometry().edge_count() as u64);
        detail.append(", F=");
        push_decimal(&mut detail, self.face_count() as u64);
        CdtError::DelaunayValidationFailed { level: DelaunayValidationLevel::Four, detail }
    }

    /// Validates against a named profile, given the outcome of the profile's
    /// geometry predicate (embedding validity for [`CdtValidationProfile::Evolved`],
    /// the Delaunay property otherwise), which the geometry backend computes.
    ///
    /// # Errors
    ///
    /// [`FoliationError::MissingBookkeeping`] without foliation; then a failed
    /// geometry predicate as [`CdtError::DelaunayValidationFailed`] (level four
    /// with the mesh counts appended for embeddings, level five for the
    /// Delaunay property); then the first failing CDT-domain check.
    pub fn validate_with_profile(&self, profile: CdtValidationProfile, geometry: Result<(), GeometryCheckError>) -> (result:
        Result<(), CdtError>)
        requires
            self.wf(),
        ensures
            result is Ok <==> (geometry is Ok && domain_checks_pass(*self)),
            self.stored_foliation() is None ==> result == Err::<(), CdtError>(
                CdtError::Foliation(FoliationError::MissingBookkeeping),
            ),
            self.stored_foliation() is Some && geometry is Err ==> (match profile {
                CdtValidationProfile::Evolved => result matches Err(CdtError::DelaunayValidationFailed { level, detail })
                    && level == DelaunayValidationLevel::Four && detail@ == embedding_detail(
                    detail_of(geometry->Err_0),
                    self.mesh_spec().labels().len(),
                    self.mesh_spec().edges().len(),
                    self.mesh_spec().faces().len(),
                ),
                _ => result matches Err(CdtError::DelaunayValidationFailed { level, detail }) && level
                    == DelaunayValidationLevel::Five && detail@ == detail_of(geometry->Err_0),
            }),
            self.stored_foliation() is Some && geometry is Ok ==> (result matches Err(e) ==> domain_error_matches(
                *self,
                e,
            )),
            result matches Err(e) ==> profile_error_matches(*self, profile, geometry, e),
    {
        if !self.has_stored_foliation() {
            return Err(CdtError::Foliation(FoliationError::MissingBookkeeping));
        }
        if let Err(error) = geometry {
            return Err(
                match profile {
                    CdtValidationProfile::Evolved => self.embedding_failure(error),
                    _ => CdtError::DelaunayValidationFailed {
                        level: DelaunayValidationLevel::Five,
                        detail: validation_detail(error),
                    },
                },
            );
        }
        self.validate_domain()
    }

    /// Validates an evolved state: the [`CdtValidationProfile::Evolved`]
    /// profile.
    ///
    /// # Errors
    ///
    /// As [`Self::validate_with_profile`] with that profile.
    pub fn validate(&self, embedding: Result<(), GeometryCheckError>) -> (result: Result<(), CdtError>)
        requires
            self.wf(),
        ensures
            result is Ok <==> (embedding is Ok && domain_checks_pass(*self)),
            self.stored_foliation() is None ==> result == Err::<(), CdtError>(
                CdtError::Foliation(FoliationError::MissingBookkeeping),
            ),
            self.stored_foliation() is Some && embedding is Err ==> (result matches Err(
                CdtError::DelaunayValidationFailed { level, detail },
            ) && level == DelaunayValidationLevel::Four && detail@ == embedding_detail(
                detail_of(embedding->Err_0),
                self.mesh_spec().labels().len(),
                self.mesh_spec().edges().len(),
                self.mesh_spec().faces().len(),
            )),
            self.stored_foliation() is Some && embedding is Ok ==> (result matches Err(e) ==> domain_error_matches(
                *self,
                e,
            )),
    {
        self.validate_with_profile(CdtValidationProfile::Evolved, embedding)
    }
}

} // verus!
