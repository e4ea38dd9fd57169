//! Builders and their parameter rules.
//!
//! A builder validates its parameters, derives the vertex and face counts of
//! the mesh it asks for, hands mesh generation to a caller-supplied generator
//! (which places the points and triangulates them), checks that the generated
//! mesh has the requested size, attaches foliation bookkeeping for the
//! requested slices and validates the result as a strict CDT.

use crate::errors::{
    is_parameter_error, CdtError, CoordinateRange, DelaunayGenerationFailure, DelaunayGenerationQuantity, GenerationParameterIssue,
};
use super::checks::{
    domain_checks_pass, domain_error_matches, profile_error_matches, CdtValidationProfile, GeometryCheckError,
};
use super::state::{admissible_euler, minimum_time_slices, CdtTriangulation};
use crate::config::CdtTopology;
use super::state::time_slice_error_matches;
use super::validation::{first_label_error, lemma_live_sizes_total, live_sizes, live_slice_sizes_from_vertex_labels};
use crate::errors::FoliationError;
use crate::foliation::{find_empty_slice, first_empty_slice, total_of, Foliation};
use crate::mesh::{euler_of, CdtMesh};
use crate::text::{decimal, decimal_string, list_string, list_text, owned, push_decimal};
use vstd::prelude::*;
use vstd::string::*;

verus! {

/// A generation failure restated for a toroidal builder: its vertex count
/// and the one-based ordinal of the attempt.
pub open spec fn toroidal_remapped(error: CdtError, total_vertices: u32, attempt: u32) -> CdtError {
    match error {
        CdtError::DelaunayGenerationFailed { coordinate_range, failure, .. } => CdtError::DelaunayGenerationFailed {
            vertex_count: total_vertices,
            coordinate_range,
            attempt,
            failure,
        },
        other => other,
    }
}

/// Rewrites a toroidal generation failure with the builder's vertex count and
/// the one-based ordinal of the attempt; other errors pass unchanged.
pub fn remap_toroidal_generation_error(error: CdtError, total_vertices: u32, attempt: u32) -> (result: CdtError)
    ensures
        result == toroidal_remapped(error, total_vertices, attempt),
{
    match error {
        CdtError::DelaunayGenerationFailed { coordinate_range, failure, .. } => CdtError::DelaunayGenerationFailed {
            vertex_count: total_vertices,
            coordinate_range,
            attempt,
            failure,
        },
        other => other,
    }
}

/// The coordinate range of an open strip whose points reach `coordinate_max`.
pub open spec fn strip_range(coordinate_max: u32) -> CoordinateRange {
    CoordinateRange { start: 0, end: coordinate_max as i64 }
}

/// A generation failure restated for an open strip: the builder's vertex
/// count, its coordinate range and the single attempt.
pub open spec fn strip_remapped(error: CdtError, total_vertices: u32, coordinate_max: u32) -> CdtError {
    match error {
        CdtError::DelaunayGenerationFailed { failure, .. } => CdtError::DelaunayGenerationFailed {
            vertex_count: total_vertices,
            coordinate_range: strip_range(coordinate_max),
            attempt: 1,
            failure,
        },
        other => other,
    }
}

/// Rewrites an open-strip generation failure with the builder's vertex count,
/// its coordinate range and the single attempt; other errors pass unchanged.
pub fn remap_strip_generation_error(error: CdtError, total_vertices: u32, coordinate_max: u32) -> (result: CdtError)
    ensures
        result == strip_remapped(error, total_vertices, coordinate_max),
{
    match error {
        CdtError::DelaunayGenerationFailed { failure, .. } => strip_generation_error(
            total_vertices,
            coordinate_max,
            failure,
        ),
        other => other,
    }
}

/// The generation error of an open-strip builder.
pub fn strip_generation_error(total_vertices: u32, coordinate_max: u32, failure: DelaunayGenerationFailure) -> (e:
    CdtError)
    ensures
        e == (CdtError::DelaunayGenerationFailed {
            vertex_count: total_vertices,
            coordinate_range: strip_range(coordinate_max),
            attempt: 1,
            failure,
        }),
{
    CdtError::DelaunayGenerationFailed {
        vertex_count: total_vertices,
        coordinate_range: CoordinateRange { start: 0, end: coordinate_max as i64 },
        attempt: 1,
        failure,
    }
}

/// The generation error of a toroidal builder.
pub fn toroidal_generation_error(
    total_vertices: u32,
    coordinate_range: CoordinateRange,
    attempt: u32,
    failure: DelaunayGenerationFailure,
) -> (e: CdtError)
    ensures
        e == (CdtError::DelaunayGenerationFailed { vertex_count: total_vertices, coordinate_range, attempt, failure }),
{
    CdtError::DelaunayGenerationFailed { vertex_count: total_vertices, coordinate_range, attempt, failure }
}

/// The size-mismatch failure for a mesh with the given counts.
pub open spec fn size_mismatch(mesh: CdtMesh, expected_vertices: usize, expected_faces: usize) -> DelaunayGenerationFailure {
    DelaunayGenerationFailure::MeshSizeMismatch {
        actual_vertices: mesh.labels().len() as usize,
        expected_vertices,
        actual_faces: mesh.faces().len() as usize,
        expected_faces,
    }
}

/// The mesh has the requested vertex and face counts.
pub open spec fn has_size(mesh: CdtMesh, expected_vertices: usize, expected_faces: usize) -> bool {
    mesh.labels().len() == expected_vertices && mesh.faces().len() == expected_faces
}

/// Checks that an open-strip generator returned the requested mesh size.
///
/// # Errors
///
/// [`DelaunayGenerationFailure::MeshSizeMismatch`] inside the strip's
/// generation error when either count differs.
pub fn validate_strip_counts(
    mesh: &CdtMesh,
    total_vertices: u32,
    expected_vertices: usize,
    expected_faces: usize,
    coordinate_max: u32,
) -> (result: Result<(), CdtError>)
    requires
        mesh.consistent(),
    ensures
        has_size(*mesh, expected_vertices, expected_faces) ==> result is Ok,
        !has_size(*mesh, expected_vertices, expected_faces) ==> result == Err::<(), CdtError>(
            CdtError::DelaunayGenerationFailed {
                vertex_count: total_vertices,
                coordinate_range: strip_range(coordinate_max),
                attempt: 1,
                failure: size_mismatch(*mesh, expected_vertices, expected_faces),
            },
        ),
{
    if mesh.vertex_count() != expected_vertices || mesh.face_count() != expected_faces {
        return Err(
            strip_generation_error(
                total_vertices,
                coordinate_max,
                DelaunayGenerationFailure::MeshSizeMismatch {
                    actual_vertices: mesh.vertex_count(),
                    expected_vertices,
                    actual_faces: mesh.face_count(),
                    expected_faces,
                },
            ),
        );
    }
    Ok(())
}

/// Checks that a toroidal generator returned the requested mesh size.
///
/// # Errors
///
/// [`DelaunayGenerationFailure::MeshSizeMismatch`] inside the toroidal
/// generation error for this attempt when either count differs.
pub fn validate_toroidal_counts(
    mesh: &CdtMesh,
    total_vertices: u32,
    expected_vertices: usize,
    expected_faces: usize,
    coordinate_range: CoordinateRange,
    attempt: u32,
) -> (result: Result<(), CdtError>)
    requires
        mesh.consistent(),
    ensures
        has_size(*mesh, expected_vertices, expected_faces) ==> result is Ok,
        !has_size(*mesh, expected_vertices, expected_faces) ==> result == Err::<(), CdtError>(
            CdtError::DelaunayGenerationFailed {
                vertex_count: total_vertices,
                coordinate_range,
                attempt,
                failure: size_mismatch(*mesh, expected_vertices, expected_faces),
            },
        ),
{
    if mesh.vertex_count() != expected_vertices || mesh.face_count() != expected_faces {
        return Err(
            toroidal_generation_error(
                total_vertices,
                coordinate_range,
                attempt,
                DelaunayGenerationFailure::MeshSizeMismatch {
                    actual_vertices: mesh.vertex_count(),
                    expected_vertices,
                    actual_faces: mesh.face_count(),
                    expected_faces,
                },
            ),
        );
    }
    Ok(())
}

/// Converts a generation count to the platform index type; every `u32`
/// fits, since `usize` has at least 32 bits here.
pub fn generation_count_to_usize(value: u32, quantity: DelaunayGenerationQuantity) -> (result: Result<
    usize,
    DelaunayGenerationFailure,
>)
    ensures
        result == Ok::<usize, DelaunayGenerationFailure>(value as usize),
{
    Ok(value as usize)
}

/// A slice count the caller has already validated as positive.
pub fn checked_nonzero_slice_count(num_slices: u32) -> (n: u32)
    requires
        num_slices > 0,
    ensures
        n == num_slices,
        n > 0,
{
    num_slices
}

/// Sum of a spatial volume profile.
pub open spec fn profile_total(profile: Seq<u32>) -> int
    decreases profile.len(),
{
    if profile.len() == 0 {
        0
    } else {
        profile_total(profile.drop_last()) + profile.last()
    }
}

/// Prefix sums of a profile grow with the prefix.
pub proof fn lemma_profile_total_monotone(profile: Seq<u32>, i: int, j: int)
    requires
        0 <= i <= j <= profile.len(),
    ensures
        profile_total(profile.take(i)) <= profile_total(profile.take(j)),
    decreases j - i,
{
    if j > i {
        assert(profile.take(j).drop_last() == profile.take(j - 1));
        lemma_profile_total_monotone(profile, i, j - 1);
    }
}

/// The expected text of a profile-length overflow.
pub open spec fn length_overflow_text() -> Seq<char> {
    "length must fit in u32: out of range integral type conversion attempted"@
}

/// The empty-profile error.
fn empty_profile_error() -> (e: CdtError)
    ensures
        is_parameter_error(e, GenerationParameterIssue::EmptyVolumeProfile, "[]"@, "at least one time slice"@),
{
    proof {
        reveal_strlit("[]");
        reveal_strlit("at least one time slice");
    }
    CdtError::InvalidGenerationParameters {
        issue: GenerationParameterIssue::EmptyVolumeProfile,
        provided_value: owned("[]"),
        expected_range: owned("at least one time slice"),
    }
}

/// The profile-length error for a profile of `len` slices.
fn profile_length_error(len: usize) -> (e: CdtError)
    ensures
        is_parameter_error(
            e,
            GenerationParameterIssue::VolumeProfileLengthOverflow,
            decimal(len as nat),
            length_overflow_text(),
        ),
{
    proof { reveal_strlit("length must fit in u32: out of range integral type conversion attempted"); }
    CdtError::InvalidGenerationParameters {
        issue: GenerationParameterIssue::VolumeProfileLengthOverflow,
        provided_value: decimal_string(len as u64),
        expected_range: owned("length must fit in u32: out of range integral type conversion attempted"),
    }
}

/// The vertex-sum overflow error for `profile`.
fn profile_sum_overflow_error(profile: &Vec<u32>) -> (e: CdtError)
    ensures
        is_parameter_error(e, GenerationParameterIssue::VertexCountOverflow, list_text(profile@), "sum ≤ u32::MAX"@),
{
    proof { reveal_strlit("sum ≤ u32::MAX"); }
    CdtError::InvalidGenerationParameters {
        issue: GenerationParameterIssue::VertexCountOverflow,
        provided_value: list_string(profile),
        expected_range: owned("sum ≤ u32::MAX"),
    }
}

/// Sums a profile, or reports that the sum exceeds `u32::MAX`.
pub fn checked_profile_total(profile: &Vec<u32>) -> (total: Option<u32>)
    ensures
        total matches Some(t) ==> t == profile_total(profile@),
        total is None <==> profile_total(profile@) > u32::MAX,
{
    let mut total: u32 = 0;
    let mut i: usize = 0;
    while i < profile.len()
        invariant
            i <= profile@.len(),
            total == profile_total(profile@.take(i as int)),
        decreases profile@.len() - i,
    {
        assert(profile@.take(i + 1).drop_last() == profile@.take(i as int));
        if total > u32::MAX - profile[i] {
            proof { lemma_profile_total_monotone(profile@, i + 1, profile@.len() as int); }
            assert(profile@.take(profile@.len() as int) == profile@);
            return None;
        }
        total = total + profile[i];
        i = i + 1;
    }
    assert(profile@.take(i as int) == profile@);
    Some(total)
}

/// The open-strip face count `2·Σ − first − last − 2·len + 2` of a profile,
/// when every step of it stays inside `u32`.
pub open spec fn open_face_count(profile: Seq<u32>) -> Option<u32> {
    let two_total = 2 * profile_total(profile);
    let first = profile[0] as int;
    let last = profile.last() as int;
    let len = profile.len() as int;
    if two_total > u32::MAX || two_total - first - last < 0 || 2 * len > u32::MAX || two_total - first - last
        - 2 * len < 0 || two_total - first - last - 2 * len + 2 > u32::MAX {
        None
    } else {
        Some((two_total - first - last - 2 * len + 2) as u32)
    }
}

/// Counts the triangles of an open strip with the given spatial volume
/// profile: `2·Σ − first − last − 2·len + 2`, computed step by step in `u32`.
///
/// # Errors
///
/// [`GenerationParameterIssue::EmptyVolumeProfile`] for an empty profile;
/// [`GenerationParameterIssue::VertexCountOverflow`] when the sum exceeds
/// `u32::MAX`; [`GenerationParameterIssue::VolumeProfileLengthOverflow`] when
/// the length does; [`GenerationParameterIssue::SimplexCountOverflow`] when a
/// step of the count leaves `u32`.
pub fn open_profile_face_count(profile: &Vec<u32>) -> (result: Result<u32, CdtError>)
    ensures
        profile@.len() == 0 ==> result is Err && is_parameter_error(
            result->Err_0,
            GenerationParameterIssue::EmptyVolumeProfile,
            "[]"@,
            "at least one time slice"@,
        ),
        profile@.len() > 0 && profile_total(profile@) > u32::MAX ==> result is Err && is_parameter_error(
            result->Err_0,
            GenerationParameterIssue::VertexCountOverflow,
            list_text(profile@),
            "sum ≤ u32::MAX"@,
        ),
        profile@.len() > 0 && profile_total(profile@) <= u32::MAX && profile@.len() > u32::MAX ==> result is Err
            && is_parameter_error(
            result->Err_0,
            GenerationParameterIssue::VolumeProfileLengthOverflow,
            decimal(profile@.len()),
            length_overflow_text(),
        ),
        profile@.len() > 0 && profile_total(profile@) <= u32::MAX && profile@.len() <= u32::MAX ==> match open_face_count(
            profile@,
        ) {
            Some(n) => result == Ok::<u32, CdtError>(n),
            None => result is Err && is_parameter_error(
                result->Err_0,
                GenerationParameterIssue::SimplexCountOverflow,
                list_text(profile@),
                "open-strip face count must fit in u32"@,
            ),
        },
{
    if profile.len() == 0 {
        return Err(empty_profile_error());
    }
    let first = profile[0];
    let last = profile[profile.len() - 1];
    let total = match checked_profile_total(profile) {
        Some(t) => t,
        None => return Err(profile_sum_overflow_error(profile)),
    };
    if profile.len() > u32::MAX as usize {
        return Err(profile_length_error(profile.len()));
    }
    let slice_count = profile.len() as u32;
    let ok = total <= u32::MAX / 2 && 2 * total >= first && 2 * total - first >= last && slice_count <= u32::MAX / 2
        && 2 * total - first - last >= 2 * slice_count && 2 * total - first - last - 2 * slice_count <= u32::MAX - 2;
    if !ok {
        proof { reveal_strlit("open-strip face count must fit in u32"); }
        return Err(
            CdtError::InvalidGenerationParameters {
                issue: GenerationParameterIssue::SimplexCountOverflow,
                provided_value: list_string(profile),
                expected_range: owned("open-strip face count must fit in u32"),
            },
        );
    }
    Ok(2 * total - first - last - 2 * slice_count + 2)
}

/// Which rule the first offending slice of a profile breaks.
#[derive(Debug, Clone, Copy, PartialEq, Eq)]
pub enum ProfileIssue {
    /// The slice has fewer vertices than the minimum.
    TooFewVertices,
    /// The running vertex sum leaves `u32` at this slice.
    SumOverflow,
}

/// Scanning the first `k` slices in order, the first slice below `minimum`
/// or at which the running sum exceeds `u32::MAX`.
pub open spec fn first_profile_issue(profile: Seq<u32>, minimum: u32, k: int) -> Option<(int, ProfileIssue)>
    decreases k,
{
    if k <= 0 {
        None
    } else {
        match first_profile_issue(profile, minimum, k - 1) {
            Some(x) => Some(x),
            None => if profile[k - 1] < minimum {
                Some((k - 1, ProfileIssue::TooFewVertices))
            } else if profile_total(profile.take(k)) > u32::MAX {
                Some((k - 1, ProfileIssue::SumOverflow))
            } else {
                None
            },
        }
    }
}

/// Once a profile issue is found in a prefix, longer prefixes report it.
pub proof fn lemma_first_profile_issue_stable(profile: Seq<u32>, minimum: u32, k: int, n: int)
    requires
        0 <= k <= n,
        first_profile_issue(profile, minimum, k) is Some,
    ensures
        first_profile_issue(profile, minimum, n) == first_profile_issue(profile, minimum, k),
    decreases n - k,
{
    if n > k {
        lemma_first_profile_issue_stable(profile, minimum, k, n - 1);
    }
}

/// `"≥ {minimum} for {label}"`.
pub open spec fn at_least_for(minimum: u32, label: Seq<char>) -> Seq<char> {
    "≥ "@ + decimal(minimum as nat) + " for "@ + label
}

/// The profile passes [`validate_spatial_profile`].
pub open spec fn spatial_profile_valid(profile: Seq<u32>, minimum_slices: u32, minimum_vertices_per_slice: u32) -> bool {
    &&& 0 < profile.len() <= u32::MAX
    &&& profile.len() >= minimum_slices
    &&& first_profile_issue(profile, minimum_vertices_per_slice, profile.len() as int) is None
}

/// `e` is the error [`validate_spatial_profile`] reports for the profile.
pub open spec fn spatial_profile_error(
    profile: Seq<u32>,
    minimum_slices: u32,
    minimum_vertices_per_slice: u32,
    topology_label: Seq<char>,
    e: CdtError,
) -> bool {
    if profile.len() == 0 {
        is_parameter_error(e, GenerationParameterIssue::EmptyVolumeProfile, "[]"@, "at least one time slice"@)
    } else if profile.len() > u32::MAX {
        is_parameter_error(
            e,
            GenerationParameterIssue::VolumeProfileLengthOverflow,
            decimal(profile.len()),
            length_overflow_text(),
        )
    } else if profile.len() < minimum_slices {
        is_parameter_error(
            e,
            GenerationParameterIssue::InsufficientNumberOfTimeSlices,
            decimal(profile.len()),
            at_least_for(minimum_slices, topology_label),
        )
    } else {
        match first_profile_issue(profile, minimum_vertices_per_slice, profile.len() as int) {
            Some((i, ProfileIssue::TooFewVertices)) => is_parameter_error(
                e,
                GenerationParameterIssue::InsufficientVerticesInVolumeProfileSlice,
                "slice "@ + decimal(i as nat) + " has "@ + decimal(profile[i] as nat),
                "each slice "@ + at_least_for(minimum_vertices_per_slice, topology_label),
            ),
            Some((i, ProfileIssue::SumOverflow)) => is_parameter_error(
                e,
                GenerationParameterIssue::VertexCountOverflow,
                list_text(profile),
                "sum ≤ u32::MAX"@,
            ),
            None => false,
        }
    }
}

/// Validates an explicit per-slice spatial volume profile and returns its
/// vertex total and slice count.
///
/// # Errors
///
/// In this order: [`GenerationParameterIssue::EmptyVolumeProfile`],
/// [`GenerationParameterIssue::VolumeProfileLengthOverflow`],
/// [`GenerationParameterIssue::InsufficientNumberOfTimeSlices`] below
/// `minimum_slices`, then for the first offending slice
/// [`GenerationParameterIssue::InsufficientVerticesInVolumeProfileSlice`] or
/// [`GenerationParameterIssue::VertexCountOverflow`].
pub fn validate_spatial_profile(
    profile: &Vec<u32>,
    minimum_slices: u32,
    minimum_vertices_per_slice: u32,
    topology_label: &str,
) -> (result: Result<(u32, u32), CdtError>)
    ensures
        result is Ok <==> spatial_profile_valid(profile@, minimum_slices, minimum_vertices_per_slice),
        result matches Ok(r) ==> r == (profile_total(profile@) as u32, profile@.len() as u32),
        result matches Err(e) ==> spatial_profile_error(
            profile@,
            minimum_slices,
            minimum_vertices_per_slice,
            topology_label@,
            e,
        ),
{
    if profile.len() == 0 {
        return Err(empty_profile_error());
    }
    if profile.len() > u32::MAX as usize {
        return Err(profile_length_error(profile.len()));
    }
    let num_slices = profile.len() as u32;
    if num_slices < minimum_slices {
        proof {
            reveal_strlit("≥ ");
            reveal_strlit(" for ");
        }
        let mut expected = owned("≥ ");
        push_decimal(&mut expected, minimum_slices as u64);
        expected.append(" for ");
        expected.append(topology_label);
        return Err(
            CdtError::InvalidGenerationParameters {
                issue: GenerationParameterIssue::InsufficientNumberOfTimeSlices,
                provided_value: decimal_string(num_slices as u64),
                expected_range: expected,
            },
        );
    }
    let mut total: u32 = 0;
    let mut slice: usize = 0;
    while slice < profile.len()
        invariant
            slice <= profile@.len(),
            minimum_slices <= profile@.len() <= u32::MAX,
            total == profile_total(profile@.take(slice as int)),
            first_profile_issue(profile@, minimum_vertices_per_slice, slice as int) is None,
        decreases profile@.len() - slice,
    {
        assert(profile@.take(slice + 1).drop_last() == profile@.take(slice as int));
        let vertices = profile[slice];
        if vertices < minimum_vertices_per_slice {
            proof {
                lemma_first_profile_issue_stable(
                    profile@,
                    minimum_vertices_per_slice,
                    slice + 1,
                    profile@.len() as int,
                );
                reveal_strlit("slice ");
                reveal_strlit(" has ");
                reveal_strlit("each slice ≥ ");
                reveal_strlit("each slice ");
                reveal_strlit("≥ ");
                reveal_strlit(" for ");
                assert("each slice "@ + "≥ "@ =~= "each slice ≥ "@);
                assert("each slice "@ + at_least_for(minimum_vertices_per_slice, topology_label@) =~= "each slice ≥ "@
                    + decimal(minimum_vertices_per_slice as nat) + " for "@ + topology_label@);
            }
            let mut provided = owned("slice ");
            push_decimal(&mut provided, slice as u64);
            provided.append(" has ");
            push_decimal(&mut provided, vertices as u64);
            let mut expected = owned("each slice ≥ ");
            push_decimal(&mut expected, minimum_vertices_per_slice as u64);
            expected.append(" for ");
            expected.append(topology_label);
            return Err(
                CdtError::InvalidGenerationParameters {
                    issue: GenerationParameterIssue::InsufficientVerticesInVolumeProfileSlice,
                    provided_value: provided,
                    expected_range: expected,
                },
            );
        }
        if total > u32::MAX - vertices {
            proof {
                lemma_first_profile_issue_stable(
                    profile@,
                    minimum_vertices_per_slice,
                    slice + 1,
                    profile@.len() as int,
                );
            }
            return Err(profile_sum_overflow_error(profile));
        }
        total = total + vertices;
        slice = slice + 1;
    }
    assert(profile@.take(slice as int) == profile@);
    Ok((total, num_slices))
}

/// Converts a spatial volume profile to per-slice vertex counts.
pub fn profile_slice_sizes(profile: &Vec<u32>) -> (sizes: Vec<usize>)
    ensures
        sizes@.len() == profile@.len(),
        forall|i: int| 0 <= i < profile@.len() ==> sizes@[i] == profile@[i] as usize,
{
    let mut sizes: Vec<usize> = Vec::new();
    let mut i: usize = 0;
    while i < profile.len()
        invariant
            i <= profile@.len(),
            sizes@.len() == i,
            forall|j: int| 0 <= j < i ==> sizes@[j] == profile@[j] as usize,
        decreases profile@.len() - i,
    {
        sizes.push(profile[i] as usize);
        i = i + 1;
    }
    sizes
}

/// The attempt with ordinal `j + 1`, on candidate `first + j`, can fail.
pub open spec fn attempt_failed<T, B: Fn(u8, u32) -> Result<T, CdtError>>(build: B, first: u8, j: int) -> bool {
    exists|e: CdtError| call_ensures(build, ((first + j) as u8, (j + 1) as u32), Err(e))
}

/// The attempt with ordinal `k + 1`, on candidate `first + k`, can give
/// `outcome`.
pub open spec fn attempt_gave<T, B: Fn(u8, u32) -> Result<T, CdtError>>(
    build: B,
    first: u8,
    k: int,
    outcome: Result<T, CdtError>,
) -> bool {
    call_ensures(build, ((first + k) as u8, (k + 1) as u32), outcome)
}

/// Tries the embedding candidates `first..end` in order and returns the
/// first build that succeeds.
///
/// `build` receives the candidate and the one-based ordinal of the attempt.
/// When every candidate fails, the last failure is returned; without any
/// candidate, the error `no_candidates` produces.
pub fn first_valid_toroidal_candidate<T, B: Fn(u8, u32) -> Result<T, CdtError>, N: FnOnce() -> CdtError>(
    first: u8,
    end: u8,
    build: B,
    no_candidates: N,
) -> (result: Result<T, CdtError>)
    requires
        forall|c: u8, a: u32| first <= c < end ==> call_requires(build, (c, a)),
        call_requires(no_candidates, ()),
    ensures
        first >= end ==> result is Err && call_ensures(no_candidates, (), result->Err_0),
        first < end ==> exists|k: int|
            0 <= k < end - first && #[trigger] attempt_gave(build, first, k, result) && (result is Err
                ==> k == end - first - 1) && forall|j: int| 0 <= j < k ==> #[trigger] attempt_failed(build, first, j),
{
    if first >= end {
        return Err(no_candidates());
    }
    let mut candidate: u8 = first;
    let mut attempt: u32 = 0;
    loop
        invariant
            first <= candidate < end,
            attempt == candidate - first,
            forall|c: u8, a: u32| first <= c < end ==> call_requires(build, (c, a)),
            forall|j: int| 0 <= j < attempt ==> #[trigger] attempt_failed(build, first, j),
        decreases end - candidate,
    {
        attempt = attempt + 1;
        let outcome = build(candidate, attempt);
        if outcome.is_ok() || candidate + 1 == end {
            proof {
                let k = (candidate - first) as int;
                assert(attempt_gave(build, first, k, outcome));
            }
            return outcome;
        }
        proof {
            let j = (candidate - first) as int;
            assert(call_ensures(build, ((first + j) as u8, (j + 1) as u32), Err(outcome->Err_0)));
            assert(attempt_failed(build, first, j));
        }
        candidate = candidate + 1;
    }
}

/// What validating the labeled state `mid` as a strict CDT gives.
pub open spec fn labeled_build_outcome(mid: CdtTriangulation, result: Result<CdtTriangulation, CdtError>) -> bool {
    match result {
        Ok(t) => domain_checks_pass(mid) && t.wf() && t.classified_from(mid),
        Err(e) => !domain_checks_pass(mid) && domain_error_matches(mid, e),
    }
}

/// What wrapping `mesh` with `num_slices` slices of the given sizes gives: a
/// topology error for an inadmissible Euler characteristic, otherwise the
/// strict-CDT validation of the wrapped mesh with current foliation.
pub open spec fn wrapped_outcome(
    mesh: CdtMesh,
    num_slices: u32,
    topology: CdtTopology,
    sizes: Seq<usize>,
    result: Result<CdtTriangulation, CdtError>,
) -> bool {
    let t0 = CdtTriangulation::initial(mesh, num_slices, 2, topology);
    if !admissible_euler(topology, euler_of(mesh.labels().len(), mesh.edges().len(), mesh.faces().len())) {
        result is Err && t0.topology_error_matches(result->Err_0)
    } else {
        exists|f: Foliation|
            f.sizes() == sizes && f.slices() == num_slices && #[trigger] labeled_build_outcome(
                t0.with_current_foliation(f),
                result,
            )
    }
}

/// The per-slice sizes are usable as foliation bookkeeping.
pub open spec fn usable_sizes(sizes: Seq<usize>, num_slices: u32) -> bool {
    &&& sizes.len() == num_slices
    &&& first_empty_slice(sizes) is None
    &&& total_of(sizes) <= usize::MAX
}

impl CdtTriangulation {
    /// Wraps a generated mesh with `num_slices` slices of the given sizes,
    /// stores that foliation as current and validates the result as a strict
    /// CDT, storing the classification of every face.
    fn wrap_with_foliation(mesh: CdtMesh, num_slices: u32, topology: CdtTopology, sizes: Vec<usize>) -> (result:
        Result<CdtTriangulation, CdtError>)
        requires
            mesh.consistent(),
            num_slices >= minimum_time_slices(topology),
            usable_sizes(sizes@, num_slices),
        ensures
            wrapped_outcome(mesh, num_slices, topology, sizes@, result),
    {
        let ghost sizes_view = sizes@;
        let foliation = match Foliation::from_slice_sizes(sizes, num_slices) {
            Ok(f) => f,
            Err(e) => {
                proof { assert(false); }
                return Err(CdtError::Foliation(e));
            },
        };
        let ghost fg = foliation;
        let mut tri = Self::with_topology(mesh, num_slices, 2, topology)?;
        tri.install_foliation(foliation, num_slices);
        let ghost mid = tri;
        let outcome = tri.validate_initial_cdt();
        let result = match outcome {
            Ok(()) => Ok(tri),
            Err(e) => Err(e),
        };
        proof {
            assert(mid == Self::initial(mesh, num_slices, 2, topology).with_current_foliation(fg));
            assert(labeled_build_outcome(mid, result));
        }
        result
    }
}

/// What an open-strip generator's outcome leads to: its failure restated,
/// a size mismatch, or the wrapped and validated mesh.
pub open spec fn strip_generation_outcome(
    generated: Result<CdtMesh, CdtError>,
    total_vertices: u32,
    coordinate_max: u32,
    expected_vertices: usize,
    expected_faces: usize,
    sizes: Seq<usize>,
    num_slices: u32,
    result: Result<CdtTriangulation, CdtError>,
) -> bool {
    match generated {
        Err(e) => result == Err::<CdtTriangulation, CdtError>(strip_remapped(e, total_vertices, coordinate_max)),
        Ok(mesh) => if !has_size(mesh, expected_vertices, expected_faces) {
            result == Err::<CdtTriangulation, CdtError>(
                CdtError::DelaunayGenerationFailed {
                    vertex_count: total_vertices,
                    coordinate_range: strip_range(coordinate_max),
                    attempt: 1,
                    failure: size_mismatch(mesh, expected_vertices, expected_faces),
                },
            )
        } else {
            wrapped_outcome(mesh, num_slices, CdtTopology::OpenBoundary, sizes, result)
        },
    }
}

/// A profile without issue in its first `k` slices has every one of them at
/// least `minimum`, and their sum fits in `u32`.
pub proof fn lemma_no_profile_issue(profile: Seq<u32>, minimum: u32, k: int)
    requires
        0 <= k <= profile.len(),
        first_profile_issue(profile, minimum, k) is None,
    ensures
        forall|i: int| 0 <= i < k ==> profile[i] >= minimum,
        0 <= profile_total(profile.take(k)) <= u32::MAX,
    decreases k,
{
    if k > 0 {
        lemma_no_profile_issue(profile, minimum, k - 1);
        assert(profile.take(k).drop_last() == profile.take(k - 1));
    } else {
        assert(profile.take(0) =~= Seq::<u32>::empty());
    }
}

/// The per-slice sizes a spatial volume profile asks for.
pub open spec fn profile_sizes(profile: Seq<u32>) -> Seq<usize> {
    Seq::new(profile.len(), |i: int| profile[i] as usize)
}

/// `"{a} × {b}"`.
pub open spec fn times_text(a: nat, b: nat) -> Seq<char> {
    decimal(a) + " × "@ + decimal(b)
}

pub(crate) fn times_string(a: u32, b: u32) -> (s: String)
    ensures
        s@ == times_text(a as nat, b as nat),
{
    proof { reveal_strlit(" × "); }
    let mut s = decimal_string(a as u64);
    s.append(" × ");
    push_decimal(&mut s, b as u64);
    s
}

pub(crate) fn parameter_error(issue: GenerationParameterIssue, provided_value: String, expected_range: &str) -> (e: CdtError)
    ensures
        is_parameter_error(e, issue, provided_value@, expected_range@),
{
    CdtError::InvalidGenerationParameters { issue, provided_value, expected_range: owned(expected_range) }
}

/// `num_slices` slices of `vertices_per_slice` vertices each.
pub open spec fn uniform_sizes(vertices_per_slice: u32, num_slices: u32) -> Seq<usize> {
    Seq::new(num_slices as nat, |i: int| vertices_per_slice as usize)
}

proof fn lemma_uniform_total(vertices_per_slice: u32, k: nat)
    ensures
        total_of(Seq::new(k, |i: int| vertices_per_slice as usize)) == k * vertices_per_slice,
    decreases k,
{
    let s = Seq::new(k, |i: int| vertices_per_slice as usize);
    if k > 0 {
        let k1 = (k - 1) as nat;
        assert(s.drop_last() =~= Seq::new(k1, |i: int| vertices_per_slice as usize));
        lemma_uniform_total(vertices_per_slice, k1);
        assert(total_of(s) == total_of(s.drop_last()) + s.last());
        assert(s.last() == vertices_per_slice as usize);
        assert(k * vertices_per_slice == k1 * vertices_per_slice + vertices_per_slice) by (nonlinear_arith)
            requires
                k1 == k - 1,
        ;
    } else {
        assert(total_of(s) == 0);
    }
}

proof fn lemma_profile_sizes_total(profile: Seq<u32>, sizes: Seq<usize>)
    requires
        sizes.len() == profile.len(),
        forall|i: int| 0 <= i < profile.len() ==> sizes[i] == profile[i] as usize,
    ensures
        total_of(sizes) == profile_total(profile),
    decreases profile.len(),
{
    if profile.len() > 0 {
        lemma_profile_sizes_total(profile.drop_last(), sizes.drop_last());
    }
}

/// The profile of `num_slices` slices of `vertices_per_slice` vertices each.
pub open spec fn uniform_profile(vertices_per_slice: u32, num_slices: u32) -> Seq<u32> {
    Seq::new(num_slices as nat, |i: int| vertices_per_slice)
}

proof fn lemma_uniform_prefix(vertices_per_slice: u32, num_slices: u32, k: int)
    requires
        vertices_per_slice >= 4,
        0 <= k <= num_slices,
        vertices_per_slice * num_slices <= u32::MAX,
    ensures
        profile_total(uniform_profile(vertices_per_slice, num_slices).take(k)) == k * vertices_per_slice,
        first_profile_issue(uniform_profile(vertices_per_slice, num_slices), 4, k) is None,
    decreases k,
{
    let p = uniform_profile(vertices_per_slice, num_slices);
    if k > 0 {
        lemma_uniform_prefix(vertices_per_slice, num_slices, k - 1);
        assert(p.take(k).drop_last() =~= p.take(k - 1));
        assert(k * vertices_per_slice == (k - 1) * vertices_per_slice + vertices_per_slice) by (nonlinear_arith);
        assert(k * vertices_per_slice <= num_slices * vertices_per_slice) by (nonlinear_arith)
            requires
                k <= num_slices,
                vertices_per_slice >= 0,
        ;
        assert(num_slices * vertices_per_slice == vertices_per_slice * num_slices) by (nonlinear_arith);
        assert(p[k - 1] == vertices_per_slice);
    } else {
        assert(p.take(0) =~= Seq::<u32>::empty());
    }
}

/// A uniform profile asks the profile builder for what the uniform builder
/// asks: the same slices, vertex total and face count
/// `2 · (vertices_per_slice − 1) · (num_slices − 1)`, whenever twice the
/// vertex total fits in `u32`.
pub proof fn lemma_uniform_profile_matches_strip(vertices_per_slice: u32, num_slices: u32)
    requires
        vertices_per_slice >= 4,
        num_slices >= 2,
        2 * (vertices_per_slice * num_slices) <= u32::MAX,
    ensures
        spatial_profile_valid(uniform_profile(vertices_per_slice, num_slices), 2, 4),
        uniform_profile(vertices_per_slice, num_slices).len() == num_slices,
        profile_total(uniform_profile(vertices_per_slice, num_slices)) == vertices_per_slice * num_slices,
        open_face_count(uniform_profile(vertices_per_slice, num_slices)) == Some(
            (2 * ((vertices_per_slice - 1) * (num_slices - 1))) as u32,
        ),
        profile_sizes(uniform_profile(vertices_per_slice, num_slices)) == uniform_sizes(vertices_per_slice, num_slices),
{
    let p = uniform_profile(vertices_per_slice, num_slices);
    let n = vertices_per_slice as int;
    let t = num_slices as int;
    assert(n * t >= 0) by (nonlinear_arith)
        requires
            n >= 4,
            t >= 2,
    ;
    lemma_uniform_prefix(vertices_per_slice, num_slices, t);
    assert(p.take(t) =~= p);
    assert(t * n == n * t) by (nonlinear_arith);
    assert(2 * (n * t) - n - n - 2 * t + 2 == 2 * ((n - 1) * (t - 1))) by (nonlinear_arith);
    assert((n - 1) * (t - 1) >= 3) by (nonlinear_arith)
        requires
            n >= 4,
            t >= 2,
    ;
    assert(2 * t <= 2 * (n * t)) by (nonlinear_arith)
        requires
            n >= 4,
            t >= 2,
    ;
    assert(profile_sizes(p) =~= uniform_sizes(vertices_per_slice, num_slices));
}

fn uniform_size_vec(vertices_per_slice: u32, num_slices: u32) -> (sizes: Vec<usize>)
    ensures
        sizes@ == uniform_sizes(vertices_per_slice, num_slices),
{
    let mut sizes: Vec<usize> = Vec::new();
    let mut i: u32 = 0;
    while i < num_slices
        invariant
            i <= num_slices,
            sizes@ == uniform_sizes(vertices_per_slice, i),
        decreases num_slices - i,
    {
        sizes.push(vertices_per_slice as usize);
        i = i + 1;
        assert(sizes@ =~= uniform_sizes(vertices_per_slice, i));
    }
    sizes
}

impl CdtTriangulation {
    /// Checks an open-strip generator's outcome and wraps the mesh.
    pub(crate) fn finish_open_strip(
        generated: Result<CdtMesh, CdtError>,
        total_vertices: u32,
        coordinate_max: u32,
        expected_vertices: usize,
        expected_faces: usize,
        sizes: Vec<usize>,
        num_slices: u32,
    ) -> (result: Result<CdtTriangulation, CdtError>)
        requires
            generated matches Ok(m) ==> m.consistent(),
            num_slices >= 1,
            usable_sizes(sizes@, num_slices),
        ensures
            strip_generation_outcome(
                generated,
                total_vertices,
                coordinate_max,
                expected_vertices,
                expected_faces,
                sizes@,
                num_slices,
                result,
            ),
    {
        let mesh = match generated {
            Ok(mesh) => mesh,
            Err(e) => return Err(remap_strip_generation_error(e, total_vertices, coordinate_max)),
        };
        validate_strip_counts(&mesh, total_vertices, expected_vertices, expected_faces, coordinate_max)?;
        Self::wrap_with_foliation(mesh, num_slices, CdtTopology::OpenBoundary, sizes)
    }

    /// Wraps a labeled mesh, deriving foliation from its vertex labels, and
    /// validates it as a strict open-boundary CDT.
    ///
    /// # Errors
    ///
    /// In this order: [`CdtError::UnsupportedDimension`] when `dimension != 2`;
    /// [`CdtError::InvalidTriangulationMetadata`] when `time_slices == 0`; the
    /// first missing or out-of-range label; [`FoliationError::EmptySlice`] for
    /// the first empty slice; then the wrapped mesh's topology and strict-CDT
    /// checks, as [`wrapped_outcome`] states.
    pub fn from_labeled_delaunay(mesh: CdtMesh, time_slices: u32, dimension: u8) -> (result: Result<
        CdtTriangulation,
        CdtError,
    >)
        requires
            mesh.consistent(),
        ensures
            dimension != 2 ==> result == Err::<CdtTriangulation, CdtError>(
                CdtError::UnsupportedDimension(dimension as u32),
            ),
            dimension == 2 && time_slices == 0 ==> result is Err && time_slice_error_matches(
                result->Err_0,
                CdtTopology::OpenBoundary,
                time_slices,
            ),
            dimension == 2 && time_slices > 0 ==> match first_label_error(
                mesh.labels(),
                mesh.labels().len() as int,
                time_slices,
            ) {
                Some(e) => result == Err::<CdtTriangulation, CdtError>(CdtError::Foliation(e)),
                None => match first_empty_slice(live_sizes(mesh.labels(), time_slices)) {
                    Some(s) => result == Err::<CdtTriangulation, CdtError>(
                        CdtError::Foliation(FoliationError::EmptySlice { slice: s as usize }),
                    ),
                    None => wrapped_outcome(
                        mesh,
                        time_slices,
                        CdtTopology::OpenBoundary,
                        live_sizes(mesh.labels(), time_slices),
                        result,
                    ),
                },
            },
    {
        if dimension != 2 {
            return Err(CdtError::UnsupportedDimension(dimension as u32));
        }
        Self::check_time_slices(CdtTopology::OpenBoundary, time_slices)?;
        let _n = mesh.vertex_count(); // the vertex count fits in usize
        let sizes = live_slice_sizes_from_vertex_labels(&mesh, time_slices)?;
        if let Some(slice) = find_empty_slice(&sizes) {
            return Err(CdtError::Foliation(FoliationError::EmptySlice { slice }));
        }
        proof {
            lemma_live_sizes_total(mesh.labels(), time_slices);
        }
        Self::wrap_with_foliation(mesh, time_slices, CdtTopology::OpenBoundary, sizes)
    }

    /// Builds an open 1+1 CDT strip of `num_slices` slices with
    /// `vertices_per_slice` vertices each.
    ///
    /// The parameters are checked first; then `generate` places the labeled
    /// points and triangulates them, and the mesh must have
    /// `vertices_per_slice · num_slices` vertices and
    /// `2 · (vertices_per_slice − 1) · (num_slices − 1)` faces before it is
    /// wrapped and validated as a strict CDT.
    ///
    /// # Errors
    ///
    /// In this order: [`GenerationParameterIssue::InsufficientVerticesPerSlice`]
    /// below 4; [`GenerationParameterIssue::InsufficientNumberOfTimeSlices`]
    /// below 2; [`GenerationParameterIssue::VertexCountOverflow`] and
    /// [`GenerationParameterIssue::SimplexCountOverflow`] when a count leaves
    /// `u32`; then the generator's outcome as [`strip_generation_outcome`]
    /// states.
    pub fn from_cdt_strip<G: FnOnce() -> Result<CdtMesh, CdtError>>(vertices_per_slice: u32, num_slices: u32, generate: G) -> (result: Result<CdtTriangulation, CdtError>)
        requires
            call_requires(generate, ()),
            forall|g: Result<CdtMesh, CdtError>| #[trigger] call_ensures(generate, (), g) ==> (g matches Ok(m) ==> m.consistent()),
        ensures
            vertices_per_slice < 4 ==> result is Err && is_parameter_error(
                result->Err_0,
                GenerationParameterIssue::InsufficientVerticesPerSlice,
                decimal(vertices_per_slice as nat),
                "≥ 4"@,
            ),
            vertices_per_slice >= 4 && num_slices < 2 ==> result is Err && is_parameter_error(
                result->Err_0,
                GenerationParameterIssue::InsufficientNumberOfTimeSlices,
                decimal(num_slices as nat),
                "≥ 2"@,
            ),
            vertices_per_slice >= 4 && num_slices >= 2 && vertices_per_slice * num_slices > u32::MAX ==> result is Err
                && is_parameter_error(
                result->Err_0,
                GenerationParameterIssue::VertexCountOverflow,
                times_text(vertices_per_slice as nat, num_slices as nat),
                "product ≤ u32::MAX"@,
            ),
            vertices_per_slice >= 4 && num_slices >= 2 && vertices_per_slice * num_slices <= u32::MAX && 2 * ((
            vertices_per_slice - 1) * (num_slices - 1)) > u32::MAX ==> result is Err && is_parameter_error(
                result->Err_0,
                GenerationParameterIssue::SimplexCountOverflow,
                "2 × "@ + decimal(((vertices_per_slice - 1) * (num_slices - 1)) as nat),
                "product ≤ u32::MAX"@,
            ),
            vertices_per_slice >= 4 && num_slices >= 2 && vertices_per_slice * num_slices <= u32::MAX && 2 * ((
            vertices_per_slice - 1) * (num_slices - 1)) <= u32::MAX ==> exists|g: Result<CdtMesh, CdtError>|
                call_ensures(generate, (), g) && #[trigger] strip_generation_outcome(
                    g,
                    (vertices_per_slice * num_slices) as u32,
                    num_slices,
                    (vertices_per_slice * num_slices) as usize,
                    (2 * ((vertices_per_slice - 1) * (num_slices - 1))) as usize,
                    uniform_sizes(vertices_per_slice, num_slices),
                    num_slices,
                    result,
                ),
    {
        proof {
            reveal_strlit("≥ 4");
            reveal_strlit("≥ 2");
            reveal_strlit("product ≤ u32::MAX");
            reveal_strlit("2 × ");
        }
        if vertices_per_slice < 4 {
            return Err(parameter_error(
                GenerationParameterIssue::InsufficientVerticesPerSlice,
                decimal_string(vertices_per_slice as u64),
                "≥ 4",
            ));
        }
        if num_slices < 2 {
            return Err(parameter_error(
                GenerationParameterIssue::InsufficientNumberOfTimeSlices,
                decimal_string(num_slices as u64),
                "≥ 2",
            ));
        }
        let total_vertices = match vertices_per_slice.checked_mul(num_slices) {
            Some(t) => t,
            None => return Err(parameter_error(
                GenerationParameterIssue::VertexCountOverflow,
                times_string(vertices_per_slice, num_slices),
                "product ≤ u32::MAX",
            )),
        };
        let spatial_quads = vertices_per_slice - 1;
        let temporal_quads = num_slices - 1;
        assert(spatial_quads * temporal_quads <= vertices_per_slice * num_slices) by (nonlinear_arith)
            requires
                spatial_quads == vertices_per_slice - 1,
                temporal_quads == num_slices - 1,
                vertices_per_slice >= 4,
                num_slices >= 2,
        ;
        let total_quads = match spatial_quads.checked_mul(temporal_quads) {
            Some(q) => q,
            None => return Err(parameter_error(
                GenerationParameterIssue::SimplexCountOverflow,
                times_string(spatial_quads, temporal_quads),
                "product ≤ u32::MAX",
            )),
        };
        let total_simplices = match total_quads.checked_mul(2) {
            Some(f) => f,
            None => {
                let mut provided = owned("2 × ");
                push_decimal(&mut provided, total_quads as u64);
                return Err(parameter_error(GenerationParameterIssue::SimplexCountOverflow, provided, "product ≤ u32::MAX"));
            },
        };
        let coordinate_max = num_slices;
        let expected_vertices = total_vertices as usize;
        let expected_faces = total_simplices as usize;
        let sizes = uniform_size_vec(vertices_per_slice, num_slices);
        proof {
            lemma_uniform_total(vertices_per_slice, num_slices as nat);
            assert((num_slices as nat) * vertices_per_slice == vertices_per_slice * num_slices) by (nonlinear_arith);
            assert(forall|i: int| 0 <= i < sizes@.len() ==> sizes@[i] != 0);
            assert(first_empty_slice(sizes@) is None);
        }
        let generated = generate();
        Self::finish_open_strip(
            generated,
            total_vertices,
            coordinate_max,
            expected_vertices,
            expected_faces,
            sizes,
            num_slices,
        )
    }
}

impl CdtTriangulation {
    /// Builds an open 1+1 CDT strip whose slices hold the vertex counts of
    /// `volume_profile`.
    ///
    /// The profile must have at least two slices of at least four vertices;
    /// the generated mesh must have the profile's vertex total and
    /// [`open_profile_face_count`] faces.
    ///
    /// # Errors
    ///
    /// The profile's error, as [`spatial_profile_error`] states for the
    /// open-boundary label; [`GenerationParameterIssue::SimplexCountOverflow`]
    /// when the face count leaves `u32`; then the generator's outcome as
    /// [`strip_generation_outcome`] states.
    pub fn from_cdt_strip_profile<G: FnOnce() -> Result<CdtMesh, CdtError>>(volume_profile: &Vec<u32>, generate: G) -> (result:
        Result<CdtTriangulation, CdtError>)
        requires
            call_requires(generate, ()),
            forall|g: Result<CdtMesh, CdtError>| #[trigger] call_ensures(generate, (), g) ==> (g matches Ok(m) ==> m.consistent()),
        ensures
            !spatial_profile_valid(volume_profile@, 2, 4) ==> result is Err && spatial_profile_error(
                volume_profile@,
                2,
                4,
                "open-boundary topology"@,
                result->Err_0,
            ),
            spatial_profile_valid(volume_profile@, 2, 4) && open_face_count(volume_profile@) is None ==> result is Err
                && is_parameter_error(
                result->Err_0,
                GenerationParameterIssue::SimplexCountOverflow,
                list_text(volume_profile@),
                "open-strip face count must fit in u32"@,
            ),
            spatial_profile_valid(volume_profile@, 2, 4) && open_face_count(volume_profile@) is Some ==> exists|
                g: Result<CdtMesh, CdtError>,
            |
                call_ensures(generate, (), g) && #[trigger] strip_generation_outcome(
                    g,
                    profile_total(volume_profile@) as u32,
                    volume_profile@.len() as u32,
                    profile_total(volume_profile@) as usize,
                    open_face_count(volume_profile@)->0 as usize,
                    profile_sizes(volume_profile@),
                    volume_profile@.len() as u32,
                    result,
                ),
    {
        proof { reveal_strlit("open-boundary topology"); }
        let (total_vertices, num_slices) = validate_spatial_profile(volume_profile, 2, 4, "open-boundary topology")?;
        proof {
            lemma_no_profile_issue(volume_profile@, 4, volume_profile@.len() as int);
            assert(volume_profile@.take(volume_profile@.len() as int) == volume_profile@);
        }
        let coordinate_max = num_slices;
        let expected_vertices = total_vertices as usize;
        let expected_faces = open_profile_face_count(volume_profile)? as usize;
        let sizes = profile_slice_sizes(volume_profile);
        proof {
            lemma_profile_sizes_total(volume_profile@, sizes@);
            assert(sizes@ =~= profile_sizes(volume_profile@));
            assert(forall|i: int| 0 <= i < sizes@.len() ==> sizes@[i] != 0);
            assert(first_empty_slice(sizes@) is None);
        }
        let generated = generate();
        Self::finish_open_strip(
            generated,
            total_vertices,
            coordinate_max,
            expected_vertices,
            expected_faces,
            sizes,
            num_slices,
        )
    }
}

/// One toroidal attempt's generator outcome after its checks: the failure
/// restated, a size mismatch, or the mesh.
pub open spec fn checked_attempt(
    generated: Result<CdtMesh, CdtError>,
    total_vertices: u32,
    expected_vertices: usize,
    expected_faces: usize,
    coordinate_range: CoordinateRange,
    attempt: u32,
) -> Result<CdtMesh, CdtError> {
    match generated {
        Err(e) => Err(toroidal_remapped(e, total_vertices, attempt)),
        Ok(mesh) => if has_size(mesh, expected_vertices, expected_faces) {
            Ok(mesh)
        } else {
            Err(
                CdtError::DelaunayGenerationFailed {
                    vertex_count: total_vertices,
                    coordinate_range,
                    attempt,
                    failure: size_mismatch(mesh, expected_vertices, expected_faces),
                },
            )
        },
    }
}

/// The size targets of a toroidal build.
#[derive(Debug, Clone, Copy, PartialEq, Eq)]
pub struct ToroidalTarget {
    pub total_vertices: u32,
    pub expected_vertices: usize,
    pub expected_faces: usize,
    pub coordinate_range: CoordinateRange,
}

/// The attempt on candidate `first + j` (ordinal `j + 1`) can fail its
/// checks.
pub open spec fn toroidal_attempt_failed<B: Fn(u8, u32) -> Result<CdtMesh, CdtError>>(
    build: B,
    first: u8,
    j: int,
    target: ToroidalTarget,
) -> bool {
    exists|g: Result<CdtMesh, CdtError>|
        call_ensures(build, ((first + j) as u8, (j + 1) as u32), g) && (#[trigger] checked_attempt(
            g,
            target.total_vertices,
            target.expected_vertices,
            target.expected_faces,
            target.coordinate_range,
            (j + 1) as u32,
        )) is Err
}

/// The attempt on candidate `first + k` (ordinal `k + 1`) can decide the
/// build: a checked mesh is wrapped and validated; a failure of the last
/// candidate is returned.
pub open spec fn toroidal_attempt_final<B: Fn(u8, u32) -> Result<CdtMesh, CdtError>>(
    build: B,
    first: u8,
    end: u8,
    k: int,
    target: ToroidalTarget,
    num_slices: u32,
    sizes: Seq<usize>,
    result: Result<CdtTriangulation, CdtError>,
) -> bool {
    exists|g: Result<CdtMesh, CdtError>|
        call_ensures(build, ((first + k) as u8, (k + 1) as u32), g) && match #[trigger] checked_attempt(
            g,
            target.total_vertices,
            target.expected_vertices,
            target.expected_faces,
            target.coordinate_range,
            (k + 1) as u32,
        ) {
            Err(e) => k == end - first - 1 && result == Err::<CdtTriangulation, CdtError>(e),
            Ok(mesh) => wrapped_outcome(mesh, num_slices, CdtTopology::Toroidal, sizes, result),
        }
}

/// What a toroidal build over candidates `first..end` gives: the first
/// attempt whose mesh passes its checks decides, or the last failure.
pub open spec fn toroidal_outcome<B: Fn(u8, u32) -> Result<CdtMesh, CdtError>>(
    build: B,
    first: u8,
    end: u8,
    target: ToroidalTarget,
    num_slices: u32,
    sizes: Seq<usize>,
    result: Result<CdtTriangulation, CdtError>,
) -> bool {
    exists|k: int|
        0 <= k < end - first && (forall|j: int| 0 <= j < k ==> #[trigger] toroidal_attempt_failed(build, first, j, target))
            && #[trigger] toroidal_attempt_final(build, first, end, k, target, num_slices, sizes, result)
}

/// Runs one toroidal attempt and checks the mesh size.
fn toroidal_attempt<B: Fn(u8, u32) -> Result<CdtMesh, CdtError>>(
    build: &B,
    candidate: u8,
    attempt: u32,
    target: ToroidalTarget,
) -> (result: Result<CdtMesh, CdtError>)
    requires
        call_requires(*build, (candidate, attempt)),
        forall|c: u8, a: u32, g: Result<CdtMesh, CdtError>| #[trigger] call_ensures(*build, (c, a), g) ==> (g matches Ok(
            m,
        ) ==> m.consistent()),
    ensures
        exists|g: Result<CdtMesh, CdtError>|
            call_ensures(*build, (candidate, attempt), g) && result == checked_attempt(
                g,
                target.total_vertices,
                target.expected_vertices,
                target.expected_faces,
                target.coordinate_range,
                attempt,
            ),
        result matches Ok(m) ==> m.consistent(),
{
    let generated = build(candidate, attempt);
    let ghost g = generated;
    let result = match generated {
        Err(e) => Err(remap_toroidal_generation_error(e, target.total_vertices, attempt)),
        Ok(mesh) => match validate_toroidal_counts(
            &mesh,
            target.total_vertices,
            target.expected_vertices,
            target.expected_faces,
            target.coordinate_range,
            attempt,
        ) {
            Ok(()) => Ok(mesh),
            Err(e) => Err(e),
        },
    };
    proof {
        assert(call_ensures(*build, (candidate, attempt), g));
        assert(result == checked_attempt(
            g,
            target.total_vertices,
            target.expected_vertices,
            target.expected_faces,
            target.coordinate_range,
            attempt,
        ));
    }
    result
}

impl CdtTriangulation {
    /// Tries the embedding candidates `first..end`, wrapping the first mesh
    /// that passes its checks as a toroidal CDT with the given slice sizes.
    fn build_toroidal<B: Fn(u8, u32) -> Result<CdtMesh, CdtError>>(
        build: B,
        first: u8,
        end: u8,
        target: ToroidalTarget,
        num_slices: u32,
        sizes: Vec<usize>,
    ) -> (result: Result<CdtTriangulation, CdtError>)
        requires
            first < end,
            forall|c: u8, a: u32| first <= c < end ==> call_requires(build, (c, a)),
            forall|c: u8, a: u32, g: Result<CdtMesh, CdtError>| #[trigger] call_ensures(build, (c, a), g) ==> (g matches Ok(
                m,
            ) ==> m.consistent()),
            num_slices >= 3,
            usable_sizes(sizes@, num_slices),
        ensures
            toroidal_outcome(build, first, end, target, num_slices, sizes@, result),
    {
        let build_ref = &build;
        let attempt_one = |candidate: u8, attempt: u32| -> (r: Result<CdtMesh, CdtError>)
            requires
                first <= candidate < end,
            ensures
                exists|g: Result<CdtMesh, CdtError>|
                    call_ensures(*build_ref, (candidate, attempt), g) && r == checked_attempt(
                        g,
                        target.total_vertices,
                        target.expected_vertices,
                        target.expected_faces,
                        target.coordinate_range,
                        attempt,
                    ),
                r matches Ok(m) ==> m.consistent(),
            { toroidal_attempt(build_ref, candidate, attempt, target) };
        let no_candidates = || -> (e: CdtError)
            {
                toroidal_generation_error(
                    target.total_vertices,
                    target.coordinate_range,
                    0,
                    DelaunayGenerationFailure::NoEmbeddingCandidates,
                )
            };
        let found = first_valid_toroidal_candidate(first, end, attempt_one, no_candidates);
        proof {
            let k = choose|k: int|
                0 <= k < end - first && #[trigger] attempt_gave(attempt_one, first, k, found) && (found is Err ==> k
                    == end - first - 1) && forall|j: int| 0 <= j < k ==> #[trigger] attempt_failed(attempt_one, first, j);
            assert forall|j: int| 0 <= j < k implies #[trigger] toroidal_attempt_failed(build, first, j, target) by {
                assert(attempt_failed(attempt_one, first, j));
                let e = choose|e: CdtError| call_ensures(attempt_one, ((first + j) as u8, (j + 1) as u32), Err(e));
                let g = choose|g: Result<CdtMesh, CdtError>|
                    call_ensures(build, ((first + j) as u8, (j + 1) as u32), g) && Err::<CdtMesh, CdtError>(e)
                        == #[trigger] checked_attempt(
                        g,
                        target.total_vertices,
                        target.expected_vertices,
                        target.expected_faces,
                        target.coordinate_range,
                        (j + 1) as u32,
                    );
            };
        }
        let mesh = match found {
            Ok(mesh) => mesh,
            Err(e) => {
                proof {
                    let k = choose|k: int|
                        0 <= k < end - first && #[trigger] attempt_gave(attempt_one, first, k, found) && (found is Err
                            ==> k == end - first - 1) && forall|j: int| 0 <= j < k ==> #[trigger] attempt_failed(attempt_one, first, j);
                    assert(toroidal_attempt_final(build, first, end, k, target, num_slices, sizes@, Err(e)));
                }
                return Err(e);
            },
        };
        let result = Self::wrap_with_foliation(mesh, num_slices, CdtTopology::Toroidal, sizes);
        proof {
            let k = choose|k: int|
                0 <= k < end - first && #[trigger] attempt_gave(attempt_one, first, k, found) && (found is Err ==> k
                    == end - first - 1) && forall|j: int| 0 <= j < k ==> #[trigger] attempt_failed(attempt_one, first, j);
            assert(toroidal_attempt_final(build, first, end, k, target, num_slices, sizes@, result));
        }
        result
    }
}

/// Largest entry of a profile; 1 for an empty one.
pub open spec fn profile_max(profile: Seq<u32>) -> u32
    decreases profile.len(),
{
    if profile.len() == 0 {
        1
    } else if profile.len() == 1 {
        profile[0]
    } else {
        let m = profile_max(profile.drop_last());
        if profile.last() > m { profile.last() } else { m }
    }
}

fn max_slice_volume(profile: &Vec<u32>) -> (m: u32)
    ensures
        m == profile_max(profile@),
{
    if profile.len() == 0 {
        return 1;
    }
    let mut m = profile[0];
    let mut i: usize = 1;
    while i < profile.len()
        invariant
            1 <= i <= profile@.len(),
            m == profile_max(profile@.take(i as int)),
        decreases profile@.len() - i,
    {
        assert(profile@.take(i + 1).drop_last() == profile@.take(i as int));
        if profile[i] > m {
            m = profile[i];
        }
        i = i + 1;
    }
    assert(profile@.take(i as int) == profile@);
    m
}

/// The coordinate range of a torus whose lattice spans `a × b` spacings.
pub open spec fn torus_range(a: u32, b: u32) -> CoordinateRange {
    CoordinateRange { start: 0, end: ((if a > b { a } else { b }) - 1) as i64 }
}

fn torus_range_of(a: u32, b: u32) -> (r: CoordinateRange)
    ensures
        r == torus_range(a, b),
{
    let m = if a > b { a } else { b };
    CoordinateRange { start: 0, end: m as i64 - 1 }
}

/// Number of embedding candidates a toroidal builder tries.
pub const TOROIDAL_EMBEDDING_ATTEMPTS: u8 = 14;

impl CdtTriangulation {
    /// Builds a 1+1 CDT on a torus with `num_slices` periodic slices of
    /// `vertices_per_slice` vertices each.
    ///
    /// After the parameter checks, `build` is asked for a mesh for the
    /// embedding candidates `0..14` in turn (with the one-based attempt
    /// ordinal); the first mesh with `N·T` vertices and `2·N·T` faces is
    /// wrapped and validated as a strict toroidal CDT.
    ///
    /// # Errors
    ///
    /// In this order: [`GenerationParameterIssue::InsufficientVerticesPerSlice`]
    /// and [`GenerationParameterIssue::InsufficientNumberOfTimeSlices`] below
    /// 3; [`GenerationParameterIssue::VertexCountOverflow`] and
    /// [`GenerationParameterIssue::SimplexCountOverflow`] when a count leaves
    /// `u32`; then the attempts' outcome as [`toroidal_outcome`] states.
    pub fn from_toroidal_cdt<B: Fn(u8, u32) -> Result<CdtMesh, CdtError>>(
        vertices_per_slice: u32,
        num_slices: u32,
        build: B,
    ) -> (result: Result<CdtTriangulation, CdtError>)
        requires
            forall|c: u8, a: u32| c < TOROIDAL_EMBEDDING_ATTEMPTS ==> call_requires(build, (c, a)),
            forall|c: u8, a: u32, g: Result<CdtMesh, CdtError>| #[trigger] call_ensures(build, (c, a), g) ==> (g matches Ok(
                m,
            ) ==> m.consistent()),
        ensures
            vertices_per_slice < 3 ==> result is Err && is_parameter_error(
                result->Err_0,
                GenerationParameterIssue::InsufficientVerticesPerSlice,
                decimal(vertices_per_slice as nat),
                "≥ 3"@,
            ),
            vertices_per_slice >= 3 && num_slices < 3 ==> result is Err && is_parameter_error(
                result->Err_0,
                GenerationParameterIssue::InsufficientNumberOfTimeSlices,
                decimal(num_slices as nat),
                "≥ 3"@,
            ),
            vertices_per_slice >= 3 && num_slices >= 3 && vertices_per_slice * num_slices > u32::MAX ==> result is Err
                && is_parameter_error(
                result->Err_0,
                GenerationParameterIssue::VertexCountOverflow,
                times_text(vertices_per_slice as nat, num_slices as nat),
                "product ≤ u32::MAX"@,
            ),
            vertices_per_slice >= 3 && num_slices >= 3 && vertices_per_slice * num_slices <= u32::MAX && 2 * (
            vertices_per_slice * num_slices) > u32::MAX ==> result is Err && is_parameter_error(
                result->Err_0,
                GenerationParameterIssue::SimplexCountOverflow,
                "2 × "@ + decimal((vertices_per_slice * num_slices) as nat),
                "product ≤ u32::MAX"@,
            ),
            vertices_per_slice >= 3 && num_slices >= 3 && 2 * (vertices_per_slice * num_slices) <= u32::MAX
                ==> toroidal_outcome(
                build,
                0,
                TOROIDAL_EMBEDDING_ATTEMPTS,
                ToroidalTarget {
                    total_vertices: (vertices_per_slice * num_slices) as u32,
                    expected_vertices: (vertices_per_slice * num_slices) as usize,
                    expected_faces: (2 * (vertices_per_slice * num_slices)) as usize,
                    coordinate_range: torus_range(vertices_per_slice, num_slices),
                },
                num_slices,
                uniform_sizes(vertices_per_slice, num_slices),
                result,
            ),
    {
        proof {
            reveal_strlit("≥ 3");
            reveal_strlit("product ≤ u32::MAX");
            reveal_strlit("2 × ");
        }
        if vertices_per_slice < 3 {
            return Err(parameter_error(
                GenerationParameterIssue::InsufficientVerticesPerSlice,
                decimal_string(vertices_per_slice as u64),
                "≥ 3",
            ));
        }
        if num_slices < 3 {
            return Err(parameter_error(
                GenerationParameterIssue::InsufficientNumberOfTimeSlices,
                decimal_string(num_slices as u64),
                "≥ 3",
            ));
        }
        let total_vertices = match vertices_per_slice.checked_mul(num_slices) {
            Some(t) => t,
            None => return Err(parameter_error(
                GenerationParameterIssue::VertexCountOverflow,
                times_string(vertices_per_slice, num_slices),
                "product ≤ u32::MAX",
            )),
        };
        let total_simplices = match total_vertices.checked_mul(2) {
            Some(f) => f,
            None => {
                let mut provided = owned("2 × ");
                push_decimal(&mut provided, total_vertices as u64);
                return Err(parameter_error(GenerationParameterIssue::SimplexCountOverflow, provided, "product ≤ u32::MAX"));
            },
        };
        let target = ToroidalTarget {
            total_vertices,
            expected_vertices: total_vertices as usize,
            expected_faces: total_simplices as usize,
            coordinate_range: torus_range_of(vertices_per_slice, num_slices),
        };
        let sizes = uniform_size_vec(vertices_per_slice, num_slices);
        proof {
            lemma_uniform_total(vertices_per_slice, num_slices as nat);
            assert((num_slices as nat) * vertices_per_slice == vertices_per_slice * num_slices) by (nonlinear_arith);
            assert(forall|i: int| 0 <= i < sizes@.len() ==> sizes@[i] != 0);
            assert(first_empty_slice(sizes@) is None);
        }
        Self::build_toroidal(build, 0, TOROIDAL_EMBEDDING_ATTEMPTS, target, num_slices, sizes)
    }

    /// Builds a periodic 1+1 CDT torus whose slices hold the vertex counts of
    /// `volume_profile`.
    ///
    /// The profile must have at least three slices of at least three
    /// vertices; `build` is asked for a mesh for the embedding candidates
    /// `1..14` in turn, and the first one with the profile's vertex total and
    /// twice as many faces is wrapped and validated.
    ///
    /// # Errors
    ///
    /// The profile's error, as [`spatial_profile_error`] states for the
    /// toroidal label; [`GenerationParameterIssue::SimplexCountOverflow`] when
    /// twice the vertex total leaves `u32`; then the attempts' outcome as
    /// [`toroidal_outcome`] states.
    pub fn from_toroidal_cdt_profile<B: Fn(u8, u32) -> Result<CdtMesh, CdtError>>(
        volume_profile: &Vec<u32>,
        build: B,
    ) -> (result: Result<CdtTriangulation, CdtError>)
        requires
            forall|c: u8, a: u32| c < TOROIDAL_EMBEDDING_ATTEMPTS ==> call_requires(build, (c, a)),
            forall|c: u8, a: u32, g: Result<CdtMesh, CdtError>| #[trigger] call_ensures(build, (c, a), g) ==> (g matches Ok(
                m,
            ) ==> m.consistent()),
        ensures
            !spatial_profile_valid(volume_profile@, 3, 3) ==> result is Err && spatial_profile_error(
                volume_profile@,
                3,
                3,
                "toroidal topology"@,
                result->Err_0,
            ),
            spatial_profile_valid(volume_profile@, 3, 3) && 2 * profile_total(volume_profile@) > u32::MAX ==> result is Err
                && is_parameter_error(
                result->Err_0,
                GenerationParameterIssue::SimplexCountOverflow,
                "2 × "@ + decimal(profile_total(volume_profile@) as nat),
                "product ≤ u32::MAX"@,
            ),
            spatial_profile_valid(volume_profile@, 3, 3) && 2 * profile_total(volume_profile@) <= u32::MAX
                ==> toroidal_outcome(
                build,
                1,
                TOROIDAL_EMBEDDING_ATTEMPTS,
                ToroidalTarget {
                    total_vertices: profile_total(volume_profile@) as u32,
                    expected_vertices: profile_total(volume_profile@) as usize,
                    expected_faces: (2 * profile_total(volume_profile@)) as usize,
                    coordinate_range: torus_range(profile_max(volume_profile@), volume_profile@.len() as u32),
                },
                volume_profile@.len() as u32,
                profile_sizes(volume_profile@),
                result,
            ),
    {
        proof {
            reveal_strlit("toroidal topology");
            reveal_strlit("product ≤ u32::MAX");
            reveal_strlit("2 × ");
        }
        let (total_vertices, num_slices) = validate_spatial_profile(volume_profile, 3, 3, "toroidal topology")?;
        proof {
            lemma_no_profile_issue(volume_profile@, 3, volume_profile@.len() as int);
            assert(volume_profile@.take(volume_profile@.len() as int) == volume_profile@);
        }
        let total_simplices = match total_vertices.checked_mul(2) {
            Some(f) => f,
            None => {
                let mut provided = owned("2 × ");
                push_decimal(&mut provided, total_vertices as u64);
                return Err(parameter_error(GenerationParameterIssue::SimplexCountOverflow, provided, "product ≤ u32::MAX"));
            },
        };
        let max_volume = max_slice_volume(volume_profile);
        let target = ToroidalTarget {
            total_vertices,
            expected_vertices: total_vertices as usize,
            expected_faces: total_simplices as usize,
            coordinate_range: torus_range_of(max_volume, num_slices),
        };
        let sizes = profile_slice_sizes(volume_profile);
        proof {
            lemma_profile_sizes_total(volume_profile@, sizes@);
            assert(sizes@ =~= profile_sizes(volume_profile@));
            assert(forall|i: int| 0 <= i < sizes@.len() ==> sizes@[i] != 0);
            assert(first_empty_slice(sizes@) is None);
        }
        Self::build_toroidal(build, 1, TOROIDAL_EMBEDDING_ATTEMPTS, target, num_slices, sizes)
    }
}

/// The state a checkpoint restores, when its slice count and foliation fit.
pub open spec fn checkpoint_state(
    mesh: CdtMesh,
    time_slices: u32,
    dimension: u8,
    topology: CdtTopology,
    modification_count: u64,
    foliation: Option<Foliation>,
) -> CdtTriangulation {
    CdtTriangulation::restored(mesh, time_slices, dimension, topology, modification_count, foliation)
}

impl CdtTriangulation {
    /// Restores a triangulation from checkpoint parts: the mesh, the
    /// metadata, the modification count and the stored foliation, which is
    /// current at that count. The restored state must pass the evolved-state
    /// validation; `geometry` is the outcome of the geometry backend's
    /// embedding check on the mesh.
    ///
    /// # Errors
    ///
    /// In this order: [`CdtError::InvalidTriangulationMetadata`] for a slice
    /// count below the topology's minimum;
    /// [`FoliationError::SliceSizeMismatch`] when the stored foliation has
    /// another slice count; then the error of the evolved-state validation of
    /// the restored state, as [`profile_error_matches`] states.
    pub fn from_checkpoint(
        mesh: CdtMesh,
        time_slices: u32,
        dimension: u8,
        topology: CdtTopology,
        modification_count: u64,
        foliation: Option<Foliation>,
        geometry: Result<(), GeometryCheckError>,
    ) -> (result: Result<CdtTriangulation, CdtError>)
        requires
            mesh.consistent(),
        ensures
            time_slices < minimum_time_slices(topology) ==> (result matches Err(e) && time_slice_error_matches(
                e,
                topology,
                time_slices,
            )),
            time_slices >= minimum_time_slices(topology) ==> (foliation matches Some(f) ==> (f.slices() != time_slices
                ==> result == Err::<CdtTriangulation, CdtError>(
                CdtError::Foliation(
                    FoliationError::SliceSizeMismatch { slice_sizes_len: f.sizes().len() as usize, num_slices: time_slices },
                ),
            ))),
            time_slices >= minimum_time_slices(topology) && (foliation matches Some(f) ==> f.slices() == time_slices)
                ==> ({
                let t = checkpoint_state(mesh, time_slices, dimension, topology, modification_count, foliation);
                &&& result is Ok <==> (geometry is Ok && domain_checks_pass(t))
                &&& result matches Err(e) ==> profile_error_matches(t, CdtValidationProfile::Evolved, geometry, e)
                &&& result matches Ok(r) ==> r == t
            }),
            result matches Ok(t) ==> t.wf() && t.mesh_spec() == mesh && t.spec_time_slices() == time_slices
                && t.spec_dimension() == dimension && t.spec_topology() == topology && t.spec_modification_count()
                == modification_count && t.stored_foliation() == foliation && t.has_current(),
    {
        proof {
            CdtTriangulation::lemma_restored(mesh, time_slices, dimension, topology, modification_count, foliation);
        }
        Self::check_time_slices(topology, time_slices)?;
        if let Some(f) = &foliation {
            let slices = f.num_slices();
            if slices != time_slices {
                let len = f.slice_sizes().len();
                return Err(CdtError::Foliation(FoliationError::SliceSizeMismatch { slice_sizes_len: len, num_slices: time_slices }));
            }
        }
        let t = Self::restore(mesh, time_slices, dimension, topology, modification_count, foliation);
        match t.validate_with_profile(CdtValidationProfile::Evolved, geometry) {
            Ok(()) => Ok(t),
            Err(e) => Err(e),
        }
    }
}

} // verus!
