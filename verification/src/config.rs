//! Configuration rules for CDT simulations: the raw configuration, its
//! validation, override merging and the validated configuration.
//!
//! Real-valued settings (temperature and couplings) reach the rules as a
//! [`RealSetting`]: the value's bit pattern, its decimal rendering and the
//! properties the rules ask of it.

use crate::errors::{CdtError, ConfigurationSetting};
use crate::text::{decimal, decimal_string, list_string, list_text, owned, push_decimal};
use crate::triangulation::builders::{
    checked_profile_total, first_profile_issue, lemma_first_profile_issue_stable, profile_total, ProfileIssue,
};
use vstd::prelude::*;
use vstd::string::*;

verus! {

/// Topology of the spatial slices in the CDT triangulation.
///
/// - `OpenBoundary`: a finite planar strip with Euler characteristic 1;
/// - `Toroidal`: periodic in space and time (S¹×S¹), Euler characteristic 0.
#[derive(Debug, Clone, Copy, PartialEq, Eq)]
pub enum CdtTopology {
    OpenBoundary,
    Toroidal,
}

/// A real-valued setting as the configuration rules see it.
#[derive(Debug, Clone, PartialEq, Eq)]
pub struct RealSetting {
    /// IEEE-754 bit pattern of the value.
    pub bits: u64,
    /// Shortest decimal rendering of the value.
    pub text: String,
    /// The value is finite.
    pub finite: bool,
    /// The value is greater than zero.
    pub positive: bool,
    /// The reciprocal of the value is finite.
    pub finite_reciprocal: bool,
}

/// Raw configuration of a CDT run.
///
/// `vertices` is the total initial vertex count; for regular initial data it
/// divides evenly by `timeslices`. An explicit `spatial_vertex_profile` gives
/// the vertex count of every slice instead; it then has `timeslices` entries
/// summing to `vertices`.
#[derive(Debug, Clone, PartialEq, Eq)]
pub struct CdtConfig {
    pub dimension: Option<u8>,
    pub vertices: u32,
    pub timeslices: u32,
    pub spatial_vertex_profile: Option<Vec<u32>>,
    pub temperature: RealSetting,
    pub steps: u32,
    pub thermalization_steps: u32,
    pub measurement_frequency: u32,
    pub coupling_0: RealSetting,
    pub coupling_2: RealSetting,
    pub cosmological_constant: RealSetting,
    pub simulate: bool,
    pub seed: Option<u64>,
    pub topology: CdtTopology,
    pub output_csv: Option<String>,
    pub output_json: Option<String>,
}

/// `e` is an [`CdtError::InvalidConfiguration`] error with these contents.
pub open spec fn is_config_error(e: CdtError, setting: ConfigurationSetting, provided: Seq<char>, expected: Seq<char>) -> bool {
    e matches CdtError::InvalidConfiguration { setting: s, provided_value, expected: x } && s == setting
        && provided_value@ == provided && x@ == expected
}

/// `e` is an [`CdtError::InvalidSimulationConfiguration`] error with these
/// contents.
pub open spec fn is_sim_config_error(e: CdtError, setting: ConfigurationSetting, provided: Seq<char>, expected: Seq<char>) -> bool {
    e matches CdtError::InvalidSimulationConfiguration { setting: s, provided_value, expected: x } && s
        == setting && provided_value@ == provided && x@ == expected
}

/// Builds a configuration error.
pub fn invalid_config_parts(setting: ConfigurationSetting, provided_value: String, expected: String) -> (e: CdtError)
    ensures
        is_config_error(e, setting, provided_value@, expected@),
{
    CdtError::InvalidConfiguration { setting, provided_value, expected }
}

/// Builds a configuration error for a count.
pub fn invalid_config(setting: ConfigurationSetting, provided_value: u64, expected: &str) -> (e: CdtError)
    ensures
        is_config_error(e, setting, decimal(provided_value as nat), expected@),
{
    invalid_config_parts(setting, decimal_string(provided_value), owned(expected))
}

/// Builds a simulation-configuration error.
pub fn invalid_sim_config_parts(setting: ConfigurationSetting, provided_value: String, expected: String) -> (e: CdtError)
    ensures
        is_sim_config_error(e, setting, provided_value@, expected@),
{
    CdtError::InvalidSimulationConfiguration { setting, provided_value, expected }
}

/// A positive configuration count.
///
/// # Errors
///
/// [`CdtError::InvalidConfiguration`] naming `setting` when `value` is zero.
pub fn nonzero_config_count(setting: ConfigurationSetting, value: u32) -> (result: Result<u32, CdtError>)
    ensures
        value > 0 ==> result == Ok::<u32, CdtError>(value),
        value == 0 ==> result is Err && is_config_error(result->Err_0, setting, "0"@, "≥ 1"@),
{
    if value == 0 {
        proof {
            reveal_strlit("≥ 1");
            reveal_strlit("0");
            assert(decimal(0) =~= "0"@);
        }
        return Err(invalid_config(setting, 0, "≥ 1"));
    }
    Ok(value)
}

/// The first step at or after `thermalization_steps` at which a measurement
/// is taken: the next multiple of `measurement_frequency`.
pub open spec fn first_measurement(thermalization_steps: u32, measurement_frequency: u32) -> int {
    ((thermalization_steps + measurement_frequency - 1) / measurement_frequency as int) * measurement_frequency
}

/// `"≤ steps ({steps})"`.
pub open spec fn at_most_steps(steps: u32) -> Seq<char> {
    "≤ steps ("@ + decimal(steps as nat) + ")"@
}

/// The rendering of a measurement schedule.
pub open spec fn schedule_text(steps: u32, thermalization_steps: u32, measurement_frequency: u32) -> Seq<char> {
    "steps="@ + decimal(steps as nat) + ", thermalization_steps="@ + decimal(thermalization_steps as nat)
        + ", measurement_frequency="@ + decimal(measurement_frequency as nat)
}

/// The temperature is usable: finite, positive, with a finite reciprocal.
pub open spec fn temperature_ok(temperature: RealSetting) -> bool {
    temperature.finite && temperature.positive && temperature.finite_reciprocal
}

/// The Metropolis schedule passes [`validate_schedule`].
pub open spec fn schedule_valid(
    temperature: RealSetting,
    steps: u32,
    thermalization_steps: u32,
    measurement_frequency: u32,
) -> bool {
    &&& temperature_ok(temperature)
    &&& steps >= 1
    &&& measurement_frequency >= 1
    &&& measurement_frequency <= steps
    &&& thermalization_steps <= steps
    &&& first_measurement(thermalization_steps, measurement_frequency) <= steps
}

/// `e` is the error [`validate_schedule`] reports, checks taken in order.
pub open spec fn schedule_error(
    temperature: RealSetting,
    steps: u32,
    thermalization_steps: u32,
    measurement_frequency: u32,
    e: CdtError,
) -> bool {
    if !temperature_ok(temperature) {
        is_sim_config_error(
            e,
            ConfigurationSetting::Temperature,
            temperature.text@,
            "finite and positive with a finite reciprocal"@,
        )
    } else if steps == 0 {
        is_sim_config_error(e, ConfigurationSetting::Steps, decimal(steps as nat), "≥ 1"@)
    } else if measurement_frequency == 0 {
        is_sim_config_error(e, ConfigurationSetting::MeasurementFrequency, decimal(measurement_frequency as nat), "≥ 1"@)
    } else if measurement_frequency > steps {
        is_sim_config_error(
            e,
            ConfigurationSetting::MeasurementFrequency,
            decimal(measurement_frequency as nat),
            at_most_steps(steps),
        )
    } else if thermalization_steps > steps {
        is_sim_config_error(
            e,
            ConfigurationSetting::ThermalizationSteps,
            decimal(thermalization_steps as nat),
            at_most_steps(steps),
        )
    } else {
        is_sim_config_error(
            e,
            ConfigurationSetting::MeasurementSchedule,
            schedule_text(steps, thermalization_steps, measurement_frequency),
            "at least one post-thermalization measurement"@,
        )
    }
}

fn at_most_steps_string(steps: u32) -> (s: String)
    ensures
        s@ == at_most_steps(steps),
{
    proof {
        reveal_strlit("≤ steps (");
        reveal_strlit(")");
    }
    let mut s = owned("≤ steps (");
    push_decimal(&mut s, steps as u64);
    s.append(")");
    s
}

/// Validates a Metropolis schedule: a usable temperature, at least one step,
/// a measurement frequency between 1 and `steps`, thermalization within
/// `steps`, and at least one measurement after thermalization.
///
/// # Errors
///
/// [`CdtError::InvalidSimulationConfiguration`] for the first failing check,
/// as [`schedule_error`] states.
pub fn validate_schedule(
    temperature: &RealSetting,
    steps: u32,
    thermalization_steps: u32,
    measurement_frequency: u32,
) -> (result: Result<(), CdtError>)
    ensures
        result is Ok <==> schedule_valid(*temperature, steps, thermalization_steps, measurement_frequency),
        result matches Err(e) ==> schedule_error(*temperature, steps, thermalization_steps, measurement_frequency, e),
{
    proof {
        reveal_strlit("finite and positive with a finite reciprocal");
        reveal_strlit("≥ 1");
        reveal_strlit("at least one post-thermalization measurement");
        reveal_strlit("steps=");
        reveal_strlit(", thermalization_steps=");
        reveal_strlit(", measurement_frequency=");
    }
    if !(temperature.finite && temperature.positive && temperature.finite_reciprocal) {
        return Err(invalid_sim_config_parts(
            ConfigurationSetting::Temperature,
            temperature.text.clone(),
            owned("finite and positive with a finite reciprocal"),
        ));
    }
    if steps == 0 {
        return Err(invalid_sim_config_parts(ConfigurationSetting::Steps, decimal_string(0), owned("≥ 1")));
    }
    if measurement_frequency == 0 {
        return Err(invalid_sim_config_parts(
            ConfigurationSetting::MeasurementFrequency,
            decimal_string(0),
            owned("≥ 1"),
        ));
    }
    if measurement_frequency > steps {
        return Err(invalid_sim_config_parts(
            ConfigurationSetting::MeasurementFrequency,
            decimal_string(measurement_frequency as u64),
            at_most_steps_string(steps),
        ));
    }
    if thermalization_steps > steps {
        return Err(invalid_sim_config_parts(
            ConfigurationSetting::ThermalizationSteps,
            decimal_string(thermalization_steps as u64),
            at_most_steps_string(steps),
        ));
    }
    let t = thermalization_steps as u64;
    let f = measurement_frequency as u64;
    let num = t + f - 1;
    let q = num / f;
    assert(q * f <= num) by (nonlinear_arith)
        requires
            q == num / f,
            f > 0,
    ;
    let first = q * f;
    if first > steps as u64 {
        let mut provided = owned("steps=");
        push_decimal(&mut provided, steps as u64);
        provided.append(", thermalization_steps=");
        push_decimal(&mut provided, thermalization_steps as u64);
        provided.append(", measurement_frequency=");
        push_decimal(&mut provided, measurement_frequency as u64);
        return Err(invalid_sim_config_parts(
            ConfigurationSetting::MeasurementSchedule,
            provided,
            owned("at least one post-thermalization measurement"),
        ));
    }
    Ok(())
}

/// Fewest time slices a topology admits in a configuration.
pub open spec fn minimum_slices_for(topology: CdtTopology) -> u32 {
    if topology == CdtTopology::OpenBoundary { 2 } else { 3 }
}

/// Fewest vertices a slice may hold under a topology.
pub open spec fn minimum_slice_volume(topology: CdtTopology) -> u32 {
    if topology == CdtTopology::OpenBoundary { 4 } else { 3 }
}

/// How diagnostics name a topology.
pub open spec fn topology_label(topology: CdtTopology) -> Seq<char> {
    if topology == CdtTopology::OpenBoundary { "open-boundary topology"@ } else { "toroidal topology"@ }
}

fn topology_rules(topology: CdtTopology) -> (r: (u32, u32, &'static str))
    ensures
        r.0 == minimum_slices_for(topology),
        r.1 == minimum_slice_volume(topology),
        r.2@ == topology_label(topology),
{
    proof {
        reveal_strlit("open-boundary topology");
        reveal_strlit("toroidal topology");
    }
    match topology {
        CdtTopology::OpenBoundary => (2, 4, "open-boundary topology"),
        CdtTopology::Toroidal => (3, 3, "toroidal topology"),
    }
}

/// An explicit profile fits the configuration: one entry per slice, each at
/// least `minimum`, summing to `vertices`.
pub open spec fn profile_fits(profile: Seq<u32>, timeslices: u32, vertices: u32, minimum: u32) -> bool {
    &&& profile.len() == timeslices
    &&& first_profile_issue(profile, minimum, profile.len() as int) is None
    &&& profile_total(profile) == vertices
}

/// `e` is the error an unfitting explicit profile is reported with, checks
/// taken in order.
pub open spec fn profile_error(
    profile: Seq<u32>,
    timeslices: u32,
    vertices: u32,
    minimum: u32,
    label: Seq<char>,
    e: CdtError,
) -> bool {
    if profile.len() != timeslices {
        is_config_error(
            e,
            ConfigurationSetting::SpatialVertexProfile,
            decimal(profile.len()) + " entries"@,
            decimal(timeslices as nat) + " entries for configured timeslices"@,
        )
    } else {
        match first_profile_issue(profile, minimum, profile.len() as int) {
            Some((i, ProfileIssue::TooFewVertices)) => is_config_error(
                e,
                ConfigurationSetting::SpatialVertexProfile,
                "slice "@ + decimal(i as nat) + " has "@ + decimal(profile[i] as nat),
                "each slice ≥ "@ + decimal(minimum as nat) + " for "@ + label,
            ),
            Some((i, ProfileIssue::SumOverflow)) => is_config_error(
                e,
                ConfigurationSetting::SpatialVertexProfile,
                list_text(profile),
                "sum must fit in u32"@,
            ),
            None => is_config_error(
                e,
                ConfigurationSetting::Vertices,
                decimal(vertices as nat),
                "sum of spatial_vertex_profile ("@ + decimal(profile_total(profile) as nat) + ")"@,
            ),
        }
    }
}

/// The initial spatial volume fits the topology.
pub open spec fn volume_valid(c: CdtConfig) -> bool {
    let min_s = minimum_slices_for(c.topology);
    let min_v = minimum_slice_volume(c.topology);
    &&& c.timeslices >= min_s
    &&& match c.spatial_vertex_profile {
        Some(p) => profile_fits(p@, c.timeslices, c.vertices, min_v),
        None => {
            &&& c.vertices % c.timeslices == 0
            &&& c.timeslices * min_v <= u32::MAX
            &&& c.vertices >= c.timeslices * min_v
        },
    }
}

/// `e` is the error the volume check reports, checks taken in order.
pub open spec fn volume_error(c: CdtConfig, e: CdtError) -> bool {
    let min_s = minimum_slices_for(c.topology);
    let min_v = minimum_slice_volume(c.topology);
    let label = topology_label(c.topology);
    if c.timeslices < min_s {
        is_config_error(
            e,
            ConfigurationSetting::Timeslices,
            decimal(c.timeslices as nat),
            "≥ "@ + decimal(min_s as nat) + " for "@ + label,
        )
    } else if c.spatial_vertex_profile is Some {
        profile_error(c.spatial_vertex_profile->0@, c.timeslices, c.vertices, min_v, label, e)
    } else if c.vertices % c.timeslices != 0 {
        is_config_error(
            e,
            ConfigurationSetting::Vertices,
            decimal(c.vertices as nat),
            "divisible by timeslices ("@ + decimal(c.timeslices as nat) + ") for "@ + label,
        )
    } else if c.timeslices * min_v > u32::MAX {
        is_config_error(
            e,
            ConfigurationSetting::Timeslices,
            decimal(c.timeslices as nat),
            decimal(min_v as nat) + " · timeslices must fit in u32 for "@ + label,
        )
    } else {
        is_config_error(
            e,
            ConfigurationSetting::Vertices,
            decimal(c.vertices as nat),
            "≥ "@ + decimal(min_v as nat) + " · timeslices ("@ + decimal((c.timeslices * min_v) as nat) + ") for "@
                + label,
        )
    }
}


/// Checks an explicit profile against the configured counts.
fn validate_explicit_spatial_vertex_profile(
    profile: &Vec<u32>,
    timeslices: u32,
    vertices: u32,
    minimum_vertices_per_slice: u32,
    topology_label: &str,
) -> (result: Result<(), CdtError>)
    ensures
        result is Ok <==> profile_fits(profile@, timeslices, vertices, minimum_vertices_per_slice),
        result matches Err(e) ==> profile_error(
            profile@,
            timeslices,
            vertices,
            minimum_vertices_per_slice,
            topology_label@,
            e,
        ),
{
    proof {
        reveal_strlit(" entries");
        reveal_strlit(" entries for configured timeslices");
        reveal_strlit("slice ");
        reveal_strlit(" has ");
        reveal_strlit("each slice ≥ ");
        reveal_strlit(" for ");
        reveal_strlit("sum must fit in u32");
        reveal_strlit("sum of spatial_vertex_profile (");
        reveal_strlit(")");
    }
    if profile.len() != timeslices as usize {
        let mut provided = decimal_string(profile.len() as u64);
        provided.append(" entries");
        let mut expected = decimal_string(timeslices as u64);
        expected.append(" entries for configured timeslices");
        return Err(invalid_config_parts(ConfigurationSetting::SpatialVertexProfile, provided, expected));
    }
    let mut total: u32 = 0;
    let mut slice: usize = 0;
    while slice < profile.len()
        invariant
            slice <= profile@.len(),
            profile@.len() == timeslices,
            total == profile_total(profile@.take(slice as int)),
            first_profile_issue(profile@, minimum_vertices_per_slice, slice as int) is None,
        decreases profile@.len() - slice,
    {
        assert(profile@.take(slice + 1).drop_last() == profile@.take(slice as int));
        let volume = profile[slice];
        if volume < minimum_vertices_per_slice {
            proof {
                lemma_first_profile_issue_stable(profile@, minimum_vertices_per_slice, slice + 1, profile@.len() as int);
            }
            let mut provided = owned("slice ");
            push_decimal(&mut provided, slice as u64);
            provided.append(" has ");
            push_decimal(&mut provided, volume as u64);
            let mut expected = owned("each slice ≥ ");
            push_decimal(&mut expected, minimum_vertices_per_slice as u64);
            expected.append(" for ");
            expected.append(topology_label);
            return Err(invalid_config_parts(ConfigurationSetting::SpatialVertexProfile, provided, expected));
        }
        if total > u32::MAX - volume {
            proof {
                lemma_first_profile_issue_stable(profile@, minimum_vertices_per_slice, slice + 1, profile@.len() as int);
            }
            return Err(invalid_config_parts(
                ConfigurationSetting::SpatialVertexProfile,
                list_string(profile),
                owned("sum must fit in u32"),
            ));
        }
        total = total + volume;
        slice = slice + 1;
    }
    assert(profile@.take(slice as int) == profile@);
    if total != vertices {
        let mut expected = owned("sum of spatial_vertex_profile (");
        push_decimal(&mut expected, total as u64);
        expected.append(")");
        return Err(invalid_config_parts(ConfigurationSetting::Vertices, decimal_string(vertices as u64), expected));
    }
    Ok(())
}

/// Checks the initial spatial volume against the topology.
fn validate_volume_constraints(config: &CdtConfig) -> (result: Result<(), CdtError>)
    ensures
        result is Ok <==> volume_valid(*config),
        result matches Err(e) ==> volume_error(*config, e),
{
    proof {
        reveal_strlit("≥ ");
        reveal_strlit(" for ");
        reveal_strlit("divisible by timeslices (");
        reveal_strlit(") for ");
        reveal_strlit(" · timeslices must fit in u32 for ");
        reveal_strlit(" · timeslices (");
    }
    let (minimum_slices, minimum_vertices_per_slice, label) = topology_rules(config.topology);
    if config.timeslices < minimum_slices {
        let mut expected = owned("≥ ");
        push_decimal(&mut expected, minimum_slices as u64);
        expected.append(" for ");
        expected.append(label);
        return Err(invalid_config_parts(
            ConfigurationSetting::Timeslices,
            decimal_string(config.timeslices as u64),
            expected,
        ));
    }
    if let Some(profile) = &config.spatial_vertex_profile {
        return validate_explicit_spatial_vertex_profile(
            profile,
            config.timeslices,
            config.vertices,
            minimum_vertices_per_slice,
            label,
        );
    }
    if config.vertices % config.timeslices != 0 {
        let mut expected = owned("divisible by timeslices (");
        push_decimal(&mut expected, config.timeslices as u64);
        expected.append(") for ");
        expected.append(label);
        return Err(invalid_config_parts(ConfigurationSetting::Vertices, decimal_string(config.vertices as u64), expected));
    }
    let min_total = match config.timeslices.checked_mul(minimum_vertices_per_slice) {
        Some(m) => m,
        None => {
            let mut expected = decimal_string(minimum_vertices_per_slice as u64);
            expected.append(" · timeslices must fit in u32 for ");
            expected.append(label);
            return Err(invalid_config_parts(
                ConfigurationSetting::Timeslices,
                decimal_string(config.timeslices as u64),
                expected,
            ));
        },
    };
    if config.vertices < min_total {
        let mut expected = owned("≥ ");
        push_decimal(&mut expected, minimum_vertices_per_slice as u64);
        expected.append(" · timeslices (");
        push_decimal(&mut expected, min_total as u64);
        expected.append(") for ");
        expected.append(label);
        return Err(invalid_config_parts(ConfigurationSetting::Vertices, decimal_string(config.vertices as u64), expected));
    }
    Ok(())
}

/// The action couplings are finite.
pub open spec fn action_valid(c: CdtConfig) -> bool {
    c.coupling_0.finite && c.coupling_2.finite && c.cosmological_constant.finite
}

/// `e` is the error for the first non-finite coupling.
pub open spec fn action_error(c: CdtConfig, e: CdtError) -> bool {
    if !c.coupling_0.finite {
        is_config_error(e, ConfigurationSetting::Coupling0, c.coupling_0.text@, "finite"@)
    } else if !c.coupling_2.finite {
        is_config_error(e, ConfigurationSetting::Coupling2, c.coupling_2.text@, "finite"@)
    } else {
        is_config_error(e, ConfigurationSetting::CosmologicalConstant, c.cosmological_constant.text@, "finite"@)
    }
}

/// The configuration passes every rule.
pub open spec fn config_valid(c: CdtConfig) -> bool {
    &&& c.vertices >= 3
    &&& c.timeslices >= 1
    &&& (c.dimension matches Some(d) ==> d == 2)
    &&& action_valid(c)
    &&& volume_valid(c)
    &&& schedule_valid(c.temperature, c.steps, c.thermalization_steps, c.measurement_frequency)
}

/// `e` is the error of the first failing rule: vertex count, slice count,
/// dimension, couplings, initial volume, then the Metropolis schedule.
pub open spec fn config_error(c: CdtConfig, e: CdtError) -> bool {
    if c.vertices < 3 {
        is_config_error(e, ConfigurationSetting::Vertices, decimal(c.vertices as nat), "≥ 3"@)
    } else if c.timeslices == 0 {
        is_config_error(e, ConfigurationSetting::Timeslices, decimal(0), "≥ 1"@)
    } else if c.dimension matches Some(d) && d != 2 {
        is_config_error(e, ConfigurationSetting::Dimension, decimal(c.dimension->0 as nat), "2"@)
    } else if !action_valid(c) {
        action_error(c, e)
    } else if !volume_valid(c) {
        volume_error(c, e)
    } else {
        schedule_error(c.temperature, c.steps, c.thermalization_steps, c.measurement_frequency, e)
    }
}

/// Checks a finite coupling.
fn check_finite(setting: ConfigurationSetting, value: &RealSetting) -> (result: Result<(), CdtError>)
    ensures
        result is Ok <==> value.finite,
        result matches Err(e) ==> is_config_error(e, setting, value.text@, "finite"@),
{
    if !value.finite {
        return Err(invalid_config_parts(setting, value.text.clone(), owned("finite")));
    }
    Ok(())
}

impl CdtConfig {
    /// The effective dimension: 2 when none is set.
    pub fn dimension(&self) -> (d: u8)
        ensures
            d == (match self.dimension {
                Some(d) => d,
                None => 2,
            }),
    {
        match self.dimension {
            Some(d) => d,
            None => 2,
        }
    }

    /// Checks every configuration rule.
    ///
    /// # Errors
    ///
    /// The error of the first failing rule, as [`config_error`] states.
    pub fn ensure_valid(&self) -> (result: Result<(), CdtError>)
        ensures
            result is Ok <==> config_valid(*self),
            result matches Err(e) ==> config_error(*self, e),
    {
        proof {
            reveal_strlit("≥ 3");
            reveal_strlit("≥ 1");
            reveal_strlit("2");
            reveal_strlit("finite");
        }
        if self.vertices < 3 {
            return Err(invalid_config(ConfigurationSetting::Vertices, self.vertices as u64, "≥ 3"));
        }
        if self.timeslices == 0 {
            return Err(invalid_config(ConfigurationSetting::Timeslices, 0, "≥ 1"));
        }
        if let Some(d) = self.dimension {
            if d != 2 {
                return Err(invalid_config(ConfigurationSetting::Dimension, d as u64, "2"));
            }
        }
        check_finite(ConfigurationSetting::Coupling0, &self.coupling_0)?;
        check_finite(ConfigurationSetting::Coupling2, &self.coupling_2)?;
        check_finite(ConfigurationSetting::CosmologicalConstant, &self.cosmological_constant)?;
        validate_volume_constraints(self)?;
        validate_schedule(&self.temperature, self.steps, self.thermalization_steps, self.measurement_frequency)
    }

    /// Validates this configuration.
    ///
    /// # Errors
    ///
    /// As [`ValidatedCdtConfig::new`].
    pub fn into_validated(self) -> (result: Result<ValidatedCdtConfig, CdtError>)
        ensures
            result is Ok <==> config_valid(self),
            result matches Ok(v) ==> v.spec_config() == self,
            result matches Err(e) ==> config_error(self, e),
    {
        ValidatedCdtConfig::new(self)
    }
}

/// Validated initial spatial-vertex input for CDT construction.
#[derive(Debug, Clone, PartialEq, Eq)]
pub enum ValidatedInitialSpatialVertices {
    /// Regular equal-size spatial slices.
    Regular {
        /// Number of vertices in each slice.
        vertices_per_slice: u32,
    },
    /// Explicit nonuniform spatial slice vertex counts.
    ExplicitProfile(Vec<u32>),
}

/// A configuration that has passed every rule, with its derived initial
/// spatial-vertex input.
#[derive(Debug)]
pub struct ValidatedCdtConfig {
    config: CdtConfig,
    initial_spatial_vertices: ValidatedInitialSpatialVertices,
}

/// The initial spatial-vertex input a valid configuration determines.
pub open spec fn initial_matches(c: CdtConfig, initial: ValidatedInitialSpatialVertices) -> bool {
    match c.spatial_vertex_profile {
        Some(p) => initial matches ValidatedInitialSpatialVertices::ExplicitProfile(q) && q@ == p@,
        None => initial == ValidatedInitialSpatialVertices::Regular { vertices_per_slice: c.vertices / c.timeslices },
    }
}

fn copy_profile(profile: &Vec<u32>) -> (r: Vec<u32>)
    ensures
        r@ == profile@,
{
    let mut r: Vec<u32> = Vec::new();
    let mut i: usize = 0;
    while i < profile.len()
        invariant
            i <= profile@.len(),
            r@ == profile@.take(i as int),
        decreases profile@.len() - i,
    {
        r.push(profile[i]);
        i = i + 1;
    }
    assert(profile@.take(i as int) == profile@);
    r
}

impl ValidatedCdtConfig {
    #[verifier::type_invariant]
    closed spec fn well_formed(self) -> bool {
        config_valid(self.config) && initial_matches(self.config, self.initial_spatial_vertices)
    }

    /// The validated configuration.
    pub closed spec fn spec_config(self) -> CdtConfig {
        self.config
    }

    /// The initial spatial-vertex input.
    pub closed spec fn spec_initial(self) -> ValidatedInitialSpatialVertices {
        self.initial_spatial_vertices
    }

    /// Validates a raw configuration.
    ///
    /// # Errors
    ///
    /// [`CdtError::InvalidConfiguration`] or
    /// [`CdtError::InvalidSimulationConfiguration`] for the first failing rule,
    /// as [`config_error`] states.
    pub fn new(config: CdtConfig) -> (result: Result<Self, CdtError>)
        ensures
            result is Ok <==> config_valid(config),
            result matches Ok(v) ==> v.spec_config() == config && initial_matches(config, v.spec_initial()),
            result matches Err(e) ==> config_error(config, e),
            validation_outcome(config, result),
    {
        config.ensure_valid()?;
        let initial_spatial_vertices = match &config.spatial_vertex_profile {
            Some(profile) => ValidatedInitialSpatialVertices::ExplicitProfile(copy_profile(profile)),
            None => ValidatedInitialSpatialVertices::Regular {
                vertices_per_slice: config.vertices / config.timeslices,
            },
        };
        Ok(ValidatedCdtConfig { config, initial_spatial_vertices })
    }

    /// The validated configuration.
    pub fn config(&self) -> (c: &CdtConfig)
        ensures
            *c == self.spec_config(),
            config_valid(*c),
    {
        proof { use_type_invariant(self); }
        &self.config
    }

    /// Gives the configuration back.
    pub fn into_config(self) -> (c: CdtConfig)
        ensures
            c == self.spec_config(),
            config_valid(c),
    {
        proof { use_type_invariant(&self); }
        self.config
    }

    /// The dimension: always 2 for a valid configuration.
    pub fn dimension(&self) -> (d: u8)
        ensures
            d == 2,
    {
        proof { use_type_invariant(self); }
        self.config.dimension()
    }

    /// The total number of initial vertices, at least 3.
    pub fn vertices(&self) -> (n: u32)
        ensures
            n == self.spec_config().vertices,
            n >= 3,
    {
        proof { use_type_invariant(self); }
        self.config.vertices
    }

    /// The number of initial time slices, at least 2.
    pub fn timeslices(&self) -> (n: u32)
        ensures
            n == self.spec_config().timeslices,
            n >= 2,
    {
        proof { use_type_invariant(self); }
        self.config.timeslices
    }

    /// The explicit initial spatial-vertex profile, when there is one.
    pub fn spatial_vertex_profile(&self) -> (p: Option<&Vec<u32>>)
        ensures
            match self.spec_config().spatial_vertex_profile {
                Some(q) => p matches Some(r) && r@ == q@,
                None => p is None,
            },
    {
        proof { use_type_invariant(self); }
        match &self.initial_spatial_vertices {
            ValidatedInitialSpatialVertices::Regular { .. } => None,
            ValidatedInitialSpatialVertices::ExplicitProfile(profile) => Some(profile),
        }
    }

    /// The vertices per slice of regular initial data; `None` with an
    /// explicit profile.
    pub fn regular_vertices_per_slice(&self) -> (n: Option<u32>)
        ensures
            match self.spec_config().spatial_vertex_profile {
                Some(_) => n is None,
                None => n == Some((self.spec_config().vertices / self.spec_config().timeslices) as u32),
            },
    {
        proof { use_type_invariant(self); }
        match &self.initial_spatial_vertices {
            ValidatedInitialSpatialVertices::Regular { vertices_per_slice } => Some(*vertices_per_slice),
            ValidatedInitialSpatialVertices::ExplicitProfile(_) => None,
        }
    }

    /// The initial spatial-vertex input.
    pub fn initial_spatial_vertices(&self) -> (i: &ValidatedInitialSpatialVertices)
        ensures
            *i == self.spec_initial(),
            initial_matches(self.spec_config(), *i),
    {
        proof { use_type_invariant(self); }
        &self.initial_spatial_vertices
    }

    /// The selected topology.
    pub fn topology(&self) -> (t: CdtTopology)
        ensures
            t == self.spec_config().topology,
    {
        self.config.topology
    }

    /// Whether to simulate after construction.
    pub fn simulate(&self) -> (b: bool)
        ensures
            b == self.spec_config().simulate,
    {
        self.config.simulate
    }

    /// The trace CSV output path, if any.
    pub fn output_csv(&self) -> (p: &Option<String>)
        ensures
            *p == self.spec_config().output_csv,
    {
        &self.config.output_csv
    }

    /// The summary JSON output path, if any.
    pub fn output_json(&self) -> (p: &Option<String>)
        ensures
            *p == self.spec_config().output_json,
    {
        &self.config.output_json
    }
}

/// Regular initial data of a valid configuration has equal slices that add
/// up to the vertex count; an explicit profile has one entry per slice, each
/// at least the topology's minimum, adding up to the vertex count.
pub proof fn lemma_validated_initial_volume(c: CdtConfig, initial: ValidatedInitialSpatialVertices)
    requires
        config_valid(c),
        initial_matches(c, initial),
    ensures
        initial matches ValidatedInitialSpatialVertices::Regular { vertices_per_slice } ==> vertices_per_slice
            * c.timeslices == c.vertices && vertices_per_slice >= minimum_slice_volume(c.topology),
        initial matches ValidatedInitialSpatialVertices::ExplicitProfile(p) ==> p@.len() == c.timeslices
            && profile_total(p@) == c.vertices && forall|i: int|
            0 <= i < p@.len() ==> p@[i] >= minimum_slice_volume(c.topology),
{
    match initial {
        ValidatedInitialSpatialVertices::Regular { vertices_per_slice } => {
            let t = c.timeslices as int;
            let n = c.vertices as int;
            let m = minimum_slice_volume(c.topology) as int;
            assert(vertices_per_slice * t == n && vertices_per_slice >= m) by (nonlinear_arith)
                requires
                    t > 0,
                    n % t == 0,
                    vertices_per_slice == n / t,
                    n >= t * m,
            ;
        },
        ValidatedInitialSpatialVertices::ExplicitProfile(p) => {
            let q = c.spatial_vertex_profile->0@;
            crate::triangulation::builders::lemma_no_profile_issue(q, minimum_slice_volume(c.topology), q.len() as int);
            assert(q.take(q.len() as int) == q);
        },
    }
}

/// How an override treats the dimension.
#[derive(Debug, Clone, Copy, PartialEq, Eq)]
pub enum DimensionOverride {
    /// Replace the dimension with the supplied value.
    Value(u8),
    /// Clear the dimension so it falls back to the default.
    Clear,
}

/// Optional replacement values for a [`CdtConfig`].
///
/// `None` leaves an entry unchanged. For the optional entries (profile, seed,
/// output paths) `Some(None)` clears the entry and `Some(Some(v))` sets it.
#[derive(Debug)]
pub struct CdtConfigOverrides {
    pub dimension: Option<DimensionOverride>,
    pub vertices: Option<u32>,
    pub timeslices: Option<u32>,
    pub spatial_vertex_profile: Option<Option<Vec<u32>>>,
    pub temperature: Option<RealSetting>,
    pub steps: Option<u32>,
    pub thermalization_steps: Option<u32>,
    pub measurement_frequency: Option<u32>,
    pub coupling_0: Option<RealSetting>,
    pub coupling_2: Option<RealSetting>,
    pub cosmological_constant: Option<RealSetting>,
    pub simulate: Option<bool>,
    pub seed: Option<Option<u64>>,
    pub topology: Option<CdtTopology>,
    pub output_csv: Option<Option<String>>,
    pub output_json: Option<Option<String>>,
}

/// An override set that changes nothing.
pub open spec fn no_overrides() -> CdtConfigOverrides {
    CdtConfigOverrides {
        dimension: None,
        vertices: None,
        timeslices: None,
        spatial_vertex_profile: None,
        temperature: None,
        steps: None,
        thermalization_steps: None,
        measurement_frequency: None,
        coupling_0: None,
        coupling_2: None,
        cosmological_constant: None,
        simulate: None,
        seed: None,
        topology: None,
        output_csv: None,
        output_json: None,
    }
}

impl Default for CdtConfigOverrides {
    fn default() -> (r: Self)
        ensures
            r == no_overrides(),
    {
        CdtConfigOverrides {
            dimension: None,
            vertices: None,
            timeslices: None,
            spatial_vertex_profile: None,
            temperature: None,
            steps: None,
            thermalization_steps: None,
            measurement_frequency: None,
            coupling_0: None,
            coupling_2: None,
            cosmological_constant: None,
            simulate: None,
            seed: None,
            topology: None,
            output_csv: None,
            output_json: None,
        }
    }
}

/// `o` if set, else `base`.
pub open spec fn or_base<T>(o: Option<T>, base: T) -> T {
    match o {
        Some(v) => v,
        None => base,
    }
}

/// The configuration `base` with the overrides applied. A profile override
/// also sets the vertex count to the profile's sum and the slice count to its
/// length.
pub open spec fn merged_config(base: CdtConfig, o: CdtConfigOverrides) -> CdtConfig {
    CdtConfig {
        dimension: match o.dimension {
            Some(DimensionOverride::Value(v)) => Some(v),
            Some(DimensionOverride::Clear) => None,
            None => base.dimension,
        },
        vertices: match o.spatial_vertex_profile {
            Some(Some(p)) => profile_total(p@) as u32,
            _ => or_base(o.vertices, base.vertices),
        },
        timeslices: match o.spatial_vertex_profile {
            Some(Some(p)) => p@.len() as u32,
            _ => or_base(o.timeslices, base.timeslices),
        },
        spatial_vertex_profile: or_base(o.spatial_vertex_profile, base.spatial_vertex_profile),
        temperature: or_base(o.temperature, base.temperature),
        steps: or_base(o.steps, base.steps),
        thermalization_steps: or_base(o.thermalization_steps, base.thermalization_steps),
        measurement_frequency: or_base(o.measurement_frequency, base.measurement_frequency),
        coupling_0: or_base(o.coupling_0, base.coupling_0),
        coupling_2: or_base(o.coupling_2, base.coupling_2),
        cosmological_constant: or_base(o.cosmological_constant, base.cosmological_constant),
        simulate: or_base(o.simulate, base.simulate),
        seed: or_base(o.seed, base.seed),
        topology: or_base(o.topology, base.topology),
        output_csv: or_base(o.output_csv, base.output_csv),
        output_json: or_base(o.output_json, base.output_json),
    }
}

/// Two configurations agree entry by entry, profiles by their contents.
pub open spec fn same_config(a: CdtConfig, b: CdtConfig) -> bool {
    &&& a.dimension == b.dimension
    &&& a.vertices == b.vertices
    &&& a.timeslices == b.timeslices
    &&& match (a.spatial_vertex_profile, b.spatial_vertex_profile) {
        (Some(p), Some(q)) => p@ == q@,
        (None, None) => true,
        _ => false,
    }
    &&& a.temperature == b.temperature
    &&& a.steps == b.steps
    &&& a.thermalization_steps == b.thermalization_steps
    &&& a.measurement_frequency == b.measurement_frequency
    &&& a.coupling_0 == b.coupling_0
    &&& a.coupling_2 == b.coupling_2
    &&& a.cosmological_constant == b.cosmological_constant
    &&& a.simulate == b.simulate
    &&& a.seed == b.seed
    &&& a.topology == b.topology
    &&& a.output_csv == b.output_csv
    &&& a.output_json == b.output_json
}

/// The rules read a configuration only through what [`same_config`]
/// compares.
pub proof fn lemma_same_config_rules(a: CdtConfig, b: CdtConfig, e: CdtError)
    requires
        same_config(a, b),
    ensures
        config_valid(a) == config_valid(b),
        config_error(a, e) == config_error(b, e),
{
}

/// Merging an override set that changes nothing gives back the base
/// configuration, so the merge then validates the base itself.
pub proof fn lemma_merge_without_overrides(base: CdtConfig)
    ensures
        profile_override_fits(no_overrides()),
        same_config(merged_config(base, no_overrides()), base),
        config_valid(merged_config(base, no_overrides())) == config_valid(base),
        forall|e: CdtError| config_error(merged_config(base, no_overrides()), e) == #[trigger] config_error(base, e),
{
    let merged = merged_config(base, no_overrides());
    assert(same_config(merged, base));
    assert forall|e: CdtError| config_error(merged, e) == #[trigger] config_error(base, e) by {
        lemma_same_config_rules(merged, base, e);
    };
    lemma_same_config_rules(merged, base, CdtError::Foliation(crate::errors::FoliationError::MissingBookkeeping));
}

/// Applying the same overrides a second time changes nothing more.
pub proof fn lemma_merge_idempotent(base: CdtConfig, o: CdtConfigOverrides)
    ensures
        same_config(merged_config(merged_config(base, o), o), merged_config(base, o)),
{
}

/// What validating the configuration `c` gives: success exactly when every
/// rule holds, with the same configuration, else the error of the first
/// broken rule.
pub open spec fn validation_outcome(c: CdtConfig, result: Result<ValidatedCdtConfig, CdtError>) -> bool {
    &&& result is Ok <==> config_valid(c)
    &&& result matches Ok(v) ==> same_config(v.spec_config(), c)
    &&& result matches Err(e) ==> config_error(c, e)
}

/// Two configuration errors carry the same kind, setting and texts.
pub open spec fn same_config_error(a: CdtError, b: CdtError) -> bool {
    match (a, b) {
        (
            CdtError::InvalidConfiguration { setting: s1, provided_value: p1, expected: x1 },
            CdtError::InvalidConfiguration { setting: s2, provided_value: p2, expected: x2 },
        ) => s1 == s2 && p1@ == p2@ && x1@ == x2@,
        (
            CdtError::InvalidSimulationConfiguration { setting: s1, provided_value: p1, expected: x1 },
            CdtError::InvalidSimulationConfiguration { setting: s2, provided_value: p2, expected: x2 },
        ) => s1 == s2 && p1@ == p2@ && x1@ == x2@,
        _ => false,
    }
}

/// The rules name one error for each configuration.
pub proof fn lemma_config_error_unique(c: CdtConfig, a: CdtError, b: CdtError)
    requires
        config_error(c, a),
        config_error(c, b),
    ensures
        same_config_error(a, b),
{
}

/// Merging overrides whose profile fits is validating the merged
/// configuration: the merge and `ValidatedCdtConfig::new` of the merged
/// configuration succeed together, with the same configuration, and fail
/// together with the same error.
pub proof fn lemma_merge_is_validation_of_merged(
    base: CdtConfig,
    o: CdtConfigOverrides,
    merged: Result<ValidatedCdtConfig, CdtError>,
    direct: Result<ValidatedCdtConfig, CdtError>,
)
    requires
        validation_outcome(merged_config(base, o), merged),
        validation_outcome(merged_config(base, o), direct),
    ensures
        merged is Ok <==> direct is Ok,
        merged matches Ok(a) ==> (direct matches Ok(b) && same_config(a.spec_config(), b.spec_config())),
        merged matches Err(a) ==> (direct matches Err(b) && same_config_error(a, b)),
{
    let m = merged_config(base, o);
    if let Err(a) = merged {
        if let Err(b) = direct {
            lemma_config_error_unique(m, a, b);
        }
    }
}

/// A profile override's derived counts fit in `u32`.
pub open spec fn profile_override_fits(o: CdtConfigOverrides) -> bool {
    o.spatial_vertex_profile matches Some(Some(p)) ==> profile_total(p@) <= u32::MAX && p@.len() <= u32::MAX
}

/// `e` is the error for a profile override whose derived counts do not fit.
pub open spec fn profile_override_error(p: Seq<u32>, e: CdtError) -> bool {
    if profile_total(p) > u32::MAX {
        is_config_error(e, ConfigurationSetting::Vertices, list_text(p), "spatial-vertex profile sum <= u32::MAX"@)
    } else {
        is_config_error(
            e,
            ConfigurationSetting::Timeslices,
            decimal(p.len()),
            "spatial vertex profile length must fit in u32: out of range integral type conversion attempted"@,
        )
    }
}

fn copy_real(r: &RealSetting) -> (c: RealSetting)
    ensures
        c == *r,
{
    RealSetting {
        bits: r.bits,
        text: r.text.clone(),
        finite: r.finite,
        positive: r.positive,
        finite_reciprocal: r.finite_reciprocal,
    }
}

fn copy_text(t: &Option<String>) -> (c: Option<String>)
    ensures
        c == *t,
{
    match t {
        Some(s) => Some(s.clone()),
        None => None,
    }
}

fn copy_optional_profile(p: &Option<Vec<u32>>) -> (c: Option<Vec<u32>>)
    ensures
        match (c, *p) {
            (Some(x), Some(y)) => x@ == y@,
            (None, None) => true,
            _ => false,
        },
{
    match p {
        Some(v) => Some(copy_profile(v)),
        None => None,
    }
}




fn pick_real(o: &Option<RealSetting>, base: &RealSetting) -> (r: RealSetting)
    ensures
        r == or_base(*o, *base),
{
    match o {
        Some(v) => copy_real(v),
        None => copy_real(base),
    }
}

fn pick_text(o: &Option<Option<String>>, base: &Option<String>) -> (r: Option<String>)
    ensures
        r == or_base(*o, *base),
{
    match o {
        Some(v) => copy_text(v),
        None => copy_text(base),
    }
}

fn pick<T: Copy>(o: Option<T>, base: T) -> (r: T)
    ensures
        r == or_base(o, base),
{
    match o {
        Some(v) => v,
        None => base,
    }
}

/// The dimension, counts and profile of the merged configuration.
fn merged_counts(base: &CdtConfig, o: &CdtConfigOverrides) -> (result: Result<(Option<u8>, u32, u32, Option<Vec<u32>>), CdtError>)
    ensures
        !profile_override_fits(*o) ==> result is Err && profile_override_error(o.spatial_vertex_profile->0->0@, result->Err_0),
        profile_override_fits(*o) ==> (result matches Ok(r) && r.0 == merged_config(*base, *o).dimension && r.1
            == merged_config(*base, *o).vertices && r.2 == merged_config(*base, *o).timeslices && match (
            r.3,
            merged_config(*base, *o).spatial_vertex_profile,
        ) {
            (Some(x), Some(y)) => x@ == y@,
            (None, None) => true,
            _ => false,
        }),
{
    let dimension = match o.dimension {
        Some(DimensionOverride::Value(value)) => Some(value),
        Some(DimensionOverride::Clear) => None,
        None => base.dimension,
    };
    match &o.spatial_vertex_profile {
        Some(Some(profile)) => {
            let profile_vertices = match checked_profile_total(profile) {
                Some(t) => t,
                None => {
                    proof { reveal_strlit("spatial-vertex profile sum <= u32::MAX"); }
                    return Err(invalid_config_parts(
                        ConfigurationSetting::Vertices,
                        list_string(profile),
                        owned("spatial-vertex profile sum <= u32::MAX"),
                    ));
                },
            };
            if profile.len() > u32::MAX as usize {
                proof {
                    reveal_strlit(
                        "spatial vertex profile length must fit in u32: out of range integral type conversion attempted",
                    );
                }
                return Err(invalid_config_parts(
                    ConfigurationSetting::Timeslices,
                    decimal_string(profile.len() as u64),
                    owned("spatial vertex profile length must fit in u32: out of range integral type conversion attempted"),
                ));
            }
            Ok((dimension, profile_vertices, profile.len() as u32, Some(copy_profile(profile))))
        },
        Some(None) => Ok((dimension, pick(o.vertices, base.vertices), pick(o.timeslices, base.timeslices), None)),
        None => Ok((
            dimension,
            pick(o.vertices, base.vertices),
            pick(o.timeslices, base.timeslices),
            copy_optional_profile(&base.spatial_vertex_profile),
        )),
    }
}

impl CdtConfig {
    /// This configuration with the overrides applied, before validation.
    fn apply_overrides(&self, o: &CdtConfigOverrides) -> (result: Result<CdtConfig, CdtError>)
        ensures
            !profile_override_fits(*o) ==> result is Err && profile_override_error(
                o.spatial_vertex_profile->0->0@,
                result->Err_0,
            ),
            profile_override_fits(*o) ==> (result matches Ok(c) && same_config(c, merged_config(*self, *o))),
    {
        let (dimension, vertices, timeslices, spatial_vertex_profile) = merged_counts(self, o)?;
        Ok(CdtConfig {
            dimension,
            vertices,
            timeslices,
            spatial_vertex_profile,
            temperature: pick_real(&o.temperature, &self.temperature),
            steps: pick(o.steps, self.steps),
            thermalization_steps: pick(o.thermalization_steps, self.thermalization_steps),
            measurement_frequency: pick(o.measurement_frequency, self.measurement_frequency),
            coupling_0: pick_real(&o.coupling_0, &self.coupling_0),
            coupling_2: pick_real(&o.coupling_2, &self.coupling_2),
            cosmological_constant: pick_real(&o.cosmological_constant, &self.cosmological_constant),
            simulate: pick(o.simulate, self.simulate),
            seed: pick(o.seed, self.seed),
            topology: pick(o.topology, self.topology),
            output_csv: pick_text(&o.output_csv, &self.output_csv),
            output_json: pick_text(&o.output_json, &self.output_json),
        })
    }
}

impl CdtConfig {
    /// Applies overrides to this configuration and validates the result.
    ///
    /// Unset overrides leave entries unchanged; a profile override replaces
    /// the vertex count with the profile's sum and the slice count with its
    /// length, whatever else is overridden.
    ///
    /// # Errors
    ///
    /// A configuration error when a profile override's sum or length does not
    /// fit in `u32`; otherwise the error of the first rule the merged
    /// configuration breaks, as [`config_error`] states.
    pub fn merge_with_override(&self, overrides: &CdtConfigOverrides) -> (result: Result<ValidatedCdtConfig, CdtError>)
        ensures
            !profile_override_fits(*overrides) ==> result is Err && profile_override_error(
                overrides.spatial_vertex_profile->0->0@,
                result->Err_0,
            ),
            profile_override_fits(*overrides) ==> (result is Ok <==> config_valid(merged_config(*self, *overrides))),
            profile_override_fits(*overrides) ==> (result matches Err(e) ==> config_error(
                merged_config(*self, *overrides),
                e,
            )),
            result matches Ok(v) ==> same_config(v.spec_config(), merged_config(*self, *overrides)),
            profile_override_fits(*overrides) ==> validation_outcome(merged_config(*self, *overrides), result),
    {
        let ghost target = merged_config(*self, *overrides);
        let merged = self.apply_overrides(overrides)?;
        proof {
            assert forall|e: CdtError| config_error(merged, e) == config_error(target, e) by {
                lemma_same_config_rules(merged, target, e);
            };
            lemma_same_config_rules(merged, target, CdtError::Foliation(crate::errors::FoliationError::MissingBookkeeping));
        }
        ValidatedCdtConfig::new(merged)
    }
}

/// The real-valued entries a fresh configuration starts from.
#[derive(Debug, Clone, PartialEq, Eq)]
pub struct RealDefaults {
    pub temperature: RealSetting,
    pub coupling_0: RealSetting,
    pub coupling_2: RealSetting,
    pub cosmological_constant: RealSetting,
}

/// A configuration with the given counts and schedule, dimension 2, open
/// boundary, no profile, seed or output, and simulation off.
pub open spec fn preset(
    vertices: u32,
    timeslices: u32,
    steps: u32,
    thermalization_steps: u32,
    measurement_frequency: u32,
    defaults: RealDefaults,
) -> CdtConfig {
    CdtConfig {
        dimension: Some(2),
        vertices,
        timeslices,
        spatial_vertex_profile: None,
        temperature: defaults.temperature,
        steps,
        thermalization_steps,
        measurement_frequency,
        coupling_0: defaults.coupling_0,
        coupling_2: defaults.coupling_2,
        cosmological_constant: defaults.cosmological_constant,
        simulate: false,
        seed: None,
        topology: CdtTopology::OpenBoundary,
        output_csv: None,
        output_json: None,
    }
}

fn preset_config(
    vertices: u32,
    timeslices: u32,
    steps: u32,
    thermalization_steps: u32,
    measurement_frequency: u32,
    defaults: RealDefaults,
) -> (c: CdtConfig)
    ensures
        c == preset(vertices, timeslices, steps, thermalization_steps, measurement_frequency, defaults),
{
    CdtConfig {
        dimension: Some(2),
        vertices,
        timeslices,
        spatial_vertex_profile: None,
        temperature: defaults.temperature,
        steps,
        thermalization_steps,
        measurement_frequency,
        coupling_0: defaults.coupling_0,
        coupling_2: defaults.coupling_2,
        cosmological_constant: defaults.cosmological_constant,
        simulate: false,
        seed: None,
        topology: CdtTopology::OpenBoundary,
        output_csv: None,
        output_json: None,
    }
}

impl CdtConfig {
    /// A configuration of `vertices` total vertices on `timeslices` slices
    /// with the standard schedule: 1000 steps, 100 of them thermalization, a
    /// measurement every 10th.
    pub fn new(vertices: u32, timeslices: u32, defaults: RealDefaults) -> (c: CdtConfig)
        ensures
            c == preset(vertices, timeslices, 1000, 100, 10, defaults),
    {
        preset_config(vertices, timeslices, 1000, 100, 10, defaults)
    }
}

/// Configuration presets for tests.
#[derive(Debug, Clone)]
pub struct TestConfig;

impl TestConfig {
    /// A small, fast preset: 16 vertices on 2 slices, 10 steps.
    pub fn small(defaults: RealDefaults) -> (c: CdtConfig)
        ensures
            c == preset(16, 2, 10, 2, 2, defaults),
    {
        preset_config(16, 2, 10, 2, 2, defaults)
    }

    /// A medium preset: 64 vertices on 4 slices, 100 steps.
    pub fn medium(defaults: RealDefaults) -> (c: CdtConfig)
        ensures
            c == preset(64, 4, 100, 20, 5, defaults),
    {
        preset_config(64, 4, 100, 20, 5, defaults)
    }

    /// A large preset: 256 vertices on 8 slices, 1000 steps.
    pub fn large(defaults: RealDefaults) -> (c: CdtConfig)
        ensures
            c == preset(256, 8, 1000, 100, 10, defaults),
    {
        preset_config(256, 8, 1000, 100, 10, defaults)
    }
}

} // verus!
