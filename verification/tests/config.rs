use causal_triangulations::config::{
    CdtConfig, CdtConfigOverrides, CdtTopology, DimensionOverride, RealDefaults, RealSetting, TestConfig,
    ValidatedCdtConfig, ValidatedInitialSpatialVertices,
};
use causal_triangulations::errors::{CdtError, ConfigurationSetting};

fn real_setting(value: f64) -> RealSetting {
    RealSetting {
        bits: value.to_bits(),
        text: value.to_string(),
        finite: value.is_finite(),
        positive: value > 0.0,
        finite_reciprocal: value.recip().is_finite(),
    }
}

fn defaults() -> RealDefaults {
    RealDefaults {
        temperature: real_setting(1.0),
        coupling_0: real_setting(0.0),
        coupling_2: real_setting(0.0),
        cosmological_constant: real_setting(0.5),
    }
}

fn config(vertices: u32, timeslices: u32) -> CdtConfig {
    CdtConfig::new(vertices, timeslices, defaults())
}

fn config_error(result: Result<ValidatedCdtConfig, CdtError>) -> (ConfigurationSetting, String, String) {
    match result {
        Err(CdtError::InvalidConfiguration { setting, provided_value, expected }) => (setting, provided_value, expected),
        other => panic!("expected a configuration error, got {other:?}"),
    }
}

fn sim_error(result: Result<ValidatedCdtConfig, CdtError>) -> (ConfigurationSetting, String, String) {
    match result {
        Err(CdtError::InvalidSimulationConfiguration { setting, provided_value, expected }) => {
            (setting, provided_value, expected)
        }
        other => panic!("expected a simulation configuration error, got {other:?}"),
    }
}

#[test]
fn new_uses_the_standard_schedule() {
    let c = config(16, 4);
    assert_eq!(c.vertices, 16);
    assert_eq!(c.timeslices, 4);
    assert_eq!(c.steps, 1000);
    assert_eq!(c.thermalization_steps, 100);
    assert_eq!(c.measurement_frequency, 10);
    assert_eq!(c.topology, CdtTopology::OpenBoundary);
    assert_eq!(c.dimension, Some(2));
    assert_eq!(c.dimension(), 2);
}

#[test]
fn presets_have_their_documented_sizes() {
    assert_eq!(TestConfig::small(defaults()).steps, 10);
    assert_eq!(TestConfig::medium(defaults()).vertices, 64);
    assert_eq!(TestConfig::large(defaults()).vertices, 256);
    assert!(TestConfig::small(defaults()).into_validated().is_ok());
    assert!(TestConfig::medium(defaults()).into_validated().is_ok());
    assert!(TestConfig::large(defaults()).into_validated().is_ok());
}

#[test]
fn regular_configuration_validates_with_equal_slices() {
    let validated = ValidatedCdtConfig::new(config(16, 4)).expect("regular config is valid");
    assert_eq!(validated.vertices(), 16);
    assert_eq!(validated.timeslices(), 4);
    assert_eq!(validated.dimension(), 2);
    assert_eq!(validated.regular_vertices_per_slice(), Some(4));
    assert_eq!(validated.spatial_vertex_profile(), None);
    assert_eq!(
        validated.initial_spatial_vertices(),
        &ValidatedInitialSpatialVertices::Regular { vertices_per_slice: 4 }
    );
}

#[test]
fn explicit_profile_validates_against_counts() {
    let mut c = config(15, 3);
    c.spatial_vertex_profile = Some(vec![4, 6, 5]);
    let validated = c.into_validated().expect("profile config is valid");
    assert_eq!(validated.spatial_vertex_profile(), Some(&vec![4, 6, 5]));
    assert_eq!(validated.regular_vertices_per_slice(), None);

    let mut short = config(15, 3);
    short.spatial_vertex_profile = Some(vec![4, 11]);
    let (setting, provided, expected) = config_error(short.into_validated());
    assert_eq!(setting, ConfigurationSetting::SpatialVertexProfile);
    assert_eq!(provided, "2 entries");
    assert_eq!(expected, "3 entries for configured timeslices");

    let mut small_slice = config(15, 3);
    small_slice.spatial_vertex_profile = Some(vec![4, 3, 8]);
    let (setting, provided, expected) = config_error(small_slice.into_validated());
    assert_eq!(setting, ConfigurationSetting::SpatialVertexProfile);
    assert_eq!(provided, "slice 1 has 3");
    assert_eq!(expected, "each slice ≥ 4 for open-boundary topology");

    let mut wrong_sum = config(16, 3);
    wrong_sum.spatial_vertex_profile = Some(vec![4, 6, 5]);
    let (setting, provided, expected) = config_error(wrong_sum.into_validated());
    assert_eq!(setting, ConfigurationSetting::Vertices);
    assert_eq!(provided, "16");
    assert_eq!(expected, "sum of spatial_vertex_profile (15)");
}

#[test]
fn count_rules_come_in_order() {
    let (setting, provided, expected) = config_error(config(2, 3).into_validated());
    assert_eq!((setting, provided.as_str(), expected.as_str()), (ConfigurationSetting::Vertices, "2", "≥ 3"));

    let (setting, provided, expected) = config_error(config(16, 0).into_validated());
    assert_eq!((setting, provided.as_str(), expected.as_str()), (ConfigurationSetting::Timeslices, "0", "≥ 1"));

    let mut dim = config(36, 3);
    dim.dimension = Some(4);
    let (setting, provided, expected) = config_error(dim.into_validated());
    assert_eq!((setting, provided.as_str(), expected.as_str()), (ConfigurationSetting::Dimension, "4", "2"));

    let (setting, provided, expected) = config_error(config(16, 1).into_validated());
    assert_eq!(setting, ConfigurationSetting::Timeslices);
    assert_eq!(provided, "1");
    assert_eq!(expected, "≥ 2 for open-boundary topology");

    let (setting, provided, expected) = config_error(config(17, 4).into_validated());
    assert_eq!(setting, ConfigurationSetting::Vertices);
    assert_eq!(provided, "17");
    assert_eq!(expected, "divisible by timeslices (4) for open-boundary topology");

    let (setting, provided, expected) = config_error(config(12, 4).into_validated());
    assert_eq!(setting, ConfigurationSetting::Vertices);
    assert_eq!(provided, "12");
    assert_eq!(expected, "≥ 4 · timeslices (16) for open-boundary topology");

    let mut torus = config(6, 2);
    torus.topology = CdtTopology::Toroidal;
    let (setting, _, expected) = config_error(torus.into_validated());
    assert_eq!(setting, ConfigurationSetting::Timeslices);
    assert_eq!(expected, "≥ 3 for toroidal topology");
}

#[test]
fn non_finite_couplings_are_rejected() {
    for (setting, value) in [
        (ConfigurationSetting::Coupling0, f64::NAN),
        (ConfigurationSetting::Coupling2, f64::INFINITY),
        (ConfigurationSetting::CosmologicalConstant, f64::NEG_INFINITY),
    ] {
        let mut c = config(36, 3);
        match setting {
            ConfigurationSetting::Coupling0 => c.coupling_0 = real_setting(value),
            ConfigurationSetting::Coupling2 => c.coupling_2 = real_setting(value),
            _ => c.cosmological_constant = real_setting(value),
        }
        let (invalid, _, expected) = config_error(c.into_validated());
        assert_eq!(invalid, setting);
        assert_eq!(expected, "finite");
    }
    let mut finite = config(36, 3);
    finite.coupling_0 = real_setting(-1.5);
    finite.cosmological_constant = real_setting(2.25);
    assert!(finite.into_validated().is_ok());
}

#[test]
fn schedule_rules_come_in_order() {
    let mut hot = config(36, 3);
    hot.temperature = real_setting(0.0);
    let (setting, provided, expected) = sim_error(hot.into_validated());
    assert_eq!(setting, ConfigurationSetting::Temperature);
    assert_eq!(provided, "0");
    assert_eq!(expected, "finite and positive with a finite reciprocal");

    let mut no_steps = config(36, 3);
    no_steps.steps = 0;
    let (setting, provided, expected) = sim_error(no_steps.into_validated());
    assert_eq!((setting, provided.as_str(), expected.as_str()), (ConfigurationSetting::Steps, "0", "≥ 1"));

    let mut no_frequency = config(36, 3);
    no_frequency.measurement_frequency = 0;
    let (setting, provided, expected) = sim_error(no_frequency.into_validated());
    assert_eq!(
        (setting, provided.as_str(), expected.as_str()),
        (ConfigurationSetting::MeasurementFrequency, "0", "≥ 1")
    );

    let mut rare = config(36, 3);
    rare.measurement_frequency = 2_000;
    let (setting, provided, expected) = sim_error(rare.into_validated());
    assert_eq!(
        (setting, provided.as_str(), expected.as_str()),
        (ConfigurationSetting::MeasurementFrequency, "2000", "≤ steps (1000)")
    );

    let mut long_warmup = config(36, 3);
    long_warmup.thermalization_steps = 1_001;
    let (setting, provided, expected) = sim_error(long_warmup.into_validated());
    assert_eq!(
        (setting, provided.as_str(), expected.as_str()),
        (ConfigurationSetting::ThermalizationSteps, "1001", "≤ steps (1000)")
    );

    let mut no_measurement = config(36, 3);
    no_measurement.steps = 7;
    no_measurement.thermalization_steps = 7;
    no_measurement.measurement_frequency = 4;
    let (setting, provided, expected) = sim_error(no_measurement.into_validated());
    assert_eq!(setting, ConfigurationSetting::MeasurementSchedule);
    assert_eq!(provided, "steps=7, thermalization_steps=7, measurement_frequency=4");
    assert_eq!(expected, "at least one post-thermalization measurement");

    let mut exact = config(36, 3);
    exact.steps = 8;
    exact.thermalization_steps = 7;
    exact.measurement_frequency = 4;
    assert!(exact.into_validated().is_ok());
}

#[test]
fn merge_applies_only_the_given_overrides() {
    let base = config(10, 2);
    let overrides = CdtConfigOverrides {
        dimension: Some(DimensionOverride::Clear),
        vertices: Some(24),
        ..CdtConfigOverrides::default()
    };
    let merged = base.merge_with_override(&overrides).expect("merged config is valid");
    assert_eq!(merged.config().dimension, None);
    assert_eq!(merged.vertices(), 24);
    assert_eq!(merged.timeslices(), 2);
    assert_eq!(merged.config().steps, 1000);
}

#[test]
fn merge_with_no_overrides_keeps_the_configuration() {
    let base = config(16, 4);
    let merged = base.merge_with_override(&CdtConfigOverrides::default()).expect("base is valid");
    assert_eq!(merged.config(), &base);
}

#[test]
fn profile_override_recomputes_derived_counts() {
    let base = config(16, 4);
    let overrides = CdtConfigOverrides {
        vertices: Some(100),
        timeslices: Some(9),
        spatial_vertex_profile: Some(Some(vec![4, 6, 5])),
        seed: Some(Some(7)),
        output_csv: Some(Some("trace.csv".to_string())),
        cosmological_constant: Some(real_setting(0.25)),
        ..CdtConfigOverrides::default()
    };
    let merged = base.merge_with_override(&overrides).expect("profile merge is valid");
    assert_eq!(merged.vertices(), 15);
    assert_eq!(merged.timeslices(), 3);
    assert_eq!(merged.spatial_vertex_profile(), Some(&vec![4, 6, 5]));
    assert_eq!(merged.config().seed, Some(7));
    assert_eq!(merged.output_csv(), &Some("trace.csv".to_string()));
    assert_eq!(merged.config().cosmological_constant, real_setting(0.25));

    let cleared = CdtConfigOverrides { spatial_vertex_profile: Some(None), ..CdtConfigOverrides::default() };
    let mut with_profile = config(15, 3);
    with_profile.spatial_vertex_profile = Some(vec![4, 6, 5]);
    let merged = with_profile.merge_with_override(&cleared).expect("regular merge is valid");
    assert_eq!(merged.spatial_vertex_profile(), None);
    assert_eq!(merged.regular_vertices_per_slice(), Some(5));
}

#[test]
fn profile_override_sum_overflow_is_reported() {
    let overrides = CdtConfigOverrides {
        spatial_vertex_profile: Some(Some(vec![u32::MAX, 1])),
        ..CdtConfigOverrides::default()
    };
    let (setting, provided, expected) = config_error(config(16, 4).merge_with_override(&overrides));
    assert_eq!(setting, ConfigurationSetting::Vertices);
    assert_eq!(provided, "[4294967295, 1]");
    assert_eq!(expected, "spatial-vertex profile sum <= u32::MAX");
}

#[test]
fn merge_reports_the_rule_the_merged_configuration_breaks() {
    let overrides = CdtConfigOverrides { steps: Some(0), ..CdtConfigOverrides::default() };
    let (setting, provided, expected) = sim_error(config(16, 4).merge_with_override(&overrides));
    assert_eq!((setting, provided.as_str(), expected.as_str()), (ConfigurationSetting::Steps, "0", "≥ 1"));
}

#[test]
fn merging_the_same_overrides_twice_changes_nothing_more() {
    let base = config(16, 4);
    let overrides = CdtConfigOverrides {
        spatial_vertex_profile: Some(Some(vec![4, 6, 5])),
        steps: Some(500),
        seed: Some(Some(3)),
        ..CdtConfigOverrides::default()
    };
    let once = base.merge_with_override(&overrides).expect("first merge is valid");
    let twice = once.config().merge_with_override(&overrides).expect("second merge is valid");
    assert_eq!(twice.config(), once.config());
    assert_eq!(twice.vertices(), 15);
    assert_eq!(twice.config().steps, 500);
}

#[test]
fn test_config_new() {
    let config = config(36, 3);
    assert_eq!(config.vertices, 36);
    assert_eq!(config.timeslices, 3);
    assert_eq!(config.dimension(), 2);
    assert!(!config.simulate);
    assert_eq!(config.output_csv, None);
    assert_eq!(config.output_json, None);
}

#[test]
fn validated_config_carries_initial_spatial_vertex_proof() {
    let regular = config(64, 4).into_validated().expect("regular config should validate");
    assert_eq!(regular.dimension(), 2);
    assert_eq!(regular.vertices(), 64);
    assert_eq!(regular.timeslices(), 4);
    assert_eq!(regular.regular_vertices_per_slice(), Some(16));
    assert_eq!(regular.initial_spatial_vertices(), &ValidatedInitialSpatialVertices::Regular { vertices_per_slice: 16 });

    let mut profiled = config(15, 3);
    profiled.spatial_vertex_profile = Some(vec![4, 6, 5]);
    let profiled = profiled.into_validated().expect("profile config should validate");
    assert_eq!(profiled.regular_vertices_per_slice(), None);
    assert_eq!(profiled.spatial_vertex_profile(), Some(&vec![4, 6, 5]));
    assert_eq!(profiled.initial_spatial_vertices(), &ValidatedInitialSpatialVertices::ExplicitProfile(vec![4, 6, 5]));
}

#[test]
fn validated_config_exposes_raw_runtime_fields() {
    let mut raw = config(12, 3);
    raw.topology = CdtTopology::Toroidal;
    raw.simulate = false;
    raw.output_csv = Some("trace.csv".to_string());
    raw.output_json = Some("summary.json".to_string());

    let validated = ValidatedCdtConfig::new(raw.clone()).expect("toroidal config should validate");
    assert_eq!(validated.config().vertices, 12);
    assert_eq!(validated.spatial_vertex_profile(), None);
    assert_eq!(validated.topology(), CdtTopology::Toroidal);
    assert!(!validated.simulate());
    assert_eq!(validated.output_csv(), &Some("trace.csv".to_string()));
    assert_eq!(validated.output_json(), &Some("summary.json".to_string()));
    assert_eq!(validated.into_config().output_json, raw.output_json);
}

#[test]
fn test_config_validation() {
    assert!(config(36, 3).into_validated().is_ok());

    let mut invalid_vertices = config(36, 3);
    invalid_vertices.vertices = 2;
    let (setting, provided, expected) = config_error(invalid_vertices.into_validated());
    assert_eq!((setting, provided.as_str(), expected.as_str()), (ConfigurationSetting::Vertices, "2", "≥ 3"));

    let mut invalid_timeslices = config(36, 3);
    invalid_timeslices.timeslices = 0;
    let (setting, provided, expected) = config_error(invalid_timeslices.into_validated());
    assert_eq!((setting, provided.as_str(), expected.as_str()), (ConfigurationSetting::Timeslices, "0", "≥ 1"));

    let mut invalid_temperature = config(36, 3);
    invalid_temperature.temperature = real_setting(-1.0);
    let (setting, provided, expected) = sim_error(invalid_temperature.into_validated());
    assert_eq!(setting, ConfigurationSetting::Temperature);
    assert_eq!(provided, "-1");
    assert_eq!(expected, "finite and positive with a finite reciprocal");

    let mut invalid_measurement_frequency = config(36, 3);
    invalid_measurement_frequency.measurement_frequency = 0;
    let (setting, provided, expected) = sim_error(invalid_measurement_frequency.into_validated());
    assert_eq!(
        (setting, provided.as_str(), expected.as_str()),
        (ConfigurationSetting::MeasurementFrequency, "0", "≥ 1")
    );

    let mut invalid_steps = config(36, 3);
    invalid_steps.steps = 0;
    let (setting, provided, expected) = sim_error(invalid_steps.into_validated());
    assert_eq!((setting, provided.as_str(), expected.as_str()), (ConfigurationSetting::Steps, "0", "≥ 1"));

    let mut invalid_dimension = config(36, 3);
    invalid_dimension.dimension = Some(4);
    let (setting, provided, expected) = config_error(invalid_dimension.into_validated());
    assert_eq!((setting, provided.as_str(), expected.as_str()), (ConfigurationSetting::Dimension, "4", "2"));

    for (setting, value) in [
        (ConfigurationSetting::Coupling0, f64::NAN),
        (ConfigurationSetting::Coupling2, f64::INFINITY),
        (ConfigurationSetting::CosmologicalConstant, f64::NEG_INFINITY),
    ] {
        let mut invalid_action_coupling = config(36, 3);
        match setting {
            ConfigurationSetting::Coupling0 => invalid_action_coupling.coupling_0 = real_setting(value),
            ConfigurationSetting::Coupling2 => invalid_action_coupling.coupling_2 = real_setting(value),
            ConfigurationSetting::CosmologicalConstant => {
                invalid_action_coupling.cosmological_constant = real_setting(value);
            }
            _ => unreachable!("test case should name a known action coupling"),
        }
        let (invalid_setting, _, expected) = config_error(invalid_action_coupling.into_validated());
        assert_eq!(invalid_setting, setting);
        assert_eq!(expected, "finite");
    }

    let mut finite_action_couplings = config(36, 3);
    finite_action_couplings.coupling_0 = real_setting(-1.5);
    finite_action_couplings.coupling_2 = real_setting(0.0);
    finite_action_couplings.cosmological_constant = real_setting(2.25);
    assert!(finite_action_couplings.into_validated().is_ok(), "finite signed action couplings should be accepted");

    let mut measurement_frequency_exceeds_steps = config(36, 3);
    measurement_frequency_exceeds_steps.measurement_frequency = 2_000;
    let (setting, provided, expected) = sim_error(measurement_frequency_exceeds_steps.into_validated());
    assert_eq!(
        (setting, provided.as_str(), expected.as_str()),
        (ConfigurationSetting::MeasurementFrequency, "2000", "≤ steps (1000)")
    );

    let mut boundary_aligned_measurement = config(36, 3);
    boundary_aligned_measurement.steps = 11;
    boundary_aligned_measurement.thermalization_steps = 10;
    boundary_aligned_measurement.measurement_frequency = 10;
    assert!(boundary_aligned_measurement.into_validated().is_ok());

    let mut boundary_aligned_final_measurement = config(36, 3);
    boundary_aligned_final_measurement.steps = 10;
    boundary_aligned_final_measurement.thermalization_steps = 10;
    boundary_aligned_final_measurement.measurement_frequency = 5;
    assert!(boundary_aligned_final_measurement.into_validated().is_ok());

    let mut final_step_measurement = config(36, 3);
    final_step_measurement.steps = 20;
    final_step_measurement.thermalization_steps = 15;
    final_step_measurement.measurement_frequency = 10;
    assert!(final_step_measurement.into_validated().is_ok());

    let mut insufficient_measurements = config(36, 3);
    insufficient_measurements.steps = 19;
    insufficient_measurements.thermalization_steps = 15;
    insufficient_measurements.measurement_frequency = 10;
    let (setting, provided, expected) = sim_error(insufficient_measurements.into_validated());
    assert_eq!(setting, ConfigurationSetting::MeasurementSchedule);
    assert!(
        provided.contains("steps=19")
            && provided.contains("thermalization_steps=15")
            && provided.contains("measurement_frequency=10"),
        "Unexpected provided value: {provided}"
    );
    assert_eq!(expected, "at least one post-thermalization measurement");

    let mut thermalization_exceeds_steps = config(36, 3);
    thermalization_exceeds_steps.steps = 10;
    thermalization_exceeds_steps.thermalization_steps = 11;
    thermalization_exceeds_steps.measurement_frequency = 1;
    let (setting, provided, expected) = sim_error(thermalization_exceeds_steps.into_validated());
    assert_eq!(
        (setting, provided.as_str(), expected.as_str()),
        (ConfigurationSetting::ThermalizationSteps, "11", "≤ steps (10)")
    );

    let mut overflowed_post_thermalization_boundary = config(36, 3);
    overflowed_post_thermalization_boundary.steps = u32::MAX;
    overflowed_post_thermalization_boundary.thermalization_steps = u32::MAX;
    overflowed_post_thermalization_boundary.measurement_frequency = 2;
    let (setting, provided, expected) = sim_error(overflowed_post_thermalization_boundary.into_validated());
    assert_eq!(setting, ConfigurationSetting::MeasurementSchedule);
    assert!(
        provided.contains("steps=4294967295")
            && provided.contains("thermalization_steps=4294967295")
            && provided.contains("measurement_frequency=2"),
        "Unexpected provided value: {provided}"
    );
    assert_eq!(expected, "at least one post-thermalization measurement");
}

fn toroidal(vertices: u32, timeslices: u32) -> CdtConfig {
    let mut c = config(vertices, timeslices);
    c.topology = CdtTopology::Toroidal;
    c
}

#[test]
fn test_config_validation_toroidal_topology() {
    assert!(toroidal(12, 3).into_validated().is_ok(), "Valid toroidal config (T=3, V=12) should validate");

    let (setting, provided, expected) = config_error(toroidal(6, 2).into_validated());
    assert_eq!(setting, ConfigurationSetting::Timeslices);
    assert_eq!(provided, "2");
    assert_eq!(expected, "≥ 3 for toroidal topology");

    let (setting, provided, expected) = config_error(toroidal(11, 3).into_validated());
    assert_eq!(setting, ConfigurationSetting::Vertices);
    assert_eq!(provided, "11");
    assert_eq!(expected, "divisible by timeslices (3) for toroidal topology");

    let (setting, provided, expected) = config_error(toroidal(6, 3).into_validated());
    assert_eq!(setting, ConfigurationSetting::Vertices);
    assert_eq!(provided, "6");
    assert_eq!(expected, "≥ 3 · timeslices (9) for toroidal topology");

    let (setting, provided, expected) = config_error(toroidal(u32::MAX, u32::MAX).into_validated());
    assert_eq!(setting, ConfigurationSetting::Timeslices);
    assert_eq!(provided, u32::MAX.to_string());
    assert_eq!(expected, "3 · timeslices must fit in u32 for toroidal topology");
}

#[test]
fn test_config_validation_open_boundary_regular_slices() {
    assert!(config(12, 3).into_validated().is_ok(), "valid open-boundary config should validate");

    let (setting, provided, expected) = config_error(config(4, 1).into_validated());
    assert_eq!(setting, ConfigurationSetting::Timeslices);
    assert_eq!(provided, "1");
    assert_eq!(expected, "≥ 2 for open-boundary topology");

    let (setting, provided, expected) = config_error(config(11, 3).into_validated());
    assert_eq!(setting, ConfigurationSetting::Vertices);
    assert_eq!(provided, "11");
    assert_eq!(expected, "divisible by timeslices (3) for open-boundary topology");

    let (setting, provided, expected) = config_error(config(9, 3).into_validated());
    assert_eq!(setting, ConfigurationSetting::Vertices);
    assert_eq!(provided, "9");
    assert_eq!(expected, "≥ 4 · timeslices (12) for open-boundary topology");
}

#[test]
fn test_config_validation_open_boundary_spatial_vertex_profile() {
    let mut valid_profile = config(15, 3);
    valid_profile.spatial_vertex_profile = Some(vec![4, 6, 5]);
    assert!(
        valid_profile.into_validated().is_ok(),
        "nonuniform open-boundary profiles should not require divisible vertex counts"
    );

    let mut mismatched_sum = config(14, 3);
    mismatched_sum.spatial_vertex_profile = Some(vec![4, 6, 5]);
    let (setting, provided, expected) = config_error(mismatched_sum.into_validated());
    assert_eq!(setting, ConfigurationSetting::Vertices);
    assert_eq!(provided, "14");
    assert_eq!(expected, "sum of spatial_vertex_profile (15)");

    let mut mismatched_len = config(15, 4);
    mismatched_len.spatial_vertex_profile = Some(vec![4, 6, 5]);
    let (setting, provided, expected) = config_error(mismatched_len.into_validated());
    assert_eq!(setting, ConfigurationSetting::SpatialVertexProfile);
    assert_eq!(provided, "3 entries");
    assert_eq!(expected, "4 entries for configured timeslices");
}

#[test]
fn test_config_validation_toroidal_spatial_vertex_profile_minimum_slice_size() {
    let mut valid_profile = toroidal(16, 4);
    valid_profile.spatial_vertex_profile = Some(vec![3, 4, 5, 4]);
    assert!(valid_profile.into_validated().is_ok());

    let mut too_small = toroidal(11, 4);
    too_small.spatial_vertex_profile = Some(vec![3, 2, 3, 3]);
    let (setting, provided, expected) = config_error(too_small.into_validated());
    assert_eq!(setting, ConfigurationSetting::SpatialVertexProfile);
    assert_eq!(provided, "slice 1 has 2");
    assert_eq!(expected, "each slice ≥ 3 for toroidal topology");
}

#[test]
fn test_dimension_defaults_to_two_when_unspecified() {
    let mut config = config(36, 3);
    config.dimension = None;
    assert_eq!(config.dimension(), 2);
}

#[test]
fn test_preset_configs() {
    let small = TestConfig::small(defaults());
    assert!(small.clone().into_validated().is_ok());
    assert_eq!(small.vertices, 16);
    assert_eq!(small.steps, 10);

    let medium = TestConfig::medium(defaults());
    assert!(medium.clone().into_validated().is_ok());
    assert_eq!(medium.vertices, 64);
    assert_eq!(medium.steps, 100);

    let large = TestConfig::large(defaults());
    assert!(large.clone().into_validated().is_ok());
    assert_eq!(large.vertices, 256);
    assert_eq!(large.steps, 1000);
}

#[test]
fn test_merge_with_override_updates_specified_fields() {
    let base = config(10, 2);
    let overrides = CdtConfigOverrides {
        dimension: Some(DimensionOverride::Clear),
        vertices: Some(42),
        temperature: Some(real_setting(2.5)),
        simulate: Some(false),
        ..CdtConfigOverrides::default()
    };
    let merged = base.merge_with_override(&overrides).expect("override merge should succeed");
    let merged = merged.config();
    assert_eq!(merged.dimension, None);
    assert_eq!(merged.dimension(), 2);
    assert_eq!(merged.vertices, 42);
    assert_eq!(merged.temperature, real_setting(2.5));
    assert!(!merged.simulate);
    assert_eq!(merged.timeslices, base.timeslices);
    assert_eq!(merged.steps, base.steps);
}

#[test]
fn test_merge_with_override_updates_remaining_fields() {
    let base = config(10, 2);
    let overrides = CdtConfigOverrides {
        timeslices: Some(5),
        spatial_vertex_profile: Some(Some(vec![4, 6, 5])),
        steps: Some(250),
        thermalization_steps: Some(25),
        measurement_frequency: Some(5),
        coupling_0: Some(real_setting(1.5)),
        coupling_2: Some(real_setting(2.5)),
        cosmological_constant: Some(real_setting(0.25)),
        seed: Some(Some(99)),
        topology: Some(CdtTopology::Toroidal),
        output_csv: Some(Some("trace.csv".to_string())),
        output_json: Some(Some("summary.json".to_string())),
        ..CdtConfigOverrides::default()
    };
    let merged = base.merge_with_override(&overrides).expect("override merge should succeed");
    let merged = merged.config();
    assert_eq!(merged.vertices, 15);
    assert_eq!(merged.timeslices, 3);
    assert_eq!(merged.spatial_vertex_profile, Some(vec![4, 6, 5]));
    assert_eq!(merged.steps, 250);
    assert_eq!(merged.thermalization_steps, 25);
    assert_eq!(merged.measurement_frequency, 5);
    assert_eq!(merged.coupling_0, real_setting(1.5));
    assert_eq!(merged.coupling_2, real_setting(2.5));
    assert_eq!(merged.cosmological_constant, real_setting(0.25));
    assert_eq!(merged.seed, Some(99));
    assert_eq!(merged.topology, CdtTopology::Toroidal);
    assert_eq!(merged.output_csv, Some("trace.csv".to_string()));
    assert_eq!(merged.output_json, Some("summary.json".to_string()));
}

#[test]
fn test_merge_with_override_can_clear_seed() {
    let mut base = config(10, 2);
    base.seed = Some(77);
    let overrides = CdtConfigOverrides { seed: Some(None), ..CdtConfigOverrides::default() };
    let merged = base.merge_with_override(&overrides).expect("override merge should succeed");
    assert_eq!(merged.config().seed, None);
}

#[test]
fn test_merge_with_override_can_clear_spatial_vertex_profile() {
    let mut base = config(15, 3);
    base.spatial_vertex_profile = Some(vec![4, 6, 5]);
    let overrides = CdtConfigOverrides { spatial_vertex_profile: Some(None), ..CdtConfigOverrides::default() };
    let merged = base.merge_with_override(&overrides).expect("override merge should succeed");
    let merged = merged.config();
    assert_eq!(merged.spatial_vertex_profile, None);
    assert_eq!(merged.vertices, 15);
    assert_eq!(merged.timeslices, 3);
}

#[test]
fn test_merge_with_override_can_clear_dimension() {
    let base = config(10, 2);
    let overrides = CdtConfigOverrides { dimension: Some(DimensionOverride::Clear), ..CdtConfigOverrides::default() };
    let merged = base.merge_with_override(&overrides).expect("override merge should succeed");
    let merged = merged.config();
    assert_eq!(merged.dimension, None);
    assert_eq!(merged.dimension(), 2);
}

#[test]
fn test_merge_with_override_rejects_spatial_vertex_profile_overflow() {
    let base = config(10, 2);
    let overrides = CdtConfigOverrides {
        spatial_vertex_profile: Some(Some(vec![u32::MAX, 1])),
        ..CdtConfigOverrides::default()
    };
    let (setting, provided, expected) = config_error(base.merge_with_override(&overrides));
    assert_eq!(setting, ConfigurationSetting::Vertices);
    assert_eq!(provided, "[4294967295, 1]");
    assert_eq!(expected, "spatial-vertex profile sum <= u32::MAX");
}

#[test]
fn test_merge_with_override_rejects_invalid_schedule() {
    let base = config(10, 2);
    let overrides = CdtConfigOverrides { measurement_frequency: Some(0), ..CdtConfigOverrides::default() };
    let (setting, provided, expected) = sim_error(base.merge_with_override(&overrides));
    assert_eq!(setting, ConfigurationSetting::MeasurementFrequency);
    assert_eq!(provided, "0");
    assert_eq!(expected, "≥ 1");
}

#[test]
fn test_merge_with_override_rejects_invalid_base_without_overrides() {
    let mut base = config(10, 2);
    base.measurement_frequency = 0;
    let (setting, provided, expected) = sim_error(base.merge_with_override(&CdtConfigOverrides::default()));
    assert_eq!(setting, ConfigurationSetting::MeasurementFrequency);
    assert_eq!(provided, "0");
    assert_eq!(expected, "≥ 1");
}

#[test]
fn merging_overrides_is_validating_the_merged_configuration() {
    let base = config(16, 4);
    let overrides = CdtConfigOverrides { steps: Some(0), ..CdtConfigOverrides::default() };
    let mut merged_by_hand = base.clone();
    merged_by_hand.steps = 0;
    assert_eq!(base.merge_with_override(&overrides).err(), ValidatedCdtConfig::new(merged_by_hand).err());

    let overrides = CdtConfigOverrides { vertices: Some(20), timeslices: Some(5), ..CdtConfigOverrides::default() };
    let mut merged_by_hand = base.clone();
    merged_by_hand.vertices = 20;
    merged_by_hand.timeslices = 5;
    let merged = base.merge_with_override(&overrides).expect("merged config is valid");
    let direct = ValidatedCdtConfig::new(merged_by_hand).expect("same config is valid");
    assert_eq!(merged.config(), direct.config());
}
