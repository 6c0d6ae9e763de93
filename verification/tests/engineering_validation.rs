use emc_locus::engineering_validation::{
    validate_acquisition_channel_recipe_definition, validate_acquisition_channel_recipe_with_context,
    validate_daq_channel_profile_definition, validate_sensor_definition,
    AcquisitionChannelRecipeDefinition, DaqChannelProfileDefinition, ExcitationRequirement,
    NumericRange, PhysicalQuantity, RegisteredUnit, ResolvedAcquisitionRecipeContext,
    SampleRateExcess, ScalingProfileDefinition, ScalingParameters,
    ScalingPoint, FiniteCheck, validate_scaling_profile_definition, SensorDefinition,
    SupportedRange,
};
use emc_locus::measurement_engineering::{
    CouplingMode, DaqChannelKind, DaqInputMode, DefinitionReference, DefinitionValidationIssue,
    ExcitationKind, SensorFamily, ACQUISITION_CHANNEL_RECIPE_DEFINITION_SCHEMA_VERSION,
    ExtrapolationPolicy, ScalingInterpolation, ScalingKind, SignalRepresentation,
    SCALING_PROFILE_DEFINITION_SCHEMA_VERSION,
    DAQ_CHANNEL_PROFILE_DEFINITION_SCHEMA_VERSION, SENSOR_DEFINITION_SCHEMA_VERSION,
};
use emc_locus::engineering_curves::{
    validate_engineering_curve_definition, CurveAxisDefinition, CurveNumber, CurveValueDefinition,
    EngineeringCurveDefinition, EngineeringCurvePoint,
};
use emc_locus::measurement_engineering::{
    CorrectionOperation, CurveAxis, CurveInterpolation, EngineeringCurveType,
    FrequencyResponseComponent, ENGINEERING_CURVE_DEFINITION_SCHEMA_VERSION,
};
use emc_locus::SignalDomain;

fn unit(text: &str, quantity: Option<PhysicalQuantity>) -> RegisteredUnit {
    RegisteredUnit { unit: text.to_owned(), registry_quantity: quantity }
}

fn reference(id: &str) -> DefinitionReference {
    DefinitionReference { entity_id: id.to_owned(), revision_id: None, require_approved: true }
}

fn volts() -> SupportedRange {
    SupportedRange {
        unit: unit("V", Some(PhysicalQuantity::Voltage)),
        unit_known: true,
        bounds_invalid: false,
    }
}

fn demo_sensor() -> SensorDefinition {
    SensorDefinition {
        definition_schema_version: SENSOR_DEFINITION_SCHEMA_VERSION.to_owned(),
        sensor_definition_id: "demo-current-probe".to_owned(),
        manufacturer: "EMC Locus".to_owned(),
        model_name: "Demo Current Probe 10mV/A".to_owned(),
        variant: None,
        sensor_family: SensorFamily::CurrentProbe,
        physical_input_quantity: PhysicalQuantity::Current,
        engineering_output_quantity: PhysicalQuantity::Current,
        engineering_output_unit: unit("A", Some(PhysicalQuantity::Current)),
        electrical_output_quantity: PhysicalQuantity::Voltage,
        electrical_output_unit: unit("V", Some(PhysicalQuantity::Voltage)),
        signal_domain: SignalDomain::AnalogVoltage,
        iepe_tag_declared: false,
        required_excitation: None,
        input_mode_requirement: Some(DaqInputMode::SingleEnded),
        nominal_range: Some(NumericRange {
            unit: unit("A", Some(PhysicalQuantity::Current)),
            bounds_invalid: false,
        }),
        safe_range: None,
        orientation_axes: Vec::new(),
        settling_time_invalid: false,
        frequency_range_invalid: false,
        temperature_range: None,
        scaling_profile_refs: vec![reference("demo-current-probe-10mv-a")],
        correction_curve_refs: vec![reference("demo-cable-loss")],
    }
}

fn demo_daq() -> DaqChannelProfileDefinition {
    DaqChannelProfileDefinition {
        definition_schema_version: DAQ_CHANNEL_PROFILE_DEFINITION_SCHEMA_VERSION.to_owned(),
        daq_channel_profile_id: "demo-daq-ai-10v".to_owned(),
        label: "Demo DAQ AI +/-10V".to_owned(),
        channel_kind: DaqChannelKind::AnalogInput,
        signal_domain: SignalDomain::AnalogVoltage,
        input_quantity: Some(PhysicalQuantity::Voltage),
        input_unit: Some(unit("V", Some(PhysicalQuantity::Voltage))),
        supported_ranges: vec![volts()],
        resolution_bits: Some(16),
        max_sampling_rate_invalid: false,
        min_sampling_rate_invalid: false,
        sampling_rates_inverted: false,
        coupling_modes: vec![CouplingMode::Dc],
        input_modes: vec![DaqInputMode::SingleEnded, DaqInputMode::Differential],
        anti_alias_filter: Some("optional".to_owned()),
        excitation_capabilities: Vec::new(),
        bridge_completion: None,
        iepe_support: false,
        isolation: None,
        synchronization: Some("shared_clock_ready".to_owned()),
        triggering: Some("software_or_external".to_owned()),
    }
}

fn finite_parameters() -> ScalingParameters {
    ScalingParameters {
        scale: FiniteCheck::Finite,
        offset: FiniteCheck::Finite,
        input_point_1: FiniteCheck::Missing,
        output_point_1: FiniteCheck::Missing,
        input_point_2: FiniteCheck::Missing,
        output_point_2: FiniteCheck::Missing,
        two_point_inputs_identical: false,
        coefficients_finite: Vec::new(),
        points: Vec::new(),
        interpolation: None,
        extrapolation_policy: None,
        expression: None,
    }
}

fn demo_scaling() -> ScalingProfileDefinition {
    ScalingProfileDefinition {
        definition_schema_version: SCALING_PROFILE_DEFINITION_SCHEMA_VERSION.to_owned(),
        scaling_profile_id: "demo-current-probe-10mv-a".to_owned(),
        label: "Demo current probe 10mV/A".to_owned(),
        input_quantity: PhysicalQuantity::Voltage,
        input_unit: unit("V", Some(PhysicalQuantity::Voltage)),
        output_quantity: PhysicalQuantity::Current,
        output_unit: unit("A", Some(PhysicalQuantity::Current)),
        signal_representation: SignalRepresentation::TimeDomainSamples,
        scaling_kind: ScalingKind::Linear,
        parameters: finite_parameters(),
        input_limits_invalid: false,
        source_reference: None,
    }
}

fn demo_recipe() -> AcquisitionChannelRecipeDefinition {
    AcquisitionChannelRecipeDefinition {
        definition_schema_version: ACQUISITION_CHANNEL_RECIPE_DEFINITION_SCHEMA_VERSION.to_owned(),
        recipe_id: "current-a".to_owned(),
        label: "current_A".to_owned(),
        output_channel_name: "current_A".to_owned(),
        output_quantity: PhysicalQuantity::Current,
        output_unit: unit("A", Some(PhysicalQuantity::Current)),
        daq_channel_profile_ref: reference("demo-daq-ai-10v"),
        sensor_definition_ref: Some(reference("demo-current-probe")),
        scaling_profile_ref: Some(reference("demo-current-probe-10mv-a")),
        correction_curve_refs: vec![reference("demo-cable-loss")],
        sample_rate_invalid: false,
        range: volts(),
        coupling: CouplingMode::Dc,
        input_mode: DaqInputMode::SingleEnded,
        excitation: None,
        filtering: None,
        triggering: None,
        validation_rules: Vec::new(),
    }
}

fn context(covering: bool) -> ResolvedAcquisitionRecipeContext {
    ResolvedAcquisitionRecipeContext {
        daq_channel_profile: Some(demo_daq()),
        sensor_definition: Some(demo_sensor()),
        scaling_profile: Some(demo_scaling()),
        correction_curves: vec![demo_curve()],
        sample_rate_excess: None,
        covering_ranges: vec![covering],
    }
}

fn codes(issues: &[DefinitionValidationIssue]) -> Vec<(&str, &str, &str)> {
    issues
        .iter()
        .map(|i| (i.severity.as_str(), i.code.as_str(), i.path.as_str()))
        .collect()
}

#[test]
fn validates_sensor_daq_and_recipe_compatibility() {
    let sensor = demo_sensor();
    assert!(validate_sensor_definition(&sensor).is_empty());
    let daq = demo_daq();
    assert!(validate_daq_channel_profile_definition(&daq).is_empty());
    let recipe = demo_recipe();
    let issues = validate_acquisition_channel_recipe_with_context(&recipe, &context(true));
    assert!(issues.is_empty(), "{issues:?}");
}

#[test]
fn detects_sample_rate_and_range_violations() {
    let recipe = demo_recipe();
    let mut context = context(false);
    context.correction_curves = Vec::new();
    context.sample_rate_excess = Some(SampleRateExcess {
        sample_rate: "2000000".to_owned(),
        max_sampling_rate: "1000000".to_owned(),
    });
    let issues = validate_acquisition_channel_recipe_with_context(&recipe, &context);
    assert!(issues.iter().any(|issue| issue.code == "recipe_sample_rate_exceeds_daq"));
    assert!(issues.iter().any(|issue| issue.code == "recipe_range_not_supported"));
    assert_eq!(
        issues[0].message,
        "recipe sample_rate 2000000 exceeds DAQ max_sampling_rate 1000000"
    );
}

#[test]
fn sensor_findings_come_in_order() {
    let mut sensor = demo_sensor();
    sensor.definition_schema_version = "v0".to_owned();
    sensor.manufacturer = " ".to_owned();
    sensor.engineering_output_unit = unit(" mV ", Some(PhysicalQuantity::Voltage));
    sensor.electrical_output_unit = unit("  ", None);
    sensor.nominal_range = Some(NumericRange { unit: unit("furlong", None), bounds_invalid: true });
    sensor.frequency_range_invalid = true;
    sensor.sensor_family = SensorFamily::Accelerometer;
    sensor.required_excitation = Some(ExcitationRequirement {
        excitation_kind: ExcitationKind::Iepe,
        has_nominal_value: true,
        nominal_value_invalid: true,
        unit: Some(unit("mA", Some(PhysicalQuantity::Current))),
        external_allowed: false,
    });
    sensor.scaling_profile_refs.push(reference("demo-current-probe-10mv-a"));
    let issues = validate_sensor_definition(&sensor);
    assert_eq!(
        codes(&issues),
        vec![
            ("error", "unsupported_measurement_engineering_schema", "definition_schema_version"),
            ("error", "blank_text", "manufacturer"),
            ("error", "quantity_unit_mismatch", "engineering_output_unit"),
            ("error", "missing_unit", "electrical_output_unit"),
            ("error", "unknown_unit", "nominal_range.unit"),
            ("error", "invalid_numeric_range", "nominal_range"),
            ("error", "invalid_frequency_range", "frequency_range"),
            ("error", "duplicate_definition_reference", "scaling_profile_refs[1]"),
            ("error", "accelerometer_quantity_mismatch", "physical_input_quantity"),
            ("warning", "iepe_tag_missing", "technology_tags"),
            ("error", "invalid_excitation_value", "required_excitation.nominal_value"),
        ]
    );
    assert_eq!(issues[2].message, "unit mV belongs to Voltage, not Current");
    assert_eq!(issues[4].message, "unit is not in the registry: furlong");
}

#[test]
fn units_accept_pascal_charges_and_transfer_units() {
    let mut sensor = demo_sensor();
    sensor.sensor_family = SensorFamily::Microphone;
    sensor.physical_input_quantity = PhysicalQuantity::SoundPressure;
    sensor.nominal_range = Some(NumericRange {
        unit: unit("Pa", Some(PhysicalQuantity::Pressure)),
        bounds_invalid: false,
    });
    sensor.engineering_output_quantity = PhysicalQuantity::Charge;
    sensor.engineering_output_unit = unit("pC", Some(PhysicalQuantity::ElectricCharge));
    sensor.electrical_output_unit = unit("mV_per_g", Some(PhysicalQuantity::Dimensionless));
    assert!(validate_sensor_definition(&sensor).is_empty());
    sensor.electrical_output_unit = unit("ratio", Some(PhysicalQuantity::Dimensionless));
    let issues = validate_sensor_definition(&sensor);
    assert_eq!(issues[0].message, "unit ratio belongs to Dimensionless, not Voltage");
}

#[test]
fn daq_findings_come_in_order() {
    let mut daq = demo_daq();
    daq.channel_kind = DaqChannelKind::AnalogOutput;
    daq.input_unit = None;
    daq.supported_ranges.push(SupportedRange {
        unit: unit("A", Some(PhysicalQuantity::Current)),
        unit_known: false,
        bounds_invalid: true,
    });
    daq.resolution_bits = Some(0);
    daq.sampling_rates_inverted = true;
    daq.iepe_support = true;
    daq.excitation_capabilities.push(ExcitationRequirement {
        excitation_kind: ExcitationKind::NoExcitation,
        has_nominal_value: false,
        nominal_value_invalid: false,
        unit: Some(unit("V", Some(PhysicalQuantity::Voltage))),
        external_allowed: false,
    });
    let issues = validate_daq_channel_profile_definition(&daq);
    assert_eq!(
        codes(&issues),
        vec![
            ("error", "analog_channel_missing_quantity_unit", "input_quantity"),
            ("error", "invalid_supported_range", "supported_ranges[1]"),
            ("error", "unknown_unit", "supported_ranges[1].unit"),
            ("error", "quantity_unit_mismatch", "supported_ranges[1].unit"),
            ("error", "invalid_resolution_bits", "resolution_bits"),
            ("error", "sampling_rate_order_invalid", "min_sampling_rate"),
            ("error", "iepe_support_without_input_mode", "iepe_support"),
            ("warning", "none_excitation_has_value", "excitation_capabilities[0]"),
        ]
    );
}

#[test]
fn daq_channel_kinds_must_match_their_signal_domain() {
    let mut daq = demo_daq();
    daq.channel_kind = DaqChannelKind::CanBusChannel;
    assert_eq!(codes(&validate_daq_channel_profile_definition(&daq)), vec![(
        "error",
        "can_channel_domain_mismatch",
        "signal_domain",
    )]);
    daq.channel_kind = DaqChannelKind::TriggerInput;
    assert_eq!(validate_daq_channel_profile_definition(&daq)[0].code, "trigger_channel_domain_mismatch");
    daq.channel_kind = DaqChannelKind::DigitalBidirectional;
    assert_eq!(validate_daq_channel_profile_definition(&daq)[0].code, "digital_channel_analog_domain");
    daq.signal_domain = SignalDomain::Trigger;
    assert!(validate_daq_channel_profile_definition(&daq).is_empty());
}

#[test]
fn recipe_context_findings_come_in_order() {
    let mut recipe = demo_recipe();
    recipe.input_mode = DaqInputMode::Iepe;
    recipe.coupling = CouplingMode::Ac;
    recipe.output_unit = unit("mA", Some(PhysicalQuantity::Current));
    let mut context = context(true);
    let daq = context.daq_channel_profile.as_mut().unwrap();
    daq.label = String::new();
    daq.input_quantity = Some(PhysicalQuantity::Current);
    daq.input_unit = Some(unit("A", Some(PhysicalQuantity::Current)));
    let sensor = context.sensor_definition.as_mut().unwrap();
    sensor.required_excitation = Some(ExcitationRequirement {
        excitation_kind: ExcitationKind::Bridge,
        has_nominal_value: false,
        nominal_value_invalid: false,
        unit: None,
        external_allowed: false,
    });
    let mut empty = demo_curve();
    empty.dependent_values.clear();
    context.correction_curves.push(empty);
    let issues = validate_acquisition_channel_recipe_with_context(&recipe, &context);
    assert_eq!(
        codes(&issues),
        vec![
            ("error", "resolved_daq_channel_profile_invalid", "daq_channel_profile_ref"),
            ("error", "recipe_input_mode_not_supported", "input_mode"),
            ("error", "recipe_coupling_not_supported", "coupling"),
            ("error", "quantity_unit_mismatch", "range.unit"),
            ("error", "recipe_sensor_excitation_not_available", "excitation"),
            ("error", "recipe_sensor_daq_quantity_mismatch", "sensor_definition_ref"),
            ("error", "recipe_scaling_output_mismatch", "scaling_profile_ref"),
            ("error", "recipe_correction_curve_invalid", "correction_curve_refs"),
        ]
    );
}

#[test]
fn a_recipe_without_a_resolved_daq_stops_there() {
    let mut recipe = demo_recipe();
    recipe.sample_rate_invalid = true;
    let mut context = context(true);
    context.daq_channel_profile = None;
    let issues = validate_acquisition_channel_recipe_with_context(&recipe, &context);
    assert_eq!(
        codes(&issues),
        vec![
            ("error", "invalid_recipe_sample_rate", "sample_rate"),
            ("error", "missing_resolved_daq_channel_profile", "daq_channel_profile_ref"),
        ]
    );
    assert_eq!(codes(&validate_acquisition_channel_recipe_definition(&recipe)).len(), 1);
}

#[test]
fn rejects_frequency_domain_scaling_and_invalid_sample_limits() {
    let mut definition = demo_scaling();
    assert!(validate_scaling_profile_definition(&definition).is_empty());
    definition.signal_representation = SignalRepresentation::FrequencyDomainSpectrum;
    definition.input_limits_invalid = true;
    let issues = validate_scaling_profile_definition(&definition);
    assert!(issues.iter().any(|issue| issue.code == "scaling_requires_time_domain_samples"));
    assert!(issues.iter().any(|issue| issue.code == "invalid_sample_input_limits"));
}

#[test]
fn each_scaling_kind_checks_its_parameters() {
    let mut definition = demo_scaling();
    definition.parameters.scale = FiniteCheck::Missing;
    definition.parameters.offset = FiniteCheck::NotFinite;
    assert_eq!(
        codes(&validate_scaling_profile_definition(&definition)),
        vec![
            ("error", "missing_linear_scale", "parameters.scale"),
            ("error", "invalid_linear_offset", "parameters.offset"),
        ]
    );

    definition.scaling_kind = ScalingKind::Identity;
    assert_eq!(validate_scaling_profile_definition(&definition)[0].code, "identity_scaling_unit_mismatch");

    definition.scaling_kind = ScalingKind::TwoPoint;
    definition.parameters.input_point_1 = FiniteCheck::Finite;
    definition.parameters.output_point_1 = FiniteCheck::NotFinite;
    definition.parameters.input_point_2 = FiniteCheck::Finite;
    definition.parameters.two_point_inputs_identical = true;
    assert_eq!(
        codes(&validate_scaling_profile_definition(&definition)),
        vec![
            ("error", "invalid_numeric_value", "parameters.output_point_1"),
            ("error", "missing_two_point_output_2", "parameters.output_point_2"),
            ("error", "two_point_inputs_identical", "parameters.input_point_2"),
        ]
    );

    definition.scaling_kind = ScalingKind::Polynomial;
    assert_eq!(validate_scaling_profile_definition(&definition)[0].code, "polynomial_coefficients_empty");
    definition.parameters.coefficients_finite = vec![true, false];
    assert_eq!(
        codes(&validate_scaling_profile_definition(&definition)),
        vec![("error", "invalid_polynomial_coefficient", "parameters.coefficients[1]")]
    );

    definition.scaling_kind = ScalingKind::Expression;
    definition.parameters.expression = Some("  ".to_owned());
    assert_eq!(validate_scaling_profile_definition(&definition)[0].code, "missing_expression");
    definition.parameters.expression = Some("x * 100".to_owned());
    assert!(validate_scaling_profile_definition(&definition).is_empty());
}

#[test]
fn lookup_tables_need_increasing_unique_points() {
    let mut definition = demo_scaling();
    definition.scaling_kind = ScalingKind::LookupTable;
    definition.parameters.points = vec![ScalingPoint { finite: true, input_bits: 1, input_not_above_previous: false }];
    assert_eq!(
        codes(&validate_scaling_profile_definition(&definition)),
        vec![
            ("error", "lookup_points_too_short", "parameters.points"),
            ("error", "missing_interpolation", "parameters.interpolation"),
            ("error", "missing_extrapolation_policy", "parameters.extrapolation_policy"),
        ]
    );
    definition.parameters.interpolation = Some(ScalingInterpolation::Linear);
    definition.parameters.extrapolation_policy = Some(ExtrapolationPolicy::Forbidden);
    definition.parameters.points.push(ScalingPoint { finite: false, input_bits: 1, input_not_above_previous: true });
    assert_eq!(
        codes(&validate_scaling_profile_definition(&definition)),
        vec![
            ("error", "invalid_lookup_point", "parameters.points[1]"),
            ("error", "duplicate_lookup_input", "parameters.points[1].input"),
            ("error", "lookup_inputs_not_monotonic", "parameters.points[1].input"),
        ]
    );
}

fn number(value: f64) -> CurveNumber {
    CurveNumber { finite: value.is_finite(), at_most_zero: value <= 0.0, bits: value.to_bits() }
}

fn point(axis: &str, x: f64, values: &[(&str, f64)]) -> EngineeringCurvePoint {
    EngineeringCurvePoint {
        axis_values: vec![(axis.to_owned(), number(x))],
        values: values.iter().map(|(id, v)| ((*id).to_owned(), number(*v))).collect(),
    }
}

fn demo_curve() -> EngineeringCurveDefinition {
    EngineeringCurveDefinition {
        definition_schema_version: ENGINEERING_CURVE_DEFINITION_SCHEMA_VERSION.to_owned(),
        curve_id: "demo-cable-loss".to_owned(),
        curve_type: EngineeringCurveType::CableLoss,
        label: "Demo cable loss".to_owned(),
        signal_representation: SignalRepresentation::FrequencyDomainSpectrum,
        independent_axes: vec![CurveAxisDefinition {
            axis: CurveAxis::Frequency,
            quantity: PhysicalQuantity::Frequency,
            unit: unit("Hz", Some(PhysicalQuantity::Frequency)),
        }],
        dependent_values: vec![CurveValueDefinition {
            value_id: "correction_db".to_owned(),
            quantity: PhysicalQuantity::Dimensionless,
            unit: unit("dB", Some(PhysicalQuantity::Dimensionless)),
            unit_is_logarithmic: true,
            component: FrequencyResponseComponent::Amplitude,
            operation: CorrectionOperation::Add,
        }],
        points: vec![
            point("frequency", 10_000_000.0, &[("correction_db", 0.0)]),
            point("frequency", 100_000_000.0, &[("correction_db", 1.0)]),
            point("frequency", 1_000_000_000.0, &[("correction_db", 3.0)]),
        ],
        interpolation: CurveInterpolation::LogXLinearY,
        extrapolation_policy: ExtrapolationPolicy::Forbidden,
        source_document_reference: None,
        source_checksum: Some(format!("sha256:{}", "a".repeat(64))),
        status: None,
    }
}

#[test]
fn the_demo_curve_is_valid() {
    assert!(validate_engineering_curve_definition(&demo_curve()).is_empty());
}

#[test]
fn rejects_uppercase_curve_source_checksum() {
    let mut curve = demo_curve();
    curve.source_checksum = Some(format!("sha256:{}", "A".repeat(64)));
    let issues = validate_engineering_curve_definition(&curve);
    assert!(issues.iter().any(|issue| issue.code == "invalid_source_checksum"));
}

#[test]
fn validates_amplitude_and_optional_phase_frequency_response() {
    let mut definition = demo_curve();
    definition.dependent_values.push(CurveValueDefinition {
        value_id: "phase_correction_deg".to_owned(),
        quantity: PhysicalQuantity::Angle,
        unit: unit("deg", Some(PhysicalQuantity::Angle)),
        unit_is_logarithmic: false,
        component: FrequencyResponseComponent::Phase,
        operation: CorrectionOperation::Add,
    });
    for point in &mut definition.points {
        point.values.push(("phase_correction_deg".to_owned(), number(0.0)));
    }
    let issues = validate_engineering_curve_definition(&definition);
    assert!(!issues.iter().any(|item| item.severity == "error"), "{issues:?}");
}

#[test]
fn rejects_frequency_response_without_frequency_axis() {
    let mut definition = demo_curve();
    definition.independent_axes[0] = CurveAxisDefinition {
        axis: CurveAxis::Time,
        quantity: PhysicalQuantity::Time,
        unit: unit("s", Some(PhysicalQuantity::Time)),
    };
    for point in &mut definition.points {
        point.axis_values[0].0 = "time".to_owned();
    }
    let issues = validate_engineering_curve_definition(&definition);
    assert!(issues.iter().any(|issue| issue.code == "frequency_response_axis_missing"));
}

#[test]
fn rejects_linear_x_log_y_with_non_positive_curve_values() {
    let mut curve = demo_curve();
    curve.interpolation = CurveInterpolation::LinearXLogY;
    let issues = validate_engineering_curve_definition(&curve);
    assert!(issues.iter().any(|issue| issue.code == "log_y_interpolation_non_positive_value"));
}

#[test]
fn rejects_unknown_expression_identifier() {
    let mut scaling = demo_scaling();
    scaling.scaling_kind = ScalingKind::Expression;
    scaling.parameters.expression = Some("system(input)".to_owned());
    let issues = validate_scaling_profile_definition(&scaling);
    assert!(issues.iter().any(|issue| issue.code == "unknown_expression_identifier"));
}

#[test]
fn curve_points_are_checked_in_order() {
    let mut curve = demo_curve();
    curve.interpolation = CurveInterpolation::LinearXLogY;
    curve.dependent_values[0].unit_is_logarithmic = false;
    curve.dependent_values[0].unit = unit("ratio", Some(PhysicalQuantity::Dimensionless));
    curve.points = vec![
        point("frequency", 0.0, &[("correction_db", 2.0)]),
        point("frequency", 0.0, &[("correction_db", f64::NAN)]),
        point("other", 5.0, &[]),
        point("frequency", 7.0, &[]),
    ];
    let issues = validate_engineering_curve_definition(&curve);
    assert_eq!(
        codes(&issues),
        vec![
            ("error", "frequency_curve_non_positive_frequency", "points[0].axis_values.frequency"),
            ("error", "frequency_curve_non_positive_frequency", "points[1].axis_values.frequency"),
            ("error", "duplicate_curve_x", "points[1].axis_values.frequency"),
            ("error", "invalid_curve_point_value", "points[1].values.correction_db"),
            ("error", "missing_curve_point_axis", "points[2].axis_values"),
            ("error", "missing_curve_point_value", "points[3].values"),
            ("error", "rf_gain_loss_unit_mismatch", "dependent_values"),
            ("warning", "linear_x_log_y_with_linear_unit", "interpolation"),
        ]
    );
    assert_eq!(issues[4].message, "missing frequency axis value");
}

#[test]
fn curve_axes_and_values_are_checked_in_order() {
    let mut curve = demo_curve();
    curve.independent_axes.push(curve.independent_axes[0].clone());
    let mut phase = curve.dependent_values[0].clone();
    phase.quantity = PhysicalQuantity::Angle;
    curve.dependent_values.push(phase);
    curve.source_checksum = None;
    let issues = validate_engineering_curve_definition(&curve);
    assert_eq!(
        codes(&issues),
        vec![
            ("error", "duplicate_curve_axis", "independent_axes[1].axis"),
            ("error", "duplicate_curve_value", "dependent_values[1].value_id"),
            ("error", "quantity_unit_mismatch", "dependent_values[1].unit"),
            ("error", "duplicate_frequency_response_component", "dependent_values[1].component"),
            ("error", "amplitude_correction_quantity_mismatch", "dependent_values[1].quantity"),
        ]
    );
}
