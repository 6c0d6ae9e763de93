use emc_locus::engineering_curves::{
    CurveAxisDefinition, CurveNumber, CurveValueDefinition, EngineeringCurveDefinition,
    EngineeringCurvePoint,
};
use emc_locus::engineering_validation::{
    FiniteCheck, PhysicalQuantity, RegisteredUnit, ScalingParameters, ScalingProfileDefinition,
};
use emc_locus::measurement_engineering::{
    CorrectionOperation, CurveAxis, CurveInterpolation, EngineeringCurveType, ExtrapolationPolicy,
    FrequencyResponseComponent, ScalingKind, SignalRepresentation,
    ENGINEERING_CURVE_DEFINITION_SCHEMA_VERSION, SCALING_PROFILE_DEFINITION_SCHEMA_VERSION,
};
use emc_locus::metrology_characterization::{
    validate_asset_characterization_definition, AssetCharacterizationDefinition,
    AssetCorrectionDefinition, CharacterizationUncertainty, SignalTransformationKind,
    SignalTransformationReference, ASSET_CHARACTERIZATION_DEFINITION_SCHEMA_VERSION,
};

fn unit(text: &str, quantity: Option<PhysicalQuantity>) -> RegisteredUnit {
    RegisteredUnit { unit: text.to_owned(), registry_quantity: quantity }
}

fn number(value: f64) -> CurveNumber {
    CurveNumber { finite: value.is_finite(), at_most_zero: value <= 0.0, bits: value.to_bits() }
}

fn point(x: f64, y: f64) -> EngineeringCurvePoint {
    EngineeringCurvePoint {
        axis_values: vec![("frequency".to_owned(), number(x))],
        values: vec![("amplitude".to_owned(), number(y))],
    }
}

fn frequency_definition() -> AssetCharacterizationDefinition {
    AssetCharacterizationDefinition {
        definition_schema_version: ASSET_CHARACTERIZATION_DEFINITION_SCHEMA_VERSION.to_owned(),
        characterization_id: "char-cable-001".to_owned(),
        asset_id: "SA-CABLE-001".to_owned(),
        label: "Pertes mesurées du câble".to_owned(),
        correction: AssetCorrectionDefinition::FrequencyResponse {
            correction: EngineeringCurveDefinition {
                definition_schema_version: ENGINEERING_CURVE_DEFINITION_SCHEMA_VERSION.to_owned(),
                curve_id: "char-cable-001".to_owned(),
                curve_type: EngineeringCurveType::CableLoss,
                label: "Pertes mesurées du câble".to_owned(),
                signal_representation: SignalRepresentation::FrequencyDomainSpectrum,
                independent_axes: vec![CurveAxisDefinition {
                    axis: CurveAxis::Frequency,
                    quantity: PhysicalQuantity::Frequency,
                    unit: unit("Hz", Some(PhysicalQuantity::Frequency)),
                }],
                dependent_values: vec![CurveValueDefinition {
                    value_id: "amplitude".to_owned(),
                    quantity: PhysicalQuantity::Dimensionless,
                    unit: unit("dB", Some(PhysicalQuantity::Dimensionless)),
                    unit_is_logarithmic: true,
                    component: FrequencyResponseComponent::Amplitude,
                    operation: CorrectionOperation::Add,
                }],
                points: vec![point(1.0e6, 0.4), point(1.0e9, 3.2)],
                interpolation: CurveInterpolation::LogXLinearY,
                extrapolation_policy: ExtrapolationPolicy::Forbidden,
                source_document_reference: None,
                source_checksum: None,
                status: None,
            },
        },
        model_correction_reference: None,
        uncertainty: Some(CharacterizationUncertainty {
            has_expanded_uncertainty: true,
            expanded_uncertainty_invalid: false,
            unit: Some("dB".to_owned()),
            has_coverage_factor: true,
            coverage_factor_invalid: false,
            has_confidence_level: true,
            confidence_level_invalid: false,
            statement: None,
        }),
    }
}

fn curve(definition: &mut AssetCharacterizationDefinition) -> &mut EngineeringCurveDefinition {
    match &mut definition.correction {
        AssetCorrectionDefinition::FrequencyResponse { correction } => correction,
        AssetCorrectionDefinition::TimeConversion { .. } => unreachable!(),
    }
}

#[test]
fn the_frequency_characterization_is_valid() {
    assert!(frequency_definition().validate_all().is_empty());
}

#[test]
fn rejects_mismatched_nested_identity() {
    let mut definition = frequency_definition();
    curve(&mut definition).curve_id = "other".to_owned();
    assert!(definition
        .validate_all()
        .iter()
        .any(|issue| issue.code == "asset_characterization_identity_mismatch"));
}

#[test]
fn rejects_uncertainty_without_unit() {
    let mut definition = frequency_definition();
    definition.uncertainty.as_mut().unwrap().unit = None;
    assert!(definition
        .validate_all()
        .iter()
        .any(|issue| issue.code == "missing_characterization_uncertainty_unit"));
}

#[test]
fn rejects_uncertainty_metadata_without_numeric_value() {
    let mut definition = frequency_definition();
    definition.uncertainty.as_mut().unwrap().has_expanded_uncertainty = false;
    assert!(definition
        .validate_all()
        .iter()
        .any(|issue| issue.code == "incomplete_characterization_uncertainty"));
}

#[test]
fn rejects_frequency_response_with_single_point() {
    let mut definition = frequency_definition();
    curve(&mut definition).points.truncate(1);
    assert!(definition
        .validate_all()
        .iter()
        .any(|issue| issue.code == "asset_frequency_response_requires_two_points"));
}

#[test]
fn accepts_linear_time_conversion() {
    let definition = AssetCharacterizationDefinition {
        definition_schema_version: ASSET_CHARACTERIZATION_DEFINITION_SCHEMA_VERSION.to_owned(),
        characterization_id: "char-probe-001".to_owned(),
        asset_id: "SA-PROBE-001".to_owned(),
        label: "Sensibilité mesurée".to_owned(),
        correction: AssetCorrectionDefinition::TimeConversion {
            correction: ScalingProfileDefinition {
                definition_schema_version: SCALING_PROFILE_DEFINITION_SCHEMA_VERSION.to_owned(),
                scaling_profile_id: "char-probe-001".to_owned(),
                label: "Sensibilité mesurée".to_owned(),
                input_quantity: PhysicalQuantity::Voltage,
                input_unit: unit("V", Some(PhysicalQuantity::Voltage)),
                output_quantity: PhysicalQuantity::ElectricField,
                output_unit: unit("V_per_meter", Some(PhysicalQuantity::ElectricField)),
                signal_representation: SignalRepresentation::TimeDomainSamples,
                scaling_kind: ScalingKind::Linear,
                parameters: ScalingParameters {
                    scale: FiniteCheck::Finite,
                    offset: FiniteCheck::Finite,
                    input_point_1: FiniteCheck::Missing,
                    output_point_1: FiniteCheck::Missing,
                    input_point_2: FiniteCheck::Missing,
                    output_point_2: FiniteCheck::Missing,
                    two_point_inputs_identical: false,
                    coefficients_finite: Vec::new(),
                    points: Vec::new(),
                    interpolation: None,
                    extrapolation_policy: None,
                    expression: None,
                },
                input_limits_invalid: false,
                source_reference: None,
            },
        },
        model_correction_reference: None,
        uncertainty: None,
    };
    assert!(definition.validate_all().is_empty());
}

#[test]
fn nested_findings_and_the_model_reference_come_in_order() {
    let mut definition = frequency_definition();
    definition.definition_schema_version = "v0".to_owned();
    definition.label = " ".to_owned();
    curve(&mut definition).label = String::new();
    definition.model_correction_reference = Some(SignalTransformationReference {
        transformation_kind: SignalTransformationKind::SampleConversion,
        entity_id: "model-cable".to_owned(),
        revision_id: "rev 1".to_owned(),
        definition_checksum: "sha256:abc".to_owned(),
    });
    let uncertainty = definition.uncertainty.as_mut().unwrap();
    uncertainty.coverage_factor_invalid = true;
    uncertainty.has_confidence_level = true;
    uncertainty.confidence_level_invalid = true;
    let issues = validate_asset_characterization_definition(&definition);
    let found: Vec<(&str, &str)> =
        issues.iter().map(|i| (i.code.as_str(), i.path.as_str())).collect();
    assert_eq!(
        found,
        vec![
            ("unsupported_asset_characterization_schema", "definition_schema_version"),
            ("missing_asset_characterization_label", "label"),
            ("blank_text", "correction.label"),
            ("model_correction_kind_mismatch", "model_correction_reference.transformation_kind"),
            ("invalid_asset_characterization_identifier", "model_correction_reference.revision_id"),
            ("invalid_model_correction_checksum", "model_correction_reference.definition_checksum"),
            ("invalid_characterization_coverage_factor", "uncertainty.coverage_factor"),
            ("invalid_characterization_confidence_level", "uncertainty.confidence_level_percent"),
        ]
    );
    assert_eq!(
        issues[0].suggestion.as_deref(),
        Some("Use emc-locus.asset-characterization-definition.v1.")
    );
}
