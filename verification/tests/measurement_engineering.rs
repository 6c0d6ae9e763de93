use emc_locus::measurement_engineering::{
    default_frequency_domain_spectrum, default_true, is_sha256_checksum, issue, parse_issue,
    require_id, require_schema, require_text, validate_expression,
    validate_expression_identifier, validate_ref, validate_refs, DefinitionReference,
    DefinitionValidationIssue, MeasurementEngineeringAggregateKind, SignalRepresentation,
    SENSOR_DEFINITION_SCHEMA_VERSION,
};
use emc_locus::metrology_characterization::{
    append_nested_issues, is_canonical_sha256, require_stable_id,
};

fn codes(issues: &[DefinitionValidationIssue]) -> Vec<&str> {
    issues.iter().map(|issue| issue.code.as_str()).collect()
}

fn reference(entity_id: &str, revision_id: Option<&str>) -> DefinitionReference {
    DefinitionReference {
        entity_id: entity_id.to_owned(),
        revision_id: revision_id.map(str::to_owned),
        require_approved: true,
    }
}

#[test]
fn unknown_expression_identifier_is_reported() {
    let mut issues = Vec::new();
    validate_expression(&mut issues, "system(input)", "$.parameters.expression");
    assert_eq!(codes(&issues), vec!["unknown_expression_identifier"]);
    assert_eq!(issues[0].message, "unknown expression identifier: system");
    assert_eq!(issues[0].severity, "error");
    assert_eq!(issues[0].path, "$.parameters.expression");
    assert!(issues[0].suggestion.is_some());
}

#[test]
fn allowed_expressions_have_no_findings() {
    let mut issues = Vec::new();
    validate_expression(&mut issues, "2.5 * pow(x, 2) + sqrt(temperature) - log10(frequency)", "$");
    validate_expression(&mut issues, "max(input, 0) / 10", "$");
    validate_expression(&mut issues, "", "$");
    assert!(issues.is_empty());
}

#[test]
fn unsafe_characters_and_trailing_identifiers_are_reported_in_order() {
    let mut issues = Vec::new();
    validate_expression(&mut issues, "x; rm", "$.e");
    assert_eq!(
        codes(&issues),
        vec!["unsafe_expression_character", "unknown_expression_identifier"]
    );
    assert_eq!(issues[0].message, "unsupported character in expression: ;");
    assert_eq!(issues[1].message, "unknown expression identifier: rm");
}

#[test]
fn expression_identifier_accepts_numbers_and_listed_names() {
    let mut issues = Vec::new();
    validate_expression_identifier(&mut issues, "123", &["x"], &["abs"], "$");
    validate_expression_identifier(&mut issues, "abs", &["x"], &["abs"], "$");
    validate_expression_identifier(&mut issues, "x", &["x"], &["abs"], "$");
    assert!(issues.is_empty());
    validate_expression_identifier(&mut issues, "y", &["x"], &["abs"], "$");
    assert_eq!(codes(&issues), vec!["unknown_expression_identifier"]);
}

#[test]
fn text_identifier_and_schema_requirements() {
    let mut issues = Vec::new();
    require_text(&mut issues, "  ", "$.label");
    require_text(&mut issues, " ok ", "$.label");
    require_id(&mut issues, "sensor-01_a", "$.sensor_id");
    require_id(&mut issues, "sensor.01", "$.sensor_id");
    require_id(&mut issues, " ", "$.sensor_id");
    require_schema(&mut issues, SENSOR_DEFINITION_SCHEMA_VERSION, SENSOR_DEFINITION_SCHEMA_VERSION, "$.schema_version");
    require_schema(&mut issues, "v0", SENSOR_DEFINITION_SCHEMA_VERSION, "$.schema_version");
    assert_eq!(
        codes(&issues),
        vec![
            "blank_text",
            "invalid_identifier",
            "invalid_identifier",
            "unsupported_measurement_engineering_schema"
        ]
    );
    assert_eq!(issues[3].message, "unsupported schema version: v0");
    assert_eq!(issues[3].suggestion.as_deref(), Some(SENSOR_DEFINITION_SCHEMA_VERSION));
}

#[test]
fn sha256_checksums_are_lowercase_hex() {
    let digest = "a".repeat(64);
    assert!(is_sha256_checksum(&format!("sha256:{digest}")));
    assert!(!is_sha256_checksum(&format!("sha256:{}", "A".repeat(64))));
    assert!(!is_sha256_checksum(&format!("md5:{digest}")));
    assert!(!is_sha256_checksum(&format!("sha256:{}", "a".repeat(63))));
}

#[test]
fn references_are_checked_and_duplicates_reported() {
    let mut issues = Vec::new();
    validate_ref(&mut issues, &reference("sensor-1", Some("rev 2")), "$.sensor");
    assert_eq!(codes(&issues), vec!["invalid_identifier"]);
    assert_eq!(issues[0].path, "$.sensor.revision_id");

    let mut issues = Vec::new();
    validate_refs(
        &mut issues,
        &[
            reference("a", None),
            reference("b", Some("r1")),
            reference("a", Some("")),
            reference("b", Some("r1")),
            reference("b", Some("r2")),
        ],
        "$.refs",
    );
    assert_eq!(
        codes(&issues),
        vec![
            "invalid_identifier",
            "duplicate_definition_reference",
            "duplicate_definition_reference"
        ]
    );
    assert_eq!(issues[0].path, "$.refs[2].revision_id");
    assert_eq!(issues[1].path, "$.refs[2]");
    assert_eq!(issues[2].path, "$.refs[3]");
}

#[test]
fn parse_findings_name_the_kind() {
    let found = parse_issue(MeasurementEngineeringAggregateKind::SensorDefinition, "eof".to_owned());
    assert_eq!(found.code, "invalid_measurement_engineering_definition_json");
    assert_eq!(found.path, "$");
    assert_eq!(found.message, "invalid sensor_definition definition JSON: eof");
    let built = issue("warning", "c", "$.p", "m".to_owned(), None);
    assert_eq!(built.severity, "warning");
    assert_eq!(built.suggestion, None);
    assert!(default_true());
    assert_eq!(default_frequency_domain_spectrum(), SignalRepresentation::FrequencyDomainSpectrum);
}

#[test]
fn nested_findings_move_under_the_prefix() {
    let mut issues = vec![issue("error", "first", "$.a", "m".to_owned(), None)];
    let nested = vec![
        issue("error", "root", "$", "r".to_owned(), None),
        issue("warning", "inner", "points[0]", "p".to_owned(), Some("s")),
    ];
    append_nested_issues(&mut issues, "frequency_response", nested);
    assert_eq!(issues.len(), 3);
    assert_eq!(issues[0].path, "$.a");
    assert_eq!(issues[1].path, "frequency_response");
    assert_eq!(issues[2].path, "frequency_response.points[0]");
    assert_eq!(issues[2].severity, "warning");
    assert_eq!(issues[2].suggestion.as_deref(), Some("s"));
}

#[test]
fn stable_identifiers_allow_dots_but_no_surrounding_space() {
    let mut issues = Vec::new();
    require_stable_id(&mut issues, "cable.loss-1_a", "$.id");
    assert!(issues.is_empty());
    require_stable_id(&mut issues, " cable ", "$.id");
    require_stable_id(&mut issues, "", "$.id");
    require_stable_id(&mut issues, "cable/1", "$.id");
    assert_eq!(issues.len(), 3);
    assert!(issues
        .iter()
        .all(|found| found.code == "invalid_asset_characterization_identifier"));
    assert!(is_canonical_sha256(&format!("sha256:{}", "0123456789abcdef".repeat(4))));
    assert!(!is_canonical_sha256("sha256:abc"));
}
