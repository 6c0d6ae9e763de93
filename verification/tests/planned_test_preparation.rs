use emc_locus::planned_test_preparation::{
    assess_planned_test_material_compatibility, assess_planned_test_preparation,
    PlannedTestInstrumentAssignment, PlannedTestPreparationAssessmentInput,
    PlannedTestPreparationDimension, PlannedTestPreparationState, PlannedTestScheduleSnapshot,
    PreparedEquipmentCapabilitySnapshot, PreparedStationAssetSnapshot,
    PreparedStationSetupSnapshot, PreparedTestMethodSnapshot,
};
use emc_locus::service_planning::ServiceScheduleStatus;
use emc_locus::station_setup::{
    StationReadinessDimension, StationReadinessIssue, StationReadinessSeverity,
    StationSetupReadiness, StationSetupRevisionStatus,
};
use emc_locus::test_definitions::{
    CalibrationRequirement, InstrumentSubstitutionPolicy, InstrumentationChainSlot,
    MeasurementAxis, TemplateRevisionStatus,
};
use std::collections::BTreeSet;

fn checksum(character: char) -> String {
    format!("sha256:{}", character.to_string().repeat(64))
}

fn input() -> PlannedTestPreparationAssessmentInput {
    PlannedTestPreparationAssessmentInput {
        schedule: PlannedTestScheduleSnapshot {
            project_code: "CEM-2026-001".to_owned(),
            item_code: "PLAN-001".to_owned(),
            revision: 2,
            title: "Émission conduite".to_owned(),
            planned_start_at: "2026-07-16T09:00".to_owned(),
            planned_end_at: "2026-07-16T12:00".to_owned(),
            assigned_operator: "Alice Martin".to_owned(),
            laboratory_location_id: Some("LAB-LOCATION-CEM-1".to_owned()),
            laboratory_location_label: "Poste CEM 1".to_owned(),
            equipment_under_test: "Calculateur Atlas".to_owned(),
            execution_mode: "investigation".to_owned(),
            status: ServiceScheduleStatus::Confirmed,
        },
        method: PreparedTestMethodSnapshot {
            template_id: "METHOD-COND-001".to_owned(),
            revision_id: "METHOD-COND-001-rev-0001".to_owned(),
            revision_number: 1,
            revision_status: TemplateRevisionStatus::Approved,
            definition_checksum: checksum('a'),
            title: "Émission conduite 150 kHz - 30 MHz".to_owned(),
            measurement_axis: MeasurementAxis::FrequencySweep,
            method_code: Some("CISPR-32-CE".to_owned()),
            method_revision: Some("2026".to_owned()),
            standard_references: vec!["CISPR 32".to_owned()],
            instrumentation_chain: vec![InstrumentationChainSlot {
                slot_id: "receiver".to_owned(),
                label: "Récepteur de mesure".to_owned(),
                required_category: Some("emi_receiver".to_owned()),
                required_capability: Some("spectrum_measurement".to_owned()),
                required: true,
                calibration_requirement: CalibrationRequirement::Required,
                substitution_policy: InstrumentSubstitutionPolicy::SameCapability,
                depends_on_slots: Vec::new(),
            }],
        },
        station_setup: PreparedStationSetupSnapshot {
            setup_id: "SETUP-COND-001".to_owned(),
            revision_id: "SETUP-COND-001-rev-0001".to_owned(),
            revision_number: 1,
            revision_status: StationSetupRevisionStatus::Ready,
            definition_checksum: checksum('b'),
            label: "Chaîne émission conduite".to_owned(),
            laboratory_location_id: Some("LAB-LOCATION-CEM-1".to_owned()),
            laboratory_location_label: "Poste CEM 1".to_owned(),
            planned_use_on: "2026-07-16".to_owned(),
            execution_mode: "investigation".to_owned(),
            assets: vec![PreparedStationAssetSnapshot {
                binding_id: "receiver-binding".to_owned(),
                role_label: "Récepteur".to_owned(),
                asset_id: "ASSET-RX-001".to_owned(),
                asset_revision: "rev-0001".to_owned(),
                inventory_code: "INV-RX-001".to_owned(),
                serial_number: "SN-RX-001".to_owned(),
                manufacturer: "Rohde & Schwarz".to_owned(),
                model_name: "ESW".to_owned(),
                equipment_model_id: "MODEL-ESW".to_owned(),
                equipment_model_revision_id: "MODEL-ESW-rev-0001".to_owned(),
                equipment_model_checksum: checksum('c'),
                category_code: "emi_receiver".to_owned(),
                capabilities: vec![PreparedEquipmentCapabilitySnapshot {
                    capability_id: "spectrum_measurement".to_owned(),
                    label: "Mesure spectrale".to_owned(),
                    capability_kind: "frequency_spectrum".to_owned(),
                }],
            }],
            corrections: Vec::new(),
        },
        assignments: vec![PlannedTestInstrumentAssignment {
            slot_id: "receiver".to_owned(),
            binding_id: "receiver-binding".to_owned(),
        }],
        station_readiness: StationSetupReadiness::from_issues("2026-07-16", Vec::new()),
    }
}

#[test]
fn compatible_method_and_station_are_ready_and_permit_start() {
    let definition = assess_planned_test_preparation(input()).unwrap();

    assert!(definition.verdict.ready);
    assert!(definition.verdict.issues.is_empty());
    assert_eq!(
        definition.effective_state(2),
        PlannedTestPreparationState::Ready
    );
    assert!(definition.permits_start(2, ServiceScheduleStatus::Confirmed));
    assert!(!definition.permits_start(2, ServiceScheduleStatus::Planned));
}

#[test]
fn missing_required_assignment_is_a_persistable_blocking_verdict() {
    let mut assessment = input();
    assessment.assignments.clear();

    let definition = assess_planned_test_preparation(assessment).unwrap();

    assert!(!definition.verdict.ready);
    assert_eq!(definition.verdict.issues.len(), 1);
    assert_eq!(
        definition.verdict.issues[0].code,
        "planned_test_required_role_unassigned"
    );
    assert_eq!(
        definition.verdict.issues[0].method_slot_ids,
        vec!["receiver"]
    );
}

#[test]
fn category_and_capability_mismatches_name_the_material_and_role() {
    let mut assessment = input();
    assessment.station_setup.assets[0].category_code = "oscilloscope".to_owned();
    assessment.station_setup.assets[0].capabilities.clear();

    let definition = assess_planned_test_preparation(assessment).unwrap();

    assert!(!definition.verdict.ready);
    assert_eq!(definition.verdict.issues.len(), 2);
    assert!(definition
        .verdict
        .issues
        .iter()
        .all(|issue| issue.asset_ids == vec!["ASSET-RX-001"]));
    assert!(definition
        .verdict
        .issues
        .iter()
        .any(|issue| issue.code == "planned_test_role_category_mismatch"));
    assert!(definition
        .verdict
        .issues
        .iter()
        .any(|issue| issue.code == "planned_test_role_capability_mismatch"));
}

#[test]
fn material_compatibility_explains_category_and_capability_mismatches() {
    let mut assessment = input();
    let mut wrong_category = assessment.station_setup.assets[0].clone();
    wrong_category.binding_id = "generator-binding".to_owned();
    wrong_category.asset_id = "ASSET-GEN-001".to_owned();
    wrong_category.inventory_code = "INV-GEN-001".to_owned();
    wrong_category.serial_number = "SN-GEN-001".to_owned();
    wrong_category.model_name = "SMW200A".to_owned();
    wrong_category.category_code = "rf_signal_generator".to_owned();
    assessment.station_setup.assets.push(wrong_category);
    let mut missing_capability = assessment.station_setup.assets[0].clone();
    missing_capability.binding_id = "receiver-without-spectrum-binding".to_owned();
    missing_capability.asset_id = "ASSET-RX-002".to_owned();
    missing_capability.inventory_code = "INV-RX-002".to_owned();
    missing_capability.serial_number = "SN-RX-002".to_owned();
    missing_capability.capabilities.clear();
    assessment.station_setup.assets.push(missing_capability);

    let compatibility = assess_planned_test_material_compatibility(
        &assessment.method,
        &assessment.station_setup,
        &assessment.station_readiness,
    );

    assert_eq!(compatibility.len(), 3);
    assert!(compatibility
        .iter()
        .any(|result| result.binding_id == "receiver-binding" && result.compatible));
    let category_rejection = compatibility
        .iter()
        .find(|result| result.binding_id == "generator-binding")
        .unwrap();
    assert!(!category_rejection.compatible);
    assert!(category_rejection
        .reason
        .as_deref()
        .unwrap()
        .contains("catégorie"));
    let capability_rejection = compatibility
        .iter()
        .find(|result| result.binding_id == "receiver-without-spectrum-binding")
        .unwrap();
    assert!(!capability_rejection.compatible);
    assert!(capability_rejection
        .reason
        .as_deref()
        .unwrap()
        .contains("capacité"));
}

#[test]
fn material_compatibility_applies_serviceability_and_calibration_policy() {
    let mut assessment = input();
    assessment.station_readiness = StationSetupReadiness::from_issues(
        "2026-07-16",
        vec![StationReadinessIssue {
            code: "calibration_expired".to_owned(),
            severity: StationReadinessSeverity::Blocking,
            dimension: StationReadinessDimension::CalibrationValidity,
            message: "L'étalonnage requis est expiré à la date prévue.".to_owned(),
            binding_ids: vec!["receiver-binding".to_owned()],
            connection_ids: Vec::new(),
        }],
    );

    let required = assess_planned_test_material_compatibility(
        &assessment.method,
        &assessment.station_setup,
        &assessment.station_readiness,
    );
    assert!(!required[0].compatible);
    assert_eq!(
        required[0].reason.as_deref(),
        Some("L'étalonnage requis est expiré à la date prévue.")
    );

    assessment.method.instrumentation_chain[0].calibration_requirement =
        CalibrationRequirement::NotRequired;
    let not_required = assess_planned_test_material_compatibility(
        &assessment.method,
        &assessment.station_setup,
        &assessment.station_readiness,
    );
    assert!(not_required[0].compatible);

    assessment.station_readiness.issues[0].dimension =
        StationReadinessDimension::Serviceability;
    assessment.station_readiness.issues[0].message = "Le matériel est hors service.".to_owned();
    let out_of_service = assess_planned_test_material_compatibility(
        &assessment.method,
        &assessment.station_setup,
        &assessment.station_readiness,
    );
    assert!(!out_of_service[0].compatible);
}

#[test]
fn optional_role_can_remain_unassigned() {
    let mut assessment = input();
    assessment.method.instrumentation_chain[0].required = false;
    assessment.assignments.clear();

    let definition = assess_planned_test_preparation(assessment).unwrap();

    assert!(definition.verdict.ready);
    assert!(definition.verdict.issues.is_empty());
}

#[test]
fn schedule_context_mismatches_are_explicit() {
    let mut assessment = input();
    assessment.station_setup.planned_use_on = "2026-07-17".to_owned();
    assessment.station_setup.execution_mode = "accredited".to_owned();
    assessment.station_setup.laboratory_location_id = Some("LAB-LOCATION-CEM-2".to_owned());
    assessment.station_setup.laboratory_location_label = "Poste CEM 1".to_owned();
    assessment.station_readiness.checked_on = "2026-07-16".to_owned();

    let definition = assess_planned_test_preparation(assessment).unwrap();
    let codes: BTreeSet<_> = definition
        .verdict
        .issues
        .iter()
        .map(|issue| issue.code.as_str())
        .collect();

    assert!(codes.contains("planned_test_station_date_mismatch"));
    assert!(codes.contains("planned_test_station_mode_mismatch"));
    assert!(codes.contains("planned_test_station_location_mismatch"));
}

#[test]
fn location_identity_ignores_label_changes_and_blocks_missing_identity() {
    let mut renamed = input();
    renamed.station_setup.laboratory_location_label = "Poste CEM renommé".to_owned();
    let renamed = assess_planned_test_preparation(renamed).unwrap();
    assert!(renamed.verdict.ready);
    assert!(!renamed
        .verdict
        .issues
        .iter()
        .any(|issue| issue.code == "planned_test_station_location_mismatch"));

    let mut missing = input();
    missing.schedule.laboratory_location_id = None;
    let missing = assess_planned_test_preparation(missing).unwrap();
    assert!(!missing.verdict.ready);
    assert!(missing
        .verdict
        .issues
        .iter()
        .any(|issue| issue.code == "planned_test_location_identity_missing"));
}

#[test]
fn station_metrology_issue_is_preserved_with_asset_context() {
    let mut assessment = input();
    assessment.station_readiness = StationSetupReadiness::from_issues(
        "2026-07-16",
        vec![StationReadinessIssue {
            code: "calibration_expired".to_owned(),
            severity: StationReadinessSeverity::Blocking,
            dimension: StationReadinessDimension::CalibrationValidity,
            message: "L'étalonnage requis est expiré à la date du montage.".to_owned(),
            binding_ids: vec!["receiver-binding".to_owned()],
            connection_ids: Vec::new(),
        }],
    );

    let definition = assess_planned_test_preparation(assessment).unwrap();

    assert!(!definition.verdict.ready);
    assert_eq!(
        definition.verdict.issues[0].dimension,
        PlannedTestPreparationDimension::CalibrationValidity
    );
    assert_eq!(definition.verdict.issues[0].asset_ids, vec!["ASSET-RX-001"]);
}

#[test]
fn moving_the_schedule_makes_a_ready_preparation_stale() {
    let definition = assess_planned_test_preparation(input()).unwrap();

    assert_eq!(
        definition.effective_state(3),
        PlannedTestPreparationState::Stale
    );
    assert!(!definition.permits_start(3, ServiceScheduleStatus::Confirmed));
}

#[test]
fn duplicate_or_unknown_assignments_are_rejected_structurally() {
    let mut duplicate = input();
    duplicate.assignments.push(duplicate.assignments[0].clone());
    assert!(assess_planned_test_preparation(duplicate)
        .unwrap_err()
        .iter()
        .any(|issue| issue.code == "duplicate_planned_test_assignment"));

    let mut unknown = input();
    unknown.assignments[0].binding_id = "outside-setup".to_owned();
    assert!(assess_planned_test_preparation(unknown)
        .unwrap_err()
        .iter()
        .any(|issue| issue.code == "planned_test_assignment_unknown_binding"));
}


fn blocking_station_issue(code: &str, dimension: StationReadinessDimension, binding: &str) -> StationReadinessIssue {
    StationReadinessIssue {
        code: code.to_owned(),
        severity: StationReadinessSeverity::Blocking,
        dimension,
        message: format!("Constat {code}."),
        binding_ids: vec![binding.to_owned()],
        connection_ids: Vec::new(),
    }
}

#[test]
fn assessed_preparation_passes_its_own_integrity_check() {
    let definition = assess_planned_test_preparation(input()).unwrap();
    assert!(definition.validate_integrity().is_empty());
    assert_eq!(definition.verdict.checked_on, "2026-07-16");
    assert_eq!(
        definition.definition_schema_version,
        "emc-locus.planned-test-preparation.v1"
    );
}

#[test]
fn integrity_flags_a_stored_ready_flag_and_date_that_disagree() {
    let mut definition = assess_planned_test_preparation(input()).unwrap();
    definition.verdict.ready = false;
    definition.verdict.checked_on = "2026-07-17".to_owned();

    let issues = definition.validate_integrity();

    assert_eq!(issues.len(), 2);
    assert_eq!(issues[0].code, "planned_test_preparation_verdict_date_mismatch");
    assert_eq!(issues[0].path, "verdict.checked_on");
    assert_eq!(issues[1].code, "planned_test_preparation_verdict_inconsistent");
    assert_eq!(issues[1].path, "verdict.ready");
}

#[test]
fn integrity_flags_a_verdict_that_omits_a_derived_role_issue() {
    let mut assessment = input();
    assessment.assignments.clear();
    let mut definition = assess_planned_test_preparation(assessment).unwrap();
    definition.verdict.issues.clear();
    definition.verdict.ready = true;

    let issues = definition.validate_integrity();

    assert_eq!(issues.len(), 1);
    assert_eq!(issues[0].code, "planned_test_preparation_static_verdict_incomplete");
    assert_eq!(issues[0].path, "verdict.issues");
}

#[test]
fn integrity_locates_unknown_references_and_empty_texts_of_a_stored_issue() {
    let mut assessment = input();
    assessment.assignments.clear();
    let mut definition = assess_planned_test_preparation(assessment).unwrap();
    definition.verdict.issues[0].message = "   ".to_owned();
    definition.verdict.issues[0].binding_ids = vec!["outside".to_owned()];
    definition.verdict.issues[0].method_slot_ids = vec!["receiver".to_owned(), "ghost".to_owned()];

    let issues = definition.validate_integrity();
    let found: Vec<(&str, &str)> = issues
        .iter()
        .map(|issue| (issue.code.as_str(), issue.path.as_str()))
        .collect();

    assert_eq!(
        found,
        vec![
            (
                "planned_test_preparation_static_verdict_incomplete",
                "verdict.issues"
            ),
            (
                "missing_planned_test_preparation_text",
                "verdict.issues[0].message"
            ),
            (
                "planned_test_preparation_issue_unknown_slot",
                "verdict.issues[0].method_slot_ids"
            ),
            (
                "planned_test_preparation_issue_unknown_binding",
                "verdict.issues[0].binding_ids"
            ),
        ]
    );
}

#[test]
fn station_issue_on_an_unknown_binding_fails_the_assessment() {
    let mut assessment = input();
    assessment.station_readiness = StationSetupReadiness::from_issues(
        "2026-07-16",
        vec![blocking_station_issue(
            "asset_missing",
            StationReadinessDimension::AssetIdentity,
            "ghost-binding",
        )],
    );

    let issues = assess_planned_test_preparation(assessment).unwrap_err();

    assert_eq!(issues.len(), 1);
    assert_eq!(issues[0].code, "planned_test_preparation_issue_unknown_binding");
    assert_eq!(issues[0].path, "verdict.issues[0].binding_ids");
}

#[test]
fn readiness_issues_are_ordered_by_severity_dimension_and_code() {
    let mut assessment = input();
    assessment.assignments.clear();
    let mut warning = blocking_station_issue(
        "calibration_due_soon",
        StationReadinessDimension::CalibrationValidity,
        "receiver-binding",
    );
    warning.severity = StationReadinessSeverity::Warning;
    assessment.station_readiness = StationSetupReadiness::from_issues(
        "2026-07-16",
        vec![
            warning,
            blocking_station_issue(
                "asset_out_of_service",
                StationReadinessDimension::Serviceability,
                "receiver-binding",
            ),
            blocking_station_issue(
                "port_mismatch",
                StationReadinessDimension::PortCompatibility,
                "receiver-binding",
            ),
        ],
    );

    let definition = assess_planned_test_preparation(assessment).unwrap();
    let codes: Vec<&str> = definition
        .verdict
        .issues
        .iter()
        .map(|issue| issue.code.as_str())
        .collect();

    assert_eq!(
        codes,
        vec![
            "port_mismatch",
            "planned_test_required_role_unassigned",
            "asset_out_of_service",
            "calibration_due_soon",
        ]
    );
    assert_eq!(
        definition.verdict.issues[0].dimension,
        PlannedTestPreparationDimension::StationSetup
    );
    assert_eq!(
        definition.verdict.issues[0].next_action,
        "Corrigez le montage dans Test Station puis créez une nouvelle vérification."
    );
    assert_eq!(definition.verdict.issues[0].asset_ids, vec!["ASSET-RX-001"]);
    assert!(!definition.verdict.ready);
}

#[test]
fn material_compatibility_is_ordered_by_role_then_binding() {
    let mut assessment = input();
    let mut second = assessment.station_setup.assets[0].clone();
    second.binding_id = "a-receiver-binding".to_owned();
    second.asset_id = "ASSET-RX-009".to_owned();
    assessment.station_setup.assets.push(second);
    let mut generator = assessment.method.instrumentation_chain[0].clone();
    generator.slot_id = "generator".to_owned();
    generator.required_category = Some("rf_signal_generator".to_owned());
    generator.required_capability = None;
    generator.substitution_policy = InstrumentSubstitutionPolicy::NoSubstitution;
    assessment.method.instrumentation_chain.push(generator);

    let compatibility = assess_planned_test_material_compatibility(
        &assessment.method,
        &assessment.station_setup,
        &assessment.station_readiness,
    );
    let pairs: Vec<(&str, &str, bool)> = compatibility
        .iter()
        .map(|result| (result.slot_id.as_str(), result.binding_id.as_str(), result.compatible))
        .collect();

    assert_eq!(
        pairs,
        vec![
            ("generator", "a-receiver-binding", false),
            ("generator", "receiver-binding", false),
            ("receiver", "a-receiver-binding", true),
            ("receiver", "receiver-binding", true),
        ]
    );
    assert_eq!(
        compatibility[1].reason.as_deref(),
        Some(
            "Le matériel INV-RX-001 / SN-RX-001 (ESW) ne respecte pas l'exigence de catégorie pour « Récepteur de mesure ». La substitution n'est pas autorisée pour ce rôle."
        )
    );
    assert_eq!(
        compatibility[1].next_action.as_deref(),
        Some("Choisissez un matériel de la catégorie attendue ou mettez à jour son modèle.")
    );
    assert_eq!(compatibility[2].reason, None);
}

#[test]
fn normal_form_ignores_collection_order_and_surrounding_spaces() {
    let mut first = assess_planned_test_preparation(input()).unwrap();
    first
        .method
        .standard_references
        .extend(["EN 55032".to_owned(), "CISPR 32".to_owned()]);
    first.station_setup.assets[0]
        .capabilities
        .push(PreparedEquipmentCapabilitySnapshot {
            capability_id: "amplitude_measurement".to_owned(),
            label: "Mesure d'amplitude".to_owned(),
            capability_kind: "scalar".to_owned(),
        });
    let mut second = first.clone();
    second.method.standard_references.reverse();
    second.station_setup.assets[0].capabilities.reverse();
    second.schedule.title = format!("  {}  ", second.schedule.title);

    let first = first.into_normal_form().unwrap();
    let second = second.into_normal_form().unwrap();

    assert_eq!(first, second);
    assert_eq!(first.method.standard_references, vec!["CISPR 32", "EN 55032"]);
    let capabilities: Vec<&str> = first.station_setup.assets[0]
        .capabilities
        .iter()
        .map(|capability| capability.capability_id.as_str())
        .collect();
    assert_eq!(capabilities, vec!["amplitude_measurement", "spectrum_measurement"]);
    assert_eq!(first.schedule.title, "Émission conduite");
}

#[test]
fn a_preparation_with_defects_has_no_normal_form() {
    let mut definition = assess_planned_test_preparation(input()).unwrap();
    definition.verdict.ready = false;
    let issues = definition.into_normal_form().unwrap_err();
    assert_eq!(issues.len(), 1);
    assert_eq!(issues[0].code, "planned_test_preparation_verdict_inconsistent");
}
