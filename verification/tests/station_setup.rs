use emc_locus::station_setup::{
    station_setup_qualification_issues, validate_station_setup_integrity,
    StationAssetBindingDefinition, StationCalibrationRequirement, StationConnectionDefinition,
    StationCorrectionKind, StationCorrectionSelectionDefinition, StationLogicalConnectionDefinition,
    StationLogicalPortEndpoint, StationMaterialAssignmentStage,
    StationMaterialRequirementDefinition, StationMaterialSelectionPolicy,
    StationMaterialSubstitutionPolicy, StationMeasurementSetupDefinition, StationPortEndpoint,
    StationReadinessDimension, StationReadinessSeverity, StationSetupValidationIssue,
    StationCapabilityRequirementDefinition, StationCategoryRequirementDefinition,
    StationLogicalPortRequirementDefinition, StationMaterialAssignmentDefinition,
    StationPhysicalPortMappingDefinition, StationRangeConstraint,
    STATION_SETUP_DEFINITION_SCHEMA_VERSION, STATION_SETUP_V2_DEFINITION_SCHEMA_VERSION,
};
use emc_locus::{PortDirectionality, SignalDomain};

fn binding(id: &str, asset: &str) -> StationAssetBindingDefinition {
    StationAssetBindingDefinition {
        binding_id: id.to_owned(),
        role_label: id.to_owned(),
        asset_id: asset.to_owned(),
        asset_revision: format!("rev-{asset}"),
        equipment_model_id: format!("model-{asset}"),
        equipment_model_revision_id: format!("model-{asset}-rev-0001"),
        equipment_model_checksum: format!("sha256:{}", "a".repeat(64)),
    }
}

fn connection(id: &str, from: (&str, &str), to: (&str, &str)) -> StationConnectionDefinition {
    StationConnectionDefinition {
        connection_id: id.to_owned(),
        label: format!("Liaison {id}"),
        from: StationPortEndpoint {
            binding_id: from.0.to_owned(),
            port_id: from.1.to_owned(),
        },
        to: StationPortEndpoint {
            binding_id: to.0.to_owned(),
            port_id: to.1.to_owned(),
        },
    }
}

fn definition() -> StationMeasurementSetupDefinition {
    StationMeasurementSetupDefinition {
        definition_schema_version: STATION_SETUP_V2_DEFINITION_SCHEMA_VERSION.to_owned(),
        setup_id: "setup-rf-001".to_owned(),
        label: "Chaîne RF réception".to_owned(),
        laboratory_location_id: Some("LAB-LOCATION-CEM-1".to_owned()),
        laboratory_location_label: "Salle CEM 1".to_owned(),
        planned_use_on: "2026-07-15".to_owned(),
        execution_mode: "accredited".to_owned(),
        asset_bindings: vec![binding("antenna", "SA-ANT-001"), binding("receiver", "SA-RX-001")],
        connections: vec![StationConnectionDefinition {
            connection_id: "link-001".to_owned(),
            label: "Antenne vers récepteur".to_owned(),
            from: StationPortEndpoint {
                binding_id: "antenna".to_owned(),
                port_id: "RF_OUT".to_owned(),
            },
            to: StationPortEndpoint {
                binding_id: "receiver".to_owned(),
                port_id: "RF_IN".to_owned(),
            },
        }],
        correction_selections: Vec::new(),
        material_requirements: Vec::new(),
        material_assignments: Vec::new(),
        logical_connections: Vec::new(),
    }
}

fn codes(issues: &[StationSetupValidationIssue]) -> Vec<&str> {
    issues.iter().map(|issue| issue.code.as_str()).collect()
}

#[test]
fn incomplete_draft_is_canonical_but_not_ready() {
    let mut definition = definition();
    definition.asset_bindings.clear();
    definition.connections.clear();

    assert!(definition.validate_integrity().is_empty());
    let issues = definition.structural_readiness_issues();
    assert!(issues
        .iter()
        .any(|issue| issue.code == "station_setup_requires_two_materials"));
    assert!(issues
        .iter()
        .any(|issue| issue.code == "station_setup_requires_connection"));
}

#[test]
fn rejects_duplicate_asset_and_destination_port() {
    let mut definition = definition();
    definition
        .asset_bindings
        .push(binding("receiver-2", "SA-RX-001"));
    definition.connections.push(StationConnectionDefinition {
        connection_id: "link-002".to_owned(),
        label: "Deuxième liaison".to_owned(),
        from: StationPortEndpoint {
            binding_id: "receiver-2".to_owned(),
            port_id: "RF_OUT".to_owned(),
        },
        to: StationPortEndpoint {
            binding_id: "receiver".to_owned(),
            port_id: "RF_IN".to_owned(),
        },
    });

    let issues = definition.validate_integrity();
    assert!(issues
        .iter()
        .any(|issue| issue.code == "duplicate_station_asset"));
    assert!(issues
        .iter()
        .any(|issue| issue.code == "station_input_connected_twice"));
}

#[test]
fn detects_signal_loop() {
    let mut definition = definition();
    definition.connections.push(StationConnectionDefinition {
        connection_id: "link-return".to_owned(),
        label: "Retour interdit".to_owned(),
        from: StationPortEndpoint {
            binding_id: "receiver".to_owned(),
            port_id: "OUT".to_owned(),
        },
        to: StationPortEndpoint {
            binding_id: "antenna".to_owned(),
            port_id: "IN".to_owned(),
        },
    });

    assert!(definition
        .structural_readiness_issues()
        .iter()
        .any(|issue| issue.code == "station_setup_cycle_detected"));
}

#[test]
fn rejects_invalid_reference_checksum() {
    let mut definition = definition();
    definition.asset_bindings[0].equipment_model_checksum = "SHA256:ABC".to_owned();
    assert!(definition
        .validate_integrity()
        .iter()
        .any(|issue| issue.code == "invalid_station_setup_checksum"));
}

#[test]
fn a_valid_connected_setup_has_no_defect_and_no_structural_finding() {
    let definition = definition();
    assert!(definition.validate_integrity().is_empty());
    assert!(definition.structural_readiness_issues().is_empty());
    assert!(station_setup_qualification_issues(&definition).is_empty());
}

#[test]
fn loop_findings_name_every_material_and_wire() {
    let mut definition = definition();
    definition.asset_bindings.push(binding("amplifier", "SA-AMP-001"));
    definition.connections.push(connection("link-002", ("receiver", "OUT"), ("amplifier", "IN")));
    definition.connections.push(connection("link-003", ("amplifier", "OUT"), ("receiver", "AUX")));
    let issues = definition.structural_readiness_issues();
    assert_eq!(issues.len(), 1);
    assert_eq!(issues[0].code, "station_setup_cycle_detected");
    assert_eq!(issues[0].severity, StationReadinessSeverity::Blocking);
    assert_eq!(issues[0].dimension, StationReadinessDimension::Structure);
    assert_eq!(issues[0].binding_ids, vec!["antenna", "receiver", "amplifier"]);
    assert_eq!(issues[0].connection_ids, vec!["link-001", "link-002", "link-003"]);
}

#[test]
fn a_loop_that_no_bound_material_leads_to_is_not_reported() {
    let mut definition = definition();
    definition.connections.push(connection("ghost-1", ("x", "OUT"), ("y", "IN")));
    definition.connections.push(connection("ghost-2", ("y", "OUT"), ("x", "IN")));
    let readiness: Vec<String> = definition
        .structural_readiness_issues()
        .into_iter()
        .map(|issue| issue.code)
        .collect();
    assert!(readiness.is_empty());
    let integrity = definition.validate_integrity();
    assert_eq!(
        codes(&integrity),
        vec![
            "station_connection_unknown_source_material",
            "station_connection_unknown_destination_material",
            "station_connection_unknown_source_material",
            "station_connection_unknown_destination_material",
        ]
    );
    assert_eq!(integrity[0].path, "connections[1].from.binding_id");
}

#[test]
fn unwired_material_is_named_by_its_role() {
    let mut definition = definition();
    definition.asset_bindings.push(binding("amplifier", "SA-AMP-001"));
    let issues = definition.structural_readiness_issues();
    assert_eq!(issues.len(), 1);
    assert_eq!(issues[0].code, "station_material_not_connected");
    assert_eq!(
        issues[0].message,
        "Le matériel « amplifier » n'est relié à aucun autre matériel."
    );
    assert_eq!(issues[0].binding_ids, vec!["amplifier"]);
}

#[test]
fn dates_must_be_real_calendar_days_from_1900() {
    for (date, valid) in [
        ("2026-07-15", true),
        ("2024-02-29", true),
        ("2026-02-29", false),
        ("1899-12-31", false),
        ("2026-13-01", false),
        ("2026-7-015", true),
        ("+1900-1-01", true),
        ("2026/07/15", false),
        ("2026-07-15-", false),
        ("2026-07-1", false),
    ] {
        let mut definition = definition();
        definition.planned_use_on = date.to_owned();
        let issues = definition.validate_integrity();
        assert_eq!(
            issues.iter().any(|issue| issue.code == "invalid_station_setup_date"),
            !valid,
            "{date}"
        );
    }
}

#[test]
fn identifiers_texts_location_and_mode_are_checked_in_order() {
    let mut definition = definition();
    definition.definition_schema_version = "other".to_owned();
    definition.setup_id = " setup ".to_owned();
    definition.label = "Chaîne ".to_owned();
    definition.execution_mode = "demo".to_owned();
    let issues = definition.validate_integrity();
    assert_eq!(
        codes(&issues),
        vec![
            "unsupported_station_setup_schema",
            "invalid_station_setup_identifier",
            "invalid_station_setup_text",
            "legacy_station_setup_location_identity_forbidden",
            "invalid_station_setup_execution_mode",
        ]
    );
    assert_eq!(issues[1].path, "setup_id");
}

#[test]
fn corrections_must_name_a_bound_material_once_per_kind() {
    let mut definition = definition();
    let selection = StationCorrectionSelectionDefinition {
        selection_id: "corr-1".to_owned(),
        binding_id: "antenna".to_owned(),
        correction_kind: StationCorrectionKind::FrequencyResponse,
        characterization_id: "char-1".to_owned(),
        characterization_checksum: format!("sha256:{}", "b".repeat(64)),
        label: "Facteur d'antenne".to_owned(),
    };
    let mut second = selection.clone();
    second.selection_id = "corr-2".to_owned();
    let mut third = selection.clone();
    third.binding_id = "preamp".to_owned();
    definition.correction_selections = vec![selection, second, third];
    let issues = definition.validate_integrity();
    let found: Vec<(&str, &str)> = issues
        .iter()
        .map(|issue| (issue.code.as_str(), issue.path.as_str()))
        .collect();
    assert_eq!(
        found,
        vec![
            ("duplicate_station_correction_kind", "correction_selections[1]"),
            ("duplicate_station_correction_selection_id", "correction_selections[2].selection_id"),
            ("station_correction_unknown_material", "correction_selections[2].binding_id"),
        ]
    );
}

fn requirement(id: &str, required: bool) -> StationMaterialRequirementDefinition {
    StationMaterialRequirementDefinition {
        requirement_id: id.to_owned(),
        role_label: format!("Rôle {id}"),
        description: String::new(),
        required,
        selection_policy: StationMaterialSelectionPolicy::CategoryPool,
        assignment_stage: StationMaterialAssignmentStage::PlannedTestPreparation,
        substitution_policy: StationMaterialSubstitutionPolicy::SameCategory,
        calibration_requirement: StationCalibrationRequirement::Required,
        category_requirement: None,
        capability_requirement: None,
        exact_asset_id: None,
        logical_ports: Vec::new(),
    }
}

#[test]
fn version_three_setups_report_unwired_and_unassigned_roles() {
    let mut definition = definition();
    definition.definition_schema_version = STATION_SETUP_DEFINITION_SCHEMA_VERSION.to_owned();
    definition.asset_bindings.clear();
    definition.connections.clear();
    definition.material_requirements = vec![requirement("antenna", true), requirement("preamp", false)];
    definition.logical_connections = vec![StationLogicalConnectionDefinition {
        connection_id: "logical-1".to_owned(),
        label: "Antenne".to_owned(),
        from: StationLogicalPortEndpoint {
            requirement_id: "antenna".to_owned(),
            logical_port_id: "rf_out".to_owned(),
        },
        to: StationLogicalPortEndpoint {
            requirement_id: "receiver".to_owned(),
            logical_port_id: "rf_in".to_owned(),
        },
    }];
    let issues = definition.structural_readiness_issues();
    let found: Vec<(&str, StationReadinessSeverity)> = issues
        .iter()
        .map(|issue| (issue.code.as_str(), issue.severity))
        .collect();
    assert_eq!(
        found,
        vec![
            ("station_required_material_unassigned", StationReadinessSeverity::Blocking),
            ("station_optional_material_unassigned", StationReadinessSeverity::Warning),
        ]
    );
    assert_eq!(
        issues[1].message,
        "Le rôle optionnel « Rôle preamp » reste sans exemplaire affecté."
    );
    assert!(station_setup_qualification_issues(&definition).is_empty());

    definition.material_requirements[1].required = true;
    let qualification = station_setup_qualification_issues(&definition);
    assert_eq!(qualification.len(), 1);
    assert_eq!(qualification[0].code, "station_required_material_role_not_connected");
    assert_eq!(qualification[0].binding_ids, vec!["preamp"]);

    let integrity = validate_station_setup_integrity(&definition);
    assert_eq!(
        paths(&integrity),
        vec![
            ("invalid_station_category_requirement", "material_requirements[0]"),
            ("invalid_station_category_requirement", "material_requirements[1]"),
            ("station_logical_connection_unknown_port", "logical_connections[0].from.logical_port_id"),
            ("station_logical_connection_unknown_requirement", "logical_connections[0].to.requirement_id"),
        ]
    );
}

fn paths(issues: &[StationSetupValidationIssue]) -> Vec<(&str, &str)> {
    issues.iter().map(|issue| (issue.code.as_str(), issue.path.as_str())).collect()
}

fn range(unit: &str, has_minimum: bool, has_maximum: bool, bounds_incoherent: bool) -> StationRangeConstraint {
    StationRangeConstraint { unit: unit.to_owned(), has_minimum, has_maximum, bounds_incoherent }
}

fn logical_port(id: &str, directionality: PortDirectionality) -> StationLogicalPortRequirementDefinition {
    StationLogicalPortRequirementDefinition {
        logical_port_id: id.to_owned(),
        label: format!("Port {id}"),
        directionality,
        signal_domain: SignalDomain::Rf,
        connector_requirement: None,
        frequency_range: None,
        voltage_range: None,
        current_range: None,
        power_range: None,
    }
}

fn capability() -> StationCapabilityRequirementDefinition {
    StationCapabilityRequirementDefinition {
        capability_kind: "receiver".to_owned(),
        model_capability_id: None,
        model_capability_equipment_model_id: None,
        frequency_range: Some(range("Hz", true, true, false)),
        voltage_range: None,
        current_range: None,
        power_range: None,
        detector_modes: Vec::new(),
        signal_domain: None,
        port_directionality: None,
        connector_requirement: None,
        impedance_invalid: false,
        communication_capability: None,
        automated_control_required: false,
        required_driver_action: None,
    }
}

fn assignment(requirement: &str, ports: &[(&str, &str)]) -> StationMaterialAssignmentDefinition {
    StationMaterialAssignmentDefinition {
        requirement_id: requirement.to_owned(),
        asset_id: format!("asset-{requirement}"),
        asset_revision: "rev-1".to_owned(),
        inventory_code: format!("INV-{requirement}"),
        serial_number: None,
        equipment_model_id: "model-1".to_owned(),
        equipment_model_revision_id: "model-1-rev-1".to_owned(),
        equipment_model_checksum: format!("sha256:{}", "b".repeat(64)),
        selected_ports: ports
            .iter()
            .map(|(logical, actual)| StationPhysicalPortMappingDefinition {
                logical_port_id: (*logical).to_owned(),
                actual_port_id: (*actual).to_owned(),
            })
            .collect(),
        assignment_context: "station".to_owned(),
        assigned_on: "2026-03-02".to_owned(),
    }
}

fn version_three_definition() -> StationMeasurementSetupDefinition {
    let mut definition = definition();
    definition.definition_schema_version = STATION_SETUP_DEFINITION_SCHEMA_VERSION.to_owned();
    definition.asset_bindings.clear();
    definition.connections.clear();
    definition.correction_selections.clear();
    let mut antenna = requirement("antenna", true);
    antenna.category_requirement = Some(StationCategoryRequirementDefinition {
        category_id: "antennas".to_owned(),
        accept_descendants: true,
    });
    antenna.logical_ports = vec![logical_port("rf_out", PortDirectionality::Output)];
    let mut receiver = requirement("receiver", true);
    receiver.selection_policy = StationMaterialSelectionPolicy::CapabilityMatch;
    receiver.capability_requirement = Some(capability());
    receiver.logical_ports = vec![logical_port("rf_in", PortDirectionality::Input)];
    definition.material_requirements = vec![antenna, receiver];
    definition.material_assignments = vec![
        assignment("antenna", &[("rf_out", "N1")]),
        assignment("receiver", &[("rf_in", "RF_IN")]),
    ];
    definition.logical_connections = vec![StationLogicalConnectionDefinition {
        connection_id: "logical-1".to_owned(),
        label: "Antenne".to_owned(),
        from: StationLogicalPortEndpoint {
            requirement_id: "antenna".to_owned(),
            logical_port_id: "rf_out".to_owned(),
        },
        to: StationLogicalPortEndpoint {
            requirement_id: "receiver".to_owned(),
            logical_port_id: "rf_in".to_owned(),
        },
    }];
    definition
}

#[test]
fn version_three_material_contract_accepts_a_coherent_station() {
    let definition = version_three_definition();
    assert!(definition.validate_integrity().is_empty());
}

#[test]
fn version_three_requirement_defects_are_reported_in_order() {
    let mut definition = version_three_definition();
    let receiver = &mut definition.material_requirements[1];
    receiver.exact_asset_id = Some("asset-1".to_owned());
    let contract = receiver.capability_requirement.as_mut().unwrap();
    contract.model_capability_id = Some("cap-1".to_owned());
    contract.frequency_range = Some(range("Hz", false, false, false));
    contract.voltage_range = Some(range(" ", true, false, false));
    contract.power_range = Some(range("dBm", true, true, true));
    contract.impedance_invalid = true;
    receiver.logical_ports.push(logical_port("rf_in", PortDirectionality::Input));
    receiver.logical_ports[1].label = String::new();
    receiver.logical_ports[1].current_range = Some(range("A", true, true, true));
    definition.material_requirements.push(requirement("antenna", false));
    let issues = definition.validate_integrity();
    assert_eq!(
        paths(&issues),
        vec![
            ("invalid_station_capability_requirement", "material_requirements[1]"),
            ("unscoped_model_capability_id", "material_requirements[1].capability_requirement.model_capability_id"),
            ("invalid_station_range_constraint", "material_requirements[1].capability_requirement.frequency_range"),
            ("invalid_station_range_constraint", "material_requirements[1].capability_requirement.voltage_range"),
            ("invalid_station_range_constraint", "material_requirements[1].capability_requirement.power_range"),
            ("invalid_station_impedance_requirement", "material_requirements[1].capability_requirement.impedance_ohm"),
            ("invalid_station_setup_text", "material_requirements[1].logical_ports[1].label"),
            ("duplicate_station_logical_port_id", "material_requirements[1].logical_ports[1].logical_port_id"),
            ("invalid_station_range_constraint", "material_requirements[1].logical_ports[1].current_range"),
            ("duplicate_station_material_requirement_id", "material_requirements[2].requirement_id"),
            ("invalid_station_category_requirement", "material_requirements[2]"),
            // The last requirement named `antenna` declares no port.
            ("station_assignment_unknown_logical_port", "material_assignments[0].selected_ports[0].logical_port_id"),
            ("station_logical_connection_unknown_port", "logical_connections[0].from.logical_port_id"),
        ]
    );
}

#[test]
fn version_three_assignment_and_wire_defects_are_reported_in_order() {
    let mut definition = version_three_definition();
    definition.material_assignments[1] = assignment("receiver", &[("rf_in", "RF_IN"), ("rf_in", "RF_IN"), ("aux", "AUX")]);
    definition.material_assignments[1].assigned_on = "2026-02-30".to_owned();
    definition.material_assignments[1].equipment_model_checksum = "sha256:ABC".to_owned();
    definition.material_assignments.push(assignment("preamp", &[]));
    definition.material_assignments.push(assignment("antenna", &[]));
    let wire = definition.logical_connections[0].clone();
    let mut loop_wire = wire.clone();
    loop_wire.to = loop_wire.from.clone();
    loop_wire.label = " Boucle".to_owned();
    definition.logical_connections.push(loop_wire);
    let issues = definition.validate_integrity();
    assert_eq!(
        paths(&issues),
        vec![
            ("invalid_station_setup_checksum", "material_assignments[1].equipment_model_checksum"),
            ("invalid_station_assignment_date", "material_assignments[1].assigned_on"),
            ("duplicate_station_logical_port_mapping", "material_assignments[1].selected_ports[1]"),
            ("duplicate_station_actual_port_mapping", "material_assignments[1].selected_ports[1]"),
            ("station_assignment_unknown_logical_port", "material_assignments[1].selected_ports[2].logical_port_id"),
            ("station_assignment_unknown_requirement", "material_assignments[2].requirement_id"),
            ("duplicate_station_material_assignment", "material_assignments[3].requirement_id"),
            ("invalid_station_setup_text", "logical_connections[1].label"),
            ("duplicate_station_logical_connection_id", "logical_connections[1].connection_id"),
            ("station_logical_connection_same_port", "logical_connections[1]"),
        ]
    );
    assert_eq!(issues[0].message, "reference checksum must use canonical lowercase sha256 form");
}

fn v3_requirement(
    id: &str,
    role: &str,
    policy: StationMaterialSelectionPolicy,
) -> StationMaterialRequirementDefinition {
    let frequency = || StationRangeConstraint {
        unit: "MHz".to_owned(),
        has_minimum: true,
        has_maximum: true,
        bounds_incoherent: false,
    };
    StationMaterialRequirementDefinition {
        requirement_id: id.to_owned(),
        role_label: role.to_owned(),
        description: String::new(),
        required: true,
        selection_policy: policy,
        assignment_stage: StationMaterialAssignmentStage::PlannedTestPreparation,
        substitution_policy: if policy == StationMaterialSelectionPolicy::ExactAsset {
            StationMaterialSubstitutionPolicy::NoSubstitution
        } else {
            StationMaterialSubstitutionPolicy::SameCapabilities
        },
        calibration_requirement: StationCalibrationRequirement::Required,
        category_requirement: if policy == StationMaterialSelectionPolicy::CategoryPool {
            Some(StationCategoryRequirementDefinition {
                category_id: "receivers".to_owned(),
                accept_descendants: true,
            })
        } else {
            None
        },
        capability_requirement: if policy == StationMaterialSelectionPolicy::CapabilityMatch {
            Some(StationCapabilityRequirementDefinition {
                capability_kind: "measure_emission".to_owned(),
                model_capability_id: None,
                model_capability_equipment_model_id: None,
                frequency_range: Some(frequency()),
                voltage_range: None,
                current_range: None,
                power_range: None,
                detector_modes: vec!["quasi_peak".to_owned()],
                signal_domain: Some(SignalDomain::Rf),
                port_directionality: Some(PortDirectionality::Input),
                connector_requirement: Some("N".to_owned()),
                impedance_invalid: false,
                communication_capability: Some("scpi".to_owned()),
                automated_control_required: true,
                required_driver_action: Some("measure_emission".to_owned()),
            })
        } else {
            None
        },
        exact_asset_id: if policy == StationMaterialSelectionPolicy::ExactAsset {
            Some("CA-001".to_owned())
        } else {
            None
        },
        logical_ports: vec![StationLogicalPortRequirementDefinition {
            logical_port_id: "rf".to_owned(),
            label: "RF".to_owned(),
            directionality: PortDirectionality::Input,
            signal_domain: SignalDomain::Rf,
            connector_requirement: Some("N".to_owned()),
            frequency_range: Some(frequency()),
            voltage_range: None,
            current_range: None,
            power_range: None,
        }],
    }
}

fn v3_definition() -> StationMeasurementSetupDefinition {
    let mut source = v3_requirement("source", "Source RF", StationMaterialSelectionPolicy::CategoryPool);
    source.logical_ports = vec![StationLogicalPortRequirementDefinition {
        logical_port_id: "rf".to_owned(),
        label: "RF".to_owned(),
        directionality: PortDirectionality::Output,
        signal_domain: SignalDomain::Rf,
        connector_requirement: Some("N".to_owned()),
        frequency_range: None,
        voltage_range: None,
        current_range: None,
        power_range: None,
    }];
    let receiver = v3_requirement(
        "receiver",
        "Récepteur EMI",
        StationMaterialSelectionPolicy::CapabilityMatch,
    );
    StationMeasurementSetupDefinition {
        definition_schema_version: STATION_SETUP_DEFINITION_SCHEMA_VERSION.to_owned(),
        setup_id: "SETUP-V3-001".to_owned(),
        label: "Chaîne RF logique".to_owned(),
        laboratory_location_id: Some("LAB-CEM".to_owned()),
        laboratory_location_label: "Labo CEM".to_owned(),
        planned_use_on: "2026-07-31".to_owned(),
        execution_mode: "accredited".to_owned(),
        asset_bindings: Vec::new(),
        connections: Vec::new(),
        correction_selections: Vec::new(),
        material_requirements: vec![source, receiver],
        material_assignments: Vec::new(),
        logical_connections: vec![StationLogicalConnectionDefinition {
            connection_id: "rf-path".to_owned(),
            label: "Source vers récepteur".to_owned(),
            from: StationLogicalPortEndpoint {
                requirement_id: "source".to_owned(),
                logical_port_id: "rf".to_owned(),
            },
            to: StationLogicalPortEndpoint {
                requirement_id: "receiver".to_owned(),
                logical_port_id: "rf".to_owned(),
            },
        }],
    }
}

#[test]
fn v3_canonicalization_is_stable_and_rejects_duplicate_requirements() {
    let first = v3_definition();
    assert!(first.validate_integrity().is_empty());
    let mut duplicated = first;
    duplicated
        .material_requirements
        .push(duplicated.material_requirements[0].clone());
    assert!(duplicated
        .validate_integrity()
        .iter()
        .any(|issue| issue.code == "duplicate_station_material_requirement_id"));
}

#[test]
fn exact_asset_requirement_is_distinct_from_assignment_and_readiness() {
    let requirement = v3_requirement(
        "receiver",
        "Cable imposed",
        StationMaterialSelectionPolicy::ExactAsset,
    );
    let mut setup = v3_definition();
    setup.material_requirements[1] = requirement;
    assert!(setup.validate_integrity().is_empty());
    assert!(setup.material_assignments.is_empty());
    assert!(station_setup_qualification_issues(&setup).is_empty());
    assert!(setup
        .structural_readiness_issues()
        .iter()
        .any(|issue| issue.code == "station_required_material_unassigned"));
}

#[test]
fn assignment_snapshots_must_reference_declared_logical_ports() {
    let mut setup = v3_definition();
    setup
        .material_assignments
        .push(StationMaterialAssignmentDefinition {
            requirement_id: "receiver".to_owned(),
            asset_id: "RX-001".to_owned(),
            asset_revision: "1".to_owned(),
            inventory_code: "RX-001".to_owned(),
            serial_number: Some("SN-1".to_owned()),
            equipment_model_id: "MODEL-RX".to_owned(),
            equipment_model_revision_id: "MODEL-RX-rev-0001".to_owned(),
            equipment_model_checksum: format!("sha256:{}", "a".repeat(64)),
            selected_ports: vec![StationPhysicalPortMappingDefinition {
                logical_port_id: "missing".to_owned(),
                actual_port_id: "rf_input".to_owned(),
            }],
            assignment_context: "setup_definition".to_owned(),
            assigned_on: "2026-07-31".to_owned(),
        });
    assert!(setup
        .validate_integrity()
        .iter()
        .any(|issue| issue.code == "station_assignment_unknown_logical_port"));
}

use emc_locus::station_materials::directionality_matches;

#[test]
fn through_and_bidirectional_ports_serve_inputs_and_outputs() {
    assert!(directionality_matches(PortDirectionality::Input, PortDirectionality::Input));
    assert!(directionality_matches(PortDirectionality::Output, PortDirectionality::Bidirectional));
    assert!(directionality_matches(PortDirectionality::Input, PortDirectionality::Through));
    assert!(directionality_matches(PortDirectionality::Output, PortDirectionality::Through));
    assert!(!directionality_matches(PortDirectionality::Input, PortDirectionality::Output));
    assert!(!directionality_matches(PortDirectionality::Bidirectional, PortDirectionality::Through));
    assert!(!directionality_matches(PortDirectionality::Through, PortDirectionality::Input));
}
