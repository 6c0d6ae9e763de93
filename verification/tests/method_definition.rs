use emc_locus::method_definition::{
    validate_test_method_v2, ModulationDefinition, SubRangeDefinition, TestMethodDefinitionV2,
};
use emc_locus::method_variables::{
    DeterministicExpression, MethodVariableDefinition, ParameterProfileDefinition,
};
use emc_locus::method_workflow::{
    AvailabilityPhase, MethodCalibrationPolicy, MethodCapabilityRequirement, MethodFunctionalRole,
    MethodLogicalPort, MethodSubstitutionPolicy, MethodVariableSemantic,
    MethodWorkflowValidationIssue, ProcedureFailurePolicy, ProcedureNode, ProcedureNodeKind,
    QuantityDimension, RegulationControlMode, RetryPolicy, RoleAssignmentStage,
    TechnicalRangeRequirement, REGULATION_PROFILE_SCHEMA_VERSION,
    TEST_METHOD_DEFINITION_SCHEMA_VERSION,
};
use emc_locus::execution_plan::compile_execution_plan;
use emc_locus::method_workflow::{
    ExecutionConfigurationDefinition, MeasurementSystemEdge, MeasurementSystemRoleNode,
    MeasurementSystemTemplateDefinition, PostProcessingNode, PostProcessingNodeKind,
    RegulationLoopMapping, RevisionReference, TopologyEdgeKind, TopologyPortEndpoint,
    EXECUTION_CONFIGURATION_SCHEMA_VERSION,
};
use emc_locus::regulation_profile::{RegulationProfileDefinition, RegulationStep};
use emc_locus::test_definitions::{VariableDefaultValue, VariableValueType};
use emc_locus::{PortDirectionality, SignalDomain};

fn variable(id: &str, semantic: MethodVariableSemantic, unit: &str) -> MethodVariableDefinition {
    MethodVariableDefinition {
        variable_id: id.to_owned(),
        label: id.replace('_', " "),
        description: format!("Variable {id}"),
        semantic,
        value_type: VariableValueType::Number,
        dimension: if unit == "dB" { QuantityDimension::Ratio } else { QuantityDimension::Frequency },
        unit: Some(unit.to_owned()),
        default_value: Some(VariableDefaultValue::Number),
        range_inverted: false,
        enum_values: Vec::new(),
        required: true,
        source: "laboratory_method".to_owned(),
        availability_phase: AvailabilityPhase::Preparation,
        expression: None,
        consumers: Vec::new(),
    }
}

fn port(id: &str, directionality: PortDirectionality) -> MethodLogicalPort {
    MethodLogicalPort {
        port_id: id.to_owned(),
        label: id.to_uppercase(),
        directionality,
        signal_domain: SignalDomain::Rf,
        connector: None,
        quantity_dimension: None,
    }
}

fn role(id: &str) -> MethodFunctionalRole {
    MethodFunctionalRole {
        role_id: id.to_owned(),
        label: id.replace('_', " "),
        purpose: format!("Fonction {id}"),
        required: true,
        functional_category: "rf_chain".to_owned(),
        capabilities: vec![MethodCapabilityRequirement {
            capability_kind: "controlled_rf_output".to_owned(),
            frequency_range: Some(TechnicalRangeRequirement { inverted: false, unit: "MHz".to_owned() }),
            voltage_range: None,
            current_range: None,
            power_range: None,
            operating_modes: vec!["cw".to_owned()],
            required_driver_action: Some("set_frequency".to_owned()),
        }],
        calibration_policy: MethodCalibrationPolicy::IfUsed,
        substitution_policy: MethodSubstitutionPolicy::SameCapabilities,
        assignment_stage: RoleAssignmentStage::PlannedTestPreparation,
        logical_ports: vec![port("input", PortDirectionality::Input), port("output", PortDirectionality::Output)],
        consumes_variables: Vec::new(),
        produces_variables: Vec::new(),
    }
}

fn procedure() -> Vec<ProcedureNode> {
    vec![ProcedureNode {
        node_id: "phase_main".to_owned(),
        label: "Phase principale".to_owned(),
        purpose: "Parcourir les sous-plages".to_owned(),
        node_kind: ProcedureNodeKind::Phase,
        input_variables: Vec::new(),
        output_variables: Vec::new(),
        timeout_invalid: false,
        failure_policy: ProcedureFailurePolicy::SafeShutdown,
        maximum_iterations: None,
        children: vec![ProcedureNode {
            node_id: "frequency_loop".to_owned(),
            label: "Boucle fréquence".to_owned(),
            purpose: "Parcourir les points".to_owned(),
            node_kind: ProcedureNodeKind::Loop,
            input_variables: Vec::new(),
            output_variables: Vec::new(),
            timeout_invalid: false,
            failure_policy: ProcedureFailurePolicy::SafeShutdown,
            maximum_iterations: Some(1000),
            children: Vec::new(),
            audit_notes: String::new(),
        }],
        audit_notes: String::new(),
    }]
}

fn method() -> TestMethodDefinitionV2 {
    TestMethodDefinitionV2 {
        definition_schema_version: TEST_METHOD_DEFINITION_SCHEMA_VERSION.to_owned(),
        title: "Immunité conduite démonstrative".to_owned(),
        objective: "Définir une procédure de laboratoire sans revendiquer une norme.".to_owned(),
        scope: "Préparation et compilation à blanc.".to_owned(),
        classification_path: vec!["Immunité".to_owned(), "Immunité conduite".to_owned()],
        standard_references: Vec::new(),
        variables: vec![variable("frequency", MethodVariableSemantic::MethodParameter, "MHz")],
        lock_policy: Vec::new(),
        parameter_profiles: vec![ParameterProfileDefinition {
            profile_id: "default".to_owned(),
            label: "Profil nominal".to_owned(),
            values: Vec::new(),
        }],
        functional_roles: vec![role("generator"), role("monitor")],
        measurement_system_templates: Vec::new(),
        regulation_profiles: Vec::new(),
        modulation_profiles: vec![ModulationDefinition::NoModulation {
            profile_id: "none".to_owned(),
            label: "Sans modulation".to_owned(),
        }],
        sub_ranges: vec![SubRangeDefinition {
            sub_range_id: "band_150_230".to_owned(),
            label: "150 à 230 MHz".to_owned(),
            sweep_mode: "stepped".to_owned(),
            system_template_profile_id: None,
            regulation_profile_id: None,
            modulation_profile_id: Some("none".to_owned()),
            eut_state: Some("nominal".to_owned()),
            orientation: None,
            polarization: None,
            comments: String::new(),
            preview_issue: None,
        }],
        procedure: procedure(),
        limits: Vec::new(),
        post_processing: Vec::new(),
        expected_output_variables: Vec::new(),
        migration_evidence: Vec::new(),
    }
}

fn step(unit: &str) -> RegulationStep {
    RegulationStep { unit: unit.to_owned(), not_positive_finite: false }
}

fn regulation() -> RegulationProfileDefinition {
    RegulationProfileDefinition {
        definition_schema_version: REGULATION_PROFILE_SCHEMA_VERSION.to_owned(),
        profile_id: "closed_loop".to_owned(),
        label: "Régulation fermée".to_owned(),
        regulated_quantity: "Niveau injecté".to_owned(),
        regulated_unit: "dB".to_owned(),
        target_expression: DeterministicExpression::Literal { value_is_zero: false, unit: "dB".to_owned() },
        control_mode: RegulationControlMode::ClosedLoop,
        actuator_role_id: Some("generator".to_owned()),
        required_driver_action: Some("set_level".to_owned()),
        feedback_role_id: Some("monitor".to_owned()),
        feedback_signal_variable_id: None,
        monitoring_role_ids: Vec::new(),
        calibration_reference_profile: None,
        fast_increasing_step: step("dB"),
        slow_increasing_step: step("dB"),
        decreasing_step: step("dB"),
        dwell_t1_invalid: false,
        dwell_t2_invalid: false,
        dwell_t3_invalid: false,
        regulation_start_criterion: "start_below_target".to_owned(),
        regulation_end_criterion: "inside_tolerance".to_owned(),
        retry_policy: RetryPolicy { maximum_attempts: 3, on_exhaustion: "abort".to_owned() },
        abort_policy: "safe_state".to_owned(),
        safe_state_policy: "rf_off".to_owned(),
        operator_notes: String::new(),
    }
}

fn codes(issues: &[MethodWorkflowValidationIssue]) -> Vec<&str> {
    issues.iter().map(|issue| issue.code.as_str()).collect()
}

#[test]
fn demonstration_method_is_valid() {
    assert!(method().validate().is_empty());
    assert!(validate_test_method_v2(&method()).is_empty());
}

#[test]
fn variables_reject_dependency_cycles_and_unsafe_division() {
    let mut method = method();
    let mut left = variable("left", MethodVariableSemantic::DerivedValue, "MHz");
    left.expression = Some(DeterministicExpression::Variable { variable_id: "right".to_owned() });
    let mut right = variable("right", MethodVariableSemantic::DerivedValue, "MHz");
    right.expression = Some(DeterministicExpression::Divide {
        numerator: Box::new(DeterministicExpression::Variable { variable_id: "left".to_owned() }),
        denominator: Box::new(DeterministicExpression::Literal { value_is_zero: true, unit: "1".to_owned() }),
    });
    method.variables.extend([left, right]);
    let issues = method.validate();
    assert!(issues.iter().any(|issue| issue.code == "variable_dependency_cycle"));
    assert!(issues.iter().any(|issue| issue.code == "unsafe_division_by_zero"));
}

#[test]
fn method_checks_follow_declaration_order() {
    let mut method = method();
    method.title = " ".to_owned();
    method.classification_path.clear();
    method.modulation_profiles.push(ModulationDefinition::Am {
        profile_id: "none".to_owned(),
        label: "AM".to_owned(),
        depth_out_of_range: true,
    });
    method.expected_output_variables.push("unknown".to_owned());
    method.functional_roles.clear();
    let issues = method.validate();
    assert_eq!(
        codes(&issues),
        vec![
            "missing_required_text",
            "missing_method_classification",
            "invalid_or_duplicate_modulation_profile",
            "invalid_am_depth",
            "unknown_expected_output",
            "missing_functional_roles",
        ]
    );
    assert_eq!(issues[2].message, "invalid or duplicate modulation profile none");
    assert_eq!(issues[4].message, "expected output references unknown variable unknown");
}

#[test]
fn sub_range_preview_finding_is_reported_in_place() {
    let mut method = method();
    method.sub_ranges[0].preview_issue = Some(MethodWorkflowValidationIssue {
        code: "sub_range_too_many_points".to_owned(),
        path: "sub_ranges.band_150_230".to_owned(),
        message: "too many points".to_owned(),
    });
    let issues = method.validate();
    assert_eq!(codes(&issues), vec!["sub_range_too_many_points"]);
    assert_eq!(issues[0].path, "sub_ranges.band_150_230");
}

#[test]
fn closed_loop_requires_feedback_and_driver_action() {
    let method = method();
    let mut profile = regulation();
    profile.feedback_role_id = None;
    profile.required_driver_action = None;
    let issues = profile.validate(&method.variables, &method.functional_roles);
    assert!(issues.iter().any(|issue| issue.code == "missing_regulation_feedback"));
    assert!(issues.iter().any(|issue| issue.code == "missing_regulation_driver_action"));
}

#[test]
fn regulation_profile_findings_come_in_order() {
    let method = method();
    let mut profile = regulation();
    profile.feedback_signal_variable_id = Some("frequency".to_owned());
    assert!(profile.validate(&method.variables, &method.functional_roles).is_empty());
    profile.definition_schema_version = "v0".to_owned();
    profile.regulated_unit = "furlong".to_owned();
    profile.target_expression = DeterministicExpression::Variable { variable_id: "missing".to_owned() };
    profile.actuator_role_id = Some(String::new());
    profile.monitoring_role_ids = vec!["probe".to_owned()];
    profile.feedback_signal_variable_id = Some("level".to_owned());
    profile.decreasing_step.not_positive_finite = true;
    profile.dwell_t3_invalid = true;
    profile.retry_policy.maximum_attempts = 101;
    let issues = profile.validate(&method.variables, &method.functional_roles);
    assert_eq!(
        codes(&issues),
        vec![
            "unsupported_regulation_profile_schema",
            "unsupported_regulated_unit",
            "invalid_regulation_target_expression",
            "missing_regulation_actuator",
            "unknown_regulation_role",
            "unknown_regulation_role",
            "unknown_feedback_variable",
            "invalid_regulation_step",
            "invalid_regulation_step",
            "unbounded_regulation_retry",
        ]
    );
    assert_eq!(issues[4].message, "regulation profile references unknown role ");
    assert_eq!(issues[5].message, "regulation profile references unknown role probe");
    assert_eq!(issues[6].message, "unknown feedback variable level");
    assert_eq!(issues[7].path, "decreasing_step");
    assert_eq!(issues[8].path, "dwell_t3_seconds");
}

fn original_port(id: &str, directionality: PortDirectionality) -> MethodLogicalPort {
    MethodLogicalPort {
        port_id: id.to_owned(),
        label: id.to_owned(),
        directionality,
        signal_domain: SignalDomain::Rf,
        connector: Some("N".to_owned()),
        quantity_dimension: None,
    }
}

fn system(profile_id: &str) -> MeasurementSystemTemplateDefinition {
    MeasurementSystemTemplateDefinition {
        definition_schema_version: "emc-locus.measurement-system-template-definition.v1".to_owned(),
        template_id: "system_conducted_immunity".to_owned(),
        label: "Chaîne d'immunité conduite".to_owned(),
        classification: "conducted_immunity".to_owned(),
        nodes: vec![
            MeasurementSystemRoleNode {
                node_id: "generator".to_owned(),
                label: "Générateur".to_owned(),
                role_type: "generator".to_owned(),
                method_role_id: Some("generator".to_owned()),
                ports: vec![
                    original_port("output", PortDirectionality::Output),
                    original_port("feedback", PortDirectionality::Input),
                ],
                notes: String::new(),
            },
            MeasurementSystemRoleNode {
                node_id: "monitor".to_owned(),
                label: "Mesure de perturbation".to_owned(),
                role_type: "monitor".to_owned(),
                method_role_id: Some("monitor".to_owned()),
                ports: vec![
                    original_port("input", PortDirectionality::Input),
                    original_port("feedback", PortDirectionality::Output),
                ],
                notes: String::new(),
            },
        ],
        edges: vec![
            MeasurementSystemEdge {
                edge_id: "signal".to_owned(),
                label: "Signal appliqué".to_owned(),
                edge_kind: TopologyEdgeKind::PhysicalSignal,
                from: TopologyPortEndpoint {
                    node_id: "generator".to_owned(),
                    port_id: "output".to_owned(),
                },
                to: TopologyPortEndpoint {
                    node_id: "monitor".to_owned(),
                    port_id: "input".to_owned(),
                },
            },
            MeasurementSystemEdge {
                edge_id: "feedback".to_owned(),
                label: "Retour".to_owned(),
                edge_kind: TopologyEdgeKind::FeedbackMeasurement,
                from: TopologyPortEndpoint {
                    node_id: "monitor".to_owned(),
                    port_id: "feedback".to_owned(),
                },
                to: TopologyPortEndpoint {
                    node_id: "generator".to_owned(),
                    port_id: "feedback".to_owned(),
                },
            },
        ],
        correction_points: Vec::new(),
        regulation_loops: vec![RegulationLoopMapping {
            loop_id: "loop_main".to_owned(),
            label: "Boucle principale".to_owned(),
            regulation_profile_id: profile_id.to_owned(),
            actuator_node_id: "generator".to_owned(),
            feedback_node_id: "monitor".to_owned(),
            monitoring_node_ids: Vec::new(),
        }],
        notes: String::new(),
    }
}


fn reference(id: &str) -> RevisionReference {
    RevisionReference {
        identity_id: id.to_owned(),
        revision_id: format!("{id}-rev-0001"),
        definition_checksum: format!("sha256:{}", "a".repeat(64)),
    }
}

fn fft_node() -> PostProcessingNode {
    PostProcessingNode {
        node_id: "fft".to_owned(),
        label: "FFT".to_owned(),
        node_kind: PostProcessingNodeKind::FftRequest,
        inputs: vec!["frequency".to_owned()],
        outputs: vec!["spectrum".to_owned()],
        limit_reference_id: None,
    }
}

fn execution_configuration() -> ExecutionConfigurationDefinition {
    ExecutionConfigurationDefinition {
        definition_schema_version: EXECUTION_CONFIGURATION_SCHEMA_VERSION.to_owned(),
        configuration_id: "execution_001".to_owned(),
        method_revision: reference("method"),
        measurement_system_template_revision: reference("system"),
        parameter_profile_id: "default".to_owned(),
        parameter_names: Vec::new(),
        selected_sub_range_ids: vec!["band_150_230".to_owned()],
        laboratory_location_id: "lab_1".to_owned(),
        planned_use_on: "2026-08-05".to_owned(),
        eut_context: "Prototype client".to_owned(),
        station_setup_revision: reference("station"),
        assignments: Vec::new(),
    }
}

#[test]
fn execution_preview_explains_unresolved_roles_and_unsupported_runtime() {
    let mut method = method();
    method.post_processing.push(fft_node());
    let profile = regulation();
    let system = system(&profile.profile_id);
    let configuration = execution_configuration();
    let preview = compile_execution_plan(&method, &system, &[profile], Some(&configuration));
    assert_eq!(preview.unresolved_roles.len(), 2);
    assert_eq!(preview.unsupported_runtime_operations, vec!["FFT"]);
    assert!(preview.blockers.iter().any(|issue| issue.code == "unresolved_execution_role"));
}

#[test]
fn execution_preview_lists_phases_roles_and_blockers_in_order() {
    let mut method = method();
    method.post_processing.push(fft_node());
    let profile = regulation();
    let system = system(&profile.profile_id);
    let preview = compile_execution_plan(&method, &system, &[profile], None);
    assert_eq!(preview.method_title, method.title);
    assert_eq!(preview.system_template_label, "Chaîne d'immunité conduite");
    assert_eq!(preview.ordered_phases.len(), 2);
    assert_eq!(preview.ordered_phases[1].node_id, "frequency_loop");
    assert_eq!(preview.ordered_phases[1].depth, 1);
    assert_eq!(preview.required_roles, vec!["generator", "monitor"]);
    assert!(preview.unresolved_roles.len() == 2);
    assert_eq!(preview.regulation_loops, vec!["Boucle principale"]);
    assert!(preview.expected_signals.is_empty());
    assert_eq!(preview.post_processing_requests, vec!["FFT"]);
    assert!(preview.blockers.iter().all(|notice| notice.code != "unresolved_execution_role"));
    let last = preview.blockers.last().unwrap();
    assert_eq!(last.code, "missing_regulation_feedback_signal");
    assert_eq!(last.next_action, "Corriger le profil de régulation.");
    assert_eq!(preview.warnings.len(), 1);
    assert_eq!(
        preview.warnings[0].message,
        "FFT : définition disponible, exécution prévue dans une version ultérieure."
    );
}
