use emc_locus::method_workflow::{
    legacy_post_processing_kind, migrated_dimension, post_processing_runtime_supported,
    requires_unit, unit_dimension, valid_checksum, valid_iso_date, validate_revision_references,
    MethodWorkflowValidationIssue, PostProcessingNodeKind, QuantityDimension, RevisionReference,
    validate_limits, validate_post_processing, valid_token, AvailabilityPhase, LimitAction,
    LimitClassification, LimitComparison, MethodLimitRule, PostProcessingNode,
    ExecutionAssignmentPin, ExecutionConfigurationDefinition, EXECUTION_CONFIGURATION_SCHEMA_VERSION,
    flatten_procedure, validate_procedure, ExecutionPlanPhase, ProcedureFailurePolicy,
    validate_roles, MethodCalibrationPolicy, MethodCapabilityRequirement, MethodFunctionalRole,
    MethodSubstitutionPolicy, RoleAssignmentStage, TechnicalRangeRequirement,
    ProcedureNode, ProcedureNodeKind,
    validate_method_hierarchy, MethodHierarchyNode, MethodHierarchyNodeKind,
};

fn node(id: &str, parent: Option<&str>, position: u32) -> MethodHierarchyNode {
    MethodHierarchyNode {
        node_id: id.to_owned(),
        parent_node_id: parent.map(str::to_owned),
        node_kind: MethodHierarchyNodeKind::Procedure,
        label: format!("Nœud {id}"),
        position,
        archived: false,
    }
}

#[test]
fn hierarchy_rejects_cycles_and_accepts_stable_tree() {
    let mut nodes = vec![
        MethodHierarchyNode {
            node_id: "immunity".to_owned(),
            parent_node_id: None,
            node_kind: MethodHierarchyNodeKind::Domain,
            label: "Immunité".to_owned(),
            position: 10,
            archived: false,
        },
        MethodHierarchyNode {
            node_id: "conducted".to_owned(),
            parent_node_id: Some("immunity".to_owned()),
            node_kind: MethodHierarchyNodeKind::TestFamily,
            label: "Conduite".to_owned(),
            position: 10,
            archived: false,
        },
    ];
    assert!(validate_method_hierarchy(&nodes).is_empty());
    nodes[0].parent_node_id = Some("conducted".to_owned());
    assert!(validate_method_hierarchy(&nodes)
        .iter()
        .any(|issue| issue.code == "method_hierarchy_cycle"));
}

#[test]
fn every_node_on_a_cycle_reports_where_its_climb_comes_back() {
    let nodes = vec![
        node("a", Some("b"), 1),
        node("b", Some("a"), 2),
        node("c", Some("a"), 3),
    ];
    let messages: Vec<String> = validate_method_hierarchy(&nodes)
        .into_iter()
        .map(|issue| {
            assert_eq!(issue.code, "method_hierarchy_cycle");
            assert_eq!(issue.path, "hierarchy");
            issue.message
        })
        .collect();
    assert_eq!(
        messages,
        vec![
            "hierarchy cycle includes a",
            "hierarchy cycle includes b",
            "hierarchy cycle includes a",
        ]
    );
}

#[test]
fn a_node_that_is_its_own_parent_is_a_cycle() {
    let nodes = vec![node("loop", Some("loop"), 1)];
    let issues = validate_method_hierarchy(&nodes);
    assert_eq!(issues.len(), 1);
    assert_eq!(issues[0].message, "hierarchy cycle includes loop");
}

#[test]
fn node_checks_come_first_then_unknown_parents() {
    let mut nodes = vec![
        node("root", None, 1),
        node("bad id", Some("missing"), 2),
        node("root", None, 1),
    ];
    nodes[1].label = "  ".to_owned();
    let found: Vec<(String, String, String)> = validate_method_hierarchy(&nodes)
        .into_iter()
        .map(|issue| (issue.code, issue.path, issue.message))
        .collect();
    assert_eq!(
        found,
        vec![
            (
                "invalid_hierarchy_node_id".to_owned(),
                "hierarchy[].node_id".to_owned(),
                "hierarchy node IDs must be stable ASCII tokens".to_owned()
            ),
            (
                "missing_hierarchy_label".to_owned(),
                "hierarchy[].label".to_owned(),
                "hierarchy node label is required".to_owned()
            ),
            (
                "duplicate_hierarchy_node_id".to_owned(),
                "hierarchy".to_owned(),
                "duplicate hierarchy node: root".to_owned()
            ),
            (
                "duplicate_hierarchy_position".to_owned(),
                "hierarchy[].position".to_owned(),
                "siblings must have deterministic positions".to_owned()
            ),
            (
                "unknown_hierarchy_parent".to_owned(),
                "hierarchy[].parent_node_id".to_owned(),
                "unknown hierarchy parent: missing".to_owned()
            ),
        ]
    );
}

#[test]
fn a_token_may_hold_at_most_120_bytes() {
    let long = "x".repeat(120);
    assert!(validate_method_hierarchy(&[node(&long, None, 1)]).is_empty());
    let too_long = "x".repeat(121);
    let issues = validate_method_hierarchy(&[node(&too_long, None, 1)]);
    assert_eq!(issues.len(), 1);
    assert_eq!(issues[0].code, "invalid_hierarchy_node_id");
}

use emc_locus::method_workflow::{
    validate_measurement_system_template, CorrectionPointDefinition,
    MeasurementSystemEdge, MeasurementSystemRoleNode, MeasurementSystemTemplateDefinition,
    RegulationLoopMapping, TopologyEdgeKind, MethodLogicalPort, TopologyPortEndpoint,
};
use emc_locus::{PortDirectionality, SignalDomain};

fn port(id: &str, directionality: PortDirectionality, domain: SignalDomain) -> MethodLogicalPort {
    MethodLogicalPort {
        port_id: id.to_owned(),
        label: id.to_uppercase(),
        directionality,
        signal_domain: domain,
        connector: None,
        quantity_dimension: None,
    }
}

fn role_node(id: &str, role: Option<&str>, ports: Vec<MethodLogicalPort>) -> MeasurementSystemRoleNode {
    MeasurementSystemRoleNode {
        node_id: id.to_owned(),
        label: id.to_owned(),
        role_type: "instrument".to_owned(),
        method_role_id: role.map(str::to_owned),
        ports,
        notes: String::new(),
    }
}

fn edge(id: &str, kind: TopologyEdgeKind, from: (&str, &str), to: (&str, &str)) -> MeasurementSystemEdge {
    MeasurementSystemEdge {
        edge_id: id.to_owned(),
        label: id.to_owned(),
        edge_kind: kind,
        from: TopologyPortEndpoint {
            node_id: from.0.to_owned(),
            port_id: from.1.to_owned(),
        },
        to: TopologyPortEndpoint {
            node_id: to.0.to_owned(),
            port_id: to.1.to_owned(),
        },
    }
}

fn closed_loop_template() -> MeasurementSystemTemplateDefinition {
    MeasurementSystemTemplateDefinition {
        definition_schema_version: "emc-locus.measurement-system-template-definition.v1".to_owned(),
        template_id: "BCI-LOOP".to_owned(),
        label: "Injection BCI".to_owned(),
        classification: "immunity".to_owned(),
        nodes: vec![
            role_node(
                "generator",
                Some("signal_source"),
                vec![
                    port("rf_out", PortDirectionality::Output, SignalDomain::Rf),
                    port("level_in", PortDirectionality::Input, SignalDomain::Rf),
                ],
            ),
            role_node(
                "probe",
                None,
                vec![
                    port("rf_in", PortDirectionality::Input, SignalDomain::Rf),
                    port("monitor", PortDirectionality::Output, SignalDomain::Rf),
                ],
            ),
            role_node(
                "meter",
                Some("power_meter"),
                vec![
                    port("rf_in", PortDirectionality::Input, SignalDomain::Rf),
                    port("data", PortDirectionality::Output, SignalDomain::Rf),
                ],
            ),
        ],
        edges: vec![
            edge("drive", TopologyEdgeKind::PhysicalSignal, ("generator", "rf_out"), ("probe", "rf_in")),
            edge("measure", TopologyEdgeKind::Monitoring, ("probe", "monitor"), ("meter", "rf_in")),
            edge(
                "feedback",
                TopologyEdgeKind::FeedbackMeasurement,
                ("meter", "data"),
                ("generator", "level_in"),
            ),
        ],
        correction_points: vec![CorrectionPointDefinition {
            correction_point_id: "probe-factor".to_owned(),
            label: "Facteur de sonde".to_owned(),
            node_id: "probe".to_owned(),
            signal_variable_id: "current".to_owned(),
            correction_kind: "transducer_factor".to_owned(),
        }],
        regulation_loops: vec![RegulationLoopMapping {
            loop_id: "level".to_owned(),
            label: "Régulation du niveau".to_owned(),
            regulation_profile_id: "closed-loop-bci".to_owned(),
            actuator_node_id: "generator".to_owned(),
            feedback_node_id: "meter".to_owned(),
            monitoring_node_ids: Vec::new(),
        }],
        notes: String::new(),
    }
}

fn roles() -> Vec<String> {
    vec!["signal_source".to_owned(), "power_meter".to_owned()]
}

fn profiles() -> Vec<String> {
    vec!["closed-loop-bci".to_owned()]
}

fn codes_and_messages(template: &MeasurementSystemTemplateDefinition) -> Vec<(String, String)> {
    validate_measurement_system_template(template, &roles(), &profiles())
        .into_iter()
        .map(|issue| (issue.code, issue.message))
        .collect()
}

#[test]
fn declared_feedback_loop_is_a_valid_topology() {
    assert!(codes_and_messages(&closed_loop_template()).is_empty());
}

#[test]
fn feedback_drawn_as_an_ordinary_link_is_an_undeclared_cycle() {
    let mut template = closed_loop_template();
    template.edges[2].edge_kind = TopologyEdgeKind::ControlCommand;
    assert_eq!(
        codes_and_messages(&template),
        vec![
            (
                "undeclared_topology_cycle".to_owned(),
                "topology contains a cycle that is not modeled as a feedback measurement".to_owned()
            ),
            (
                "unreachable_regulation_feedback".to_owned(),
                "loop level has no explicit feedback path".to_owned()
            ),
        ]
    );
}

#[test]
fn endpoints_must_be_known_ports_with_compatible_direction_and_domain() {
    let mut template = closed_loop_template();
    template.nodes[1].ports[0].signal_domain = SignalDomain::AnalogVoltage;
    template.edges.push(edge(
        "reverse",
        TopologyEdgeKind::Trigger,
        ("probe", "rf_in"),
        ("meter", "rf_in"),
    ));
    template.edges.push(edge(
        "dangling",
        TopologyEdgeKind::PhysicalSignal,
        ("probe", "missing"),
        ("meter", "rf_in"),
    ));
    assert_eq!(
        codes_and_messages(&template),
        vec![
            (
                "incompatible_topology_signal_domain".to_owned(),
                "edge drive crosses incompatible signal domains".to_owned()
            ),
            (
                "incompatible_topology_direction".to_owned(),
                "edge reverse connects incompatible directions".to_owned()
            ),
            (
                "unknown_topology_endpoint".to_owned(),
                "edge dangling references an unknown node or port".to_owned()
            ),
        ]
    );
}

#[test]
fn identifiers_roles_profiles_and_corrections_are_checked() {
    let mut template = closed_loop_template();
    template.label = " ".to_owned();
    template.nodes[0].method_role_id = Some("unknown_role".to_owned());
    template.nodes[2].ports.push(port("data", PortDirectionality::Output, SignalDomain::Rf));
    template.nodes.push(role_node("probe", None, Vec::new()));
    template.edges.push(edge(
        "drive",
        TopologyEdgeKind::FeedbackMeasurement,
        ("meter", "data"),
        ("probe", "rf_in"),
    ));
    template.regulation_loops[0].regulation_profile_id = "other".to_owned();
    template.regulation_loops.push(template.regulation_loops[0].clone());
    template.regulation_loops[1].feedback_node_id = "ghost".to_owned();
    template.correction_points[0].node_id = "bad id".to_owned();
    let found = codes_and_messages(&template);
    let codes: Vec<&str> = found.iter().map(|(code, _)| code.as_str()).collect();
    assert_eq!(
        codes,
        vec![
            "missing_required_text",
            "unknown_method_role_mapping",
            "duplicate_topology_port",
            "invalid_or_duplicate_topology_node",
            "unknown_topology_endpoint",
            "unknown_topology_endpoint",
            "invalid_or_duplicate_topology_edge",
            "unknown_topology_endpoint",
            "unknown_regulation_profile",
            "duplicate_regulation_loop",
            "unknown_regulation_profile",
            "unknown_regulation_loop_node",
            "unreachable_regulation_feedback",
            "unknown_correction_point_node",
        ]
    );
    assert_eq!(found[0].1, "label is required");
    assert_eq!(found[1].1, "node generator maps unknown method role unknown_role");
    assert_eq!(found[2].1, "duplicate port data on node meter");
    assert_eq!(found[3].1, "invalid or duplicate node probe");
}

fn original_port(id: &str, directionality: PortDirectionality) -> MethodLogicalPort {
    MethodLogicalPort {
        port_id: id.to_owned(),
        label: id.to_owned(),
        directionality,
        signal_domain: SignalDomain::Rf,
        connector: Some("N".to_owned()),
        quantity_dimension: None,
    }
}

fn system(profile_id: &str) -> MeasurementSystemTemplateDefinition {
    MeasurementSystemTemplateDefinition {
        definition_schema_version: "emc-locus.measurement-system-template-definition.v1".to_owned(),
        template_id: "system_conducted_immunity".to_owned(),
        label: "Chaîne d'immunité conduite".to_owned(),
        classification: "conducted_immunity".to_owned(),
        nodes: vec![
            MeasurementSystemRoleNode {
                node_id: "generator".to_owned(),
                label: "Générateur".to_owned(),
                role_type: "generator".to_owned(),
                method_role_id: Some("generator".to_owned()),
                ports: vec![
                    original_port("output", PortDirectionality::Output),
                    original_port("feedback", PortDirectionality::Input),
                ],
                notes: String::new(),
            },
            MeasurementSystemRoleNode {
                node_id: "monitor".to_owned(),
                label: "Mesure de perturbation".to_owned(),
                role_type: "monitor".to_owned(),
                method_role_id: Some("monitor".to_owned()),
                ports: vec![
                    original_port("input", PortDirectionality::Input),
                    original_port("feedback", PortDirectionality::Output),
                ],
                notes: String::new(),
            },
        ],
        edges: vec![
            MeasurementSystemEdge {
                edge_id: "signal".to_owned(),
                label: "Signal appliqué".to_owned(),
                edge_kind: TopologyEdgeKind::PhysicalSignal,
                from: TopologyPortEndpoint {
                    node_id: "generator".to_owned(),
                    port_id: "output".to_owned(),
                },
                to: TopologyPortEndpoint {
                    node_id: "monitor".to_owned(),
                    port_id: "input".to_owned(),
                },
            },
            MeasurementSystemEdge {
                edge_id: "feedback".to_owned(),
                label: "Retour".to_owned(),
                edge_kind: TopologyEdgeKind::FeedbackMeasurement,
                from: TopologyPortEndpoint {
                    node_id: "monitor".to_owned(),
                    port_id: "feedback".to_owned(),
                },
                to: TopologyPortEndpoint {
                    node_id: "generator".to_owned(),
                    port_id: "feedback".to_owned(),
                },
            },
        ],
        correction_points: Vec::new(),
        regulation_loops: vec![RegulationLoopMapping {
            loop_id: "loop_main".to_owned(),
            label: "Boucle principale".to_owned(),
            regulation_profile_id: profile_id.to_owned(),
            actuator_node_id: "generator".to_owned(),
            feedback_node_id: "monitor".to_owned(),
            monitoring_node_ids: Vec::new(),
        }],
        notes: String::new(),
    }
}

#[test]
fn topology_accepts_declared_feedback_but_rejects_unreachable_feedback() {
    let role_ids = vec!["generator".to_owned(), "monitor".to_owned()];
    let profile_ids = vec!["closed_loop".to_owned()];
    let valid = system("closed_loop");
    assert!(valid.validate(&role_ids, &profile_ids).is_empty());
    let mut invalid = valid;
    invalid
        .edges
        .retain(|edge| edge.edge_kind != TopologyEdgeKind::FeedbackMeasurement);
    assert!(invalid
        .validate(&role_ids, &profile_ids)
        .iter()
        .any(|issue| issue.code == "unreachable_regulation_feedback"));
}

#[test]
fn units_map_to_their_dimension() {
    assert_eq!(unit_dimension(" kHz "), Some(QuantityDimension::Frequency));
    assert_eq!(unit_dimension(""), Some(QuantityDimension::Dimensionless));
    assert_eq!(unit_dimension("%"), Some(QuantityDimension::Dimensionless));
    assert_eq!(unit_dimension("dBuV/m"), Some(QuantityDimension::ElectricFieldStrength));
    assert_eq!(unit_dimension("A/m"), Some(QuantityDimension::MagneticFieldStrength));
    assert_eq!(unit_dimension("dB"), Some(QuantityDimension::Ratio));
    assert_eq!(unit_dimension("dBm"), Some(QuantityDimension::Power));
    assert_eq!(unit_dimension("ns"), Some(QuantityDimension::Time));
    assert_eq!(unit_dimension("uA"), Some(QuantityDimension::Current));
    assert_eq!(unit_dimension("furlong"), None);
    assert!(requires_unit(QuantityDimension::Voltage));
    assert!(!requires_unit(QuantityDimension::Text));
    assert!(!requires_unit(QuantityDimension::Boolean));
    assert!(!requires_unit(QuantityDimension::Dimensionless));
}

#[test]
fn migrated_variables_keep_known_units_only() {
    assert_eq!(migrated_dimension(true, Some("V")), (QuantityDimension::Dimensionless, None));
    assert_eq!(
        migrated_dimension(false, Some("mV")),
        (QuantityDimension::Voltage, Some("mV".to_owned()))
    );
    assert_eq!(migrated_dimension(false, Some("parsec")), (QuantityDimension::Dimensionless, None));
    assert_eq!(migrated_dimension(false, None), (QuantityDimension::Dimensionless, None));
}

#[test]
fn legacy_kinds_and_runtime_support() {
    use_legacy_kind_names();
    assert!(post_processing_runtime_supported(&PostProcessingNodeKind::Average));
    assert!(post_processing_runtime_supported(&PostProcessingNodeKind::ReportField));
    assert!(!post_processing_runtime_supported(&PostProcessingNodeKind::FftRequest));
    assert!(!post_processing_runtime_supported(&PostProcessingNodeKind::PeakHold));
}

fn use_legacy_kind_names() {
    use_kind(emc_locus::test_definitions::PostProcessingOperationType::HarmonicCalculation, "harmonic_calculation");
    use_kind(emc_locus::test_definitions::PostProcessingOperationType::ChannelMath, "channel_math");
    use_kind(emc_locus::test_definitions::PostProcessingOperationType::Fft, "fft");
}

fn use_kind(kind: emc_locus::test_definitions::PostProcessingOperationType, expected: &str) {
    assert_eq!(legacy_post_processing_kind(&kind), expected);
}

#[test]
fn method_dates_and_checksums() {
    assert!(valid_iso_date("2024-02-31"));
    assert!(valid_iso_date("2000-12-01"));
    assert!(!valid_iso_date("1999-12-01"));
    assert!(!valid_iso_date("2024-13-01"));
    assert!(!valid_iso_date("2024-00-10"));
    assert!(!valid_iso_date("2024-01-32"));
    assert!(!valid_iso_date("2024/01/02"));
    assert!(!valid_iso_date("2024-1-2"));
    assert!(valid_iso_date("2024-+1-+2"));
    assert!(!valid_iso_date("2024-0é-01"));
    assert!(valid_checksum(&format!("sha256:{}", "f".repeat(64))));
    assert!(!valid_checksum(&format!("sha256:{}", "F".repeat(64))));
}

#[test]
fn revision_references_are_unique_and_checksummed() {
    let good = format!("sha256:{}", "0".repeat(64));
    let references = vec![
        RevisionReference {
            identity_id: "method".to_owned(),
            revision_id: "r1".to_owned(),
            definition_checksum: good.clone(),
        },
        RevisionReference {
            identity_id: "method".to_owned(),
            revision_id: "r2".to_owned(),
            definition_checksum: "sha256:bad".to_owned(),
        },
    ];
    let mut issues = Vec::new();
    validate_revision_references(&references, "$.references", &mut issues);
    assert_eq!(
        issues,
        vec![
            MethodWorkflowValidationIssue::new(
                "duplicate_revision_reference",
                "$.references",
                "duplicate revision reference method"
            ),
            MethodWorkflowValidationIssue::new(
                "invalid_revision_checksum",
                "$.references",
                "revision references require canonical SHA-256 checksums"
            ),
        ]
    );
}

fn method_variable_ids() -> Vec<String> {
    vec!["frequency".to_owned()]
}

fn power_abort(contributes_to_verdict: bool) -> MethodLimitRule {
    MethodLimitRule {
        limit_id: "power_abort".to_owned(),
        label: "Protection puissance".to_owned(),
        classification: LimitClassification::InstrumentProtection,
        evaluated_variable_id: "frequency".to_owned(),
        comparison: LimitComparison::GreaterThan,
        phase: AvailabilityPhase::Execution,
        severity: "blocking".to_owned(),
        action: LimitAction::Abort,
        contributes_to_verdict,
        explanation: "Protection".to_owned(),
    }
}

#[test]
fn runtime_abort_is_distinct_from_final_verdict() {
    let mut issues = Vec::new();
    validate_limits(&[power_abort(true)], &method_variable_ids(), &mut issues);
    assert!(issues
        .iter()
        .any(|issue| issue.code == "runtime_limit_contributes_to_verdict"));
    let mut issues = Vec::new();
    validate_limits(&[power_abort(false)], &method_variable_ids(), &mut issues);
    assert!(issues.is_empty());
}

#[test]
fn limits_need_unique_tokens_and_known_variables() {
    let mut limit = power_abort(false);
    limit.evaluated_variable_id = "voltage".to_owned();
    let mut issues = Vec::new();
    validate_limits(&[power_abort(false), limit], &method_variable_ids(), &mut issues);
    let codes: Vec<&str> = issues.iter().map(|issue| issue.code.as_str()).collect();
    assert_eq!(codes, vec!["invalid_or_duplicate_limit", "unknown_limit_variable"]);
    assert_eq!(issues[0].message, "invalid or duplicate limit power_abort");
    assert_eq!(issues[1].message, "limit power_abort references an unknown variable");
    assert!(valid_token("power_abort"));
    assert!(!valid_token("power abort"));
}

fn step(id: &str, kind: PostProcessingNodeKind, inputs: &[&str], outputs: &[&str]) -> PostProcessingNode {
    PostProcessingNode {
        node_id: id.to_owned(),
        label: id.to_uppercase(),
        node_kind: kind,
        inputs: inputs.iter().map(|value| value.to_string()).collect(),
        outputs: outputs.iter().map(|value| value.to_string()).collect(),
        limit_reference_id: None,
    }
}

#[test]
fn post_processing_rejects_cycles_and_missing_limit() {
    let nodes = vec![
        step("a", PostProcessingNodeKind::Average, &["b_out"], &["a_out"]),
        step("b", PostProcessingNodeKind::LimitComparison, &["a_out"], &["b_out"]),
    ];
    let mut issues = Vec::new();
    validate_post_processing(&nodes, &method_variable_ids(), &[], &mut issues);
    assert!(issues
        .iter()
        .any(|issue| issue.code == "post_processing_cycle"));
    assert!(issues
        .iter()
        .any(|issue| issue.code == "missing_post_processing_limit"));
    let messages: Vec<&str> = issues.iter().map(|issue| issue.message.as_str()).collect();
    assert_eq!(
        messages,
        vec![
            "limit comparison b needs a valid limit reference",
            "post-processing cycle includes a",
            "post-processing cycle includes b",
        ]
    );
}

#[test]
fn post_processing_chains_and_owners() {
    let mut compare = step("compare", PostProcessingNodeKind::LimitComparison, &["peak"], &["verdict"]);
    compare.limit_reference_id = Some("power_abort".to_owned());
    let nodes = vec![
        step("max", PostProcessingNodeKind::MaximumSearch, &["frequency"], &["peak"]),
        compare,
        step("copy", PostProcessingNodeKind::ReportField, &["verdict", "ghost"], &["peak"]),
    ];
    let mut issues = Vec::new();
    validate_post_processing(&nodes, &method_variable_ids(), &[power_abort(false)], &mut issues);
    let codes: Vec<&str> = issues.iter().map(|issue| issue.code.as_str()).collect();
    // "peak" gets a second owner, "ghost" is unknown, and since "copy" now owns
    // "peak", "compare" and "copy" read each other.
    assert_eq!(
        codes,
        vec![
            "duplicate_post_processing_output",
            "unknown_post_processing_input",
            "post_processing_cycle",
            "post_processing_cycle",
        ]
    );
    assert_eq!(issues[0].message, "post-processing output peak has multiple owners");
    assert_eq!(issues[1].message, "copy references unknown input ghost");
    assert_eq!(issues[2].message, "post-processing cycle includes compare");
    assert_eq!(issues[3].message, "post-processing cycle includes copy");
}

fn revision(id: &str) -> RevisionReference {
    RevisionReference {
        identity_id: id.to_owned(),
        revision_id: format!("{id}-rev-0001"),
        definition_checksum: format!("sha256:{}", "a".repeat(64)),
    }
}

fn owned(values: &[&str]) -> Vec<String> {
    values.iter().map(|value| value.to_string()).collect()
}

fn validate_configuration(configuration: &ExecutionConfigurationDefinition) -> Vec<MethodWorkflowValidationIssue> {
    configuration.validate(
        &owned(&["band_150_230"]),
        &owned(&["default"]),
        &owned(&["frequency"]),
        &owned(&["generator", "monitor"]),
        "system_conducted_immunity",
    )
}

fn configuration() -> ExecutionConfigurationDefinition {
    ExecutionConfigurationDefinition {
        definition_schema_version: EXECUTION_CONFIGURATION_SCHEMA_VERSION.to_owned(),
        configuration_id: "execution_002".to_owned(),
        method_revision: revision("method"),
        measurement_system_template_revision: revision("system_conducted_immunity"),
        parameter_profile_id: "default".to_owned(),
        parameter_names: Vec::new(),
        selected_sub_range_ids: vec!["band_150_230".to_owned()],
        laboratory_location_id: "lab_1".to_owned(),
        planned_use_on: "2026-08-05".to_owned(),
        eut_context: "Prototype client".to_owned(),
        station_setup_revision: revision("station"),
        assignments: Vec::new(),
    }
}

#[test]
fn execution_configuration_pins_exact_revisions_and_rejects_unknown_ranges() {
    let mut configuration = configuration();
    assert!(validate_configuration(&configuration).is_empty());
    configuration
        .selected_sub_range_ids
        .push("missing_band".to_owned());
    assert!(validate_configuration(&configuration)
        .iter()
        .any(|issue| issue.code == "unknown_execution_sub_range"));
}

fn pin(role: &str, asset: &str) -> ExecutionAssignmentPin {
    ExecutionAssignmentPin {
        role_id: role.to_owned(),
        requirement_id: "req".to_owned(),
        asset_id: asset.to_owned(),
        asset_revision: "r1".to_owned(),
        equipment_model_revision_id: "m1".to_owned(),
        equipment_model_checksum: format!("sha256:{}", "b".repeat(64)),
    }
}

#[test]
fn execution_configuration_reports_every_finding_in_order() {
    let mut configuration = configuration();
    configuration.planned_use_on = "05/08/2026".to_owned();
    configuration.measurement_system_template_revision = revision("other_system");
    configuration.parameter_profile_id = "fast".to_owned();
    configuration.parameter_names = owned(&["frequency", "voltage"]);
    let mut bad_checksum = pin("generator", "amp_1");
    bad_checksum.equipment_model_checksum = "md5:0".to_owned();
    configuration.assignments = vec![pin("generator", "amp_1"), bad_checksum, pin("ghost", "amp_2")];
    let issues = validate_configuration(&configuration);
    let codes: Vec<&str> = issues.iter().map(|issue| issue.code.as_str()).collect();
    assert_eq!(
        codes,
        vec![
            "invalid_execution_planned_date",
            "execution_system_identity_mismatch",
            "unknown_execution_parameter_profile",
            "unknown_execution_parameter",
            "duplicate_execution_role_assignment",
            "duplicate_execution_asset_assignment",
            "invalid_execution_model_checksum",
            "unknown_execution_role_assignment",
        ]
    );
    assert_eq!(issues[3].message, "execution parameter voltage does not exist in the method");
    assert_eq!(issues[4].message, "role generator is assigned more than once");
    assert_eq!(issues[7].message, "assignment references unknown role ghost");
}

fn procedure() -> Vec<ProcedureNode> {
    vec![ProcedureNode {
        node_id: "phase_main".to_owned(),
        label: "Phase principale".to_owned(),
        purpose: "Parcourir les sous-plages".to_owned(),
        node_kind: ProcedureNodeKind::Phase,
        input_variables: Vec::new(),
        output_variables: Vec::new(),
        timeout_invalid: false,
        failure_policy: ProcedureFailurePolicy::SafeShutdown,
        maximum_iterations: None,
        children: vec![ProcedureNode {
            node_id: "frequency_loop".to_owned(),
            label: "Boucle fréquence".to_owned(),
            purpose: "Parcourir les points".to_owned(),
            node_kind: ProcedureNodeKind::Loop,
            input_variables: Vec::new(),
            output_variables: Vec::new(),
            timeout_invalid: false,
            failure_policy: ProcedureFailurePolicy::SafeShutdown,
            maximum_iterations: Some(1000),
            children: Vec::new(),
            audit_notes: String::new(),
        }],
        audit_notes: String::new(),
    }]
}

#[test]
fn procedure_rejects_unbounded_loop() {
    let mut procedure = procedure();
    let mut issues = Vec::new();
    validate_procedure(&procedure, &method_variable_ids(), &mut issues);
    assert!(issues.is_empty());
    procedure[0].children[0].maximum_iterations = None;
    validate_procedure(&procedure, &method_variable_ids(), &mut issues);
    assert!(issues
        .iter()
        .any(|issue| issue.code == "unbounded_procedure_loop"));
}

#[test]
fn procedure_nodes_are_checked_in_preorder() {
    let mut procedure = procedure();
    procedure[0].children[0].node_id = "phase_main".to_owned();
    procedure[0].children[0].input_variables = vec!["voltage".to_owned()];
    procedure[0].timeout_invalid = true;
    let mut issues = Vec::new();
    validate_procedure(&procedure, &method_variable_ids(), &mut issues);
    let codes: Vec<&str> = issues.iter().map(|issue| issue.code.as_str()).collect();
    assert_eq!(
        codes,
        vec![
            "invalid_procedure_timeout",
            "invalid_or_duplicate_procedure_node",
            "unknown_procedure_variable",
        ]
    );
    assert_eq!(issues[2].message, "procedure node phase_main references unknown variable voltage");
    let mut issues = Vec::new();
    validate_procedure(&[], &method_variable_ids(), &mut issues);
    assert_eq!(issues[0].code, "missing_procedure");
}

#[test]
fn flattened_procedure_lists_phases_with_depth() {
    let mut output = Vec::new();
    flatten_procedure(&procedure(), 0, &mut output);
    assert_eq!(
        output,
        vec![
            ExecutionPlanPhase {
                node_id: "phase_main".to_owned(),
                label: "Phase principale".to_owned(),
                node_kind: ProcedureNodeKind::Phase,
                depth: 0,
                maximum_iterations: None,
            },
            ExecutionPlanPhase {
                node_id: "frequency_loop".to_owned(),
                label: "Boucle fréquence".to_owned(),
                node_kind: ProcedureNodeKind::Loop,
                depth: 1,
                maximum_iterations: Some(1000),
            },
        ]
    );
}

fn functional_role(id: &str) -> MethodFunctionalRole {
    MethodFunctionalRole {
        role_id: id.to_owned(),
        label: format!("Rôle {id}"),
        purpose: "Mesurer".to_owned(),
        required: true,
        functional_category: "generator".to_owned(),
        capabilities: vec![MethodCapabilityRequirement {
            capability_kind: "rf_output".to_owned(),
            frequency_range: Some(TechnicalRangeRequirement {
                inverted: false,
                unit: "MHz".to_owned(),
            }),
            voltage_range: None,
            current_range: None,
            power_range: None,
            operating_modes: Vec::new(),
            required_driver_action: None,
        }],
        calibration_policy: MethodCalibrationPolicy::Required,
        substitution_policy: MethodSubstitutionPolicy::SameCategory,
        assignment_stage: RoleAssignmentStage::MethodDefinition,
        logical_ports: vec![port("rf_out", PortDirectionality::Output, SignalDomain::Rf)],
        consumes_variables: vec!["frequency".to_owned()],
        produces_variables: Vec::new(),
    }
}

#[test]
fn roles_are_checked_and_valid_identities_returned() {
    let mut issues = Vec::new();
    let ids = validate_roles(
        &[functional_role("monitor"), functional_role("generator")],
        &method_variable_ids(),
        &mut issues,
    );
    assert!(issues.is_empty());
    assert_eq!(ids, vec!["generator".to_owned(), "monitor".to_owned()]);

    let mut broken = functional_role("generator");
    broken.capabilities[0].frequency_range = Some(TechnicalRangeRequirement {
        inverted: true,
        unit: "furlong".to_owned(),
    });
    broken.logical_ports.push(port("rf_out", PortDirectionality::Input, SignalDomain::Rf));
    broken.produces_variables = vec!["power".to_owned()];
    let mut issues = Vec::new();
    let ids = validate_roles(
        &[functional_role("generator"), broken, functional_role("bad id")],
        &method_variable_ids(),
        &mut issues,
    );
    let codes: Vec<&str> = issues.iter().map(|issue| issue.code.as_str()).collect();
    assert_eq!(
        codes,
        vec![
            "invalid_or_duplicate_functional_role",
            "invalid_or_duplicate_role_port",
            "unknown_role_variable",
            "invalid_role_range",
            "unsupported_role_unit",
            "invalid_or_duplicate_functional_role",
        ]
    );
    assert_eq!(issues[1].message, "invalid or duplicate port rf_out on generator");
    assert_eq!(issues[4].message, "unsupported or indeterminate unit furlong");
    assert_eq!(ids, vec!["generator".to_owned()]);
}
