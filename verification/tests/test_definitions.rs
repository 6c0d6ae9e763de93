use emc_locus::method_successor::derive_method_v2_successor;
use emc_locus::method_workflow::{ProcedureNodeKind, QuantityDimension};
use emc_locus::test_definitions::{
    require_signal_reference, require_text, require_token, validate_controlled_json_value,
    validate_instrumentation_chain, validate_limits, validate_lock_policy, validate_post_processing,
    validate_sequence, validate_variables, BranchRule, CalibrationRequirement, ControlledJsonValue,
    ExecutionSequenceStep, ExecutionStepKind, InstrumentSubstitutionPolicy,
    InstrumentationChainSlot, LimitDefinition, LimitKind, MeasurementAxis,
    PostProcessingDefinition, PostProcessingOperationType, TestTemplateDefinition,
    TestTemplateValidationError, VariableConstraints, VariableDefaultValue, VariableDefinition,
    VariableLockPolicy, VariableLockPolicyKind, VariableValueType,
    TEST_TEMPLATE_DEFINITION_SCHEMA_VERSION,
};

fn variable_ids() -> Vec<String> {
    vec!["sample_rate_hz".to_owned()]
}

fn lock_policy() -> Vec<VariableLockPolicy> {
    vec![VariableLockPolicy {
        variable_id: "sample_rate_hz".to_owned(),
        policy: VariableLockPolicyKind::EditableUntilCampaignFreeze,
    }]
}

fn instrumentation_chain() -> Vec<InstrumentationChainSlot> {
    vec![
        InstrumentationChainSlot {
            slot_id: "current_probe".to_owned(),
            label: "Current probe".to_owned(),
            required_category: Some("current_probe".to_owned()),
            required_capability: None,
            required: true,
            calibration_requirement: CalibrationRequirement::Required,
            substitution_policy: InstrumentSubstitutionPolicy::ApprovedEquivalent,
            depends_on_slots: Vec::new(),
        },
        InstrumentationChainSlot {
            slot_id: "daq".to_owned(),
            label: "DAQ".to_owned(),
            required_category: Some("daq_chassis".to_owned()),
            required_capability: Some("time_series_capture".to_owned()),
            required: true,
            calibration_requirement: CalibrationRequirement::IfUsed,
            substitution_policy: InstrumentSubstitutionPolicy::SameCapability,
            depends_on_slots: vec!["current_probe".to_owned()],
        },
    ]
}

fn sequence() -> Vec<ExecutionSequenceStep> {
    vec![
        ExecutionSequenceStep {
            step_id: "arm".to_owned(),
            order: 10,
            kind: ExecutionStepKind::ConfigureInstrument,
            label: "Arm acquisition".to_owned(),
            instruction: Some("Arm acquisition and wait for trigger.".to_owned()),
            required_slots: vec!["daq".to_owned()],
            branches: vec![BranchRule {
                rule_id: "manual_abort".to_owned(),
                condition: "operator_abort".to_owned(),
                destination_step_id: "finish".to_owned(),
                allow_cycle: false,
            }],
        },
        ExecutionSequenceStep {
            step_id: "capture".to_owned(),
            order: 20,
            kind: ExecutionStepKind::Acquire,
            label: "Capture transient".to_owned(),
            instruction: Some("Capture the inrush event.".to_owned()),
            required_slots: vec!["current_probe".to_owned(), "daq".to_owned()],
            branches: Vec::new(),
        },
        ExecutionSequenceStep {
            step_id: "finish".to_owned(),
            order: 30,
            kind: ExecutionStepKind::Finish,
            label: "Finish".to_owned(),
            instruction: None,
            required_slots: Vec::new(),
            branches: Vec::new(),
        },
    ]
}

fn slot_ids() -> Vec<String> {
    validate_instrumentation_chain(&instrumentation_chain()).unwrap()
}

#[test]
fn fixture_parts_are_valid() {
    assert_eq!(validate_lock_policy(&lock_policy(), &variable_ids()), Ok(()));
    assert_eq!(slot_ids(), vec!["current_probe".to_owned(), "daq".to_owned()]);
    assert_eq!(validate_sequence(&sequence(), "arm", &slot_ids()), Ok(()));
}

#[test]
fn lock_policy_names_the_missing_variable() {
    let mut policies = lock_policy();
    policies[0].variable_id = "missing".to_owned();

    let error = validate_lock_policy(&policies, &variable_ids()).unwrap_err();

    assert_eq!(error.code, "unknown_lock_variable");
    assert_eq!(error.message, "lock policy references unknown variable: missing");
}

#[test]
fn duplicate_lock_policy_is_rejected() {
    let mut policies = lock_policy();
    policies.push(policies[0].clone());
    let error = validate_lock_policy(&policies, &variable_ids()).unwrap_err();
    assert_eq!(error.code, "duplicate_lock_policy");
}

#[test]
fn duplicate_slot_is_named() {
    let mut chain = instrumentation_chain();
    chain.push(chain[0].clone());

    let error = validate_instrumentation_chain(&chain).unwrap_err();

    assert_eq!(error.code, "duplicate_slot_id");
    assert_eq!(error.message, "duplicate instrumentation slot: current_probe");
}

#[test]
fn slot_requirements_and_dependencies_are_checked() {
    let mut chain = instrumentation_chain();
    chain[0].required_category = Some("  ".to_owned());
    assert_eq!(
        validate_instrumentation_chain(&chain).unwrap_err().code,
        "missing_slot_requirement"
    );

    let mut chain = instrumentation_chain();
    chain[1].depends_on_slots = vec!["ghost".to_owned()];
    assert_eq!(
        validate_instrumentation_chain(&chain).unwrap_err(),
        TestTemplateValidationError {
            code: "unknown_slot_reference",
            message: "instrumentation slot references unknown slot: ghost".to_owned(),
        }
    );

    let mut chain = instrumentation_chain();
    chain[1].depends_on_slots = vec!["daq".to_owned()];
    assert_eq!(
        validate_instrumentation_chain(&chain).unwrap_err().code,
        "self_slot_reference"
    );
}

#[test]
fn branch_destination_must_be_a_step() {
    let mut steps = sequence();
    steps[0].branches[0].destination_step_id = "missing".to_owned();

    let error = validate_sequence(&steps, "arm", &slot_ids()).unwrap_err();

    assert_eq!(error.code, "unknown_branch_destination");
}

#[test]
fn backward_branch_needs_a_declared_cycle() {
    let mut steps = sequence();
    steps[1].branches.push(BranchRule {
        rule_id: "retry".to_owned(),
        condition: "operator_retry".to_owned(),
        destination_step_id: "arm".to_owned(),
        allow_cycle: false,
    });

    let error = validate_sequence(&steps, "arm", &slot_ids()).unwrap_err();

    assert_eq!(error.code, "undeclared_sequence_cycle");
}

#[test]
fn declared_cycles_are_accepted() {
    let mut steps = sequence();
    steps[1].branches.push(BranchRule {
        rule_id: "retry".to_owned(),
        condition: "operator_retry".to_owned(),
        destination_step_id: "arm".to_owned(),
        allow_cycle: true,
    });
    assert_eq!(validate_sequence(&steps, "arm", &slot_ids()), Ok(()));
}

#[test]
fn sequence_shape_errors_come_in_order() {
    assert_eq!(
        validate_sequence(&[], "arm", &slot_ids()).unwrap_err().code,
        "missing_sequence_steps"
    );
    assert_eq!(
        validate_sequence(&sequence(), " ", &slot_ids()).unwrap_err().code,
        "empty_token"
    );
    assert_eq!(
        validate_sequence(&sequence(), "start", &slot_ids()).unwrap_err(),
        TestTemplateValidationError {
            code: "unknown_entry_step",
            message: "entry step does not exist: start".to_owned(),
        }
    );
    let mut steps = sequence();
    steps[2].order = 10;
    assert_eq!(
        validate_sequence(&steps, "arm", &slot_ids()).unwrap_err(),
        TestTemplateValidationError {
            code: "duplicate_step_order",
            message: "duplicate sequence order: 10".to_owned(),
        }
    );
    let mut steps = sequence();
    steps[1].required_slots.push("scope".to_owned());
    assert_eq!(
        validate_sequence(&steps, "arm", &slot_ids()).unwrap_err().code,
        "unknown_step_slot_reference"
    );
    let mut steps = sequence();
    let repeated = steps[0].branches[0].clone();
    steps[0].branches.push(repeated);
    assert_eq!(
        validate_sequence(&steps, "arm", &slot_ids()).unwrap_err().code,
        "duplicate_branch_rule_id"
    );
}

#[test]
fn unreachable_steps_are_named_in_text_order() {
    let mut steps = sequence();
    // Entering at the last step leaves the two earlier ones unreachable.
    steps[0].branches.clear();
    let error = validate_sequence(&steps, "finish", &slot_ids()).unwrap_err();
    assert_eq!(error.code, "unreachable_sequence_step");
    assert_eq!(error.message, "sequence step is unreachable: arm");

    // A forward branch from the entry reaches the rest in order.
    let steps = sequence();
    assert_eq!(validate_sequence(&steps, "capture", &slot_ids()).unwrap_err().message,
        "sequence step is unreachable: arm");
}

#[test]
fn tokens_texts_and_signal_references() {
    assert_eq!(require_token(" a.b:c-d_e ", "field"), Ok(()));
    assert_eq!(
        require_token("a b", "field").unwrap_err(),
        TestTemplateValidationError {
            code: "invalid_token",
            message: "field must be a stable ASCII token: a b".to_owned(),
        }
    );
    assert_eq!(require_token("", "field").unwrap_err().code, "empty_token");
    assert_eq!(require_text("\t", "title").unwrap_err().message, "title is required");
    assert_eq!(require_signal_reference("raw.current", "input"), Ok(()));
    assert_eq!(
        require_signal_reference("raw current", "input").unwrap_err().code,
        "invalid_signal_reference"
    );
    assert_eq!(require_signal_reference(" ", "input").unwrap_err().code, "empty_text");
}

fn sample_rate_variable() -> VariableDefinition {
    VariableDefinition {
        variable_id: "sample_rate_hz".to_owned(),
        label: "Sample rate".to_owned(),
        value_type: VariableValueType::Number,
        default_value: Some(VariableDefaultValue::Number),
        constraints: VariableConstraints {
            required: true,
            unit: Some("Hz".to_owned()),
            bounds_inverted: false,
            default_below_minimum: false,
            default_above_maximum: false,
            enum_values: Vec::new(),
        },
        description: Some("DAQ sample rate".to_owned()),
    }
}

fn peak_limit() -> LimitDefinition {
    LimitDefinition {
        limit_id: "peak_current".to_owned(),
        kind: LimitKind::ScalarThreshold,
        axis: MeasurementAxis::TimeSeries,
        unit: "A".to_owned(),
        application_domain: "inrush".to_owned(),
        source_reference: "method:TD-INRUSH:A".to_owned(),
        has_threshold: true,
        attention_rule: Some("warn_above_80_percent".to_owned()),
        variable_refs: vec!["sample_rate_hz".to_owned()],
    }
}

fn peak_operation() -> PostProcessingDefinition {
    PostProcessingDefinition {
        operation_id: "peak".to_owned(),
        order: 10,
        operation_type: PostProcessingOperationType::Peak,
        inputs: vec!["raw.current".to_owned()],
        outputs: vec!["calculated.peak_current".to_owned()],
        parameters: vec![("absolute".to_owned(), ControlledJsonValue::Bool(true))],
    }
}

fn fixture_definition() -> TestTemplateDefinition {
    TestTemplateDefinition {
        definition_schema_version: TEST_TEMPLATE_DEFINITION_SCHEMA_VERSION.to_owned(),
        title: "Inrush current capture".to_owned(),
        description: "Time-domain inrush capture for EMC investigations.".to_owned(),
        measurement_axis: MeasurementAxis::TimeSeries,
        method_code: Some("TD-INRUSH".to_owned()),
        method_revision: Some("A".to_owned()),
        standard_references: vec!["IEC-61000-4-30".to_owned()],
        variables: vec![sample_rate_variable()],
        lock_policy: lock_policy(),
        instrumentation_chain: instrumentation_chain(),
        entry_step_id: "arm".to_owned(),
        sequence: sequence(),
        limits: vec![peak_limit()],
        post_processing: vec![peak_operation()],
        method_parameters: Vec::new(),
    }
}

#[test]
fn fixture_definition_is_valid() {
    assert_eq!(fixture_definition().validate(), Ok(()));
}

#[test]
fn rejects_invalid_variable_default() {
    let mut definition = fixture_definition();
    definition.variables[0].default_value = Some(VariableDefaultValue::Text("fast".to_owned()));

    let error = definition.validate().unwrap_err();

    assert_eq!(error.code, "default_value_type_mismatch");
}

#[test]
fn rejects_lock_policy_for_missing_variable() {
    let mut definition = fixture_definition();
    definition.lock_policy[0].variable_id = "missing".to_owned();

    let error = definition.validate().unwrap_err();

    assert_eq!(error.code, "unknown_lock_variable");
}

#[test]
fn rejects_duplicate_instrumentation_slots() {
    let mut definition = fixture_definition();
    let first = definition.instrumentation_chain[0].clone();
    definition.instrumentation_chain.push(first);

    let error = definition.validate().unwrap_err();

    assert_eq!(error.code, "duplicate_slot_id");
}

#[test]
fn rejects_branch_to_missing_step() {
    let mut definition = fixture_definition();
    definition.sequence[0].branches[0].destination_step_id = "missing".to_owned();

    let error = definition.validate().unwrap_err();

    assert_eq!(error.code, "unknown_branch_destination");
}

#[test]
fn rejects_invalid_sequence_graph() {
    let mut definition = fixture_definition();
    definition.sequence[1].branches.push(BranchRule {
        rule_id: "retry".to_owned(),
        condition: "operator_retry".to_owned(),
        destination_step_id: "arm".to_owned(),
        allow_cycle: false,
    });

    let error = definition.validate().unwrap_err();

    assert_eq!(error.code, "undeclared_sequence_cycle");
}

#[test]
fn definition_checks_come_in_order() {
    let mut definition = fixture_definition();
    definition.definition_schema_version = "v0".to_owned();
    assert_eq!(
        definition.validate().unwrap_err(),
        TestTemplateValidationError {
            code: "unsupported_test_template_definition_schema",
            message: "unsupported definition schema version: v0".to_owned(),
        }
    );
    let mut definition = fixture_definition();
    definition.method_revision = None;
    assert_eq!(definition.validate().unwrap_err().code, "invalid_method_reference");
    let mut definition = fixture_definition();
    definition.standard_references.push(" ".to_owned());
    assert_eq!(definition.validate().unwrap_err().message, "standard_reference is required");
    let mut definition = fixture_definition();
    definition.method_parameters = vec![("bad key".to_owned(), ControlledJsonValue::Null)];
    assert_eq!(definition.validate().unwrap_err().code, "invalid_token");
}

#[test]
fn variables_check_units_bounds_enums_and_defaults() {
    assert_eq!(validate_variables(&[]).unwrap_err().code, "missing_variables");
    assert_eq!(
        validate_variables(&[sample_rate_variable()]).unwrap(),
        vec!["sample_rate_hz".to_owned()]
    );
    let mut variable = sample_rate_variable();
    variable.constraints.unit = Some(" ".to_owned());
    assert_eq!(validate_variables(&[variable]).unwrap_err().code, "missing_variable_unit");
    let mut variable = sample_rate_variable();
    variable.constraints.bounds_inverted = true;
    assert_eq!(validate_variables(&[variable]).unwrap_err().code, "invalid_numeric_bounds");
    let mut variable = sample_rate_variable();
    variable.constraints.default_below_minimum = true;
    assert_eq!(
        validate_variables(&[variable]).unwrap_err().message,
        "default value is below minimum for sample_rate_hz"
    );
    let mut variable = sample_rate_variable();
    variable.constraints.default_above_maximum = true;
    assert_eq!(validate_variables(&[variable]).unwrap_err().code, "default_above_maximum");

    let mut mode = sample_rate_variable();
    mode.variable_id = "mode".to_owned();
    mode.value_type = VariableValueType::Enum;
    mode.constraints.enum_values = vec!["fast".to_owned(), "slow".to_owned()];
    mode.default_value = Some(VariableDefaultValue::Text("slow".to_owned()));
    assert!(validate_variables(&[mode.clone()]).is_ok());
    let mut other = mode.clone();
    other.default_value = Some(VariableDefaultValue::Text("medium".to_owned()));
    assert_eq!(validate_variables(&[other]).unwrap_err().code, "enum_default_not_allowed");
    let mut other = mode.clone();
    other.constraints.enum_values.push("fast".to_owned());
    assert_eq!(validate_variables(&[other]).unwrap_err().code, "duplicate_enum_value");
    let mut other = mode.clone();
    other.constraints.enum_values.clear();
    assert_eq!(validate_variables(&[other]).unwrap_err().code, "empty_enum_values");
    assert_eq!(
        validate_variables(&[mode.clone(), mode]).unwrap_err().code,
        "duplicate_variable_id"
    );
}

#[test]
fn limits_check_texts_thresholds_and_variables() {
    let ids = variable_ids();
    assert_eq!(validate_limits(&[peak_limit()], &ids), Ok(()));
    let mut limit = peak_limit();
    limit.has_threshold = false;
    assert_eq!(
        validate_limits(&[limit], &ids).unwrap_err().message,
        "scalar limit requires threshold: peak_current"
    );
    let mut limit = peak_limit();
    limit.variable_refs.push("voltage".to_owned());
    assert_eq!(validate_limits(&[limit], &ids).unwrap_err().code, "unknown_limit_variable");
    assert_eq!(
        validate_limits(&[peak_limit(), peak_limit()], &ids).unwrap_err().code,
        "duplicate_limit_id"
    );
    let mut limit = peak_limit();
    limit.source_reference = String::new();
    assert_eq!(
        validate_limits(&[limit], &ids).unwrap_err().message,
        "limit_source_reference is required"
    );
}

#[test]
fn post_processing_checks_owners_and_order() {
    assert_eq!(validate_post_processing(&[peak_operation()]), Ok(()));
    let mut second = peak_operation();
    second.operation_id = "rms".to_owned();
    second.order = 20;
    assert_eq!(
        validate_post_processing(&[peak_operation(), second]).unwrap_err().code,
        "duplicate_post_processing_output"
    );
    let mut consumer = peak_operation();
    consumer.operation_id = "ratio".to_owned();
    consumer.order = 5;
    consumer.inputs = vec!["calculated.peak_current".to_owned()];
    consumer.outputs = vec!["calculated.ratio".to_owned()];
    assert_eq!(
        validate_post_processing(&[peak_operation(), consumer]).unwrap_err(),
        TestTemplateValidationError {
            code: "invalid_post_processing_dependency",
            message: "post-processing input is not produced by an earlier operation: calculated.peak_current"
                .to_owned(),
        }
    );
    let mut empty = peak_operation();
    empty.inputs.clear();
    assert_eq!(
        validate_post_processing(&[empty]).unwrap_err().code,
        "missing_post_processing_inputs"
    );
    let mut spaced = peak_operation();
    spaced.outputs = vec!["calculated peak".to_owned()];
    assert_eq!(
        validate_post_processing(&[spaced]).unwrap_err().code,
        "invalid_signal_reference"
    );
}

#[test]
fn parameter_values_check_keys_at_every_depth() {
    let nested = ControlledJsonValue::Array(vec![ControlledJsonValue::Object(vec![
        ("ok".to_owned(), ControlledJsonValue::Number { representable: true }),
        ("not ok".to_owned(), ControlledJsonValue::Null),
    ])]);
    assert_eq!(
        validate_controlled_json_value(&nested, "method_parameters").unwrap_err(),
        TestTemplateValidationError {
            code: "invalid_token",
            message: "method_parameters must be a stable ASCII token: not ok".to_owned(),
        }
    );
    assert_eq!(
        validate_controlled_json_value(
            &ControlledJsonValue::Number { representable: false },
            "method_parameters"
        )
        .unwrap_err()
        .message,
        "unsupported JSON number in method_parameters"
    );
    assert_eq!(
        validate_controlled_json_value(&ControlledJsonValue::Text("x".to_owned()), "f"),
        Ok(())
    );
}

#[test]
fn legacy_successor_maps_roles_without_guessing_topology() {
    let legacy = fixture_definition();
    let successor = derive_method_v2_successor(&legacy).unwrap();
    assert_eq!(successor.functional_roles.len(), 2);
    assert!(successor.measurement_system_templates.is_empty());
    assert!(successor.limits.is_empty());
    assert!(successor
        .migration_evidence
        .iter()
        .any(|evidence| evidence.contains("topology")));
    assert!(successor.validate().is_empty());
}

#[test]
fn legacy_successor_records_evidence_and_carries_variables() {
    let legacy = fixture_definition();
    let successor = derive_method_v2_successor(&legacy).unwrap();
    assert_eq!(successor.scope, "Successor workflow for TimeSeries measurements.");
    assert_eq!(successor.classification_path, vec!["TD-INRUSH".to_owned()]);
    assert_eq!(successor.variables.len(), 1);
    assert_eq!(successor.variables[0].dimension, QuantityDimension::Frequency);
    assert_eq!(successor.variables[0].unit.as_deref(), Some("Hz"));
    assert_eq!(successor.variables[0].description, "DAQ sample rate");
    assert_eq!(successor.procedure.len(), legacy.sequence.len());
    assert_eq!(successor.procedure[0].node_kind, ProcedureNodeKind::Verification);
    assert_eq!(successor.migration_evidence.len(), 4);
    assert_eq!(
        successor.migration_evidence[1],
        "1 legacy limit definition(s) retained in the immutable source revision and require classified v2 rules."
    );
    assert_eq!(
        successor.migration_evidence[2],
        "Legacy post-processing contracts (peak) require explicit signal ownership review."
    );
    assert_eq!(successor.functional_roles[0].purpose,
        format!("Besoin fonctionnel migre depuis l'emplacement {} de la definition v1.", legacy.instrumentation_chain[0].slot_id));
}

#[test]
fn legacy_successor_reports_template_defect_on_whole_definition() {
    let mut legacy = fixture_definition();
    legacy.definition_schema_version = "other".to_owned();
    let error = derive_method_v2_successor(&legacy).unwrap_err();
    assert_eq!(error.code, "unsupported_test_template_definition_schema");
    assert_eq!(error.path, "$");
    assert_eq!(error.message, "unsupported definition schema version: other");
}
