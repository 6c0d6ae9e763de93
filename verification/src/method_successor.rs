//! The version 2 successor of a version 1 test template: a method whose variables, roles
//! and steps are carried over one for one, with the evidence of what remains to review.

use crate::method_definition::{test_method_issues, TestMethodDefinitionV2};
use crate::method_variables::MethodVariableDefinition;
use crate::method_workflow::{
    legacy_kind_name, legacy_post_processing_kind, migrated_dimension, unit_dimension_of, AvailabilityPhase, MethodCalibrationPolicy,
    MethodCapabilityRequirement, MethodFunctionalRole, MethodSubstitutionPolicy,
    MethodVariableSemantic, MethodWorkflowValidationIssue, ProcedureFailurePolicy, ProcedureNode,
    ProcedureNodeKind, QuantityDimension, RoleAssignmentStage, WorkflowIssueView,
    TEST_METHOD_DEFINITION_SCHEMA_VERSION,
};
use crate::sorting::{sort_distinct, sorted_distinct, views};
use crate::test_definitions::{
    definition_error, validate_definition, CalibrationRequirement, ExecutionSequenceStep,
    ExecutionStepKind, InstrumentSubstitutionPolicy, InstrumentationChainSlot, MeasurementAxis,
    PostProcessingDefinition, PostProcessingOperationType, TemplateErrorView, TestTemplateDefinition,
    VariableDefaultValue, VariableDefinition, VariableLockPolicy,
};
use crate::text::{concat, decimal_text, optional_view, push_decimal, push_str};
use vstd::prelude::*;

verus! {

/// The text or, where there is none, the fallback.
pub open spec fn text_or(value: Option<String>, fallback: Seq<char>) -> Seq<char> {
    match value {
        Some(t) => t@,
        None => fallback,
    }
}

/// The name of a measurement axis, as its variant is written.
pub open spec fn axis_name(axis: MeasurementAxis) -> Seq<char> {
    match axis {
        MeasurementAxis::FrequencySweep => "FrequencySweep"@,
        MeasurementAxis::TimeSeries => "TimeSeries"@,
        MeasurementAxis::EventTriggered => "EventTriggered"@,
        MeasurementAxis::MixedTimeFrequency => "MixedTimeFrequency"@,
    }
}

/// The dimension and unit a variable keeps: those of a unit of the registry, else a
/// dimensionless variable without unit.
pub open spec fn migrated_unit_dimension(unit: Option<String>) -> (QuantityDimension, Option<Seq<char>>) {
    match unit {
        Some(u) => match unit_dimension_of(u@) {
            Some(d) => (d, Some(u@)),
            None => (QuantityDimension::Dimensionless, None),
        },
        None => (QuantityDimension::Dimensionless, None),
    }
}

/// `m` is the method parameter that variable `v` becomes.
pub open spec fn migrated_variable(v: VariableDefinition, m: MethodVariableDefinition) -> bool {
    &&& m.variable_id == v.variable_id
    &&& m.label == v.label
    &&& m.description@ == text_or(v.description, "Parametre migre depuis la definition v1."@)
    &&& m.semantic == MethodVariableSemantic::MethodParameter
    &&& m.value_type == v.value_type
    &&& m.dimension == migrated_unit_dimension(v.constraints.unit).0
    &&& optional_view(m.unit) == migrated_unit_dimension(v.constraints.unit).1
    &&& m.default_value == v.default_value
    &&& m.range_inverted == v.constraints.bounds_inverted
    &&& m.enum_values@ == v.constraints.enum_values@
    &&& m.required == v.constraints.required
    &&& m.source@ == "legacy_method_v1"@
    &&& m.availability_phase == AvailabilityPhase::Definition
    &&& m.expression is None
    &&& m.consumers@.len() == 0
}

pub open spec fn calibration_policy_of(c: CalibrationRequirement) -> MethodCalibrationPolicy {
    match c {
        CalibrationRequirement::Required => MethodCalibrationPolicy::Required,
        CalibrationRequirement::IfUsed => MethodCalibrationPolicy::IfUsed,
        CalibrationRequirement::NotRequired => MethodCalibrationPolicy::NotRequired,
    }
}

pub open spec fn substitution_policy_of(p: InstrumentSubstitutionPolicy) -> MethodSubstitutionPolicy {
    match p {
        InstrumentSubstitutionPolicy::NoSubstitution => MethodSubstitutionPolicy::NoSubstitution,
        InstrumentSubstitutionPolicy::SameCategory => MethodSubstitutionPolicy::SameCategory,
        InstrumentSubstitutionPolicy::SameCapability => MethodSubstitutionPolicy::SameCapabilities,
        InstrumentSubstitutionPolicy::ApprovedEquivalent => MethodSubstitutionPolicy::ApprovedEquivalent,
    }
}

/// `r` is the functional role that slot `s` becomes: one capability, of the slot's
/// capability or of category membership, with no range, mode or driver action.
pub open spec fn migrated_role(s: InstrumentationChainSlot, r: MethodFunctionalRole) -> bool {
    &&& r.role_id == s.slot_id
    &&& r.label == s.label
    &&& r.purpose@ == "Besoin fonctionnel migre depuis l'emplacement "@ + s.slot_id@
        + " de la definition v1."@
    &&& r.required == s.required
    &&& r.functional_category@ == text_or(s.required_category, "review_required"@)
    &&& r.capabilities@.len() == 1
    &&& r.capabilities@[0].capability_kind@ == text_or(
        s.required_capability,
        "legacy_category_membership"@,
    )
    &&& r.capabilities@[0].frequency_range is None
    &&& r.capabilities@[0].voltage_range is None
    &&& r.capabilities@[0].current_range is None
    &&& r.capabilities@[0].power_range is None
    &&& r.capabilities@[0].operating_modes@.len() == 0
    &&& r.capabilities@[0].required_driver_action is None
    &&& r.calibration_policy == calibration_policy_of(s.calibration_requirement)
    &&& r.substitution_policy == substitution_policy_of(s.substitution_policy)
    &&& r.assignment_stage == RoleAssignmentStage::PlannedTestPreparation
    &&& r.logical_ports@.len() == 0
    &&& r.consumes_variables@.len() == 0
    &&& r.produces_variables@.len() == 0
}

pub open spec fn node_kind_of(k: ExecutionStepKind) -> ProcedureNodeKind {
    match k {
        ExecutionStepKind::Prepare => ProcedureNodeKind::Preparation,
        ExecutionStepKind::ConfigureInstrument => ProcedureNodeKind::Verification,
        ExecutionStepKind::Acquire => ProcedureNodeKind::Acquire,
        ExecutionStepKind::OperatorDecision => ProcedureNodeKind::OperatorAction,
        ExecutionStepKind::PostProcess => ProcedureNodeKind::Phase,
        ExecutionStepKind::Verify => ProcedureNodeKind::Verification,
        ExecutionStepKind::Finish => ProcedureNodeKind::Finalize,
    }
}

/// The audit note of a step: the number of its branches left to review, if any.
pub open spec fn branch_note(branches: nat) -> Seq<char> {
    if branches == 0 {
        ""@
    } else {
        decimal_text(branches) + " branche(s) legacy a revoir dans le workflow hierarchique."@
    }
}

/// `n` is the procedure node that step `s` becomes: a top-level node that stops on
/// failure, with no variables, timeout, iteration bound or children.
pub open spec fn migrated_node(s: ExecutionSequenceStep, n: ProcedureNode) -> bool {
    &&& n.node_id == s.step_id
    &&& n.label == s.label
    &&& n.purpose@ == text_or(s.instruction, "Etape migree depuis la definition v1."@)
    &&& n.node_kind == node_kind_of(s.kind)
    &&& n.input_variables@.len() == 0
    &&& n.output_variables@.len() == 0
    &&& !n.timeout_invalid
    &&& n.failure_policy == ProcedureFailurePolicy::Stop
    &&& n.maximum_iterations is None
    &&& n.children@.len() == 0
    &&& n.audit_notes@ == branch_note(s.branches@.len())
}

/// The names of the kinds of the first `n` operations.
pub open spec fn legacy_kind_names(ops: Seq<PostProcessingDefinition>, n: int) -> Seq<Seq<char>>
    decreases n,
{
    if n <= 0 {
        seq![]
    } else {
        legacy_kind_names(ops, n - 1).push(legacy_kind_name(ops[n - 1].operation_type))
    }
}

/// The texts joined with ", " between them.
pub open spec fn comma_joined(s: Seq<Seq<char>>) -> Seq<char>
    decreases s.len(),
{
    if s.len() == 0 {
        ""@
    } else if s.len() == 1 {
        s[0]
    } else {
        comma_joined(s.drop_last()) + ", "@ + s.last()
    }
}

pub open spec fn has_branches(steps: Seq<ExecutionSequenceStep>) -> bool {
    exists|i: int| 0 <= i < steps.len() && (#[trigger] steps[i]).branches@.len() > 0
}

/// What the successor records of its migration: that its topology is to be reviewed,
/// then the legacy limits, post-processing kinds (distinct, in order) and branch
/// conditions that need a review, where there are any.
pub open spec fn migration_evidence(s: TestTemplateDefinition) -> Seq<Seq<char>> {
    seq![
        "Converted explicitly from a test-template v1 revision; topology remains to be reviewed."@,
    ] + (if s.limits@.len() > 0 {
        seq![
            decimal_text(s.limits@.len())
                + " legacy limit definition(s) retained in the immutable source revision and require classified v2 rules."@,
        ]
    } else {
        seq![]
    }) + (if s.post_processing@.len() > 0 {
        seq![
            "Legacy post-processing contracts ("@ + comma_joined(
                sorted_distinct(legacy_kind_names(s.post_processing@, s.post_processing@.len() as int)),
            ) + ") require explicit signal ownership review."@,
        ]
    } else {
        seq![]
    }) + (if has_branches(s.sequence@) {
        seq![
            "Legacy branch conditions remain in the immutable source revision and require deterministic expression review."@,
        ]
    } else {
        seq![]
    })
}

/// `d` is the version 2 successor of template `s`, field by field.
pub open spec fn successor_of(s: TestTemplateDefinition, d: TestMethodDefinitionV2) -> bool {
    &&& d.definition_schema_version@ == TEST_METHOD_DEFINITION_SCHEMA_VERSION@
    &&& d.title == s.title
    &&& d.objective == s.description
    &&& d.scope@ == "Successor workflow for "@ + axis_name(s.measurement_axis) + " measurements."@
    &&& views(d.classification_path@) == seq![text_or(s.method_code, "legacy_method"@)]
    &&& d.standard_references@ == s.standard_references@
    &&& d.variables@.len() == s.variables@.len()
    &&& forall|i: int|
        0 <= i < s.variables@.len() ==> migrated_variable(
            #[trigger] s.variables@[i],
            d.variables@[i],
        )
    &&& d.lock_policy@ == s.lock_policy@
    &&& d.parameter_profiles@.len() == 0
    &&& d.functional_roles@.len() == s.instrumentation_chain@.len()
    &&& forall|i: int|
        0 <= i < s.instrumentation_chain@.len() ==> migrated_role(
            #[trigger] s.instrumentation_chain@[i],
            d.functional_roles@[i],
        )
    &&& d.measurement_system_templates@.len() == 0
    &&& d.regulation_profiles@.len() == 0
    &&& d.modulation_profiles@.len() == 0
    &&& d.sub_ranges@.len() == 0
    &&& d.procedure@.len() == s.sequence@.len()
    &&& forall|i: int|
        0 <= i < s.sequence@.len() ==> migrated_node(#[trigger] s.sequence@[i], d.procedure@[i])
    &&& d.limits@.len() == 0
    &&& d.post_processing@.len() == 0
    &&& d.expected_output_variables@.len() == 0
    &&& views(d.migration_evidence@) == migration_evidence(s)
}

/// A template defect as a finding on the whole definition.
pub open spec fn template_finding(e: TemplateErrorView) -> WorkflowIssueView {
    WorkflowIssueView { code: e.code, path: "$"@, message: e.message }
}


fn text_or_else(value: &Option<String>, fallback: &str) -> (r: String)
    ensures
        r@ == text_or(*value, fallback@),
{
    match value {
        Some(t) => t.clone(),
        None => fallback.to_owned(),
    }
}

fn copy_texts_exactly(v: &Vec<String>) -> (r: Vec<String>)
    ensures
        r@ == v@,
{
    let mut r: Vec<String> = Vec::new();
    let mut i: usize = 0;
    while i < v.len()
        invariant
            i <= v@.len(),
            r@ == v@.subrange(0, i as int),
        decreases v@.len() - i,
    {
        r.push(v[i].clone());
        i = i + 1;
        assert(r@ =~= v@.subrange(0, i as int));
    }
    assert(v@.subrange(0, v@.len() as int) =~= v@);
    r
}

fn copy_default(v: &Option<VariableDefaultValue>) -> (r: Option<VariableDefaultValue>)
    ensures
        r == *v,
{
    match v {
        None => None,
        Some(VariableDefaultValue::Integer(n)) => Some(VariableDefaultValue::Integer(*n)),
        Some(VariableDefaultValue::Number) => Some(VariableDefaultValue::Number),
        Some(VariableDefaultValue::Boolean(b)) => Some(VariableDefaultValue::Boolean(*b)),
        Some(VariableDefaultValue::Text(t)) => Some(VariableDefaultValue::Text(t.clone())),
    }
}

fn copy_lock_policies(v: &Vec<VariableLockPolicy>) -> (r: Vec<VariableLockPolicy>)
    ensures
        r@ == v@,
{
    let mut r: Vec<VariableLockPolicy> = Vec::new();
    let mut i: usize = 0;
    while i < v.len()
        invariant
            i <= v@.len(),
            r@ == v@.subrange(0, i as int),
        decreases v@.len() - i,
    {
        r.push(VariableLockPolicy { variable_id: v[i].variable_id.clone(), policy: v[i].policy });
        i = i + 1;
        assert(r@ =~= v@.subrange(0, i as int));
    }
    assert(v@.subrange(0, v@.len() as int) =~= v@);
    r
}

fn migrate_variable(v: &VariableDefinition) -> (m: MethodVariableDefinition)
    ensures
        migrated_variable(*v, m),
{
    let unit_text: Option<&str> = match &v.constraints.unit {
        Some(u) => Some(u.as_str()),
        None => None,
    };
    let (dimension, unit) = migrated_dimension(false, unit_text);
    MethodVariableDefinition {
        variable_id: v.variable_id.clone(),
        label: v.label.clone(),
        description: text_or_else(&v.description, "Parametre migre depuis la definition v1."),
        semantic: MethodVariableSemantic::MethodParameter,
        value_type: v.value_type,
        dimension,
        unit,
        default_value: copy_default(&v.default_value),
        range_inverted: v.constraints.bounds_inverted,
        enum_values: copy_texts_exactly(&v.constraints.enum_values),
        required: v.constraints.required,
        source: "legacy_method_v1".to_owned(),
        availability_phase: AvailabilityPhase::Definition,
        expression: None,
        consumers: Vec::new(),
    }
}

fn migrate_slot(s: &InstrumentationChainSlot) -> (r: MethodFunctionalRole)
    ensures
        migrated_role(*s, r),
{
    let purpose = concat(
        concat("Besoin fonctionnel migre depuis l'emplacement ", s.slot_id.as_str()).as_str(),
        " de la definition v1.",
    );
    let capability = MethodCapabilityRequirement {
        capability_kind: text_or_else(&s.required_capability, "legacy_category_membership"),
        frequency_range: None,
        voltage_range: None,
        current_range: None,
        power_range: None,
        operating_modes: Vec::new(),
        required_driver_action: None,
    };
    let mut capabilities: Vec<MethodCapabilityRequirement> = Vec::new();
    capabilities.push(capability);
    let calibration_policy = match s.calibration_requirement {
        CalibrationRequirement::Required => MethodCalibrationPolicy::Required,
        CalibrationRequirement::IfUsed => MethodCalibrationPolicy::IfUsed,
        CalibrationRequirement::NotRequired => MethodCalibrationPolicy::NotRequired,
    };
    let substitution_policy = match s.substitution_policy {
        InstrumentSubstitutionPolicy::NoSubstitution => MethodSubstitutionPolicy::NoSubstitution,
        InstrumentSubstitutionPolicy::SameCategory => MethodSubstitutionPolicy::SameCategory,
        InstrumentSubstitutionPolicy::SameCapability => MethodSubstitutionPolicy::SameCapabilities,
        InstrumentSubstitutionPolicy::ApprovedEquivalent => MethodSubstitutionPolicy::ApprovedEquivalent,
    };
    MethodFunctionalRole {
        role_id: s.slot_id.clone(),
        label: s.label.clone(),
        purpose,
        required: s.required,
        functional_category: text_or_else(&s.required_category, "review_required"),
        capabilities,
        calibration_policy,
        substitution_policy,
        assignment_stage: RoleAssignmentStage::PlannedTestPreparation,
        logical_ports: Vec::new(),
        consumes_variables: Vec::new(),
        produces_variables: Vec::new(),
    }
}

fn migrate_step(s: &ExecutionSequenceStep) -> (n: ProcedureNode)
    ensures
        migrated_node(*s, n),
{
    let node_kind = match s.kind {
        ExecutionStepKind::Prepare => ProcedureNodeKind::Preparation,
        ExecutionStepKind::ConfigureInstrument => ProcedureNodeKind::Verification,
        ExecutionStepKind::Acquire => ProcedureNodeKind::Acquire,
        ExecutionStepKind::OperatorDecision => ProcedureNodeKind::OperatorAction,
        ExecutionStepKind::PostProcess => ProcedureNodeKind::Phase,
        ExecutionStepKind::Verify => ProcedureNodeKind::Verification,
        ExecutionStepKind::Finish => ProcedureNodeKind::Finalize,
    };
    let mut audit_notes = String::new();
    if s.branches.len() > 0 {
        push_decimal(&mut audit_notes, s.branches.len());
        push_str(&mut audit_notes, " branche(s) legacy a revoir dans le workflow hierarchique.");
    }
    proof {
        if s.branches@.len() == 0 {
            reveal_strlit("");
            assert(audit_notes@ =~= ""@);
        } else {
            assert(audit_notes@ =~= branch_note(s.branches@.len()));
        }
    }
    ProcedureNode {
        node_id: s.step_id.clone(),
        label: s.label.clone(),
        purpose: text_or_else(&s.instruction, "Etape migree depuis la definition v1."),
        node_kind,
        input_variables: Vec::new(),
        output_variables: Vec::new(),
        timeout_invalid: false,
        failure_policy: ProcedureFailurePolicy::Stop,
        maximum_iterations: None,
        children: Vec::new(),
        audit_notes,
    }
}


fn axis_text(axis: MeasurementAxis) -> (r: &'static str)
    ensures
        r@ == axis_name(axis),
{
    match axis {
        MeasurementAxis::FrequencySweep => "FrequencySweep",
        MeasurementAxis::TimeSeries => "TimeSeries",
        MeasurementAxis::EventTriggered => "EventTriggered",
        MeasurementAxis::MixedTimeFrequency => "MixedTimeFrequency",
    }
}

fn join_with_commas(parts: &Vec<String>) -> (r: String)
    ensures
        r@ == comma_joined(views(parts@)),
{
    let mut r = String::new();
    let mut i: usize = 0;
    proof {
        reveal_strlit("");
        assert(views(parts@).subrange(0, 0) =~= Seq::<Seq<char>>::empty());
    }
    while i < parts.len()
        invariant
            i <= parts@.len(),
            r@ == comma_joined(views(parts@).subrange(0, i as int)),
        decreases parts@.len() - i,
    {
        let ghost before = views(parts@).subrange(0, i as int);
        let ghost after = views(parts@).subrange(0, i + 1);
        assert(after.drop_last() =~= before);
        if i > 0 {
            push_str(&mut r, ", ");
            assert(after.len() >= 2);
        } else {
            proof {
                reveal_strlit("");
            }
            assert(r@ =~= ""@);
        }
        push_str(&mut r, parts[i].as_str());
        i = i + 1;
        assert(r@ =~= comma_joined(after));
    }
    assert(views(parts@).subrange(0, parts@.len() as int) =~= views(parts@));
    r
}

fn evidence_of(s: &TestTemplateDefinition) -> (r: Vec<String>)
    ensures
        views(r@) == migration_evidence(*s),
{
    let mut r: Vec<String> = Vec::new();
    r.push(
        "Converted explicitly from a test-template v1 revision; topology remains to be reviewed.".to_owned(),
    );
    let ghost e1 = views(r@);
    if s.limits.len() > 0 {
        let mut t = String::new();
        push_decimal(&mut t, s.limits.len());
        push_str(
            &mut t,
            " legacy limit definition(s) retained in the immutable source revision and require classified v2 rules.",
        );
        proof {
            reveal_strlit("");
            assert(t@ =~= decimal_text(s.limits@.len())
                + " legacy limit definition(s) retained in the immutable source revision and require classified v2 rules."@);
        }
        r.push(t);
    }
    let ghost e2 = views(r@);
    if s.post_processing.len() > 0 {
        let mut names: Vec<String> = Vec::new();
        let mut i: usize = 0;
        while i < s.post_processing.len()
            invariant
                i <= s.post_processing@.len(),
                views(names@) == legacy_kind_names(s.post_processing@, i as int),
            decreases s.post_processing@.len() - i,
        {
            names.push(legacy_post_processing_kind(&s.post_processing[i].operation_type).to_owned());
            i = i + 1;
            assert(views(names@) =~= legacy_kind_names(s.post_processing@, i as int));
        }
        let kinds = sort_distinct(names);
        let joined = join_with_commas(&kinds);
        let t = concat(
            concat("Legacy post-processing contracts (", joined.as_str()).as_str(),
            ") require explicit signal ownership review.",
        );
        r.push(t);
    }
    let ghost e3 = views(r@);
    let mut branches = false;
    let mut k: usize = 0;
    while k < s.sequence.len()
        invariant
            k <= s.sequence@.len(),
            branches == exists|j: int| 0 <= j < k && (#[trigger] s.sequence@[j]).branches@.len() > 0,
        decreases s.sequence@.len() - k,
    {
        if s.sequence[k].branches.len() > 0 {
            branches = true;
        }
        k = k + 1;
    }
    if branches {
        r.push(
            "Legacy branch conditions remain in the immutable source revision and require deterministic expression review.".to_owned(),
        );
    }
    assert(views(r@) =~= migration_evidence(*s));
    r
}


fn build_successor(s: &TestTemplateDefinition) -> (d: TestMethodDefinitionV2)
    ensures
        successor_of(*s, d),
{
    let mut variables: Vec<MethodVariableDefinition> = Vec::new();
    let mut i: usize = 0;
    while i < s.variables.len()
        invariant
            i <= s.variables@.len(),
            variables@.len() == i,
            forall|j: int| 0 <= j < i ==> migrated_variable(#[trigger] s.variables@[j], variables@[j]),
        decreases s.variables@.len() - i,
    {
        variables.push(migrate_variable(&s.variables[i]));
        i = i + 1;
    }
    let mut roles: Vec<MethodFunctionalRole> = Vec::new();
    let mut i: usize = 0;
    while i < s.instrumentation_chain.len()
        invariant
            i <= s.instrumentation_chain@.len(),
            roles@.len() == i,
            forall|j: int|
                0 <= j < i ==> migrated_role(#[trigger] s.instrumentation_chain@[j], roles@[j]),
        decreases s.instrumentation_chain@.len() - i,
    {
        roles.push(migrate_slot(&s.instrumentation_chain[i]));
        i = i + 1;
    }
    let mut procedure: Vec<ProcedureNode> = Vec::new();
    let mut i: usize = 0;
    while i < s.sequence.len()
        invariant
            i <= s.sequence@.len(),
            procedure@.len() == i,
            forall|j: int| 0 <= j < i ==> migrated_node(#[trigger] s.sequence@[j], procedure@[j]),
        decreases s.sequence@.len() - i,
    {
        procedure.push(migrate_step(&s.sequence[i]));
        i = i + 1;
    }
    let scope = concat(
        concat("Successor workflow for ", axis_text(s.measurement_axis)).as_str(),
        " measurements.",
    );
    let mut classification_path: Vec<String> = Vec::new();
    classification_path.push(text_or_else(&s.method_code, "legacy_method"));
    assert(views(classification_path@) =~= seq![text_or(s.method_code, "legacy_method"@)]);
    TestMethodDefinitionV2 {
        definition_schema_version: TEST_METHOD_DEFINITION_SCHEMA_VERSION.to_owned(),
        title: s.title.clone(),
        objective: s.description.clone(),
        scope,
        classification_path,
        standard_references: copy_texts_exactly(&s.standard_references),
        variables,
        lock_policy: copy_lock_policies(&s.lock_policy),
        parameter_profiles: Vec::new(),
        functional_roles: roles,
        measurement_system_templates: Vec::new(),
        regulation_profiles: Vec::new(),
        modulation_profiles: Vec::new(),
        sub_ranges: Vec::new(),
        procedure,
        limits: Vec::new(),
        post_processing: Vec::new(),
        expected_output_variables: Vec::new(),
        migration_evidence: evidence_of(s),
    }
}

/// The version 2 successor of a template. A template with a defect gives that defect as
/// a finding on the whole definition (path `$`); else the successor is built (see
/// `successor_of`) and checked, and its first finding, if any, is the error.
pub fn derive_method_v2_successor(source: &TestTemplateDefinition) -> (r: Result<
    TestMethodDefinitionV2,
    MethodWorkflowValidationIssue,
>)
    ensures
        match r {
            Ok(d) => definition_error(*source) is None && successor_of(*source, d)
                && test_method_issues(d).len() == 0,
            Err(e) => match definition_error(*source) {
                Some(te) => e@ == template_finding(te),
                None => exists|d: TestMethodDefinitionV2|
                    #[trigger] successor_of(*source, d) && test_method_issues(d).len() > 0
                        && e@ == test_method_issues(d)[0],
            },
        },
{
    match validate_definition(source) {
        Err(error) => {
            return Err(MethodWorkflowValidationIssue::new(error.code, "$", error.message.as_str()));
        },
        Ok(()) => {},
    }
    let definition = build_successor(source);
    let mut issues = definition.validate();
    if issues.len() > 0 {
        let ghost all = issues@;
        let first = issues.remove(0);
        assert(first@ == crate::method_workflow::workflow_issues_view(all)[0]);
        assert(successor_of(*source, definition));
        return Err(first);
    }
    Ok(definition)
}

} // verus!
