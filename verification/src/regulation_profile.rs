//! Regulation profiles: how a method drives a quantity to its target, and the checks
//! of a profile against the method's variables and roles.

use crate::method_variables::{
    expression_dimension, expression_dimension_of, DeterministicExpression,
    MethodVariableDefinition,
};
use crate::method_workflow::{
    push_found, unit_dimension, unit_dimension_of, when_found, wissue, workflow_issue,
    workflow_issues_view, MethodFunctionalRole, MethodWorkflowValidationIssue,
    RegulationControlMode, RetryPolicy, WorkflowIssueView, REGULATION_PROFILE_SCHEMA_VERSION,
};
use crate::text::{concat, str_eq};
use vstd::prelude::*;

verus! {

/// A step of the regulation with its unit; the checks read whether its value is not a
/// positive finite number (a floating-point comparison).
#[derive(Clone, Debug, PartialEq, Eq)]
pub struct RegulationStep {
    pub unit: String,
    pub not_positive_finite: bool,
}

/// A regulation profile, with what its checks read of its floating-point values: whether
/// each step and dwell period fails to be positive and finite.
#[derive(Debug)]
pub struct RegulationProfileDefinition {
    pub definition_schema_version: String,
    pub profile_id: String,
    pub label: String,
    pub regulated_quantity: String,
    pub regulated_unit: String,
    pub target_expression: DeterministicExpression,
    pub control_mode: RegulationControlMode,
    pub actuator_role_id: Option<String>,
    pub required_driver_action: Option<String>,
    pub feedback_role_id: Option<String>,
    pub feedback_signal_variable_id: Option<String>,
    pub monitoring_role_ids: Vec<String>,
    pub calibration_reference_profile: Option<String>,
    pub fast_increasing_step: RegulationStep,
    pub slow_increasing_step: RegulationStep,
    pub decreasing_step: RegulationStep,
    pub dwell_t1_invalid: bool,
    pub dwell_t2_invalid: bool,
    pub dwell_t3_invalid: bool,
    pub regulation_start_criterion: String,
    pub regulation_end_criterion: String,
    pub retry_policy: RetryPolicy,
    pub abort_policy: String,
    pub safe_state_policy: String,
    pub operator_notes: String,
}

/// A field that closed-loop regulation needs: absent or empty.
pub open spec fn absent_or_empty(value: Option<String>) -> bool {
    match value {
        None => true,
        Some(t) => t@.len() == 0,
    }
}

/// Whether some role has the identifier.
pub open spec fn role_declared(roles: Seq<MethodFunctionalRole>, id: Seq<char>) -> bool {
    exists|i: int| 0 <= i < roles.len() && (#[trigger] roles[i]).role_id@ == id
}

/// Whether some variable has the identifier.
pub open spec fn variable_declared(vars: Seq<MethodVariableDefinition>, id: Seq<char>) -> bool {
    exists|i: int| 0 <= i < vars.len() && (#[trigger] vars[i]).variable_id@ == id
}

pub open spec fn unknown_role(roles: Seq<MethodFunctionalRole>, id: Seq<char>) -> Seq<WorkflowIssueView> {
    when_found(
        !role_declared(roles, id),
        wissue(
            "unknown_regulation_role",
            "regulation_profile",
            "regulation profile references unknown role "@ + id,
        ),
    )
}

pub open spec fn unknown_optional_role(roles: Seq<MethodFunctionalRole>, id: Option<String>) -> Seq<
    WorkflowIssueView,
> {
    match id {
        Some(r) => unknown_role(roles, r@),
        None => seq![],
    }
}

/// The findings on the first `n` monitoring roles.
pub open spec fn monitoring_pass(roles: Seq<MethodFunctionalRole>, ids: Seq<String>, n: int) -> Seq<
    WorkflowIssueView,
>
    decreases n,
{
    if n <= 0 {
        seq![]
    } else {
        monitoring_pass(roles, ids, n - 1) + unknown_role(roles, ids[n - 1]@)
    }
}

pub open spec fn closed_loop_field(value: Option<String>, code: &str, path: &str) -> Seq<WorkflowIssueView> {
    when_found(
        absent_or_empty(value),
        wissue(code, path, "closed-loop regulation requires this field"@),
    )
}

pub open spec fn invalid_step(invalid: bool, path: &str) -> Seq<WorkflowIssueView> {
    when_found(
        invalid,
        wissue(
            "invalid_regulation_step",
            path,
            "regulation steps and dwell periods must be positive and finite"@,
        ),
    )
}

/// The head of the checks: schema, regulated unit, target expression and, for closed
/// loop regulation, the fields that it needs.
pub open spec fn regulation_head_issues(
    p: RegulationProfileDefinition,
    vars: Seq<MethodVariableDefinition>,
) -> Seq<WorkflowIssueView> {
    when_found(
        p.definition_schema_version@ != REGULATION_PROFILE_SCHEMA_VERSION@,
        wissue(
            "unsupported_regulation_profile_schema",
            "definition_schema_version",
            "regulation profile must use v1"@,
        ),
    ) + when_found(
        unit_dimension_of(p.regulated_unit@) is None,
        wissue(
            "unsupported_regulated_unit",
            "regulated_unit",
            "regulated quantity unit is unsupported or indeterminate"@,
        ),
    ) + target_issues(p.target_expression, vars) + closed_loop_issues(p)
}

/// The finding on a target expression whose dimension cannot be determined.
pub open spec fn target_issues(e: DeterministicExpression, vars: Seq<MethodVariableDefinition>) -> Seq<
    WorkflowIssueView,
> {
    match expression_dimension_of(e, vars) {
        Err(m) => seq![wissue("invalid_regulation_target_expression", "target_expression", m)],
        Ok(_) => seq![],
    }
}

/// The findings on the fields that closed-loop regulation needs.
pub open spec fn closed_loop_issues(p: RegulationProfileDefinition) -> Seq<WorkflowIssueView> {
    if p.control_mode is ClosedLoop {
        closed_loop_field(p.actuator_role_id, "missing_regulation_actuator", "actuator_role_id")
            + closed_loop_field(p.feedback_role_id, "missing_regulation_feedback", "feedback_role_id")
            + closed_loop_field(
            p.required_driver_action,
            "missing_regulation_driver_action",
            "required_driver_action",
        ) + closed_loop_field(
            p.feedback_signal_variable_id,
            "missing_regulation_feedback_signal",
            "feedback_signal_variable_id",
        )
    } else {
        seq![]
    }
}

/// Every defect of a regulation profile, in the order they are reported: the head
/// checks, unknown actuator, feedback and monitoring roles, an unknown feedback variable,
/// steps and dwell periods that are not positive and finite, and a retry count above 100.
pub open spec fn regulation_profile_issues(
    p: RegulationProfileDefinition,
    vars: Seq<MethodVariableDefinition>,
    roles: Seq<MethodFunctionalRole>,
) -> Seq<WorkflowIssueView> {
    regulation_head_issues(p, vars) + unknown_optional_role(roles, p.actuator_role_id)
        + unknown_optional_role(roles, p.feedback_role_id) + monitoring_pass(
        roles,
        p.monitoring_role_ids@,
        p.monitoring_role_ids@.len() as int,
    ) + match p.feedback_signal_variable_id {
        Some(v) => when_found(
            !variable_declared(vars, v@),
            wissue(
                "unknown_feedback_variable",
                "feedback_signal_variable_id",
                "unknown feedback variable "@ + v@,
            ),
        ),
        None => seq![],
    } + invalid_step(p.fast_increasing_step.not_positive_finite, "fast_increasing_step")
        + invalid_step(p.slow_increasing_step.not_positive_finite, "slow_increasing_step")
        + invalid_step(p.decreasing_step.not_positive_finite, "decreasing_step") + invalid_step(
        p.dwell_t1_invalid,
        "dwell_t1_seconds",
    ) + invalid_step(p.dwell_t2_invalid, "dwell_t2_seconds") + invalid_step(
        p.dwell_t3_invalid,
        "dwell_t3_seconds",
    ) + when_found(
        p.retry_policy.maximum_attempts > 100,
        wissue(
            "unbounded_regulation_retry",
            "retry_policy.maximum_attempts",
            "regulation retry count must be at most 100"@,
        ),
    )
}


fn role_known(roles: &[MethodFunctionalRole], id: &str) -> (b: bool)
    ensures
        b == role_declared(roles@, id@),
{
    let mut i: usize = 0;
    while i < roles.len()
        invariant
            i <= roles@.len(),
            forall|j: int| 0 <= j < i ==> (#[trigger] roles@[j]).role_id@ != id@,
        decreases roles@.len() - i,
    {
        if str_eq(roles[i].role_id.as_str(), id) {
            return true;
        }
        i = i + 1;
    }
    false
}

fn variable_known(vars: &[MethodVariableDefinition], id: &str) -> (b: bool)
    ensures
        b == variable_declared(vars@, id@),
{
    let mut i: usize = 0;
    while i < vars.len()
        invariant
            i <= vars@.len(),
            forall|j: int| 0 <= j < i ==> (#[trigger] vars@[j]).variable_id@ != id@,
        decreases vars@.len() - i,
    {
        if str_eq(vars[i].variable_id.as_str(), id) {
            return true;
        }
        i = i + 1;
    }
    false
}

fn absent_or_empty_text(value: &Option<String>) -> (b: bool)
    ensures
        b == absent_or_empty(*value),
{
    match value {
        None => true,
        Some(t) => t.as_str().unicode_len() == 0,
    }
}

fn check_optional_role(
    issues: &mut Vec<MethodWorkflowValidationIssue>,
    roles: &[MethodFunctionalRole],
    id: &Option<String>,
)
    ensures
        workflow_issues_view(final(issues)@) == workflow_issues_view(old(issues)@)
            + unknown_optional_role(roles@, *id),
{
    let ghost before = workflow_issues_view(issues@);
    match id {
        Some(r) => push_found(
            issues,
            !role_known(roles, r.as_str()),
            "unknown_regulation_role",
            "regulation_profile",
            concat("regulation profile references unknown role ", r.as_str()),
        ),
        None => {
            assert(workflow_issues_view(issues@) =~= before + seq![]);
        },
    }
}

#[verifier::rlimit(60)]
#[verifier::spinoff_prover]
fn check_closed_loop(issues: &mut Vec<MethodWorkflowValidationIssue>, p: &RegulationProfileDefinition)
    ensures
        workflow_issues_view(final(issues)@) == workflow_issues_view(old(issues)@) + closed_loop_issues(*p),
{
    let ghost s3 = workflow_issues_view(issues@);
    if matches!(p.control_mode, RegulationControlMode::ClosedLoop) {
        push_found(
            issues,
            absent_or_empty_text(&p.actuator_role_id),
            "missing_regulation_actuator",
            "actuator_role_id",
            "closed-loop regulation requires this field".to_owned(),
        );
        push_found(
            issues,
            absent_or_empty_text(&p.feedback_role_id),
            "missing_regulation_feedback",
            "feedback_role_id",
            "closed-loop regulation requires this field".to_owned(),
        );
        push_found(
            issues,
            absent_or_empty_text(&p.required_driver_action),
            "missing_regulation_driver_action",
            "required_driver_action",
            "closed-loop regulation requires this field".to_owned(),
        );
        push_found(
            issues,
            absent_or_empty_text(&p.feedback_signal_variable_id),
            "missing_regulation_feedback_signal",
            "feedback_signal_variable_id",
            "closed-loop regulation requires this field".to_owned(),
        );
    }
    assert(workflow_issues_view(issues@) =~= s3 + closed_loop_issues(*p));
}

#[verifier::rlimit(100)]
#[verifier::spinoff_prover]
fn check_regulation_head(
    issues: &mut Vec<MethodWorkflowValidationIssue>,
    p: &RegulationProfileDefinition,
    vars: &[MethodVariableDefinition],
)
    ensures
        workflow_issues_view(final(issues)@) == workflow_issues_view(old(issues)@)
            + regulation_head_issues(*p, vars@),
{
    let ghost s = workflow_issues_view(issues@);
    push_found(
        issues,
        !str_eq(p.definition_schema_version.as_str(), REGULATION_PROFILE_SCHEMA_VERSION),
        "unsupported_regulation_profile_schema",
        "definition_schema_version",
        "regulation profile must use v1".to_owned(),
    );
    push_found(
        issues,
        unit_dimension(p.regulated_unit.as_str()).is_none(),
        "unsupported_regulated_unit",
        "regulated_unit",
        "regulated quantity unit is unsupported or indeterminate".to_owned(),
    );
    let ghost s2 = workflow_issues_view(issues@);
    match expression_dimension(&p.target_expression, vars) {
        Err(message) => {
            issues.push(workflow_issue("invalid_regulation_target_expression", "target_expression", message));
        },
        Ok(_) => {},
    }
    assert(workflow_issues_view(issues@) =~= s2 + target_issues(p.target_expression, vars@));
    let ghost s3 = workflow_issues_view(issues@);
    check_closed_loop(issues, p);
    assert(workflow_issues_view(issues@) =~= s + regulation_head_issues(*p, vars@));
}

/// Checks a regulation profile against the method's variables and roles (see
/// `regulation_profile_issues`).
#[verifier::rlimit(60)]
#[verifier::spinoff_prover]
pub fn validate_regulation_profile(
    p: &RegulationProfileDefinition,
    variables: &[MethodVariableDefinition],
    roles: &[MethodFunctionalRole],
) -> (r: Vec<MethodWorkflowValidationIssue>)
    ensures
        workflow_issues_view(r@) == regulation_profile_issues(*p, variables@, roles@),
{
    let mut issues: Vec<MethodWorkflowValidationIssue> = Vec::new();
    assert(workflow_issues_view(issues@) =~= Seq::<WorkflowIssueView>::empty());
    check_regulation_head(&mut issues, p, variables);
    check_optional_role(&mut issues, roles, &p.actuator_role_id);
    check_optional_role(&mut issues, roles, &p.feedback_role_id);
    let ghost s = workflow_issues_view(issues@);
    let mut k: usize = 0;
    assert(s =~= s + monitoring_pass(roles@, p.monitoring_role_ids@, 0));
    while k < p.monitoring_role_ids.len()
        invariant
            k <= p.monitoring_role_ids@.len(),
            workflow_issues_view(issues@) == s + monitoring_pass(roles@, p.monitoring_role_ids@, k as int),
        decreases p.monitoring_role_ids@.len() - k,
    {
        let id = p.monitoring_role_ids[k].as_str();
        push_found(
            &mut issues,
            !role_known(roles, id),
            "unknown_regulation_role",
            "regulation_profile",
            concat("regulation profile references unknown role ", id),
        );
        assert(workflow_issues_view(issues@) =~= s + monitoring_pass(roles@, p.monitoring_role_ids@, k + 1));
        k = k + 1;
    }
    let ghost s2 = workflow_issues_view(issues@);
    match &p.feedback_signal_variable_id {
        Some(v) => push_found(
            &mut issues,
            !variable_known(variables, v.as_str()),
            "unknown_feedback_variable",
            "feedback_signal_variable_id",
            concat("unknown feedback variable ", v.as_str()),
        ),
        None => {},
    }
    let ghost s3 = workflow_issues_view(issues@);
    assert(s3 =~= s2 + match p.feedback_signal_variable_id {
        Some(v) => when_found(
            !variable_declared(variables@, v@),
            wissue(
                "unknown_feedback_variable",
                "feedback_signal_variable_id",
                "unknown feedback variable "@ + v@,
            ),
        ),
        None => seq![],
    });
    let message = "regulation steps and dwell periods must be positive and finite";
    push_found(&mut issues, p.fast_increasing_step.not_positive_finite, "invalid_regulation_step",
        "fast_increasing_step", message.to_owned());
    push_found(&mut issues, p.slow_increasing_step.not_positive_finite, "invalid_regulation_step",
        "slow_increasing_step", message.to_owned());
    push_found(&mut issues, p.decreasing_step.not_positive_finite, "invalid_regulation_step",
        "decreasing_step", message.to_owned());
    push_found(&mut issues, p.dwell_t1_invalid, "invalid_regulation_step", "dwell_t1_seconds",
        message.to_owned());
    push_found(&mut issues, p.dwell_t2_invalid, "invalid_regulation_step", "dwell_t2_seconds",
        message.to_owned());
    push_found(&mut issues, p.dwell_t3_invalid, "invalid_regulation_step", "dwell_t3_seconds",
        message.to_owned());
    push_found(
        &mut issues,
        p.retry_policy.maximum_attempts > 100,
        "unbounded_regulation_retry",
        "retry_policy.maximum_attempts",
        "regulation retry count must be at most 100".to_owned(),
    );
    assert(workflow_issues_view(issues@) =~= regulation_profile_issues(*p, variables@, roles@));
    issues
}

impl RegulationProfileDefinition {
    /// Every defect of the profile (see `regulation_profile_issues`).
    pub fn validate(&self, variables: &[MethodVariableDefinition], roles: &[MethodFunctionalRole]) -> (r: Vec<
        MethodWorkflowValidationIssue,
    >)
        ensures
            workflow_issues_view(r@) == regulation_profile_issues(*self, variables@, roles@),
    {
        validate_regulation_profile(self, variables, roles)
    }
}

} // verus!
