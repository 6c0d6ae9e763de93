//! A version 2 test method definition as a whole, and the checks that compose the checks
//! of its parts.

use crate::method_variables::{
    profile_pass, validate_parameter_profiles,
    validate_variables, valid_variable_ids, variable_issues, MethodVariableDefinition,
    ParameterProfileDefinition,
};
use crate::method_workflow::{
    limits_issues, missing_text, post_processing_issues, procedure_issues, push_found,
    require_text, revision_reference_issues, roles_issues, stable_token, valid_role_ids,
    valid_token, validate_limits, validate_post_processing, validate_procedure,
    validate_revision_references, validate_roles, when_found, wissue,
    workflow_issues_view,
    MethodFunctionalRole, MethodLimitRule, MethodWorkflowValidationIssue, PostProcessingNode,
    ProcedureNode, RevisionReference, WorkflowIssueView, TEST_METHOD_DEFINITION_SCHEMA_VERSION,
};
use crate::sorting::{sorted_distinct, views};
use crate::test_definitions::VariableLockPolicy;
use crate::text::{concat, copy_string, str_eq};
use vstd::prelude::*;

verus! {

/// A modulation profile; of an AM profile the checks read whether its depth lies outside
/// 0 to 100 percent (a floating-point comparison).
#[derive(Clone, Debug, PartialEq, Eq)]
pub enum ModulationDefinition {
    NoModulation { profile_id: String, label: String },
    Am { profile_id: String, label: String, depth_out_of_range: bool },
    Fm { profile_id: String, label: String },
    Pulse { profile_id: String, label: String },
    LaboratoryExtension { profile_id: String, label: String, extension_kind: String },
}

pub open spec fn modulation_id(m: ModulationDefinition) -> Seq<char> {
    match m {
        ModulationDefinition::NoModulation { profile_id, .. } => profile_id@,
        ModulationDefinition::Am { profile_id, .. } => profile_id@,
        ModulationDefinition::Fm { profile_id, .. } => profile_id@,
        ModulationDefinition::Pulse { profile_id, .. } => profile_id@,
        ModulationDefinition::LaboratoryExtension { profile_id, .. } => profile_id@,
    }
}

fn modulation_id_of(m: &ModulationDefinition) -> (r: &String)
    ensures
        r@ == modulation_id(*m),
{
    match m {
        ModulationDefinition::NoModulation { profile_id, .. } => profile_id,
        ModulationDefinition::Am { profile_id, .. } => profile_id,
        ModulationDefinition::Fm { profile_id, .. } => profile_id,
        ModulationDefinition::Pulse { profile_id, .. } => profile_id,
        ModulationDefinition::LaboratoryExtension { profile_id, .. } => profile_id,
    }
}

/// A frequency sub-range of a method, with the finding its preview (a floating-point
/// computation of its frequency points, bounded to ten thousand) reports, if any.
#[derive(Clone, Debug, PartialEq, Eq)]
pub struct SubRangeDefinition {
    pub sub_range_id: String,
    pub label: String,
    pub sweep_mode: String,
    pub system_template_profile_id: Option<String>,
    pub regulation_profile_id: Option<String>,
    pub modulation_profile_id: Option<String>,
    pub eut_state: Option<String>,
    pub orientation: Option<String>,
    pub polarization: Option<String>,
    pub comments: String,
    pub preview_issue: Option<MethodWorkflowValidationIssue>,
}

/// A version 2 test method definition.
#[derive(Debug)]
pub struct TestMethodDefinitionV2 {
    pub definition_schema_version: String,
    pub title: String,
    pub objective: String,
    pub scope: String,
    pub classification_path: Vec<String>,
    pub standard_references: Vec<String>,
    pub variables: Vec<MethodVariableDefinition>,
    pub lock_policy: Vec<VariableLockPolicy>,
    pub parameter_profiles: Vec<ParameterProfileDefinition>,
    pub functional_roles: Vec<MethodFunctionalRole>,
    pub measurement_system_templates: Vec<RevisionReference>,
    pub regulation_profiles: Vec<RevisionReference>,
    pub modulation_profiles: Vec<ModulationDefinition>,
    pub sub_ranges: Vec<SubRangeDefinition>,
    pub procedure: Vec<ProcedureNode>,
    pub limits: Vec<MethodLimitRule>,
    pub post_processing: Vec<PostProcessingNode>,
    pub expected_output_variables: Vec<String>,
    pub migration_evidence: Vec<String>,
}

/// The identifiers of the variables that are stable tokens, once each, in order.
pub open spec fn method_variable_ids(d: TestMethodDefinitionV2) -> Seq<Seq<char>> {
    sorted_distinct(valid_variable_ids(d.variables@, d.variables@.len() as int))
}

pub open spec fn lock_pass(policies: Seq<VariableLockPolicy>, ids: Seq<Seq<char>>, n: int) -> Seq<
    WorkflowIssueView,
>
    decreases n,
{
    if n <= 0 {
        seq![]
    } else {
        lock_pass(policies, ids, n - 1) + when_found(
            !ids.contains(policies[n - 1].variable_id@),
            wissue(
                "unknown_lock_variable",
                "lock_policy",
                "lock policy references unknown variable "@ + policies[n - 1].variable_id@,
            ),
        )
    }
}

/// The checks of each modulation profile: a stable token not used before, and an AM
/// depth within 0 to 100 percent.
pub open spec fn modulation_pass(ms: Seq<ModulationDefinition>, n: int) -> Seq<WorkflowIssueView>
    decreases n,
{
    if n <= 0 {
        seq![]
    } else {
        let id = modulation_id(ms[n - 1]);
        modulation_pass(ms, n - 1) + when_found(
            !stable_token(id) || exists|j: int| 0 <= j < n - 1 && modulation_id(#[trigger] ms[j]) == id,
            wissue(
                "invalid_or_duplicate_modulation_profile",
                "modulation_profiles",
                "invalid or duplicate modulation profile "@ + id,
            ),
        ) + match ms[n - 1] {
            ModulationDefinition::Am { depth_out_of_range, .. } => when_found(
                depth_out_of_range,
                wissue(
                    "invalid_am_depth",
                    "modulation_profiles",
                    "AM depth must be between 0 and 100 percent"@,
                ),
            ),
            _ => seq![],
        }
    }
}

/// The checks of each sub-range: a stable token not used before, then its preview's
/// finding, if any.
pub open spec fn sub_range_pass(rs: Seq<SubRangeDefinition>, n: int) -> Seq<WorkflowIssueView>
    decreases n,
{
    if n <= 0 {
        seq![]
    } else {
        let id = rs[n - 1].sub_range_id@;
        sub_range_pass(rs, n - 1) + when_found(
            !stable_token(id) || exists|j: int| 0 <= j < n - 1 && (#[trigger] rs[j]).sub_range_id@ == id,
            wissue(
                "invalid_or_duplicate_sub_range",
                "sub_ranges",
                "invalid or duplicate sub-range "@ + id,
            ),
        ) + match rs[n - 1].preview_issue {
            Some(i) => seq![i@],
            None => seq![],
        }
    }
}

pub open spec fn outputs_pass(outputs: Seq<String>, ids: Seq<Seq<char>>, n: int) -> Seq<WorkflowIssueView>
    decreases n,
{
    if n <= 0 {
        seq![]
    } else {
        outputs_pass(outputs, ids, n - 1) + when_found(
            !ids.contains(outputs[n - 1]@),
            wissue(
                "unknown_expected_output",
                "expected_output_variables",
                "expected output references unknown variable "@ + outputs[n - 1]@,
            ),
        )
    }
}

/// The checks of the method as a whole, before its variables.
#[verifier::opaque]
pub open spec fn method_head_issues(d: TestMethodDefinitionV2) -> Seq<WorkflowIssueView> {
    when_found(
        d.definition_schema_version@ != TEST_METHOD_DEFINITION_SCHEMA_VERSION@,
        wissue(
            "unsupported_test_method_schema",
            "definition_schema_version",
            "method v2 must use the 0.22.2 schema"@,
        ),
    ) + missing_text(d.title@, "title") + missing_text(d.objective@, "objective") + missing_text(
        d.scope@,
        "scope",
    ) + when_found(
        d.classification_path@.len() == 0,
        wissue(
            "missing_method_classification",
            "classification_path",
            "select a method classification"@,
        ),
    )
}

/// Every defect of a version 2 method, in the order they are reported: the method as a
/// whole, its variables, lock policies, parameter profiles, roles, referenced templates
/// and regulation profiles, modulations, sub-ranges, procedure, limits, post-processing,
/// expected outputs, and at last a method without any valid role.
pub open spec fn test_method_issues(d: TestMethodDefinitionV2) -> Seq<WorkflowIssueView> {
    let ids = method_variable_ids(d);
    let role_ids = sorted_distinct(valid_role_ids(d.functional_roles@, d.functional_roles@.len()));
    method_head_issues(d) + variable_issues(d.variables@) + lock_pass(
        d.lock_policy@,
        ids,
        d.lock_policy@.len() as int,
    ) + profile_pass(d.parameter_profiles@, ids, d.parameter_profiles@.len() as int)
        + roles_issues(d.functional_roles@, ids, d.functional_roles@.len())
        + revision_reference_issues(
        d.measurement_system_templates@,
        "measurement_system_templates"@,
        d.measurement_system_templates@.len(),
    ) + revision_reference_issues(
        d.regulation_profiles@,
        "regulation_profiles"@,
        d.regulation_profiles@.len(),
    ) + modulation_pass(d.modulation_profiles@, d.modulation_profiles@.len() as int)
        + sub_range_pass(d.sub_ranges@, d.sub_ranges@.len() as int) + procedure_issues(
        d.procedure@,
        ids,
    ) + limits_issues(d.limits@, ids, d.limits@.len()) + post_processing_issues(
        d.post_processing@,
        ids,
        d.limits@,
    ) + outputs_pass(
        d.expected_output_variables@,
        ids,
        d.expected_output_variables@.len() as int,
    ) + when_found(
        role_ids.len() == 0,
        wissue(
            "missing_functional_roles",
            "functional_roles",
            "define at least one functional instrumentation role"@,
        ),
    )
}

fn contains_text(ids: &Vec<String>, v: &str) -> (b: bool)
    ensures
        b == views(ids@).contains(v@),
{
    let mut k: usize = 0;
    while k < ids.len()
        invariant
            k <= ids@.len(),
            forall|j: int| 0 <= j < k ==> (#[trigger] ids@[j])@ != v@,
        decreases ids@.len() - k,
    {
        if str_eq(ids[k].as_str(), v) {
            assert(views(ids@)[k as int] == v@);
            return true;
        }
        k = k + 1;
    }
    assert forall|j: int| 0 <= j < views(ids@).len() implies views(ids@)[j] != v@ by {
        assert(views(ids@)[j] == ids@[j]@);
    }
    false
}

fn check_method_head(issues: &mut Vec<MethodWorkflowValidationIssue>, d: &TestMethodDefinitionV2)
    ensures
        workflow_issues_view(final(issues)@) == workflow_issues_view(old(issues)@)
            + method_head_issues(*d),
{
    proof {
        reveal(method_head_issues);
    }
    let ghost before = workflow_issues_view(issues@);
    push_found(
        issues,
        !str_eq(d.definition_schema_version.as_str(), TEST_METHOD_DEFINITION_SCHEMA_VERSION),
        "unsupported_test_method_schema",
        "definition_schema_version",
        "method v2 must use the 0.22.2 schema".to_owned(),
    );
    require_text(issues, d.title.as_str(), "title");
    require_text(issues, d.objective.as_str(), "objective");
    require_text(issues, d.scope.as_str(), "scope");
    push_found(
        issues,
        d.classification_path.len() == 0,
        "missing_method_classification",
        "classification_path",
        "select a method classification".to_owned(),
    );
    assert(workflow_issues_view(issues@) =~= before + method_head_issues(*d));
}

fn check_locks(
    issues: &mut Vec<MethodWorkflowValidationIssue>,
    policies: &Vec<VariableLockPolicy>,
    ids: &Vec<String>,
)
    ensures
        workflow_issues_view(final(issues)@) == workflow_issues_view(old(issues)@) + lock_pass(
            policies@,
            views(ids@),
            policies@.len() as int,
        ),
{
    let ghost s = workflow_issues_view(issues@);
    let mut k: usize = 0;
    assert(s =~= s + lock_pass(policies@, views(ids@), 0));
    while k < policies.len()
        invariant
            k <= policies@.len(),
            workflow_issues_view(issues@) == s + lock_pass(policies@, views(ids@), k as int),
        decreases policies@.len() - k,
    {
        push_found(
            issues,
            !contains_text(ids, policies[k].variable_id.as_str()),
            "unknown_lock_variable",
            "lock_policy",
            concat("lock policy references unknown variable ", policies[k].variable_id.as_str()),
        );
        assert(workflow_issues_view(issues@) =~= s + lock_pass(policies@, views(ids@), k + 1));
        k = k + 1;
    }
}

fn check_modulations(issues: &mut Vec<MethodWorkflowValidationIssue>, ms: &Vec<ModulationDefinition>)
    ensures
        workflow_issues_view(final(issues)@) == workflow_issues_view(old(issues)@) + modulation_pass(
            ms@,
            ms@.len() as int,
        ),
{
    let ghost s = workflow_issues_view(issues@);
    let mut k: usize = 0;
    assert(s =~= s + modulation_pass(ms@, 0));
    while k < ms.len()
        invariant
            k <= ms@.len(),
            workflow_issues_view(issues@) == s + modulation_pass(ms@, k as int),
        decreases ms@.len() - k,
    {
        let id = modulation_id_of(&ms[k]);
        let mut seen = false;
        let mut j: usize = 0;
        while j < k
            invariant
                k < ms@.len(),
                j <= k,
                id@ == modulation_id(ms@[k as int]),
                seen == exists|m: int| 0 <= m < j && modulation_id(#[trigger] ms@[m]) == id@,
            decreases k - j,
        {
            if str_eq(modulation_id_of(&ms[j]).as_str(), id.as_str()) {
                seen = true;
            }
            j = j + 1;
        }
        let ghost mid = workflow_issues_view(issues@);
        push_found(
            issues,
            !valid_token(id.as_str()) || seen,
            "invalid_or_duplicate_modulation_profile",
            "modulation_profiles",
            concat("invalid or duplicate modulation profile ", id.as_str()),
        );
        match &ms[k] {
            ModulationDefinition::Am { depth_out_of_range, .. } => push_found(
                issues,
                *depth_out_of_range,
                "invalid_am_depth",
                "modulation_profiles",
                "AM depth must be between 0 and 100 percent".to_owned(),
            ),
            _ => {},
        }
        assert(workflow_issues_view(issues@) =~= s + modulation_pass(ms@, k + 1));
        k = k + 1;
    }
}

fn check_sub_ranges(issues: &mut Vec<MethodWorkflowValidationIssue>, rs: &Vec<SubRangeDefinition>)
    ensures
        workflow_issues_view(final(issues)@) == workflow_issues_view(old(issues)@) + sub_range_pass(
            rs@,
            rs@.len() as int,
        ),
{
    let ghost s = workflow_issues_view(issues@);
    let mut k: usize = 0;
    assert(s =~= s + sub_range_pass(rs@, 0));
    while k < rs.len()
        invariant
            k <= rs@.len(),
            workflow_issues_view(issues@) == s + sub_range_pass(rs@, k as int),
        decreases rs@.len() - k,
    {
        let id = &rs[k].sub_range_id;
        let mut seen = false;
        let mut j: usize = 0;
        while j < k
            invariant
                k < rs@.len(),
                j <= k,
                id@ == rs@[k as int].sub_range_id@,
                seen == exists|m: int| 0 <= m < j && (#[trigger] rs@[m]).sub_range_id@ == id@,
            decreases k - j,
        {
            if str_eq(rs[j].sub_range_id.as_str(), id.as_str()) {
                seen = true;
            }
            j = j + 1;
        }
        push_found(
            issues,
            !valid_token(id.as_str()) || seen,
            "invalid_or_duplicate_sub_range",
            "sub_ranges",
            concat("invalid or duplicate sub-range ", id.as_str()),
        );
        let ghost mid = workflow_issues_view(issues@);
        match &rs[k].preview_issue {
            Some(i) => {
                let copy = MethodWorkflowValidationIssue {
                    code: copy_string(&i.code),
                    path: copy_string(&i.path),
                    message: copy_string(&i.message),
                };
                assert(copy@ == i@);
                issues.push(copy);
                assert(workflow_issues_view(issues@) =~= mid + seq![i@]);
            },
            None => {
                assert(workflow_issues_view(issues@) =~= mid + seq![]);
            },
        }
        assert(workflow_issues_view(issues@) =~= s + sub_range_pass(rs@, k + 1));
        k = k + 1;
    }
}

fn check_outputs(issues: &mut Vec<MethodWorkflowValidationIssue>, outputs: &Vec<String>, ids: &Vec<String>)
    ensures
        workflow_issues_view(final(issues)@) == workflow_issues_view(old(issues)@) + outputs_pass(
            outputs@,
            views(ids@),
            outputs@.len() as int,
        ),
{
    let ghost s = workflow_issues_view(issues@);
    let mut k: usize = 0;
    assert(s =~= s + outputs_pass(outputs@, views(ids@), 0));
    while k < outputs.len()
        invariant
            k <= outputs@.len(),
            workflow_issues_view(issues@) == s + outputs_pass(outputs@, views(ids@), k as int),
        decreases outputs@.len() - k,
    {
        push_found(
            issues,
            !contains_text(ids, outputs[k].as_str()),
            "unknown_expected_output",
            "expected_output_variables",
            concat("expected output references unknown variable ", outputs[k].as_str()),
        );
        assert(workflow_issues_view(issues@) =~= s + outputs_pass(outputs@, views(ids@), k + 1));
        k = k + 1;
    }
}

/// Checks a version 2 method (see `test_method_issues`).
#[verifier::rlimit(60)]
#[verifier::spinoff_prover]
pub fn validate_test_method_v2(d: &TestMethodDefinitionV2) -> (r: Vec<MethodWorkflowValidationIssue>)
    ensures
        workflow_issues_view(r@) == test_method_issues(*d),
{
    let mut issues: Vec<MethodWorkflowValidationIssue> = Vec::new();
    assert(workflow_issues_view(issues@) =~= Seq::<WorkflowIssueView>::empty());
    check_method_head(&mut issues, d);
    let ghost s0 = workflow_issues_view(issues@);
    let ids = validate_variables(d.variables.as_slice(), &mut issues);
    let ghost s1 = workflow_issues_view(issues@);
    check_locks(&mut issues, &d.lock_policy, &ids);
    let ghost s2 = workflow_issues_view(issues@);
    validate_parameter_profiles(d.parameter_profiles.as_slice(), &ids, &mut issues);
    let ghost s3 = workflow_issues_view(issues@);
    let role_ids = validate_roles(d.functional_roles.as_slice(), ids.as_slice(), &mut issues);
    let ghost s4 = workflow_issues_view(issues@);
    validate_revision_references(
        d.measurement_system_templates.as_slice(),
        "measurement_system_templates",
        &mut issues,
    );
    validate_revision_references(d.regulation_profiles.as_slice(), "regulation_profiles", &mut issues);
    let ghost s5 = workflow_issues_view(issues@);
    check_modulations(&mut issues, &d.modulation_profiles);
    check_sub_ranges(&mut issues, &d.sub_ranges);
    let ghost s6 = workflow_issues_view(issues@);
    validate_procedure(d.procedure.as_slice(), ids.as_slice(), &mut issues);
    validate_limits(d.limits.as_slice(), ids.as_slice(), &mut issues);
    validate_post_processing(d.post_processing.as_slice(), ids.as_slice(), d.limits.as_slice(), &mut issues);
    let ghost s7 = workflow_issues_view(issues@);
    check_outputs(&mut issues, &d.expected_output_variables, &ids);
    push_found(
        &mut issues,
        role_ids.len() == 0,
        "missing_functional_roles",
        "functional_roles",
        "define at least one functional instrumentation role".to_owned(),
    );
    assert(workflow_issues_view(issues@) =~= test_method_issues(*d));
    issues
}

impl TestMethodDefinitionV2 {
    /// Every defect of the method (see `test_method_issues`).
    pub fn validate(&self) -> (r: Vec<MethodWorkflowValidationIssue>)
        ensures
            workflow_issues_view(r@) == test_method_issues(*self),
    {
        validate_test_method_v2(self)
    }
}

} // verus!
