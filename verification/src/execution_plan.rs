//! A dry-run compilation of a method on a measurement system: the phases it would run,
//! the roles, signals and post-processing it needs, and what stops or limits it.

use crate::method_definition::{test_method_issues, TestMethodDefinitionV2};
use crate::method_variables::MethodVariableDefinition;
use crate::method_workflow::{
    flatten_procedure, flattened, post_processing_runtime_supported, procedure_height,
    runtime_supported, template_issues, workflow_issues_view, ExecutionConfigurationDefinition,
    ExecutionPlanNotice, ExecutionPlanPreview, MeasurementSystemTemplateDefinition,
    MethodFunctionalRole, MethodVariableSemantic, MethodWorkflowValidationIssue,
    PostProcessingNode, WorkflowIssueView,
};
use crate::regulation_profile::{regulation_profile_issues, RegulationProfileDefinition};
use crate::sorting::views;
use crate::text::{concat, str_eq};
use vstd::prelude::*;

verus! {

/// A notice as its code, message and next action.
pub open spec fn notice_views(s: Seq<ExecutionPlanNotice>) -> Seq<(Seq<char>, Seq<char>, Seq<char>)> {
    s.map_values(|n: ExecutionPlanNotice| (n.code@, n.message@, n.next_action@))
}

/// Findings as notices that share one next action.
pub open spec fn as_notices(issues: Seq<WorkflowIssueView>, action: Seq<char>) -> Seq<
    (Seq<char>, Seq<char>, Seq<char>),
> {
    issues.map_values(|i: WorkflowIssueView| (i.code, i.message, action))
}

pub open spec fn role_ids(roles: Seq<MethodFunctionalRole>) -> Seq<Seq<char>> {
    roles.map_values(|r: MethodFunctionalRole| r.role_id@)
}

pub open spec fn role_labels(roles: Seq<MethodFunctionalRole>) -> Seq<Seq<char>> {
    roles.map_values(|r: MethodFunctionalRole| r.label@)
}

pub open spec fn profile_ids(profiles: Seq<RegulationProfileDefinition>) -> Seq<Seq<char>> {
    profiles.map_values(|p: RegulationProfileDefinition| p.profile_id@)
}

/// The findings of the first `n` regulation profiles, as notices.
pub open spec fn profile_notices(
    profiles: Seq<RegulationProfileDefinition>,
    vars: Seq<MethodVariableDefinition>,
    roles: Seq<MethodFunctionalRole>,
    n: int,
) -> Seq<(Seq<char>, Seq<char>, Seq<char>)>
    decreases n,
{
    if n <= 0 {
        seq![]
    } else {
        profile_notices(profiles, vars, roles, n - 1) + as_notices(
            regulation_profile_issues(profiles[n - 1], vars, roles),
            "Corriger le profil de régulation."@,
        )
    }
}

/// The roles that a configuration assigns; none without a configuration.
pub open spec fn assigned_roles(configuration: Option<&ExecutionConfigurationDefinition>) -> Seq<Seq<char>> {
    match configuration {
        Some(c) => c.assignments@.map_values(|a: crate::method_workflow::ExecutionAssignmentPin| a.role_id@),
        None => seq![],
    }
}

/// The labels of the first `n` required roles that are not assigned.
pub open spec fn unresolved_labels(roles: Seq<MethodFunctionalRole>, assigned: Seq<Seq<char>>, n: int) -> Seq<
    Seq<char>,
>
    decreases n,
{
    if n <= 0 {
        seq![]
    } else if roles[n - 1].required && !assigned.contains(roles[n - 1].role_id@) {
        unresolved_labels(roles, assigned, n - 1).push(roles[n - 1].label@)
    } else {
        unresolved_labels(roles, assigned, n - 1)
    }
}

pub open spec fn unresolved_notices(labels: Seq<Seq<char>>) -> Seq<(Seq<char>, Seq<char>, Seq<char>)> {
    labels.map_values(|l: Seq<char>|
        (
            "unresolved_execution_role"@,
            "Le rôle obligatoire « "@ + l + " » n'est pas affecté."@,
            "Affecter un exemplaire apte dans la préparation datée."@,
        ))
}

/// The labels of the first `n` post-processing nodes that the runtime cannot run yet.
pub open spec fn unsupported_labels(nodes: Seq<PostProcessingNode>, n: int) -> Seq<Seq<char>>
    decreases n,
{
    if n <= 0 {
        seq![]
    } else if !runtime_supported(nodes[n - 1].node_kind) {
        unsupported_labels(nodes, n - 1).push(nodes[n - 1].label@)
    } else {
        unsupported_labels(nodes, n - 1)
    }
}

pub open spec fn unsupported_notices(labels: Seq<Seq<char>>) -> Seq<(Seq<char>, Seq<char>, Seq<char>)> {
    labels.map_values(|l: Seq<char>|
        (
            "runtime_operation_not_implemented"@,
            l + " : définition disponible, exécution prévue dans une version ultérieure."@,
            "Conserver cette opération comme contrat de traitement."@,
        ))
}

pub open spec fn is_expected_signal(s: MethodVariableSemantic) -> bool {
    s is ObservedSignal || s is MonitoringSignal || s is FinalResult
}

/// The labels of the first `n` variables that are observed or monitored signals or final
/// results.
pub open spec fn signal_labels(vars: Seq<MethodVariableDefinition>, n: int) -> Seq<Seq<char>>
    decreases n,
{
    if n <= 0 {
        seq![]
    } else if is_expected_signal(vars[n - 1].semantic) {
        signal_labels(vars, n - 1).push(vars[n - 1].label@)
    } else {
        signal_labels(vars, n - 1)
    }
}

/// What stops the plan, in order: the method's findings, the system's, each regulation
/// profile's and, with a configuration, each required role left unassigned.
pub open spec fn plan_blockers(
    method: TestMethodDefinitionV2,
    system: MeasurementSystemTemplateDefinition,
    profiles: Seq<RegulationProfileDefinition>,
    configuration: Option<&ExecutionConfigurationDefinition>,
) -> Seq<(Seq<char>, Seq<char>, Seq<char>)> {
    as_notices(test_method_issues(method), "Corriger la définition de méthode."@) + as_notices(
        template_issues(system, role_ids(method.functional_roles@), profile_ids(profiles)),
        "Corriger le système de mesure logique."@,
    ) + profile_notices(profiles, method.variables@, method.functional_roles@, profiles.len() as int)
        + if configuration is Some {
        unresolved_notices(
            unresolved_labels(
                method.functional_roles@,
                assigned_roles(configuration),
                method.functional_roles@.len() as int,
            ),
        )
    } else {
        seq![]
    }
}

/// `p` is the plan of the method on the system, field by field.
pub open spec fn plan_of(
    p: ExecutionPlanPreview,
    method: TestMethodDefinitionV2,
    system: MeasurementSystemTemplateDefinition,
    profiles: Seq<RegulationProfileDefinition>,
    configuration: Option<&ExecutionConfigurationDefinition>,
) -> bool {
    let roles = method.functional_roles@;
    &&& p.method_title == method.title
    &&& p.system_template_label == system.label
    &&& p.ordered_phases@ == flattened(method.procedure@, 0)
    &&& views(p.required_roles@) == role_labels(roles)
    &&& views(p.unresolved_roles@) == unresolved_labels(roles, assigned_roles(configuration), roles.len() as int)
    &&& views(p.regulation_loops@) == system.regulation_loops@.map_values(
        |m: crate::method_workflow::RegulationLoopMapping| m.label@,
    )
    &&& views(p.expected_signals@) == signal_labels(method.variables@, method.variables@.len() as int)
    &&& views(p.post_processing_requests@) == method.post_processing@.map_values(
        |n: PostProcessingNode| n.label@,
    )
    &&& notice_views(p.blockers@) == plan_blockers(method, system, profiles, configuration)
    &&& notice_views(p.warnings@) == unsupported_notices(
        unsupported_labels(method.post_processing@, method.post_processing@.len() as int),
    )
    &&& views(p.unsupported_runtime_operations@) == unsupported_labels(
        method.post_processing@,
        method.post_processing@.len() as int,
    )
}


fn push_notices(out: &mut Vec<ExecutionPlanNotice>, issues: &Vec<MethodWorkflowValidationIssue>, action: &str)
    ensures
        notice_views(final(out)@) == notice_views(old(out)@) + as_notices(
            workflow_issues_view(issues@),
            action@,
        ),
{
    let ghost start = notice_views(out@);
    let mut i: usize = 0;
    while i < issues.len()
        invariant
            i <= issues@.len(),
            out@.len() == start.len() + i,
            forall|j: int| 0 <= j < start.len() ==> notice_views(out@)[j] == start[j],
            forall|j: int|
                0 <= j < i ==> notice_views(out@)[start.len() + j] == (
                    issues@[j].code@,
                    issues@[j].message@,
                    action@,
                ),
        decreases issues@.len() - i,
    {
        out.push(
            ExecutionPlanNotice {
                code: issues[i].code.clone(),
                message: issues[i].message.clone(),
                next_action: action.to_owned(),
            },
        );
        i = i + 1;
    }
    assert(notice_views(out@) =~= notice_views(old(out)@) + as_notices(workflow_issues_view(issues@), action@));
}

fn role_id_list(roles: &Vec<MethodFunctionalRole>) -> (r: Vec<String>)
    ensures
        views(r@) == role_ids(roles@),
{
    let mut r: Vec<String> = Vec::new();
    let mut i: usize = 0;
    while i < roles.len()
        invariant
            i <= roles@.len(),
            r@.len() == i,
            forall|j: int| 0 <= j < i ==> (#[trigger] r@[j])@ == roles@[j].role_id@,
        decreases roles@.len() - i,
    {
        r.push(roles[i].role_id.clone());
        i = i + 1;
    }
    assert(views(r@) =~= role_ids(roles@));
    r
}

fn role_label_list(roles: &Vec<MethodFunctionalRole>) -> (r: Vec<String>)
    ensures
        views(r@) == role_labels(roles@),
{
    let mut r: Vec<String> = Vec::new();
    let mut i: usize = 0;
    while i < roles.len()
        invariant
            i <= roles@.len(),
            r@.len() == i,
            forall|j: int| 0 <= j < i ==> (#[trigger] r@[j])@ == roles@[j].label@,
        decreases roles@.len() - i,
    {
        r.push(roles[i].label.clone());
        i = i + 1;
    }
    assert(views(r@) =~= role_labels(roles@));
    r
}

fn profile_id_list(profiles: &[RegulationProfileDefinition]) -> (r: Vec<String>)
    ensures
        views(r@) == profile_ids(profiles@),
{
    let mut r: Vec<String> = Vec::new();
    let mut i: usize = 0;
    while i < profiles.len()
        invariant
            i <= profiles@.len(),
            r@.len() == i,
            forall|j: int| 0 <= j < i ==> (#[trigger] r@[j])@ == profiles@[j].profile_id@,
        decreases profiles@.len() - i,
    {
        r.push(profiles[i].profile_id.clone());
        i = i + 1;
    }
    assert(views(r@) =~= profile_ids(profiles@));
    r
}

fn assigned_role_list(configuration: Option<&ExecutionConfigurationDefinition>) -> (r: Vec<String>)
    ensures
        views(r@) == assigned_roles(configuration),
{
    let mut r: Vec<String> = Vec::new();
    match configuration {
        None => {
            assert(views(r@) =~= assigned_roles(configuration));
        },
        Some(c) => {
            let mut i: usize = 0;
            while i < c.assignments.len()
                invariant
                    i <= c.assignments@.len(),
                    r@.len() == i,
                    forall|j: int| 0 <= j < i ==> (#[trigger] r@[j])@ == c.assignments@[j].role_id@,
                decreases c.assignments@.len() - i,
            {
                r.push(c.assignments[i].role_id.clone());
                i = i + 1;
            }
            assert(views(r@) =~= assigned_roles(configuration));
        },
    }
    r
}

fn listed(ids: &Vec<String>, id: &str) -> (b: bool)
    ensures
        b == views(ids@).contains(id@),
{
    let mut i: usize = 0;
    while i < ids.len()
        invariant
            i <= ids@.len(),
            forall|j: int| 0 <= j < i ==> (#[trigger] ids@[j])@ != id@,
        decreases ids@.len() - i,
    {
        if str_eq(ids[i].as_str(), id) {
            assert(views(ids@)[i as int] == id@);
            return true;
        }
        i = i + 1;
    }
    assert(!views(ids@).contains(id@)) by {
        if views(ids@).contains(id@) {
            let j = choose|j: int| 0 <= j < views(ids@).len() && views(ids@)[j] == id@;
            assert(ids@[j]@ == id@);
        }
    }
    false
}

fn unresolved_role_labels(roles: &Vec<MethodFunctionalRole>, assigned: &Vec<String>) -> (r: Vec<String>)
    ensures
        views(r@) == unresolved_labels(roles@, views(assigned@), roles@.len() as int),
{
    let mut r: Vec<String> = Vec::new();
    let mut i: usize = 0;
    while i < roles.len()
        invariant
            i <= roles@.len(),
            views(r@) == unresolved_labels(roles@, views(assigned@), i as int),
        decreases roles@.len() - i,
    {
        if roles[i].required && !listed(assigned, roles[i].role_id.as_str()) {
            r.push(roles[i].label.clone());
        }
        i = i + 1;
        assert(views(r@) =~= unresolved_labels(roles@, views(assigned@), i as int));
    }
    r
}

fn unresolved_role_notices(out: &mut Vec<ExecutionPlanNotice>, labels: &Vec<String>)
    ensures
        notice_views(final(out)@) == notice_views(old(out)@) + unresolved_notices(views(labels@)),
{
    let ghost start = notice_views(out@);
    let mut i: usize = 0;
    while i < labels.len()
        invariant
            i <= labels@.len(),
            out@.len() == start.len() + i,
            forall|j: int| 0 <= j < start.len() ==> notice_views(out@)[j] == start[j],
            forall|j: int|
                0 <= j < i ==> notice_views(out@)[start.len() + j] == (
                    "unresolved_execution_role"@,
                    "Le rôle obligatoire « "@ + labels@[j]@ + " » n'est pas affecté."@,
                    "Affecter un exemplaire apte dans la préparation datée."@,
                ),
        decreases labels@.len() - i,
    {
        let message = concat(
            concat("Le rôle obligatoire « ", labels[i].as_str()).as_str(),
            " » n'est pas affecté.",
        );
        out.push(
            ExecutionPlanNotice {
                code: "unresolved_execution_role".to_owned(),
                message,
                next_action: "Affecter un exemplaire apte dans la préparation datée.".to_owned(),
            },
        );
        i = i + 1;
    }
    assert(notice_views(out@) =~= notice_views(old(out)@) + unresolved_notices(views(labels@)));
}

fn unsupported_operation_labels(nodes: &Vec<PostProcessingNode>) -> (r: Vec<String>)
    ensures
        views(r@) == unsupported_labels(nodes@, nodes@.len() as int),
{
    let mut r: Vec<String> = Vec::new();
    let mut i: usize = 0;
    while i < nodes.len()
        invariant
            i <= nodes@.len(),
            views(r@) == unsupported_labels(nodes@, i as int),
        decreases nodes@.len() - i,
    {
        if !post_processing_runtime_supported(&nodes[i].node_kind) {
            r.push(nodes[i].label.clone());
        }
        i = i + 1;
        assert(views(r@) =~= unsupported_labels(nodes@, i as int));
    }
    r
}

fn unsupported_operation_notices(labels: &Vec<String>) -> (r: Vec<ExecutionPlanNotice>)
    ensures
        notice_views(r@) == unsupported_notices(views(labels@)),
{
    let mut r: Vec<ExecutionPlanNotice> = Vec::new();
    let mut i: usize = 0;
    while i < labels.len()
        invariant
            i <= labels@.len(),
            r@.len() == i,
            forall|j: int|
                0 <= j < i ==> (#[trigger] r@[j]).code@ == "runtime_operation_not_implemented"@
                    && r@[j].message@ == labels@[j]@
                    + " : définition disponible, exécution prévue dans une version ultérieure."@
                    && r@[j].next_action@ == "Conserver cette opération comme contrat de traitement."@,
        decreases labels@.len() - i,
    {
        r.push(
            ExecutionPlanNotice {
                code: "runtime_operation_not_implemented".to_owned(),
                message: concat(
                    labels[i].as_str(),
                    " : définition disponible, exécution prévue dans une version ultérieure.",
                ),
                next_action: "Conserver cette opération comme contrat de traitement.".to_owned(),
            },
        );
        i = i + 1;
    }
    assert(notice_views(r@) =~= unsupported_notices(views(labels@)));
    r
}

fn expected_signal_labels(vars: &Vec<MethodVariableDefinition>) -> (r: Vec<String>)
    ensures
        views(r@) == signal_labels(vars@, vars@.len() as int),
{
    let mut r: Vec<String> = Vec::new();
    let mut i: usize = 0;
    while i < vars.len()
        invariant
            i <= vars@.len(),
            views(r@) == signal_labels(vars@, i as int),
        decreases vars@.len() - i,
    {
        let signal = match vars[i].semantic {
            MethodVariableSemantic::ObservedSignal => true,
            MethodVariableSemantic::MonitoringSignal => true,
            MethodVariableSemantic::FinalResult => true,
            _ => false,
        };
        if signal {
            r.push(vars[i].label.clone());
        }
        i = i + 1;
        assert(views(r@) =~= signal_labels(vars@, i as int));
    }
    r
}


fn loop_labels(system: &MeasurementSystemTemplateDefinition) -> (r: Vec<String>)
    ensures
        views(r@) == system.regulation_loops@.map_values(
            |m: crate::method_workflow::RegulationLoopMapping| m.label@,
        ),
{
    let mut r: Vec<String> = Vec::new();
    let mut i: usize = 0;
    while i < system.regulation_loops.len()
        invariant
            i <= system.regulation_loops@.len(),
            r@.len() == i,
            forall|j: int| 0 <= j < i ==> (#[trigger] r@[j])@ == system.regulation_loops@[j].label@,
        decreases system.regulation_loops@.len() - i,
    {
        r.push(system.regulation_loops[i].label.clone());
        i = i + 1;
    }
    assert(views(r@) =~= system.regulation_loops@.map_values(
        |m: crate::method_workflow::RegulationLoopMapping| m.label@,
    ));
    r
}

fn operation_labels(nodes: &Vec<PostProcessingNode>) -> (r: Vec<String>)
    ensures
        views(r@) == nodes@.map_values(|n: PostProcessingNode| n.label@),
{
    let mut r: Vec<String> = Vec::new();
    let mut i: usize = 0;
    while i < nodes.len()
        invariant
            i <= nodes@.len(),
            r@.len() == i,
            forall|j: int| 0 <= j < i ==> (#[trigger] r@[j])@ == nodes@[j].label@,
        decreases nodes@.len() - i,
    {
        r.push(nodes[i].label.clone());
        i = i + 1;
    }
    assert(views(r@) =~= nodes@.map_values(|n: PostProcessingNode| n.label@));
    r
}

/// Compiles a method on a measurement system, without running anything (see `plan_of`):
/// the plan lists the procedure's phases in order with their depth, the roles, regulation
/// loops, expected signals and post-processing, what blocks an execution and the
/// operations that the runtime cannot perform yet.
#[verifier::rlimit(60)]
#[verifier::spinoff_prover]
pub fn compile_execution_plan(
    method: &TestMethodDefinitionV2,
    system: &MeasurementSystemTemplateDefinition,
    regulation_profiles: &[RegulationProfileDefinition],
    configuration: Option<&ExecutionConfigurationDefinition>,
) -> (p: ExecutionPlanPreview)
    requires
        procedure_height(method.procedure@) <= u32::MAX,
    ensures
        plan_of(p, *method, *system, regulation_profiles@, configuration),
{
    let mut blockers: Vec<ExecutionPlanNotice> = Vec::new();
    assert(notice_views(blockers@) =~= Seq::<(Seq<char>, Seq<char>, Seq<char>)>::empty());
    let method_issues = method.validate();
    push_notices(&mut blockers, &method_issues, "Corriger la définition de méthode.");
    let method_role_ids = role_id_list(&method.functional_roles);
    let profile_id_texts = profile_id_list(regulation_profiles);
    let system_issues = system.validate(method_role_ids.as_slice(), profile_id_texts.as_slice());
    push_notices(&mut blockers, &system_issues, "Corriger le système de mesure logique.");
    let ghost s = notice_views(blockers@);
    let mut k: usize = 0;
    while k < regulation_profiles.len()
        invariant
            k <= regulation_profiles@.len(),
            notice_views(blockers@) == s + profile_notices(
                regulation_profiles@,
                method.variables@,
                method.functional_roles@,
                k as int,
            ),
        decreases regulation_profiles@.len() - k,
    {
        let profile_issues = regulation_profiles[k].validate(
            method.variables.as_slice(),
            method.functional_roles.as_slice(),
        );
        push_notices(&mut blockers, &profile_issues, "Corriger le profil de régulation.");
        k = k + 1;
        assert(notice_views(blockers@) =~= s + profile_notices(
            regulation_profiles@,
            method.variables@,
            method.functional_roles@,
            k as int,
        ));
    }
    let assigned = assigned_role_list(configuration);
    let unresolved_roles = unresolved_role_labels(&method.functional_roles, &assigned);
    let ghost s2 = notice_views(blockers@);
    if configuration.is_some() {
        unresolved_role_notices(&mut blockers, &unresolved_roles);
    }
    assert(notice_views(blockers@) =~= plan_blockers(*method, *system, regulation_profiles@, configuration));
    let unsupported_runtime_operations = unsupported_operation_labels(&method.post_processing);
    let warnings = unsupported_operation_notices(&unsupported_runtime_operations);
    let mut ordered_phases: Vec<crate::method_workflow::ExecutionPlanPhase> = Vec::new();
    flatten_procedure(method.procedure.as_slice(), 0, &mut ordered_phases);
    assert(ordered_phases@ =~= flattened(method.procedure@, 0));
    ExecutionPlanPreview {
        method_title: method.title.clone(),
        system_template_label: system.label.clone(),
        ordered_phases,
        required_roles: role_label_list(&method.functional_roles),
        unresolved_roles,
        regulation_loops: loop_labels(system),
        expected_signals: expected_signal_labels(&method.variables),
        post_processing_requests: operation_labels(&method.post_processing),
        blockers,
        warnings,
        unsupported_runtime_operations,
    }
}

} // verus!
