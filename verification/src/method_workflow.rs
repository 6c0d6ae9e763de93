//! Test method workflow: the method hierarchy, measurement system topology, procedure,
//! limits and post-processing vocabulary, and the checks of the method hierarchy.

use crate::planned_test_preparation::{canonical_checksum, is_canonical_checksum};
use crate::sorting::{sort_distinct, sorted_distinct, views};
use crate::station_setup::{parse_unsigned, parsed_unsigned};
use crate::test_definitions::PostProcessingOperationType;
use crate::text::{
    all_identifier_characters, all_identifier_chars, concat, optional_view, str_eq, trim,
    trim_seq,
};
use vstd::prelude::*;
use vstd::utf8::encode_utf8;

verus! {

/// The schema of version 2 test method definitions.
pub const TEST_METHOD_DEFINITION_SCHEMA_VERSION: &'static str = "emc-locus.test-method-definition.v2";

/// The schema of measurement system template definitions.
pub const MEASUREMENT_SYSTEM_TEMPLATE_SCHEMA_VERSION: &'static str = "emc-locus.measurement-system-template-definition.v1";

/// The schema of regulation profile definitions.
pub const REGULATION_PROFILE_SCHEMA_VERSION: &'static str = "emc-locus.regulation-profile-definition.v1";

/// The schema of execution configurations.
pub const EXECUTION_CONFIGURATION_SCHEMA_VERSION: &'static str = "emc-locus.execution-configuration.v1";

#[derive(Clone, Debug, PartialEq, Eq)]
pub enum MethodHierarchyNodeKind {
    Domain,
    TestFamily,
    SourceDocument,
    ApplicableEdition,
    Procedure,
    MethodVariant,
    ParameterProfile,
    SubRangeProfile,
}

/// A node of the tree that files test methods, under its parent, at a position among its
/// siblings.
#[derive(Clone, Debug, PartialEq, Eq)]
pub struct MethodHierarchyNode {
    pub node_id: String,
    pub parent_node_id: Option<String>,
    pub node_kind: MethodHierarchyNodeKind,
    pub label: String,
    pub position: u32,
    pub archived: bool,
}

#[derive(Clone, Copy, Debug, PartialEq, Eq, Structural)]
pub enum MethodVariableSemantic {
    MethodParameter,
    ProjectEutInput,
    OperatorInput,
    DerivedValue,
    Setpoint,
    ObservedSignal,
    MonitoringSignal,
    IntermediateResult,
    FinalResult,
    VerdictOutput,
}

#[derive(Clone, Copy, Debug, PartialEq, Eq, PartialOrd, Ord)]
pub enum AvailabilityPhase {
    Definition,
    Preparation,
    Preflight,
    Execution,
    PostProcessing,
    Verdict,
}

#[derive(Clone, Copy, Debug, PartialEq, Eq, Structural)]
pub enum QuantityDimension {
    Dimensionless,
    Frequency,
    Time,
    Voltage,
    Current,
    Power,
    ElectricFieldStrength,
    MagneticFieldStrength,
    Ratio,
    Text,
    Boolean,
}

#[derive(Clone, Debug, PartialEq, Eq)]
pub enum MethodCalibrationPolicy {
    Required,
    IfUsed,
    NotRequired,
}

#[derive(Clone, Debug, PartialEq, Eq)]
pub enum MethodSubstitutionPolicy {
    NoSubstitution,
    SameExactModel,
    SameCategory,
    SameCapabilities,
    ApprovedEquivalent,
}

#[derive(Clone, Debug, PartialEq, Eq)]
pub enum RoleAssignmentStage {
    MethodDefinition,
    SystemTemplate,
    PlannedTestPreparation,
}

#[derive(Clone, Copy, Debug, PartialEq, Eq, Structural)]
pub enum TopologyEdgeKind {
    PhysicalSignal,
    ExcitationOrPower,
    ControlCommand,
    FeedbackMeasurement,
    Monitoring,
    Trigger,
    Synchronization,
    DataStream,
    EutState,
}

/// A port of a node of the measurement system.
#[derive(Clone, Debug, PartialEq, Eq, PartialOrd, Ord)]
pub struct TopologyPortEndpoint {
    pub node_id: String,
    pub port_id: String,
}

/// A link of the measurement system, from one port to another.
#[derive(Clone, Debug, PartialEq, Eq)]
pub struct MeasurementSystemEdge {
    pub edge_id: String,
    pub label: String,
    pub edge_kind: TopologyEdgeKind,
    pub from: TopologyPortEndpoint,
    pub to: TopologyPortEndpoint,
}

/// Where a correction applies to a signal of the measurement system.
#[derive(Clone, Debug, PartialEq, Eq)]
pub struct CorrectionPointDefinition {
    pub correction_point_id: String,
    pub label: String,
    pub node_id: String,
    pub signal_variable_id: String,
    pub correction_kind: String,
}

/// A regulation loop of the measurement system: actuator, feedback and monitors.
#[derive(Clone, Debug, PartialEq, Eq)]
pub struct RegulationLoopMapping {
    pub loop_id: String,
    pub label: String,
    pub regulation_profile_id: String,
    pub actuator_node_id: String,
    pub feedback_node_id: String,
    pub monitoring_node_ids: Vec<String>,
}

#[derive(Clone, Debug, PartialEq, Eq)]
pub enum MeasurementSystemTemplateStatus {
    Draft,
    Validated,
    Approved,
    Superseded,
    Archived,
}

#[derive(Clone, Debug, PartialEq, Eq)]
pub enum RegulationControlMode {
    OpenLoop,
    ClosedLoop,
    MonitorOnly,
}

/// How often a step may be retried, and what happens then.
#[derive(Clone, Debug, PartialEq, Eq)]
pub struct RetryPolicy {
    pub maximum_attempts: u32,
    pub on_exhaustion: String,
}

#[derive(Clone, Debug, PartialEq, Eq)]
pub enum ProcedureNodeKind {
    Preparation,
    Verification,
    Calibration,
    Phase,
    SubRange,
    Loop,
    Sweep,
    SetEutState,
    SetOrientation,
    SetPolarization,
    ApplySetpoint,
    Regulate,
    Dwell,
    Acquire,
    Monitor,
    OperatorAction,
    Decision,
    Repeat,
    Finalize,
    SafeShutdown,
}

#[derive(Clone, Debug, PartialEq, Eq)]
pub enum ProcedureFailurePolicy {
    Stop,
    SafeShutdown,
    ContinueWithWarning,
    OperatorDecision,
}

#[derive(Clone, Debug, PartialEq, Eq)]
pub enum SweepDirection {
    Increasing,
    Decreasing,
}

#[derive(Clone, Debug, PartialEq, Eq)]
pub enum LimitClassification {
    Safety,
    InstrumentProtection,
    ProcedureAcceptance,
    EutPerformance,
    UncertaintyHandling,
    Warning,
}

#[derive(Clone, Debug, PartialEq, Eq)]
pub enum LimitComparison {
    LessThan,
    LessThanOrEqual,
    GreaterThan,
    GreaterThanOrEqual,
    InsideBand,
    OutsideBand,
}

#[derive(Clone, Debug, PartialEq, Eq)]
pub enum LimitAction {
    Warn,
    Abort,
    SafeShutdown,
    MarkNonconforming,
    RequestOperatorDecision,
}

#[derive(Clone, Debug, PartialEq, Eq)]
pub enum PostProcessingNodeKind {
    CorrectionApplication,
    UnitConversion,
    Interpolation,
    Detector,
    Window,
    FftRequest,
    Smoothing,
    Aggregation,
    MaximumSearch,
    Average,
    PeakHold,
    LimitComparison,
    UncertaintyContribution,
    ResultExport,
    ReportField,
}

/// An exact revision of a versioned definition, with its checksum.
#[derive(Clone, Debug, PartialEq, Eq)]
pub struct RevisionReference {
    pub identity_id: String,
    pub revision_id: String,
    pub definition_checksum: String,
}

/// A method definition in canonical form, with its checksum.
#[derive(Clone, Debug, PartialEq, Eq)]
pub struct CanonicalMethodDefinition {
    pub definition_schema_version: String,
    pub canonical_json: String,
    pub definition_checksum: String,
}

/// A defect of a method workflow definition, located by its path.
#[derive(Clone, Debug, PartialEq, Eq)]
pub struct MethodWorkflowValidationIssue {
    pub code: String,
    pub path: String,
    pub message: String,
}

/// The exact material revision pinned to a role requirement for an execution.
#[derive(Clone, Debug, PartialEq, Eq)]
pub struct ExecutionAssignmentPin {
    pub role_id: String,
    pub requirement_id: String,
    pub asset_id: String,
    pub asset_revision: String,
    pub equipment_model_revision_id: String,
    pub equipment_model_checksum: String,
}

/// A phase of an execution plan, at its depth in the procedure.
#[derive(Clone, Debug, PartialEq, Eq)]
pub struct ExecutionPlanPhase {
    pub node_id: String,
    pub label: String,
    pub node_kind: ProcedureNodeKind,
    pub depth: u32,
    pub maximum_iterations: Option<u32>,
}

/// A blocker or warning of an execution plan.
#[derive(Clone, Debug, PartialEq, Eq)]
pub struct ExecutionPlanNotice {
    pub code: String,
    pub message: String,
    pub next_action: String,
}

/// What an execution of a method on a measurement system would do, and what stops it.
#[derive(Clone, Debug, PartialEq)]
pub struct ExecutionPlanPreview {
    pub method_title: String,
    pub system_template_label: String,
    pub ordered_phases: Vec<ExecutionPlanPhase>,
    pub required_roles: Vec<String>,
    pub unresolved_roles: Vec<String>,
    pub regulation_loops: Vec<String>,
    pub expected_signals: Vec<String>,
    pub post_processing_requests: Vec<String>,
    pub blockers: Vec<ExecutionPlanNotice>,
    pub warnings: Vec<ExecutionPlanNotice>,
    pub unsupported_runtime_operations: Vec<String>,
}

// ---------------------------------------------------------------------------
// Checks of the method hierarchy
// ---------------------------------------------------------------------------

pub struct WorkflowIssueView {
    pub code: Seq<char>,
    pub path: Seq<char>,
    pub message: Seq<char>,
}

impl View for MethodWorkflowValidationIssue {
    type V = WorkflowIssueView;

    open spec fn view(&self) -> WorkflowIssueView {
        WorkflowIssueView { code: self.code@, path: self.path@, message: self.message@ }
    }
}

pub open spec fn workflow_issues_view(s: Seq<MethodWorkflowValidationIssue>) -> Seq<
    WorkflowIssueView,
> {
    s.map_values(|x: MethodWorkflowValidationIssue| x@)
}

pub open spec fn wissue(code: &str, path: &str, message: Seq<char>) -> WorkflowIssueView {
    WorkflowIssueView { code: code@, path: path@, message }
}

pub open spec fn when_found(cond: bool, issue: WorkflowIssueView) -> Seq<WorkflowIssueView> {
    if cond {
        seq![issue]
    } else {
        seq![]
    }
}

/// A stable token: non-empty, at most 120 bytes, of ASCII letters, digits, `_`, `-`, `.`.
pub open spec fn stable_token(v: Seq<char>) -> bool {
    v.len() > 0 && encode_utf8(v).len() <= 120 && all_identifier_chars(v)
}

pub fn valid_token(v: &str) -> (b: bool)
    ensures
        b == stable_token(v@),
{
    !v.is_empty() && v.as_bytes().len() <= 120 && all_identifier_characters(v)
}

pub open spec fn id_seen_before(nodes: Seq<MethodHierarchyNode>, i: int) -> bool {
    exists|j: int| 0 <= j < i && (#[trigger] nodes[j]).node_id@ == nodes[i].node_id@
}

pub open spec fn position_seen_before(nodes: Seq<MethodHierarchyNode>, i: int) -> bool {
    exists|j: int|
        0 <= j < i && optional_view((#[trigger] nodes[j]).parent_node_id) == optional_view(
            nodes[i].parent_node_id,
        ) && nodes[j].position == nodes[i].position
}

/// The checks of the node at `i` against itself and the nodes before it.
pub open spec fn node_checks(nodes: Seq<MethodHierarchyNode>, i: int) -> Seq<WorkflowIssueView> {
    when_found(
        !stable_token(nodes[i].node_id@),
        wissue(
            "invalid_hierarchy_node_id",
            "hierarchy[].node_id",
            "hierarchy node IDs must be stable ASCII tokens"@,
        ),
    ) + when_found(
        id_seen_before(nodes, i),
        wissue(
            "duplicate_hierarchy_node_id",
            "hierarchy",
            "duplicate hierarchy node: "@ + nodes[i].node_id@,
        ),
    ) + when_found(
        trim_seq(nodes[i].label@).len() == 0,
        wissue("missing_hierarchy_label", "hierarchy[].label", "hierarchy node label is required"@),
    ) + when_found(
        position_seen_before(nodes, i),
        wissue(
            "duplicate_hierarchy_position",
            "hierarchy[].position",
            "siblings must have deterministic positions"@,
        ),
    )
}

pub open spec fn node_pass(nodes: Seq<MethodHierarchyNode>, n: int) -> Seq<WorkflowIssueView>
    decreases n,
{
    if n <= 0 {
        seq![]
    } else {
        node_pass(nodes, n - 1) + node_checks(nodes, n - 1)
    }
}

pub open spec fn has_node(nodes: Seq<MethodHierarchyNode>, id: Seq<char>) -> bool {
    exists|j: int| 0 <= j < nodes.len() && (#[trigger] nodes[j]).node_id@ == id
}

/// A finding for each of the first `n` nodes whose parent is not a node.
pub open spec fn parent_pass(nodes: Seq<MethodHierarchyNode>, n: int) -> Seq<WorkflowIssueView>
    decreases n,
{
    if n <= 0 {
        seq![]
    } else {
        parent_pass(nodes, n - 1) + match nodes[n - 1].parent_node_id {
            Some(p) => when_found(
                !has_node(nodes, p@),
                wissue(
                    "unknown_hierarchy_parent",
                    "hierarchy[].parent_node_id",
                    "unknown hierarchy parent: "@ + p@,
                ),
            ),
            None => seq![],
        }
    }
}

/// The last node with the identifier.
pub open spec fn last_node_for(nodes: Seq<MethodHierarchyNode>, id: Seq<char>) -> Option<int>
    decreases nodes.len(),
{
    if nodes.len() == 0 {
        None
    } else if nodes.last().node_id@ == id {
        Some(nodes.len() - 1)
    } else {
        last_node_for(nodes.drop_last(), id)
    }
}

/// The parent recorded for an identifier (by its last node), if any.
pub open spec fn parent_of(nodes: Seq<MethodHierarchyNode>, id: Seq<char>) -> Option<Seq<char>> {
    match last_node_for(nodes, id) {
        Some(j) => optional_view(nodes[j].parent_node_id),
        None => None,
    }
}

/// The `k`-th identifier met when climbing from `start` through the parents.
pub open spec fn climb(nodes: Seq<MethodHierarchyNode>, start: Seq<char>, k: nat) -> Option<
    Seq<char>,
>
    decreases k,
{
    if k == 0 {
        Some(start)
    } else {
        match climb(nodes, start, (k - 1) as nat) {
            Some(id) => parent_of(nodes, id),
            None => None,
        }
    }
}

/// The climb meets at step `k` an identifier it met before.
pub open spec fn meets_again(nodes: Seq<MethodHierarchyNode>, start: Seq<char>, k: int) -> bool {
    climb(nodes, start, k as nat) is Some && exists|j: int|
        0 <= j < k && #[trigger] climb(nodes, start, j as nat) == climb(nodes, start, k as nat)
}

/// The first step, from `k` on and up to the number of nodes, at which the climb from
/// `start` meets an identifier again; none when it reaches a root first.
pub open spec fn first_return(nodes: Seq<MethodHierarchyNode>, start: Seq<char>, k: int) -> Option<
    int,
>
    decreases nodes.len() + 1 - k,
{
    if k < 0 || k > nodes.len() {
        None
    } else if climb(nodes, start, k as nat) is None {
        None
    } else if meets_again(nodes, start, k) {
        Some(k)
    } else {
        first_return(nodes, start, k + 1)
    }
}

/// A finding for each of the first `n` nodes whose climb comes back on itself, naming
/// the identifier met again.
pub open spec fn cycle_pass(nodes: Seq<MethodHierarchyNode>, n: int) -> Seq<WorkflowIssueView>
    decreases n,
{
    if n <= 0 {
        seq![]
    } else {
        let start = nodes[n - 1].node_id@;
        cycle_pass(nodes, n - 1) + match first_return(nodes, start, 0) {
            Some(k) => seq![
                wissue(
                    "method_hierarchy_cycle",
                    "hierarchy",
                    "hierarchy cycle includes "@ + climb(nodes, start, k as nat).unwrap(),
                ),
            ],
            None => seq![],
        }
    }
}

/// Every defect of a method hierarchy: first each node's own checks, then unknown
/// parents, then cycles.
pub open spec fn hierarchy_issues(nodes: Seq<MethodHierarchyNode>) -> Seq<WorkflowIssueView> {
    node_pass(nodes, nodes.len() as int) + parent_pass(nodes, nodes.len() as int) + cycle_pass(
        nodes,
        nodes.len() as int,
    )
}

pub(crate) fn workflow_issue(code: &str, path: &str, message: String) -> (r: MethodWorkflowValidationIssue)
    ensures
        r@ == wissue(code, path, message@),
{
    MethodWorkflowValidationIssue { code: code.to_owned(), path: path.to_owned(), message }
}

pub(crate) fn push_found(
    issues: &mut Vec<MethodWorkflowValidationIssue>,
    cond: bool,
    code: &str,
    path: &str,
    message: String,
)
    ensures
        workflow_issues_view(final(issues)@) == workflow_issues_view(old(issues)@) + when_found(
            cond,
            wissue(code, path, message@),
        ),
{
    let ghost before = workflow_issues_view(issues@);
    if cond {
        issues.push(workflow_issue(code, path, message));
    }
    assert(workflow_issues_view(issues@) =~= before + when_found(cond, wissue(code, path, message@)));
}

fn check_node(issues: &mut Vec<MethodWorkflowValidationIssue>, nodes: &[MethodHierarchyNode], i: usize)
    requires
        i < nodes@.len(),
    ensures
        workflow_issues_view(final(issues)@) == workflow_issues_view(old(issues)@) + node_checks(
            nodes@,
            i as int,
        ),
{
    let ghost before = workflow_issues_view(issues@);
    let node = &nodes[i];
    push_found(
        issues,
        !valid_token(node.node_id.as_str()),
        "invalid_hierarchy_node_id",
        "hierarchy[].node_id",
        "hierarchy node IDs must be stable ASCII tokens".to_owned(),
    );
    let mut id_seen = false;
    let mut position_seen = false;
    let mut j: usize = 0;
    while j < i
        invariant
            i < nodes@.len(),
            j <= i,
            node == &nodes@[i as int],
            id_seen == exists|k: int| 0 <= k < j && (#[trigger] nodes@[k]).node_id@
                == nodes@[i as int].node_id@,
            position_seen == exists|k: int|
                0 <= k < j && optional_view((#[trigger] nodes@[k]).parent_node_id)
                    == optional_view(nodes@[i as int].parent_node_id) && nodes@[k].position
                    == nodes@[i as int].position,
        decreases i - j,
    {
        let other = &nodes[j];
        if str_eq(other.node_id.as_str(), node.node_id.as_str()) {
            id_seen = true;
        }
        let same_parent = match (&other.parent_node_id, &node.parent_node_id) {
            (Some(a), Some(b)) => str_eq(a.as_str(), b.as_str()),
            (None, None) => true,
            _ => false,
        };
        if same_parent && other.position == node.position {
            position_seen = true;
        }
        j = j + 1;
    }
    push_found(
        issues,
        id_seen,
        "duplicate_hierarchy_node_id",
        "hierarchy",
        concat("duplicate hierarchy node: ", node.node_id.as_str()),
    );
    let label = trim(node.label.as_str());
    push_found(
        issues,
        label.as_str().is_empty(),
        "missing_hierarchy_label",
        "hierarchy[].label",
        "hierarchy node label is required".to_owned(),
    );
    push_found(
        issues,
        position_seen,
        "duplicate_hierarchy_position",
        "hierarchy[].position",
        "siblings must have deterministic positions".to_owned(),
    );
    assert(workflow_issues_view(issues@) =~= before + node_checks(nodes@, i as int));
}

fn contains_node(nodes: &[MethodHierarchyNode], id: &String) -> (b: bool)
    ensures
        b == has_node(nodes@, id@),
{
    let mut k: usize = 0;
    while k < nodes.len()
        invariant
            k <= nodes@.len(),
            forall|j: int| 0 <= j < k ==> (#[trigger] nodes@[j]).node_id@ != id@,
        decreases nodes@.len() - k,
    {
        if str_eq(nodes[k].node_id.as_str(), id.as_str()) {
            return true;
        }
        k = k + 1;
    }
    false
}

fn last_node_index(nodes: &[MethodHierarchyNode], id: &String) -> (r: Option<usize>)
    ensures
        match r {
            Some(k) => last_node_for(nodes@, id@) == Some(k as int) && k < nodes@.len(),
            None => last_node_for(nodes@, id@) is None,
        },
{
    let mut k: usize = nodes.len();
    assert(nodes@.take(k as int) =~= nodes@);
    while k > 0
        invariant
            k <= nodes@.len(),
            last_node_for(nodes@, id@) == last_node_for(nodes@.take(k as int), id@),
        decreases k,
    {
        let ghost prefix = nodes@.take(k as int);
        assert(prefix.drop_last() =~= nodes@.take(k - 1));
        if str_eq(nodes[k - 1].node_id.as_str(), id.as_str()) {
            return Some(k - 1);
        }
        k = k - 1;
    }
    None
}

fn parent_lookup(nodes: &[MethodHierarchyNode], id: &String) -> (r: Option<String>)
    ensures
        optional_view(r) == parent_of(nodes@, id@),
{
    match last_node_index(nodes, id) {
        Some(j) => match &nodes[j].parent_node_id {
            Some(p) => Some(p.clone()),
            None => None,
        },
        None => None,
    }
}

fn seen_contains(seen: &Vec<String>, id: &String) -> (b: bool)
    ensures
        b == views(seen@).contains(id@),
{
    let mut k: usize = 0;
    while k < seen.len()
        invariant
            k <= seen@.len(),
            forall|j: int| 0 <= j < k ==> (#[trigger] seen@[j])@ != id@,
        decreases seen@.len() - k,
    {
        if str_eq(seen[k].as_str(), id.as_str()) {
            assert(views(seen@)[k as int] == id@);
            return true;
        }
        k = k + 1;
    }
    assert forall|j: int| 0 <= j < views(seen@).len() implies views(seen@)[j] != id@ by {
        assert(views(seen@)[j] == seen@[j]@);
    }
    false
}

fn check_cycle(issues: &mut Vec<MethodWorkflowValidationIssue>, nodes: &[MethodHierarchyNode], i: usize)
    requires
        i < nodes@.len(),
    ensures
        workflow_issues_view(final(issues)@) == workflow_issues_view(old(issues)@) + match first_return(
            nodes@,
            nodes@[i as int].node_id@,
            0,
        ) {
            Some(k) => seq![
                wissue(
                    "method_hierarchy_cycle",
                    "hierarchy",
                    "hierarchy cycle includes "@ + climb(nodes@, nodes@[i as int].node_id@, k as nat).unwrap(),
                ),
            ],
            None => Seq::<WorkflowIssueView>::empty(),
        },
{
    let ghost before = workflow_issues_view(issues@);
    let ghost start = nodes@[i as int].node_id@;
    let n = nodes.len();
    let mut seen: Vec<String> = Vec::new();
    let mut current: Option<String> = Some(nodes[i].node_id.clone());
    let mut k: usize = 0;
    assert(views(seen@) =~= Seq::<Seq<char>>::empty());
    loop
        invariant_except_break
            workflow_issues_view(issues@) == before,
        invariant
            n == nodes@.len(),
            i < n,
            start == nodes@[i as int].node_id@,
            k <= n,
            optional_view(current) == climb(nodes@, start, k as nat),
            views(seen@).len() == k,
            forall|j: int| 0 <= j < k ==> climb(nodes@, start, j as nat) == Some(
                #[trigger] views(seen@)[j],
            ),
            first_return(nodes@, start, 0) == first_return(nodes@, start, k as int),
        ensures
            workflow_issues_view(issues@) == before + match first_return(nodes@, start, 0) {
                Some(k) => seq![
                    wissue(
                        "method_hierarchy_cycle",
                        "hierarchy",
                        "hierarchy cycle includes "@ + climb(nodes@, start, k as nat).unwrap(),
                    ),
                ],
                None => Seq::<WorkflowIssueView>::empty(),
            },
        decreases n - k,
    {
        match current {
            None => {
                assert(workflow_issues_view(issues@) =~= before + Seq::<WorkflowIssueView>::empty());
                break;
            },
            Some(id) => {
                let again = seen_contains(&seen, &id);
                if again {
                    proof {
                        let j = choose|j: int| 0 <= j < views(seen@).len() && views(seen@)[j] == id@;
                        assert(climb(nodes@, start, j as nat) == climb(nodes@, start, k as nat));
                        assert(meets_again(nodes@, start, k as int));
                    }
                    let ghost b = workflow_issues_view(issues@);
                    issues.push(
                        workflow_issue(
                            "method_hierarchy_cycle",
                            "hierarchy",
                            concat("hierarchy cycle includes ", id.as_str()),
                        ),
                    );
                    assert(workflow_issues_view(issues@) =~= b.push(
                        wissue("method_hierarchy_cycle", "hierarchy", "hierarchy cycle includes "@ + id@),
                    ));
                    break;
                }
                proof {
                    if meets_again(nodes@, start, k as int) {
                        let j = choose|j: int|
                            0 <= j < k && #[trigger] climb(nodes@, start, j as nat) == climb(
                                nodes@,
                                start,
                                k as nat,
                            );
                        assert(views(seen@)[j] == id@);
                        assert(views(seen@).contains(id@));
                    }
                }
                if k == n {
                    assert(first_return(nodes@, start, k + 1) is None);
                    assert(workflow_issues_view(issues@) =~= before + Seq::<WorkflowIssueView>::empty());
                    break;
                }
                let next = parent_lookup(nodes, &id);
                let ghost sb = views(seen@);
                seen.push(id);
                assert(views(seen@) =~= sb.push(climb(nodes@, start, k as nat).unwrap()));
                current = next;
                k = k + 1;
            },
        }
    }
}

/// Every defect of the method hierarchy (see `hierarchy_issues`); none for a tree of
/// uniquely identified, labelled nodes at distinct sibling positions.
pub fn validate_method_hierarchy(nodes: &[MethodHierarchyNode]) -> (r: Vec<
    MethodWorkflowValidationIssue,
>)
    ensures
        workflow_issues_view(r@) == hierarchy_issues(nodes@),
{
    let mut issues: Vec<MethodWorkflowValidationIssue> = Vec::new();
    assert(workflow_issues_view(issues@) =~= node_pass(nodes@, 0));
    let mut i: usize = 0;
    while i < nodes.len()
        invariant
            i <= nodes@.len(),
            workflow_issues_view(issues@) == node_pass(nodes@, i as int),
        decreases nodes@.len() - i,
    {
        check_node(&mut issues, nodes, i);
        i = i + 1;
    }
    let ghost first = workflow_issues_view(issues@);
    let mut i: usize = 0;
    assert(first =~= first + parent_pass(nodes@, 0));
    while i < nodes.len()
        invariant
            i <= nodes@.len(),
            workflow_issues_view(issues@) == first + parent_pass(nodes@, i as int),
        decreases nodes@.len() - i,
    {
        let ghost start = workflow_issues_view(issues@);
        match &nodes[i].parent_node_id {
            Some(p) => {
                let known = contains_node(nodes, p);
                push_found(
                    &mut issues,
                    !known,
                    "unknown_hierarchy_parent",
                    "hierarchy[].parent_node_id",
                    concat("unknown hierarchy parent: ", p.as_str()),
                );
            },
            None => {},
        }
        assert(workflow_issues_view(issues@) =~= first + parent_pass(nodes@, i + 1));
        i = i + 1;
    }
    let ghost second = workflow_issues_view(issues@);
    let mut i: usize = 0;
    assert(second =~= second + cycle_pass(nodes@, 0));
    while i < nodes.len()
        invariant
            i <= nodes@.len(),
            workflow_issues_view(issues@) == second + cycle_pass(nodes@, i as int),
        decreases nodes@.len() - i,
    {
        check_cycle(&mut issues, nodes, i);
        assert(workflow_issues_view(issues@) =~= second + cycle_pass(nodes@, i + 1));
        i = i + 1;
    }
    issues
}

// ---------------------------------------------------------------------------
// Checks of a measurement system template
// ---------------------------------------------------------------------------

/// The directions a port passes a signal in.
#[derive(Clone, Copy, Debug, PartialEq, Eq, Structural)]
pub enum PortDirectionality {
    Input,
    Output,
    Bidirectional,
    Through,
}

/// The physical or logical domain of the signal at a port.
#[derive(Clone, Copy, Debug, PartialEq, Eq, Structural)]
pub enum SignalDomain {
    AnalogVoltage,
    AnalogCurrent,
    Rf,
    CanBus,
    Trigger,
}

/// A logical port of a role, with what the checks read (its impedance, a float, is not
/// part of this view).
#[derive(Clone, Debug, PartialEq, Eq)]
pub struct MethodLogicalPort {
    pub port_id: String,
    pub label: String,
    pub directionality: PortDirectionality,
    pub signal_domain: SignalDomain,
    pub connector: Option<String>,
    pub quantity_dimension: Option<QuantityDimension>,
}

/// A node of a measurement system template: a role that a material will play, possibly
/// mapped to a method role, with its ports.
#[derive(Clone, Debug, PartialEq, Eq)]
pub struct MeasurementSystemRoleNode {
    pub node_id: String,
    pub label: String,
    pub role_type: String,
    pub method_role_id: Option<String>,
    pub ports: Vec<MethodLogicalPort>,
    pub notes: String,
}

/// A measurement system template: role nodes, the links between their ports, the
/// correction points and the regulation loops.
#[derive(Clone, Debug, PartialEq, Eq)]
pub struct MeasurementSystemTemplateDefinition {
    pub definition_schema_version: String,
    pub template_id: String,
    pub label: String,
    pub classification: String,
    pub nodes: Vec<MeasurementSystemRoleNode>,
    pub edges: Vec<MeasurementSystemEdge>,
    pub correction_points: Vec<CorrectionPointDefinition>,
    pub regulation_loops: Vec<RegulationLoopMapping>,
    pub notes: String,
}

/// `<path> is required` when the text is blank.
pub open spec fn missing_text(value: Seq<char>, path: &str) -> Seq<WorkflowIssueView> {
    when_found(
        trim_seq(value).len() == 0,
        wissue("missing_required_text", path, path@ + " is required"@),
    )
}

pub(crate) fn require_text(issues: &mut Vec<MethodWorkflowValidationIssue>, value: &str, path: &str)
    ensures
        workflow_issues_view(final(issues)@) == workflow_issues_view(old(issues)@) + missing_text(
            value@,
            path,
        ),
{
    let t = trim(value);
    push_found(
        issues,
        t.as_str().is_empty(),
        "missing_required_text",
        path,
        concat(path, " is required"),
    );
}

pub open spec fn template_node_seen_before(nodes: Seq<MeasurementSystemRoleNode>, i: int) -> bool {
    exists|j: int| 0 <= j < i && (#[trigger] nodes[j]).node_id@ == nodes[i].node_id@
}

pub open spec fn port_seen_before(ports: Seq<MethodLogicalPort>, j: int) -> bool {
    exists|k: int| 0 <= k < j && (#[trigger] ports[k]).port_id@ == ports[j].port_id@
}

/// A finding for each of the first `n` ports that repeats an earlier port of the node.
pub open spec fn port_issues(node_id: Seq<char>, ports: Seq<MethodLogicalPort>, n: int) -> Seq<
    WorkflowIssueView,
>
    decreases n,
{
    if n <= 0 {
        seq![]
    } else {
        port_issues(node_id, ports, n - 1) + when_found(
            port_seen_before(ports, n - 1),
            wissue(
                "duplicate_topology_port",
                "nodes[].ports",
                "duplicate port "@ + ports[n - 1].port_id@ + " on node "@ + node_id,
            ),
        )
    }
}

/// The checks of the node at `i`: its identifier, its method role and its ports.
pub open spec fn template_node_checks(
    nodes: Seq<MeasurementSystemRoleNode>,
    i: int,
    role_ids: Seq<Seq<char>>,
) -> Seq<WorkflowIssueView> {
    let node = nodes[i];
    when_found(
        !stable_token(node.node_id@) || template_node_seen_before(nodes, i),
        wissue(
            "invalid_or_duplicate_topology_node",
            "nodes[].node_id",
            "invalid or duplicate node "@ + node.node_id@,
        ),
    ) + match node.method_role_id {
        Some(r) => when_found(
            !role_ids.contains(r@),
            wissue(
                "unknown_method_role_mapping",
                "nodes[].method_role_id",
                "node "@ + node.node_id@ + " maps unknown method role "@ + r@,
            ),
        ),
        None => seq![],
    } + port_issues(node.node_id@, node.ports@, node.ports@.len() as int)
}

pub open spec fn template_node_pass(
    nodes: Seq<MeasurementSystemRoleNode>,
    role_ids: Seq<Seq<char>>,
    n: int,
) -> Seq<WorkflowIssueView>
    decreases n,
{
    if n <= 0 {
        seq![]
    } else {
        template_node_pass(nodes, role_ids, n - 1) + template_node_checks(nodes, n - 1, role_ids)
    }
}

/// The last node with the identifier.
pub open spec fn last_role_node_for(nodes: Seq<MeasurementSystemRoleNode>, id: Seq<char>) -> Option<
    int,
>
    decreases nodes.len(),
{
    if nodes.len() == 0 {
        None
    } else if nodes.last().node_id@ == id {
        Some(nodes.len() - 1)
    } else {
        last_role_node_for(nodes.drop_last(), id)
    }
}

/// The node registered under an identifier: the last one with it, when the identifier
/// is a valid token (nodes with invalid identifiers are not registered).
pub open spec fn registered_node(nodes: Seq<MeasurementSystemRoleNode>, id: Seq<char>) -> Option<
    int,
> {
    if stable_token(id) {
        last_role_node_for(nodes, id)
    } else {
        None
    }
}

/// The first port of the list, from index `k` on, with the identifier.
pub open spec fn first_port_from(ports: Seq<MethodLogicalPort>, port_id: Seq<char>, k: int) -> Option<int>
    decreases ports.len() - k,
{
    if k < 0 || k >= ports.len() {
        None
    } else if ports[k].port_id@ == port_id {
        Some(k)
    } else {
        first_port_from(ports, port_id, k + 1)
    }
}

/// The port an endpoint designates: the first port with its identifier on the node
/// registered under its node identifier.
pub open spec fn endpoint_port_of(
    nodes: Seq<MeasurementSystemRoleNode>,
    e: TopologyPortEndpoint,
) -> Option<MethodLogicalPort> {
    match registered_node(nodes, e.node_id@) {
        Some(j) => match first_port_from(nodes[j].ports@, e.port_id@, 0) {
            Some(p) => Some(nodes[j].ports@[p]),
            None => None,
        },
        None => None,
    }
}

/// A signal can flow from an output-capable port to an input-capable one.
pub open spec fn directions_connect_spec(from: PortDirectionality, to: PortDirectionality) -> bool {
    (from == PortDirectionality::Output || from == PortDirectionality::Bidirectional || from
        == PortDirectionality::Through) && (to == PortDirectionality::Input || to
        == PortDirectionality::Bidirectional || to == PortDirectionality::Through)
}

fn directions_connect(from: PortDirectionality, to: PortDirectionality) -> (b: bool)
    ensures
        b == directions_connect_spec(from, to),
{
    (from == PortDirectionality::Output || from == PortDirectionality::Bidirectional || from
        == PortDirectionality::Through) && (to == PortDirectionality::Input || to
        == PortDirectionality::Bidirectional || to == PortDirectionality::Through)
}

/// Links that carry a physical signal, whose two ends must share a signal domain.
pub open spec fn physical_kind(kind: TopologyEdgeKind) -> bool {
    kind == TopologyEdgeKind::PhysicalSignal || kind == TopologyEdgeKind::ExcitationOrPower || kind
        == TopologyEdgeKind::FeedbackMeasurement || kind == TopologyEdgeKind::Monitoring
}

fn edge_uses_physical_domain(kind: TopologyEdgeKind) -> (b: bool)
    ensures
        b == physical_kind(kind),
{
    kind == TopologyEdgeKind::PhysicalSignal || kind == TopologyEdgeKind::ExcitationOrPower || kind
        == TopologyEdgeKind::FeedbackMeasurement || kind == TopologyEdgeKind::Monitoring
}

pub open spec fn edge_seen_before(edges: Seq<MeasurementSystemEdge>, k: int) -> bool {
    exists|j: int| 0 <= j < k && (#[trigger] edges[j]).edge_id@ == edges[k].edge_id@
}

/// The checks of the link at `k`: its identifier, then its two ends, which must be
/// known ports whose directions and (for a physical signal) domains agree.
pub open spec fn template_edge_checks(
    nodes: Seq<MeasurementSystemRoleNode>,
    edges: Seq<MeasurementSystemEdge>,
    k: int,
) -> Seq<WorkflowIssueView> {
    let e = edges[k];
    when_found(
        !stable_token(e.edge_id@) || edge_seen_before(edges, k),
        wissue(
            "invalid_or_duplicate_topology_edge",
            "edges[].edge_id",
            "invalid or duplicate edge "@ + e.edge_id@,
        ),
    ) + match (endpoint_port_of(nodes, e.from), endpoint_port_of(nodes, e.to)) {
        (Some(f), Some(t)) => when_found(
            !directions_connect_spec(f.directionality, t.directionality),
            wissue(
                "incompatible_topology_direction",
                "edges",
                "edge "@ + e.edge_id@ + " connects incompatible directions"@,
            ),
        ) + when_found(
            physical_kind(e.edge_kind) && f.signal_domain != t.signal_domain,
            wissue(
                "incompatible_topology_signal_domain",
                "edges",
                "edge "@ + e.edge_id@ + " crosses incompatible signal domains"@,
            ),
        ),
        _ => seq![
            wissue(
                "unknown_topology_endpoint",
                "edges",
                "edge "@ + e.edge_id@ + " references an unknown node or port"@,
            ),
        ],
    }
}

pub open spec fn template_edge_pass(
    nodes: Seq<MeasurementSystemRoleNode>,
    edges: Seq<MeasurementSystemEdge>,
    n: int,
) -> Seq<WorkflowIssueView>
    decreases n,
{
    if n <= 0 {
        seq![]
    } else {
        template_edge_pass(nodes, edges, n - 1) + template_edge_checks(nodes, edges, n - 1)
    }
}

fn contains_text(ids: &[String], x: &String) -> (b: bool)
    ensures
        b == views(ids@).contains(x@),
{
    let mut k: usize = 0;
    while k < ids.len()
        invariant
            k <= ids@.len(),
            forall|j: int| 0 <= j < k ==> (#[trigger] ids@[j])@ != x@,
        decreases ids@.len() - k,
    {
        if str_eq(ids[k].as_str(), x.as_str()) {
            assert(views(ids@)[k as int] == x@);
            return true;
        }
        k = k + 1;
    }
    assert forall|j: int| 0 <= j < views(ids@).len() implies views(ids@)[j] != x@ by {
        assert(views(ids@)[j] == ids@[j]@);
    }
    false
}

fn check_template_node(
    issues: &mut Vec<MethodWorkflowValidationIssue>,
    nodes: &Vec<MeasurementSystemRoleNode>,
    i: usize,
    role_ids: &[String],
)
    requires
        i < nodes@.len(),
    ensures
        workflow_issues_view(final(issues)@) == workflow_issues_view(old(issues)@)
            + template_node_checks(nodes@, i as int, views(role_ids@)),
{
    let ghost before = workflow_issues_view(issues@);
    let node = &nodes[i];
    let mut seen = false;
    let mut j: usize = 0;
    while j < i
        invariant
            i < nodes@.len(),
            j <= i,
            node == &nodes@[i as int],
            seen == exists|k: int| 0 <= k < j && (#[trigger] nodes@[k]).node_id@
                == nodes@[i as int].node_id@,
        decreases i - j,
    {
        if str_eq(nodes[j].node_id.as_str(), node.node_id.as_str()) {
            seen = true;
        }
        j = j + 1;
    }
    let message = concat("invalid or duplicate node ", node.node_id.as_str());
    push_found(
        issues,
        !valid_token(node.node_id.as_str()) || seen,
        "invalid_or_duplicate_topology_node",
        "nodes[].node_id",
        message,
    );
    match &node.method_role_id {
        Some(r) => {
            let known = contains_text(role_ids, r);
            let mut m = concat("node ", node.node_id.as_str());
            crate::text::push_str(&mut m, " maps unknown method role ");
            crate::text::push_str(&mut m, r.as_str());
            push_found(issues, !known, "unknown_method_role_mapping", "nodes[].method_role_id", m);
        },
        None => {},
    }
    let ghost after_role = workflow_issues_view(issues@);
    let ports = &node.ports;
    let mut p: usize = 0;
    while p < ports.len()
        invariant
            p <= ports@.len(),
            ports == &node.ports,
            workflow_issues_view(issues@) == after_role + port_issues(
                node.node_id@,
                ports@,
                p as int,
            ),
        decreases ports@.len() - p,
    {
        let mut dup = false;
        let mut q: usize = 0;
        while q < p
            invariant
                p < ports@.len(),
                q <= p,
                dup == exists|k: int| 0 <= k < q && (#[trigger] ports@[k]).port_id@
                    == ports@[p as int].port_id@,
            decreases p - q,
        {
            if str_eq(ports[q].port_id.as_str(), ports[p].port_id.as_str()) {
                dup = true;
            }
            q = q + 1;
        }
        let mut m = concat("duplicate port ", ports[p].port_id.as_str());
        crate::text::push_str(&mut m, " on node ");
        crate::text::push_str(&mut m, node.node_id.as_str());
        push_found(issues, dup, "duplicate_topology_port", "nodes[].ports", m);
        p = p + 1;
    }
    assert(workflow_issues_view(issues@) =~= before + template_node_checks(
        nodes@,
        i as int,
        views(role_ids@),
    ));
}

fn registered_node_index(nodes: &Vec<MeasurementSystemRoleNode>, id: &String) -> (r: Option<usize>)
    ensures
        match r {
            Some(j) => registered_node(nodes@, id@) == Some(j as int) && j < nodes@.len(),
            None => registered_node(nodes@, id@) is None,
        },
{
    if !valid_token(id.as_str()) {
        return None;
    }
    let mut k: usize = nodes.len();
    assert(nodes@.take(k as int) =~= nodes@);
    while k > 0
        invariant
            k <= nodes@.len(),
            stable_token(id@),
            last_role_node_for(nodes@, id@) == last_role_node_for(nodes@.take(k as int), id@),
        decreases k,
    {
        assert(nodes@.take(k as int).drop_last() =~= nodes@.take(k - 1));
        if str_eq(nodes[k - 1].node_id.as_str(), id.as_str()) {
            return Some(k - 1);
        }
        k = k - 1;
    }
    None
}

fn endpoint_port<'a>(nodes: &'a Vec<MeasurementSystemRoleNode>, e: &TopologyPortEndpoint) -> (r:
    Option<&'a MethodLogicalPort>)
    ensures
        match r {
            Some(p) => endpoint_port_of(nodes@, *e) == Some(*p),
            None => endpoint_port_of(nodes@, *e) is None,
        },
{
    match registered_node_index(nodes, &e.node_id) {
        Some(j) => {
            let ports = &nodes[j].ports;
            let mut k: usize = 0;
            while k < ports.len()
                invariant
                    k <= ports@.len(),
                    j < nodes@.len(),
                    registered_node(nodes@, e.node_id@) == Some(j as int),
                    ports == &nodes@[j as int].ports,
                    first_port_from(ports@, e.port_id@, 0) == first_port_from(
                        ports@,
                        e.port_id@,
                        k as int,
                    ),
                decreases ports@.len() - k,
            {
                if str_eq(ports[k].port_id.as_str(), e.port_id.as_str()) {
                    return Some(&ports[k]);
                }
                k = k + 1;
            }
            None
        },
        None => None,
    }
}

fn check_template_edge(
    issues: &mut Vec<MethodWorkflowValidationIssue>,
    nodes: &Vec<MeasurementSystemRoleNode>,
    edges: &Vec<MeasurementSystemEdge>,
    k: usize,
)
    requires
        k < edges@.len(),
    ensures
        workflow_issues_view(final(issues)@) == workflow_issues_view(old(issues)@)
            + template_edge_checks(nodes@, edges@, k as int),
{
    let ghost before = workflow_issues_view(issues@);
    let e = &edges[k];
    let mut seen = false;
    let mut j: usize = 0;
    while j < k
        invariant
            k < edges@.len(),
            j <= k,
            e == &edges@[k as int],
            seen == exists|i: int| 0 <= i < j && (#[trigger] edges@[i]).edge_id@
                == edges@[k as int].edge_id@,
        decreases k - j,
    {
        if str_eq(edges[j].edge_id.as_str(), e.edge_id.as_str()) {
            seen = true;
        }
        j = j + 1;
    }
    push_found(
        issues,
        !valid_token(e.edge_id.as_str()) || seen,
        "invalid_or_duplicate_topology_edge",
        "edges[].edge_id",
        concat("invalid or duplicate edge ", e.edge_id.as_str()),
    );
    let ghost middle = workflow_issues_view(issues@);
    let from = endpoint_port(nodes, &e.from);
    let to = endpoint_port(nodes, &e.to);
    match (from, to) {
        (Some(f), Some(t)) => {
            let mut m = concat("edge ", e.edge_id.as_str());
            crate::text::push_str(&mut m, " connects incompatible directions");
            push_found(
                issues,
                !directions_connect(f.directionality, t.directionality),
                "incompatible_topology_direction",
                "edges",
                m,
            );
            let mut m = concat("edge ", e.edge_id.as_str());
            crate::text::push_str(&mut m, " crosses incompatible signal domains");
            push_found(
                issues,
                edge_uses_physical_domain(e.edge_kind) && f.signal_domain != t.signal_domain,
                "incompatible_topology_signal_domain",
                "edges",
                m,
            );
        },
        _ => {
            let mut m = concat("edge ", e.edge_id.as_str());
            crate::text::push_str(&mut m, " references an unknown node or port");
            push_found(issues, true, "unknown_topology_endpoint", "edges", m);
        },
    }
    assert(workflow_issues_view(issues@) =~= before + template_edge_checks(nodes@, edges@, k as int));
}

/// The identifiers of the nodes.
pub open spec fn template_node_ids(nodes: Seq<MeasurementSystemRoleNode>) -> Set<Seq<char>> {
    Set::new(|id: Seq<char>| exists|j: int| 0 <= j < nodes.len() && (#[trigger] nodes[j]).node_id@ == id)
}

/// A link other than a declared feedback measurement.
pub open spec fn ordinary_link(e: MeasurementSystemEdge) -> bool {
    e.edge_kind != TopologyEdgeKind::FeedbackMeasurement
}

/// Some ordinary link reaches `v` from a node of `s`.
pub open spec fn fed_within(edges: Seq<MeasurementSystemEdge>, v: Seq<char>, s: Set<Seq<char>>) -> bool {
    exists|k: int|
        0 <= k < edges.len() && ordinary_link(#[trigger] edges[k]) && edges[k].to.node_id@ == v
            && s.contains(edges[k].from.node_id@)
}

/// A set of nodes each reached by an ordinary link from a node of the set.
pub open spec fn self_feeding(
    nodes: Seq<MeasurementSystemRoleNode>,
    edges: Seq<MeasurementSystemEdge>,
    s: Set<Seq<char>>,
) -> bool {
    &&& s.subset_of(template_node_ids(nodes))
    &&& forall|v: Seq<char>| s.contains(v) ==> #[trigger] fed_within(edges, v, s)
}

/// The ordinary links close a loop: some non-empty set of nodes feeds itself (following
/// such links backwards from any of its nodes never leaves it).
pub open spec fn has_undeclared_cycle(
    nodes: Seq<MeasurementSystemRoleNode>,
    edges: Seq<MeasurementSystemEdge>,
) -> bool {
    exists|s: Set<Seq<char>>, v: Seq<char>|
        #![trigger self_feeding(nodes, edges, s), s.contains(v)]
        s.contains(v) && self_feeding(nodes, edges, s)
}

pub open spec fn text_set(s: Seq<Seq<char>>) -> Set<Seq<char>> {
    Set::new(|x: Seq<char>| s.contains(x))
}

fn fed_by(edges: &Vec<MeasurementSystemEdge>, v: &String, remaining: &Vec<String>) -> (b: bool)
    ensures
        b == fed_within(edges@, v@, text_set(views(remaining@))),
{
    let ghost r = text_set(views(remaining@));
    let mut k: usize = 0;
    while k < edges.len()
        invariant
            k <= edges@.len(),
            r == text_set(views(remaining@)),
            forall|i: int|
                0 <= i < k ==> !(ordinary_link(#[trigger] edges@[i]) && edges@[i].to.node_id@ == v@
                    && r.contains(edges@[i].from.node_id@)),
        decreases edges@.len() - k,
    {
        let e = &edges[k];
        if e.edge_kind != TopologyEdgeKind::FeedbackMeasurement && str_eq(
            e.to.node_id.as_str(),
            v.as_str(),
        ) && contains_text(remaining.as_slice(), &e.from.node_id) {
            return true;
        }
        k = k + 1;
    }
    false
}

/// Whether the ordinary links of the template close a loop (see `has_undeclared_cycle`).
fn undeclared_cycle(nodes: &Vec<MeasurementSystemRoleNode>, edges: &Vec<MeasurementSystemEdge>) -> (b:
    bool)
    ensures
        b == has_undeclared_cycle(nodes@, edges@),
{
    let ghost all = template_node_ids(nodes@);
    let mut remaining: Vec<String> = Vec::new();
    let mut i: usize = 0;
    while i < nodes.len()
        invariant
            i <= nodes@.len(),
            all == template_node_ids(nodes@),
            remaining@.len() == i,
            forall|j: int| 0 <= j < i ==> (#[trigger] remaining@[j])@ == nodes@[j].node_id@,
        decreases nodes@.len() - i,
    {
        remaining.push(nodes[i].node_id.clone());
        i = i + 1;
    }
    assert(text_set(views(remaining@)) =~= all) by {
        assert forall|x: Seq<char>| text_set(views(remaining@)).contains(x) <==> all.contains(x) by {
            if views(remaining@).contains(x) {
                let j = choose|j: int| 0 <= j < views(remaining@).len() && views(remaining@)[j] == x;
                assert(remaining@[j]@ == x);
                assert(nodes@[j].node_id@ == x);
            }
            if all.contains(x) {
                let j = choose|j: int| 0 <= j < nodes@.len() && (#[trigger] nodes@[j]).node_id@ == x;
                assert(views(remaining@)[j] == x);
            }
        }
    }
    loop
        invariant
            all == template_node_ids(nodes@),
            text_set(views(remaining@)).subset_of(all),
            forall|s: Set<Seq<char>>|
                #[trigger] self_feeding(nodes@, edges@, s) ==> s.subset_of(
                    text_set(views(remaining@)),
                ),
        decreases remaining@.len(),
    {
        let ghost r = text_set(views(remaining@));
        let mut next: Vec<String> = Vec::new();
        let mut k: usize = 0;
        while k < remaining.len()
            invariant
                k <= remaining@.len(),
                r == text_set(views(remaining@)),
                next@.len() <= k,
                next@.len() == k ==> forall|j: int|
                    0 <= j < k ==> #[trigger] fed_within(edges@, views(remaining@)[j], r),
                forall|j: int|
                    0 <= j < k && #[trigger] fed_within(edges@, views(remaining@)[j], r)
                        ==> views(next@).contains(views(remaining@)[j]),
                forall|x: Seq<char>| #[trigger] views(next@).contains(x) ==> r.contains(x),
            decreases remaining@.len() - k,
        {
            assert(views(remaining@)[k as int] == remaining@[k as int]@);
            if fed_by(edges, &remaining[k], &remaining) {
                let ghost before = views(next@);
                next.push(remaining[k].clone());
                assert(views(next@) =~= before.push(remaining@[k as int]@));
                assert(views(next@).last() == remaining@[k as int]@);
                assert forall|x: Seq<char>| #[trigger] views(next@).contains(x) implies r.contains(
                    x,
                ) by {
                    if x != remaining@[k as int]@ {
                        let j = choose|j: int| 0 <= j < views(next@).len() && views(next@)[j] == x;
                        assert(before[j] == x);
                        assert(before.contains(x));
                    } else {
                        assert(views(remaining@).contains(x));
                    }
                }
                assert forall|j: int|
                    0 <= j < k + 1 && #[trigger] fed_within(edges@, views(remaining@)[j], r)
                        implies views(next@).contains(views(remaining@)[j]) by {
                    if j < k {
                        let y = views(remaining@)[j];
                        let m = choose|m: int| 0 <= m < before.len() && before[m] == y;
                        assert(views(next@)[m] == y);
                    } else {
                        assert(views(next@)[views(next@).len() - 1] == views(remaining@)[j]);
                    }
                }
            } else {
                assert(!fed_within(edges@, views(remaining@)[k as int], r));
            }
            k = k + 1;
        }
        if next.len() == remaining.len() {
            proof {
                assert forall|v: Seq<char>| r.contains(v) implies #[trigger] fed_within(
                    edges@,
                    v,
                    r,
                ) by {
                    let j = choose|j: int| 0 <= j < views(remaining@).len() && views(remaining@)[j] == v;
                }
                assert(self_feeding(nodes@, edges@, r));
                if remaining@.len() > 0 {
                    let v = views(remaining@)[0];
                    assert(r.contains(v));
                    assert(has_undeclared_cycle(nodes@, edges@));
                } else {
                    assert forall|s: Set<Seq<char>>, v: Seq<char>|
                        #![trigger self_feeding(nodes@, edges@, s), s.contains(v)]
                        s.contains(v) && self_feeding(nodes@, edges@, s) implies false by {
                        assert(s.subset_of(r));
                        assert(r.contains(v));
                        let j = choose|j: int| 0 <= j < views(remaining@).len() && views(remaining@)[j] == v;
                    }
                }
            }
            return remaining.len() > 0;
        }
        proof {
            let nr = text_set(views(next@));
            assert forall|s: Set<Seq<char>>| #[trigger] self_feeding(nodes@, edges@, s) implies s.subset_of(
                nr,
            ) by {
                assert(s.subset_of(r));
                assert forall|v: Seq<char>| s.contains(v) implies nr.contains(v) by {
                    assert(fed_within(edges@, v, s));
                    let e = choose|e: int|
                        0 <= e < edges@.len() && ordinary_link(#[trigger] edges@[e])
                            && edges@[e].to.node_id@ == v && s.contains(edges@[e].from.node_id@);
                    assert(r.contains(edges@[e].from.node_id@));
                    assert(fed_within(edges@, v, r));
                    let j = choose|j: int| 0 <= j < views(remaining@).len() && views(remaining@)[j] == v;
                    assert(fed_within(edges@, views(remaining@)[j], r));
                }
            }
            assert forall|x: Seq<char>| nr.contains(x) implies all.contains(x) by {
                assert(views(next@).contains(x));
            }
        }
        remaining = next;
    }
}

pub open spec fn loop_seen_before(loops: Seq<RegulationLoopMapping>, k: int) -> bool {
    exists|j: int| 0 <= j < k && (#[trigger] loops[j]).loop_id@ == loops[k].loop_id@
}

/// A declared feedback measurement link from the feedback node to the actuator node.
pub open spec fn has_feedback_link(
    edges: Seq<MeasurementSystemEdge>,
    feedback: Seq<char>,
    actuator: Seq<char>,
) -> bool {
    exists|j: int|
        0 <= j < edges.len() && (#[trigger] edges[j]).edge_kind
            == TopologyEdgeKind::FeedbackMeasurement && edges[j].from.node_id@ == feedback
            && edges[j].to.node_id@ == actuator
}

/// The checks of the regulation loop at `k`.
pub open spec fn template_loop_checks(
    nodes: Seq<MeasurementSystemRoleNode>,
    edges: Seq<MeasurementSystemEdge>,
    loops: Seq<RegulationLoopMapping>,
    k: int,
    profile_ids: Seq<Seq<char>>,
) -> Seq<WorkflowIssueView> {
    let m = loops[k];
    when_found(
        loop_seen_before(loops, k),
        wissue(
            "duplicate_regulation_loop",
            "regulation_loops",
            "duplicate regulation loop "@ + m.loop_id@,
        ),
    ) + when_found(
        !profile_ids.contains(m.regulation_profile_id@),
        wissue(
            "unknown_regulation_profile",
            "regulation_loops[].regulation_profile_id",
            "unknown regulation profile "@ + m.regulation_profile_id@,
        ),
    ) + when_found(
        registered_node(nodes, m.actuator_node_id@) is None || registered_node(
            nodes,
            m.feedback_node_id@,
        ) is None,
        wissue(
            "unknown_regulation_loop_node",
            "regulation_loops",
            "regulation loop "@ + m.loop_id@ + " references an unknown node"@,
        ),
    ) + when_found(
        !has_feedback_link(edges, m.feedback_node_id@, m.actuator_node_id@),
        wissue(
            "unreachable_regulation_feedback",
            "regulation_loops",
            "loop "@ + m.loop_id@ + " has no explicit feedback path"@,
        ),
    )
}

pub open spec fn template_loop_pass(
    nodes: Seq<MeasurementSystemRoleNode>,
    edges: Seq<MeasurementSystemEdge>,
    loops: Seq<RegulationLoopMapping>,
    profile_ids: Seq<Seq<char>>,
    n: int,
) -> Seq<WorkflowIssueView>
    decreases n,
{
    if n <= 0 {
        seq![]
    } else {
        template_loop_pass(nodes, edges, loops, profile_ids, n - 1) + template_loop_checks(
            nodes,
            edges,
            loops,
            n - 1,
            profile_ids,
        )
    }
}

pub open spec fn template_correction_pass(
    nodes: Seq<MeasurementSystemRoleNode>,
    points: Seq<CorrectionPointDefinition>,
    n: int,
) -> Seq<WorkflowIssueView>
    decreases n,
{
    if n <= 0 {
        seq![]
    } else {
        template_correction_pass(nodes, points, n - 1) + when_found(
            registered_node(nodes, points[n - 1].node_id@) is None,
            wissue(
                "unknown_correction_point_node",
                "correction_points",
                "correction point "@ + points[n - 1].correction_point_id@
                    + " references an unknown node"@,
            ),
        )
    }
}

/// Every defect of a measurement system template, in the order they are reported: its
/// schema, label and classification; each node; each link; a loop of ordinary links;
/// each regulation loop; each correction point. `role_ids` are the identifiers of the
/// method roles, `profile_ids` those of the regulation profiles.
pub open spec fn template_issues(
    d: MeasurementSystemTemplateDefinition,
    role_ids: Seq<Seq<char>>,
    profile_ids: Seq<Seq<char>>,
) -> Seq<WorkflowIssueView> {
    when_found(
        d.definition_schema_version@ != MEASUREMENT_SYSTEM_TEMPLATE_SCHEMA_VERSION@,
        wissue(
            "unsupported_measurement_system_schema",
            "definition_schema_version",
            "measurement-system template must use v1"@,
        ),
    ) + missing_text(d.label@, "label") + missing_text(d.classification@, "classification")
        + template_node_pass(d.nodes@, role_ids, d.nodes@.len() as int) + template_edge_pass(
        d.nodes@,
        d.edges@,
        d.edges@.len() as int,
    ) + when_found(
        has_undeclared_cycle(d.nodes@, d.edges@),
        wissue(
            "undeclared_topology_cycle",
            "edges",
            "topology contains a cycle that is not modeled as a feedback measurement"@,
        ),
    ) + template_loop_pass(
        d.nodes@,
        d.edges@,
        d.regulation_loops@,
        profile_ids,
        d.regulation_loops@.len() as int,
    ) + template_correction_pass(d.nodes@, d.correction_points@, d.correction_points@.len() as int)
}

fn feedback_link_exists(edges: &Vec<MeasurementSystemEdge>, feedback: &String, actuator: &String) -> (b:
    bool)
    ensures
        b == has_feedback_link(edges@, feedback@, actuator@),
{
    let mut k: usize = 0;
    while k < edges.len()
        invariant
            k <= edges@.len(),
            forall|j: int|
                0 <= j < k ==> !((#[trigger] edges@[j]).edge_kind
                    == TopologyEdgeKind::FeedbackMeasurement && edges@[j].from.node_id@
                    == feedback@ && edges@[j].to.node_id@ == actuator@),
        decreases edges@.len() - k,
    {
        let e = &edges[k];
        if e.edge_kind == TopologyEdgeKind::FeedbackMeasurement && str_eq(
            e.from.node_id.as_str(),
            feedback.as_str(),
        ) && str_eq(e.to.node_id.as_str(), actuator.as_str()) {
            return true;
        }
        k = k + 1;
    }
    false
}

fn check_regulation_loop(
    issues: &mut Vec<MethodWorkflowValidationIssue>,
    d: &MeasurementSystemTemplateDefinition,
    k: usize,
    profile_ids: &[String],
)
    requires
        k < d.regulation_loops@.len(),
    ensures
        workflow_issues_view(final(issues)@) == workflow_issues_view(old(issues)@)
            + template_loop_checks(
            d.nodes@,
            d.edges@,
            d.regulation_loops@,
            k as int,
            views(profile_ids@),
        ),
{
    let ghost before = workflow_issues_view(issues@);
    let loops = &d.regulation_loops;
    let m = &loops[k];
    let mut seen = false;
    let mut j: usize = 0;
    while j < k
        invariant
            k < loops@.len(),
            j <= k,
            loops == &d.regulation_loops,
            m == &loops@[k as int],
            seen == exists|i: int| 0 <= i < j && (#[trigger] loops@[i]).loop_id@
                == loops@[k as int].loop_id@,
        decreases k - j,
    {
        if str_eq(loops[j].loop_id.as_str(), m.loop_id.as_str()) {
            seen = true;
        }
        j = j + 1;
    }
    push_found(
        issues,
        seen,
        "duplicate_regulation_loop",
        "regulation_loops",
        concat("duplicate regulation loop ", m.loop_id.as_str()),
    );
    push_found(
        issues,
        !contains_text(profile_ids, &m.regulation_profile_id),
        "unknown_regulation_profile",
        "regulation_loops[].regulation_profile_id",
        concat("unknown regulation profile ", m.regulation_profile_id.as_str()),
    );
    let actuator = registered_node_index(&d.nodes, &m.actuator_node_id);
    let feedback = registered_node_index(&d.nodes, &m.feedback_node_id);
    let mut message = concat("regulation loop ", m.loop_id.as_str());
    crate::text::push_str(&mut message, " references an unknown node");
    push_found(
        issues,
        actuator.is_none() || feedback.is_none(),
        "unknown_regulation_loop_node",
        "regulation_loops",
        message,
    );
    let mut message = concat("loop ", m.loop_id.as_str());
    crate::text::push_str(&mut message, " has no explicit feedback path");
    push_found(
        issues,
        !feedback_link_exists(&d.edges, &m.feedback_node_id, &m.actuator_node_id),
        "unreachable_regulation_feedback",
        "regulation_loops",
        message,
    );
    assert(workflow_issues_view(issues@) =~= before + template_loop_checks(
        d.nodes@,
        d.edges@,
        d.regulation_loops@,
        k as int,
        views(profile_ids@),
    ));
}

/// Every defect of a measurement system template (see `template_issues`), given the
/// identifiers of the method roles and of the regulation profiles it may refer to.
pub fn validate_measurement_system_template(
    d: &MeasurementSystemTemplateDefinition,
    method_role_ids: &[String],
    regulation_profile_ids: &[String],
) -> (r: Vec<MethodWorkflowValidationIssue>)
    ensures
        workflow_issues_view(r@) == template_issues(
            *d,
            views(method_role_ids@),
            views(regulation_profile_ids@),
        ),
{
    let mut issues: Vec<MethodWorkflowValidationIssue> = Vec::new();
    let ghost s0 = workflow_issues_view(issues@);
    push_found(
        &mut issues,
        !str_eq(d.definition_schema_version.as_str(), MEASUREMENT_SYSTEM_TEMPLATE_SCHEMA_VERSION),
        "unsupported_measurement_system_schema",
        "definition_schema_version",
        "measurement-system template must use v1".to_owned(),
    );
    require_text(&mut issues, d.label.as_str(), "label");
    require_text(&mut issues, d.classification.as_str(), "classification");
    let ghost s1 = workflow_issues_view(issues@);
    let mut i: usize = 0;
    while i < d.nodes.len()
        invariant
            i <= d.nodes@.len(),
            workflow_issues_view(issues@) == s1 + template_node_pass(
                d.nodes@,
                views(method_role_ids@),
                i as int,
            ),
        decreases d.nodes@.len() - i,
    {
        check_template_node(&mut issues, &d.nodes, i, method_role_ids);
        assert(workflow_issues_view(issues@) =~= s1 + template_node_pass(
            d.nodes@,
            views(method_role_ids@),
            i + 1,
        ));
        i = i + 1;
    }
    let ghost s2 = workflow_issues_view(issues@);
    let mut k: usize = 0;
    assert(s2 =~= s2 + template_edge_pass(d.nodes@, d.edges@, 0));
    while k < d.edges.len()
        invariant
            k <= d.edges@.len(),
            workflow_issues_view(issues@) == s2 + template_edge_pass(d.nodes@, d.edges@, k as int),
        decreases d.edges@.len() - k,
    {
        check_template_edge(&mut issues, &d.nodes, &d.edges, k);
        assert(workflow_issues_view(issues@) =~= s2 + template_edge_pass(
            d.nodes@,
            d.edges@,
            k + 1,
        ));
        k = k + 1;
    }
    push_found(
        &mut issues,
        undeclared_cycle(&d.nodes, &d.edges),
        "undeclared_topology_cycle",
        "edges",
        "topology contains a cycle that is not modeled as a feedback measurement".to_owned(),
    );
    let ghost s3 = workflow_issues_view(issues@);
    let mut k: usize = 0;
    assert(s3 =~= s3 + template_loop_pass(
        d.nodes@,
        d.edges@,
        d.regulation_loops@,
        views(regulation_profile_ids@),
        0,
    ));
    while k < d.regulation_loops.len()
        invariant
            k <= d.regulation_loops@.len(),
            workflow_issues_view(issues@) == s3 + template_loop_pass(
                d.nodes@,
                d.edges@,
                d.regulation_loops@,
                views(regulation_profile_ids@),
                k as int,
            ),
        decreases d.regulation_loops@.len() - k,
    {
        check_regulation_loop(&mut issues, d, k, regulation_profile_ids);
        assert(workflow_issues_view(issues@) =~= s3 + template_loop_pass(
            d.nodes@,
            d.edges@,
            d.regulation_loops@,
            views(regulation_profile_ids@),
            k + 1,
        ));
        k = k + 1;
    }
    let ghost s4 = workflow_issues_view(issues@);
    let mut k: usize = 0;
    assert(s4 =~= s4 + template_correction_pass(d.nodes@, d.correction_points@, 0));
    while k < d.correction_points.len()
        invariant
            k <= d.correction_points@.len(),
            workflow_issues_view(issues@) == s4 + template_correction_pass(
                d.nodes@,
                d.correction_points@,
                k as int,
            ),
        decreases d.correction_points@.len() - k,
    {
        let point = &d.correction_points[k];
        let known = registered_node_index(&d.nodes, &point.node_id);
        let mut message = concat("correction point ", point.correction_point_id.as_str());
        crate::text::push_str(&mut message, " references an unknown node");
        push_found(
            &mut issues,
            known.is_none(),
            "unknown_correction_point_node",
            "correction_points",
            message,
        );
        assert(workflow_issues_view(issues@) =~= s4 + template_correction_pass(
            d.nodes@,
            d.correction_points@,
            k + 1,
        ));
        k = k + 1;
    }
    proof {
        reveal_strlit("measurement-system template must use v1");
    }
    assert(workflow_issues_view(issues@) =~= template_issues(
        *d,
        views(method_role_ids@),
        views(regulation_profile_ids@),
    ));
    issues
}

impl MeasurementSystemTemplateDefinition {
    /// Every defect of the template (see `template_issues`), given the identifiers of the
    /// method roles and of the regulation profiles it may refer to.
    pub fn validate(&self, method_role_ids: &[String], regulation_profile_ids: &[String]) -> (r: Vec<
        MethodWorkflowValidationIssue,
    >)
        ensures
            workflow_issues_view(r@) == template_issues(
                *self,
                views(method_role_ids@),
                views(regulation_profile_ids@),
            ),
    {
        validate_measurement_system_template(self, method_role_ids, regulation_profile_ids)
    }
}

// ---------------------------------------------------------------------------
// Units, revision references and small vocabulary checks
// ---------------------------------------------------------------------------

impl MethodWorkflowValidationIssue {
    /// A defect with its code, path and message.
    pub fn new(code: &str, path: &str, message: &str) -> (r: Self)
        ensures
            r@ == wissue(code, path, message@),
    {
        workflow_issue(code, path, message.to_owned())
    }
}

/// The dimension of a unit of the method registry, by its trimmed text.
pub open spec fn unit_dimension_of(unit: Seq<char>) -> Option<QuantityDimension> {
    let u = trim_seq(unit);
    if u == ""@ || u == "1"@ || u == "%"@ {
        Some(QuantityDimension::Dimensionless)
    } else if u == "Hz"@ || u == "kHz"@ || u == "MHz"@ || u == "GHz"@ {
        Some(QuantityDimension::Frequency)
    } else if u == "s"@ || u == "ms"@ || u == "us"@ || u == "ns"@ {
        Some(QuantityDimension::Time)
    } else if u == "V"@ || u == "mV"@ || u == "uV"@ || u == "dBuV"@ {
        Some(QuantityDimension::Voltage)
    } else if u == "A"@ || u == "mA"@ || u == "uA"@ {
        Some(QuantityDimension::Current)
    } else if u == "W"@ || u == "mW"@ || u == "dBm"@ {
        Some(QuantityDimension::Power)
    } else if u == "V/m"@ || u == "dBuV/m"@ {
        Some(QuantityDimension::ElectricFieldStrength)
    } else if u == "A/m"@ {
        Some(QuantityDimension::MagneticFieldStrength)
    } else if u == "dB"@ {
        Some(QuantityDimension::Ratio)
    } else {
        None
    }
}

/// The dimension of a unit, or none for a unit outside the registry.
pub fn unit_dimension(unit: &str) -> (r: Option<QuantityDimension>)
    ensures
        r == unit_dimension_of(unit@),
{
    let t = trim(unit);
    let u = t.as_str();
    if str_eq(u, "") || str_eq(u, "1") || str_eq(u, "%") {
        Some(QuantityDimension::Dimensionless)
    } else if str_eq(u, "Hz") || str_eq(u, "kHz") || str_eq(u, "MHz") || str_eq(u, "GHz") {
        Some(QuantityDimension::Frequency)
    } else if str_eq(u, "s") || str_eq(u, "ms") || str_eq(u, "us") || str_eq(u, "ns") {
        Some(QuantityDimension::Time)
    } else if str_eq(u, "V") || str_eq(u, "mV") || str_eq(u, "uV") || str_eq(u, "dBuV") {
        Some(QuantityDimension::Voltage)
    } else if str_eq(u, "A") || str_eq(u, "mA") || str_eq(u, "uA") {
        Some(QuantityDimension::Current)
    } else if str_eq(u, "W") || str_eq(u, "mW") || str_eq(u, "dBm") {
        Some(QuantityDimension::Power)
    } else if str_eq(u, "V/m") || str_eq(u, "dBuV/m") {
        Some(QuantityDimension::ElectricFieldStrength)
    } else if str_eq(u, "A/m") {
        Some(QuantityDimension::MagneticFieldStrength)
    } else if str_eq(u, "dB") {
        Some(QuantityDimension::Ratio)
    } else {
        None
    }
}

/// Whether a quantity of the dimension needs a unit: all but dimensionless, text and
/// boolean quantities.
pub fn requires_unit(dimension: QuantityDimension) -> (b: bool)
    ensures
        b == !(dimension == QuantityDimension::Dimensionless || dimension == QuantityDimension::Text
            || dimension == QuantityDimension::Boolean),
{
    !matches!(
        dimension,
        QuantityDimension::Dimensionless | QuantityDimension::Text | QuantityDimension::Boolean
    )
}

/// The dimension and unit of a migrated variable: dimensionless without a unit when so
/// flagged or when the unit is missing or unknown, otherwise the unit's dimension and
/// the unit as given.
pub fn migrated_dimension(dimensionless: bool, unit: Option<&str>) -> (r: (
    QuantityDimension,
    Option<String>,
))
    ensures
        ({
            let (dimension, kept) = r;
            if dimensionless {
                dimension == QuantityDimension::Dimensionless && kept is None
            } else {
                match unit {
                    Some(u) => match unit_dimension_of(u@) {
                        Some(d) => dimension == d && (kept matches Some(k) && k@ == u@),
                        None => dimension == QuantityDimension::Dimensionless && kept is None,
                    },
                    None => dimension == QuantityDimension::Dimensionless && kept is None,
                }
            }
        }),
{
    if dimensionless {
        return (QuantityDimension::Dimensionless, None);
    }
    match unit {
        Some(u) => match unit_dimension(u) {
            Some(d) => (d, Some(u.to_owned())),
            None => (QuantityDimension::Dimensionless, None),
        },
        None => (QuantityDimension::Dimensionless, None),
    }
}

/// The stable name of a legacy post-processing operation.
pub open spec fn legacy_kind_name(kind: PostProcessingOperationType) -> Seq<char> {
    match kind {
        PostProcessingOperationType::Correction => "correction"@,
        PostProcessingOperationType::Fft => "fft"@,
        PostProcessingOperationType::Windowing => "windowing"@,
        PostProcessingOperationType::Resampling => "resampling"@,
        PostProcessingOperationType::HarmonicCalculation => "harmonic_calculation"@,
        PostProcessingOperationType::EventCounting => "event_counting"@,
        PostProcessingOperationType::ChannelMath => "channel_math"@,
        PostProcessingOperationType::Peak => "peak"@,
        PostProcessingOperationType::Custom => "custom"@,
    }
}

/// The stable name of a legacy post-processing operation.
pub fn legacy_post_processing_kind(kind: &PostProcessingOperationType) -> (r: &'static str)
    ensures
        r@ == legacy_kind_name(*kind),
{
    match kind {
        PostProcessingOperationType::Correction => "correction",
        PostProcessingOperationType::Fft => "fft",
        PostProcessingOperationType::Windowing => "windowing",
        PostProcessingOperationType::Resampling => "resampling",
        PostProcessingOperationType::HarmonicCalculation => "harmonic_calculation",
        PostProcessingOperationType::EventCounting => "event_counting",
        PostProcessingOperationType::ChannelMath => "channel_math",
        PostProcessingOperationType::Peak => "peak",
        PostProcessingOperationType::Custom => "custom",
    }
}

/// The post-processing steps that the runtime can execute.
pub open spec fn runtime_supported(kind: PostProcessingNodeKind) -> bool {
    kind == PostProcessingNodeKind::UnitConversion || kind == PostProcessingNodeKind::Aggregation
        || kind == PostProcessingNodeKind::MaximumSearch || kind == PostProcessingNodeKind::Average
        || kind == PostProcessingNodeKind::LimitComparison || kind
        == PostProcessingNodeKind::ReportField
}

/// Whether the runtime can execute the post-processing step.
pub fn post_processing_runtime_supported(kind: &PostProcessingNodeKind) -> (b: bool)
    ensures
        b == runtime_supported(*kind),
{
    matches!(
        kind,
        PostProcessingNodeKind::UnitConversion | PostProcessingNodeKind::Aggregation
            | PostProcessingNodeKind::MaximumSearch | PostProcessingNodeKind::Average
            | PostProcessingNodeKind::LimitComparison | PostProcessingNodeKind::ReportField
    )
}

/// Whether the value is `sha256:` followed by 64 lowercase hexadecimal digits.
pub fn valid_checksum(value: &str) -> (b: bool)
    ensures
        b == canonical_checksum(value@),
{
    is_canonical_checksum(value)
}

/// A date `YYYY-MM-DD` of ten ASCII characters: a year from 2000, a month in 1..=12 and
/// a day in 1..=31, each read as an unsigned number (which may carry a leading `+`).
pub open spec fn valid_iso_date_text(v: Seq<char>) -> bool {
    &&& v.len() == 10
    &&& forall|i: int| 0 <= i < 10 ==> (#[trigger] v[i] as int) < 128
    &&& v[4] == '-'
    &&& v[7] == '-'
    &&& (parsed_unsigned(v.subrange(0, 4), 65535) matches Some(year) && year >= 2000)
    &&& (parsed_unsigned(v.subrange(5, 7), 65535) matches Some(month) && 1 <= month <= 12)
    &&& (parsed_unsigned(v.subrange(8, 10), 65535) matches Some(day) && 1 <= day <= 31)
}

fn all_ascii(value: &str) -> (b: bool)
    ensures
        b == (forall|i: int| 0 <= i < value@.len() ==> (#[trigger] value@[i] as int) < 128),
{
    let n = value.unicode_len();
    let mut i: usize = 0;
    while i < n
        invariant
            n == value@.len(),
            i <= n,
            forall|k: int| 0 <= k < i ==> (#[trigger] value@[k] as int) < 128,
        decreases n - i,
    {
        if (value.get_char(i) as u32) >= 128 {
            return false;
        }
        i = i + 1;
    }
    true
}

/// Whether the value is an ISO calendar date as methods record them.
pub fn valid_iso_date(value: &str) -> (b: bool)
    ensures
        b == valid_iso_date_text(value@),
{
    if value.unicode_len() != 10 || !all_ascii(value) {
        return false;
    }
    if value.get_char(4) != '-' || value.get_char(7) != '-' {
        return false;
    }
    let year_text = value.substring_char(0, 4).to_owned();
    let month_text = value.substring_char(5, 7).to_owned();
    let day_text = value.substring_char(8, 10).to_owned();
    let year = parse_unsigned(&year_text, 65535);
    let month = parse_unsigned(&month_text, 65535);
    let day = parse_unsigned(&day_text, 65535);
    match (year, month, day) {
        (Some(y), Some(m), Some(d)) => y >= 2000 && 1 <= m && m <= 12 && 1 <= d && d <= 31,
        _ => false,
    }
}

/// Whether an earlier reference of the list names the same identity.
pub open spec fn identity_repeats(references: Seq<RevisionReference>, k: int) -> bool {
    exists|j: int| 0 <= j < k && #[trigger] references[j].identity_id@ == references[k].identity_id@
}

/// The defects of the first `n` revision references: a duplicate identity, then a
/// checksum that is not canonical.
pub open spec fn revision_reference_issues(
    references: Seq<RevisionReference>,
    path: Seq<char>,
    n: nat,
) -> Seq<WorkflowIssueView>
    decreases n,
{
    if n == 0 {
        seq![]
    } else {
        let k = (n - 1) as int;
        revision_reference_issues(references, path, (n - 1) as nat) + (if identity_repeats(references, k) {
            seq![
                WorkflowIssueView {
                    code: "duplicate_revision_reference"@,
                    path,
                    message: "duplicate revision reference "@ + references[k].identity_id@,
                },
            ]
        } else {
            seq![]
        }) + (if !canonical_checksum(references[k].definition_checksum@) {
            seq![
                WorkflowIssueView {
                    code: "invalid_revision_checksum"@,
                    path,
                    message: "revision references require canonical SHA-256 checksums"@,
                },
            ]
        } else {
            seq![]
        })
    }
}

fn identity_seen(references: &[RevisionReference], k: usize) -> (b: bool)
    requires
        k < references@.len(),
    ensures
        b == identity_repeats(references@, k as int),
{
    let mut j: usize = 0;
    while j < k
        invariant
            k < references@.len(),
            j <= k,
            forall|i: int|
                0 <= i < j ==> #[trigger] references@[i].identity_id@ != references@[k as int].identity_id@,
        decreases k - j,
    {
        if str_eq(references[j].identity_id.as_str(), references[k].identity_id.as_str()) {
            return true;
        }
        j = j + 1;
    }
    false
}

/// Checks a list of revision references: each identity once, each checksum canonical.
pub fn validate_revision_references(
    references: &[RevisionReference],
    path: &str,
    issues: &mut Vec<MethodWorkflowValidationIssue>,
)
    ensures
        workflow_issues_view(final(issues)@) == workflow_issues_view(old(issues)@)
            + revision_reference_issues(references@, path@, references@.len()),
{
    let ghost start = workflow_issues_view(issues@);
    let mut k: usize = 0;
    while k < references.len()
        invariant
            k <= references@.len(),
            workflow_issues_view(issues@) == start + revision_reference_issues(
                references@,
                path@,
                k as nat,
            ),
        decreases references@.len() - k,
    {
        let ghost before = workflow_issues_view(issues@);
        let repeated = identity_seen(references, k);
        push_found(
            issues,
            repeated,
            "duplicate_revision_reference",
            path,
            concat("duplicate revision reference ", references[k].identity_id.as_str()),
        );
        let bad = !valid_checksum(references[k].definition_checksum.as_str());
        push_found(
            issues,
            bad,
            "invalid_revision_checksum",
            path,
            "revision references require canonical SHA-256 checksums".to_owned(),
        );
        assert(workflow_issues_view(issues@) =~= start + revision_reference_issues(
            references@,
            path@,
            (k + 1) as nat,
        ));
        k = k + 1;
    }
}

// ---------------------------------------------------------------------------
// Limits and post-processing of a version 2 method
// ---------------------------------------------------------------------------

/// A limit rule of a method, with what its checks read (the thresholds, which are
/// quantities in floating point, are not part of this view).
#[derive(Clone, Debug, PartialEq, Eq)]
pub struct MethodLimitRule {
    pub limit_id: String,
    pub label: String,
    pub classification: LimitClassification,
    pub evaluated_variable_id: String,
    pub comparison: LimitComparison,
    pub phase: AvailabilityPhase,
    pub severity: String,
    pub action: LimitAction,
    pub contributes_to_verdict: bool,
    pub explanation: String,
}

/// A post-processing step of a method, with what its checks read (its free-form JSON
/// parameters are not part of this view).
#[derive(Clone, Debug, PartialEq, Eq)]
pub struct PostProcessingNode {
    pub node_id: String,
    pub label: String,
    pub node_kind: PostProcessingNodeKind,
    pub inputs: Vec<String>,
    pub outputs: Vec<String>,
    pub limit_reference_id: Option<String>,
}

/// Whether the list holds the text.
pub open spec fn holds_text(ids: Seq<Seq<char>>, v: Seq<char>) -> bool {
    ids.contains(v)
}

fn holds(ids: &[String], v: &str) -> (b: bool)
    ensures
        b == holds_text(views(ids@), v@),
{
    let mut j: usize = 0;
    while j < ids.len()
        invariant
            j <= ids@.len(),
            forall|k: int| 0 <= k < j ==> (#[trigger] ids@[k])@ != v@,
        decreases ids@.len() - j,
    {
        if str_eq(ids[j].as_str(), v) {
            assert(views(ids@)[j as int] == v@);
            return true;
        }
        j = j + 1;
    }
    assert forall|k: int| 0 <= k < views(ids@).len() implies views(ids@)[k] != v@ by {
        assert(views(ids@)[k] == ids@[k]@);
    }
    false
}

/// The defects of the limit at `k`: an identity that is not a token or repeats an
/// earlier one, an unknown evaluated variable, and a runtime protection limit that
/// would count in the conformity verdict.
pub open spec fn limit_issues_at(limits: Seq<MethodLimitRule>, variable_ids: Seq<Seq<char>>, k: int) -> Seq<
    WorkflowIssueView,
> {
    let limit = limits[k];
    let id = limit.limit_id@;
    when_found(
        !stable_token(id) || exists|j: int| 0 <= j < k && (#[trigger] limits[j]).limit_id@ == id,
        wissue("invalid_or_duplicate_limit", "limits", "invalid or duplicate limit "@ + id),
    ) + when_found(
        !holds_text(variable_ids, limit.evaluated_variable_id@),
        wissue(
            "unknown_limit_variable",
            "limits[].evaluated_variable_id",
            "limit "@ + id + " references an unknown variable"@,
        ),
    ) + when_found(
        (limit.classification == LimitClassification::Safety || limit.classification
            == LimitClassification::InstrumentProtection) && limit.contributes_to_verdict,
        wissue(
            "runtime_limit_contributes_to_verdict",
            "limits[].contributes_to_verdict",
            "runtime protection limits must remain distinct from final conformity verdicts"@,
        ),
    )
}

/// The defects of the first `n` limits, limit by limit.
pub open spec fn limits_issues(limits: Seq<MethodLimitRule>, variable_ids: Seq<Seq<char>>, n: nat) -> Seq<
    WorkflowIssueView,
>
    decreases n,
{
    if n == 0 {
        seq![]
    } else {
        limits_issues(limits, variable_ids, (n - 1) as nat) + limit_issues_at(limits, variable_ids, n - 1)
    }
}

fn limit_id_repeats(limits: &[MethodLimitRule], k: usize) -> (r: bool)
    requires
        k < limits@.len(),
    ensures
        r == exists|j: int| 0 <= j < k && (#[trigger] limits@[j]).limit_id@ == limits@[k as int].limit_id@,
{
    let mut j: usize = 0;
    while j < k
        invariant
            j <= k < limits@.len(),
            forall|i: int| 0 <= i < j ==> (#[trigger] limits@[i]).limit_id@ != limits@[k as int].limit_id@,
        decreases k - j,
    {
        if str_eq(limits[j].limit_id.as_str(), limits[k].limit_id.as_str()) {
            assert(limits@[j as int].limit_id@ == limits@[k as int].limit_id@);
            return true;
        }
        j = j + 1;
    }
    false
}

/// Checks the limit rules of a method.
pub fn validate_limits(
    limits: &[MethodLimitRule],
    variable_ids: &[String],
    issues: &mut Vec<MethodWorkflowValidationIssue>,
)
    ensures
        workflow_issues_view(final(issues)@) == workflow_issues_view(old(issues)@) + limits_issues(
            limits@,
            views(variable_ids@),
            limits@.len(),
        ),
{
    let ghost start = workflow_issues_view(issues@);
    let mut k: usize = 0;
    while k < limits.len()
        invariant
            k <= limits@.len(),
            workflow_issues_view(issues@) == start + limits_issues(limits@, views(variable_ids@), k as nat),
        decreases limits@.len() - k,
    {
        let limit = &limits[k];
        let ghost before = workflow_issues_view(issues@);
        let bad = !valid_token(limit.limit_id.as_str()) || limit_id_repeats(limits, k);
        push_found(
            issues,
            bad,
            "invalid_or_duplicate_limit",
            "limits",
            concat("invalid or duplicate limit ", limit.limit_id.as_str()),
        );
        let unknown = !holds(variable_ids, limit.evaluated_variable_id.as_str());
        let message = concat(
            concat("limit ", limit.limit_id.as_str()).as_str(),
            " references an unknown variable",
        );
        push_found(issues, unknown, "unknown_limit_variable", "limits[].evaluated_variable_id", message);
        let protective = match limit.classification {
            LimitClassification::Safety | LimitClassification::InstrumentProtection => true,
            _ => false,
        };
        push_found(
            issues,
            protective && limit.contributes_to_verdict,
            "runtime_limit_contributes_to_verdict",
            "limits[].contributes_to_verdict",
            "runtime protection limits must remain distinct from final conformity verdicts".to_owned(),
        );
        assert(workflow_issues_view(issues@) =~= start + limits_issues(limits@, views(variable_ids@), (k + 1) as nat));
        k = k + 1;
    }
}

/// Whether the step lists the signal among its outputs.
pub open spec fn produces(node: PostProcessingNode, signal: Seq<char>) -> bool {
    exists|o: int| 0 <= o < node.outputs@.len() && (#[trigger] node.outputs@[o])@ == signal
}

/// Whether some step produces the signal.
pub open spec fn produced(nodes: Seq<PostProcessingNode>, signal: Seq<char>) -> bool {
    exists|j: int| 0 <= j < nodes.len() && produces(#[trigger] nodes[j], signal)
}

/// The last step that produces the signal: the owner recorded for it.
pub open spec fn is_last_producer(nodes: Seq<PostProcessingNode>, signal: Seq<char>, j: int) -> bool {
    &&& 0 <= j < nodes.len()
    &&& produces(nodes[j], signal)
    &&& forall|i: int| j < i < nodes.len() ==> !produces(#[trigger] nodes[i], signal)
}

/// The identity of the step that owns a produced signal.
pub open spec fn owner_of(nodes: Seq<PostProcessingNode>, signal: Seq<char>) -> Seq<char> {
    nodes[choose|j: int| is_last_producer(nodes, signal, j)].node_id@
}

/// Whether the step `a` reads a signal owned by the step `b`.
pub open spec fn depends_on(nodes: Seq<PostProcessingNode>, a: Seq<char>, b: Seq<char>) -> bool {
    exists|k: int, e: int|
        0 <= k < nodes.len() && nodes[k].node_id@ == a && 0 <= e < nodes[k].inputs@.len()
            && produced(nodes, #[trigger] nodes[k].inputs@[e]@) && owner_of(
            nodes,
            nodes[k].inputs@[e]@,
        ) == b
}

/// Whether `b` is reached from `a` along at least one and at most `m` dependencies.
pub open spec fn depends_within(nodes: Seq<PostProcessingNode>, a: Seq<char>, b: Seq<char>, m: nat) -> bool
    decreases m,
{
    if m == 0 {
        false
    } else {
        depends_on(nodes, a, b) || exists|q: int|
            0 <= q < nodes.len() && depends_within(nodes, a, (#[trigger] nodes[q]).node_id@, (m - 1) as nat)
                && depends_on(nodes, nodes[q].node_id@, b)
    }
}

/// Whether the step depends on itself through its inputs: a path of dependencies that
/// returns to it, which never needs more steps than there are.
pub open spec fn in_dependency_cycle(nodes: Seq<PostProcessingNode>, a: Seq<char>) -> bool {
    depends_within(nodes, a, a, nodes.len())
}

/// Whether the output at `o` of the step at `k` was already listed: by an earlier step,
/// or earlier by the same step.
pub open spec fn output_taken(nodes: Seq<PostProcessingNode>, k: int, o: int) -> bool {
    let out = nodes[k].outputs@[o]@;
    (exists|j: int| 0 <= j < k && produces(#[trigger] nodes[j], out)) || exists|p: int|
        0 <= p < o && (#[trigger] nodes[k].outputs@[p])@ == out
}

/// The defects of the first `m` outputs of the step at `k`.
pub open spec fn output_issues(nodes: Seq<PostProcessingNode>, k: int, m: nat) -> Seq<WorkflowIssueView>
    decreases m,
{
    if m == 0 {
        seq![]
    } else {
        let o = m - 1;
        output_issues(nodes, k, (m - 1) as nat) + when_found(
            output_taken(nodes, k, o),
            wissue(
                "duplicate_post_processing_output",
                "post_processing[].outputs",
                "post-processing output "@ + nodes[k].outputs@[o]@ + " has multiple owners"@,
            ),
        )
    }
}

/// Whether a limit has the identity.
pub open spec fn has_limit(limits: Seq<MethodLimitRule>, id: Seq<char>) -> bool {
    exists|j: int| 0 <= j < limits.len() && (#[trigger] limits[j]).limit_id@ == id
}

/// The defects of the step at `k` on its own: its identity, its outputs, and the limit
/// that a limit comparison needs.
pub open spec fn step_issues(nodes: Seq<PostProcessingNode>, limits: Seq<MethodLimitRule>, k: int) -> Seq<
    WorkflowIssueView,
> {
    let node = nodes[k];
    let id = node.node_id@;
    when_found(
        !stable_token(id) || exists|j: int| 0 <= j < k && (#[trigger] nodes[j]).node_id@ == id,
        wissue(
            "invalid_or_duplicate_post_processing_node",
            "post_processing",
            "invalid or duplicate post-processing node "@ + id,
        ),
    ) + output_issues(nodes, k, node.outputs@.len()) + when_found(
        node.node_kind == PostProcessingNodeKind::LimitComparison && !(match node.limit_reference_id {
            Some(r) => has_limit(limits, r@),
            None => false,
        }),
        wissue(
            "missing_post_processing_limit",
            "post_processing[].limit_reference_id",
            "limit comparison "@ + id + " needs a valid limit reference"@,
        ),
    )
}

/// The defects of the first `m` inputs of the step at `k`: an input that is neither a
/// variable nor the output of a step.
pub open spec fn input_issues(
    nodes: Seq<PostProcessingNode>,
    variable_ids: Seq<Seq<char>>,
    k: int,
    m: nat,
) -> Seq<WorkflowIssueView>
    decreases m,
{
    if m == 0 {
        seq![]
    } else {
        let input = nodes[k].inputs@[m - 1]@;
        input_issues(nodes, variable_ids, k, (m - 1) as nat) + when_found(
            !holds_text(variable_ids, input) && !produced(nodes, input),
            wissue(
                "unknown_post_processing_input",
                "post_processing[].inputs",
                nodes[k].node_id@ + " references unknown input "@ + input,
            ),
        )
    }
}

/// Whether the step at `k` reads an input that some step produces.
pub open spec fn has_dependency(nodes: Seq<PostProcessingNode>, k: int) -> bool {
    exists|e: int| 0 <= e < nodes[k].inputs@.len() && produced(nodes, (#[trigger] nodes[k].inputs@[e])@)
}

/// The identities of the first `n` steps that read a produced input, in step order.
pub open spec fn dependent_ids(nodes: Seq<PostProcessingNode>, n: nat) -> Seq<Seq<char>>
    decreases n,
{
    if n == 0 {
        seq![]
    } else {
        dependent_ids(nodes, (n - 1) as nat) + if has_dependency(nodes, n - 1) {
            seq![nodes[n - 1].node_id@]
        } else {
            seq![]
        }
    }
}

/// The cycle defect of each identity of the list that depends on itself, in list order.
pub open spec fn cycle_issues(nodes: Seq<PostProcessingNode>, ids: Seq<Seq<char>>) -> Seq<WorkflowIssueView>
    decreases ids.len(),
{
    if ids.len() == 0 {
        seq![]
    } else {
        cycle_issues(nodes, ids.drop_last()) + when_found(
            in_dependency_cycle(nodes, ids.last()),
            wissue("post_processing_cycle", "post_processing", "post-processing cycle includes "@ + ids.last()),
        )
    }
}

/// The defects of the first `n` steps on their own.
pub open spec fn steps_issues(nodes: Seq<PostProcessingNode>, limits: Seq<MethodLimitRule>, n: nat) -> Seq<
    WorkflowIssueView,
>
    decreases n,
{
    if n == 0 {
        seq![]
    } else {
        steps_issues(nodes, limits, (n - 1) as nat) + step_issues(nodes, limits, n - 1)
    }
}

/// The input defects of the first `n` steps.
pub open spec fn inputs_issues(nodes: Seq<PostProcessingNode>, variable_ids: Seq<Seq<char>>, n: nat) -> Seq<
    WorkflowIssueView,
>
    decreases n,
{
    if n == 0 {
        seq![]
    } else {
        inputs_issues(nodes, variable_ids, (n - 1) as nat) + input_issues(
            nodes,
            variable_ids,
            n - 1,
            nodes[n - 1].inputs@.len(),
        )
    }
}

/// The defects of the post-processing of a method: each step on its own, then the
/// inputs of each step, then, in the text order of their identities, the steps that
/// read a produced input and depend on themselves.
pub open spec fn post_processing_issues(
    nodes: Seq<PostProcessingNode>,
    variable_ids: Seq<Seq<char>>,
    limits: Seq<MethodLimitRule>,
) -> Seq<WorkflowIssueView> {
    steps_issues(nodes, limits, nodes.len()) + inputs_issues(nodes, variable_ids, nodes.len())
        + cycle_issues(nodes, sorted_distinct(dependent_ids(nodes, nodes.len())))
}

fn node_produces(node: &PostProcessingNode, signal: &str) -> (b: bool)
    ensures
        b == produces(*node, signal@),
{
    let mut o: usize = 0;
    while o < node.outputs.len()
        invariant
            o <= node.outputs@.len(),
            forall|p: int| 0 <= p < o ==> (#[trigger] node.outputs@[p])@ != signal@,
        decreases node.outputs@.len() - o,
    {
        if str_eq(node.outputs[o].as_str(), signal) {
            return true;
        }
        o = o + 1;
    }
    false
}

/// The last step that produces the signal, if any.
fn last_producer(nodes: &[PostProcessingNode], signal: &str) -> (r: Option<usize>)
    ensures
        match r {
            Some(j) => is_last_producer(nodes@, signal@, j as int) && owner_of(nodes@, signal@)
                == nodes@[j as int].node_id@ && produced(nodes@, signal@),
            None => !produced(nodes@, signal@),
        },
{
    let mut found: Option<usize> = None;
    let mut j: usize = 0;
    while j < nodes.len()
        invariant
            j <= nodes@.len(),
            match found {
                Some(f) => f < j && produces(nodes@[f as int], signal@) && forall|i: int|
                    f < i < j ==> !produces(#[trigger] nodes@[i], signal@),
                None => forall|i: int| 0 <= i < j ==> !produces(#[trigger] nodes@[i], signal@),
            },
        decreases nodes@.len() - j,
    {
        if node_produces(&nodes[j], signal) {
            found = Some(j);
        }
        j = j + 1;
    }
    match found {
        Some(f) => {
            proof {
                assert(is_last_producer(nodes@, signal@, f as int));
                let c = choose|c: int| is_last_producer(nodes@, signal@, c);
                assert(is_last_producer(nodes@, signal@, c));
                if c < f {
                    assert(!produces(nodes@[f as int], signal@));
                } else if c > f {
                    assert(!produces(nodes@[c], signal@));
                }
            }
        },
        None => {
            proof {
                assert forall|i: int| 0 <= i < nodes@.len() implies !produces(#[trigger] nodes@[i], signal@) by {}
            }
        },
    }
    found
}

/// Whether the step with identity `a` reads a signal owned by the step with identity `b`.
fn depends(nodes: &[PostProcessingNode], a: &str, b: &str) -> (r: bool)
    ensures
        r == depends_on(nodes@, a@, b@),
{
    let mut k: usize = 0;
    while k < nodes.len()
        invariant
            k <= nodes@.len(),
            forall|i: int, e: int|
                0 <= i < k && nodes@[i].node_id@ == a@ && 0 <= e < nodes@[i].inputs@.len() ==> !(produced(
                    nodes@,
                    #[trigger] nodes@[i].inputs@[e]@,
                ) && owner_of(nodes@, nodes@[i].inputs@[e]@) == b@),
        decreases nodes@.len() - k,
    {
        if str_eq(nodes[k].node_id.as_str(), a) {
            let inputs = &nodes[k].inputs;
            let mut e: usize = 0;
            while e < inputs.len()
                invariant
                    k < nodes@.len(),
                    *inputs == nodes@[k as int].inputs,
                    nodes@[k as int].node_id@ == a@,
                    e <= inputs@.len(),
                    forall|q: int|
                        0 <= q < e ==> !(produced(nodes@, (#[trigger] inputs@[q])@) && owner_of(
                            nodes@,
                            inputs@[q]@,
                        ) == b@),
                decreases inputs@.len() - e,
            {
                match last_producer(nodes, inputs[e].as_str()) {
                    Some(j) => {
                        if str_eq(nodes[j].node_id.as_str(), b) {
                            assert(produced(nodes@, nodes@[k as int].inputs@[e as int]@) && owner_of(
                                nodes@,
                                nodes@[k as int].inputs@[e as int]@,
                            ) == b@);
                            return true;
                        }
                    },
                    None => {},
                }
                e = e + 1;
            }
        }
        k = k + 1;
    }
    false
}

/// The dependencies between all steps, by position: `d[q][t]` when the step at `q`
/// reads a signal owned by the step at `t`.
fn dependency_matrix(nodes: &[PostProcessingNode]) -> (d: Vec<Vec<bool>>)
    ensures
        d@.len() == nodes@.len(),
        forall|q: int| 0 <= q < nodes@.len() ==> (#[trigger] d@[q])@.len() == nodes@.len(),
        forall|q: int, t: int|
            0 <= q < nodes@.len() && 0 <= t < nodes@.len() ==> (#[trigger] d@[q]@[t]) == depends_on(
                nodes@,
                nodes@[q].node_id@,
                nodes@[t].node_id@,
            ),
{
    let n = nodes.len();
    let mut d: Vec<Vec<bool>> = Vec::new();
    let mut q: usize = 0;
    while q < n
        invariant
            n == nodes@.len(),
            q <= n,
            d@.len() == q,
            forall|i: int| 0 <= i < q ==> (#[trigger] d@[i])@.len() == n,
            forall|i: int, t: int|
                0 <= i < q && 0 <= t < n ==> (#[trigger] d@[i]@[t]) == depends_on(
                    nodes@,
                    nodes@[i].node_id@,
                    nodes@[t].node_id@,
                ),
        decreases n - q,
    {
        let mut row: Vec<bool> = Vec::new();
        let mut t: usize = 0;
        while t < n
            invariant
                n == nodes@.len(),
                q < n,
                t <= n,
                row@.len() == t,
                forall|u: int|
                    0 <= u < t ==> (#[trigger] row@[u]) == depends_on(
                        nodes@,
                        nodes@[q as int].node_id@,
                        nodes@[u].node_id@,
                    ),
            decreases n - t,
        {
            row.push(depends(nodes, nodes[q].node_id.as_str(), nodes[t].node_id.as_str()));
            t = t + 1;
        }
        d.push(row);
        q = q + 1;
    }
    d
}

/// Whether the step at `p` depends on itself, from the dependency matrix.
fn dependency_cycle(nodes: &[PostProcessingNode], d: &Vec<Vec<bool>>, p: usize) -> (r: bool)
    requires
        p < nodes@.len(),
        d@.len() == nodes@.len(),
        forall|q: int| 0 <= q < nodes@.len() ==> (#[trigger] d@[q])@.len() == nodes@.len(),
        forall|q: int, t: int|
            0 <= q < nodes@.len() && 0 <= t < nodes@.len() ==> (#[trigger] d@[q]@[t]) == depends_on(
                nodes@,
                nodes@[q].node_id@,
                nodes@[t].node_id@,
            ),
    ensures
        r == in_dependency_cycle(nodes@, nodes@[p as int].node_id@),
{
    let n = nodes.len();
    let ghost a = nodes@[p as int].node_id@;
    let mut cur: Vec<bool> = Vec::new();
    let mut t: usize = 0;
    while t < n
        invariant
            n == nodes@.len(),
            t <= n,
            cur@.len() == t,
            forall|u: int| 0 <= u < t ==> !(#[trigger] cur@[u]),
        decreases n - t,
    {
        cur.push(false);
        t = t + 1;
    }
    let mut round: usize = 0;
    while round + 1 < n
        invariant
            n == nodes@.len(),
            p < n,
            a == nodes@[p as int].node_id@,
            round < n,
            cur@.len() == n,
            d@.len() == n,
            forall|q: int| 0 <= q < n ==> (#[trigger] d@[q])@.len() == n,
            forall|q: int, t: int|
                0 <= q < n && 0 <= t < n ==> (#[trigger] d@[q]@[t]) == depends_on(
                    nodes@,
                    nodes@[q].node_id@,
                    nodes@[t].node_id@,
                ),
            forall|u: int| 0 <= u < n ==> (#[trigger] cur@[u]) == depends_within(nodes@, a, nodes@[u].node_id@, round as nat),
        decreases n - round,
    {
        let mut next: Vec<bool> = Vec::new();
        let mut t: usize = 0;
        while t < n
            invariant
                n == nodes@.len(),
                p < n,
                a == nodes@[p as int].node_id@,
                round + 1 < n,
                cur@.len() == n,
                d@.len() == n,
                forall|q: int| 0 <= q < n ==> (#[trigger] d@[q])@.len() == n,
                forall|q: int, t: int|
                    0 <= q < n && 0 <= t < n ==> (#[trigger] d@[q]@[t]) == depends_on(
                        nodes@,
                        nodes@[q].node_id@,
                        nodes@[t].node_id@,
                    ),
                forall|u: int| 0 <= u < n ==> (#[trigger] cur@[u]) == depends_within(nodes@, a, nodes@[u].node_id@, round as nat),
                t <= n,
                next@.len() == t,
                forall|u: int| 0 <= u < t ==> (#[trigger] next@[u]) == depends_within(nodes@, a, nodes@[u].node_id@, (round + 1) as nat),
            decreases n - t,
        {
            let mut hit = d[p][t];
            let mut q: usize = 0;
            while q < n
                invariant
                    n == nodes@.len(),
                    p < n,
                    t < n,
                    a == nodes@[p as int].node_id@,
                    cur@.len() == n,
                    d@.len() == n,
                    forall|q: int| 0 <= q < n ==> (#[trigger] d@[q])@.len() == n,
                    forall|q: int, t: int|
                        0 <= q < n && 0 <= t < n ==> (#[trigger] d@[q]@[t]) == depends_on(
                            nodes@,
                            nodes@[q].node_id@,
                            nodes@[t].node_id@,
                        ),
                    forall|u: int| 0 <= u < n ==> (#[trigger] cur@[u]) == depends_within(nodes@, a, nodes@[u].node_id@, round as nat),
                    q <= n,
                    hit == (depends_on(nodes@, a, nodes@[t as int].node_id@) || exists|i: int|
                        0 <= i < q && depends_within(nodes@, a, (#[trigger] nodes@[i]).node_id@, round as nat)
                            && depends_on(nodes@, nodes@[i].node_id@, nodes@[t as int].node_id@)),
                decreases n - q,
            {
                if !hit && cur[q] && d[q][t] {
                    hit = true;
                }
                q = q + 1;
            }
            next.push(hit);
            t = t + 1;
        }
        cur = next;
        round = round + 1;
    }
    let mut hit = d[p][p];
    let mut q: usize = 0;
    while q < n
        invariant
            n == nodes@.len(),
            p < n,
            round + 1 == n,
            a == nodes@[p as int].node_id@,
            cur@.len() == n,
            d@.len() == n,
            forall|q: int| 0 <= q < n ==> (#[trigger] d@[q])@.len() == n,
            forall|q: int, t: int|
                0 <= q < n && 0 <= t < n ==> (#[trigger] d@[q]@[t]) == depends_on(
                    nodes@,
                    nodes@[q].node_id@,
                    nodes@[t].node_id@,
                ),
            forall|u: int| 0 <= u < n ==> (#[trigger] cur@[u]) == depends_within(nodes@, a, nodes@[u].node_id@, round as nat),
            q <= n,
            hit == (depends_on(nodes@, a, a) || exists|i: int|
                0 <= i < q && depends_within(nodes@, a, (#[trigger] nodes@[i]).node_id@, round as nat)
                    && depends_on(nodes@, nodes@[i].node_id@, a)),
        decreases n - q,
    {
        if !hit && cur[q] && d[q][p] {
            hit = true;
        }
        q = q + 1;
    }
    hit
}

fn output_listed_before(nodes: &[PostProcessingNode], k: usize, o: usize) -> (r: bool)
    requires
        k < nodes@.len(),
        o < nodes@[k as int].outputs@.len(),
    ensures
        r == output_taken(nodes@, k as int, o as int),
{
    let out = nodes[k].outputs[o].as_str();
    let mut j: usize = 0;
    while j < k
        invariant
            k < nodes@.len(),
            o < nodes@[k as int].outputs@.len(),
            out@ == nodes@[k as int].outputs@[o as int]@,
            j <= k,
            forall|i: int| 0 <= i < j ==> !produces(#[trigger] nodes@[i], out@),
        decreases k - j,
    {
        if node_produces(&nodes[j], out) {
            return true;
        }
        j = j + 1;
    }
    let mut q: usize = 0;
    while q < o
        invariant
            k < nodes@.len(),
            o < nodes@[k as int].outputs@.len(),
            out@ == nodes@[k as int].outputs@[o as int]@,
            q <= o,
            forall|i: int| 0 <= i < q ==> (#[trigger] nodes@[k as int].outputs@[i])@ != out@,
        decreases o - q,
    {
        if str_eq(nodes[k].outputs[q].as_str(), out) {
            return true;
        }
        q = q + 1;
    }
    false
}

fn limit_known(limits: &[MethodLimitRule], id: &str) -> (b: bool)
    ensures
        b == has_limit(limits@, id@),
{
    let mut j: usize = 0;
    while j < limits.len()
        invariant
            j <= limits@.len(),
            forall|i: int| 0 <= i < j ==> (#[trigger] limits@[i]).limit_id@ != id@,
        decreases limits@.len() - j,
    {
        if str_eq(limits[j].limit_id.as_str(), id) {
            return true;
        }
        j = j + 1;
    }
    false
}

fn node_id_repeats(nodes: &[PostProcessingNode], k: usize) -> (r: bool)
    requires
        k < nodes@.len(),
    ensures
        r == exists|j: int| 0 <= j < k && (#[trigger] nodes@[j]).node_id@ == nodes@[k as int].node_id@,
{
    let mut j: usize = 0;
    while j < k
        invariant
            j <= k < nodes@.len(),
            forall|i: int| 0 <= i < j ==> (#[trigger] nodes@[i]).node_id@ != nodes@[k as int].node_id@,
        decreases k - j,
    {
        if str_eq(nodes[j].node_id.as_str(), nodes[k].node_id.as_str()) {
            assert(nodes@[j as int].node_id@ == nodes@[k as int].node_id@);
            return true;
        }
        j = j + 1;
    }
    false
}

fn check_post_processing_step(
    nodes: &[PostProcessingNode],
    limits: &[MethodLimitRule],
    k: usize,
    issues: &mut Vec<MethodWorkflowValidationIssue>,
)
    requires
        k < nodes@.len(),
    ensures
        workflow_issues_view(final(issues)@) == workflow_issues_view(old(issues)@) + step_issues(
            nodes@,
            limits@,
            k as int,
        ),
{
    let ghost start = workflow_issues_view(issues@);
    let node = &nodes[k];
    let bad = !valid_token(node.node_id.as_str()) || node_id_repeats(nodes, k);
    push_found(
        issues,
        bad,
        "invalid_or_duplicate_post_processing_node",
        "post_processing",
        concat("invalid or duplicate post-processing node ", node.node_id.as_str()),
    );
    let ghost after_id = workflow_issues_view(issues@);
    let mut o: usize = 0;
    while o < node.outputs.len()
        invariant
            k < nodes@.len(),
            *node == nodes@[k as int],
            o <= node.outputs@.len(),
            workflow_issues_view(issues@) == after_id + output_issues(nodes@, k as int, o as nat),
        decreases node.outputs@.len() - o,
    {
        let taken = output_listed_before(nodes, k, o);
        let mut message = concat("post-processing output ", node.outputs[o].as_str());
        message = concat(message.as_str(), " has multiple owners");
        push_found(issues, taken, "duplicate_post_processing_output", "post_processing[].outputs", message);
        o = o + 1;
    }
    let missing = match node.node_kind {
        PostProcessingNodeKind::LimitComparison => match &node.limit_reference_id {
            Some(r) => !limit_known(limits, r.as_str()),
            None => true,
        },
        _ => false,
    };
    let mut message = concat("limit comparison ", node.node_id.as_str());
    message = concat(message.as_str(), " needs a valid limit reference");
    push_found(
        issues,
        missing,
        "missing_post_processing_limit",
        "post_processing[].limit_reference_id",
        message,
    );
    assert(workflow_issues_view(issues@) =~= start + step_issues(nodes@, limits@, k as int));
}

fn check_post_processing_inputs(
    nodes: &[PostProcessingNode],
    variable_ids: &[String],
    k: usize,
    issues: &mut Vec<MethodWorkflowValidationIssue>,
)
    requires
        k < nodes@.len(),
    ensures
        workflow_issues_view(final(issues)@) == workflow_issues_view(old(issues)@) + input_issues(
            nodes@,
            views(variable_ids@),
            k as int,
            nodes@[k as int].inputs@.len(),
        ),
{
    let ghost start = workflow_issues_view(issues@);
    let node = &nodes[k];
    let mut e: usize = 0;
    while e < node.inputs.len()
        invariant
            k < nodes@.len(),
            *node == nodes@[k as int],
            e <= node.inputs@.len(),
            workflow_issues_view(issues@) == start + input_issues(nodes@, views(variable_ids@), k as int, e as nat),
        decreases node.inputs@.len() - e,
    {
        let input = node.inputs[e].as_str();
        let unknown = !holds(variable_ids, input) && last_producer(nodes, input).is_none();
        let mut message = concat(node.node_id.as_str(), " references unknown input ");
        message = concat(message.as_str(), input);
        push_found(issues, unknown, "unknown_post_processing_input", "post_processing[].inputs", message);
        e = e + 1;
    }
}

fn reads_produced(nodes: &[PostProcessingNode], k: usize) -> (b: bool)
    requires
        k < nodes@.len(),
    ensures
        b == has_dependency(nodes@, k as int),
{
    let inputs = &nodes[k].inputs;
    let mut e: usize = 0;
    while e < inputs.len()
        invariant
            k < nodes@.len(),
            *inputs == nodes@[k as int].inputs,
            e <= inputs@.len(),
            forall|q: int| 0 <= q < e ==> !produced(nodes@, (#[trigger] inputs@[q])@),
        decreases inputs@.len() - e,
    {
        if last_producer(nodes, inputs[e].as_str()).is_some() {
            return true;
        }
        e = e + 1;
    }
    false
}

fn first_with_id(nodes: &[PostProcessingNode], id: &str) -> (r: Option<usize>)
    ensures
        match r {
            Some(p) => p < nodes@.len() && nodes@[p as int].node_id@ == id@,
            None => forall|i: int| 0 <= i < nodes@.len() ==> (#[trigger] nodes@[i]).node_id@ != id@,
        },
{
    let mut j: usize = 0;
    while j < nodes.len()
        invariant
            j <= nodes@.len(),
            forall|i: int| 0 <= i < j ==> (#[trigger] nodes@[i]).node_id@ != id@,
        decreases nodes@.len() - j,
    {
        if str_eq(nodes[j].node_id.as_str(), id) {
            return Some(j);
        }
        j = j + 1;
    }
    None
}

/// A step identity that no step has depends on nothing.
proof fn lemma_no_step_no_dependency(nodes: Seq<PostProcessingNode>, a: Seq<char>, b: Seq<char>, m: nat)
    requires
        forall|i: int| 0 <= i < nodes.len() ==> (#[trigger] nodes[i]).node_id@ != a,
    ensures
        !depends_within(nodes, a, b, m),
    decreases m,
{
    if m > 0 {
        assert forall|q: int| 0 <= q < nodes.len() implies !depends_within(
            nodes,
            a,
            (#[trigger] nodes[q]).node_id@,
            (m - 1) as nat,
        ) by {
            lemma_no_step_no_dependency(nodes, a, nodes[q].node_id@, (m - 1) as nat);
        }
    }
}

/// Checks the post-processing steps of a method: each step, then the inputs of each
/// step, then the steps that depend on themselves.
pub fn validate_post_processing(
    nodes: &[PostProcessingNode],
    variable_ids: &[String],
    limits: &[MethodLimitRule],
    issues: &mut Vec<MethodWorkflowValidationIssue>,
)
    ensures
        workflow_issues_view(final(issues)@) == workflow_issues_view(old(issues)@)
            + post_processing_issues(nodes@, views(variable_ids@), limits@),
{
    let ghost start = workflow_issues_view(issues@);
    let n = nodes.len();
    let mut k: usize = 0;
    while k < n
        invariant
            n == nodes@.len(),
            k <= n,
            workflow_issues_view(issues@) == start + steps_issues(nodes@, limits@, k as nat),
        decreases n - k,
    {
        check_post_processing_step(nodes, limits, k, issues);
        k = k + 1;
    }
    let ghost after_steps = workflow_issues_view(issues@);
    let mut k: usize = 0;
    while k < n
        invariant
            n == nodes@.len(),
            k <= n,
            workflow_issues_view(issues@) == after_steps + inputs_issues(nodes@, views(variable_ids@), k as nat),
        decreases n - k,
    {
        check_post_processing_inputs(nodes, variable_ids, k, issues);
        k = k + 1;
    }
    let ghost after_inputs = workflow_issues_view(issues@);
    let mut dependent: Vec<String> = Vec::new();
    let mut k: usize = 0;
    while k < n
        invariant
            n == nodes@.len(),
            k <= n,
            views(dependent@) == dependent_ids(nodes@, k as nat),
        decreases n - k,
    {
        if reads_produced(nodes, k) {
            let ghost before = dependent@;
            dependent.push(nodes[k].node_id.clone());
            assert(dependent@ == before.push(dependent@[before.len() as int]));
            assert(views(dependent@) =~= dependent_ids(nodes@, (k + 1) as nat));
        } else {
            assert(views(dependent@) =~= dependent_ids(nodes@, (k + 1) as nat));
        }
        k = k + 1;
    }
    let keys = sort_distinct(dependent);
    let ghost key_views = views(keys@);
    let d = dependency_matrix(nodes);
    let mut i: usize = 0;
    assert(key_views.take(0) =~= Seq::<Seq<char>>::empty());
    while i < keys.len()
        invariant
            n == nodes@.len(),
            key_views == views(keys@),
            key_views.len() == keys@.len(),
            i <= keys@.len(),
            d@.len() == n,
            forall|q: int| 0 <= q < n ==> (#[trigger] d@[q])@.len() == n,
            forall|q: int, t: int|
                0 <= q < n && 0 <= t < n ==> (#[trigger] d@[q]@[t]) == depends_on(
                    nodes@,
                    nodes@[q].node_id@,
                    nodes@[t].node_id@,
                ),
            workflow_issues_view(issues@) == after_inputs + cycle_issues(nodes@, key_views.take(i as int)),
        decreases keys@.len() - i,
    {
        let key = keys[i].as_str();
        assert(key_views[i as int] == key@);
        let cyclic = match first_with_id(nodes, key) {
            Some(p) => dependency_cycle(nodes, &d, p),
            None => {
                proof {
                    lemma_no_step_no_dependency(nodes@, key@, key@, n as nat);
                }
                false
            },
        };
        push_found(
            issues,
            cyclic,
            "post_processing_cycle",
            "post_processing",
            concat("post-processing cycle includes ", key),
        );
        assert(key_views.take(i + 1).drop_last() =~= key_views.take(i as int));
        assert(key_views.take(i + 1).last() == key@);
        i = i + 1;
    }
    assert(key_views.take(i as int) =~= key_views);
    assert(workflow_issues_view(issues@) =~= start + post_processing_issues(nodes@, views(variable_ids@), limits@));
}

// ---------------------------------------------------------------------------
// Execution configurations
// ---------------------------------------------------------------------------

/// An execution configuration: the exact revisions it pins, the parameter profile and
/// values, the selected sub-ranges and the assignments of materials to roles. The
/// parameter values are held by their names, in key order (the values themselves are
/// not read by its checks).
#[derive(Clone, Debug, PartialEq, Eq)]
pub struct ExecutionConfigurationDefinition {
    pub definition_schema_version: String,
    pub configuration_id: String,
    pub method_revision: RevisionReference,
    pub measurement_system_template_revision: RevisionReference,
    pub parameter_profile_id: String,
    pub parameter_names: Vec<String>,
    pub selected_sub_range_ids: Vec<String>,
    pub laboratory_location_id: String,
    pub planned_use_on: String,
    pub eut_context: String,
    pub station_setup_revision: RevisionReference,
    pub assignments: Vec<ExecutionAssignmentPin>,
}

/// What an execution configuration is checked against: the identities of the method's
/// sub-ranges, parameter profiles, variables and roles, and of the selected system.
pub struct ExecutionContextView {
    pub sub_range_ids: Seq<Seq<char>>,
    pub parameter_profile_ids: Seq<Seq<char>>,
    pub variable_ids: Seq<Seq<char>>,
    pub role_ids: Seq<Seq<char>>,
    pub template_id: Seq<char>,
}

/// A finding for each of the first `n` texts that the known list does not hold.
pub open spec fn unknown_issues(
    items: Seq<String>,
    known: Seq<Seq<char>>,
    n: nat,
    code: &str,
    path: &str,
    prefix: Seq<char>,
    suffix: Seq<char>,
) -> Seq<WorkflowIssueView>
    decreases n,
{
    if n == 0 {
        seq![]
    } else {
        unknown_issues(items, known, (n - 1) as nat, code, path, prefix, suffix) + when_found(
            !known.contains(items[n - 1]@),
            wissue(code, path, prefix + items[n - 1]@ + suffix),
        )
    }
}

/// The findings on the assignment at `k`: an unknown role, a role or an asset assigned
/// more than once, and a model checksum that is not canonical.
pub open spec fn pin_issues(pins: Seq<ExecutionAssignmentPin>, role_ids: Seq<Seq<char>>, k: int) -> Seq<
    WorkflowIssueView,
> {
    let pin = pins[k];
    when_found(
        !role_ids.contains(pin.role_id@),
        wissue(
            "unknown_execution_role_assignment",
            "assignments[].role_id",
            "assignment references unknown role "@ + pin.role_id@,
        ),
    ) + when_found(
        exists|j: int| 0 <= j < k && (#[trigger] pins[j]).role_id@ == pin.role_id@,
        wissue(
            "duplicate_execution_role_assignment",
            "assignments",
            "role "@ + pin.role_id@ + " is assigned more than once"@,
        ),
    ) + when_found(
        exists|j: int| 0 <= j < k && (#[trigger] pins[j]).asset_id@ == pin.asset_id@,
        wissue(
            "duplicate_execution_asset_assignment",
            "assignments",
            "asset "@ + pin.asset_id@ + " is assigned more than once"@,
        ),
    ) + when_found(
        !canonical_checksum(pin.equipment_model_checksum@),
        wissue(
            "invalid_execution_model_checksum",
            "assignments[].equipment_model_checksum",
            "assignment model snapshots require canonical SHA-256 checksums"@,
        ),
    )
}

/// The findings on the first `n` assignments.
pub open spec fn pins_issues(pins: Seq<ExecutionAssignmentPin>, role_ids: Seq<Seq<char>>, n: nat) -> Seq<
    WorkflowIssueView,
>
    decreases n,
{
    if n == 0 {
        seq![]
    } else {
        pins_issues(pins, role_ids, (n - 1) as nat) + pin_issues(pins, role_ids, n - 1)
    }
}

/// Every finding on an execution configuration, in the order they are reported.
pub open spec fn execution_configuration_issues(
    c: ExecutionConfigurationDefinition,
    context: ExecutionContextView,
) -> Seq<WorkflowIssueView> {
    when_found(
        c.definition_schema_version@ != EXECUTION_CONFIGURATION_SCHEMA_VERSION@,
        wissue(
            "unsupported_execution_configuration_schema",
            "definition_schema_version",
            "execution configuration must use v1"@,
        ),
    ) + missing_text(c.configuration_id@, "configuration_id") + missing_text(
        c.parameter_profile_id@,
        "parameter_profile_id",
    ) + missing_text(c.laboratory_location_id@, "laboratory_location_id") + missing_text(
        c.planned_use_on@,
        "planned_use_on",
    ) + missing_text(c.eut_context@, "eut_context") + when_found(
        !valid_iso_date_text(c.planned_use_on@),
        wissue(
            "invalid_execution_planned_date",
            "planned_use_on",
            "planned_use_on must be an ISO civil date"@,
        ),
    ) + revision_reference_issues(
        seq![c.method_revision, c.measurement_system_template_revision, c.station_setup_revision],
        "execution_configuration.revision_references"@,
        3,
    ) + when_found(
        c.measurement_system_template_revision.identity_id@ != context.template_id,
        wissue(
            "execution_system_identity_mismatch",
            "measurement_system_template_revision.identity_id",
            "the pinned system identity does not match the selected topology"@,
        ),
    ) + unknown_issues(
        c.selected_sub_range_ids@,
        context.sub_range_ids,
        c.selected_sub_range_ids@.len(),
        "unknown_execution_sub_range",
        "selected_sub_range_ids",
        "selected sub-range "@,
        " does not exist in the method"@,
    ) + when_found(
        context.parameter_profile_ids.len() > 0 && !context.parameter_profile_ids.contains(
            c.parameter_profile_id@,
        ),
        wissue(
            "unknown_execution_parameter_profile",
            "parameter_profile_id",
            "the selected parameter profile does not exist in the method"@,
        ),
    ) + unknown_issues(
        c.parameter_names@,
        context.variable_ids,
        c.parameter_names@.len(),
        "unknown_execution_parameter",
        "parameter_values",
        "execution parameter "@,
        " does not exist in the method"@,
    ) + pins_issues(c.assignments@, context.role_ids, c.assignments@.len())
}

fn known_text(known: &[String], v: &str) -> (b: bool)
    ensures
        b == views(known@).contains(v@),
{
    let mut j: usize = 0;
    while j < known.len()
        invariant
            j <= known@.len(),
            forall|i: int| 0 <= i < j ==> (#[trigger] known@[i])@ != v@,
        decreases known@.len() - j,
    {
        if str_eq(known[j].as_str(), v) {
            assert(views(known@)[j as int] == v@);
            return true;
        }
        j = j + 1;
    }
    assert forall|i: int| 0 <= i < views(known@).len() implies views(known@)[i] != v@ by {
        assert(views(known@)[i] == known@[i]@);
    }
    false
}

fn report_unknown(
    issues: &mut Vec<MethodWorkflowValidationIssue>,
    items: &[String],
    known: &[String],
    code: &str,
    path: &str,
    prefix: &str,
    suffix: &str,
)
    ensures
        workflow_issues_view(final(issues)@) == workflow_issues_view(old(issues)@) + unknown_issues(
            items@,
            views(known@),
            items@.len(),
            code,
            path,
            prefix@,
            suffix@,
        ),
{
    let ghost start = workflow_issues_view(issues@);
    let mut k: usize = 0;
    while k < items.len()
        invariant
            k <= items@.len(),
            workflow_issues_view(issues@) == start + unknown_issues(
                items@,
                views(known@),
                k as nat,
                code,
                path,
                prefix@,
                suffix@,
            ),
        decreases items@.len() - k,
    {
        let unknown = !known_text(known, items[k].as_str());
        let message = concat(concat(prefix, items[k].as_str()).as_str(), suffix);
        push_found(issues, unknown, code, path, message);
        k = k + 1;
    }
}

fn pin_role_repeats(pins: &[ExecutionAssignmentPin], k: usize) -> (r: bool)
    requires
        k < pins@.len(),
    ensures
        r == exists|j: int| 0 <= j < k && (#[trigger] pins@[j]).role_id@ == pins@[k as int].role_id@,
{
    let mut j: usize = 0;
    while j < k
        invariant
            j <= k < pins@.len(),
            forall|i: int| 0 <= i < j ==> (#[trigger] pins@[i]).role_id@ != pins@[k as int].role_id@,
        decreases k - j,
    {
        if str_eq(pins[j].role_id.as_str(), pins[k].role_id.as_str()) {
            assert(pins@[j as int].role_id@ == pins@[k as int].role_id@);
            return true;
        }
        j = j + 1;
    }
    false
}

fn pin_asset_repeats(pins: &[ExecutionAssignmentPin], k: usize) -> (r: bool)
    requires
        k < pins@.len(),
    ensures
        r == exists|j: int| 0 <= j < k && (#[trigger] pins@[j]).asset_id@ == pins@[k as int].asset_id@,
{
    let mut j: usize = 0;
    while j < k
        invariant
            j <= k < pins@.len(),
            forall|i: int| 0 <= i < j ==> (#[trigger] pins@[i]).asset_id@ != pins@[k as int].asset_id@,
        decreases k - j,
    {
        if str_eq(pins[j].asset_id.as_str(), pins[k].asset_id.as_str()) {
            assert(pins@[j as int].asset_id@ == pins@[k as int].asset_id@);
            return true;
        }
        j = j + 1;
    }
    false
}

fn copy_revision(r: &RevisionReference) -> (c: RevisionReference)
    ensures
        c == *r,
{
    RevisionReference {
        identity_id: r.identity_id.clone(),
        revision_id: r.revision_id.clone(),
        definition_checksum: r.definition_checksum.clone(),
    }
}

impl ExecutionConfigurationDefinition {
    /// Checks the configuration against the method and system it was made for, given by
    /// the identities of the method's sub-ranges, parameter profiles, variables and roles
    /// and of the selected system template; every finding is reported.
    pub fn validate(
        &self,
        sub_range_ids: &[String],
        parameter_profile_ids: &[String],
        variable_ids: &[String],
        role_ids: &[String],
        template_id: &str,
    ) -> (r: Vec<MethodWorkflowValidationIssue>)
        ensures
            workflow_issues_view(r@) == execution_configuration_issues(
                *self,
                ExecutionContextView {
                    sub_range_ids: views(sub_range_ids@),
                    parameter_profile_ids: views(parameter_profile_ids@),
                    variable_ids: views(variable_ids@),
                    role_ids: views(role_ids@),
                    template_id: template_id@,
                },
            ),
    {
        let mut issues: Vec<MethodWorkflowValidationIssue> = Vec::new();
        let schema_mismatch = !str_eq(
            self.definition_schema_version.as_str(),
            EXECUTION_CONFIGURATION_SCHEMA_VERSION,
        );
        push_found(
            &mut issues,
            schema_mismatch,
            "unsupported_execution_configuration_schema",
            "definition_schema_version",
            "execution configuration must use v1".to_owned(),
        );
        require_text(&mut issues, self.configuration_id.as_str(), "configuration_id");
        require_text(&mut issues, self.parameter_profile_id.as_str(), "parameter_profile_id");
        require_text(&mut issues, self.laboratory_location_id.as_str(), "laboratory_location_id");
        require_text(&mut issues, self.planned_use_on.as_str(), "planned_use_on");
        require_text(&mut issues, self.eut_context.as_str(), "eut_context");
        let bad_date = !valid_iso_date(self.planned_use_on.as_str());
        push_found(
            &mut issues,
            bad_date,
            "invalid_execution_planned_date",
            "planned_use_on",
            "planned_use_on must be an ISO civil date".to_owned(),
        );
        let pinned = vec![
            copy_revision(&self.method_revision),
            copy_revision(&self.measurement_system_template_revision),
            copy_revision(&self.station_setup_revision),
        ];
        assert(pinned@ =~= seq![
            self.method_revision,
            self.measurement_system_template_revision,
            self.station_setup_revision,
        ]);
        validate_revision_references(
            pinned.as_slice(),
            "execution_configuration.revision_references",
            &mut issues,
        );
        let mismatch = !str_eq(self.measurement_system_template_revision.identity_id.as_str(), template_id);
        push_found(
            &mut issues,
            mismatch,
            "execution_system_identity_mismatch",
            "measurement_system_template_revision.identity_id",
            "the pinned system identity does not match the selected topology".to_owned(),
        );
        report_unknown(
            &mut issues,
            self.selected_sub_range_ids.as_slice(),
            sub_range_ids,
            "unknown_execution_sub_range",
            "selected_sub_range_ids",
            "selected sub-range ",
            " does not exist in the method",
        );
        let unknown_profile = parameter_profile_ids.len() > 0 && !known_text(
            parameter_profile_ids,
            self.parameter_profile_id.as_str(),
        );
        push_found(
            &mut issues,
            unknown_profile,
            "unknown_execution_parameter_profile",
            "parameter_profile_id",
            "the selected parameter profile does not exist in the method".to_owned(),
        );
        report_unknown(
            &mut issues,
            self.parameter_names.as_slice(),
            variable_ids,
            "unknown_execution_parameter",
            "parameter_values",
            "execution parameter ",
            " does not exist in the method",
        );
        let ghost before_pins = workflow_issues_view(issues@);
        let pins = self.assignments.as_slice();
        let mut k: usize = 0;
        while k < pins.len()
            invariant
                pins@ == self.assignments@,
                k <= pins@.len(),
                workflow_issues_view(issues@) == before_pins + pins_issues(pins@, views(role_ids@), k as nat),
            decreases pins@.len() - k,
        {
            let pin = &pins[k];
            let ghost mid = workflow_issues_view(issues@);
            push_found(
                &mut issues,
                !known_text(role_ids, pin.role_id.as_str()),
                "unknown_execution_role_assignment",
                "assignments[].role_id",
                concat("assignment references unknown role ", pin.role_id.as_str()),
            );
            push_found(
                &mut issues,
                pin_role_repeats(pins, k),
                "duplicate_execution_role_assignment",
                "assignments",
                concat(concat("role ", pin.role_id.as_str()).as_str(), " is assigned more than once"),
            );
            push_found(
                &mut issues,
                pin_asset_repeats(pins, k),
                "duplicate_execution_asset_assignment",
                "assignments",
                concat(concat("asset ", pin.asset_id.as_str()).as_str(), " is assigned more than once"),
            );
            push_found(
                &mut issues,
                !valid_checksum(pin.equipment_model_checksum.as_str()),
                "invalid_execution_model_checksum",
                "assignments[].equipment_model_checksum",
                "assignment model snapshots require canonical SHA-256 checksums".to_owned(),
            );
            assert(workflow_issues_view(issues@) =~= before_pins + pins_issues(
                pins@,
                views(role_ids@),
                (k + 1) as nat,
            ));
            k = k + 1;
        }
        issues
    }
}

// ---------------------------------------------------------------------------
// Procedure of a version 2 method
// ---------------------------------------------------------------------------

/// A node of a method procedure, with what its checks read: its enabling condition (an
/// expression over floating-point literals) is not part of this view, and its timeout is
/// held by whether it is given and not a finite positive number of seconds.
#[derive(Debug)]
pub struct ProcedureNode {
    pub node_id: String,
    pub label: String,
    pub purpose: String,
    pub node_kind: ProcedureNodeKind,
    pub input_variables: Vec<String>,
    pub output_variables: Vec<String>,
    pub timeout_invalid: bool,
    pub failure_policy: ProcedureFailurePolicy,
    pub maximum_iterations: Option<u32>,
    pub children: Vec<ProcedureNode>,
    pub audit_notes: String,
}

/// The nodes of a procedure forest in pre-order: each node, then its children's
/// subtrees, then the following siblings.
pub open spec fn preorder(nodes: Seq<ProcedureNode>) -> Seq<ProcedureNode>
    decreases nodes,
{
    if nodes.len() == 0 {
        seq![]
    } else {
        seq![nodes[0]] + preorder(nodes[0].children@) + preorder(nodes.drop_first())
    }
}

/// A finding for each of the first `n` variables that the method does not declare.
pub open spec fn procedure_variable_issues(
    node_id: Seq<char>,
    variables: Seq<String>,
    variable_ids: Seq<Seq<char>>,
    n: nat,
) -> Seq<WorkflowIssueView>
    decreases n,
{
    if n == 0 {
        seq![]
    } else {
        procedure_variable_issues(node_id, variables, variable_ids, (n - 1) as nat) + when_found(
            !variable_ids.contains(variables[n - 1]@),
            wissue(
                "unknown_procedure_variable",
                "procedure",
                "procedure node "@ + node_id + " references unknown variable "@ + variables[n - 1]@,
            ),
        )
    }
}

/// The findings on one procedure node, given the identities of the nodes met before it
/// in pre-order: an identity that is not a token or repeats one of them, a loop without
/// a finite bound, an invalid timeout, and each unknown input then output variable.
pub open spec fn procedure_node_issues(
    node: ProcedureNode,
    earlier: Seq<Seq<char>>,
    variable_ids: Seq<Seq<char>>,
) -> Seq<WorkflowIssueView> {
    let id = node.node_id@;
    let variables = node.input_variables@ + node.output_variables@;
    when_found(
        !stable_token(id) || earlier.contains(id),
        wissue("invalid_or_duplicate_procedure_node", "procedure", "invalid or duplicate procedure node "@ + id),
    ) + when_found(
        (node.node_kind == ProcedureNodeKind::Loop || node.node_kind == ProcedureNodeKind::Repeat) && match node.maximum_iterations {
            Some(m) => m == 0 || m > 1_000_000,
            None => true,
        },
        wissue(
            "unbounded_procedure_loop",
            "procedure[].maximum_iterations",
            "loop "@ + id + " needs an explicit finite bound"@,
        ),
    ) + when_found(
        node.timeout_invalid,
        wissue(
            "invalid_procedure_timeout",
            "procedure[].timeout_seconds",
            "procedure timeout must be positive and finite"@,
        ),
    ) + procedure_variable_issues(id, variables, variable_ids, variables.len())
}

/// The findings on a sequence of nodes taken in order, each given the identities met
/// before it.
pub open spec fn nodes_issues(
    nodes: Seq<ProcedureNode>,
    earlier: Seq<Seq<char>>,
    variable_ids: Seq<Seq<char>>,
) -> Seq<WorkflowIssueView>
    decreases nodes.len(),
{
    if nodes.len() == 0 {
        seq![]
    } else {
        procedure_node_issues(nodes[0], earlier, variable_ids) + nodes_issues(
            nodes.drop_first(),
            earlier.push(nodes[0].node_id@),
            variable_ids,
        )
    }
}

/// The identities of a sequence of nodes.
pub open spec fn node_ids(nodes: Seq<ProcedureNode>) -> Seq<Seq<char>> {
    nodes.map_values(|n: ProcedureNode| n.node_id@)
}

/// The findings on a procedure: none defined at all, or the findings on each node in
/// pre-order.
pub open spec fn procedure_issues(roots: Seq<ProcedureNode>, variable_ids: Seq<Seq<char>>) -> Seq<
    WorkflowIssueView,
> {
    if roots.len() == 0 {
        seq![wissue("missing_procedure", "procedure", "define at least one procedure phase"@)]
    } else {
        nodes_issues(preorder(roots), seq![], variable_ids)
    }
}

proof fn lemma_nodes_issues_append(
    a: Seq<ProcedureNode>,
    b: Seq<ProcedureNode>,
    earlier: Seq<Seq<char>>,
    variable_ids: Seq<Seq<char>>,
)
    ensures
        nodes_issues(a + b, earlier, variable_ids) == nodes_issues(a, earlier, variable_ids)
            + nodes_issues(b, earlier + node_ids(a), variable_ids),
    decreases a.len(),
{
    if a.len() == 0 {
        assert(a + b =~= b);
        assert(earlier + node_ids(a) =~= earlier);
    } else {
        assert((a + b).drop_first() =~= a.drop_first() + b);
        assert((a + b)[0] == a[0]);
        lemma_nodes_issues_append(a.drop_first(), b, earlier.push(a[0].node_id@), variable_ids);
        assert(earlier.push(a[0].node_id@) + node_ids(a.drop_first()) =~= earlier + node_ids(a));
    }
}

proof fn lemma_preorder_push(s: Seq<ProcedureNode>, x: ProcedureNode)
    ensures
        preorder(s.push(x)) == preorder(s) + preorder(seq![x]),
    decreases s.len(),
{
    if s.len() == 0 {
        assert(s.push(x) =~= seq![x]);
        assert(preorder(s) =~= Seq::<ProcedureNode>::empty());
        assert(preorder(s) + preorder(seq![x]) =~= preorder(seq![x]));
    } else {
        assert(s.push(x)[0] == s[0]);
        assert(s.push(x).drop_first() =~= s.drop_first().push(x));
        lemma_preorder_push(s.drop_first(), x);
    }
}

proof fn lemma_preorder_single(x: ProcedureNode)
    ensures
        preorder(seq![x]) == seq![x] + preorder(x.children@),
{
    assert(seq![x].drop_first() =~= Seq::<ProcedureNode>::empty());
    assert(preorder(seq![x].drop_first()) =~= Seq::<ProcedureNode>::empty());
    assert(seq![x] + preorder(x.children@) + Seq::<ProcedureNode>::empty() =~= seq![x] + preorder(
        x.children@,
    ));
}

fn check_procedure_node(
    node: &ProcedureNode,
    seen: &Vec<String>,
    variable_ids: &[String],
    issues: &mut Vec<MethodWorkflowValidationIssue>,
)
    ensures
        workflow_issues_view(final(issues)@) == workflow_issues_view(old(issues)@) + procedure_node_issues(
            *node,
            views(seen@),
            views(variable_ids@),
        ),
{
    let ghost start = workflow_issues_view(issues@);
    let id = node.node_id.as_str();
    let bad = !valid_token(id) || known_text(seen.as_slice(), id);
    push_found(
        issues,
        bad,
        "invalid_or_duplicate_procedure_node",
        "procedure",
        concat("invalid or duplicate procedure node ", id),
    );
    let looping = match node.node_kind {
        ProcedureNodeKind::Loop | ProcedureNodeKind::Repeat => true,
        _ => false,
    };
    let unbounded = match node.maximum_iterations {
        Some(m) => m == 0 || m > 1_000_000,
        None => true,
    };
    push_found(
        issues,
        looping && unbounded,
        "unbounded_procedure_loop",
        "procedure[].maximum_iterations",
        concat(concat("loop ", id).as_str(), " needs an explicit finite bound"),
    );
    push_found(
        issues,
        node.timeout_invalid,
        "invalid_procedure_timeout",
        "procedure[].timeout_seconds",
        "procedure timeout must be positive and finite".to_owned(),
    );
    let mut variables: Vec<String> = Vec::new();
    let mut i: usize = 0;
    while i < node.input_variables.len()
        invariant
            i <= node.input_variables@.len(),
            variables@ == node.input_variables@.take(i as int),
        decreases node.input_variables@.len() - i,
    {
        variables.push(node.input_variables[i].clone());
        assert(variables@ =~= node.input_variables@.take(i + 1));
        i = i + 1;
    }
    let mut i: usize = 0;
    assert(node.input_variables@.take(node.input_variables@.len() as int) =~= node.input_variables@);
    while i < node.output_variables.len()
        invariant
            i <= node.output_variables@.len(),
            variables@ == node.input_variables@ + node.output_variables@.take(i as int),
        decreases node.output_variables@.len() - i,
    {
        variables.push(node.output_variables[i].clone());
        assert(variables@ =~= node.input_variables@ + node.output_variables@.take(i + 1));
        i = i + 1;
    }
    assert(node.output_variables@.take(node.output_variables@.len() as int) =~= node.output_variables@);
    let ghost before_variables = workflow_issues_view(issues@);
    let mut k: usize = 0;
    while k < variables.len()
        invariant
            k <= variables@.len(),
            workflow_issues_view(issues@) == before_variables + procedure_variable_issues(
                id@,
                variables@,
                views(variable_ids@),
                k as nat,
            ),
        decreases variables@.len() - k,
    {
        let unknown = !known_text(variable_ids, variables[k].as_str());
        let mut message = concat("procedure node ", id);
        message = concat(message.as_str(), " references unknown variable ");
        message = concat(message.as_str(), variables[k].as_str());
        push_found(issues, unknown, "unknown_procedure_variable", "procedure", message);
        k = k + 1;
    }
    assert(workflow_issues_view(issues@) =~= start + procedure_node_issues(
        *node,
        views(seen@),
        views(variable_ids@),
    ));
}

fn visit_procedure_node(
    node: &ProcedureNode,
    seen: &mut Vec<String>,
    variable_ids: &[String],
    issues: &mut Vec<MethodWorkflowValidationIssue>,
)
    ensures
        workflow_issues_view(final(issues)@) == workflow_issues_view(old(issues)@) + nodes_issues(
            preorder(seq![*node]),
            views(old(seen)@),
            views(variable_ids@),
        ),
        views(final(seen)@) == views(old(seen)@) + node_ids(preorder(seq![*node])),
    decreases *node,
{
    let ghost start = workflow_issues_view(issues@);
    let ghost seen0 = views(seen@);
    check_procedure_node(node, seen, variable_ids, issues);
    seen.push(node.node_id.clone());
    let ghost head = seq![*node];
    proof {
        assert(preorder(node.children@.take(0)) =~= Seq::<ProcedureNode>::empty()) by {
            assert(node.children@.take(0) =~= Seq::<ProcedureNode>::empty());
        }
        assert(head + preorder(node.children@.take(0)) =~= head);
        assert(head.drop_first() =~= Seq::<ProcedureNode>::empty());
        assert(head[0] == *node);
        assert(nodes_issues(head.drop_first(), seen0.push(node.node_id@), views(variable_ids@))
            =~= Seq::<WorkflowIssueView>::empty());
        assert(nodes_issues(head, seen0, views(variable_ids@)) =~= procedure_node_issues(
            *node,
            seen0,
            views(variable_ids@),
        ));
        assert(views(seen@) =~= seen0 + node_ids(head));
    }
    let mut i: usize = 0;
    while i < node.children.len()
        invariant
            i <= node.children@.len(),
            head == seq![*node],
            workflow_issues_view(issues@) == start + nodes_issues(
                head + preorder(node.children@.take(i as int)),
                seen0,
                views(variable_ids@),
            ),
            views(seen@) == seen0 + node_ids(head + preorder(node.children@.take(i as int))),
        decreases node.children@.len() - i,
    {
        let ghost a = head + preorder(node.children@.take(i as int));
        let ghost c = node.children@[i as int];
        visit_procedure_node(&node.children[i], seen, variable_ids, issues);
        proof {
            lemma_nodes_issues_append(a, preorder(seq![c]), seen0, views(variable_ids@));
            assert(node.children@.take(i + 1) =~= node.children@.take(i as int).push(c));
            lemma_preorder_push(node.children@.take(i as int), c);
            assert(a + preorder(seq![c]) =~= head + preorder(node.children@.take(i + 1)));
            assert(node_ids(a + preorder(seq![c])) =~= node_ids(a) + node_ids(preorder(seq![c])));
        }
        i = i + 1;
    }
    proof {
        assert(node.children@.take(i as int) =~= node.children@);
        lemma_preorder_single(*node);
    }
}

/// Checks the procedure of a method: at least one node, and each node in pre-order.
pub fn validate_procedure(
    roots: &[ProcedureNode],
    variable_ids: &[String],
    issues: &mut Vec<MethodWorkflowValidationIssue>,
)
    ensures
        workflow_issues_view(final(issues)@) == workflow_issues_view(old(issues)@) + procedure_issues(
            roots@,
            views(variable_ids@),
        ),
{
    let ghost start = workflow_issues_view(issues@);
    if roots.len() == 0 {
        push_found(
            issues,
            true,
            "missing_procedure",
            "procedure",
            "define at least one procedure phase".to_owned(),
        );
        return ;
    }
    let mut seen: Vec<String> = Vec::new();
    let mut i: usize = 0;
    proof {
        assert(roots@.take(0) =~= Seq::<ProcedureNode>::empty());
        assert(preorder(roots@.take(0)) =~= Seq::<ProcedureNode>::empty());
        assert(views(seen@) =~= node_ids(preorder(roots@.take(0))));
    }
    while i < roots.len()
        invariant
            roots@.len() > 0,
            i <= roots@.len(),
            workflow_issues_view(issues@) == start + nodes_issues(
                preorder(roots@.take(i as int)),
                seq![],
                views(variable_ids@),
            ),
            views(seen@) == node_ids(preorder(roots@.take(i as int))),
        decreases roots@.len() - i,
    {
        let ghost a = preorder(roots@.take(i as int));
        let ghost c = roots@[i as int];
        visit_procedure_node(&roots[i], &mut seen, variable_ids, issues);
        proof {
            lemma_nodes_issues_append(a, preorder(seq![c]), seq![], views(variable_ids@));
            assert(Seq::<Seq<char>>::empty() + node_ids(a) =~= node_ids(a));
            assert(roots@.take(i + 1) =~= roots@.take(i as int).push(c));
            lemma_preorder_push(roots@.take(i as int), c);
            assert(node_ids(a + preorder(seq![c])) =~= node_ids(a) + node_ids(preorder(seq![c])));
        }
        i = i + 1;
    }
    assert(roots@.take(i as int) =~= roots@);
}

/// The number of levels of a procedure forest.
pub open spec fn procedure_height(nodes: Seq<ProcedureNode>) -> nat
    decreases nodes,
{
    if nodes.len() == 0 {
        0
    } else {
        let below = 1 + procedure_height(nodes[0].children@);
        let beside = procedure_height(nodes.drop_first());
        if below >= beside {
            below
        } else {
            beside
        }
    }
}

/// The phase of the plan for a node at a depth.
pub open spec fn phase_of(node: ProcedureNode, depth: nat) -> ExecutionPlanPhase {
    ExecutionPlanPhase {
        node_id: node.node_id,
        label: node.label,
        node_kind: node.node_kind,
        depth: depth as u32,
        maximum_iterations: node.maximum_iterations,
    }
}

/// The phases of a procedure forest in pre-order, each at its depth from `depth`.
pub open spec fn flattened(nodes: Seq<ProcedureNode>, depth: nat) -> Seq<ExecutionPlanPhase>
    decreases nodes,
{
    if nodes.len() == 0 {
        seq![]
    } else {
        seq![phase_of(nodes[0], depth)] + flattened(nodes[0].children@, depth + 1) + flattened(
            nodes.drop_first(),
            depth,
        )
    }
}

proof fn lemma_flattened_push(s: Seq<ProcedureNode>, x: ProcedureNode, depth: nat)
    ensures
        flattened(s.push(x), depth) == flattened(s, depth) + flattened(seq![x], depth),
    decreases s.len(),
{
    if s.len() == 0 {
        assert(s.push(x) =~= seq![x]);
        assert(flattened(s, depth) =~= Seq::<ExecutionPlanPhase>::empty());
        assert(flattened(s, depth) + flattened(seq![x], depth) =~= flattened(seq![x], depth));
    } else {
        assert(s.push(x)[0] == s[0]);
        assert(s.push(x).drop_first() =~= s.drop_first().push(x));
        lemma_flattened_push(s.drop_first(), x, depth);
    }
}

proof fn lemma_flattened_single(x: ProcedureNode, depth: nat)
    ensures
        flattened(seq![x], depth) == seq![phase_of(x, depth)] + flattened(x.children@, depth + 1),
{
    assert(seq![x].drop_first() =~= Seq::<ProcedureNode>::empty());
    assert(flattened(seq![x].drop_first(), depth) =~= Seq::<ExecutionPlanPhase>::empty());
    assert(seq![phase_of(x, depth)] + flattened(x.children@, depth + 1) + Seq::<ExecutionPlanPhase>::empty()
        =~= seq![phase_of(x, depth)] + flattened(x.children@, depth + 1));
}

proof fn lemma_height_bounds(nodes: Seq<ProcedureNode>, i: int)
    requires
        0 <= i < nodes.len(),
    ensures
        procedure_height(nodes) >= 1 + procedure_height(nodes[i].children@),
    decreases nodes.len(),
{
    if i > 0 {
        lemma_height_bounds(nodes.drop_first(), i - 1);
        assert(nodes.drop_first()[i - 1] == nodes[i]);
    }
}

fn copy_node_kind(kind: &ProcedureNodeKind) -> (r: ProcedureNodeKind)
    ensures
        r == *kind,
{
    match kind {
        ProcedureNodeKind::Preparation => ProcedureNodeKind::Preparation,
        ProcedureNodeKind::Verification => ProcedureNodeKind::Verification,
        ProcedureNodeKind::Calibration => ProcedureNodeKind::Calibration,
        ProcedureNodeKind::Phase => ProcedureNodeKind::Phase,
        ProcedureNodeKind::SubRange => ProcedureNodeKind::SubRange,
        ProcedureNodeKind::Loop => ProcedureNodeKind::Loop,
        ProcedureNodeKind::Sweep => ProcedureNodeKind::Sweep,
        ProcedureNodeKind::SetEutState => ProcedureNodeKind::SetEutState,
        ProcedureNodeKind::SetOrientation => ProcedureNodeKind::SetOrientation,
        ProcedureNodeKind::SetPolarization => ProcedureNodeKind::SetPolarization,
        ProcedureNodeKind::ApplySetpoint => ProcedureNodeKind::ApplySetpoint,
        ProcedureNodeKind::Regulate => ProcedureNodeKind::Regulate,
        ProcedureNodeKind::Dwell => ProcedureNodeKind::Dwell,
        ProcedureNodeKind::Acquire => ProcedureNodeKind::Acquire,
        ProcedureNodeKind::Monitor => ProcedureNodeKind::Monitor,
        ProcedureNodeKind::OperatorAction => ProcedureNodeKind::OperatorAction,
        ProcedureNodeKind::Decision => ProcedureNodeKind::Decision,
        ProcedureNodeKind::Repeat => ProcedureNodeKind::Repeat,
        ProcedureNodeKind::Finalize => ProcedureNodeKind::Finalize,
        ProcedureNodeKind::SafeShutdown => ProcedureNodeKind::SafeShutdown,
    }
}

/// Appends the phases of a procedure forest in pre-order, each with its depth from
/// `depth`. The depths must fit in 32 bits.
pub fn flatten_procedure(nodes: &[ProcedureNode], depth: u32, output: &mut Vec<ExecutionPlanPhase>)
    requires
        depth + procedure_height(nodes@) <= u32::MAX,
    ensures
        final(output)@ == old(output)@ + flattened(nodes@, depth as nat),
    decreases nodes@,
{
    let ghost start = output@;
    let mut i: usize = 0;
    proof {
        assert(nodes@.take(0) =~= Seq::<ProcedureNode>::empty());
        assert(start + flattened(nodes@.take(0), depth as nat) =~= start);
    }
    while i < nodes.len()
        invariant
            i <= nodes@.len(),
            depth + procedure_height(nodes@) <= u32::MAX,
            output@ == start + flattened(nodes@.take(i as int), depth as nat),
        decreases nodes@.len() - i,
    {
        let node = &nodes[i];
        proof {
            lemma_height_bounds(nodes@, i as int);
        }
        output.push(
            ExecutionPlanPhase {
                node_id: node.node_id.clone(),
                label: node.label.clone(),
                node_kind: copy_node_kind(&node.node_kind),
                depth,
                maximum_iterations: node.maximum_iterations,
            },
        );
        flatten_procedure(node.children.as_slice(), depth + 1, output);
        proof {
            lemma_flattened_single(nodes@[i as int], depth as nat);
            assert(nodes@.take(i + 1) =~= nodes@.take(i as int).push(nodes@[i as int]));
            lemma_flattened_push(nodes@.take(i as int), nodes@[i as int], depth as nat);
        }
        i = i + 1;
    }
    assert(nodes@.take(i as int) =~= nodes@);
}

// ---------------------------------------------------------------------------
// Functional roles of a version 2 method
// ---------------------------------------------------------------------------

/// A technical range that a role's material must cover, with what its checks read:
/// whether both bounds are given and the minimum exceeds the maximum (a comparison of
/// floats), and its unit.
#[derive(Clone, Debug, PartialEq, Eq)]
pub struct TechnicalRangeRequirement {
    pub inverted: bool,
    pub unit: String,
}

/// A capability that a role requires.
#[derive(Clone, Debug, PartialEq, Eq)]
pub struct MethodCapabilityRequirement {
    pub capability_kind: String,
    pub frequency_range: Option<TechnicalRangeRequirement>,
    pub voltage_range: Option<TechnicalRangeRequirement>,
    pub current_range: Option<TechnicalRangeRequirement>,
    pub power_range: Option<TechnicalRangeRequirement>,
    pub operating_modes: Vec<String>,
    pub required_driver_action: Option<String>,
}

/// A functional role of a method: what a material must do, its ports and variables.
#[derive(Clone, Debug, PartialEq, Eq)]
pub struct MethodFunctionalRole {
    pub role_id: String,
    pub label: String,
    pub purpose: String,
    pub required: bool,
    pub functional_category: String,
    pub capabilities: Vec<MethodCapabilityRequirement>,
    pub calibration_policy: MethodCalibrationPolicy,
    pub substitution_policy: MethodSubstitutionPolicy,
    pub assignment_stage: RoleAssignmentStage,
    pub logical_ports: Vec<MethodLogicalPort>,
    pub consumes_variables: Vec<String>,
    pub produces_variables: Vec<String>,
}

/// The findings on a range: inverted bounds, then a unit outside the registry.
pub open spec fn range_issues(range: Option<TechnicalRangeRequirement>) -> Seq<WorkflowIssueView> {
    match range {
        None => seq![],
        Some(r) => when_found(
            r.inverted,
            wissue(
                "invalid_role_range",
                "functional_roles[].capabilities",
                "technical range minimum exceeds maximum"@,
            ),
        ) + when_found(
            unit_dimension_of(r.unit@) is None,
            wissue(
                "unsupported_role_unit",
                "functional_roles[].capabilities",
                "unsupported or indeterminate unit "@ + r.unit@,
            ),
        ),
    }
}

/// The findings on a capability: its kind, then its frequency, voltage, current and
/// power ranges.
pub open spec fn capability_issues(c: MethodCapabilityRequirement) -> Seq<WorkflowIssueView> {
    missing_text(c.capability_kind@, "functional_roles[].capabilities[].capability_kind") + range_issues(
        c.frequency_range,
    ) + range_issues(c.voltage_range) + range_issues(c.current_range) + range_issues(c.power_range)
}

/// The findings on the first `n` capabilities.
pub open spec fn capabilities_issues(caps: Seq<MethodCapabilityRequirement>, n: nat) -> Seq<WorkflowIssueView>
    decreases n,
{
    if n == 0 {
        seq![]
    } else {
        capabilities_issues(caps, (n - 1) as nat) + capability_issues(caps[n - 1])
    }
}

/// The findings on the first `n` ports of a role: an identifier that is not a token or
/// repeats an earlier port's.
pub open spec fn role_port_issues(role_id: Seq<char>, ports: Seq<MethodLogicalPort>, n: nat) -> Seq<
    WorkflowIssueView,
>
    decreases n,
{
    if n == 0 {
        seq![]
    } else {
        let k = n - 1;
        role_port_issues(role_id, ports, (n - 1) as nat) + when_found(
            !stable_token(ports[k].port_id@) || exists|j: int|
                0 <= j < k && (#[trigger] ports[j]).port_id@ == ports[k].port_id@,
            wissue(
                "invalid_or_duplicate_role_port",
                "functional_roles[].logical_ports",
                "invalid or duplicate port "@ + ports[k].port_id@ + " on "@ + role_id,
            ),
        )
    }
}

/// A finding for each of the first `n` variables of a role that the method does not declare.
pub open spec fn role_variable_issues(
    role_id: Seq<char>,
    variables: Seq<String>,
    variable_ids: Seq<Seq<char>>,
    n: nat,
) -> Seq<WorkflowIssueView>
    decreases n,
{
    if n == 0 {
        seq![]
    } else {
        role_variable_issues(role_id, variables, variable_ids, (n - 1) as nat) + when_found(
            !variable_ids.contains(variables[n - 1]@),
            wissue(
                "unknown_role_variable",
                "functional_roles",
                "role "@ + role_id + " references unknown variable "@ + variables[n - 1]@,
            ),
        )
    }
}

/// The findings on the role at `k` on its identity and texts, and on a missing capability.
pub open spec fn role_issues_head(roles: Seq<MethodFunctionalRole>, k: int) -> Seq<WorkflowIssueView> {
    let role = roles[k];
    let id = role.role_id@;
    when_found(
        !stable_token(id) || exists|j: int| 0 <= j < k && (#[trigger] roles[j]).role_id@ == id,
        wissue(
            "invalid_or_duplicate_functional_role",
            "functional_roles[].role_id",
            "invalid or duplicate role "@ + id,
        ),
    ) + missing_text(role.label@, "functional_roles[].label") + missing_text(
        role.purpose@,
        "functional_roles[].purpose",
    ) + missing_text(role.functional_category@, "functional_roles[].functional_category")
        + when_found(
        role.capabilities@.len() == 0,
        wissue(
            "missing_role_capability",
            "functional_roles[].capabilities",
            "role "@ + id + " needs a stable capability"@,
        ),
    )
}

/// The findings on the role at `k`: its identity and texts, a missing capability, then
/// its ports, its variables and its capabilities.
pub open spec fn role_issues(roles: Seq<MethodFunctionalRole>, variable_ids: Seq<Seq<char>>, k: int) -> Seq<
    WorkflowIssueView,
> {
    let role = roles[k];
    let variables = role.consumes_variables@ + role.produces_variables@;
    role_issues_head(roles, k) + role_port_issues(role.role_id@, role.logical_ports@, role.logical_ports@.len())
        + role_variable_issues(role.role_id@, variables, variable_ids, variables.len()) + capabilities_issues(
        role.capabilities@,
        role.capabilities@.len(),
    )
}

/// The findings on the first `n` roles.
pub open spec fn roles_issues(roles: Seq<MethodFunctionalRole>, variable_ids: Seq<Seq<char>>, n: nat) -> Seq<
    WorkflowIssueView,
>
    decreases n,
{
    if n == 0 {
        seq![]
    } else {
        roles_issues(roles, variable_ids, (n - 1) as nat) + role_issues(roles, variable_ids, n - 1)
    }
}

/// The identities of the first `n` roles that are tokens, in order.
pub open spec fn valid_role_ids(roles: Seq<MethodFunctionalRole>, n: nat) -> Seq<Seq<char>>
    decreases n,
{
    if n == 0 {
        seq![]
    } else {
        valid_role_ids(roles, (n - 1) as nat) + if stable_token(roles[n - 1].role_id@) {
            seq![roles[n - 1].role_id@]
        } else {
            seq![]
        }
    }
}

fn check_range(issues: &mut Vec<MethodWorkflowValidationIssue>, range: &Option<TechnicalRangeRequirement>)
    ensures
        workflow_issues_view(final(issues)@) == workflow_issues_view(old(issues)@) + range_issues(*range),
{
    let ghost start = workflow_issues_view(issues@);
    match range {
        None => {
            assert(workflow_issues_view(issues@) =~= start + range_issues(*range));
        },
        Some(r) => {
            push_found(
                issues,
                r.inverted,
                "invalid_role_range",
                "functional_roles[].capabilities",
                "technical range minimum exceeds maximum".to_owned(),
            );
            push_found(
                issues,
                unit_dimension(r.unit.as_str()).is_none(),
                "unsupported_role_unit",
                "functional_roles[].capabilities",
                concat("unsupported or indeterminate unit ", r.unit.as_str()),
            );
        },
    }
}

fn check_role_ports(
    issues: &mut Vec<MethodWorkflowValidationIssue>,
    id: &str,
    ports: &[MethodLogicalPort],
)
    ensures
        workflow_issues_view(final(issues)@) == workflow_issues_view(old(issues)@) + role_port_issues(
            id@,
            ports@,
            ports@.len(),
        ),
{
    let ghost before_ports = workflow_issues_view(issues@);
    let mut p: usize = 0;
    while p < ports.len()
        invariant
            p <= ports@.len(),
            workflow_issues_view(issues@) == before_ports + role_port_issues(id@, ports@, p as nat),
        decreases ports@.len() - p,
    {
        let mut seen = false;
        let mut q: usize = 0;
        while q < p
            invariant
                q <= p < ports@.len(),
                seen == exists|i: int| 0 <= i < q && (#[trigger] ports@[i]).port_id@ == ports@[p as int].port_id@,
            decreases p - q,
        {
            if str_eq(ports[q].port_id.as_str(), ports[p].port_id.as_str()) {
                seen = true;
            }
            q = q + 1;
        }
        let mut message = concat("invalid or duplicate port ", ports[p].port_id.as_str());
        message = concat(message.as_str(), " on ");
        message = concat(message.as_str(), id);
        push_found(
            issues,
            !valid_token(ports[p].port_id.as_str()) || seen,
            "invalid_or_duplicate_role_port",
            "functional_roles[].logical_ports",
            message,
        );
        p = p + 1;
    }
}

fn check_role_variables(
    issues: &mut Vec<MethodWorkflowValidationIssue>,
    role: &MethodFunctionalRole,
    variable_ids: &[String],
)
    ensures
        workflow_issues_view(final(issues)@) == workflow_issues_view(old(issues)@) + role_variable_issues(
            role.role_id@,
            role.consumes_variables@ + role.produces_variables@,
            views(variable_ids@),
            (role.consumes_variables@ + role.produces_variables@).len(),
        ),
{
    let id = role.role_id.as_str();
    let mut variables: Vec<String> = Vec::new();
    let mut i: usize = 0;
    while i < role.consumes_variables.len()
        invariant
            i <= role.consumes_variables@.len(),
            variables@ == role.consumes_variables@.take(i as int),
        decreases role.consumes_variables@.len() - i,
    {
        variables.push(role.consumes_variables[i].clone());
        assert(variables@ =~= role.consumes_variables@.take(i + 1));
        i = i + 1;
    }
    assert(role.consumes_variables@.take(role.consumes_variables@.len() as int) =~= role.consumes_variables@);
    let mut i: usize = 0;
    while i < role.produces_variables.len()
        invariant
            i <= role.produces_variables@.len(),
            variables@ == role.consumes_variables@ + role.produces_variables@.take(i as int),
        decreases role.produces_variables@.len() - i,
    {
        variables.push(role.produces_variables[i].clone());
        assert(variables@ =~= role.consumes_variables@ + role.produces_variables@.take(i + 1));
        i = i + 1;
    }
    assert(role.produces_variables@.take(role.produces_variables@.len() as int) =~= role.produces_variables@);
    let ghost before_variables = workflow_issues_view(issues@);
    let mut v: usize = 0;
    while v < variables.len()
        invariant
            v <= variables@.len(),
            workflow_issues_view(issues@) == before_variables + role_variable_issues(
                id@,
                variables@,
                views(variable_ids@),
                v as nat,
            ),
        decreases variables@.len() - v,
    {
        let mut message = concat("role ", id);
        message = concat(message.as_str(), " references unknown variable ");
        message = concat(message.as_str(), variables[v].as_str());
        push_found(
            issues,
            !known_text(variable_ids, variables[v].as_str()),
            "unknown_role_variable",
            "functional_roles",
            message,
        );
        v = v + 1;
    }
}

fn check_capability(issues: &mut Vec<MethodWorkflowValidationIssue>, cap: &MethodCapabilityRequirement)
    ensures
        workflow_issues_view(final(issues)@) == workflow_issues_view(old(issues)@) + capability_issues(*cap),
{
    let ghost s0 = workflow_issues_view(issues@);
    require_text(issues, cap.capability_kind.as_str(), "functional_roles[].capabilities[].capability_kind");
    let ghost s1 = workflow_issues_view(issues@);
    check_range(issues, &cap.frequency_range);
    let ghost s2 = workflow_issues_view(issues@);
    check_range(issues, &cap.voltage_range);
    let ghost s3 = workflow_issues_view(issues@);
    check_range(issues, &cap.current_range);
    let ghost s4 = workflow_issues_view(issues@);
    check_range(issues, &cap.power_range);
    assert(workflow_issues_view(issues@) =~= s0 + capability_issues(*cap));
}

fn check_role_capabilities(issues: &mut Vec<MethodWorkflowValidationIssue>, caps: &[MethodCapabilityRequirement])
    ensures
        workflow_issues_view(final(issues)@) == workflow_issues_view(old(issues)@) + capabilities_issues(
            caps@,
            caps@.len(),
        ),
{
    let ghost before_caps = workflow_issues_view(issues@);
    let mut c: usize = 0;
    while c < caps.len()
        invariant
            c <= caps@.len(),
            workflow_issues_view(issues@) == before_caps + capabilities_issues(caps@, c as nat),
        decreases caps@.len() - c,
    {
        check_capability(issues, &caps[c]);
        assert(workflow_issues_view(issues@) =~= before_caps + capabilities_issues(caps@, (c + 1) as nat));
        c = c + 1;
    }
}

fn check_role(
    roles: &[MethodFunctionalRole],
    variable_ids: &[String],
    k: usize,
    issues: &mut Vec<MethodWorkflowValidationIssue>,
)
    requires
        k < roles@.len(),
    ensures
        workflow_issues_view(final(issues)@) == workflow_issues_view(old(issues)@) + role_issues(
            roles@,
            views(variable_ids@),
            k as int,
        ),
{
    let ghost start = workflow_issues_view(issues@);
    let role = &roles[k];
    let id = role.role_id.as_str();
    let mut repeated = false;
    let mut j: usize = 0;
    while j < k
        invariant
            j <= k < roles@.len(),
            id@ == roles@[k as int].role_id@,
            repeated == exists|i: int| 0 <= i < j && (#[trigger] roles@[i]).role_id@ == id@,
        decreases k - j,
    {
        if str_eq(roles[j].role_id.as_str(), id) {
            repeated = true;
        }
        j = j + 1;
    }
    push_found(
        issues,
        !valid_token(id) || repeated,
        "invalid_or_duplicate_functional_role",
        "functional_roles[].role_id",
        concat("invalid or duplicate role ", id),
    );
    require_text(issues, role.label.as_str(), "functional_roles[].label");
    require_text(issues, role.purpose.as_str(), "functional_roles[].purpose");
    require_text(issues, role.functional_category.as_str(), "functional_roles[].functional_category");
    push_found(
        issues,
        role.capabilities.len() == 0,
        "missing_role_capability",
        "functional_roles[].capabilities",
        concat(concat("role ", id).as_str(), " needs a stable capability"),
    );
    let ghost head = workflow_issues_view(issues@);
    check_role_ports(issues, id, role.logical_ports.as_slice());
    let ghost after_ports = workflow_issues_view(issues@);
    check_role_variables(issues, role, variable_ids);
    let ghost after_variables = workflow_issues_view(issues@);
    check_role_capabilities(issues, role.capabilities.as_slice());
    proof {
        let r = roles@[k as int];
        assert(*role == r);
        assert(head == start + role_issues_head(roles@, k as int));
        assert(workflow_issues_view(issues@) == head + role_port_issues(
            r.role_id@,
            r.logical_ports@,
            r.logical_ports@.len(),
        ) + role_variable_issues(
            r.role_id@,
            r.consumes_variables@ + r.produces_variables@,
            views(variable_ids@),
            (r.consumes_variables@ + r.produces_variables@).len(),
        ) + capabilities_issues(r.capabilities@, r.capabilities@.len()));
        assert(workflow_issues_view(issues@) =~= start + role_issues(roles@, views(variable_ids@), k as int));
    }
}

/// Checks the functional roles of a method; returns the distinct identities of the
/// roles that are tokens, in increasing order.
pub fn validate_roles(
    roles: &[MethodFunctionalRole],
    variable_ids: &[String],
    issues: &mut Vec<MethodWorkflowValidationIssue>,
) -> (r: Vec<String>)
    ensures
        workflow_issues_view(final(issues)@) == workflow_issues_view(old(issues)@) + roles_issues(
            roles@,
            views(variable_ids@),
            roles@.len(),
        ),
        views(r@) == sorted_distinct(valid_role_ids(roles@, roles@.len())),
{
    let ghost start = workflow_issues_view(issues@);
    let mut ids: Vec<String> = Vec::new();
    let mut k: usize = 0;
    while k < roles.len()
        invariant
            k <= roles@.len(),
            workflow_issues_view(issues@) == start + roles_issues(roles@, views(variable_ids@), k as nat),
            views(ids@) == valid_role_ids(roles@, k as nat),
        decreases roles@.len() - k,
    {
        check_role(roles, variable_ids, k, issues);
        if valid_token(roles[k].role_id.as_str()) {
            ids.push(roles[k].role_id.clone());
        }
        assert(views(ids@) =~= valid_role_ids(roles@, (k + 1) as nat));
        k = k + 1;
    }
    sort_distinct(ids)
}


proof fn lemma_node_pass_keeps(nodes: Seq<MethodHierarchyNode>, n: int, i: int, t: int)
    requires
        0 <= i < n,
        0 <= t < node_checks(nodes, i).len(),
    ensures
        node_pass(nodes, n).contains(node_checks(nodes, i)[t]),
    decreases n,
{
    let head = node_pass(nodes, n - 1);
    let all = node_pass(nodes, n);
    assert(all == head + node_checks(nodes, n - 1));
    if i == n - 1 {
        assert(all[head.len() + t] == node_checks(nodes, i)[t]);
    } else {
        lemma_node_pass_keeps(nodes, n - 1, i, t);
        let j = choose|j: int| 0 <= j < head.len() && head[j] == node_checks(nodes, i)[t];
        assert(all[j] == head[j]);
    }
}

/// Two nodes with the same parent (or two roots) at the same position are reported as
/// a duplicate position: the hierarchy is free of findings only if the (parent,
/// position) pairs of its nodes are pairwise distinct.
pub proof fn lemma_shared_sibling_position_is_reported(nodes: Seq<MethodHierarchyNode>, j: int, k: int)
    requires
        0 <= j < k < nodes.len(),
        optional_view(nodes[j].parent_node_id) == optional_view(nodes[k].parent_node_id),
        nodes[j].position == nodes[k].position,
    ensures
        exists|t: int|
            0 <= t < hierarchy_issues(nodes).len() && (#[trigger] hierarchy_issues(nodes)[t]).code
                == "duplicate_hierarchy_position"@,
{
    assert(position_seen_before(nodes, k));
    let checks = node_checks(nodes, k);
    let x = checks[checks.len() - 1];
    assert(x.code == "duplicate_hierarchy_position"@);
    lemma_node_pass_keeps(nodes, nodes.len() as int, k, checks.len() - 1);
    let first = node_pass(nodes, nodes.len() as int);
    let all = hierarchy_issues(nodes);
    let i = choose|i: int| 0 <= i < first.len() && first[i] == x;
    assert(all[i] == first[i]);
}


/// Whether some finding on the hierarchy has the code.
pub open spec fn hierarchy_reports(nodes: Seq<MethodHierarchyNode>, code: Seq<char>) -> bool {
    exists|t: int| 0 <= t < hierarchy_issues(nodes).len() && (#[trigger] hierarchy_issues(nodes)[t]).code == code
}

proof fn lemma_node_check_reported(nodes: Seq<MethodHierarchyNode>, k: int, t: int)
    requires
        0 <= k < nodes.len(),
        0 <= t < node_checks(nodes, k).len(),
    ensures
        hierarchy_reports(nodes, node_checks(nodes, k)[t].code),
{
    lemma_node_pass_keeps(nodes, nodes.len() as int, k, t);
    let first = node_pass(nodes, nodes.len() as int);
    let i = choose|i: int| 0 <= i < first.len() && first[i] == node_checks(nodes, k)[t];
    assert(hierarchy_issues(nodes)[i] == first[i]);
}

proof fn lemma_parent_pass_keeps(nodes: Seq<MethodHierarchyNode>, n: int, k: int)
    requires
        0 <= k < n <= nodes.len(),
        nodes[k].parent_node_id is Some,
        !has_node(nodes, nodes[k].parent_node_id->0@),
    ensures
        exists|t: int|
            0 <= t < parent_pass(nodes, n).len() && (#[trigger] parent_pass(nodes, n)[t]).code
                == "unknown_hierarchy_parent"@,
    decreases n,
{
    let head = parent_pass(nodes, n - 1);
    let all = parent_pass(nodes, n);
    if k == n - 1 {
        assert(all[head.len() as int].code == "unknown_hierarchy_parent"@);
    } else {
        lemma_parent_pass_keeps(nodes, n - 1, k);
        let t = choose|t: int| 0 <= t < head.len() && (#[trigger] head[t]).code == "unknown_hierarchy_parent"@;
        assert(all[t] == head[t]);
    }
}

/// Each node's own defects are reported: an identifier that is not a stable token, an
/// identifier used by an earlier node, a blank label, and a parent that is no node.
pub proof fn lemma_node_defects_are_reported(nodes: Seq<MethodHierarchyNode>, k: int)
    requires
        0 <= k < nodes.len(),
    ensures
        !stable_token(nodes[k].node_id@) ==> hierarchy_reports(nodes, "invalid_hierarchy_node_id"@),
        (exists|j: int| 0 <= j < k && (#[trigger] nodes[j]).node_id@ == nodes[k].node_id@)
            ==> hierarchy_reports(nodes, "duplicate_hierarchy_node_id"@),
        trim_seq(nodes[k].label@).len() == 0 ==> hierarchy_reports(nodes, "missing_hierarchy_label"@),
        (nodes[k].parent_node_id matches Some(p) && forall|j: int|
            0 <= j < nodes.len() ==> (#[trigger] nodes[j]).node_id@ != p@) ==> hierarchy_reports(
            nodes,
            "unknown_hierarchy_parent"@,
        ),
{
    let checks = node_checks(nodes, k);
    let a = when_found(
        !stable_token(nodes[k].node_id@),
        wissue(
            "invalid_hierarchy_node_id",
            "hierarchy[].node_id",
            "hierarchy node IDs must be stable ASCII tokens"@,
        ),
    );
    let b = when_found(
        id_seen_before(nodes, k),
        wissue("duplicate_hierarchy_node_id", "hierarchy", "duplicate hierarchy node: "@ + nodes[k].node_id@),
    );
    let c = when_found(
        trim_seq(nodes[k].label@).len() == 0,
        wissue("missing_hierarchy_label", "hierarchy[].label", "hierarchy node label is required"@),
    );
    if !stable_token(nodes[k].node_id@) {
        assert(checks[0].code == "invalid_hierarchy_node_id"@);
        lemma_node_check_reported(nodes, k, 0);
    }
    if id_seen_before(nodes, k) {
        assert(checks[a.len() as int].code == "duplicate_hierarchy_node_id"@);
        lemma_node_check_reported(nodes, k, a.len() as int);
    }
    if trim_seq(nodes[k].label@).len() == 0 {
        assert(checks[(a.len() + b.len()) as int].code == "missing_hierarchy_label"@);
        lemma_node_check_reported(nodes, k, (a.len() + b.len()) as int);
    }
    if nodes[k].parent_node_id matches Some(p) && forall|j: int|
        0 <= j < nodes.len() ==> (#[trigger] nodes[j]).node_id@ != p@ {
        lemma_parent_pass_keeps(nodes, nodes.len() as int, k);
        let first = node_pass(nodes, nodes.len() as int);
        let second = parent_pass(nodes, nodes.len() as int);
        let t = choose|t: int| 0 <= t < second.len() && (#[trigger] second[t]).code == "unknown_hierarchy_parent"@;
        assert(hierarchy_issues(nodes)[first.len() + t] == second[t]);
    }
}


proof fn lemma_last_node_for_is(nodes: Seq<MethodHierarchyNode>, k: int)
    requires
        0 <= k < nodes.len(),
        forall|j: int| k < j < nodes.len() ==> (#[trigger] nodes[j]).node_id@ != nodes[k].node_id@,
    ensures
        last_node_for(nodes, nodes[k].node_id@) == Some(k),
    decreases nodes.len(),
{
    if k < nodes.len() - 1 {
        let t = nodes.drop_last();
        assert(nodes.last() == nodes[nodes.len() - 1]);
        assert forall|j: int| k < j < t.len() implies (#[trigger] t[j]).node_id@ != t[k].node_id@ by {
            assert(t[j] == nodes[j]);
        }
        lemma_last_node_for_is(t, k);
        assert(t[k] == nodes[k]);
    }
}

proof fn lemma_cycle_pass_keeps(nodes: Seq<MethodHierarchyNode>, n: int, k: int)
    requires
        0 <= k < n <= nodes.len(),
        first_return(nodes, nodes[k].node_id@, 0) is Some,
    ensures
        exists|t: int|
            0 <= t < cycle_pass(nodes, n).len() && (#[trigger] cycle_pass(nodes, n)[t]).code
                == "method_hierarchy_cycle"@,
    decreases n,
{
    let head = cycle_pass(nodes, n - 1);
    let all = cycle_pass(nodes, n);
    if k == n - 1 {
        assert(all[head.len() as int].code == "method_hierarchy_cycle"@);
    } else {
        lemma_cycle_pass_keeps(nodes, n - 1, k);
        let t = choose|t: int| 0 <= t < head.len() && (#[trigger] head[t]).code == "method_hierarchy_cycle"@;
        assert(all[t] == head[t]);
    }
}

/// A node that is its own parent (as the last node with its identifier) closes a cycle,
/// which is reported.
pub proof fn lemma_own_parent_is_a_cycle(nodes: Seq<MethodHierarchyNode>, k: int)
    requires
        0 <= k < nodes.len(),
        forall|j: int| k < j < nodes.len() ==> (#[trigger] nodes[j]).node_id@ != nodes[k].node_id@,
        nodes[k].parent_node_id matches Some(p) && p@ == nodes[k].node_id@,
    ensures
        hierarchy_reports(nodes, "method_hierarchy_cycle"@),
{
    let start = nodes[k].node_id@;
    lemma_last_node_for_is(nodes, k);
    assert(climb(nodes, start, 0) == Some(start));
    assert(climb(nodes, start, 1) == Some(start));
    assert(meets_again(nodes, start, 1));
    assert(!meets_again(nodes, start, 0));
    assert(first_return(nodes, start, 1) == Some(1int));
    assert(first_return(nodes, start, 0) == Some(1int));
    lemma_cycle_pass_keeps(nodes, nodes.len() as int, k);
    let first = node_pass(nodes, nodes.len() as int) + parent_pass(nodes, nodes.len() as int);
    let third = cycle_pass(nodes, nodes.len() as int);
    let t = choose|t: int| 0 <= t < third.len() && (#[trigger] third[t]).code == "method_hierarchy_cycle"@;
    assert(hierarchy_issues(nodes) == first + third);
    assert(hierarchy_issues(nodes)[first.len() + t] == third[t]);
}

} // verus!
