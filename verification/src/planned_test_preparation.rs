//! Preparation of a planned test: the schedule slot, the frozen method and
//! station setup, the materials assigned to the method's roles, and the
//! readiness verdict that decides whether the test may start.

use crate::checksum::{checksum_text, sha256_checksum};
use crate::service_planning::ServiceScheduleStatus;
use crate::station_setup::{
    StationCorrectionKind, StationReadinessDimension, StationReadinessIssue,
    StationReadinessSeverity, StationSetupReadiness, StationSetupRevisionStatus,
};
use crate::test_definitions::{
    CalibrationRequirement, InstrumentSubstitutionPolicy, InstrumentationChainSlot,
    MeasurementAxis, TemplateRevisionStatus,
};
use crate::text::{
    optional_view, all_identifier_characters, all_identifier_chars, bytes_eq, concat, decimal_text,
    eq_ignore_case, equal_ignoring_ascii_case, indexed_path, lemma_text_lt_irreflexive,
    lemma_text_lt_transitive, push_str, str_eq, str_lt, text_lt, trim, trim_seq,
};
use crate::sorting::{
    lemma_stable_sorted_is_a_permutation, lemma_text_pair_order, lemma_texts_lt_irreflexive,
    lemma_texts_lt_transitive, copy_texts, record_views, same_texts, sort_distinct, sort_stable, sorted_distinct,
    stable_sorted, texts_before, texts_equal, texts_lt, views, SortKey,
};
use vstd::prelude::*;
use vstd::utf8::{encode_utf8, is_char_boundary};

verus! {

/// The schema of stored preparations.
pub const PLANNED_TEST_PREPARATION_SCHEMA_VERSION: &'static str = "emc-locus.planned-test-preparation.v1";

#[derive(Clone, Copy, Debug, PartialEq, Eq, PartialOrd, Ord, Structural)]
pub enum PlannedTestPreparationSeverity {
    Blocking,
    Warning,
}

#[derive(Clone, Copy, Debug, PartialEq, Eq, PartialOrd, Ord, Structural)]
pub enum PlannedTestPreparationDimension {
    ScheduleContext,
    TestMethod,
    StationSetup,
    InstrumentAssignment,
    Serviceability,
    CalibrationValidity,
    MissingEvidence,
    Nonconformance,
    CorrectionValidity,
}

#[derive(Clone, Copy, Debug, PartialEq, Eq, Structural)]
pub enum PlannedTestPreparationState {
    Blocked,
    Ready,
    Stale,
}

pub open spec fn severity_rank(s: PlannedTestPreparationSeverity) -> int {
    match s {
        PlannedTestPreparationSeverity::Blocking => 0,
        PlannedTestPreparationSeverity::Warning => 1,
    }
}

pub open spec fn dimension_rank(d: PlannedTestPreparationDimension) -> int {
    match d {
        PlannedTestPreparationDimension::ScheduleContext => 0,
        PlannedTestPreparationDimension::TestMethod => 1,
        PlannedTestPreparationDimension::StationSetup => 2,
        PlannedTestPreparationDimension::InstrumentAssignment => 3,
        PlannedTestPreparationDimension::Serviceability => 4,
        PlannedTestPreparationDimension::CalibrationValidity => 5,
        PlannedTestPreparationDimension::MissingEvidence => 6,
        PlannedTestPreparationDimension::Nonconformance => 7,
        PlannedTestPreparationDimension::CorrectionValidity => 8,
    }
}

fn severity_number(s: PlannedTestPreparationSeverity) -> (r: u8)
    ensures
        r == severity_rank(s),
{
    match s {
        PlannedTestPreparationSeverity::Blocking => 0,
        PlannedTestPreparationSeverity::Warning => 1,
    }
}

fn dimension_number(d: PlannedTestPreparationDimension) -> (r: u8)
    ensures
        r == dimension_rank(d),
{
    match d {
        PlannedTestPreparationDimension::ScheduleContext => 0,
        PlannedTestPreparationDimension::TestMethod => 1,
        PlannedTestPreparationDimension::StationSetup => 2,
        PlannedTestPreparationDimension::InstrumentAssignment => 3,
        PlannedTestPreparationDimension::Serviceability => 4,
        PlannedTestPreparationDimension::CalibrationValidity => 5,
        PlannedTestPreparationDimension::MissingEvidence => 6,
        PlannedTestPreparationDimension::Nonconformance => 7,
        PlannedTestPreparationDimension::CorrectionValidity => 8,
    }
}

/// A readiness finding of a preparation, with the method roles, station bindings and
/// physical materials it concerns.
#[derive(Clone, Debug, PartialEq, Eq)]
pub struct PlannedTestPreparationIssue {
    pub code: String,
    pub severity: PlannedTestPreparationSeverity,
    pub dimension: PlannedTestPreparationDimension,
    pub message: String,
    pub next_action: String,
    pub method_slot_ids: Vec<String>,
    pub binding_ids: Vec<String>,
    pub asset_ids: Vec<String>,
}

pub open spec fn texts_view(s: Seq<String>) -> Seq<Seq<char>> {
    views(s)
}

pub struct PrepIssueView {
    pub code: Seq<char>,
    pub severity: PlannedTestPreparationSeverity,
    pub dimension: PlannedTestPreparationDimension,
    pub message: Seq<char>,
    pub next_action: Seq<char>,
    pub method_slot_ids: Seq<Seq<char>>,
    pub binding_ids: Seq<Seq<char>>,
    pub asset_ids: Seq<Seq<char>>,
}

impl View for PlannedTestPreparationIssue {
    type V = PrepIssueView;

    open spec fn view(&self) -> PrepIssueView {
        PrepIssueView {
            code: self.code@,
            severity: self.severity,
            dimension: self.dimension,
            message: self.message@,
            next_action: self.next_action@,
            method_slot_ids: texts_view(self.method_slot_ids@),
            binding_ids: texts_view(self.binding_ids@),
            asset_ids: texts_view(self.asset_ids@),
        }
    }
}

pub open spec fn prep_issues_view(s: Seq<PlannedTestPreparationIssue>) -> Seq<PrepIssueView> {
    record_views(s)
}

/// No issue of the list blocks.
pub open spec fn nothing_blocks(s: Seq<PrepIssueView>) -> bool {
    forall|i: int| 0 <= i < s.len() ==> (#[trigger] s[i]).severity
        != PlannedTestPreparationSeverity::Blocking
}

/// The verdict of a preparation at the date it was checked.
#[derive(Clone, Debug, PartialEq, Eq)]
pub struct PlannedTestPreparationVerdict {
    pub ready: bool,
    pub checked_on: String,
    pub issues: Vec<PlannedTestPreparationIssue>,
}

pub struct VerdictView {
    pub ready: bool,
    pub checked_on: Seq<char>,
    pub issues: Seq<PrepIssueView>,
}

impl View for PlannedTestPreparationVerdict {
    type V = VerdictView;

    open spec fn view(&self) -> VerdictView {
        VerdictView {
            ready: self.ready,
            checked_on: self.checked_on@,
            issues: prep_issues_view(self.issues@),
        }
    }
}

fn no_blocking_issue(issues: &Vec<PlannedTestPreparationIssue>) -> (r: bool)
    ensures
        r == nothing_blocks(prep_issues_view(issues@)),
{
    let mut k: usize = 0;
    while k < issues.len()
        invariant
            k <= issues@.len(),
            forall|i: int| 0 <= i < k ==> (#[trigger] issues@[i]).severity
                != PlannedTestPreparationSeverity::Blocking,
        decreases issues@.len() - k,
    {
        if issues[k].severity == PlannedTestPreparationSeverity::Blocking {
            assert(prep_issues_view(issues@)[k as int].severity
                == PlannedTestPreparationSeverity::Blocking);
            return false;
        }
        k = k + 1;
    }
    true
}

impl PlannedTestPreparationVerdict {
    fn from_issues(checked_on: String, issues: Vec<PlannedTestPreparationIssue>) -> (r: Self)
        ensures
            r.ready == nothing_blocks(prep_issues_view(issues@)),
            r.checked_on@ == checked_on@,
            r.issues@ == issues@,
    {
        let ready = no_blocking_issue(&issues);
        PlannedTestPreparationVerdict { ready, checked_on, issues }
    }
}

/// The first ten bytes of a planned start, `YYYY-MM-DD`, when they form a prefix of the
/// text; otherwise nothing.
pub open spec fn planned_date_bytes(start: Seq<char>) -> Seq<u8> {
    let b = encode_utf8(start);
    if b.len() >= 10 && is_char_boundary(b, 10) {
        b.subrange(0, 10)
    } else {
        seq![]
    }
}

/// The schedule slot a preparation is made for, frozen at its revision.
#[derive(Clone, Debug, PartialEq, Eq)]
pub struct PlannedTestScheduleSnapshot {
    pub project_code: String,
    pub item_code: String,
    pub revision: u64,
    pub title: String,
    pub planned_start_at: String,
    pub planned_end_at: String,
    pub assigned_operator: String,
    pub laboratory_location_id: Option<String>,
    pub laboratory_location_label: String,
    pub equipment_under_test: String,
    pub execution_mode: String,
    pub status: ServiceScheduleStatus,
}

impl PlannedTestScheduleSnapshot {
    /// The date part of the planned start, or an empty text.
    pub fn planned_date(&self) -> (r: &str)
        ensures
            encode_utf8(r@) == planned_date_bytes(self.planned_start_at@),
    {
        let text = self.planned_start_at.as_str();
        let bytes = text.as_bytes();
        if bytes.len() >= 10 && text.is_char_boundary(10) {
            let (date, _) = text.split_at(10);
            assert(encode_utf8(text@) == encode_utf8(self.planned_start_at@));
            assert(encode_utf8(date@) =~= encode_utf8(text@).subrange(0, 10));
            date
        } else {
            proof {
                reveal_strlit("");
                assert(""@.len() == 0);
                assert(encode_utf8(""@) =~= Seq::<u8>::empty());
            }
            ""
        }
    }
}

/// The test method revision the preparation is made for.
#[derive(Clone, Debug, PartialEq, Eq)]
pub struct PreparedTestMethodSnapshot {
    pub template_id: String,
    pub revision_id: String,
    pub revision_number: u32,
    pub revision_status: TemplateRevisionStatus,
    pub definition_checksum: String,
    pub title: String,
    pub measurement_axis: MeasurementAxis,
    pub method_code: Option<String>,
    pub method_revision: Option<String>,
    pub standard_references: Vec<String>,
    pub instrumentation_chain: Vec<InstrumentationChainSlot>,
}

/// A capability declared by the model of a material.
#[derive(Clone, Debug, PartialEq, Eq)]
pub struct PreparedEquipmentCapabilitySnapshot {
    pub capability_id: String,
    pub label: String,
    pub capability_kind: String,
}

/// A material of the station setup, frozen at its revision.
#[derive(Clone, Debug, PartialEq, Eq)]
pub struct PreparedStationAssetSnapshot {
    pub binding_id: String,
    pub role_label: String,
    pub asset_id: String,
    pub asset_revision: String,
    pub inventory_code: String,
    pub serial_number: String,
    pub manufacturer: String,
    pub model_name: String,
    pub equipment_model_id: String,
    pub equipment_model_revision_id: String,
    pub equipment_model_checksum: String,
    pub category_code: String,
    pub capabilities: Vec<PreparedEquipmentCapabilitySnapshot>,
}

/// A correction selected for a material of the station setup.
#[derive(Clone, Debug, PartialEq, Eq)]
pub struct PreparedStationCorrectionSnapshot {
    pub selection_id: String,
    pub binding_id: String,
    pub correction_kind: StationCorrectionKind,
    pub characterization_id: String,
    pub characterization_checksum: String,
    pub label: String,
}

/// The station setup revision the preparation is made for.
#[derive(Clone, Debug, PartialEq, Eq)]
pub struct PreparedStationSetupSnapshot {
    pub setup_id: String,
    pub revision_id: String,
    pub revision_number: u32,
    pub revision_status: StationSetupRevisionStatus,
    pub definition_checksum: String,
    pub label: String,
    pub laboratory_location_id: Option<String>,
    pub laboratory_location_label: String,
    pub planned_use_on: String,
    pub execution_mode: String,
    pub assets: Vec<PreparedStationAssetSnapshot>,
    pub corrections: Vec<PreparedStationCorrectionSnapshot>,
}

/// The station material assigned to a method role.
#[derive(Clone, Debug, PartialEq, Eq)]
pub struct PlannedTestInstrumentAssignment {
    pub slot_id: String,
    pub binding_id: String,
}

/// Whether a station material can fill a method role, and why not.
#[derive(Clone, Debug, PartialEq, Eq)]
pub struct PlannedTestMaterialCompatibility {
    pub slot_id: String,
    pub binding_id: String,
    pub compatible: bool,
    pub reason: Option<String>,
    pub next_action: Option<String>,
}

/// What a preparation is assessed from.
#[derive(Clone, Debug, PartialEq, Eq)]
pub struct PlannedTestPreparationAssessmentInput {
    pub schedule: PlannedTestScheduleSnapshot,
    pub method: PreparedTestMethodSnapshot,
    pub station_setup: PreparedStationSetupSnapshot,
    pub assignments: Vec<PlannedTestInstrumentAssignment>,
    pub station_readiness: StationSetupReadiness,
}

/// A stored preparation: what was prepared and the verdict reached.
#[derive(Clone, Debug, PartialEq, Eq)]
pub struct PlannedTestPreparationDefinition {
    pub definition_schema_version: String,
    pub schedule: PlannedTestScheduleSnapshot,
    pub method: PreparedTestMethodSnapshot,
    pub station_setup: PreparedStationSetupSnapshot,
    pub assignments: Vec<PlannedTestInstrumentAssignment>,
    pub verdict: PlannedTestPreparationVerdict,
}

/// A preparation in canonical form, with its checksum.
#[derive(Clone, Debug, PartialEq, Eq)]
pub struct CanonicalPlannedTestPreparationDefinition {
    pub definition_schema_version: String,
    pub canonical_json: String,
    pub definition_checksum: String,
}

/// A structural defect of a preparation, located by its path.
#[derive(Clone, Debug, PartialEq, Eq)]
pub struct PlannedTestPreparationValidationIssue {
    pub code: String,
    pub path: String,
    pub message: String,
}

pub struct ValidationIssueView {
    pub code: Seq<char>,
    pub path: Seq<char>,
    pub message: Seq<char>,
}

impl View for PlannedTestPreparationValidationIssue {
    type V = ValidationIssueView;

    open spec fn view(&self) -> ValidationIssueView {
        ValidationIssueView { code: self.code@, path: self.path@, message: self.message@ }
    }
}

pub open spec fn validation_view(s: Seq<PlannedTestPreparationValidationIssue>) -> Seq<
    ValidationIssueView,
> {
    s.map_values(|x: PlannedTestPreparationValidationIssue| x@)
}

pub open spec fn vissue(code: &str, path: Seq<char>, message: &str) -> ValidationIssueView {
    ValidationIssueView { code: code@, path, message: message@ }
}

/// The state of a stored preparation against the current schedule revision.
pub open spec fn effective_state_spec(
    stored_revision: u64,
    ready: bool,
    current_revision: u64,
) -> PlannedTestPreparationState {
    if stored_revision != current_revision {
        PlannedTestPreparationState::Stale
    } else if ready {
        PlannedTestPreparationState::Ready
    } else {
        PlannedTestPreparationState::Blocked
    }
}

impl PlannedTestPreparationDefinition {
    /// Stale once the schedule has moved; otherwise ready or blocked as the verdict says.
    pub fn effective_state(&self, current_schedule_revision: u64) -> (r:
        PlannedTestPreparationState)
        ensures
            r == effective_state_spec(
                self.schedule.revision,
                self.verdict.ready,
                current_schedule_revision,
            ),
    {
        if self.schedule.revision != current_schedule_revision {
            PlannedTestPreparationState::Stale
        } else if self.verdict.ready {
            PlannedTestPreparationState::Ready
        } else {
            PlannedTestPreparationState::Blocked
        }
    }

    /// A test may start once confirmed, with a ready preparation for its current revision.
    pub fn permits_start(
        &self,
        current_schedule_revision: u64,
        current_status: ServiceScheduleStatus,
    ) -> (b: bool)
        ensures
            b == (current_status == ServiceScheduleStatus::Confirmed && effective_state_spec(
                self.schedule.revision,
                self.verdict.ready,
                current_schedule_revision,
            ) == PlannedTestPreparationState::Ready),
    {
        current_status == ServiceScheduleStatus::Confirmed && self.effective_state(
            current_schedule_revision,
        ) == PlannedTestPreparationState::Ready
    }
}

/// A test starts only from a confirmed slot whose preparation was made for its current
/// revision and found ready.
pub proof fn lemma_start_requires_current_ready_preparation(
    stored_revision: u64,
    ready: bool,
    current_revision: u64,
    status: ServiceScheduleStatus,
)
    ensures
        (status == ServiceScheduleStatus::Confirmed && effective_state_spec(
            stored_revision,
            ready,
            current_revision,
        ) == PlannedTestPreparationState::Ready) <==> (status == ServiceScheduleStatus::Confirmed
            && stored_revision == current_revision && ready),
        stored_revision != current_revision ==> effective_state_spec(
            stored_revision,
            ready,
            current_revision,
        ) == PlannedTestPreparationState::Stale,
{
}

// ---------------------------------------------------------------------------
// Structural checks
// ---------------------------------------------------------------------------

/// Not a stable identifier once trimmed: empty, longer than 160 bytes, or with a
/// character other than ASCII letters, digits, `-`, `_` and `.`.
pub open spec fn bad_identifier(v: Seq<char>) -> bool {
    trim_seq(v).len() == 0 || encode_utf8(trim_seq(v)).len() > 160 || !all_identifier_chars(
        trim_seq(v),
    )
}

#[verifier::opaque]
pub open spec fn id_issues(v: Seq<char>, path: Seq<char>) -> Seq<ValidationIssueView> {
    if bad_identifier(v) {
        seq![
            vissue(
                "invalid_planned_test_preparation_identifier",
                path,
                "the value must be a stable identifier",
            ),
        ]
    } else {
        seq![]
    }
}

#[verifier::opaque]
pub open spec fn text_issues(v: Seq<char>, path: Seq<char>) -> Seq<ValidationIssueView> {
    if trim_seq(v).len() == 0 {
        seq![
            vissue(
                "missing_planned_test_preparation_text",
                path,
                "a non-empty value is required",
            ),
        ]
    } else {
        seq![]
    }
}

pub open spec fn is_lower_hex_byte(b: u8) -> bool {
    (48 <= b && b <= 57) || (97 <= b && b <= 102)
}

/// `sha256:` and 64 lowercase hexadecimal digits, byte for byte.
pub open spec fn canonical_checksum(v: Seq<char>) -> bool {
    let b = encode_utf8(v);
    &&& b.len() == 71
    &&& b[0] == 115 && b[1] == 104 && b[2] == 97 && b[3] == 50 && b[4] == 53 && b[5] == 54 && b[6]
        == 58
    &&& forall|i: int| 7 <= i < 71 ==> is_lower_hex_byte(#[trigger] b[i])
}

#[verifier::opaque]
pub open spec fn checksum_issues(v: Seq<char>, path: Seq<char>) -> Seq<ValidationIssueView> {
    if !canonical_checksum(v) {
        seq![
            vissue(
                "invalid_planned_test_preparation_checksum",
                path,
                "a canonical lowercase SHA-256 checksum is required",
            ),
        ]
    } else {
        seq![]
    }
}

pub open spec fn optional_id_issues(v: Option<String>, path: Seq<char>) -> Seq<ValidationIssueView> {
    match v {
        Some(x) => id_issues(x@, path),
        None => seq![],
    }
}

pub open spec fn when(cond: bool, issue: ValidationIssueView) -> Seq<ValidationIssueView> {
    if cond {
        seq![issue]
    } else {
        seq![]
    }
}

/// `prefix[index]suffix`.
pub open spec fn element_path(prefix: Seq<char>, index: int, suffix: Seq<char>) -> Seq<char> {
    prefix + seq!['['] + decimal_text(index as nat) + seq![']'] + suffix
}

pub open spec fn known_execution_mode(mode: Seq<char>) -> bool {
    mode == "accredited"@ || mode == "non_accredited"@ || mode == "investigation"@
}

/// The checks of the schedule part, in order.
pub open spec fn schedule_issues(schema: Seq<char>, s: PlannedTestScheduleSnapshot) -> Seq<
    ValidationIssueView,
> {
    when(
        schema != PLANNED_TEST_PREPARATION_SCHEMA_VERSION@,
        vissue(
            "unsupported_planned_test_preparation_schema",
            "definition_schema_version"@,
            "unsupported planned test preparation schema",
        ),
    ) + id_issues(s.project_code@, "schedule.project_code"@) + id_issues(
        s.item_code@,
        "schedule.item_code"@,
    ) + when(
        s.revision == 0,
        vissue(
            "invalid_planned_test_schedule_revision",
            "schedule.revision"@,
            "the scheduled test revision must be greater than zero",
        ),
    ) + text_issues(s.title@, "schedule.title"@) + text_issues(
        s.assigned_operator@,
        "schedule.assigned_operator"@,
    ) + text_issues(s.laboratory_location_label@, "schedule.laboratory_location_label"@)
        + text_issues(s.equipment_under_test@, "schedule.equipment_under_test"@)
        + optional_id_issues(s.laboratory_location_id, "schedule.laboratory_location_id"@) + when(
        planned_date_bytes(s.planned_start_at@).len() != 10,
        vissue(
            "invalid_planned_test_schedule_date",
            "schedule.planned_start_at"@,
            "the scheduled test must expose a canonical local date",
        ),
    ) + when(
        !known_execution_mode(s.execution_mode@),
        vissue(
            "invalid_planned_test_execution_mode",
            "schedule.execution_mode"@,
            "the scheduled test execution mode is invalid",
        ),
    ) + when(
        !(s.status == ServiceScheduleStatus::Planned || s.status
            == ServiceScheduleStatus::Confirmed),
        vissue(
            "planned_test_schedule_not_preparable",
            "schedule.status"@,
            "only a planned or confirmed test can be prepared",
        ),
    )
}

pub open spec fn chain_path(i: int, suffix: Seq<char>) -> Seq<char> {
    element_path("method.instrumentation_chain"@, i, suffix)
}

/// The role identifier appeared earlier in the chain.
pub open spec fn slot_seen_before(chain: Seq<InstrumentationChainSlot>, i: int) -> bool {
    exists|j: int| 0 <= j < i && (#[trigger] chain[j]).slot_id@ == chain[i].slot_id@
}

pub open spec fn slot_issues_at(chain: Seq<InstrumentationChainSlot>, i: int) -> Seq<
    ValidationIssueView,
> {
    id_issues(chain[i].slot_id@, chain_path(i, ".slot_id"@)) + text_issues(
        chain[i].label@,
        chain_path(i, ".label"@),
    ) + when(
        slot_seen_before(chain, i),
        vissue(
            "duplicate_planned_test_method_slot",
            chain_path(i, ".slot_id"@),
            "method role identifiers must be unique",
        ),
    )
}

pub open spec fn slot_issues(chain: Seq<InstrumentationChainSlot>, n: int) -> Seq<
    ValidationIssueView,
>
    decreases n,
{
    if n <= 0 {
        seq![]
    } else {
        slot_issues(chain, n - 1) + slot_issues_at(chain, n - 1)
    }
}

/// The checks of the method part, its roles included, in order.
pub open spec fn method_issues(m: PreparedTestMethodSnapshot) -> Seq<ValidationIssueView> {
    id_issues(m.template_id@, "method.template_id"@) + id_issues(
        m.revision_id@,
        "method.revision_id"@,
    ) + checksum_issues(m.definition_checksum@, "method.definition_checksum"@) + text_issues(
        m.title@,
        "method.title"@,
    ) + when(
        m.revision_number == 0,
        vissue(
            "invalid_planned_test_method_revision_number",
            "method.revision_number"@,
            "the method revision number must be greater than zero",
        ),
    ) + slot_issues(m.instrumentation_chain@, m.instrumentation_chain@.len() as int)
}

pub open spec fn asset_path(i: int, suffix: Seq<char>) -> Seq<char> {
    element_path("station_setup.assets"@, i, suffix)
}

pub open spec fn binding_seen_before(assets: Seq<PreparedStationAssetSnapshot>, i: int) -> bool {
    exists|j: int| 0 <= j < i && (#[trigger] assets[j]).binding_id@ == assets[i].binding_id@
}

pub open spec fn asset_seen_before(assets: Seq<PreparedStationAssetSnapshot>, i: int) -> bool {
    exists|j: int| 0 <= j < i && (#[trigger] assets[j]).asset_id@ == assets[i].asset_id@
}

pub open spec fn asset_issues_at(assets: Seq<PreparedStationAssetSnapshot>, i: int) -> Seq<
    ValidationIssueView,
> {
    let a = assets[i];
    id_issues(a.binding_id@, asset_path(i, ".binding_id"@)) + id_issues(
        a.asset_id@,
        asset_path(i, ".asset_id"@),
    ) + id_issues(a.asset_revision@, asset_path(i, ".asset_revision"@)) + text_issues(
        a.role_label@,
        asset_path(i, ".role_label"@),
    ) + text_issues(a.inventory_code@, asset_path(i, ".inventory_code"@)) + text_issues(
        a.serial_number@,
        asset_path(i, ".serial_number"@),
    ) + text_issues(a.manufacturer@, asset_path(i, ".manufacturer"@)) + text_issues(
        a.model_name@,
        asset_path(i, ".model_name"@),
    ) + text_issues(a.category_code@, asset_path(i, ".category_code"@)) + checksum_issues(
        a.equipment_model_checksum@,
        asset_path(i, ".equipment_model_checksum"@),
    ) + when(
        binding_seen_before(assets, i),
        vissue(
            "duplicate_planned_test_station_binding",
            asset_path(i, ".binding_id"@),
            "station material bindings must be unique",
        ),
    ) + when(
        asset_seen_before(assets, i),
        vissue(
            "duplicate_planned_test_station_asset",
            asset_path(i, ".asset_id"@),
            "the same physical material cannot appear twice",
        ),
    )
}

pub open spec fn asset_issues(assets: Seq<PreparedStationAssetSnapshot>, n: int) -> Seq<
    ValidationIssueView,
>
    decreases n,
{
    if n <= 0 {
        seq![]
    } else {
        asset_issues(assets, n - 1) + asset_issues_at(assets, n - 1)
    }
}

/// The checks of the station part, its materials included, in order.
pub open spec fn station_issues(st: PreparedStationSetupSnapshot) -> Seq<ValidationIssueView> {
    id_issues(st.setup_id@, "station_setup.setup_id"@) + id_issues(
        st.revision_id@,
        "station_setup.revision_id"@,
    ) + checksum_issues(st.definition_checksum@, "station_setup.definition_checksum"@)
        + text_issues(st.label@, "station_setup.label"@) + text_issues(
        st.laboratory_location_label@,
        "station_setup.laboratory_location_label"@,
    ) + optional_id_issues(st.laboratory_location_id, "station_setup.laboratory_location_id"@)
        + when(
        st.revision_number == 0,
        vissue(
            "invalid_planned_test_station_revision_number",
            "station_setup.revision_number"@,
            "the station setup revision number must be greater than zero",
        ),
    ) + asset_issues(st.assets@, st.assets@.len() as int)
}

pub open spec fn assignment_path(i: int, suffix: Seq<char>) -> Seq<char> {
    element_path("assignments"@, i, suffix)
}

pub open spec fn assignment_slot_seen_before(
    assignments: Seq<PlannedTestInstrumentAssignment>,
    i: int,
) -> bool {
    exists|j: int| 0 <= j < i && (#[trigger] assignments[j]).slot_id@ == assignments[i].slot_id@
}

pub open spec fn chain_has_slot(chain: Seq<InstrumentationChainSlot>, slot_id: Seq<char>) -> bool {
    exists|j: int| 0 <= j < chain.len() && (#[trigger] chain[j]).slot_id@ == slot_id
}

pub open spec fn station_has_binding(
    assets: Seq<PreparedStationAssetSnapshot>,
    binding_id: Seq<char>,
) -> bool {
    exists|j: int| 0 <= j < assets.len() && (#[trigger] assets[j]).binding_id@ == binding_id
}

pub open spec fn assignment_issues_at(
    assignments: Seq<PlannedTestInstrumentAssignment>,
    chain: Seq<InstrumentationChainSlot>,
    assets: Seq<PreparedStationAssetSnapshot>,
    i: int,
) -> Seq<ValidationIssueView> {
    let a = assignments[i];
    id_issues(a.slot_id@, assignment_path(i, ".slot_id"@)) + id_issues(
        a.binding_id@,
        assignment_path(i, ".binding_id"@),
    ) + when(
        assignment_slot_seen_before(assignments, i),
        vissue(
            "duplicate_planned_test_assignment",
            assignment_path(i, ".slot_id"@),
            "a method role can only be assigned once",
        ),
    ) + when(
        !chain_has_slot(chain, a.slot_id@),
        vissue(
            "planned_test_assignment_unknown_slot",
            assignment_path(i, ".slot_id"@),
            "the assignment references an unknown method role",
        ),
    ) + when(
        !station_has_binding(assets, a.binding_id@),
        vissue(
            "planned_test_assignment_unknown_binding",
            assignment_path(i, ".binding_id"@),
            "the assignment references a material outside the selected setup",
        ),
    )
}

pub open spec fn assignment_issues(
    assignments: Seq<PlannedTestInstrumentAssignment>,
    chain: Seq<InstrumentationChainSlot>,
    assets: Seq<PreparedStationAssetSnapshot>,
    n: int,
) -> Seq<ValidationIssueView>
    decreases n,
{
    if n <= 0 {
        seq![]
    } else {
        assignment_issues(assignments, chain, assets, n - 1) + assignment_issues_at(
            assignments,
            chain,
            assets,
            n - 1,
        )
    }
}

/// Every structural defect of a preparation, in the order the parts are checked:
/// schedule, method and roles, station and materials, assignments.
pub open spec fn structure_issues(
    schema: Seq<char>,
    schedule: PlannedTestScheduleSnapshot,
    method: PreparedTestMethodSnapshot,
    station: PreparedStationSetupSnapshot,
    assignments: Seq<PlannedTestInstrumentAssignment>,
) -> Seq<ValidationIssueView> {
    schedule_issues(schema, schedule) + method_issues(method) + station_issues(station)
        + assignment_issues(
        assignments,
        method.instrumentation_chain@,
        station.assets@,
        assignments.len() as int,
    )
}

fn validation_issue(code: &str, path: &str, message: &str) -> (r:
    PlannedTestPreparationValidationIssue)
    ensures
        r@ == vissue(code, path@, message),
{
    PlannedTestPreparationValidationIssue {
        code: code.to_owned(),
        path: path.to_owned(),
        message: message.to_owned(),
    }
}

fn push_issue_if(
    issues: &mut Vec<PlannedTestPreparationValidationIssue>,
    cond: bool,
    code: &str,
    path: &str,
    message: &str,
)
    ensures
        validation_view(final(issues)@) == validation_view(old(issues)@) + when(
            cond,
            vissue(code, path@, message),
        ),
{
    let ghost before = validation_view(issues@);
    if cond {
        issues.push(validation_issue(code, path, message));
    }
    assert(validation_view(issues@) =~= before + when(cond, vissue(code, path@, message)));
}

fn require_id(issues: &mut Vec<PlannedTestPreparationValidationIssue>, value: &str, path: &str)
    ensures
        validation_view(final(issues)@) == validation_view(old(issues)@) + id_issues(
            value@,
            path@,
        ),
{
    proof {
        reveal(id_issues);
    }
    let t = trim(value);
    let text = t.as_str();
    let bad = text.is_empty() || text.as_bytes().len() > 160 || !all_identifier_characters(text);
    push_issue_if(
        issues,
        bad,
        "invalid_planned_test_preparation_identifier",
        path,
        "the value must be a stable identifier",
    );
}

fn require_text(issues: &mut Vec<PlannedTestPreparationValidationIssue>, value: &str, path: &str)
    ensures
        validation_view(final(issues)@) == validation_view(old(issues)@) + text_issues(
            value@,
            path@,
        ),
{
    proof {
        reveal(text_issues);
    }
    let t = trim(value);
    push_issue_if(
        issues,
        t.as_str().is_empty(),
        "missing_planned_test_preparation_text",
        path,
        "a non-empty value is required",
    );
}

pub fn is_canonical_checksum(value: &str) -> (b: bool)
    ensures
        b == canonical_checksum(value@),
{
    let bytes = value.as_bytes();
    if bytes.len() != 71 {
        return false;
    }
    if !(bytes[0] == 115 && bytes[1] == 104 && bytes[2] == 97 && bytes[3] == 50 && bytes[4] == 53
        && bytes[5] == 54 && bytes[6] == 58) {
        return false;
    }
    let mut k: usize = 7;
    while k < 71
        invariant
            bytes@ == encode_utf8(value@),
            bytes@.len() == 71,
            7 <= k <= 71,
            forall|i: int| 7 <= i < k ==> is_lower_hex_byte(#[trigger] bytes@[i]),
        decreases 71 - k,
    {
        let b = bytes[k];
        if !((48 <= b && b <= 57) || (97 <= b && b <= 102)) {
            assert(!is_lower_hex_byte(bytes@[k as int]));
            return false;
        }
        k = k + 1;
    }
    true
}

fn require_checksum(
    issues: &mut Vec<PlannedTestPreparationValidationIssue>,
    value: &str,
    path: &str,
)
    ensures
        validation_view(final(issues)@) == validation_view(old(issues)@) + checksum_issues(
            value@,
            path@,
        ),
{
    proof {
        reveal(checksum_issues);
    }
    push_issue_if(
        issues,
        !is_canonical_checksum(value),
        "invalid_planned_test_preparation_checksum",
        path,
        "a canonical lowercase SHA-256 checksum is required",
    );
}

fn require_optional_id(
    issues: &mut Vec<PlannedTestPreparationValidationIssue>,
    value: &Option<String>,
    path: &str,
)
    ensures
        validation_view(final(issues)@) == validation_view(old(issues)@) + optional_id_issues(
            *value,
            path@,
        ),
{
    match value {
        Some(v) => require_id(issues, v.as_str(), path),
        None => {
            assert(validation_view(issues@) =~= validation_view(issues@) + Seq::<
                ValidationIssueView,
            >::empty());
        },
    }
}

#[verifier::rlimit(80)]
#[verifier::spinoff_prover]
fn check_schedule(
    issues: &mut Vec<PlannedTestPreparationValidationIssue>,
    schema: &str,
    s: &PlannedTestScheduleSnapshot,
)
    ensures
        validation_view(final(issues)@) == validation_view(old(issues)@) + schedule_issues(
            schema@,
            *s,
        ),
{
    let ghost before = validation_view(issues@);
    push_issue_if(
        issues,
        !str_eq(schema, PLANNED_TEST_PREPARATION_SCHEMA_VERSION),
        "unsupported_planned_test_preparation_schema",
        "definition_schema_version",
        "unsupported planned test preparation schema",
    );
    require_id(issues, s.project_code.as_str(), "schedule.project_code");
    require_id(issues, s.item_code.as_str(), "schedule.item_code");
    push_issue_if(
        issues,
        s.revision == 0,
        "invalid_planned_test_schedule_revision",
        "schedule.revision",
        "the scheduled test revision must be greater than zero",
    );
    require_text(issues, s.title.as_str(), "schedule.title");
    require_text(issues, s.assigned_operator.as_str(), "schedule.assigned_operator");
    require_text(
        issues,
        s.laboratory_location_label.as_str(),
        "schedule.laboratory_location_label",
    );
    require_text(issues, s.equipment_under_test.as_str(), "schedule.equipment_under_test");
    require_optional_id(issues, &s.laboratory_location_id, "schedule.laboratory_location_id");
    let date = s.planned_date();
    push_issue_if(
        issues,
        date.as_bytes().len() != 10,
        "invalid_planned_test_schedule_date",
        "schedule.planned_start_at",
        "the scheduled test must expose a canonical local date",
    );
    let mode = s.execution_mode.as_str();
    let known = str_eq(mode, "accredited") || str_eq(mode, "non_accredited") || str_eq(
        mode,
        "investigation",
    );
    push_issue_if(
        issues,
        !known,
        "invalid_planned_test_execution_mode",
        "schedule.execution_mode",
        "the scheduled test execution mode is invalid",
    );
    let preparable = s.status == ServiceScheduleStatus::Planned || s.status
        == ServiceScheduleStatus::Confirmed;
    push_issue_if(
        issues,
        !preparable,
        "planned_test_schedule_not_preparable",
        "schedule.status",
        "only a planned or confirmed test can be prepared",
    );
    assert(validation_view(issues@) =~= before + schedule_issues(schema@, *s));
}

fn check_slots(
    issues: &mut Vec<PlannedTestPreparationValidationIssue>,
    chain: &Vec<InstrumentationChainSlot>,
)
    ensures
        validation_view(final(issues)@) == validation_view(old(issues)@) + slot_issues(
            chain@,
            chain@.len() as int,
        ),
{
    let ghost before = validation_view(issues@);
    let mut i: usize = 0;
    while i < chain.len()
        invariant
            i <= chain@.len(),
            validation_view(issues@) == before + slot_issues(chain@, i as int),
        decreases chain@.len() - i,
    {
        let ghost start = validation_view(issues@);
        let slot = &chain[i];
        let slot_path = indexed_path("method.instrumentation_chain", i, ".slot_id");
        let label_path = indexed_path("method.instrumentation_chain", i, ".label");
        require_id(issues, slot.slot_id.as_str(), slot_path.as_str());
        require_text(issues, slot.label.as_str(), label_path.as_str());
        let mut seen = false;
        let mut j: usize = 0;
        while j < i
            invariant
                i < chain@.len(),
                j <= i,
                slot == &chain@[i as int],
                seen == exists|k: int| 0 <= k < j && (#[trigger] chain@[k]).slot_id@
                    == chain@[i as int].slot_id@,
            decreases i - j,
        {
            if chain[j].slot_id == slot.slot_id {
                seen = true;
            }
            j = j + 1;
        }
        push_issue_if(
            issues,
            seen,
            "duplicate_planned_test_method_slot",
            slot_path.as_str(),
            "method role identifiers must be unique",
        );
        proof {
            assert(validation_view(issues@) =~= start + slot_issues_at(chain@, i as int));
        }
        i = i + 1;
    }
}

fn check_method(issues: &mut Vec<PlannedTestPreparationValidationIssue>, m: &PreparedTestMethodSnapshot)
    ensures
        validation_view(final(issues)@) == validation_view(old(issues)@) + method_issues(*m),
{
    let ghost before = validation_view(issues@);
    require_id(issues, m.template_id.as_str(), "method.template_id");
    require_id(issues, m.revision_id.as_str(), "method.revision_id");
    require_checksum(issues, m.definition_checksum.as_str(), "method.definition_checksum");
    require_text(issues, m.title.as_str(), "method.title");
    push_issue_if(
        issues,
        m.revision_number == 0,
        "invalid_planned_test_method_revision_number",
        "method.revision_number",
        "the method revision number must be greater than zero",
    );
    check_slots(issues, &m.instrumentation_chain);
    assert(validation_view(issues@) =~= before + method_issues(*m));
}

#[verifier::rlimit(80)]
#[verifier::spinoff_prover]
fn check_asset(
    issues: &mut Vec<PlannedTestPreparationValidationIssue>,
    assets: &Vec<PreparedStationAssetSnapshot>,
    i: usize,
)
    requires
        i < assets@.len(),
    ensures
        validation_view(final(issues)@) == validation_view(old(issues)@) + asset_issues_at(
            assets@,
            i as int,
        ),
{
    let ghost before = validation_view(issues@);
    let a = &assets[i];
    let binding_path = indexed_path("station_setup.assets", i, ".binding_id");
    let asset_path_text = indexed_path("station_setup.assets", i, ".asset_id");
    require_id(issues, a.binding_id.as_str(), binding_path.as_str());
    require_id(issues, a.asset_id.as_str(), asset_path_text.as_str());
    require_id(
        issues,
        a.asset_revision.as_str(),
        indexed_path("station_setup.assets", i, ".asset_revision").as_str(),
    );
    require_text(
        issues,
        a.role_label.as_str(),
        indexed_path("station_setup.assets", i, ".role_label").as_str(),
    );
    require_text(
        issues,
        a.inventory_code.as_str(),
        indexed_path("station_setup.assets", i, ".inventory_code").as_str(),
    );
    require_text(
        issues,
        a.serial_number.as_str(),
        indexed_path("station_setup.assets", i, ".serial_number").as_str(),
    );
    require_text(
        issues,
        a.manufacturer.as_str(),
        indexed_path("station_setup.assets", i, ".manufacturer").as_str(),
    );
    require_text(
        issues,
        a.model_name.as_str(),
        indexed_path("station_setup.assets", i, ".model_name").as_str(),
    );
    require_text(
        issues,
        a.category_code.as_str(),
        indexed_path("station_setup.assets", i, ".category_code").as_str(),
    );
    require_checksum(
        issues,
        a.equipment_model_checksum.as_str(),
        indexed_path("station_setup.assets", i, ".equipment_model_checksum").as_str(),
    );
    let mut binding_seen = false;
    let mut asset_seen = false;
    let mut j: usize = 0;
    while j < i
        invariant
            i < assets@.len(),
            j <= i,
            a == &assets@[i as int],
            binding_seen == exists|k: int| 0 <= k < j && (#[trigger] assets@[k]).binding_id@
                == assets@[i as int].binding_id@,
            asset_seen == exists|k: int| 0 <= k < j && (#[trigger] assets@[k]).asset_id@
                == assets@[i as int].asset_id@,
        decreases i - j,
    {
        if assets[j].binding_id == a.binding_id {
            binding_seen = true;
        }
        if assets[j].asset_id == a.asset_id {
            asset_seen = true;
        }
        j = j + 1;
    }
    push_issue_if(
        issues,
        binding_seen,
        "duplicate_planned_test_station_binding",
        binding_path.as_str(),
        "station material bindings must be unique",
    );
    push_issue_if(
        issues,
        asset_seen,
        "duplicate_planned_test_station_asset",
        asset_path_text.as_str(),
        "the same physical material cannot appear twice",
    );
    assert(validation_view(issues@) =~= before + asset_issues_at(assets@, i as int));
}

#[verifier::rlimit(80)]
#[verifier::spinoff_prover]
fn check_station(
    issues: &mut Vec<PlannedTestPreparationValidationIssue>,
    st: &PreparedStationSetupSnapshot,
)
    ensures
        validation_view(final(issues)@) == validation_view(old(issues)@) + station_issues(*st),
{
    let ghost before = validation_view(issues@);
    require_id(issues, st.setup_id.as_str(), "station_setup.setup_id");
    require_id(issues, st.revision_id.as_str(), "station_setup.revision_id");
    require_checksum(
        issues,
        st.definition_checksum.as_str(),
        "station_setup.definition_checksum",
    );
    require_text(issues, st.label.as_str(), "station_setup.label");
    require_text(
        issues,
        st.laboratory_location_label.as_str(),
        "station_setup.laboratory_location_label",
    );
    require_optional_id(
        issues,
        &st.laboratory_location_id,
        "station_setup.laboratory_location_id",
    );
    push_issue_if(
        issues,
        st.revision_number == 0,
        "invalid_planned_test_station_revision_number",
        "station_setup.revision_number",
        "the station setup revision number must be greater than zero",
    );
    let ghost middle = validation_view(issues@);
    let mut i: usize = 0;
    while i < st.assets.len()
        invariant
            i <= st.assets@.len(),
            validation_view(issues@) == middle + asset_issues(st.assets@, i as int),
        decreases st.assets@.len() - i,
    {
        let ghost start = validation_view(issues@);
        check_asset(issues, &st.assets, i);
        assert(validation_view(issues@) =~= middle + asset_issues(st.assets@, i + 1));
        i = i + 1;
    }
    assert(validation_view(issues@) =~= before + station_issues(*st));
}

fn chain_contains_slot(chain: &Vec<InstrumentationChainSlot>, slot_id: &String) -> (b: bool)
    ensures
        b == chain_has_slot(chain@, slot_id@),
{
    let mut k: usize = 0;
    while k < chain.len()
        invariant
            k <= chain@.len(),
            forall|j: int| 0 <= j < k ==> (#[trigger] chain@[j]).slot_id@ != slot_id@,
        decreases chain@.len() - k,
    {
        if chain[k].slot_id == *slot_id {
            return true;
        }
        k = k + 1;
    }
    false
}

fn station_contains_binding(assets: &Vec<PreparedStationAssetSnapshot>, binding_id: &String) -> (b:
    bool)
    ensures
        b == station_has_binding(assets@, binding_id@),
{
    let mut k: usize = 0;
    while k < assets.len()
        invariant
            k <= assets@.len(),
            forall|j: int| 0 <= j < k ==> (#[trigger] assets@[j]).binding_id@ != binding_id@,
        decreases assets@.len() - k,
    {
        if assets[k].binding_id == *binding_id {
            return true;
        }
        k = k + 1;
    }
    false
}

fn check_assignments(
    issues: &mut Vec<PlannedTestPreparationValidationIssue>,
    assignments: &Vec<PlannedTestInstrumentAssignment>,
    chain: &Vec<InstrumentationChainSlot>,
    assets: &Vec<PreparedStationAssetSnapshot>,
)
    ensures
        validation_view(final(issues)@) == validation_view(old(issues)@) + assignment_issues(
            assignments@,
            chain@,
            assets@,
            assignments@.len() as int,
        ),
{
    let ghost before = validation_view(issues@);
    let mut i: usize = 0;
    while i < assignments.len()
        invariant
            i <= assignments@.len(),
            validation_view(issues@) == before + assignment_issues(
                assignments@,
                chain@,
                assets@,
                i as int,
            ),
        decreases assignments@.len() - i,
    {
        let ghost start = validation_view(issues@);
        let a = &assignments[i];
        let slot_path = indexed_path("assignments", i, ".slot_id");
        let binding_path = indexed_path("assignments", i, ".binding_id");
        require_id(issues, a.slot_id.as_str(), slot_path.as_str());
        require_id(issues, a.binding_id.as_str(), binding_path.as_str());
        let mut seen = false;
        let mut j: usize = 0;
        while j < i
            invariant
                i < assignments@.len(),
                j <= i,
                a == &assignments@[i as int],
                seen == exists|k: int| 0 <= k < j && (#[trigger] assignments@[k]).slot_id@
                    == assignments@[i as int].slot_id@,
            decreases i - j,
        {
            if assignments[j].slot_id == a.slot_id {
                seen = true;
            }
            j = j + 1;
        }
        push_issue_if(
            issues,
            seen,
            "duplicate_planned_test_assignment",
            slot_path.as_str(),
            "a method role can only be assigned once",
        );
        push_issue_if(
            issues,
            !chain_contains_slot(chain, &a.slot_id),
            "planned_test_assignment_unknown_slot",
            slot_path.as_str(),
            "the assignment references an unknown method role",
        );
        push_issue_if(
            issues,
            !station_contains_binding(assets, &a.binding_id),
            "planned_test_assignment_unknown_binding",
            binding_path.as_str(),
            "the assignment references a material outside the selected setup",
        );
        assert(validation_view(issues@) =~= start + assignment_issues_at(
            assignments@,
            chain@,
            assets@,
            i as int,
        ));
        i = i + 1;
    }
}

/// Every structural defect of the parts of a preparation (see `structure_issues`).
fn structure_issues_of(
    schema: &str,
    schedule: &PlannedTestScheduleSnapshot,
    method: &PreparedTestMethodSnapshot,
    station: &PreparedStationSetupSnapshot,
    assignments: &Vec<PlannedTestInstrumentAssignment>,
) -> (r: Vec<PlannedTestPreparationValidationIssue>)
    ensures
        validation_view(r@) == structure_issues(schema@, *schedule, *method, *station, assignments@),
{
    let mut issues: Vec<PlannedTestPreparationValidationIssue> = Vec::new();
    assert(validation_view(issues@) =~= Seq::<ValidationIssueView>::empty());
    check_schedule(&mut issues, schema, schedule);
    check_method(&mut issues, method);
    check_station(&mut issues, station);
    check_assignments(&mut issues, assignments, &method.instrumentation_chain, &station.assets);
    assert(validation_view(issues@) =~= structure_issues(
        schema@,
        *schedule,
        *method,
        *station,
        assignments@,
    ));
    issues
}

// ---------------------------------------------------------------------------
// Readiness derived from the frozen method, station and assignments
// ---------------------------------------------------------------------------

pub open spec fn optional_list(v: Option<Seq<char>>) -> Seq<Seq<char>> {
    match v {
        Some(x) => seq![x],
        None => seq![],
    }
}

pub open spec fn prep_issue(
    code: &str,
    severity: PlannedTestPreparationSeverity,
    dimension: PlannedTestPreparationDimension,
    message: Seq<char>,
    next_action: &str,
    slot_id: Option<Seq<char>>,
    binding_id: Option<Seq<char>>,
    asset_id: Option<Seq<char>>,
) -> PrepIssueView {
    PrepIssueView {
        code: code@,
        severity,
        dimension,
        message,
        next_action: next_action@,
        method_slot_ids: optional_list(slot_id),
        binding_ids: optional_list(binding_id),
        asset_ids: optional_list(asset_id),
    }
}

pub open spec fn when_issue(cond: bool, issue: PrepIssueView) -> Seq<PrepIssueView> {
    if cond {
        seq![issue]
    } else {
        seq![]
    }
}

pub open spec fn context_blocking(
    code: &str,
    message: &str,
    next_action: &str,
) -> PrepIssueView {
    prep_issue(
        code,
        PlannedTestPreparationSeverity::Blocking,
        PlannedTestPreparationDimension::ScheduleContext,
        message@,
        next_action,
        None,
        None,
        None,
    )
}

/// The schedule and the station setup disagree on the place: different identified
/// locations, or a location without identity on either side.
pub open spec fn location_issues(schedule_location: Option<String>, station_location: Option<String>) -> Seq<PrepIssueView> {
    match (schedule_location, station_location) {
        (Some(a), Some(b)) => when_issue(
            a@ != b@,
            context_blocking(
                "planned_test_station_location_mismatch",
                "Le montage n'est pas rattaché au lieu réservé dans le planning.",
                "Déplacez le créneau vers ce lieu ou choisissez un montage du lieu réservé.",
            ),
        ),
        _ => seq![
            context_blocking(
                "planned_test_location_identity_missing",
                "Le lieu du créneau ou du montage n'a pas d'identifiant stable.",
                "Sélectionnez à nouveau un lieu identifié et un montage rattaché à ce lieu.",
            ),
        ],
    }
}

/// What the frozen method revision, the station revision and the slot's context say,
/// before any role is looked at.
pub open spec fn context_issues(
    schedule: PlannedTestScheduleSnapshot,
    method: PreparedTestMethodSnapshot,
    station: PreparedStationSetupSnapshot,
) -> Seq<PrepIssueView> {
    when_issue(
        !(method.revision_status == TemplateRevisionStatus::Approved || method.revision_status
            == TemplateRevisionStatus::Superseded),
        prep_issue(
            "planned_test_method_not_approved",
            PlannedTestPreparationSeverity::Blocking,
            PlannedTestPreparationDimension::TestMethod,
            "La révision de méthode n'est pas approuvée pour cet essai."@,
            "Choisissez une révision de méthode approuvée.",
            None,
            None,
            None,
        ),
    ) + when_issue(
        method.revision_status == TemplateRevisionStatus::Superseded,
        prep_issue(
            "planned_test_method_superseded",
            PlannedTestPreparationSeverity::Warning,
            PlannedTestPreparationDimension::TestMethod,
            "Une révision plus récente de la méthode existe, mais la révision figée reste identifiable."@,
            "Confirmez que la révision figée reste applicable au dossier.",
            None,
            None,
            None,
        ),
    ) + when_issue(
        !(station.revision_status == StationSetupRevisionStatus::Ready || station.revision_status
            == StationSetupRevisionStatus::Superseded),
        prep_issue(
            "planned_test_station_not_ready",
            PlannedTestPreparationSeverity::Blocking,
            PlannedTestPreparationDimension::StationSetup,
            "Le montage choisi n'est pas prêt à câbler."@,
            "Choisissez un montage prêt ou terminez sa préparation dans Test Station.",
            None,
            None,
            None,
        ),
    ) + when_issue(
        station.revision_status == StationSetupRevisionStatus::Superseded,
        prep_issue(
            "planned_test_station_superseded",
            PlannedTestPreparationSeverity::Warning,
            PlannedTestPreparationDimension::StationSetup,
            "Une version plus récente du montage existe, mais la version figée reste identifiable."@,
            "Confirmez que le montage figé reste celui qui sera câblé.",
            None,
            None,
            None,
        ),
    ) + when_issue(
        encode_utf8(station.planned_use_on@) != planned_date_bytes(schedule.planned_start_at@),
        context_blocking(
            "planned_test_station_date_mismatch",
            "Le montage n'a pas été vérifié pour la date de ce créneau.",
            "Préparez ou revérifiez le montage pour la date planifiée.",
        ),
    ) + when_issue(
        station.execution_mode@ != schedule.execution_mode@,
        context_blocking(
            "planned_test_station_mode_mismatch",
            "Le mode qualité du montage ne correspond pas au dossier.",
            "Choisissez un montage préparé pour le même mode qualité.",
        ),
    ) + location_issues(schedule.laboratory_location_id, station.laboratory_location_id)
}

/// The last assignment of the role (a later assignment of a role replaces an earlier one).
pub open spec fn last_assignment_for(
    assignments: Seq<PlannedTestInstrumentAssignment>,
    slot_id: Seq<char>,
) -> Option<int>
    decreases assignments.len(),
{
    if assignments.len() == 0 {
        None
    } else if assignments.last().slot_id@ == slot_id {
        Some(assignments.len() - 1)
    } else {
        last_assignment_for(assignments.drop_last(), slot_id)
    }
}

/// The last material of the station under the binding.
pub open spec fn last_asset_for(assets: Seq<PreparedStationAssetSnapshot>, binding_id: Seq<char>) -> Option<int>
    decreases assets.len(),
{
    if assets.len() == 0 {
        None
    } else if assets.last().binding_id@ == binding_id {
        Some(assets.len() - 1)
    } else {
        last_asset_for(assets.drop_last(), binding_id)
    }
}

/// `Le matériel INV / SERIAL (MODEL)`.
pub open spec fn material_label(a: PreparedStationAssetSnapshot) -> Seq<char> {
    "Le matériel "@ + a.inventory_code@ + " / "@ + a.serial_number@ + " ("@ + a.model_name@ + ")"@
}

/// The model of the material declares the capability, by identifier or by kind.
pub open spec fn declares_capability(
    caps: Seq<PreparedEquipmentCapabilitySnapshot>,
    required: Seq<char>,
) -> bool {
    exists|j: int|
        0 <= j < caps.len() && (equal_ignoring_ascii_case(
            trim_seq((#[trigger] caps[j]).capability_id@),
            trim_seq(required),
        ) || equal_ignoring_ascii_case(trim_seq(caps[j].capability_kind@), trim_seq(required)))
}

pub open spec fn role_mismatch(
    code: &str,
    message: Seq<char>,
    next_action: &str,
    slot: InstrumentationChainSlot,
    a: PreparedStationAssetSnapshot,
) -> PrepIssueView {
    prep_issue(
        code,
        PlannedTestPreparationSeverity::Blocking,
        PlannedTestPreparationDimension::InstrumentAssignment,
        message,
        next_action,
        Some(slot.slot_id@),
        Some(a.binding_id@),
        Some(a.asset_id@),
    )
}

/// What a role of the method says: unassigned though required, or assigned a material
/// of another category or without the required capability.
pub open spec fn role_issues(
    slot: InstrumentationChainSlot,
    assignments: Seq<PlannedTestInstrumentAssignment>,
    assets: Seq<PreparedStationAssetSnapshot>,
) -> Seq<PrepIssueView> {
    match last_assignment_for(assignments, slot.slot_id@) {
        None => when_issue(
            slot.required,
            prep_issue(
                "planned_test_required_role_unassigned",
                PlannedTestPreparationSeverity::Blocking,
                PlannedTestPreparationDimension::InstrumentAssignment,
                "Le rôle « "@ + slot.label@ + " » n'a pas de matériel affecté."@,
                "Choisissez un matériel du montage pour ce rôle.",
                Some(slot.slot_id@),
                None,
                None,
            ),
        ),
        Some(k) => match last_asset_for(assets, assignments[k].binding_id@) {
            None => seq![],
            Some(m) => {
                let a = assets[m];
                (match slot.required_category {
                    Some(c) => when_issue(
                        !equal_ignoring_ascii_case(trim_seq(a.category_code@), trim_seq(c@)),
                        role_mismatch(
                            "planned_test_role_category_mismatch",
                            material_label(a)
                                + " ne correspond pas à la catégorie demandée pour « "@
                                + slot.label@ + " »."@,
                            "Choisissez un matériel de la catégorie attendue.",
                            slot,
                            a,
                        ),
                    ),
                    None => seq![],
                }) + (match slot.required_capability {
                    Some(c) => when_issue(
                        !declares_capability(a.capabilities@, c@),
                        role_mismatch(
                            "planned_test_role_capability_mismatch",
                            material_label(a)
                                + " ne fournit pas la capacité demandée pour « "@
                                + slot.label@ + " »."@,
                            "Choisissez un matériel dont le modèle déclare cette capacité.",
                            slot,
                            a,
                        ),
                    ),
                    None => seq![],
                })
            },
        },
    }
}

pub open spec fn all_role_issues(
    chain: Seq<InstrumentationChainSlot>,
    assignments: Seq<PlannedTestInstrumentAssignment>,
    assets: Seq<PreparedStationAssetSnapshot>,
    n: int,
) -> Seq<PrepIssueView>
    decreases n,
{
    if n <= 0 {
        seq![]
    } else {
        all_role_issues(chain, assignments, assets, n - 1) + role_issues(
            chain[n - 1],
            assignments,
            assets,
        )
    }
}

/// The readiness issues that follow from the frozen parts alone, in order: method and
/// station revisions, schedule context, then each role of the method.
pub open spec fn static_issues(
    schedule: PlannedTestScheduleSnapshot,
    method: PreparedTestMethodSnapshot,
    station: PreparedStationSetupSnapshot,
    assignments: Seq<PlannedTestInstrumentAssignment>,
) -> Seq<PrepIssueView> {
    context_issues(schedule, method, station) + all_role_issues(
        method.instrumentation_chain@,
        assignments,
        station.assets@,
        method.instrumentation_chain@.len() as int,
    )
}

fn optional_texts(v: Option<&String>) -> (r: Vec<String>)
    ensures
        texts_view(r@) == optional_list(
            match v {
                Some(x) => Some(x@),
                None => None,
            },
        ),
{
    let mut r: Vec<String> = Vec::new();
    match v {
        Some(x) => {
            r.push(x.clone());
        },
        None => {},
    }
    assert(texts_view(r@) =~= optional_list(
        match v {
            Some(x) => Some(x@),
            None => None,
        },
    ));
    r
}

fn readiness_issue(
    code: &str,
    severity: PlannedTestPreparationSeverity,
    dimension: PlannedTestPreparationDimension,
    message: String,
    next_action: &str,
    slot_id: Option<&String>,
    binding_id: Option<&String>,
    asset_id: Option<&String>,
) -> (r: PlannedTestPreparationIssue)
    ensures
        r@ == prep_issue(
            code,
            severity,
            dimension,
            message@,
            next_action,
            match slot_id {
                Some(x) => Some(x@),
                None => None,
            },
            match binding_id {
                Some(x) => Some(x@),
                None => None,
            },
            match asset_id {
                Some(x) => Some(x@),
                None => None,
            },
        ),
{
    PlannedTestPreparationIssue {
        code: code.to_owned(),
        severity,
        dimension,
        message,
        next_action: next_action.to_owned(),
        method_slot_ids: optional_texts(slot_id),
        binding_ids: optional_texts(binding_id),
        asset_ids: optional_texts(asset_id),
    }
}

fn push_prep_if(
    issues: &mut Vec<PlannedTestPreparationIssue>,
    cond: bool,
    code: &str,
    severity: PlannedTestPreparationSeverity,
    dimension: PlannedTestPreparationDimension,
    message: &str,
    next_action: &str,
)
    ensures
        prep_issues_view(final(issues)@) == prep_issues_view(old(issues)@) + when_issue(
            cond,
            prep_issue(code, severity, dimension, message@, next_action, None, None, None),
        ),
{
    let ghost before = prep_issues_view(issues@);
    if cond {
        issues.push(
            readiness_issue(
                code,
                severity,
                dimension,
                message.to_owned(),
                next_action,
                None,
                None,
                None,
            ),
        );
    }
    assert(prep_issues_view(issues@) =~= before + when_issue(
        cond,
        prep_issue(code, severity, dimension, message@, next_action, None, None, None),
    ));
}

#[verifier::rlimit(80)]
#[verifier::spinoff_prover]
fn push_context_issues(
    issues: &mut Vec<PlannedTestPreparationIssue>,
    schedule: &PlannedTestScheduleSnapshot,
    method: &PreparedTestMethodSnapshot,
    station: &PreparedStationSetupSnapshot,
)
    ensures
        prep_issues_view(final(issues)@) == prep_issues_view(old(issues)@) + context_issues(
            *schedule,
            *method,
            *station,
        ),
{
    let ghost before = prep_issues_view(issues@);
    let approved = method.revision_status == TemplateRevisionStatus::Approved
        || method.revision_status == TemplateRevisionStatus::Superseded;
    push_prep_if(
        issues,
        !approved,
        "planned_test_method_not_approved",
        PlannedTestPreparationSeverity::Blocking,
        PlannedTestPreparationDimension::TestMethod,
        "La révision de méthode n'est pas approuvée pour cet essai.",
        "Choisissez une révision de méthode approuvée.",
    );
    push_prep_if(
        issues,
        method.revision_status == TemplateRevisionStatus::Superseded,
        "planned_test_method_superseded",
        PlannedTestPreparationSeverity::Warning,
        PlannedTestPreparationDimension::TestMethod,
        "Une révision plus récente de la méthode existe, mais la révision figée reste identifiable.",
        "Confirmez que la révision figée reste applicable au dossier.",
    );
    let station_ready = station.revision_status == StationSetupRevisionStatus::Ready
        || station.revision_status == StationSetupRevisionStatus::Superseded;
    push_prep_if(
        issues,
        !station_ready,
        "planned_test_station_not_ready",
        PlannedTestPreparationSeverity::Blocking,
        PlannedTestPreparationDimension::StationSetup,
        "Le montage choisi n'est pas prêt à câbler.",
        "Choisissez un montage prêt ou terminez sa préparation dans Test Station.",
    );
    push_prep_if(
        issues,
        station.revision_status == StationSetupRevisionStatus::Superseded,
        "planned_test_station_superseded",
        PlannedTestPreparationSeverity::Warning,
        PlannedTestPreparationDimension::StationSetup,
        "Une version plus récente du montage existe, mais la version figée reste identifiable.",
        "Confirmez que le montage figé reste celui qui sera câblé.",
    );
    let date = schedule.planned_date();
    push_prep_if(
        issues,
        !bytes_eq(station.planned_use_on.as_str().as_bytes(), date.as_bytes()),
        "planned_test_station_date_mismatch",
        PlannedTestPreparationSeverity::Blocking,
        PlannedTestPreparationDimension::ScheduleContext,
        "Le montage n'a pas été vérifié pour la date de ce créneau.",
        "Préparez ou revérifiez le montage pour la date planifiée.",
    );
    push_prep_if(
        issues,
        !(station.execution_mode == schedule.execution_mode),
        "planned_test_station_mode_mismatch",
        PlannedTestPreparationSeverity::Blocking,
        PlannedTestPreparationDimension::ScheduleContext,
        "Le mode qualité du montage ne correspond pas au dossier.",
        "Choisissez un montage préparé pour le même mode qualité.",
    );
    let ghost middle = prep_issues_view(issues@);
    match (&schedule.laboratory_location_id, &station.laboratory_location_id) {
        (Some(a), Some(b)) => {
            push_prep_if(
                issues,
                !(*a == *b),
                "planned_test_station_location_mismatch",
                PlannedTestPreparationSeverity::Blocking,
                PlannedTestPreparationDimension::ScheduleContext,
                "Le montage n'est pas rattaché au lieu réservé dans le planning.",
                "Déplacez le créneau vers ce lieu ou choisissez un montage du lieu réservé.",
            );
        },
        _ => {
            push_prep_if(
                issues,
                true,
                "planned_test_location_identity_missing",
                PlannedTestPreparationSeverity::Blocking,
                PlannedTestPreparationDimension::ScheduleContext,
                "Le lieu du créneau ou du montage n'a pas d'identifiant stable.",
                "Sélectionnez à nouveau un lieu identifié et un montage rattaché à ce lieu.",
            );
        },
    }
    assert(prep_issues_view(issues@) =~= middle + location_issues(
        schedule.laboratory_location_id,
        station.laboratory_location_id,
    ));
    assert(prep_issues_view(issues@) =~= before + context_issues(*schedule, *method, *station));
}

fn last_assignment_index(assignments: &Vec<PlannedTestInstrumentAssignment>, slot_id: &String) -> (r:
    Option<usize>)
    ensures
        match r {
            Some(k) => last_assignment_for(assignments@, slot_id@) == Some(k as int),
            None => last_assignment_for(assignments@, slot_id@) is None,
        },
{
    let mut k: usize = assignments.len();
    assert(assignments@.take(k as int) =~= assignments@);
    while k > 0
        invariant
            k <= assignments@.len(),
            last_assignment_for(assignments@, slot_id@) == last_assignment_for(
                assignments@.take(k as int),
                slot_id@,
            ),
        decreases k,
    {
        let ghost prefix = assignments@.take(k as int);
        assert(prefix.drop_last() =~= assignments@.take(k - 1));
        if assignments[k - 1].slot_id == *slot_id {
            return Some(k - 1);
        }
        k = k - 1;
    }
    None
}

fn last_asset_index(assets: &Vec<PreparedStationAssetSnapshot>, binding_id: &String) -> (r: Option<
    usize,
>)
    ensures
        match r {
            Some(k) => last_asset_for(assets@, binding_id@) == Some(k as int),
            None => last_asset_for(assets@, binding_id@) is None,
        },
{
    let mut k: usize = assets.len();
    assert(assets@.take(k as int) =~= assets@);
    while k > 0
        invariant
            k <= assets@.len(),
            last_asset_for(assets@, binding_id@) == last_asset_for(
                assets@.take(k as int),
                binding_id@,
            ),
        decreases k,
    {
        let ghost prefix = assets@.take(k as int);
        assert(prefix.drop_last() =~= assets@.take(k - 1));
        if assets[k - 1].binding_id == *binding_id {
            return Some(k - 1);
        }
        k = k - 1;
    }
    None
}

pub proof fn lemma_last_assignment_bounds(
    assignments: Seq<PlannedTestInstrumentAssignment>,
    slot_id: Seq<char>,
)
    ensures
        last_assignment_for(assignments, slot_id) matches Some(k) ==> 0 <= k < assignments.len()
            && assignments[k].slot_id@ == slot_id,
    decreases assignments.len(),
{
    if assignments.len() > 0 {
        lemma_last_assignment_bounds(assignments.drop_last(), slot_id);
    }
}

pub proof fn lemma_last_asset_bounds(assets: Seq<PreparedStationAssetSnapshot>, binding_id: Seq<char>)
    ensures
        last_asset_for(assets, binding_id) matches Some(k) ==> 0 <= k < assets.len()
            && assets[k].binding_id@ == binding_id,
    decreases assets.len(),
{
    if assets.len() > 0 {
        lemma_last_asset_bounds(assets.drop_last(), binding_id);
    }
}

fn material_label_text(a: &PreparedStationAssetSnapshot) -> (r: String)
    ensures
        r@ == material_label(*a),
{
    let mut s = concat("Le matériel ", a.inventory_code.as_str());
    push_str(&mut s, " / ");
    push_str(&mut s, a.serial_number.as_str());
    push_str(&mut s, " (");
    push_str(&mut s, a.model_name.as_str());
    push_str(&mut s, ")");
    s
}

fn has_capability(caps: &Vec<PreparedEquipmentCapabilitySnapshot>, required: &String) -> (b: bool)
    ensures
        b == declares_capability(caps@, required@),
{
    let req = trim(required.as_str());
    let mut k: usize = 0;
    while k < caps.len()
        invariant
            k <= caps@.len(),
            req@ == trim_seq(required@),
            forall|j: int|
                0 <= j < k ==> !(equal_ignoring_ascii_case(
                    trim_seq((#[trigger] caps@[j]).capability_id@),
                    trim_seq(required@),
                ) || equal_ignoring_ascii_case(
                    trim_seq(caps@[j].capability_kind@),
                    trim_seq(required@),
                )),
        decreases caps@.len() - k,
    {
        let id = trim(caps[k].capability_id.as_str());
        let kind = trim(caps[k].capability_kind.as_str());
        if eq_ignore_case(id.as_str(), req.as_str()) || eq_ignore_case(
            kind.as_str(),
            req.as_str(),
        ) {
            return true;
        }
        k = k + 1;
    }
    false
}

fn push_role_issues(
    issues: &mut Vec<PlannedTestPreparationIssue>,
    slot: &InstrumentationChainSlot,
    assignments: &Vec<PlannedTestInstrumentAssignment>,
    assets: &Vec<PreparedStationAssetSnapshot>,
)
    ensures
        prep_issues_view(final(issues)@) == prep_issues_view(old(issues)@) + role_issues(
            *slot,
            assignments@,
            assets@,
        ),
{
    let ghost before = prep_issues_view(issues@);
    proof {
        lemma_last_assignment_bounds(assignments@, slot.slot_id@);
    }
    let k = match last_assignment_index(assignments, &slot.slot_id) {
        None => {
            if slot.required {
                let mut message = concat("Le rôle « ", slot.label.as_str());
                push_str(&mut message, " » n'a pas de matériel affecté.");
                let issue = readiness_issue(
                        "planned_test_required_role_unassigned",
                        PlannedTestPreparationSeverity::Blocking,
                        PlannedTestPreparationDimension::InstrumentAssignment,
                        message,
                        "Choisissez un matériel du montage pour ce rôle.",
                        Some(&slot.slot_id),
                        None,
                        None,
                    );
                assert(issue@ == prep_issue(
                "planned_test_required_role_unassigned",
                PlannedTestPreparationSeverity::Blocking,
                PlannedTestPreparationDimension::InstrumentAssignment,
                "Le rôle « "@ + slot.label@ + " » n'a pas de matériel affecté."@,
                "Choisissez un matériel du montage pour ce rôle.",
                Some(slot.slot_id@),
                None,
                None,
            ));
                let ghost iv = issue@;
                issues.push(issue);
                assert(prep_issues_view(issues@) =~= before.push(iv));
            }
            assert(last_assignment_for(assignments@, slot.slot_id@) is None);
            assert(role_issues(*slot, assignments@, assets@) == when_issue(
                slot.required,
                prep_issue(
                    "planned_test_required_role_unassigned",
                    PlannedTestPreparationSeverity::Blocking,
                    PlannedTestPreparationDimension::InstrumentAssignment,
                    "Le rôle « "@ + slot.label@ + " » n'a pas de matériel affecté."@,
                    "Choisissez un matériel du montage pour ce rôle.",
                    Some(slot.slot_id@),
                    None,
                    None,
                ),
            ));
            assert(prep_issues_view(issues@) =~= before + role_issues(
                *slot,
                assignments@,
                assets@,
            ));
            return;
        },
        Some(k) => k,
    };
    proof {
        lemma_last_asset_bounds(assets@, assignments@[k as int].binding_id@);
    }
    assert(last_assignment_for(assignments@, slot.slot_id@) == Some(k as int));
    let m = match last_asset_index(assets, &assignments[k].binding_id) {
        None => {
            assert(last_asset_for(assets@, assignments@[k as int].binding_id@) is None);
            assert(role_issues(*slot, assignments@, assets@) =~= Seq::<PrepIssueView>::empty());
            assert(prep_issues_view(issues@) =~= before + role_issues(
                *slot,
                assignments@,
                assets@,
            ));
            return;
        },
        Some(m) => m,
    };
    let a = &assets[m];
    match &slot.required_category {
        Some(c) => {
            let category = trim(a.category_code.as_str());
            let wanted = trim(c.as_str());
            if !eq_ignore_case(category.as_str(), wanted.as_str()) {
                let mut message = material_label_text(a);
                push_str(&mut message, " ne correspond pas à la catégorie demandée pour « ");
                push_str(&mut message, slot.label.as_str());
                push_str(&mut message, " ».");
                issues.push(
                    readiness_issue(
                        "planned_test_role_category_mismatch",
                        PlannedTestPreparationSeverity::Blocking,
                        PlannedTestPreparationDimension::InstrumentAssignment,
                        message,
                        "Choisissez un matériel de la catégorie attendue.",
                        Some(&slot.slot_id),
                        Some(&a.binding_id),
                        Some(&a.asset_id),
                    ),
                );
            }
        },
        None => {},
    }
    let ghost middle = prep_issues_view(issues@);
    match &slot.required_capability {
        Some(c) => {
            if !has_capability(&a.capabilities, c) {
                let mut message = material_label_text(a);
                push_str(&mut message, " ne fournit pas la capacité demandée pour « ");
                push_str(&mut message, slot.label.as_str());
                push_str(&mut message, " ».");
                issues.push(
                    readiness_issue(
                        "planned_test_role_capability_mismatch",
                        PlannedTestPreparationSeverity::Blocking,
                        PlannedTestPreparationDimension::InstrumentAssignment,
                        message,
                        "Choisissez un matériel dont le modèle déclare cette capacité.",
                        Some(&slot.slot_id),
                        Some(&a.binding_id),
                        Some(&a.asset_id),
                    ),
                );
            }
        },
        None => {},
    }
    assert(prep_issues_view(issues@) =~= before + role_issues(*slot, assignments@, assets@));
}

/// The readiness issues that follow from the frozen parts (see `static_issues`).
fn derive_static_readiness_issues(
    schedule: &PlannedTestScheduleSnapshot,
    method: &PreparedTestMethodSnapshot,
    station: &PreparedStationSetupSnapshot,
    assignments: &Vec<PlannedTestInstrumentAssignment>,
) -> (r: Vec<PlannedTestPreparationIssue>)
    ensures
        prep_issues_view(r@) == static_issues(*schedule, *method, *station, assignments@),
{
    let mut issues: Vec<PlannedTestPreparationIssue> = Vec::new();
    assert(prep_issues_view(issues@) =~= Seq::<PrepIssueView>::empty());
    push_context_issues(&mut issues, schedule, method, station);
    let ghost middle = prep_issues_view(issues@);
    let chain = &method.instrumentation_chain;
    let mut i: usize = 0;
    while i < chain.len()
        invariant
            i <= chain@.len(),
            chain@ == method.instrumentation_chain@,
            prep_issues_view(issues@) == middle + all_role_issues(
                chain@,
                assignments@,
                station.assets@,
                i as int,
            ),
        decreases chain@.len() - i,
    {
        push_role_issues(&mut issues, &chain[i], assignments, &station.assets);
        assert(prep_issues_view(issues@) =~= middle + all_role_issues(
            chain@,
            assignments@,
            station.assets@,
            i + 1,
        ));
        i = i + 1;
    }
    assert(prep_issues_view(issues@) =~= static_issues(
        *schedule,
        *method,
        *station,
        assignments@,
    ));
    issues
}

// ---------------------------------------------------------------------------
// Station readiness issues carried into the preparation
// ---------------------------------------------------------------------------

/// The preparation dimension of a station readiness dimension.
pub open spec fn preparation_dimension_of(d: StationReadinessDimension) -> PlannedTestPreparationDimension {
    match d {
        StationReadinessDimension::Structure
        | StationReadinessDimension::AssetIdentity
        | StationReadinessDimension::PortCompatibility => PlannedTestPreparationDimension::StationSetup,
        StationReadinessDimension::Serviceability => PlannedTestPreparationDimension::Serviceability,
        StationReadinessDimension::CalibrationValidity => PlannedTestPreparationDimension::CalibrationValidity,
        StationReadinessDimension::MissingEvidence => PlannedTestPreparationDimension::MissingEvidence,
        StationReadinessDimension::Nonconformance => PlannedTestPreparationDimension::Nonconformance,
        StationReadinessDimension::CorrectionValidity => PlannedTestPreparationDimension::CorrectionValidity,
    }
}

fn preparation_dimension(d: StationReadinessDimension) -> (r: PlannedTestPreparationDimension)
    ensures
        r == preparation_dimension_of(d),
{
    match d {
        StationReadinessDimension::Structure
        | StationReadinessDimension::AssetIdentity
        | StationReadinessDimension::PortCompatibility => PlannedTestPreparationDimension::StationSetup,
        StationReadinessDimension::Serviceability => PlannedTestPreparationDimension::Serviceability,
        StationReadinessDimension::CalibrationValidity => PlannedTestPreparationDimension::CalibrationValidity,
        StationReadinessDimension::MissingEvidence => PlannedTestPreparationDimension::MissingEvidence,
        StationReadinessDimension::Nonconformance => PlannedTestPreparationDimension::Nonconformance,
        StationReadinessDimension::CorrectionValidity => PlannedTestPreparationDimension::CorrectionValidity,
    }
}

/// What to do about a station issue of the dimension.
pub open spec fn station_next_action(d: StationReadinessDimension) -> Seq<char> {
    match d {
        StationReadinessDimension::Structure
        | StationReadinessDimension::AssetIdentity
        | StationReadinessDimension::PortCompatibility => "Corrigez le montage dans Test Station puis créez une nouvelle vérification."@,
        StationReadinessDimension::Serviceability => "Choisissez un matériel utilisable ou faites mettre à jour son état."@,
        StationReadinessDimension::CalibrationValidity => "Faites vérifier l'étalonnage ou choisissez un autre matériel."@,
        StationReadinessDimension::MissingEvidence => "Ajoutez la preuve requise dans le dossier du matériel."@,
        StationReadinessDimension::Nonconformance => "Traitez la non-conformité avant d'utiliser ce matériel."@,
        StationReadinessDimension::CorrectionValidity => "Choisissez une correction du matériel applicable à la date prévue."@,
    }
}

fn station_issue_next_action(d: StationReadinessDimension) -> (r: &'static str)
    ensures
        r@ == station_next_action(d),
{
    match d {
        StationReadinessDimension::Structure
        | StationReadinessDimension::AssetIdentity
        | StationReadinessDimension::PortCompatibility => "Corrigez le montage dans Test Station puis créez une nouvelle vérification.",
        StationReadinessDimension::Serviceability => "Choisissez un matériel utilisable ou faites mettre à jour son état.",
        StationReadinessDimension::CalibrationValidity => "Faites vérifier l'étalonnage ou choisissez un autre matériel.",
        StationReadinessDimension::MissingEvidence => "Ajoutez la preuve requise dans le dossier du matériel.",
        StationReadinessDimension::Nonconformance => "Traitez la non-conformité avant d'utiliser ce matériel.",
        StationReadinessDimension::CorrectionValidity => "Choisissez une correction du matériel applicable à la date prévue.",
    }
}

/// The materials under the bindings, in the order of the bindings; a binding that the
/// station does not hold gives nothing, and a binding held twice gives its last material.
pub open spec fn asset_ids_for(
    assets: Seq<PreparedStationAssetSnapshot>,
    binding_ids: Seq<Seq<char>>,
) -> Seq<Seq<char>>
    decreases binding_ids.len(),
{
    if binding_ids.len() == 0 {
        seq![]
    } else {
        let prev = asset_ids_for(assets, binding_ids.drop_last());
        match last_asset_for(assets, binding_ids.last()) {
            Some(m) => prev.push(assets[m].asset_id@),
            None => prev,
        }
    }
}

fn asset_ids_for_bindings(station: &PreparedStationSetupSnapshot, binding_ids: &Vec<String>) -> (r:
    Vec<String>)
    ensures
        texts_view(r@) == asset_ids_for(station.assets@, texts_view(binding_ids@)),
{
    let ghost ids = texts_view(binding_ids@);
    let mut r: Vec<String> = Vec::new();
    let mut i: usize = 0;
    assert(ids.take(0) =~= Seq::<Seq<char>>::empty());
    assert(texts_view(r@) =~= Seq::<Seq<char>>::empty());
    while i < binding_ids.len()
        invariant
            i <= binding_ids@.len(),
            ids == texts_view(binding_ids@),
            texts_view(r@) == asset_ids_for(station.assets@, ids.take(i as int)),
        decreases binding_ids@.len() - i,
    {
        assert(ids.take(i + 1).drop_last() =~= ids.take(i as int));
        assert(ids.take(i + 1).last() == binding_ids@[i as int]@);
        proof {
            lemma_last_asset_bounds(station.assets@, binding_ids@[i as int]@);
        }
        match last_asset_index(&station.assets, &binding_ids[i]) {
            Some(m) => {
                let ghost before = texts_view(r@);
                r.push(station.assets[m].asset_id.clone());
                assert(texts_view(r@) =~= before.push(station.assets@[m as int].asset_id@));
            },
            None => {},
        }
        i = i + 1;
    }
    assert(ids.take(i as int) =~= ids);
    r
}

/// A station readiness issue as a preparation issue, with the materials of its bindings.
pub open spec fn station_issue_view(
    issue: StationReadinessIssue,
    assets: Seq<PreparedStationAssetSnapshot>,
) -> PrepIssueView {
    PrepIssueView {
        code: issue.code@,
        severity: match issue.severity {
            StationReadinessSeverity::Blocking => PlannedTestPreparationSeverity::Blocking,
            StationReadinessSeverity::Warning => PlannedTestPreparationSeverity::Warning,
        },
        dimension: preparation_dimension_of(issue.dimension),
        message: issue.message@,
        next_action: station_next_action(issue.dimension),
        method_slot_ids: seq![],
        binding_ids: texts_view(issue.binding_ids@),
        asset_ids: asset_ids_for(assets, texts_view(issue.binding_ids@)),
    }
}

fn station_issue(issue: &StationReadinessIssue, station: &PreparedStationSetupSnapshot) -> (r:
    PlannedTestPreparationIssue)
    ensures
        r@ == station_issue_view(*issue, station.assets@),
{
    let slots: Vec<String> = Vec::new();
    assert(texts_view(slots@) =~= Seq::<Seq<char>>::empty());
    PlannedTestPreparationIssue {
        code: issue.code.clone(),
        severity: match issue.severity {
            StationReadinessSeverity::Blocking => PlannedTestPreparationSeverity::Blocking,
            StationReadinessSeverity::Warning => PlannedTestPreparationSeverity::Warning,
        },
        dimension: preparation_dimension(issue.dimension),
        message: issue.message.clone(),
        next_action: station_issue_next_action(issue.dimension).to_owned(),
        method_slot_ids: slots,
        binding_ids: copy_texts(&issue.binding_ids),
        asset_ids: asset_ids_for_bindings(station, &issue.binding_ids),
    }
}

// ---------------------------------------------------------------------------
// Order of the readiness issues
// ---------------------------------------------------------------------------

/// Issues sort by severity, dimension, code, then their role, binding and material lists.
pub open spec fn issue_before(a: PrepIssueView, b: PrepIssueView) -> bool {
    if a.severity != b.severity {
        severity_rank(a.severity) < severity_rank(b.severity)
    } else if a.dimension != b.dimension {
        dimension_rank(a.dimension) < dimension_rank(b.dimension)
    } else if a.code != b.code {
        text_lt(a.code, b.code)
    } else if a.method_slot_ids != b.method_slot_ids {
        texts_lt(a.method_slot_ids, b.method_slot_ids)
    } else if a.binding_ids != b.binding_ids {
        texts_lt(a.binding_ids, b.binding_ids)
    } else {
        texts_lt(a.asset_ids, b.asset_ids)
    }
}

/// The order of readiness issues is transitive.
proof fn lemma_issue_before_transitive(a: PrepIssueView, b: PrepIssueView, c: PrepIssueView)
    requires
        issue_before(a, b),
        issue_before(b, c),
    ensures
        issue_before(a, c),
{
    lemma_text_lt_irreflexive(a.code);
    lemma_texts_lt_irreflexive(a.method_slot_ids);
    lemma_texts_lt_irreflexive(a.binding_ids);
    if text_lt(a.code, b.code) && text_lt(b.code, c.code) {
        lemma_text_lt_transitive(a.code, b.code, c.code);
    }
    if texts_lt(a.method_slot_ids, b.method_slot_ids) && texts_lt(b.method_slot_ids, c.method_slot_ids) {
        lemma_texts_lt_transitive(a.method_slot_ids, b.method_slot_ids, c.method_slot_ids);
    }
    if texts_lt(a.binding_ids, b.binding_ids) && texts_lt(b.binding_ids, c.binding_ids) {
        lemma_texts_lt_transitive(a.binding_ids, b.binding_ids, c.binding_ids);
    }
    if texts_lt(a.asset_ids, b.asset_ids) && texts_lt(b.asset_ids, c.asset_ids) {
        lemma_texts_lt_transitive(a.asset_ids, b.asset_ids, c.asset_ids);
    }
}

impl SortKey for PlannedTestPreparationIssue {
    open spec fn key_before(a: PrepIssueView, b: PrepIssueView) -> bool {
        issue_before(a, b)
    }

    proof fn lemma_key_before_irreflexive(a: PrepIssueView) {
        lemma_texts_lt_irreflexive(a.asset_ids);
    }

    proof fn lemma_key_before_transitive(a: PrepIssueView, b: PrepIssueView, c: PrepIssueView) {
        lemma_issue_before_transitive(a, b, c);
    }

    fn precedes(&self, other: &Self) -> (b: bool) {
        if self.severity != other.severity {
            severity_number(self.severity) < severity_number(other.severity)
        } else if self.dimension != other.dimension {
            dimension_number(self.dimension) < dimension_number(other.dimension)
        } else if !str_eq(self.code.as_str(), other.code.as_str()) {
            str_lt(self.code.as_str(), other.code.as_str())
        } else if !texts_equal(&self.method_slot_ids, &other.method_slot_ids) {
            texts_before(&self.method_slot_ids, &other.method_slot_ids)
        } else if !texts_equal(&self.binding_ids, &other.binding_ids) {
            texts_before(&self.binding_ids, &other.binding_ids)
        } else {
            texts_before(&self.asset_ids, &other.asset_ids)
        }
    }
}

/// The issue with its role, binding and material lists sorted and without repeats.
pub open spec fn with_sorted_lists(i: PrepIssueView) -> PrepIssueView {
    PrepIssueView {
        method_slot_ids: sorted_distinct(i.method_slot_ids),
        binding_ids: sorted_distinct(i.binding_ids),
        asset_ids: sorted_distinct(i.asset_ids),
        ..i
    }
}

/// The issues with sorted lists, in stable order of `issue_before`.
pub open spec fn sorted_issues(s: Seq<PrepIssueView>) -> Seq<PrepIssueView> {
    stable_sorted::<PlannedTestPreparationIssue>(s.map_values(|i: PrepIssueView| with_sorted_lists(i)))
}

fn sort_readiness_issues(issues: Vec<PlannedTestPreparationIssue>) -> (r: Vec<
    PlannedTestPreparationIssue,
>)
    ensures
        prep_issues_view(r@) == sorted_issues(prep_issues_view(issues@)),
{
    let ghost orig = prep_issues_view(issues@);
    let ghost target = orig.map_values(|i: PrepIssueView| with_sorted_lists(i));
    let _n = issues.len();
    let mut rest = issues;
    let mut normalized: Vec<PlannedTestPreparationIssue> = Vec::new();
    let mut i: usize = 0;
    assert(prep_issues_view(rest@) =~= orig.skip(0));
    assert(prep_issues_view(normalized@) =~= target.take(0));
    while rest.len() > 0
        invariant
            i <= orig.len(),
            orig.len() <= usize::MAX,
            target == orig.map_values(|i: PrepIssueView| with_sorted_lists(i)),
            rest@.len() == orig.len() - i,
            prep_issues_view(rest@) == orig.skip(i as int),
            prep_issues_view(normalized@) == target.take(i as int),
        decreases rest@.len(),
    {
        let ghost before_rest = rest@;
        let issue = rest.remove(0);
        assert(issue@ == prep_issues_view(before_rest)[0]);
        assert(prep_issues_view(rest@) =~= prep_issues_view(before_rest).skip(1));
        assert(prep_issues_view(rest@) =~= orig.skip(i + 1));
        let PlannedTestPreparationIssue {
            code,
            severity,
            dimension,
            message,
            next_action,
            method_slot_ids,
            binding_ids,
            asset_ids,
        } = issue;
        let sorted = PlannedTestPreparationIssue {
            code,
            severity,
            dimension,
            message,
            next_action,
            method_slot_ids: sort_distinct(method_slot_ids),
            binding_ids: sort_distinct(binding_ids),
            asset_ids: sort_distinct(asset_ids),
        };
        let ghost before = prep_issues_view(normalized@);
        normalized.push(sorted);
        assert(prep_issues_view(normalized@) =~= before.push(sorted@));
        assert(target.take(i + 1) =~= target.take(i as int).push(target[i as int]));
        i = i + 1;
    }
    assert(target.take(i as int) =~= target);
    sort_stable(normalized)
}

// ---------------------------------------------------------------------------
// Integrity of a stored preparation
// ---------------------------------------------------------------------------

/// The same texts, each as often, whatever the order.
pub open spec fn same_values(a: Seq<Seq<char>>, b: Seq<Seq<char>>) -> bool {
    a.to_multiset() == b.to_multiset()
}

/// A stored issue accounts for a derived one: same code, severity and dimension, and the
/// same roles, bindings and materials.
pub open spec fn covers(stored: PrepIssueView, expected: PrepIssueView) -> bool {
    &&& stored.code == expected.code
    &&& stored.severity == expected.severity
    &&& stored.dimension == expected.dimension
    &&& same_values(stored.method_slot_ids, expected.method_slot_ids)
    &&& same_values(stored.binding_ids, expected.binding_ids)
    &&& same_values(stored.asset_ids, expected.asset_ids)
}

pub open spec fn covered(stored: Seq<PrepIssueView>, expected: PrepIssueView) -> bool {
    exists|j: int| 0 <= j < stored.len() && covers(#[trigger] stored[j], expected)
}

/// One finding for each derived issue that no stored issue accounts for.
pub open spec fn coverage_issues(expected: Seq<PrepIssueView>, stored: Seq<PrepIssueView>) -> Seq<
    ValidationIssueView,
>
    decreases expected.len(),
{
    if expected.len() == 0 {
        seq![]
    } else {
        coverage_issues(expected.drop_last(), stored) + when(
            !covered(stored, expected.last()),
            vissue(
                "planned_test_preparation_static_verdict_incomplete",
                "verdict.issues"@,
                "the stored preparation verdict omits a derived blocking or warning issue",
            ),
        )
    }
}

pub open spec fn verdict_path(i: int, suffix: Seq<char>) -> Seq<char> {
    element_path("verdict.issues"@, i, suffix)
}

/// One finding for each of the first `n` roles of the issue at `i` that the method lacks.
pub open spec fn unknown_slot_issues(
    ids: Seq<Seq<char>>,
    chain: Seq<InstrumentationChainSlot>,
    i: int,
    n: int,
) -> Seq<ValidationIssueView>
    decreases n,
{
    if n <= 0 {
        seq![]
    } else {
        unknown_slot_issues(ids, chain, i, n - 1) + when(
            !chain_has_slot(chain, ids[n - 1]),
            vissue(
                "planned_test_preparation_issue_unknown_slot",
                verdict_path(i, ".method_slot_ids"@),
                "a verdict issue references an unknown method role",
            ),
        )
    }
}

/// One finding for each of the first `n` bindings of the issue at `i` that the station lacks.
pub open spec fn unknown_binding_issues(
    ids: Seq<Seq<char>>,
    assets: Seq<PreparedStationAssetSnapshot>,
    i: int,
    n: int,
) -> Seq<ValidationIssueView>
    decreases n,
{
    if n <= 0 {
        seq![]
    } else {
        unknown_binding_issues(ids, assets, i, n - 1) + when(
            !station_has_binding(assets, ids[n - 1]),
            vissue(
                "planned_test_preparation_issue_unknown_binding",
                verdict_path(i, ".binding_ids"@),
                "a verdict issue references an unknown station material",
            ),
        )
    }
}

/// The checks of the stored issue at `i`.
pub open spec fn verdict_issue_checks(
    issue: PrepIssueView,
    i: int,
    chain: Seq<InstrumentationChainSlot>,
    assets: Seq<PreparedStationAssetSnapshot>,
) -> Seq<ValidationIssueView> {
    text_issues(issue.code, verdict_path(i, ".code"@)) + text_issues(
        issue.message,
        verdict_path(i, ".message"@),
    ) + text_issues(issue.next_action, verdict_path(i, ".next_action"@)) + unknown_slot_issues(
        issue.method_slot_ids,
        chain,
        i,
        issue.method_slot_ids.len() as int,
    ) + unknown_binding_issues(issue.binding_ids, assets, i, issue.binding_ids.len() as int)
}

/// The checks of the first `n` stored issues, in order.
pub open spec fn verdict_checks(
    issues: Seq<PrepIssueView>,
    chain: Seq<InstrumentationChainSlot>,
    assets: Seq<PreparedStationAssetSnapshot>,
    n: int,
) -> Seq<ValidationIssueView>
    decreases n,
{
    if n <= 0 {
        seq![]
    } else {
        verdict_checks(issues, chain, assets, n - 1) + verdict_issue_checks(
            issues[n - 1],
            n - 1,
            chain,
            assets,
        )
    }
}

/// Every defect of a stored preparation, in the order they are reported: its structure,
/// a verdict dated otherwise than the planned day, a readiness flag that disagrees with
/// the blocking issues, a derived issue the verdict omits, and the defects of each
/// stored issue.
pub open spec fn preparation_defects(
    schema: Seq<char>,
    schedule: PlannedTestScheduleSnapshot,
    method: PreparedTestMethodSnapshot,
    station: PreparedStationSetupSnapshot,
    assignments: Seq<PlannedTestInstrumentAssignment>,
    verdict: VerdictView,
) -> Seq<ValidationIssueView> {
    structure_issues(schema, schedule, method, station, assignments) + when(
        encode_utf8(verdict.checked_on) != planned_date_bytes(schedule.planned_start_at@),
        vissue(
            "planned_test_preparation_verdict_date_mismatch",
            "verdict.checked_on"@,
            "the preparation verdict must be checked for the scheduled date",
        ),
    ) + when(
        verdict.ready != nothing_blocks(verdict.issues),
        vissue(
            "planned_test_preparation_verdict_inconsistent",
            "verdict.ready"@,
            "the preparation readiness flag does not match its blocking issues",
        ),
    ) + coverage_issues(static_issues(schedule, method, station, assignments), verdict.issues)
        + verdict_checks(
        verdict.issues,
        method.instrumentation_chain@,
        station.assets@,
        verdict.issues.len() as int,
    )
}

/// The defects of a stored preparation (see `preparation_defects`).
pub open spec fn integrity_issues(d: PlannedTestPreparationDefinition) -> Seq<ValidationIssueView> {
    preparation_defects(
        d.definition_schema_version@,
        d.schedule,
        d.method,
        d.station_setup,
        d.assignments@,
        d.verdict@,
    )
}

fn issue_covers(stored: &PlannedTestPreparationIssue, expected: &PlannedTestPreparationIssue) -> (b:
    bool)
    ensures
        b == covers(stored@, expected@),
{
    str_eq(stored.code.as_str(), expected.code.as_str()) && stored.severity == expected.severity
        && stored.dimension == expected.dimension && same_texts(
        &stored.method_slot_ids,
        &expected.method_slot_ids,
    ) && same_texts(&stored.binding_ids, &expected.binding_ids) && same_texts(
        &stored.asset_ids,
        &expected.asset_ids,
    )
}

fn is_covered(stored: &Vec<PlannedTestPreparationIssue>, expected: &PlannedTestPreparationIssue) -> (b:
    bool)
    ensures
        b == covered(prep_issues_view(stored@), expected@),
{
    let ghost sv = prep_issues_view(stored@);
    let mut k: usize = 0;
    while k < stored.len()
        invariant
            k <= stored@.len(),
            sv == prep_issues_view(stored@),
            forall|j: int| 0 <= j < k ==> !covers(#[trigger] sv[j], expected@),
        decreases stored@.len() - k,
    {
        assert(sv[k as int] == stored@[k as int]@);
        if issue_covers(&stored[k], expected) {
            return true;
        }
        k = k + 1;
    }
    false
}

fn check_coverage(
    issues: &mut Vec<PlannedTestPreparationValidationIssue>,
    expected: &Vec<PlannedTestPreparationIssue>,
    stored: &Vec<PlannedTestPreparationIssue>,
)
    ensures
        validation_view(final(issues)@) == validation_view(old(issues)@) + coverage_issues(
            prep_issues_view(expected@),
            prep_issues_view(stored@),
        ),
{
    let ghost before = validation_view(issues@);
    let ghost ev = prep_issues_view(expected@);
    let mut i: usize = 0;
    assert(ev.take(0) =~= Seq::<PrepIssueView>::empty());
    assert(validation_view(issues@) =~= before + coverage_issues(ev.take(0), prep_issues_view(stored@)));
    while i < expected.len()
        invariant
            i <= expected@.len(),
            ev == prep_issues_view(expected@),
            validation_view(issues@) == before + coverage_issues(
                ev.take(i as int),
                prep_issues_view(stored@),
            ),
        decreases expected@.len() - i,
    {
        let ghost start = validation_view(issues@);
        assert(ev.take(i + 1).drop_last() =~= ev.take(i as int));
        assert(ev.take(i + 1).last() == expected@[i as int]@);
        let found = is_covered(stored, &expected[i]);
        push_issue_if(
            issues,
            !found,
            "planned_test_preparation_static_verdict_incomplete",
            "verdict.issues",
            "the stored preparation verdict omits a derived blocking or warning issue",
        );
        proof {
            reveal_strlit("verdict.issues");
        }
        assert(validation_view(issues@) =~= before + coverage_issues(
            ev.take(i + 1),
            prep_issues_view(stored@),
        ));
        i = i + 1;
    }
    assert(ev.take(i as int) =~= ev);
}

fn check_stored_issue(
    issues: &mut Vec<PlannedTestPreparationValidationIssue>,
    issue: &PlannedTestPreparationIssue,
    index: usize,
    chain: &Vec<InstrumentationChainSlot>,
    assets: &Vec<PreparedStationAssetSnapshot>,
)
    ensures
        validation_view(final(issues)@) == validation_view(old(issues)@) + verdict_issue_checks(
            issue@,
            index as int,
            chain@,
            assets@,
        ),
{
    let ghost before = validation_view(issues@);
    let code_path = indexed_path("verdict.issues", index, ".code");
    let message_path = indexed_path("verdict.issues", index, ".message");
    let action_path = indexed_path("verdict.issues", index, ".next_action");
    let slots_path = indexed_path("verdict.issues", index, ".method_slot_ids");
    let bindings_path = indexed_path("verdict.issues", index, ".binding_ids");
    require_text(issues, issue.code.as_str(), code_path.as_str());
    require_text(issues, issue.message.as_str(), message_path.as_str());
    require_text(issues, issue.next_action.as_str(), action_path.as_str());
    let ghost after_texts = validation_view(issues@);
    let ghost slots = texts_view(issue.method_slot_ids@);
    let mut k: usize = 0;
    while k < issue.method_slot_ids.len()
        invariant
            k <= issue.method_slot_ids@.len(),
            slots == texts_view(issue.method_slot_ids@),
            slots_path@ == verdict_path(index as int, ".method_slot_ids"@),
            validation_view(issues@) == after_texts + unknown_slot_issues(
                slots,
                chain@,
                index as int,
                k as int,
            ),
        decreases issue.method_slot_ids@.len() - k,
    {
        assert(slots[k as int] == issue.method_slot_ids@[k as int]@);
        let known = chain_contains_slot(chain, &issue.method_slot_ids[k]);
        push_issue_if(
            issues,
            !known,
            "planned_test_preparation_issue_unknown_slot",
            slots_path.as_str(),
            "a verdict issue references an unknown method role",
        );
        k = k + 1;
    }
    let ghost after_slots = validation_view(issues@);
    let ghost bindings = texts_view(issue.binding_ids@);
    let mut k: usize = 0;
    while k < issue.binding_ids.len()
        invariant
            k <= issue.binding_ids@.len(),
            bindings == texts_view(issue.binding_ids@),
            bindings_path@ == verdict_path(index as int, ".binding_ids"@),
            validation_view(issues@) == after_slots + unknown_binding_issues(
                bindings,
                assets@,
                index as int,
                k as int,
            ),
        decreases issue.binding_ids@.len() - k,
    {
        assert(bindings[k as int] == issue.binding_ids@[k as int]@);
        let known = station_contains_binding(assets, &issue.binding_ids[k]);
        push_issue_if(
            issues,
            !known,
            "planned_test_preparation_issue_unknown_binding",
            bindings_path.as_str(),
            "a verdict issue references an unknown station material",
        );
        k = k + 1;
    }
    assert(validation_view(issues@) =~= before + verdict_issue_checks(
        issue@,
        index as int,
        chain@,
        assets@,
    ));
}

/// Every structural defect of a preparation definition.
fn validate_definition_structure(d: &PlannedTestPreparationDefinition) -> (r: Vec<
    PlannedTestPreparationValidationIssue,
>)
    ensures
        validation_view(r@) == structure_issues(
            d.definition_schema_version@,
            d.schedule,
            d.method,
            d.station_setup,
            d.assignments@,
        ),
{
    structure_issues_of(
        d.definition_schema_version.as_str(),
        &d.schedule,
        &d.method,
        &d.station_setup,
        &d.assignments,
    )
}

/// Every structural defect of what a preparation is assessed from.
fn validate_assessment_input(input: &PlannedTestPreparationAssessmentInput) -> (r: Vec<
    PlannedTestPreparationValidationIssue,
>)
    ensures
        validation_view(r@) == assessment_structure_issues(*input),
{
    structure_issues_of(
        PLANNED_TEST_PREPARATION_SCHEMA_VERSION,
        &input.schedule,
        &input.method,
        &input.station_setup,
        &input.assignments,
    )
}

fn validate_definition_integrity(d: &PlannedTestPreparationDefinition) -> (r: Vec<
    PlannedTestPreparationValidationIssue,
>)
    ensures
        validation_view(r@) == integrity_issues(*d),
{
    let mut issues = validate_definition_structure(d);
    let ghost s0 = validation_view(issues@);
    let date = d.schedule.planned_date();
    push_issue_if(
        &mut issues,
        !bytes_eq(d.verdict.checked_on.as_str().as_bytes(), date.as_bytes()),
        "planned_test_preparation_verdict_date_mismatch",
        "verdict.checked_on",
        "the preparation verdict must be checked for the scheduled date",
    );
    let expected_ready = no_blocking_issue(&d.verdict.issues);
    push_issue_if(
        &mut issues,
        d.verdict.ready != expected_ready,
        "planned_test_preparation_verdict_inconsistent",
        "verdict.ready",
        "the preparation readiness flag does not match its blocking issues",
    );
    proof {
        reveal_strlit("verdict.checked_on");
        reveal_strlit("verdict.ready");
    }
    let ghost s1 = validation_view(issues@);
    let expected = derive_static_readiness_issues(
        &d.schedule,
        &d.method,
        &d.station_setup,
        &d.assignments,
    );
    check_coverage(&mut issues, &expected, &d.verdict.issues);
    let ghost s2 = validation_view(issues@);
    let ghost stored = prep_issues_view(d.verdict.issues@);
    let mut i: usize = 0;
    while i < d.verdict.issues.len()
        invariant
            i <= d.verdict.issues@.len(),
            stored == prep_issues_view(d.verdict.issues@),
            validation_view(issues@) == s2 + verdict_checks(
                stored,
                d.method.instrumentation_chain@,
                d.station_setup.assets@,
                i as int,
            ),
        decreases d.verdict.issues@.len() - i,
    {
        assert(stored[i as int] == d.verdict.issues@[i as int]@);
        check_stored_issue(
            &mut issues,
            &d.verdict.issues[i],
            i,
            &d.method.instrumentation_chain,
            &d.station_setup.assets,
        );
        i = i + 1;
    }
    assert(validation_view(issues@) =~= integrity_issues(*d));
    issues
}

impl PlannedTestPreparationDefinition {
    /// Every defect of the stored preparation (see `integrity_issues`); none when it can be
    /// trusted as recorded.
    pub fn validate_integrity(&self) -> (r: Vec<PlannedTestPreparationValidationIssue>)
        ensures
            validation_view(r@) == integrity_issues(*self),
    {
        validate_definition_integrity(self)
    }
}

// ---------------------------------------------------------------------------
// Assessment
// ---------------------------------------------------------------------------

/// The structural defects of what a preparation is assessed from.
pub open spec fn assessment_structure_issues(input: PlannedTestPreparationAssessmentInput) -> Seq<
    ValidationIssueView,
> {
    structure_issues(
        PLANNED_TEST_PREPARATION_SCHEMA_VERSION@,
        input.schedule,
        input.method,
        input.station_setup,
        input.assignments@,
    )
}

/// The issues of an assessment: those derived from the frozen parts, then the station
/// readiness issues, all in the order of `sorted_issues`.
pub open spec fn assessed_issues(input: PlannedTestPreparationAssessmentInput) -> Seq<PrepIssueView> {
    sorted_issues(
        static_issues(input.schedule, input.method, input.station_setup, input.assignments@)
            + input.station_readiness.issues@.map_values(
            |i: StationReadinessIssue| station_issue_view(i, input.station_setup.assets@),
        ),
    )
}

/// The verdict of an assessment, dated as the station readiness check.
pub open spec fn assessed_verdict(input: PlannedTestPreparationAssessmentInput) -> VerdictView {
    VerdictView {
        ready: nothing_blocks(assessed_issues(input)),
        checked_on: input.station_readiness.checked_on@,
        issues: assessed_issues(input),
    }
}

/// The defects of the preparation an assessment would record.
pub open spec fn assessed_defects(input: PlannedTestPreparationAssessmentInput) -> Seq<
    ValidationIssueView,
> {
    preparation_defects(
        PLANNED_TEST_PREPARATION_SCHEMA_VERSION@,
        input.schedule,
        input.method,
        input.station_setup,
        input.assignments@,
        assessed_verdict(input),
    )
}

/// Assesses a preparation. Structural defects of the input are returned as they are;
/// otherwise the preparation is built with the assessed verdict, and returned when it
/// has no defect, or its defects are returned.
pub fn assess_planned_test_preparation(input: PlannedTestPreparationAssessmentInput) -> (r: Result<
    PlannedTestPreparationDefinition,
    Vec<PlannedTestPreparationValidationIssue>,
>)
    ensures
        match r {
            Ok(d) => {
                &&& assessment_structure_issues(input).len() == 0
                &&& assessed_defects(input).len() == 0
                &&& d.definition_schema_version@ == PLANNED_TEST_PREPARATION_SCHEMA_VERSION@
                &&& d.schedule == input.schedule
                &&& d.method == input.method
                &&& d.station_setup == input.station_setup
                &&& d.assignments == input.assignments
                &&& d.verdict@ == assessed_verdict(input)
            },
            Err(e) => if assessment_structure_issues(input).len() > 0 {
                validation_view(e@) == assessment_structure_issues(input)
            } else {
                validation_view(e@) == assessed_defects(input) && assessed_defects(input).len() > 0
            },
        },
{
    let structural = validate_assessment_input(&input);
    if structural.len() > 0 {
        return Err(structural);
    }
    let mut issues = derive_static_readiness_issues(
        &input.schedule,
        &input.method,
        &input.station_setup,
        &input.assignments,
    );
    let ghost derived = prep_issues_view(issues@);
    let ghost carried = input.station_readiness.issues@.map_values(
        |i: StationReadinessIssue| station_issue_view(i, input.station_setup.assets@),
    );
    let mut k: usize = 0;
    while k < input.station_readiness.issues.len()
        invariant
            k <= input.station_readiness.issues@.len(),
            carried == input.station_readiness.issues@.map_values(
                |i: StationReadinessIssue| station_issue_view(i, input.station_setup.assets@),
            ),
            prep_issues_view(issues@) == derived + carried.take(k as int),
        decreases input.station_readiness.issues@.len() - k,
    {
        let converted = station_issue(&input.station_readiness.issues[k], &input.station_setup);
        let ghost before = prep_issues_view(issues@);
        issues.push(converted);
        assert(prep_issues_view(issues@) =~= before.push(converted@));
        assert(carried.take(k + 1) =~= carried.take(k as int).push(carried[k as int]));
        k = k + 1;
    }
    assert(carried.take(k as int) =~= carried);
    let sorted = sort_readiness_issues(issues);
    let PlannedTestPreparationAssessmentInput {
        schedule,
        method,
        station_setup,
        assignments,
        station_readiness,
    } = input;
    let StationSetupReadiness { ready: _, checked_on, issues: _ } = station_readiness;
    let verdict = PlannedTestPreparationVerdict::from_issues(checked_on, sorted);
    let d = PlannedTestPreparationDefinition {
        definition_schema_version: PLANNED_TEST_PREPARATION_SCHEMA_VERSION.to_owned(),
        schedule,
        method,
        station_setup,
        assignments,
        verdict,
    };
    assert(d.verdict@ == assessed_verdict(input));
    let defects = d.validate_integrity();
    if defects.len() == 0 {
        Ok(d)
    } else {
        Err(defects)
    }
}

// ---------------------------------------------------------------------------
// Compatibility of each station material with each method role
// ---------------------------------------------------------------------------

pub struct CompatibilityView {
    pub slot_id: Seq<char>,
    pub binding_id: Seq<char>,
    pub compatible: bool,
    pub reason: Option<Seq<char>>,
    pub next_action: Option<Seq<char>>,
}

impl View for PlannedTestMaterialCompatibility {
    type V = CompatibilityView;

    open spec fn view(&self) -> CompatibilityView {
        CompatibilityView {
            slot_id: self.slot_id@,
            binding_id: self.binding_id@,
            compatible: self.compatible,
            reason: optional_view(self.reason),
            next_action: optional_view(self.next_action),
        }
    }
}

impl SortKey for PlannedTestMaterialCompatibility {
    /// By role, then by binding.
    open spec fn key_before(a: CompatibilityView, b: CompatibilityView) -> bool {
        text_lt(a.slot_id, b.slot_id) || (a.slot_id == b.slot_id && text_lt(
            a.binding_id,
            b.binding_id,
        ))
    }

    proof fn lemma_key_before_irreflexive(a: CompatibilityView) {
        lemma_text_pair_order((a.slot_id, a.binding_id), (a.slot_id, a.binding_id), (a.slot_id, a.binding_id));
    }

    proof fn lemma_key_before_transitive(a: CompatibilityView, b: CompatibilityView, c: CompatibilityView) {
        lemma_text_pair_order((a.slot_id, a.binding_id), (b.slot_id, b.binding_id), (c.slot_id, c.binding_id));
    }

    fn precedes(&self, other: &Self) -> (b: bool) {
        str_lt(self.slot_id.as_str(), other.slot_id.as_str()) || (str_eq(
            self.slot_id.as_str(),
            other.slot_id.as_str(),
        ) && str_lt(self.binding_id.as_str(), other.binding_id.as_str()))
    }
}

/// Whether a blocking station issue of the dimension rules the material out for the role.
pub open spec fn readiness_dimension_applies(
    slot: InstrumentationChainSlot,
    d: StationReadinessDimension,
) -> bool {
    match d {
        StationReadinessDimension::AssetIdentity
        | StationReadinessDimension::Serviceability
        | StationReadinessDimension::Nonconformance
        | StationReadinessDimension::CorrectionValidity => true,
        StationReadinessDimension::CalibrationValidity
        | StationReadinessDimension::MissingEvidence => slot.calibration_requirement
            != CalibrationRequirement::NotRequired,
        StationReadinessDimension::Structure | StationReadinessDimension::PortCompatibility => false,
    }
}

fn material_readiness_dimension_applies(
    slot: &InstrumentationChainSlot,
    d: StationReadinessDimension,
) -> (b: bool)
    ensures
        b == readiness_dimension_applies(*slot, d),
{
    match d {
        StationReadinessDimension::AssetIdentity
        | StationReadinessDimension::Serviceability
        | StationReadinessDimension::Nonconformance
        | StationReadinessDimension::CorrectionValidity => true,
        StationReadinessDimension::CalibrationValidity
        | StationReadinessDimension::MissingEvidence => slot.calibration_requirement
            != CalibrationRequirement::NotRequired,
        StationReadinessDimension::Structure | StationReadinessDimension::PortCompatibility => false,
    }
}

/// What the substitution policy of the role allows.
pub open spec fn policy_sentence(p: InstrumentSubstitutionPolicy) -> Seq<char> {
    match p {
        InstrumentSubstitutionPolicy::NoSubstitution => "La substitution n'est pas autorisée pour ce rôle."@,
        InstrumentSubstitutionPolicy::SameCategory => "La substitution exige la même catégorie."@,
        InstrumentSubstitutionPolicy::SameCapability => "La substitution exige la même capacité."@,
        InstrumentSubstitutionPolicy::ApprovedEquivalent => "Aucune équivalence approuvée ne permet de relâcher l'exigence déclarée."@,
    }
}

/// `<material> ne respecte pas l'exigence de <requirement> pour « <role> ». <policy>`.
pub open spec fn mismatch_reason(
    slot: InstrumentationChainSlot,
    a: PreparedStationAssetSnapshot,
    requirement: Seq<char>,
) -> Seq<char> {
    material_label(a) + " ne respecte pas l'exigence de "@ + requirement + " pour « "@ + slot.label@
        + " ». "@ + policy_sentence(slot.substitution_policy)
}

fn substitution_mismatch_reason(
    slot: &InstrumentationChainSlot,
    a: &PreparedStationAssetSnapshot,
    requirement: &str,
) -> (r: String)
    ensures
        r@ == mismatch_reason(*slot, *a, requirement@),
{
    let policy = match slot.substitution_policy {
        InstrumentSubstitutionPolicy::NoSubstitution => "La substitution n'est pas autorisée pour ce rôle.",
        InstrumentSubstitutionPolicy::SameCategory => "La substitution exige la même catégorie.",
        InstrumentSubstitutionPolicy::SameCapability => "La substitution exige la même capacité.",
        InstrumentSubstitutionPolicy::ApprovedEquivalent => "Aucune équivalence approuvée ne permet de relâcher l'exigence déclarée.",
    };
    let mut r = material_label_text(a);
    push_str(&mut r, " ne respecte pas l'exigence de ");
    push_str(&mut r, requirement);
    push_str(&mut r, " pour « ");
    push_str(&mut r, slot.label.as_str());
    push_str(&mut r, " ». ");
    push_str(&mut r, policy);
    r
}

/// A blocking station issue that names the binding and whose dimension matters for the role.
pub open spec fn rules_out(
    issue: StationReadinessIssue,
    slot: InstrumentationChainSlot,
    a: PreparedStationAssetSnapshot,
) -> bool {
    &&& issue.severity == StationReadinessSeverity::Blocking
    &&& texts_view(issue.binding_ids@).contains(a.binding_id@)
    &&& readiness_dimension_applies(slot, issue.dimension)
}

/// The first station issue, from index `k` on, that rules the material out for the role.
pub open spec fn first_ruling_out(
    issues: Seq<StationReadinessIssue>,
    slot: InstrumentationChainSlot,
    a: PreparedStationAssetSnapshot,
    k: int,
) -> Option<int>
    decreases issues.len() - k,
{
    if k < 0 || k >= issues.len() {
        None
    } else if rules_out(issues[k], slot, a) {
        Some(k)
    } else {
        first_ruling_out(issues, slot, a, k + 1)
    }
}

/// Why the material cannot fill the role, and what to do: a category the role does not
/// accept, then a capability its model lacks, then the first blocking station issue on it
/// that matters for the role; nothing when it can fill the role.
pub open spec fn incompatibility(
    slot: InstrumentationChainSlot,
    a: PreparedStationAssetSnapshot,
    issues: Seq<StationReadinessIssue>,
) -> Option<(Seq<char>, Seq<char>)> {
    if slot.required_category is Some && !equal_ignoring_ascii_case(
        trim_seq(a.category_code@),
        trim_seq(slot.required_category.unwrap()@),
    ) {
        Some(
            (
                mismatch_reason(slot, a, "catégorie"@),
                "Choisissez un matériel de la catégorie attendue ou mettez à jour son modèle."@,
            ),
        )
    } else if slot.required_capability is Some && !declares_capability(
        a.capabilities@,
        slot.required_capability.unwrap()@,
    ) {
        Some(
            (
                mismatch_reason(slot, a, "capacité"@),
                "Choisissez un matériel dont le modèle déclare la capacité attendue."@,
            ),
        )
    } else {
        match first_ruling_out(issues, slot, a, 0) {
            Some(k) => Some((issues[k].message@, station_next_action(issues[k].dimension))),
            None => None,
        }
    }
}

fn names_binding(ids: &Vec<String>, binding_id: &String) -> (b: bool)
    ensures
        b == texts_view(ids@).contains(binding_id@),
{
    let mut k: usize = 0;
    while k < ids.len()
        invariant
            k <= ids@.len(),
            forall|j: int| 0 <= j < k ==> (#[trigger] ids@[j])@ != binding_id@,
        decreases ids@.len() - k,
    {
        if str_eq(ids[k].as_str(), binding_id.as_str()) {
            assert(texts_view(ids@)[k as int] == binding_id@);
            return true;
        }
        k = k + 1;
    }
    assert forall|j: int| 0 <= j < texts_view(ids@).len() implies texts_view(ids@)[j]
        != binding_id@ by {
        assert(texts_view(ids@)[j] == ids@[j]@);
    }
    false
}

fn material_incompatibility(
    slot: &InstrumentationChainSlot,
    a: &PreparedStationAssetSnapshot,
    readiness: &StationSetupReadiness,
) -> (r: Option<(String, String)>)
    ensures
        match r {
            Some((reason, action)) => incompatibility(*slot, *a, readiness.issues@) == Some(
                (reason@, action@),
            ),
            None => incompatibility(*slot, *a, readiness.issues@) is None,
        },
{
    match &slot.required_category {
        Some(c) => {
            let category = trim(a.category_code.as_str());
            let wanted = trim(c.as_str());
            if !eq_ignore_case(category.as_str(), wanted.as_str()) {
                return Some(
                    (
                        substitution_mismatch_reason(slot, a, "catégorie"),
                        "Choisissez un matériel de la catégorie attendue ou mettez à jour son modèle.".to_owned(),
                    ),
                );
            }
        },
        None => {},
    }
    match &slot.required_capability {
        Some(c) => {
            if !has_capability(&a.capabilities, c) {
                return Some(
                    (
                        substitution_mismatch_reason(slot, a, "capacité"),
                        "Choisissez un matériel dont le modèle déclare la capacité attendue.".to_owned(),
                    ),
                );
            }
        },
        None => {},
    }
    let issues = &readiness.issues;
    assert(incompatibility(*slot, *a, issues@) == match first_ruling_out(issues@, *slot, *a, 0) {
        Some(k) => Some((issues@[k].message@, station_next_action(issues@[k].dimension))),
        None => None,
    });
    let mut k: usize = 0;
    while k < issues.len()
        invariant
            k <= issues@.len(),
            issues == &readiness.issues,
            incompatibility(*slot, *a, issues@) == match first_ruling_out(issues@, *slot, *a, 0) {
                Some(k) => Some((issues@[k].message@, station_next_action(issues@[k].dimension))),
                None => None,
            },
            first_ruling_out(issues@, *slot, *a, 0) == first_ruling_out(
                issues@,
                *slot,
                *a,
                k as int,
            ),
        decreases issues@.len() - k,
    {
        let issue = &issues[k];
        if issue.severity == StationReadinessSeverity::Blocking && names_binding(
            &issue.binding_ids,
            &a.binding_id,
        ) && material_readiness_dimension_applies(slot, issue.dimension) {
            return Some(
                (
                    issue.message.clone(),
                    station_issue_next_action(issue.dimension).to_owned(),
                ),
            );
        }
        k = k + 1;
    }
    None
}

/// The compatibility of the material with the role.
pub open spec fn compatibility_view(
    slot: InstrumentationChainSlot,
    a: PreparedStationAssetSnapshot,
    issues: Seq<StationReadinessIssue>,
) -> CompatibilityView {
    let found = incompatibility(slot, a, issues);
    CompatibilityView {
        slot_id: slot.slot_id@,
        binding_id: a.binding_id@,
        compatible: found is None,
        reason: match found {
            Some(x) => Some(x.0),
            None => None,
        },
        next_action: match found {
            Some(x) => Some(x.1),
            None => None,
        },
    }
}

/// For each of the first `n` roles, each material of the station, in order.
pub open spec fn compatibility_rows(
    chain: Seq<InstrumentationChainSlot>,
    assets: Seq<PreparedStationAssetSnapshot>,
    issues: Seq<StationReadinessIssue>,
    n: int,
) -> Seq<CompatibilityView>
    decreases n,
{
    if n <= 0 {
        seq![]
    } else {
        compatibility_rows(chain, assets, issues, n - 1) + assets.map_values(
            |a: PreparedStationAssetSnapshot| compatibility_view(chain[n - 1], a, issues),
        )
    }
}

/// The compatibility of every station material with every method role, by role then
/// binding (pairs with the same role and binding keep the order of the roles and materials).
pub fn assess_planned_test_material_compatibility(
    method: &PreparedTestMethodSnapshot,
    station: &PreparedStationSetupSnapshot,
    station_readiness: &StationSetupReadiness,
) -> (r: Vec<PlannedTestMaterialCompatibility>)
    ensures
        record_views(r@) == stable_sorted::<PlannedTestMaterialCompatibility>(
            compatibility_rows(
                method.instrumentation_chain@,
                station.assets@,
                station_readiness.issues@,
                method.instrumentation_chain@.len() as int,
            ),
        ),
{
    let chain = &method.instrumentation_chain;
    let assets = &station.assets;
    let ghost issues = station_readiness.issues@;
    let mut rows: Vec<PlannedTestMaterialCompatibility> = Vec::new();
    let mut i: usize = 0;
    assert(record_views(rows@) =~= compatibility_rows(chain@, assets@, issues, 0));
    while i < chain.len()
        invariant
            i <= chain@.len(),
            chain == &method.instrumentation_chain,
            assets == &station.assets,
            issues == station_readiness.issues@,
            record_views(rows@) == compatibility_rows(chain@, assets@, issues, i as int),
        decreases chain@.len() - i,
    {
        let slot = &chain[i];
        let ghost start = record_views(rows@);
        let ghost row = assets@.map_values(
            |a: PreparedStationAssetSnapshot| compatibility_view(chain@[i as int], a, issues),
        );
        let mut j: usize = 0;
        while j < assets.len()
            invariant
                i < chain@.len(),
                j <= assets@.len(),
                slot == &chain@[i as int],
                issues == station_readiness.issues@,
                row == assets@.map_values(
                    |a: PreparedStationAssetSnapshot| compatibility_view(chain@[i as int], a, issues),
                ),
                record_views(rows@) == start + row.take(j as int),
            decreases assets@.len() - j,
        {
            let a = &assets[j];
            let found = material_incompatibility(slot, a, station_readiness);
            let entry = match found {
                Some((reason, action)) => PlannedTestMaterialCompatibility {
                    slot_id: slot.slot_id.clone(),
                    binding_id: a.binding_id.clone(),
                    compatible: false,
                    reason: Some(reason),
                    next_action: Some(action),
                },
                None => PlannedTestMaterialCompatibility {
                    slot_id: slot.slot_id.clone(),
                    binding_id: a.binding_id.clone(),
                    compatible: true,
                    reason: None,
                    next_action: None,
                },
            };
            assert(entry@ == row[j as int]);
            let ghost before = record_views(rows@);
            rows.push(entry);
            assert(record_views(rows@) =~= before.push(entry@));
            assert(row.take(j + 1) =~= row.take(j as int).push(row[j as int]));
            j = j + 1;
        }
        assert(row.take(j as int) =~= row);
        assert(record_views(rows@) =~= compatibility_rows(chain@, assets@, issues, i + 1));
        i = i + 1;
    }
    sort_stable(rows)
}

/// A successful assessment records a preparation with no defect: checking the
/// integrity of what it returns finds nothing.
pub proof fn lemma_assessed_preparation_is_intact(
    input: PlannedTestPreparationAssessmentInput,
    d: PlannedTestPreparationDefinition,
)
    requires
        assessed_defects(input).len() == 0,
        d.definition_schema_version@ == PLANNED_TEST_PREPARATION_SCHEMA_VERSION@,
        d.schedule == input.schedule,
        d.method == input.method,
        d.station_setup == input.station_setup,
        d.assignments == input.assignments,
        d.verdict@ == assessed_verdict(input),
    ensures
        integrity_issues(d).len() == 0,
{
}

/// Ordering the readiness issues keeps every issue (with its lists sorted), each as often.
pub proof fn lemma_sorted_issues_keep_every_issue(s: Seq<PrepIssueView>)
    ensures
        sorted_issues(s).to_multiset() == s.map_values(
            |i: PrepIssueView| with_sorted_lists(i),
        ).to_multiset(),
{
    lemma_stable_sorted_is_a_permutation::<PlannedTestPreparationIssue>(
        s.map_values(|i: PrepIssueView| with_sorted_lists(i)),
    );
}

impl CanonicalPlannedTestPreparationDefinition {
    /// The canonical form of a preparation from its canonical JSON text: the checksum is
    /// `sha256:` and the lowercase hexadecimal SHA-256 digest of the text's bytes.
    pub fn from_canonical_json(definition_schema_version: String, canonical_json: String) -> (r:
        Self)
        ensures
            r.definition_schema_version@ == definition_schema_version@,
            r.canonical_json@ == canonical_json@,
            r.definition_checksum@ == checksum_text(encode_utf8(canonical_json@)),
    {
        let definition_checksum = sha256_checksum(canonical_json.as_str().as_bytes());
        CanonicalPlannedTestPreparationDefinition {
            definition_schema_version,
            canonical_json,
            definition_checksum,
        }
    }
}

// ---------------------------------------------------------------------------
// Normal form of a stored preparation
// ---------------------------------------------------------------------------

pub struct SlotView {
    pub slot_id: Seq<char>,
    pub label: Seq<char>,
    pub required_category: Option<Seq<char>>,
    pub required_capability: Option<Seq<char>>,
    pub required: bool,
    pub calibration_requirement: CalibrationRequirement,
    pub substitution_policy: InstrumentSubstitutionPolicy,
    pub depends_on_slots: Seq<Seq<char>>,
}

impl View for InstrumentationChainSlot {
    type V = SlotView;

    open spec fn view(&self) -> SlotView {
        SlotView {
            slot_id: self.slot_id@,
            label: self.label@,
            required_category: optional_view(self.required_category),
            required_capability: optional_view(self.required_capability),
            required: self.required,
            calibration_requirement: self.calibration_requirement,
            substitution_policy: self.substitution_policy,
            depends_on_slots: views(self.depends_on_slots@),
        }
    }
}

impl SortKey for InstrumentationChainSlot {
    /// By role identifier.
    open spec fn key_before(a: SlotView, b: SlotView) -> bool {
        text_lt(a.slot_id, b.slot_id)
    }

    proof fn lemma_key_before_irreflexive(a: SlotView) {
        lemma_text_lt_irreflexive(a.slot_id);
    }

    proof fn lemma_key_before_transitive(a: SlotView, b: SlotView, c: SlotView) {
        lemma_text_lt_transitive(a.slot_id, b.slot_id, c.slot_id);
    }

    fn precedes(&self, other: &Self) -> (b: bool) {
        str_lt(self.slot_id.as_str(), other.slot_id.as_str())
    }
}

pub struct CapabilityView {
    pub capability_id: Seq<char>,
    pub label: Seq<char>,
    pub capability_kind: Seq<char>,
}

impl View for PreparedEquipmentCapabilitySnapshot {
    type V = CapabilityView;

    open spec fn view(&self) -> CapabilityView {
        CapabilityView {
            capability_id: self.capability_id@,
            label: self.label@,
            capability_kind: self.capability_kind@,
        }
    }
}

impl SortKey for PreparedEquipmentCapabilitySnapshot {
    /// By identifier, then by kind.
    open spec fn key_before(a: CapabilityView, b: CapabilityView) -> bool {
        text_lt(a.capability_id, b.capability_id) || (a.capability_id == b.capability_id
            && text_lt(a.capability_kind, b.capability_kind))
    }

    proof fn lemma_key_before_irreflexive(a: CapabilityView) {
        lemma_text_pair_order(
            (a.capability_id, a.capability_kind),
            (a.capability_id, a.capability_kind),
            (a.capability_id, a.capability_kind),
        );
    }

    proof fn lemma_key_before_transitive(a: CapabilityView, b: CapabilityView, c: CapabilityView) {
        lemma_text_pair_order(
            (a.capability_id, a.capability_kind),
            (b.capability_id, b.capability_kind),
            (c.capability_id, c.capability_kind),
        );
    }

    fn precedes(&self, other: &Self) -> (b: bool) {
        str_lt(self.capability_id.as_str(), other.capability_id.as_str()) || (str_eq(
            self.capability_id.as_str(),
            other.capability_id.as_str(),
        ) && str_lt(self.capability_kind.as_str(), other.capability_kind.as_str()))
    }
}

pub struct AssetView {
    pub binding_id: Seq<char>,
    pub role_label: Seq<char>,
    pub asset_id: Seq<char>,
    pub asset_revision: Seq<char>,
    pub inventory_code: Seq<char>,
    pub serial_number: Seq<char>,
    pub manufacturer: Seq<char>,
    pub model_name: Seq<char>,
    pub equipment_model_id: Seq<char>,
    pub equipment_model_revision_id: Seq<char>,
    pub equipment_model_checksum: Seq<char>,
    pub category_code: Seq<char>,
    pub capabilities: Seq<CapabilityView>,
}

impl View for PreparedStationAssetSnapshot {
    type V = AssetView;

    open spec fn view(&self) -> AssetView {
        AssetView {
            binding_id: self.binding_id@,
            role_label: self.role_label@,
            asset_id: self.asset_id@,
            asset_revision: self.asset_revision@,
            inventory_code: self.inventory_code@,
            serial_number: self.serial_number@,
            manufacturer: self.manufacturer@,
            model_name: self.model_name@,
            equipment_model_id: self.equipment_model_id@,
            equipment_model_revision_id: self.equipment_model_revision_id@,
            equipment_model_checksum: self.equipment_model_checksum@,
            category_code: self.category_code@,
            capabilities: record_views(self.capabilities@),
        }
    }
}

impl SortKey for PreparedStationAssetSnapshot {
    /// By binding.
    open spec fn key_before(a: AssetView, b: AssetView) -> bool {
        text_lt(a.binding_id, b.binding_id)
    }

    proof fn lemma_key_before_irreflexive(a: AssetView) {
        lemma_text_lt_irreflexive(a.binding_id);
    }

    proof fn lemma_key_before_transitive(a: AssetView, b: AssetView, c: AssetView) {
        lemma_text_lt_transitive(a.binding_id, b.binding_id, c.binding_id);
    }

    fn precedes(&self, other: &Self) -> (b: bool) {
        str_lt(self.binding_id.as_str(), other.binding_id.as_str())
    }
}

pub struct CorrectionView {
    pub selection_id: Seq<char>,
    pub binding_id: Seq<char>,
    pub correction_kind: StationCorrectionKind,
    pub characterization_id: Seq<char>,
    pub characterization_checksum: Seq<char>,
    pub label: Seq<char>,
}

impl View for PreparedStationCorrectionSnapshot {
    type V = CorrectionView;

    open spec fn view(&self) -> CorrectionView {
        CorrectionView {
            selection_id: self.selection_id@,
            binding_id: self.binding_id@,
            correction_kind: self.correction_kind,
            characterization_id: self.characterization_id@,
            characterization_checksum: self.characterization_checksum@,
            label: self.label@,
        }
    }
}

impl SortKey for PreparedStationCorrectionSnapshot {
    /// By selection identifier.
    open spec fn key_before(a: CorrectionView, b: CorrectionView) -> bool {
        text_lt(a.selection_id, b.selection_id)
    }

    proof fn lemma_key_before_irreflexive(a: CorrectionView) {
        lemma_text_lt_irreflexive(a.selection_id);
    }

    proof fn lemma_key_before_transitive(a: CorrectionView, b: CorrectionView, c: CorrectionView) {
        lemma_text_lt_transitive(a.selection_id, b.selection_id, c.selection_id);
    }

    fn precedes(&self, other: &Self) -> (b: bool) {
        str_lt(self.selection_id.as_str(), other.selection_id.as_str())
    }
}

pub struct AssignmentView {
    pub slot_id: Seq<char>,
    pub binding_id: Seq<char>,
}

impl View for PlannedTestInstrumentAssignment {
    type V = AssignmentView;

    open spec fn view(&self) -> AssignmentView {
        AssignmentView { slot_id: self.slot_id@, binding_id: self.binding_id@ }
    }
}

impl SortKey for PlannedTestInstrumentAssignment {
    /// By role.
    open spec fn key_before(a: AssignmentView, b: AssignmentView) -> bool {
        text_lt(a.slot_id, b.slot_id)
    }

    proof fn lemma_key_before_irreflexive(a: AssignmentView) {
        lemma_text_lt_irreflexive(a.slot_id);
    }

    proof fn lemma_key_before_transitive(a: AssignmentView, b: AssignmentView, c: AssignmentView) {
        lemma_text_lt_transitive(a.slot_id, b.slot_id, c.slot_id);
    }

    fn precedes(&self, other: &Self) -> (b: bool) {
        str_lt(self.slot_id.as_str(), other.slot_id.as_str())
    }
}

/// A role with its label trimmed and its dependencies sorted without repeats.
pub open spec fn normal_slot(v: SlotView) -> SlotView {
    SlotView {
        label: trim_seq(v.label),
        depends_on_slots: sorted_distinct(v.depends_on_slots),
        ..v
    }
}

/// A material with its texts trimmed and its capabilities in order.
pub open spec fn normal_asset(v: AssetView) -> AssetView {
    AssetView {
        role_label: trim_seq(v.role_label),
        inventory_code: trim_seq(v.inventory_code),
        serial_number: trim_seq(v.serial_number),
        manufacturer: trim_seq(v.manufacturer),
        model_name: trim_seq(v.model_name),
        category_code: trim_seq(v.category_code),
        capabilities: stable_sorted::<PreparedEquipmentCapabilitySnapshot>(v.capabilities),
        ..v
    }
}

fn normalize_slots(slots: Vec<InstrumentationChainSlot>) -> (r: Vec<InstrumentationChainSlot>)
    ensures
        record_views(r@) == stable_sorted::<InstrumentationChainSlot>(record_views(slots@)).map_values(
            |v: SlotView| normal_slot(v),
        ),
{
    let sorted = sort_stable(slots);
    let ghost target = record_views(sorted@).map_values(|v: SlotView| normal_slot(v));
    let ghost orig = record_views(sorted@);
    let _n = sorted.len();
    let mut rest = sorted;
    let mut r: Vec<InstrumentationChainSlot> = Vec::new();
    let mut i: usize = 0;
    assert(record_views(rest@) =~= orig.skip(0));
    assert(record_views(r@) =~= target.take(0));
    while rest.len() > 0
        invariant
            i <= orig.len(),
            orig.len() <= usize::MAX,
            target == orig.map_values(|v: SlotView| normal_slot(v)),
            rest@.len() == orig.len() - i,
            record_views(rest@) == orig.skip(i as int),
            record_views(r@) == target.take(i as int),
        decreases rest@.len(),
    {
        let ghost before_rest = rest@;
        let slot = rest.remove(0);
        assert(slot@ == record_views(before_rest)[0]);
        assert(record_views(rest@) =~= record_views(before_rest).skip(1));
        assert(record_views(rest@) =~= orig.skip(i + 1));
        let InstrumentationChainSlot {
            slot_id,
            label,
            required_category,
            required_capability,
            required,
            calibration_requirement,
            substitution_policy,
            depends_on_slots,
        } = slot;
        let normal = InstrumentationChainSlot {
            slot_id,
            label: trim(label.as_str()),
            required_category,
            required_capability,
            required,
            calibration_requirement,
            substitution_policy,
            depends_on_slots: sort_distinct(depends_on_slots),
        };
        let ghost before = record_views(r@);
        r.push(normal);
        assert(record_views(r@) =~= before.push(normal@));
        assert(target.take(i + 1) =~= target.take(i as int).push(target[i as int]));
        i = i + 1;
    }
    assert(target.take(i as int) =~= target);
    r
}

fn normalize_assets(assets: Vec<PreparedStationAssetSnapshot>) -> (r: Vec<PreparedStationAssetSnapshot>)
    ensures
        record_views(r@) == stable_sorted::<PreparedStationAssetSnapshot>(record_views(assets@)).map_values(
            |v: AssetView| normal_asset(v),
        ),
{
    let sorted = sort_stable(assets);
    let ghost target = record_views(sorted@).map_values(|v: AssetView| normal_asset(v));
    let ghost orig = record_views(sorted@);
    let _n = sorted.len();
    let mut rest = sorted;
    let mut r: Vec<PreparedStationAssetSnapshot> = Vec::new();
    let mut i: usize = 0;
    assert(record_views(rest@) =~= orig.skip(0));
    assert(record_views(r@) =~= target.take(0));
    while rest.len() > 0
        invariant
            i <= orig.len(),
            orig.len() <= usize::MAX,
            target == orig.map_values(|v: AssetView| normal_asset(v)),
            rest@.len() == orig.len() - i,
            record_views(rest@) == orig.skip(i as int),
            record_views(r@) == target.take(i as int),
        decreases rest@.len(),
    {
        let ghost before_rest = rest@;
        let asset = rest.remove(0);
        assert(asset@ == record_views(before_rest)[0]);
        assert(record_views(rest@) =~= record_views(before_rest).skip(1));
        assert(record_views(rest@) =~= orig.skip(i + 1));
        let PreparedStationAssetSnapshot {
            binding_id,
            role_label,
            asset_id,
            asset_revision,
            inventory_code,
            serial_number,
            manufacturer,
            model_name,
            equipment_model_id,
            equipment_model_revision_id,
            equipment_model_checksum,
            category_code,
            capabilities,
        } = asset;
        let normal = PreparedStationAssetSnapshot {
            binding_id,
            role_label: trim(role_label.as_str()),
            asset_id,
            asset_revision,
            inventory_code: trim(inventory_code.as_str()),
            serial_number: trim(serial_number.as_str()),
            manufacturer: trim(manufacturer.as_str()),
            model_name: trim(model_name.as_str()),
            equipment_model_id,
            equipment_model_revision_id,
            equipment_model_checksum,
            category_code: trim(category_code.as_str()),
            capabilities: sort_stable(capabilities),
        };
        let ghost before = record_views(r@);
        r.push(normal);
        assert(record_views(r@) =~= before.push(normal@));
        assert(target.take(i + 1) =~= target.take(i as int).push(target[i as int]));
        i = i + 1;
    }
    assert(target.take(i as int) =~= target);
    r
}

/// `n` is `d` in normal form: schedule, method, station and material texts trimmed; the
/// references and role dependencies sorted without repeats; roles, materials (and their
/// capabilities), corrections and assignments in stable order of their identifiers; and
/// the verdict's issues in the order of `sorted_issues`. Nothing else changes.
pub open spec fn normal_form_of(n: PlannedTestPreparationDefinition, d: PlannedTestPreparationDefinition) -> bool {
    &&& n.definition_schema_version == d.definition_schema_version
    &&& n.schedule.project_code == d.schedule.project_code
    &&& n.schedule.item_code == d.schedule.item_code
    &&& n.schedule.revision == d.schedule.revision
    &&& n.schedule.title@ == trim_seq(d.schedule.title@)
    &&& n.schedule.planned_start_at == d.schedule.planned_start_at
    &&& n.schedule.planned_end_at == d.schedule.planned_end_at
    &&& n.schedule.assigned_operator@ == trim_seq(d.schedule.assigned_operator@)
    &&& n.schedule.laboratory_location_id == d.schedule.laboratory_location_id
    &&& n.schedule.laboratory_location_label@ == trim_seq(d.schedule.laboratory_location_label@)
    &&& n.schedule.equipment_under_test@ == trim_seq(d.schedule.equipment_under_test@)
    &&& n.schedule.execution_mode == d.schedule.execution_mode
    &&& n.schedule.status == d.schedule.status
    &&& n.method.template_id == d.method.template_id
    &&& n.method.revision_id == d.method.revision_id
    &&& n.method.revision_number == d.method.revision_number
    &&& n.method.revision_status == d.method.revision_status
    &&& n.method.definition_checksum == d.method.definition_checksum
    &&& n.method.title@ == trim_seq(d.method.title@)
    &&& n.method.measurement_axis == d.method.measurement_axis
    &&& n.method.method_code == d.method.method_code
    &&& n.method.method_revision == d.method.method_revision
    &&& views(n.method.standard_references@) == sorted_distinct(views(d.method.standard_references@))
    &&& record_views(n.method.instrumentation_chain@) == stable_sorted::<InstrumentationChainSlot>(
        record_views(d.method.instrumentation_chain@),
    ).map_values(|v: SlotView| normal_slot(v))
    &&& n.station_setup.setup_id == d.station_setup.setup_id
    &&& n.station_setup.revision_id == d.station_setup.revision_id
    &&& n.station_setup.revision_number == d.station_setup.revision_number
    &&& n.station_setup.revision_status == d.station_setup.revision_status
    &&& n.station_setup.definition_checksum == d.station_setup.definition_checksum
    &&& n.station_setup.label@ == trim_seq(d.station_setup.label@)
    &&& n.station_setup.laboratory_location_id == d.station_setup.laboratory_location_id
    &&& n.station_setup.laboratory_location_label@ == trim_seq(
        d.station_setup.laboratory_location_label@,
    )
    &&& n.station_setup.planned_use_on == d.station_setup.planned_use_on
    &&& n.station_setup.execution_mode == d.station_setup.execution_mode
    &&& record_views(n.station_setup.assets@) == stable_sorted::<PreparedStationAssetSnapshot>(
        record_views(d.station_setup.assets@),
    ).map_values(|v: AssetView| normal_asset(v))
    &&& record_views(n.station_setup.corrections@) == stable_sorted::<
        PreparedStationCorrectionSnapshot,
    >(record_views(d.station_setup.corrections@))
    &&& record_views(n.assignments@) == stable_sorted::<PlannedTestInstrumentAssignment>(
        record_views(d.assignments@),
    )
    &&& n.verdict.ready == d.verdict.ready
    &&& n.verdict.checked_on == d.verdict.checked_on
    &&& prep_issues_view(n.verdict.issues@) == sorted_issues(prep_issues_view(d.verdict.issues@))
}

fn normalize_definition(d: PlannedTestPreparationDefinition) -> (r: PlannedTestPreparationDefinition)
    ensures
        normal_form_of(r, d),
{
    let PlannedTestPreparationDefinition {
        definition_schema_version,
        schedule,
        method,
        station_setup,
        assignments,
        verdict,
    } = d;
    let PlannedTestScheduleSnapshot {
        project_code,
        item_code,
        revision,
        title,
        planned_start_at,
        planned_end_at,
        assigned_operator,
        laboratory_location_id,
        laboratory_location_label,
        equipment_under_test,
        execution_mode,
        status,
    } = schedule;
    let schedule = PlannedTestScheduleSnapshot {
        project_code,
        item_code,
        revision,
        title: trim(title.as_str()),
        planned_start_at,
        planned_end_at,
        assigned_operator: trim(assigned_operator.as_str()),
        laboratory_location_id,
        laboratory_location_label: trim(laboratory_location_label.as_str()),
        equipment_under_test: trim(equipment_under_test.as_str()),
        execution_mode,
        status,
    };
    let PreparedTestMethodSnapshot {
        template_id,
        revision_id,
        revision_number,
        revision_status,
        definition_checksum,
        title,
        measurement_axis,
        method_code,
        method_revision,
        standard_references,
        instrumentation_chain,
    } = method;
    let method = PreparedTestMethodSnapshot {
        template_id,
        revision_id,
        revision_number,
        revision_status,
        definition_checksum,
        title: trim(title.as_str()),
        measurement_axis,
        method_code,
        method_revision,
        standard_references: sort_distinct(standard_references),
        instrumentation_chain: normalize_slots(instrumentation_chain),
    };
    let PreparedStationSetupSnapshot {
        setup_id,
        revision_id,
        revision_number,
        revision_status,
        definition_checksum,
        label,
        laboratory_location_id,
        laboratory_location_label,
        planned_use_on,
        execution_mode,
        assets,
        corrections,
    } = station_setup;
    let station_setup = PreparedStationSetupSnapshot {
        setup_id,
        revision_id,
        revision_number,
        revision_status,
        definition_checksum,
        label: trim(label.as_str()),
        laboratory_location_id,
        laboratory_location_label: trim(laboratory_location_label.as_str()),
        planned_use_on,
        execution_mode,
        assets: normalize_assets(assets),
        corrections: sort_stable(corrections),
    };
    let PlannedTestPreparationVerdict { ready, checked_on, issues } = verdict;
    let verdict = PlannedTestPreparationVerdict {
        ready,
        checked_on,
        issues: sort_readiness_issues(issues),
    };
    PlannedTestPreparationDefinition {
        definition_schema_version,
        schedule,
        method,
        station_setup,
        assignments: sort_stable(assignments),
        verdict,
    }
}

impl PlannedTestPreparationDefinition {
    /// The preparation in normal form, ready to be written canonically (see
    /// `normal_form_of`); a preparation with defects is refused with them.
    pub fn into_normal_form(self) -> (r: Result<Self, Vec<PlannedTestPreparationValidationIssue>>)
        ensures
            integrity_issues(self).len() > 0 ==> (r matches Err(e) && validation_view(e@)
                == integrity_issues(self)),
            integrity_issues(self).len() == 0 ==> (r matches Ok(n) && normal_form_of(n, self)),
    {
        let issues = self.validate_integrity();
        if issues.len() > 0 {
            return Err(issues);
        }
        Ok(normalize_definition(self))
    }
}

} // verus!
