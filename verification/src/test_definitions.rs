//! Test template definitions: measurement axes, variables, the instrumentation
//! chain, the execution sequence and limits.

use crate::text::{
    concat, decimal_text, is_ascii_alphanumeric_char, is_whitespace, is_whitespace_char,
    lemma_text_lt_irreflexive, lemma_text_lt_total, lemma_text_lt_transitive, push_decimal, str_eq,
    str_lt, text_lt, trim, trim_seq,
};
use vstd::prelude::*;

verus! {

/// The schema of test template definitions.
pub const TEST_TEMPLATE_DEFINITION_SCHEMA_VERSION: &'static str = "emc-locus.test-template-definition.v1";

#[derive(Clone, Copy, Debug, PartialEq, Eq, Structural)]
pub enum MeasurementAxis {
    FrequencySweep,
    TimeSeries,
    EventTriggered,
    MixedTimeFrequency,
}

#[derive(Clone, Copy, Debug, PartialEq, Eq, Structural)]
pub enum VariableValueType {
    Number,
    Integer,
    Boolean,
    Text,
    Enum,
}

#[derive(Clone, Copy, Debug, PartialEq, Eq, Structural)]
pub enum VariableLockPolicyKind {
    EditableUntilCampaignFreeze,
    EditableUntilExecution,
    AdminOnly,
    InvestigationOnly,
    Immutable,
}

/// How a variable may be changed.
#[derive(Clone, Debug, PartialEq, Eq)]
pub struct VariableLockPolicy {
    pub variable_id: String,
    pub policy: VariableLockPolicyKind,
}

#[derive(Clone, Copy, Debug, PartialEq, Eq, Structural)]
pub enum CalibrationRequirement {
    Required,
    NotRequired,
    IfUsed,
}

#[derive(Clone, Copy, Debug, PartialEq, Eq, Structural)]
pub enum InstrumentSubstitutionPolicy {
    NoSubstitution,
    SameCategory,
    SameCapability,
    ApprovedEquivalent,
}

/// A role of the instrumentation chain that a test method needs filled.
#[derive(Clone, Debug, PartialEq, Eq)]
pub struct InstrumentationChainSlot {
    pub slot_id: String,
    pub label: String,
    pub required_category: Option<String>,
    pub required_capability: Option<String>,
    pub required: bool,
    pub calibration_requirement: CalibrationRequirement,
    pub substitution_policy: InstrumentSubstitutionPolicy,
    pub depends_on_slots: Vec<String>,
}

#[derive(Clone, Copy, Debug, PartialEq, Eq, Structural)]
pub enum ExecutionStepKind {
    Prepare,
    ConfigureInstrument,
    Acquire,
    OperatorDecision,
    PostProcess,
    Verify,
    Finish,
}

/// A conditional jump of the execution sequence.
#[derive(Clone, Debug, PartialEq, Eq)]
pub struct BranchRule {
    pub rule_id: String,
    pub condition: String,
    pub destination_step_id: String,
    pub allow_cycle: bool,
}

/// One step of the execution sequence.
#[derive(Clone, Debug, PartialEq, Eq)]
pub struct ExecutionSequenceStep {
    pub step_id: String,
    pub order: u32,
    pub kind: ExecutionStepKind,
    pub label: String,
    pub instruction: Option<String>,
    pub required_slots: Vec<String>,
    pub branches: Vec<BranchRule>,
}

#[derive(Clone, Copy, Debug, PartialEq, Eq, Structural)]
pub enum LimitKind {
    TimeLimit,
    FrequencyLimit,
    ScalarThreshold,
}

#[derive(Clone, Copy, Debug, PartialEq, Eq, Structural)]
pub enum PostProcessingOperationType {
    Correction,
    Fft,
    Windowing,
    Resampling,
    HarmonicCalculation,
    EventCounting,
    ChannelMath,
    Peak,
    Custom,
}

#[derive(Clone, Copy, Debug, PartialEq, Eq, Structural)]
pub enum TemplateRevisionStatus {
    Draft,
    UnderReview,
    Approved,
    Suspended,
    Superseded,
    Retired,
}

/// A template definition in canonical form, with its checksum.
#[derive(Clone, Debug, PartialEq, Eq)]
pub struct CanonicalTestTemplateDefinition {
    pub definition_schema_version: String,
    pub canonical_json: String,
    pub definition_checksum: String,
}

// ---------------------------------------------------------------------------
// Checks of a test template: the first defect found is the answer
// ---------------------------------------------------------------------------

/// The first defect found in a test template: a stable code and a message.
#[derive(Clone, Debug, PartialEq, Eq)]
pub struct TestTemplateValidationError {
    pub code: &'static str,
    pub message: String,
}

pub struct TemplateErrorView {
    pub code: Seq<char>,
    pub message: Seq<char>,
}

impl View for TestTemplateValidationError {
    type V = TemplateErrorView;

    open spec fn view(&self) -> TemplateErrorView {
        TemplateErrorView { code: self.code@, message: self.message@ }
    }
}

pub open spec fn template_error(code: &str, message: Seq<char>) -> TemplateErrorView {
    TemplateErrorView { code: code@, message }
}

/// The defect a check returns, as a value: `None` for success.
pub open spec fn outcome<T>(r: Result<T, TestTemplateValidationError>) -> Option<TemplateErrorView> {
    match r {
        Ok(_) => None,
        Err(e) => Some(e@),
    }
}

/// The first of two checks that fails.
pub open spec fn first_of(a: Option<TemplateErrorView>, b: Option<TemplateErrorView>) -> Option<
    TemplateErrorView,
> {
    if a is Some {
        a
    } else {
        b
    }
}

impl TestTemplateValidationError {
    /// A defect with its code and message.
    pub fn new(code: &'static str, message: String) -> (r: Self)
        ensures
            r@ == template_error(code, message@),
    {
        TestTemplateValidationError { code, message }
    }
}

/// A character of a stable token: ASCII letters and digits, `-`, `_`, `.` and `:`.
pub open spec fn is_token_char(c: char) -> bool {
    is_ascii_alphanumeric_char(c) || c == '-' || c == '_' || c == '.' || c == ':'
}

/// The defect of a value that must be a stable token: blank once trimmed, or with a
/// character that a token may not hold.
pub open spec fn token_error(value: Seq<char>, field: Seq<char>) -> Option<TemplateErrorView> {
    let t = trim_seq(value);
    if t.len() == 0 {
        Some(template_error("empty_token", field + " is required"@))
    } else if !(forall|i: int| 0 <= i < t.len() ==> is_token_char(#[trigger] t[i])) {
        Some(template_error("invalid_token", field + " must be a stable ASCII token: "@ + t))
    } else {
        None
    }
}

/// The defect of a text that must not be blank.
pub open spec fn text_error(value: Seq<char>, field: Seq<char>) -> Option<TemplateErrorView> {
    if trim_seq(value).len() == 0 {
        Some(template_error("empty_text", field + " is required"@))
    } else {
        None
    }
}

/// The defect of a signal reference: blank, or holding whitespace.
pub open spec fn signal_reference_error(value: Seq<char>, field: Seq<char>) -> Option<
    TemplateErrorView,
> {
    if text_error(value, field) is Some {
        text_error(value, field)
    } else if exists|i: int| 0 <= i < value.len() && is_whitespace_char(#[trigger] value[i]) {
        Some(
            template_error(
                "invalid_signal_reference",
                field + " must not contain whitespace: "@ + value,
            ),
        )
    } else {
        None
    }
}

fn token_characters(t: &str) -> (b: bool)
    ensures
        b == (forall|i: int| 0 <= i < t@.len() ==> is_token_char(#[trigger] t@[i])),
{
    let n = t.unicode_len();
    let mut i: usize = 0;
    while i < n
        invariant
            n == t@.len(),
            i <= n,
            forall|k: int| 0 <= k < i ==> is_token_char(#[trigger] t@[k]),
        decreases n - i,
    {
        let c = t.get_char(i);
        if !(('0' <= c && c <= '9') || ('a' <= c && c <= 'z') || ('A' <= c && c <= 'Z') || c == '-'
            || c == '_' || c == '.' || c == ':') {
            assert(!is_token_char(t@[i as int]));
            return false;
        }
        i = i + 1;
    }
    true
}

/// Requires a stable token.
pub fn require_token(value: &str, field: &'static str) -> (r: Result<(), TestTemplateValidationError>)
    ensures
        outcome(r) == token_error(value@, field@),
{
    let trimmed = trim(value);
    if trimmed.as_str().unicode_len() == 0 {
        return Err(TestTemplateValidationError::new("empty_token", concat(field, " is required")));
    }
    if !token_characters(trimmed.as_str()) {
        let head = concat(field, " must be a stable ASCII token: ");
        return Err(
            TestTemplateValidationError::new("invalid_token", concat(head.as_str(), trimmed.as_str())),
        );
    }
    Ok(())
}

/// Requires a text that is not blank.
pub fn require_text(value: &str, field: &'static str) -> (r: Result<(), TestTemplateValidationError>)
    ensures
        outcome(r) == text_error(value@, field@),
{
    let trimmed = trim(value);
    if trimmed.as_str().unicode_len() == 0 {
        return Err(TestTemplateValidationError::new("empty_text", concat(field, " is required")));
    }
    Ok(())
}

fn contains_whitespace(value: &str) -> (b: bool)
    ensures
        b == (exists|i: int| 0 <= i < value@.len() && is_whitespace_char(#[trigger] value@[i])),
{
    let n = value.unicode_len();
    let mut i: usize = 0;
    while i < n
        invariant
            n == value@.len(),
            i <= n,
            forall|k: int| 0 <= k < i ==> !is_whitespace_char(#[trigger] value@[k]),
        decreases n - i,
    {
        if is_whitespace(value.get_char(i)) {
            return true;
        }
        i = i + 1;
    }
    false
}

/// Requires a signal reference: a text without whitespace.
pub fn require_signal_reference(value: &str, field: &'static str) -> (r: Result<
    (),
    TestTemplateValidationError,
>)
    ensures
        outcome(r) == signal_reference_error(value@, field@),
{
    match require_text(value, field) {
        Err(e) => {
            return Err(e);
        },
        Ok(()) => {},
    }
    if contains_whitespace(value) {
        let head = concat(field, " must not contain whitespace: ");
        return Err(TestTemplateValidationError::new("invalid_signal_reference", concat(head.as_str(), value)));
    }
    Ok(())
}

/// Whether the list holds the text.
pub open spec fn lists(ids: Seq<String>, id: Seq<char>) -> bool {
    exists|j: int| 0 <= j < ids.len() && (#[trigger] ids[j])@ == id
}

fn listed(ids: &[String], id: &str) -> (b: bool)
    ensures
        b == lists(ids@, id@),
{
    let mut j: usize = 0;
    while j < ids.len()
        invariant
            j <= ids@.len(),
            forall|k: int| 0 <= k < j ==> (#[trigger] ids@[k])@ != id@,
        decreases ids@.len() - j,
    {
        if str_eq(ids[j].as_str(), id) {
            return true;
        }
        j = j + 1;
    }
    false
}

/// The defect of the lock policy at `k`: its variable must be a token naming a known
/// variable, and no earlier policy may name it.
pub open spec fn lock_policy_error_at(
    policies: Seq<VariableLockPolicy>,
    variable_ids: Seq<String>,
    k: int,
) -> Option<TemplateErrorView> {
    let v = policies[k].variable_id@;
    if token_error(v, "lock_policy.variable_id"@) is Some {
        token_error(v, "lock_policy.variable_id"@)
    } else if !lists(variable_ids, v) {
        Some(template_error("unknown_lock_variable", "lock policy references unknown variable: "@ + v))
    } else if exists|j: int| 0 <= j < k && (#[trigger] policies[j]).variable_id@ == v {
        Some(template_error("duplicate_lock_policy", "duplicate lock policy for variable: "@ + v))
    } else {
        None
    }
}

/// The first defect among the first `n` lock policies.
pub open spec fn lock_policy_error(
    policies: Seq<VariableLockPolicy>,
    variable_ids: Seq<String>,
    n: nat,
) -> Option<TemplateErrorView> {
    first_error(|k: int| lock_policy_error_at(policies, variable_ids, k), n)
}

/// Checks the lock policies against the declared variables.
pub fn validate_lock_policy(policies: &[VariableLockPolicy], variable_ids: &[String]) -> (r: Result<
    (),
    TestTemplateValidationError,
>)
    ensures
        outcome(r) == lock_policy_error(policies@, variable_ids@, policies@.len()),
{
    let mut k: usize = 0;
    while k < policies.len()
        invariant
            k <= policies@.len(),
            lock_policy_error(policies@, variable_ids@, k as nat) is None,
        decreases policies@.len() - k,
    {
        let v = policies[k].variable_id.as_str();
        match require_token(v, "lock_policy.variable_id") {
            Err(e) => {
                proof {
                    lemma_first_error_stays(
                        |i: int| lock_policy_error_at(policies@, variable_ids@, i),
                        (k + 1) as nat,
                        policies@.len(),
                    );
                }
                return Err(e);
            },
            Ok(()) => {},
        }
        if !listed(variable_ids, v) {
            proof {
                lemma_first_error_stays(
                    |i: int| lock_policy_error_at(policies@, variable_ids@, i),
                    (k + 1) as nat,
                    policies@.len(),
                );
            }
            return Err(
                TestTemplateValidationError::new(
                    "unknown_lock_variable",
                    concat("lock policy references unknown variable: ", v),
                ),
            );
        }
        let mut j: usize = 0;
        while j < k
            invariant
                j <= k < policies@.len(),
                v@ == policies@[k as int].variable_id@,
                token_error(v@, "lock_policy.variable_id"@) is None,
                lists(variable_ids@, v@),
                lock_policy_error(policies@, variable_ids@, k as nat) is None,
                forall|i: int| 0 <= i < j ==> (#[trigger] policies@[i]).variable_id@ != v@,
            decreases k - j,
        {
            if str_eq(policies[j].variable_id.as_str(), v) {
                proof {
                    assert(policies@[j as int].variable_id@ == v@);
                    lemma_first_error_stays(
                        |i: int| lock_policy_error_at(policies@, variable_ids@, i),
                        (k + 1) as nat,
                        policies@.len(),
                    );
                }
                return Err(
                    TestTemplateValidationError::new(
                        "duplicate_lock_policy",
                        concat("duplicate lock policy for variable: ", v),
                    ),
                );
            }
            j = j + 1;
        }
        k = k + 1;
    }
    Ok(())
}

/// The first defect among the checks `0..n`, taken in order.
pub open spec fn first_error(check: spec_fn(int) -> Option<TemplateErrorView>, n: nat) -> Option<
    TemplateErrorView,
>
    decreases n,
{
    if n == 0 {
        None
    } else {
        first_of(first_error(check, (n - 1) as nat), check(n - 1))
    }
}

/// Once a prefix of checks has a defect, every longer prefix reports the same one.
proof fn lemma_first_error_stays(check: spec_fn(int) -> Option<TemplateErrorView>, n: nat, m: nat)
    requires
        n <= m,
        first_error(check, n) is Some,
    ensures
        first_error(check, m) == first_error(check, n),
    decreases m - n,
{
    if m > n {
        lemma_first_error_stays(check, n, (m - 1) as nat);
    }
}

/// A requirement that is given and not blank once trimmed.
pub open spec fn stated(requirement: Option<String>) -> bool {
    match requirement {
        Some(t) => trim_seq(t@).len() > 0,
        None => false,
    }
}

/// The defect of the slot at `k` on its own: its identity and label, an identity that
/// repeats an earlier slot's, or neither a category nor a capability to match.
pub open spec fn slot_error_at(slots: Seq<InstrumentationChainSlot>, k: int) -> Option<
    TemplateErrorView,
> {
    let id = slots[k].slot_id@;
    if token_error(id, "slot_id"@) is Some {
        token_error(id, "slot_id"@)
    } else if text_error(slots[k].label@, "slot_label"@) is Some {
        text_error(slots[k].label@, "slot_label"@)
    } else if exists|j: int| 0 <= j < k && (#[trigger] slots[j]).slot_id@ == id {
        Some(template_error("duplicate_slot_id", "duplicate instrumentation slot: "@ + id))
    } else if !stated(slots[k].required_category) && !stated(slots[k].required_capability) {
        Some(
            template_error(
                "missing_slot_requirement",
                "instrumentation slot requires category or capability: "@ + id,
            ),
        )
    } else {
        None
    }
}

/// The identities of the slots.
pub open spec fn slot_ids(slots: Seq<InstrumentationChainSlot>) -> Seq<Seq<char>> {
    slots.map_values(|s: InstrumentationChainSlot| s.slot_id@)
}

/// The identities of the slots, as texts of the library.
pub open spec fn slot_id_list(slots: Seq<InstrumentationChainSlot>) -> Seq<String> {
    slots.map_values(|s: InstrumentationChainSlot| s.slot_id)
}

/// The defect of the dependency at `e` of the slot at `k`: a slot that does not exist,
/// or the slot itself.
pub open spec fn dependency_error_at(slots: Seq<InstrumentationChainSlot>, k: int, e: int) -> Option<
    TemplateErrorView,
> {
    let d = slots[k].depends_on_slots[e]@;
    if !slot_ids(slots).contains(d) {
        Some(template_error("unknown_slot_reference", "instrumentation slot references unknown slot: "@ + d))
    } else if d == slots[k].slot_id@ {
        Some(
            template_error(
                "self_slot_reference",
                "instrumentation slot depends on itself: "@ + slots[k].slot_id@,
            ),
        )
    } else {
        None
    }
}

/// The first defect among the dependencies of the slot at `k`.
pub open spec fn slot_dependencies_error(slots: Seq<InstrumentationChainSlot>, k: int) -> Option<
    TemplateErrorView,
> {
    first_error(|e: int| dependency_error_at(slots, k, e), slots[k].depends_on_slots@.len())
}

/// The first defect of an instrumentation chain: the slots one by one, then the
/// dependencies of each slot in turn.
pub open spec fn chain_error(slots: Seq<InstrumentationChainSlot>) -> Option<TemplateErrorView> {
    first_of(
        first_error(|k: int| slot_error_at(slots, k), slots.len()),
        first_error(|k: int| slot_dependencies_error(slots, k), slots.len()),
    )
}

fn stated_requirement(requirement: &Option<String>) -> (b: bool)
    ensures
        b == stated(*requirement),
{
    match requirement {
        Some(t) => trim(t.as_str()).as_str().unicode_len() > 0,
        None => false,
    }
}

/// Checks the instrumentation chain; on success, the identities of its slots in order.
pub fn validate_instrumentation_chain(slots: &[InstrumentationChainSlot]) -> (r: Result<
    Vec<String>,
    TestTemplateValidationError,
>)
    ensures
        outcome(r) == chain_error(slots@),
        r matches Ok(ids) ==> ids@ == slot_id_list(slots@),
{
    let ghost own = |k: int| slot_error_at(slots@, k);
    let ghost deps = |k: int| slot_dependencies_error(slots@, k);
    let mut ids: Vec<String> = Vec::new();
    let mut k: usize = 0;
    while k < slots.len()
        invariant
            k <= slots@.len(),
            own == (|k: int| slot_error_at(slots@, k)),
            first_error(own, k as nat) is None,
            ids@ == slot_id_list(slots@).take(k as int),
        decreases slots@.len() - k,
    {
        let slot = &slots[k];
        let id = slot.slot_id.as_str();
        let mut found: Option<TestTemplateValidationError> = None;
        match require_token(id, "slot_id") {
            Err(e) => {
                found = Some(e);
            },
            Ok(()) => {},
        }
        if found.is_none() {
            match require_text(slot.label.as_str(), "slot_label") {
                Err(e) => {
                    found = Some(e);
                },
                Ok(()) => {},
            }
        }
        if found.is_none() {
            let mut j: usize = 0;
            let mut repeated = false;
            while j < k
                invariant
                    j <= k < slots@.len(),
                    id@ == slots@[k as int].slot_id@,
                    !repeated ==> forall|i: int| 0 <= i < j ==> (#[trigger] slots@[i]).slot_id@ != id@,
                    repeated ==> exists|i: int| 0 <= i < k && (#[trigger] slots@[i]).slot_id@ == id@,
                decreases k - j,
            {
                if !repeated && str_eq(slots[j].slot_id.as_str(), id) {
                    repeated = true;
                }
                j = j + 1;
            }
            if repeated {
                found = Some(
                    TestTemplateValidationError::new(
                        "duplicate_slot_id",
                        concat("duplicate instrumentation slot: ", id),
                    ),
                );
            } else if !stated_requirement(&slot.required_category) && !stated_requirement(
                &slot.required_capability,
            ) {
                found = Some(
                    TestTemplateValidationError::new(
                        "missing_slot_requirement",
                        concat("instrumentation slot requires category or capability: ", id),
                    ),
                );
            }
        }
        assert(own(k as int) == slot_error_at(slots@, k as int));
        match found {
            Some(e) => {
                proof {
                    assert(own(k as int) == Some(e@));
                    assert(first_error(own, (k + 1) as nat) == Some(e@));
                    lemma_first_error_stays(own, (k + 1) as nat, slots@.len());
                }
                return Err(e);
            },
            None => {},
        }
        ids.push(slot.slot_id.clone());
        assert(ids@ =~= slot_id_list(slots@).take(k + 1));
        k = k + 1;
    }
    assert(slot_id_list(slots@).take(k as int) =~= slot_id_list(slots@));
    let mut k: usize = 0;
    while k < slots.len()
        invariant
            k <= slots@.len(),
            own == (|k: int| slot_error_at(slots@, k)),
            deps == (|k: int| slot_dependencies_error(slots@, k)),
            first_error(own, slots@.len()) is None,
            first_error(deps, k as nat) is None,
            ids@ == slot_id_list(slots@),
        decreases slots@.len() - k,
    {
        let slot = &slots[k];
        let ghost dep = |e: int| dependency_error_at(slots@, k as int, e);
        let mut e: usize = 0;
        while e < slot.depends_on_slots.len()
            invariant
                k < slots@.len(),
                *slot == slots@[k as int],
                e <= slot.depends_on_slots@.len(),
                dep == (|e: int| dependency_error_at(slots@, k as int, e)),
                deps == (|k: int| slot_dependencies_error(slots@, k)),
                first_error(deps, k as nat) is None,
                own == (|k: int| slot_error_at(slots@, k)),
                first_error(own, slots@.len()) is None,
                ids@ == slot_id_list(slots@),
                first_error(dep, e as nat) is None,
            decreases slot.depends_on_slots@.len() - e,
        {
            let d = slot.depends_on_slots[e].as_str();
            let mut found: Option<TestTemplateValidationError> = None;
            let known = listed(&ids, d);
            proof {
                if known {
                    let j = choose|j: int| 0 <= j < ids@.len() && (#[trigger] ids@[j])@ == d@;
                    assert(slot_ids(slots@)[j] == d@);
                }
                if slot_ids(slots@).contains(d@) {
                    let j = choose|j: int| 0 <= j < slot_ids(slots@).len() && slot_ids(slots@)[j] == d@;
                    assert(ids@[j]@ == d@);
                }
            }
            if !known {
                found = Some(
                    TestTemplateValidationError::new(
                        "unknown_slot_reference",
                        concat("instrumentation slot references unknown slot: ", d),
                    ),
                );
            } else if str_eq(d, slot.slot_id.as_str()) {
                found = Some(
                    TestTemplateValidationError::new(
                        "self_slot_reference",
                        concat("instrumentation slot depends on itself: ", slot.slot_id.as_str()),
                    ),
                );
            }
            match found {
                Some(err) => {
                    proof {
                        assert(dep(e as int) == Some(err@));
                        assert(first_error(dep, (e + 1) as nat) == Some(err@));
                        lemma_first_error_stays(dep, (e + 1) as nat, slot.depends_on_slots@.len());
                        assert(deps(k as int) == slot_dependencies_error(slots@, k as int));
                        assert(slot_dependencies_error(slots@, k as int) == first_error(
                            |e: int| dependency_error_at(slots@, k as int, e),
                            slots@[k as int].depends_on_slots@.len(),
                        ));
                        assert(dep =~= (|e: int| dependency_error_at(slots@, k as int, e)));
                        assert(deps(k as int) == first_error(dep, slot.depends_on_slots@.len()));
                        assert(first_error(deps, (k + 1) as nat) == Some(err@));
                        lemma_first_error_stays(deps, (k + 1) as nat, slots@.len());
                        assert(own =~= (|k: int| slot_error_at(slots@, k)));
                        assert(deps =~= (|k: int| slot_dependencies_error(slots@, k)));
                    }
                    return Err(err);
                },
                None => {},
            }
            e = e + 1;
        }
        assert(dep =~= (|e: int| dependency_error_at(slots@, k as int, e)));
        assert(deps(k as int) == first_error(dep, slot.depends_on_slots@.len()));
        k = k + 1;
    }
    Ok(ids)
}

/// The defect of the branch at `b` of a step: its rule, condition and destination,
/// and a rule that repeats an earlier branch's of the same step.
pub open spec fn branch_error_at(branches: Seq<BranchRule>, b: int) -> Option<TemplateErrorView> {
    let rule = branches[b].rule_id@;
    if token_error(rule, "branch_rule_id"@) is Some {
        token_error(rule, "branch_rule_id"@)
    } else if text_error(branches[b].condition@, "branch_condition"@) is Some {
        text_error(branches[b].condition@, "branch_condition"@)
    } else if token_error(branches[b].destination_step_id@, "branch_destination_step_id"@) is Some {
        token_error(branches[b].destination_step_id@, "branch_destination_step_id"@)
    } else if exists|j: int| 0 <= j < b && (#[trigger] branches[j]).rule_id@ == rule {
        Some(template_error("duplicate_branch_rule_id", "duplicate branch rule: "@ + rule))
    } else {
        None
    }
}

/// The defect of a slot that a step requires but the chain does not declare.
pub open spec fn step_slot_error_at(required: Seq<String>, slot_ids: Seq<String>, e: int) -> Option<
    TemplateErrorView,
> {
    if !lists(slot_ids, required[e]@) {
        Some(
            template_error(
                "unknown_step_slot_reference",
                "sequence step references unknown slot: "@ + required[e]@,
            ),
        )
    } else {
        None
    }
}

/// The defect of the step at `k` on its own: identity, label, an identity or order
/// that repeats an earlier step's, an undeclared slot, then its branches.
pub open spec fn step_error_at(steps: Seq<ExecutionSequenceStep>, slot_ids: Seq<String>, k: int) -> Option<
    TemplateErrorView,
> {
    let step = steps[k];
    let id = step.step_id@;
    if token_error(id, "step_id"@) is Some {
        token_error(id, "step_id"@)
    } else if text_error(step.label@, "step_label"@) is Some {
        text_error(step.label@, "step_label"@)
    } else if exists|j: int| 0 <= j < k && (#[trigger] steps[j]).step_id@ == id {
        Some(template_error("duplicate_step_id", "duplicate sequence step: "@ + id))
    } else if exists|j: int| 0 <= j < k && (#[trigger] steps[j]).order == step.order {
        Some(
            template_error(
                "duplicate_step_order",
                "duplicate sequence order: "@ + decimal_text(step.order as nat),
            ),
        )
    } else {
        first_of(
            first_error(
                |e: int| step_slot_error_at(step.required_slots@, slot_ids, e),
                step.required_slots@.len(),
            ),
            first_error(|b: int| branch_error_at(step.branches@, b), step.branches@.len()),
        )
    }
}

/// Whether a step has the identity.
pub open spec fn has_step(steps: Seq<ExecutionSequenceStep>, id: Seq<char>) -> bool {
    exists|j: int| 0 <= j < steps.len() && (#[trigger] steps[j]).step_id@ == id
}

/// The order of the step with the identity.
pub open spec fn order_of(steps: Seq<ExecutionSequenceStep>, id: Seq<char>) -> u32 {
    steps[choose|j: int| 0 <= j < steps.len() && (#[trigger] steps[j]).step_id@ == id].order
}

/// The defect of the branch at `b` of the step at `k` within the sequence: a destination
/// that is not a step, or a jump back (to a step whose order is not after this one's)
/// that does not declare the cycle.
pub open spec fn branch_target_error_at(steps: Seq<ExecutionSequenceStep>, k: int, b: int) -> Option<
    TemplateErrorView,
> {
    let branch = steps[k].branches@[b];
    let dest = branch.destination_step_id@;
    if !has_step(steps, dest) {
        Some(template_error("unknown_branch_destination", "branch references unknown destination: "@ + dest))
    } else if order_of(steps, dest) <= steps[k].order && !branch.allow_cycle {
        Some(
            template_error(
                "undeclared_sequence_cycle",
                "branch creates a cycle without allow_cycle: "@ + branch.rule_id@,
            ),
        )
    } else {
        None
    }
}

/// The first defect among the branch targets of the step at `k`.
pub open spec fn step_targets_error(steps: Seq<ExecutionSequenceStep>, k: int) -> Option<TemplateErrorView> {
    first_error(|b: int| branch_target_error_at(steps, k, b), steps[k].branches@.len())
}

/// Whether the step at `j` comes right after the step at `i` in order.
pub open spec fn next_in_order(steps: Seq<ExecutionSequenceStep>, i: int, j: int) -> bool {
    &&& steps[i].order < steps[j].order
    &&& forall|m: int|
        0 <= m < steps.len() ==> !(steps[i].order < #[trigger] steps[m].order && steps[m].order
            < steps[j].order)
}

/// Whether the sequence can move from the step at `i` to the step at `j`: to the next
/// step in order, or along a branch.
pub open spec fn moves_to(steps: Seq<ExecutionSequenceStep>, i: int, j: int) -> bool {
    next_in_order(steps, i, j) || exists|b: int|
        0 <= b < steps[i].branches@.len() && (#[trigger] steps[i].branches@[b]).destination_step_id@
            == steps[j].step_id@
}

/// Whether the step at `j` is reached from the step at `start` in at most `n` moves.
pub open spec fn reached_within(steps: Seq<ExecutionSequenceStep>, start: int, n: nat, j: int) -> bool
    decreases n,
{
    if n == 0 {
        j == start
    } else {
        reached_within(steps, start, (n - 1) as nat, j) || exists|i: int|
            0 <= i < steps.len() && reached_within(steps, start, (n - 1) as nat, i) && #[trigger] moves_to(steps, i, j)
    }
}

/// Whether the step at `j` is reached from the entry step: in at most as many moves as
/// there are steps, which a path of distinct steps never exceeds.
pub open spec fn reachable_from_entry(steps: Seq<ExecutionSequenceStep>, entry: Seq<char>, j: int) -> bool {
    let start = choose|s: int| 0 <= s < steps.len() && (#[trigger] steps[s]).step_id@ == entry;
    reached_within(steps, start, steps.len(), j)
}

/// A step that cannot be reached and whose identity comes first in text order among
/// those that cannot.
pub open spec fn first_unreachable(steps: Seq<ExecutionSequenceStep>, entry: Seq<char>, k: int) -> bool {
    &&& 0 <= k < steps.len()
    &&& !reachable_from_entry(steps, entry, k)
    &&& forall|j: int|
        0 <= j < steps.len() && !reachable_from_entry(steps, entry, j) ==> !text_lt(
            (#[trigger] steps[j]).step_id@,
            steps[k].step_id@,
        )
}

/// The first defect of an execution sequence: no step, the entry identity, each step
/// on its own, an entry that is not a step, the branch targets, and last the steps that
/// cannot be reached, the first in text order named.
pub open spec fn sequence_error(
    steps: Seq<ExecutionSequenceStep>,
    entry: Seq<char>,
    slot_ids: Seq<String>,
) -> Option<TemplateErrorView> {
    if steps.len() == 0 {
        Some(template_error("missing_sequence_steps", "at least one execution sequence step is required"@))
    } else if token_error(entry, "entry_step_id"@) is Some {
        token_error(entry, "entry_step_id"@)
    } else if first_error(|k: int| step_error_at(steps, slot_ids, k), steps.len()) is Some {
        first_error(|k: int| step_error_at(steps, slot_ids, k), steps.len())
    } else if !has_step(steps, entry) {
        Some(template_error("unknown_entry_step", "entry step does not exist: "@ + entry))
    } else if first_error(|k: int| step_targets_error(steps, k), steps.len()) is Some {
        first_error(|k: int| step_targets_error(steps, k), steps.len())
    } else if exists|k: int| 0 <= k < steps.len() && !reachable_from_entry(steps, entry, k) {
        let k = choose|k: int| first_unreachable(steps, entry, k);
        Some(template_error("unreachable_sequence_step", "sequence step is unreachable: "@ + steps[k].step_id@))
    } else {
        None
    }
}

/// A prefix of checks without a defect has none in any of its checks.
proof fn lemma_first_error_none(check: spec_fn(int) -> Option<TemplateErrorView>, n: nat)
    requires
        first_error(check, n) is None,
    ensures
        forall|k: int| 0 <= k < n ==> #[trigger] check(k) is None,
    decreases n,
{
    if n > 0 {
        lemma_first_error_none(check, (n - 1) as nat);
    }
}

fn rule_repeats(branches: &[BranchRule], b: usize) -> (r: bool)
    requires
        b < branches@.len(),
    ensures
        r == exists|j: int| 0 <= j < b && (#[trigger] branches@[j]).rule_id@ == branches@[b as int].rule_id@,
{
    let mut j: usize = 0;
    while j < b
        invariant
            j <= b < branches@.len(),
            forall|i: int| 0 <= i < j ==> (#[trigger] branches@[i]).rule_id@ != branches@[b as int].rule_id@,
        decreases b - j,
    {
        if str_eq(branches[j].rule_id.as_str(), branches[b].rule_id.as_str()) {
            assert(branches@[j as int].rule_id@ == branches@[b as int].rule_id@);
            return true;
        }
        j = j + 1;
    }
    false
}

fn check_branches(branches: &[BranchRule]) -> (r: Result<(), TestTemplateValidationError>)
    ensures
        outcome(r) == first_error(|b: int| branch_error_at(branches@, b), branches@.len()),
{
    let ghost f = |b: int| branch_error_at(branches@, b);
    let mut b: usize = 0;
    while b < branches.len()
        invariant
            b <= branches@.len(),
            f == (|b: int| branch_error_at(branches@, b)),
            first_error(f, b as nat) is None,
        decreases branches@.len() - b,
    {
        let branch = &branches[b];
        let mut found: Option<TestTemplateValidationError> = None;
        match require_token(branch.rule_id.as_str(), "branch_rule_id") {
            Err(e) => {
                found = Some(e);
            },
            Ok(()) => {},
        }
        if found.is_none() {
            match require_text(branch.condition.as_str(), "branch_condition") {
                Err(e) => {
                    found = Some(e);
                },
                Ok(()) => {},
            }
        }
        if found.is_none() {
            match require_token(branch.destination_step_id.as_str(), "branch_destination_step_id") {
                Err(e) => {
                    found = Some(e);
                },
                Ok(()) => {},
            }
        }
        if found.is_none() && rule_repeats(branches, b) {
            found = Some(
                TestTemplateValidationError::new(
                    "duplicate_branch_rule_id",
                    concat("duplicate branch rule: ", branch.rule_id.as_str()),
                ),
            );
        }
        assert(f(b as int) == outcome(match found { Some(e) => Err::<(), TestTemplateValidationError>(e), None => Ok(()) }));
        match found {
            Some(e) => {
                proof {
                    lemma_first_error_stays(f, (b + 1) as nat, branches@.len());
                    assert(f =~= (|b: int| branch_error_at(branches@, b)));
                }
                return Err(e);
            },
            None => {},
        }
        b = b + 1;
    }
    assert(f =~= (|b: int| branch_error_at(branches@, b)));
    Ok(())
}

fn check_step_slots(required: &[String], slot_ids: &[String]) -> (r: Result<(), TestTemplateValidationError>)
    ensures
        outcome(r) == first_error(|e: int| step_slot_error_at(required@, slot_ids@, e), required@.len()),
{
    let ghost f = |e: int| step_slot_error_at(required@, slot_ids@, e);
    let mut e: usize = 0;
    while e < required.len()
        invariant
            e <= required@.len(),
            f == (|e: int| step_slot_error_at(required@, slot_ids@, e)),
            first_error(f, e as nat) is None,
        decreases required@.len() - e,
    {
        if !listed(slot_ids, required[e].as_str()) {
            let err = TestTemplateValidationError::new(
                "unknown_step_slot_reference",
                concat("sequence step references unknown slot: ", required[e].as_str()),
            );
            proof {
                assert(f(e as int) == Some(err@));
                lemma_first_error_stays(f, (e + 1) as nat, required@.len());
                assert(f =~= (|e: int| step_slot_error_at(required@, slot_ids@, e)));
            }
            return Err(err);
        }
        e = e + 1;
    }
    assert(f =~= (|e: int| step_slot_error_at(required@, slot_ids@, e)));
    Ok(())
}

fn step_id_repeats(steps: &[ExecutionSequenceStep], k: usize) -> (r: bool)
    requires
        k < steps@.len(),
    ensures
        r == exists|j: int| 0 <= j < k && (#[trigger] steps@[j]).step_id@ == steps@[k as int].step_id@,
{
    let mut j: usize = 0;
    while j < k
        invariant
            j <= k < steps@.len(),
            forall|i: int| 0 <= i < j ==> (#[trigger] steps@[i]).step_id@ != steps@[k as int].step_id@,
        decreases k - j,
    {
        if str_eq(steps[j].step_id.as_str(), steps[k].step_id.as_str()) {
            assert(steps@[j as int].step_id@ == steps@[k as int].step_id@);
            return true;
        }
        j = j + 1;
    }
    false
}

fn step_order_repeats(steps: &[ExecutionSequenceStep], k: usize) -> (r: bool)
    requires
        k < steps@.len(),
    ensures
        r == exists|j: int| 0 <= j < k && (#[trigger] steps@[j]).order == steps@[k as int].order,
{
    let mut j: usize = 0;
    while j < k
        invariant
            j <= k < steps@.len(),
            forall|i: int| 0 <= i < j ==> (#[trigger] steps@[i]).order != steps@[k as int].order,
        decreases k - j,
    {
        if steps[j].order == steps[k].order {
            assert(steps@[j as int].order == steps@[k as int].order);
            return true;
        }
        j = j + 1;
    }
    false
}

fn check_step(steps: &[ExecutionSequenceStep], slot_ids: &[String], k: usize) -> (r: Result<
    (),
    TestTemplateValidationError,
>)
    requires
        k < steps@.len(),
    ensures
        outcome(r) == step_error_at(steps@, slot_ids@, k as int),
{
    let step = &steps[k];
    match require_token(step.step_id.as_str(), "step_id") {
        Err(e) => {
            return Err(e);
        },
        Ok(()) => {},
    }
    match require_text(step.label.as_str(), "step_label") {
        Err(e) => {
            return Err(e);
        },
        Ok(()) => {},
    }
    if step_id_repeats(steps, k) {
        return Err(
            TestTemplateValidationError::new(
                "duplicate_step_id",
                concat("duplicate sequence step: ", step.step_id.as_str()),
            ),
        );
    }
    if step_order_repeats(steps, k) {
        let mut message = "duplicate sequence order: ".to_owned();
        push_decimal(&mut message, step.order as usize);
        return Err(TestTemplateValidationError::new("duplicate_step_order", message));
    }
    match check_step_slots(step.required_slots.as_slice(), slot_ids) {
        Err(e) => {
            return Err(e);
        },
        Ok(()) => {},
    }
    check_branches(step.branches.as_slice())
}

fn step_position(steps: &[ExecutionSequenceStep], id: &str) -> (r: Option<usize>)
    ensures
        match r {
            Some(j) => j < steps@.len() && steps@[j as int].step_id@ == id@,
            None => !has_step(steps@, id@),
        },
{
    let mut j: usize = 0;
    while j < steps.len()
        invariant
            j <= steps@.len(),
            forall|i: int| 0 <= i < j ==> (#[trigger] steps@[i]).step_id@ != id@,
        decreases steps@.len() - j,
    {
        if str_eq(steps[j].step_id.as_str(), id) {
            return Some(j);
        }
        j = j + 1;
    }
    None
}

/// Distinct steps have distinct identities.
pub open spec fn distinct_step_ids(steps: Seq<ExecutionSequenceStep>) -> bool {
    forall|i: int, j: int|
        0 <= i < steps.len() && 0 <= j < steps.len() && i != j ==> (#[trigger] steps[i]).step_id@
            != (#[trigger] steps[j]).step_id@
}

fn check_targets(steps: &[ExecutionSequenceStep], k: usize) -> (r: Result<(), TestTemplateValidationError>)
    requires
        k < steps@.len(),
        distinct_step_ids(steps@),
    ensures
        outcome(r) == step_targets_error(steps@, k as int),
{
    let ghost f = |b: int| branch_target_error_at(steps@, k as int, b);
    let branches = steps[k].branches.as_slice();
    let mut b: usize = 0;
    while b < branches.len()
        invariant
            k < steps@.len(),
            distinct_step_ids(steps@),
            branches@ == steps@[k as int].branches@,
            b <= branches@.len(),
            f == (|b: int| branch_target_error_at(steps@, k as int, b)),
            first_error(f, b as nat) is None,
        decreases branches@.len() - b,
    {
        let branch = &branches[b];
        let mut found: Option<TestTemplateValidationError> = None;
        match step_position(steps, branch.destination_step_id.as_str()) {
            None => {
                found = Some(
                    TestTemplateValidationError::new(
                        "unknown_branch_destination",
                        concat("branch references unknown destination: ", branch.destination_step_id.as_str()),
                    ),
                );
            },
            Some(j) => {
                proof {
                    let d = branch.destination_step_id@;
                    let c = choose|i: int| 0 <= i < steps@.len() && (#[trigger] steps@[i]).step_id@ == d;
                    assert(0 <= c < steps@.len() && steps@[c].step_id@ == d);
                    assert(c == j);
                }
                if steps[j].order <= steps[k].order && !branch.allow_cycle {
                    found = Some(
                        TestTemplateValidationError::new(
                            "undeclared_sequence_cycle",
                            concat("branch creates a cycle without allow_cycle: ", branch.rule_id.as_str()),
                        ),
                    );
                }
            },
        }
        assert(f(b as int) == outcome(match found { Some(e) => Err::<(), TestTemplateValidationError>(e), None => Ok(()) }));
        match found {
            Some(e) => {
                proof {
                    lemma_first_error_stays(f, (b + 1) as nat, branches@.len());
                    assert(f =~= (|b: int| branch_target_error_at(steps@, k as int, b)));
                }
                return Err(e);
            },
            None => {},
        }
        b = b + 1;
    }
    assert(f =~= (|b: int| branch_target_error_at(steps@, k as int, b)));
    Ok(())
}

fn follows_in_order(steps: &[ExecutionSequenceStep], i: usize, j: usize) -> (r: bool)
    requires
        i < steps@.len(),
        j < steps@.len(),
    ensures
        r == next_in_order(steps@, i as int, j as int),
{
    let low = steps[i].order;
    let high = steps[j].order;
    if !(low < high) {
        return false;
    }
    let mut m: usize = 0;
    while m < steps.len()
        invariant
            i < steps@.len(),
            j < steps@.len(),
            low == steps@[i as int].order,
            high == steps@[j as int].order,
            m <= steps@.len(),
            forall|q: int|
                0 <= q < m ==> !(low < #[trigger] steps@[q].order && steps@[q].order < high),
        decreases steps@.len() - m,
    {
        if low < steps[m].order && steps[m].order < high {
            return false;
        }
        m = m + 1;
    }
    true
}

fn branches_to(steps: &[ExecutionSequenceStep], i: usize, j: usize) -> (r: bool)
    requires
        i < steps@.len(),
        j < steps@.len(),
    ensures
        r == exists|b: int|
            0 <= b < steps@[i as int].branches@.len()
                && (#[trigger] steps@[i as int].branches@[b]).destination_step_id@
                == steps@[j as int].step_id@,
{
    let branches = steps[i].branches.as_slice();
    let mut b: usize = 0;
    while b < branches.len()
        invariant
            i < steps@.len(),
            j < steps@.len(),
            branches@ == steps@[i as int].branches@,
            b <= branches@.len(),
            forall|q: int|
                0 <= q < b ==> (#[trigger] branches@[q]).destination_step_id@ != steps@[j as int].step_id@,
        decreases branches@.len() - b,
    {
        if str_eq(branches[b].destination_step_id.as_str(), steps[j].step_id.as_str()) {
            assert(steps@[i as int].branches@[b as int].destination_step_id@ == steps@[j as int].step_id@);
            return true;
        }
        b = b + 1;
    }
    false
}

fn moves(steps: &[ExecutionSequenceStep], i: usize, j: usize) -> (r: bool)
    requires
        i < steps@.len(),
        j < steps@.len(),
    ensures
        r == moves_to(steps@, i as int, j as int),
{
    follows_in_order(steps, i, j) || branches_to(steps, i, j)
}

/// The steps reached from the step at `start` in at most as many moves as there are steps.
fn reached_steps(steps: &[ExecutionSequenceStep], start: usize) -> (r: Vec<bool>)
    requires
        start < steps@.len(),
    ensures
        r@.len() == steps@.len(),
        forall|j: int| 0 <= j < steps@.len() ==> r@[j] == reached_within(steps@, start as int, steps@.len(), j),
{
    let n = steps.len();
    let mut current: Vec<bool> = Vec::new();
    let mut j: usize = 0;
    while j < n
        invariant
            n == steps@.len(),
            start < n,
            j <= n,
            current@.len() == j,
            forall|q: int| 0 <= q < j ==> current@[q] == reached_within(steps@, start as int, 0, q),
        decreases n - j,
    {
        current.push(j == start);
        j = j + 1;
    }
    let mut round: usize = 0;
    while round < n
        invariant
            n == steps@.len(),
            start < n,
            round <= n,
            current@.len() == n,
            forall|q: int| 0 <= q < n ==> current@[q] == reached_within(steps@, start as int, round as nat, q),
        decreases n - round,
    {
        let mut next: Vec<bool> = Vec::new();
        let mut j: usize = 0;
        while j < n
            invariant
                n == steps@.len(),
                start < n,
                round < n,
                current@.len() == n,
                forall|q: int| 0 <= q < n ==> current@[q] == reached_within(steps@, start as int, round as nat, q),
                j <= n,
                next@.len() == j,
                forall|q: int| 0 <= q < j ==> next@[q] == reached_within(steps@, start as int, (round + 1) as nat, q),
            decreases n - j,
        {
            let mut hit = current[j];
            let mut i: usize = 0;
            while i < n
                invariant
                    n == steps@.len(),
                    j < n,
                    current@.len() == n,
                    forall|q: int| 0 <= q < n ==> current@[q] == reached_within(steps@, start as int, round as nat, q),
                    i <= n,
                    hit == (reached_within(steps@, start as int, round as nat, j as int) || exists|p: int|
                        0 <= p < i && reached_within(steps@, start as int, round as nat, p) && #[trigger] moves_to(steps@, p, j as int)),
                decreases n - i,
            {
                if !hit && current[i] && moves(steps, i, j) {
                    hit = true;
                }
                i = i + 1;
            }
            next.push(hit);
            j = j + 1;
        }
        current = next;
        round = round + 1;
    }
    current
}

/// Checks the execution sequence: its steps, the entry step, the branch targets, and
/// that every step can be reached from the entry.
pub fn validate_sequence(
    steps: &[ExecutionSequenceStep],
    entry_step_id: &str,
    slot_ids: &[String],
) -> (r: Result<(), TestTemplateValidationError>)
    ensures
        outcome(r) == sequence_error(steps@, entry_step_id@, slot_ids@),
{
    let n = steps.len();
    if n == 0 {
        return Err(
            TestTemplateValidationError::new(
                "missing_sequence_steps",
                "at least one execution sequence step is required".to_owned(),
            ),
        );
    }
    match require_token(entry_step_id, "entry_step_id") {
        Err(e) => {
            return Err(e);
        },
        Ok(()) => {},
    }
    let ghost own = |k: int| step_error_at(steps@, slot_ids@, k);
    let mut k: usize = 0;
    while k < n
        invariant
            n == steps@.len(),
            k <= n,
            n > 0,
            token_error(entry_step_id@, "entry_step_id"@) is None,
            own == (|k: int| step_error_at(steps@, slot_ids@, k)),
            first_error(own, k as nat) is None,
        decreases n - k,
    {
        match check_step(steps, slot_ids, k) {
            Err(e) => {
                proof {
                    lemma_first_error_stays(own, (k + 1) as nat, n as nat);
                    assert(own =~= (|k: int| step_error_at(steps@, slot_ids@, k)));
                }
                return Err(e);
            },
            Ok(()) => {},
        }
        k = k + 1;
    }
    proof {
        assert(own =~= (|k: int| step_error_at(steps@, slot_ids@, k)));
        lemma_first_error_none(own, n as nat);
        assert forall|i: int, j: int|
            0 <= i < steps@.len() && 0 <= j < steps@.len() && i != j implies (#[trigger] steps@[i]).step_id@
            != (#[trigger] steps@[j]).step_id@ by {
            if i < j {
                assert(own(j) is None);
            } else {
                assert(own(i) is None);
            }
        }
    }
    let start = match step_position(steps, entry_step_id) {
        None => {
            return Err(
                TestTemplateValidationError::new(
                    "unknown_entry_step",
                    concat("entry step does not exist: ", entry_step_id),
                ),
            );
        },
        Some(s) => s,
    };
    let ghost targets = |k: int| step_targets_error(steps@, k);
    let mut k: usize = 0;
    while k < n
        invariant
            n == steps@.len(),
            k <= n,
            distinct_step_ids(steps@),
            n > 0,
            token_error(entry_step_id@, "entry_step_id"@) is None,
            first_error(|k: int| step_error_at(steps@, slot_ids@, k), n as nat) is None,
            has_step(steps@, entry_step_id@),
            targets == (|k: int| step_targets_error(steps@, k)),
            first_error(targets, k as nat) is None,
        decreases n - k,
    {
        match check_targets(steps, k) {
            Err(e) => {
                proof {
                    lemma_first_error_stays(targets, (k + 1) as nat, n as nat);
                    assert(targets =~= (|k: int| step_targets_error(steps@, k)));
                }
                return Err(e);
            },
            Ok(()) => {},
        }
        k = k + 1;
    }
    proof {
        assert(targets =~= (|k: int| step_targets_error(steps@, k)));
        let c = choose|s: int| 0 <= s < steps@.len() && (#[trigger] steps@[s]).step_id@ == entry_step_id@;
        assert(0 <= c < steps@.len() && steps@[c].step_id@ == entry_step_id@);
        assert(c == start);
    }
    let reached = reached_steps(steps, start);
    assert forall|j: int| 0 <= j < n implies reached@[j] == reachable_from_entry(steps@, entry_step_id@, j) by {
        let c = choose|s: int| 0 <= s < steps@.len() && (#[trigger] steps@[s]).step_id@ == entry_step_id@;
        assert(0 <= c < steps@.len() && steps@[c].step_id@ == entry_step_id@);
        assert(c == start);
    }
    let mut best: Option<usize> = None;
    let mut k: usize = 0;
    while k < n
        invariant
            n == steps@.len(),
            k <= n,
            reached@.len() == n,
            n > 0,
            token_error(entry_step_id@, "entry_step_id"@) is None,
            first_error(|k: int| step_error_at(steps@, slot_ids@, k), n as nat) is None,
            has_step(steps@, entry_step_id@),
            first_error(|k: int| step_targets_error(steps@, k), n as nat) is None,
            forall|j: int| 0 <= j < n ==> reached@[j] == reachable_from_entry(steps@, entry_step_id@, j),
            best is None ==> forall|q: int| 0 <= q < k ==> reached@[q],
            best matches Some(b) ==> b < k && !reached@[b as int] && forall|q: int|
                0 <= q < k && !reached@[q] ==> !text_lt(
                    (#[trigger] steps@[q]).step_id@,
                    steps@[b as int].step_id@,
                ),
        decreases n - k,
    {
        if !reached[k] {
            match best {
                None => {
                    proof {
                        lemma_text_lt_irreflexive(steps@[k as int].step_id@);
                    }
                    best = Some(k);
                },
                Some(b) => {
                    if str_lt(steps[k].step_id.as_str(), steps[b].step_id.as_str()) {
                        proof {
                            let kid = steps@[k as int].step_id@;
                            let bid = steps@[b as int].step_id@;
                            lemma_text_lt_irreflexive(kid);
                            assert forall|q: int| 0 <= q < k + 1 && !reached@[q] implies !text_lt(
                                (#[trigger] steps@[q]).step_id@,
                                kid,
                            ) by {
                                if q < k && text_lt(steps@[q].step_id@, kid) {
                                    lemma_text_lt_transitive(steps@[q].step_id@, kid, bid);
                                }
                            }
                        }
                        best = Some(k);
                    }
                },
            }
        }
        k = k + 1;
    }
    match best {
        None => {
            assert forall|k: int| 0 <= k < steps@.len() implies reachable_from_entry(
                steps@,
                entry_step_id@,
                k,
            ) by {
                assert(reached@[k]);
            }
            Ok(())
        },
        Some(b) => {
            proof {
                assert(first_unreachable(steps@, entry_step_id@, b as int));
                let c = choose|k: int| first_unreachable(steps@, entry_step_id@, k);
                assert(first_unreachable(steps@, entry_step_id@, c));
                if steps@[c].step_id@ != steps@[b as int].step_id@ {
                    lemma_text_lt_total(steps@[c].step_id@, steps@[b as int].step_id@);
                }
            }
            Err(
                TestTemplateValidationError::new(
                    "unreachable_sequence_step",
                    concat("sequence step is unreachable: ", steps[b].step_id.as_str()),
                ),
            )
        },
    }
}

/// A JSON value of a template parameter, as its checks read it: scalars, numbers with
/// whether they read as a 64-bit integer or a double, arrays, and objects with their
/// entries in the order of their keys.
#[derive(Debug)]
pub enum ControlledJsonValue {
    Null,
    Bool(bool),
    Text(String),
    Number { representable: bool },
    Array(Vec<ControlledJsonValue>),
    Object(Vec<(String, ControlledJsonValue)>),
}

/// The first defect of a parameter value: a number that is not representable, or an
/// object key that is not a token, at any depth, in order.
pub open spec fn json_value_error(value: ControlledJsonValue, field: Seq<char>) -> Option<TemplateErrorView>
    decreases value, 0nat,
{
    match value {
        ControlledJsonValue::Number { representable } => if representable {
            None
        } else {
            Some(template_error("invalid_json_number", "unsupported JSON number in "@ + field))
        },
        ControlledJsonValue::Array(items) => json_items_error(items@, field, items@.len()),
        ControlledJsonValue::Object(entries) => json_entries_error(entries@, field, entries@.len()),
        _ => None,
    }
}

/// The first defect among the first `n` items of an array.
pub open spec fn json_items_error(items: Seq<ControlledJsonValue>, field: Seq<char>, n: nat) -> Option<
    TemplateErrorView,
>
    decreases items, n,
{
    if n == 0 || n > items.len() {
        None
    } else {
        first_of(json_items_error(items, field, (n - 1) as nat), json_value_error(items[n - 1], field))
    }
}

/// The first defect among the first `n` entries of an object: each key, then its value.
pub open spec fn json_entries_error(
    entries: Seq<(String, ControlledJsonValue)>,
    field: Seq<char>,
    n: nat,
) -> Option<TemplateErrorView>
    decreases entries, n,
{
    if n == 0 || n > entries.len() {
        None
    } else {
        first_of(
            json_entries_error(entries, field, (n - 1) as nat),
            first_of(token_error(entries[n - 1].0@, field), json_value_error(entries[n - 1].1, field)),
        )
    }
}

proof fn lemma_items_error_stays(items: Seq<ControlledJsonValue>, field: Seq<char>, n: nat, m: nat)
    requires
        n <= m <= items.len(),
        json_items_error(items, field, n) is Some,
    ensures
        json_items_error(items, field, m) == json_items_error(items, field, n),
    decreases m - n,
{
    if m > n {
        lemma_items_error_stays(items, field, n, (m - 1) as nat);
    }
}

proof fn lemma_entries_error_stays(
    entries: Seq<(String, ControlledJsonValue)>,
    field: Seq<char>,
    n: nat,
    m: nat,
)
    requires
        n <= m <= entries.len(),
        json_entries_error(entries, field, n) is Some,
    ensures
        json_entries_error(entries, field, m) == json_entries_error(entries, field, n),
    decreases m - n,
{
    if m > n {
        lemma_entries_error_stays(entries, field, n, (m - 1) as nat);
    }
}

/// Checks the entries of a parameter map, in order: each key must be a token, and its
/// value is checked in turn.
pub fn validate_json_map(map: &[(String, ControlledJsonValue)], field: &'static str) -> (r: Result<
    (),
    TestTemplateValidationError,
>)
    ensures
        outcome(r) == json_entries_error(map@, field@, map@.len()),
    decreases map@, 1nat,
{
    let mut i: usize = 0;
    while i < map.len()
        invariant
            i <= map@.len(),
            json_entries_error(map@, field@, i as nat) is None,
        decreases map@.len() - i,
    {
        let entry = &map[i];
        let found = match require_token(entry.0.as_str(), field) {
            Err(e) => Some(e),
            Ok(()) => match validate_controlled_json_value(&entry.1, field) {
                Err(e) => Some(e),
                Ok(()) => None,
            },
        };
        match found {
            Some(e) => {
                proof {
                    assert(json_entries_error(map@, field@, (i + 1) as nat) == Some(e@));
                    lemma_entries_error_stays(map@, field@, (i + 1) as nat, map@.len());
                }
                return Err(e);
            },
            None => {},
        }
        i = i + 1;
    }
    Ok(())
}

/// Checks a parameter value: its numbers and, at any depth, the keys of its objects.
pub fn validate_controlled_json_value(value: &ControlledJsonValue, field: &'static str) -> (r: Result<
    (),
    TestTemplateValidationError,
>)
    ensures
        outcome(r) == json_value_error(*value, field@),
    decreases *value, 0nat,
{
    match value {
        ControlledJsonValue::Number { representable } => {
            if *representable {
                Ok(())
            } else {
                Err(
                    TestTemplateValidationError::new(
                        "invalid_json_number",
                        concat("unsupported JSON number in ", field),
                    ),
                )
            }
        },
        ControlledJsonValue::Array(items) => {
            let mut i: usize = 0;
            while i < items.len()
                invariant
                    *value == ControlledJsonValue::Array(*items),
                    i <= items@.len(),
                    json_items_error(items@, field@, i as nat) is None,
                decreases items@.len() - i,
            {
                match validate_controlled_json_value(&items[i], field) {
                    Err(e) => {
                        proof {
                            assert(json_items_error(items@, field@, (i + 1) as nat) == Some(e@));
                            lemma_items_error_stays(items@, field@, (i + 1) as nat, items@.len());
                        }
                        return Err(e);
                    },
                    Ok(()) => {},
                }
                i = i + 1;
            }
            Ok(())
        },
        ControlledJsonValue::Object(entries) => validate_json_map(entries.as_slice(), field),
        _ => Ok(()),
    }
}

/// A post-processing operation of a template.
#[derive(Debug)]
pub struct PostProcessingDefinition {
    pub operation_id: String,
    pub order: u32,
    pub operation_type: PostProcessingOperationType,
    pub inputs: Vec<String>,
    pub outputs: Vec<String>,
    pub parameters: Vec<(String, ControlledJsonValue)>,
}

/// Whether the operation lists the signal among its outputs.
pub open spec fn operation_outputs(op: PostProcessingDefinition, signal: Seq<char>) -> bool {
    exists|p: int| 0 <= p < op.outputs@.len() && (#[trigger] op.outputs@[p])@ == signal
}

/// Whether the output at `o` of the operation at `k` was already listed: by an earlier
/// operation, or earlier by the same one.
pub open spec fn operation_output_taken(ops: Seq<PostProcessingDefinition>, k: int, o: int) -> bool {
    let out = ops[k].outputs@[o]@;
    (exists|j: int| 0 <= j < k && operation_outputs(#[trigger] ops[j], out)) || exists|p: int|
        0 <= p < o && (#[trigger] ops[k].outputs@[p])@ == out
}

/// The defect of the output at `o` of the operation at `k`.
pub open spec fn output_error_at(ops: Seq<PostProcessingDefinition>, k: int, o: int) -> Option<
    TemplateErrorView,
> {
    let out = ops[k].outputs@[o]@;
    first_of(
        signal_reference_error(out, "post_processing.output"@),
        if operation_output_taken(ops, k, o) {
            Some(template_error("duplicate_post_processing_output", "duplicate post-processing output: "@ + out))
        } else {
            None
        },
    )
}

/// The defect of the operation at `k` on its own: its identity, an identity or order
/// that repeats an earlier one, no input, no output, then its outputs and parameters.
pub open spec fn operation_error_at(ops: Seq<PostProcessingDefinition>, k: int) -> Option<TemplateErrorView> {
    let op = ops[k];
    let id = op.operation_id@;
    if token_error(id, "post_processing.operation_id"@) is Some {
        token_error(id, "post_processing.operation_id"@)
    } else if exists|j: int| 0 <= j < k && (#[trigger] ops[j]).operation_id@ == id {
        Some(template_error("duplicate_post_processing_operation", "duplicate post-processing operation: "@ + id))
    } else if exists|j: int| 0 <= j < k && (#[trigger] ops[j]).order == op.order {
        Some(
            template_error(
                "duplicate_post_processing_order",
                "duplicate post-processing order: "@ + decimal_text(op.order as nat),
            ),
        )
    } else if op.inputs@.len() == 0 {
        Some(template_error("missing_post_processing_inputs", "post-processing operation has no inputs: "@ + id))
    } else if op.outputs@.len() == 0 {
        Some(template_error("missing_post_processing_outputs", "post-processing operation has no outputs: "@ + id))
    } else {
        first_of(
            first_error(|o: int| output_error_at(ops, k, o), op.outputs@.len()),
            json_entries_error(op.parameters@, "post_processing.parameters"@, op.parameters@.len()),
        )
    }
}

/// Whether some operation produces the signal.
pub open spec fn operation_produced(ops: Seq<PostProcessingDefinition>, signal: Seq<char>) -> bool {
    exists|j: int| 0 <= j < ops.len() && operation_outputs(#[trigger] ops[j], signal)
}

/// The order of the operation that produces the signal.
pub open spec fn producer_order(ops: Seq<PostProcessingDefinition>, signal: Seq<char>) -> u32 {
    ops[choose|j: int| 0 <= j < ops.len() && operation_outputs(#[trigger] ops[j], signal)].order
}

/// The defect of the input at `e` of the operation at `k`: not a signal reference, or
/// produced by an operation that does not come earlier.
pub open spec fn input_error_at(ops: Seq<PostProcessingDefinition>, k: int, e: int) -> Option<TemplateErrorView> {
    let input = ops[k].inputs@[e]@;
    first_of(
        signal_reference_error(input, "post_processing.input"@),
        if operation_produced(ops, input) && producer_order(ops, input) >= ops[k].order {
            Some(
                template_error(
                    "invalid_post_processing_dependency",
                    "post-processing input is not produced by an earlier operation: "@ + input,
                ),
            )
        } else {
            None
        },
    )
}

/// The first defect among the inputs of the operation at `k`.
pub open spec fn operation_inputs_error(ops: Seq<PostProcessingDefinition>, k: int) -> Option<TemplateErrorView> {
    first_error(|e: int| input_error_at(ops, k, e), ops[k].inputs@.len())
}

/// The first defect of the post-processing of a template: the operations one by one,
/// then the inputs of each.
pub open spec fn template_post_processing_error(ops: Seq<PostProcessingDefinition>) -> Option<
    TemplateErrorView,
> {
    first_of(
        first_error(|k: int| operation_error_at(ops, k), ops.len()),
        first_error(|k: int| operation_inputs_error(ops, k), ops.len()),
    )
}

fn operation_lists(op: &PostProcessingDefinition, signal: &str) -> (b: bool)
    ensures
        b == operation_outputs(*op, signal@),
{
    let mut p: usize = 0;
    while p < op.outputs.len()
        invariant
            p <= op.outputs@.len(),
            forall|q: int| 0 <= q < p ==> (#[trigger] op.outputs@[q])@ != signal@,
        decreases op.outputs@.len() - p,
    {
        if str_eq(op.outputs[p].as_str(), signal) {
            return true;
        }
        p = p + 1;
    }
    false
}

fn output_taken_before(ops: &[PostProcessingDefinition], k: usize, o: usize) -> (r: bool)
    requires
        k < ops@.len(),
        o < ops@[k as int].outputs@.len(),
    ensures
        r == operation_output_taken(ops@, k as int, o as int),
{
    let out = ops[k].outputs[o].as_str();
    let mut j: usize = 0;
    while j < k
        invariant
            k < ops@.len(),
            o < ops@[k as int].outputs@.len(),
            out@ == ops@[k as int].outputs@[o as int]@,
            j <= k,
            forall|i: int| 0 <= i < j ==> !operation_outputs(#[trigger] ops@[i], out@),
        decreases k - j,
    {
        if operation_lists(&ops[j], out) {
            return true;
        }
        j = j + 1;
    }
    let mut p: usize = 0;
    while p < o
        invariant
            k < ops@.len(),
            o < ops@[k as int].outputs@.len(),
            out@ == ops@[k as int].outputs@[o as int]@,
            p <= o,
            forall|i: int| 0 <= i < p ==> (#[trigger] ops@[k as int].outputs@[i])@ != out@,
        decreases o - p,
    {
        if str_eq(ops[k].outputs[p].as_str(), out) {
            return true;
        }
        p = p + 1;
    }
    false
}

fn operation_id_repeats(ops: &[PostProcessingDefinition], k: usize) -> (r: bool)
    requires
        k < ops@.len(),
    ensures
        r == exists|j: int| 0 <= j < k && (#[trigger] ops@[j]).operation_id@ == ops@[k as int].operation_id@,
{
    let mut j: usize = 0;
    while j < k
        invariant
            j <= k < ops@.len(),
            forall|i: int| 0 <= i < j ==> (#[trigger] ops@[i]).operation_id@ != ops@[k as int].operation_id@,
        decreases k - j,
    {
        if str_eq(ops[j].operation_id.as_str(), ops[k].operation_id.as_str()) {
            assert(ops@[j as int].operation_id@ == ops@[k as int].operation_id@);
            return true;
        }
        j = j + 1;
    }
    false
}

fn operation_order_repeats(ops: &[PostProcessingDefinition], k: usize) -> (r: bool)
    requires
        k < ops@.len(),
    ensures
        r == exists|j: int| 0 <= j < k && (#[trigger] ops@[j]).order == ops@[k as int].order,
{
    let mut j: usize = 0;
    while j < k
        invariant
            j <= k < ops@.len(),
            forall|i: int| 0 <= i < j ==> (#[trigger] ops@[i]).order != ops@[k as int].order,
        decreases k - j,
    {
        if ops[j].order == ops[k].order {
            assert(ops@[j as int].order == ops@[k as int].order);
            return true;
        }
        j = j + 1;
    }
    false
}

fn check_operation(ops: &[PostProcessingDefinition], k: usize) -> (r: Result<(), TestTemplateValidationError>)
    requires
        k < ops@.len(),
    ensures
        outcome(r) == operation_error_at(ops@, k as int),
{
    let op = &ops[k];
    let id = op.operation_id.as_str();
    match require_token(id, "post_processing.operation_id") {
        Err(e) => {
            return Err(e);
        },
        Ok(()) => {},
    }
    if operation_id_repeats(ops, k) {
        return Err(
            TestTemplateValidationError::new(
                "duplicate_post_processing_operation",
                concat("duplicate post-processing operation: ", id),
            ),
        );
    }
    if operation_order_repeats(ops, k) {
        let mut message = "duplicate post-processing order: ".to_owned();
        push_decimal(&mut message, op.order as usize);
        return Err(TestTemplateValidationError::new("duplicate_post_processing_order", message));
    }
    if op.inputs.len() == 0 {
        return Err(
            TestTemplateValidationError::new(
                "missing_post_processing_inputs",
                concat("post-processing operation has no inputs: ", id),
            ),
        );
    }
    if op.outputs.len() == 0 {
        return Err(
            TestTemplateValidationError::new(
                "missing_post_processing_outputs",
                concat("post-processing operation has no outputs: ", id),
            ),
        );
    }
    let ghost f = |o: int| output_error_at(ops@, k as int, o);
    let mut o: usize = 0;
    while o < op.outputs.len()
        invariant
            k < ops@.len(),
            *op == ops@[k as int],
            token_error(op.operation_id@, "post_processing.operation_id"@) is None,
            !(exists|j: int| 0 <= j < k && (#[trigger] ops@[j]).operation_id@ == op.operation_id@),
            !(exists|j: int| 0 <= j < k && (#[trigger] ops@[j]).order == op.order),
            op.inputs@.len() > 0,
            op.outputs@.len() > 0,
            o <= op.outputs@.len(),
            f == (|o: int| output_error_at(ops@, k as int, o)),
            first_error(f, o as nat) is None,
        decreases op.outputs@.len() - o,
    {
        let out = op.outputs[o].as_str();
        let found = match require_signal_reference(out, "post_processing.output") {
            Err(e) => Some(e),
            Ok(()) => if output_taken_before(ops, k, o) {
                Some(
                    TestTemplateValidationError::new(
                        "duplicate_post_processing_output",
                        concat("duplicate post-processing output: ", out),
                    ),
                )
            } else {
                None
            },
        };
        match found {
            Some(e) => {
                proof {
                    assert(f(o as int) == Some(e@));
                    lemma_first_error_stays(f, (o + 1) as nat, op.outputs@.len());
                    assert(f =~= (|o: int| output_error_at(ops@, k as int, o)));
                }
                return Err(e);
            },
            None => {
                assert(f(o as int) is None);
            },
        }
        o = o + 1;
    }
    assert(f =~= (|o: int| output_error_at(ops@, k as int, o)));
    validate_json_map(op.parameters.as_slice(), "post_processing.parameters")
}

/// The order of the first operation that produces the signal, if any.
fn producing_order(ops: &[PostProcessingDefinition], signal: &str) -> (r: Option<u32>)
    ensures
        match r {
            Some(order) => exists|j: int|
                0 <= j < ops@.len() && operation_outputs(#[trigger] ops@[j], signal@) && ops@[j].order == order,
            None => !operation_produced(ops@, signal@),
        },
{
    let mut j: usize = 0;
    while j < ops.len()
        invariant
            j <= ops@.len(),
            forall|i: int| 0 <= i < j ==> !operation_outputs(#[trigger] ops@[i], signal@),
        decreases ops@.len() - j,
    {
        if operation_lists(&ops[j], signal) {
            return Some(ops[j].order);
        }
        j = j + 1;
    }
    None
}

/// No output is listed twice, across all the operations.
pub open spec fn outputs_unique(ops: Seq<PostProcessingDefinition>) -> bool {
    forall|k: int, o: int|
        0 <= k < ops.len() && 0 <= o < ops[k].outputs@.len() ==> !operation_output_taken(ops, k, o)
}

fn check_operation_inputs(ops: &[PostProcessingDefinition], k: usize) -> (r: Result<(), TestTemplateValidationError>)
    requires
        k < ops@.len(),
        outputs_unique(ops@),
    ensures
        outcome(r) == operation_inputs_error(ops@, k as int),
{
    let ghost f = |e: int| input_error_at(ops@, k as int, e);
    let inputs = &ops[k].inputs;
    let mut e: usize = 0;
    while e < inputs.len()
        invariant
            k < ops@.len(),
            outputs_unique(ops@),
            *inputs == ops@[k as int].inputs,
            e <= inputs@.len(),
            f == (|e: int| input_error_at(ops@, k as int, e)),
            first_error(f, e as nat) is None,
        decreases inputs@.len() - e,
    {
        let input = inputs[e].as_str();
        let found = match require_signal_reference(input, "post_processing.input") {
            Err(err) => Some(err),
            Ok(()) => match producing_order(ops, input) {
                Some(order) => {
                    proof {
                        let j = choose|j: int|
                            0 <= j < ops@.len() && operation_outputs(#[trigger] ops@[j], input@) && ops@[j].order == order;
                        let c = choose|c: int| 0 <= c < ops@.len() && operation_outputs(#[trigger] ops@[c], input@);
                        assert(operation_outputs(ops@[c], input@));
                        if c != j {
                            let lo = if c < j { c } else { j };
                            let hi = if c < j { j } else { c };
                            let p = choose|p: int|
                                0 <= p < ops@[hi].outputs@.len() && (#[trigger] ops@[hi].outputs@[p])@ == input@;
                            assert(operation_outputs(ops@[lo], input@));
                            assert(operation_output_taken(ops@, hi, p));
                        }
                    }
                    if order >= ops[k].order {
                        Some(
                            TestTemplateValidationError::new(
                                "invalid_post_processing_dependency",
                                concat("post-processing input is not produced by an earlier operation: ", input),
                            ),
                        )
                    } else {
                        None
                    }
                },
                None => None,
            },
        };
        match found {
            Some(err) => {
                proof {
                    assert(f(e as int) == Some(err@));
                    lemma_first_error_stays(f, (e + 1) as nat, inputs@.len());
                    assert(f =~= (|e: int| input_error_at(ops@, k as int, e)));
                }
                return Err(err);
            },
            None => {
                assert(f(e as int) is None);
            },
        }
        e = e + 1;
    }
    assert(f =~= (|e: int| input_error_at(ops@, k as int, e)));
    Ok(())
}

/// Checks the post-processing of a template: each operation, its outputs and
/// parameters, then that every produced input comes from an earlier operation.
pub fn validate_post_processing(operations: &[PostProcessingDefinition]) -> (r: Result<
    (),
    TestTemplateValidationError,
>)
    ensures
        outcome(r) == template_post_processing_error(operations@),
{
    let n = operations.len();
    let ghost own = |k: int| operation_error_at(operations@, k);
    let mut k: usize = 0;
    while k < n
        invariant
            n == operations@.len(),
            k <= n,
            own == (|k: int| operation_error_at(operations@, k)),
            first_error(own, k as nat) is None,
        decreases n - k,
    {
        match check_operation(operations, k) {
            Err(e) => {
                proof {
                    lemma_first_error_stays(own, (k + 1) as nat, n as nat);
                    assert(own =~= (|k: int| operation_error_at(operations@, k)));
                }
                return Err(e);
            },
            Ok(()) => {},
        }
        k = k + 1;
    }
    proof {
        assert(own =~= (|k: int| operation_error_at(operations@, k)));
        lemma_first_error_none(own, n as nat);
        assert forall|k: int, o: int|
            0 <= k < operations@.len() && 0 <= o < operations@[k].outputs@.len() implies !operation_output_taken(
            operations@,
            k,
            o,
        ) by {
            assert(own(k) is None);
            let g = |o: int| output_error_at(operations@, k, o);
            assert(g =~= (|o: int| output_error_at(operations@, k, o)));
            lemma_first_error_none(g, operations@[k].outputs@.len());
            assert(g(o) is None);
        }
    }
    let ghost ins = |k: int| operation_inputs_error(operations@, k);
    let mut k: usize = 0;
    while k < n
        invariant
            n == operations@.len(),
            k <= n,
            outputs_unique(operations@),
            first_error(|k: int| operation_error_at(operations@, k), n as nat) is None,
            ins == (|k: int| operation_inputs_error(operations@, k)),
            first_error(ins, k as nat) is None,
        decreases n - k,
    {
        match check_operation_inputs(operations, k) {
            Err(e) => {
                proof {
                    lemma_first_error_stays(ins, (k + 1) as nat, n as nat);
                    assert(ins =~= (|k: int| operation_inputs_error(operations@, k)));
                }
                return Err(e);
            },
            Ok(()) => {},
        }
        k = k + 1;
    }
    assert(ins =~= (|k: int| operation_inputs_error(operations@, k)));
    Ok(())
}

/// A limit of a template, with what its checks read: whether a threshold is given,
/// not its floating-point value.
#[derive(Clone, Debug, PartialEq, Eq)]
pub struct LimitDefinition {
    pub limit_id: String,
    pub kind: LimitKind,
    pub axis: MeasurementAxis,
    pub unit: String,
    pub application_domain: String,
    pub source_reference: String,
    pub has_threshold: bool,
    pub attention_rule: Option<String>,
    pub variable_refs: Vec<String>,
}

/// The defect of the variable reference at `e` of a limit: a variable not declared.
pub open spec fn limit_reference_error_at(refs: Seq<String>, variable_ids: Seq<String>, e: int) -> Option<
    TemplateErrorView,
> {
    if !lists(variable_ids, refs[e]@) {
        Some(template_error("unknown_limit_variable", "limit references unknown variable: "@ + refs[e]@))
    } else {
        None
    }
}

/// The defect of the limit at `k`: its identity and texts, an identity that repeats an
/// earlier limit's, a scalar threshold that is missing, then its variable references.
pub open spec fn limit_error_at(limits: Seq<LimitDefinition>, variable_ids: Seq<String>, k: int) -> Option<
    TemplateErrorView,
> {
    let limit = limits[k];
    let id = limit.limit_id@;
    if token_error(id, "limit_id"@) is Some {
        token_error(id, "limit_id"@)
    } else if text_error(limit.unit@, "limit_unit"@) is Some {
        text_error(limit.unit@, "limit_unit"@)
    } else if text_error(limit.application_domain@, "limit_application_domain"@) is Some {
        text_error(limit.application_domain@, "limit_application_domain"@)
    } else if text_error(limit.source_reference@, "limit_source_reference"@) is Some {
        text_error(limit.source_reference@, "limit_source_reference"@)
    } else if exists|j: int| 0 <= j < k && (#[trigger] limits[j]).limit_id@ == id {
        Some(template_error("duplicate_limit_id", "duplicate limit id: "@ + id))
    } else if limit.kind == LimitKind::ScalarThreshold && !limit.has_threshold {
        Some(template_error("missing_scalar_threshold", "scalar limit requires threshold: "@ + id))
    } else {
        first_error(
            |e: int| limit_reference_error_at(limit.variable_refs@, variable_ids, e),
            limit.variable_refs@.len(),
        )
    }
}

/// The first defect of the limits of a template.
pub open spec fn template_limits_error(limits: Seq<LimitDefinition>, variable_ids: Seq<String>) -> Option<
    TemplateErrorView,
> {
    first_error(|k: int| limit_error_at(limits, variable_ids, k), limits.len())
}

fn limit_id_repeats(limits: &[LimitDefinition], k: usize) -> (r: bool)
    requires
        k < limits@.len(),
    ensures
        r == exists|j: int| 0 <= j < k && (#[trigger] limits@[j]).limit_id@ == limits@[k as int].limit_id@,
{
    let mut j: usize = 0;
    while j < k
        invariant
            j <= k < limits@.len(),
            forall|i: int| 0 <= i < j ==> (#[trigger] limits@[i]).limit_id@ != limits@[k as int].limit_id@,
        decreases k - j,
    {
        if str_eq(limits[j].limit_id.as_str(), limits[k].limit_id.as_str()) {
            assert(limits@[j as int].limit_id@ == limits@[k as int].limit_id@);
            return true;
        }
        j = j + 1;
    }
    false
}

fn check_limit_references(refs: &[String], variable_ids: &[String]) -> (r: Result<(), TestTemplateValidationError>)
    ensures
        outcome(r) == first_error(|e: int| limit_reference_error_at(refs@, variable_ids@, e), refs@.len()),
{
    let ghost f = |e: int| limit_reference_error_at(refs@, variable_ids@, e);
    let mut e: usize = 0;
    while e < refs.len()
        invariant
            e <= refs@.len(),
            f == (|e: int| limit_reference_error_at(refs@, variable_ids@, e)),
            first_error(f, e as nat) is None,
        decreases refs@.len() - e,
    {
        if !listed(variable_ids, refs[e].as_str()) {
            let err = TestTemplateValidationError::new(
                "unknown_limit_variable",
                concat("limit references unknown variable: ", refs[e].as_str()),
            );
            proof {
                assert(f(e as int) == Some(err@));
                lemma_first_error_stays(f, (e + 1) as nat, refs@.len());
                assert(f =~= (|e: int| limit_reference_error_at(refs@, variable_ids@, e)));
            }
            return Err(err);
        }
        e = e + 1;
    }
    assert(f =~= (|e: int| limit_reference_error_at(refs@, variable_ids@, e)));
    Ok(())
}

fn check_limit(limits: &[LimitDefinition], variable_ids: &[String], k: usize) -> (r: Result<
    (),
    TestTemplateValidationError,
>)
    requires
        k < limits@.len(),
    ensures
        outcome(r) == limit_error_at(limits@, variable_ids@, k as int),
{
    let limit = &limits[k];
    match require_token(limit.limit_id.as_str(), "limit_id") {
        Err(e) => {
            return Err(e);
        },
        Ok(()) => {},
    }
    match require_text(limit.unit.as_str(), "limit_unit") {
        Err(e) => {
            return Err(e);
        },
        Ok(()) => {},
    }
    match require_text(limit.application_domain.as_str(), "limit_application_domain") {
        Err(e) => {
            return Err(e);
        },
        Ok(()) => {},
    }
    match require_text(limit.source_reference.as_str(), "limit_source_reference") {
        Err(e) => {
            return Err(e);
        },
        Ok(()) => {},
    }
    if limit_id_repeats(limits, k) {
        return Err(
            TestTemplateValidationError::new(
                "duplicate_limit_id",
                concat("duplicate limit id: ", limit.limit_id.as_str()),
            ),
        );
    }
    if limit.kind == LimitKind::ScalarThreshold && !limit.has_threshold {
        return Err(
            TestTemplateValidationError::new(
                "missing_scalar_threshold",
                concat("scalar limit requires threshold: ", limit.limit_id.as_str()),
            ),
        );
    }
    check_limit_references(limit.variable_refs.as_slice(), variable_ids)
}

/// Checks the limits of a template against the declared variables.
pub fn validate_limits(limits: &[LimitDefinition], variable_ids: &[String]) -> (r: Result<
    (),
    TestTemplateValidationError,
>)
    ensures
        outcome(r) == template_limits_error(limits@, variable_ids@),
{
    let ghost f = |k: int| limit_error_at(limits@, variable_ids@, k);
    let mut k: usize = 0;
    while k < limits.len()
        invariant
            k <= limits@.len(),
            f == (|k: int| limit_error_at(limits@, variable_ids@, k)),
            first_error(f, k as nat) is None,
        decreases limits@.len() - k,
    {
        match check_limit(limits, variable_ids, k) {
            Err(e) => {
                proof {
                    lemma_first_error_stays(f, (k + 1) as nat, limits@.len());
                    assert(f =~= (|k: int| limit_error_at(limits@, variable_ids@, k)));
                }
                return Err(e);
            },
            Ok(()) => {},
        }
        k = k + 1;
    }
    assert(f =~= (|k: int| limit_error_at(limits@, variable_ids@, k)));
    Ok(())
}

/// The default value of a template variable; a floating-point default is held by how
/// it compares with the variable's bounds (see `VariableConstraints`).
#[derive(Clone, Debug, PartialEq, Eq)]
pub enum VariableDefaultValue {
    Integer(i64),
    Number,
    Boolean(bool),
    Text(String),
}

/// The constraints of a template variable, with what its checks read: the outcomes of
/// the floating-point comparisons of its bounds and of its numeric default.
#[derive(Clone, Debug, PartialEq, Eq)]
pub struct VariableConstraints {
    pub required: bool,
    pub unit: Option<String>,
    /// Both bounds are given and the minimum is above the maximum.
    pub bounds_inverted: bool,
    /// The numeric default is below the minimum.
    pub default_below_minimum: bool,
    /// The numeric default is above the maximum.
    pub default_above_maximum: bool,
    pub enum_values: Vec<String>,
}

/// A variable of a template.
#[derive(Clone, Debug, PartialEq, Eq)]
pub struct VariableDefinition {
    pub variable_id: String,
    pub label: String,
    pub value_type: VariableValueType,
    pub default_value: Option<VariableDefaultValue>,
    pub constraints: VariableConstraints,
    pub description: Option<String>,
}

/// Whether the list holds the text.
pub open spec fn enum_lists(values: Seq<String>, v: Seq<char>) -> bool {
    exists|j: int| 0 <= j < values.len() && (#[trigger] values[j])@ == v
}

/// The defect of the enum value at `e` of a variable: blank, or repeating an earlier one.
pub open spec fn enum_value_error_at(variable: VariableDefinition, e: int) -> Option<TemplateErrorView> {
    let values = variable.constraints.enum_values@;
    if text_error(values[e]@, "enum_value"@) is Some {
        text_error(values[e]@, "enum_value"@)
    } else if exists|j: int| 0 <= j < e && (#[trigger] values[j])@ == values[e]@ {
        Some(template_error("duplicate_enum_value", "duplicate enum value for "@ + variable.variable_id@))
    } else {
        None
    }
}

/// The defect of the default value of a variable: of another type than the variable,
/// outside its bounds, a blank text, or an enum value it does not allow.
pub open spec fn default_error(variable: VariableDefinition) -> Option<TemplateErrorView> {
    let id = variable.variable_id@;
    let c = variable.constraints;
    let numeric = if c.default_below_minimum {
        Some(template_error("default_below_minimum", "default value is below minimum for "@ + id))
    } else if c.default_above_maximum {
        Some(template_error("default_above_maximum", "default value is above maximum for "@ + id))
    } else {
        None
    };
    match variable.default_value {
        None => None,
        Some(d) => match (variable.value_type, d) {
            (VariableValueType::Number, VariableDefaultValue::Number) => numeric,
            (VariableValueType::Integer, VariableDefaultValue::Integer(_)) => numeric,
            (VariableValueType::Boolean, VariableDefaultValue::Boolean(_)) => None,
            (VariableValueType::Text, VariableDefaultValue::Text(v)) => text_error(v@, "text_default"@),
            (VariableValueType::Enum, VariableDefaultValue::Text(v)) => if enum_lists(c.enum_values@, v@) {
                None
            } else {
                Some(template_error("enum_default_not_allowed", "enum default is not in allowed values: "@ + id))
            },
            _ => Some(
                template_error(
                    "default_value_type_mismatch",
                    "default value does not match variable type: "@ + id,
                ),
            ),
        },
    }
}

/// The defect of the variable at `k`: identity and label, an identity that repeats an
/// earlier one, a numeric variable without unit, inverted bounds, the enum values, then
/// the default value.
pub open spec fn variable_error_at(variables: Seq<VariableDefinition>, k: int) -> Option<TemplateErrorView> {
    let v = variables[k];
    let id = v.variable_id@;
    if token_error(id, "variable_id"@) is Some {
        token_error(id, "variable_id"@)
    } else if text_error(v.label@, "variable_label"@) is Some {
        text_error(v.label@, "variable_label"@)
    } else if exists|j: int| 0 <= j < k && (#[trigger] variables[j]).variable_id@ == id {
        Some(template_error("duplicate_variable_id", "duplicate variable id: "@ + id))
    } else if (v.value_type == VariableValueType::Number || v.value_type == VariableValueType::Integer)
        && !stated(v.constraints.unit) {
        Some(template_error("missing_variable_unit", "numeric variable requires a unit: "@ + id))
    } else if v.constraints.bounds_inverted {
        Some(template_error("invalid_numeric_bounds", "minimum is greater than maximum for "@ + id))
    } else if v.value_type == VariableValueType::Enum && v.constraints.enum_values@.len() == 0 {
        Some(template_error("empty_enum_values", "enum variable has no values: "@ + id))
    } else if v.value_type == VariableValueType::Enum && first_error(
        |e: int| enum_value_error_at(v, e),
        v.constraints.enum_values@.len(),
    ) is Some {
        first_error(|e: int| enum_value_error_at(v, e), v.constraints.enum_values@.len())
    } else {
        default_error(v)
    }
}

/// The identities of the variables.
pub open spec fn variable_id_list(variables: Seq<VariableDefinition>) -> Seq<String> {
    variables.map_values(|v: VariableDefinition| v.variable_id)
}

/// The first defect of the variables of a template: none at all, or each in turn.
pub open spec fn variables_error(variables: Seq<VariableDefinition>) -> Option<TemplateErrorView> {
    if variables.len() == 0 {
        Some(template_error("missing_variables", "at least one variable definition is required"@))
    } else {
        first_error(|k: int| variable_error_at(variables, k), variables.len())
    }
}

fn variable_id_repeats(variables: &[VariableDefinition], k: usize) -> (r: bool)
    requires
        k < variables@.len(),
    ensures
        r == exists|j: int| 0 <= j < k && (#[trigger] variables@[j]).variable_id@ == variables@[k as int].variable_id@,
{
    let mut j: usize = 0;
    while j < k
        invariant
            j <= k < variables@.len(),
            forall|i: int| 0 <= i < j ==> (#[trigger] variables@[i]).variable_id@ != variables@[k as int].variable_id@,
        decreases k - j,
    {
        if str_eq(variables[j].variable_id.as_str(), variables[k].variable_id.as_str()) {
            assert(variables@[j as int].variable_id@ == variables@[k as int].variable_id@);
            return true;
        }
        j = j + 1;
    }
    false
}

fn enum_value_repeats(values: &[String], e: usize) -> (r: bool)
    requires
        e < values@.len(),
    ensures
        r == exists|j: int| 0 <= j < e && (#[trigger] values@[j])@ == values@[e as int]@,
{
    let mut j: usize = 0;
    while j < e
        invariant
            j <= e < values@.len(),
            forall|i: int| 0 <= i < j ==> (#[trigger] values@[i])@ != values@[e as int]@,
        decreases e - j,
    {
        if str_eq(values[j].as_str(), values[e].as_str()) {
            assert(values@[j as int]@ == values@[e as int]@);
            return true;
        }
        j = j + 1;
    }
    false
}

fn check_enum_values(variable: &VariableDefinition) -> (r: Result<(), TestTemplateValidationError>)
    ensures
        outcome(r) == first_error(
            |e: int| enum_value_error_at(*variable, e),
            variable.constraints.enum_values@.len(),
        ),
{
    let ghost f = |e: int| enum_value_error_at(*variable, e);
    let values = variable.constraints.enum_values.as_slice();
    let mut e: usize = 0;
    while e < values.len()
        invariant
            values@ == variable.constraints.enum_values@,
            e <= values@.len(),
            f == (|e: int| enum_value_error_at(*variable, e)),
            first_error(f, e as nat) is None,
        decreases values@.len() - e,
    {
        let found = match require_text(values[e].as_str(), "enum_value") {
            Err(err) => Some(err),
            Ok(()) => if enum_value_repeats(values, e) {
                Some(
                    TestTemplateValidationError::new(
                        "duplicate_enum_value",
                        concat("duplicate enum value for ", variable.variable_id.as_str()),
                    ),
                )
            } else {
                None
            },
        };
        match found {
            Some(err) => {
                proof {
                    assert(f(e as int) == Some(err@));
                    lemma_first_error_stays(f, (e + 1) as nat, values@.len());
                    assert(f =~= (|e: int| enum_value_error_at(*variable, e)));
                }
                return Err(err);
            },
            None => {
                assert(f(e as int) is None);
            },
        }
        e = e + 1;
    }
    assert(f =~= (|e: int| enum_value_error_at(*variable, e)));
    Ok(())
}

/// Checks the default value of a variable.
pub fn validate_default_value(variable: &VariableDefinition) -> (r: Result<(), TestTemplateValidationError>)
    ensures
        outcome(r) == default_error(*variable),
{
    let id = variable.variable_id.as_str();
    let c = &variable.constraints;
    match &variable.default_value {
        None => Ok(()),
        Some(d) => match (variable.value_type, d) {
            (VariableValueType::Number, VariableDefaultValue::Number)
            | (VariableValueType::Integer, VariableDefaultValue::Integer(_)) => {
                validate_numeric_default(variable)
            },
            (VariableValueType::Boolean, VariableDefaultValue::Boolean(_)) => Ok(()),
            (VariableValueType::Text, VariableDefaultValue::Text(v)) => require_text(v.as_str(), "text_default"),
            (VariableValueType::Enum, VariableDefaultValue::Text(v)) => {
                if listed(c.enum_values.as_slice(), v.as_str()) {
                    Ok(())
                } else {
                    Err(
                        TestTemplateValidationError::new(
                            "enum_default_not_allowed",
                            concat("enum default is not in allowed values: ", id),
                        ),
                    )
                }
            },
            _ => Err(
                TestTemplateValidationError::new(
                    "default_value_type_mismatch",
                    concat("default value does not match variable type: ", id),
                ),
            ),
        },
    }
}

/// Checks a numeric default against the bounds, from the outcomes of the comparisons.
pub fn validate_numeric_default(variable: &VariableDefinition) -> (r: Result<(), TestTemplateValidationError>)
    ensures
        outcome(r) == (if variable.constraints.default_below_minimum {
            Some(
                template_error(
                    "default_below_minimum",
                    "default value is below minimum for "@ + variable.variable_id@,
                ),
            )
        } else if variable.constraints.default_above_maximum {
            Some(
                template_error(
                    "default_above_maximum",
                    "default value is above maximum for "@ + variable.variable_id@,
                ),
            )
        } else {
            None
        }),
{
    let id = variable.variable_id.as_str();
    if variable.constraints.default_below_minimum {
        return Err(
            TestTemplateValidationError::new(
                "default_below_minimum",
                concat("default value is below minimum for ", id),
            ),
        );
    }
    if variable.constraints.default_above_maximum {
        return Err(
            TestTemplateValidationError::new(
                "default_above_maximum",
                concat("default value is above maximum for ", id),
            ),
        );
    }
    Ok(())
}

fn check_variable(variables: &[VariableDefinition], k: usize) -> (r: Result<(), TestTemplateValidationError>)
    requires
        k < variables@.len(),
    ensures
        outcome(r) == variable_error_at(variables@, k as int),
{
    let v = &variables[k];
    let id = v.variable_id.as_str();
    match require_token(id, "variable_id") {
        Err(e) => {
            return Err(e);
        },
        Ok(()) => {},
    }
    match require_text(v.label.as_str(), "variable_label") {
        Err(e) => {
            return Err(e);
        },
        Ok(()) => {},
    }
    if variable_id_repeats(variables, k) {
        return Err(TestTemplateValidationError::new("duplicate_variable_id", concat("duplicate variable id: ", id)));
    }
    let numeric = v.value_type == VariableValueType::Number || v.value_type == VariableValueType::Integer;
    if numeric && !stated_requirement(&v.constraints.unit) {
        return Err(
            TestTemplateValidationError::new(
                "missing_variable_unit",
                concat("numeric variable requires a unit: ", id),
            ),
        );
    }
    if v.constraints.bounds_inverted {
        return Err(
            TestTemplateValidationError::new(
                "invalid_numeric_bounds",
                concat("minimum is greater than maximum for ", id),
            ),
        );
    }
    if v.value_type == VariableValueType::Enum {
        if v.constraints.enum_values.len() == 0 {
            return Err(
                TestTemplateValidationError::new("empty_enum_values", concat("enum variable has no values: ", id)),
            );
        }
        match check_enum_values(v) {
            Err(e) => {
                return Err(e);
            },
            Ok(()) => {},
        }
    }
    validate_default_value(v)
}

/// Checks the variables of a template; on success, their identities in order.
pub fn validate_variables(variables: &[VariableDefinition]) -> (r: Result<Vec<String>, TestTemplateValidationError>)
    ensures
        outcome(r) == variables_error(variables@),
        r matches Ok(ids) ==> ids@ == variable_id_list(variables@),
{
    if variables.len() == 0 {
        return Err(
            TestTemplateValidationError::new(
                "missing_variables",
                "at least one variable definition is required".to_owned(),
            ),
        );
    }
    let ghost f = |k: int| variable_error_at(variables@, k);
    let mut ids: Vec<String> = Vec::new();
    let mut k: usize = 0;
    while k < variables.len()
        invariant
            variables@.len() > 0,
            k <= variables@.len(),
            f == (|k: int| variable_error_at(variables@, k)),
            first_error(f, k as nat) is None,
            ids@ == variable_id_list(variables@).take(k as int),
        decreases variables@.len() - k,
    {
        match check_variable(variables, k) {
            Err(e) => {
                proof {
                    lemma_first_error_stays(f, (k + 1) as nat, variables@.len());
                    assert(f =~= (|k: int| variable_error_at(variables@, k)));
                }
                return Err(e);
            },
            Ok(()) => {},
        }
        ids.push(variables[k].variable_id.clone());
        assert(ids@ =~= variable_id_list(variables@).take(k + 1));
        k = k + 1;
    }
    assert(f =~= (|k: int| variable_error_at(variables@, k)));
    assert(variable_id_list(variables@).take(k as int) =~= variable_id_list(variables@));
    Ok(ids)
}

/// A test template definition: variables and their lock policy, the instrumentation
/// chain, the execution sequence, limits, post-processing and method parameters.
#[derive(Debug)]
pub struct TestTemplateDefinition {
    pub definition_schema_version: String,
    pub title: String,
    pub description: String,
    pub measurement_axis: MeasurementAxis,
    pub method_code: Option<String>,
    pub method_revision: Option<String>,
    pub standard_references: Vec<String>,
    pub variables: Vec<VariableDefinition>,
    pub lock_policy: Vec<VariableLockPolicy>,
    pub instrumentation_chain: Vec<InstrumentationChainSlot>,
    pub entry_step_id: String,
    pub sequence: Vec<ExecutionSequenceStep>,
    pub limits: Vec<LimitDefinition>,
    pub post_processing: Vec<PostProcessingDefinition>,
    pub method_parameters: Vec<(String, ControlledJsonValue)>,
}

/// The defect of the method reference of a template: code and revision go together,
/// the code is a token and the revision a text.
pub open spec fn method_reference_error(d: TestTemplateDefinition) -> Option<TemplateErrorView> {
    if d.method_code is Some != d.method_revision is Some {
        Some(
            template_error(
                "invalid_method_reference",
                "method_code and method_revision must be provided together"@,
            ),
        )
    } else if d.method_code matches Some(c) && token_error(c@, "method_code"@) is Some {
        token_error(d.method_code->0@, "method_code"@)
    } else if d.method_revision matches Some(r) && text_error(r@, "method_revision"@) is Some {
        text_error(d.method_revision->0@, "method_revision"@)
    } else {
        None
    }
}

/// The first defect of a template: its schema, title and description, method
/// reference, variables, lock policy, instrumentation chain, sequence, limits,
/// post-processing, standard references and method parameters, in that order.
pub open spec fn definition_error(d: TestTemplateDefinition) -> Option<TemplateErrorView> {
    let variable_ids = variable_id_list(d.variables@);
    let slot_ids = slot_id_list(d.instrumentation_chain@);
    if d.definition_schema_version@ != TEST_TEMPLATE_DEFINITION_SCHEMA_VERSION@ {
        Some(
            template_error(
                "unsupported_test_template_definition_schema",
                "unsupported definition schema version: "@ + d.definition_schema_version@,
            ),
        )
    } else if text_error(d.title@, "title"@) is Some {
        text_error(d.title@, "title"@)
    } else if text_error(d.description@, "description"@) is Some {
        text_error(d.description@, "description"@)
    } else if method_reference_error(d) is Some {
        method_reference_error(d)
    } else if variables_error(d.variables@) is Some {
        variables_error(d.variables@)
    } else if lock_policy_error(d.lock_policy@, variable_ids, d.lock_policy@.len()) is Some {
        lock_policy_error(d.lock_policy@, variable_ids, d.lock_policy@.len())
    } else if chain_error(d.instrumentation_chain@) is Some {
        chain_error(d.instrumentation_chain@)
    } else if sequence_error(d.sequence@, d.entry_step_id@, slot_ids) is Some {
        sequence_error(d.sequence@, d.entry_step_id@, slot_ids)
    } else if template_limits_error(d.limits@, variable_ids) is Some {
        template_limits_error(d.limits@, variable_ids)
    } else if template_post_processing_error(d.post_processing@) is Some {
        template_post_processing_error(d.post_processing@)
    } else if first_error(
        |i: int| text_error(d.standard_references@[i]@, "standard_reference"@),
        d.standard_references@.len(),
    ) is Some {
        first_error(
            |i: int| text_error(d.standard_references@[i]@, "standard_reference"@),
            d.standard_references@.len(),
        )
    } else {
        json_entries_error(d.method_parameters@, "method_parameters"@, d.method_parameters@.len())
    }
}

fn check_standard_references(references: &[String]) -> (r: Result<(), TestTemplateValidationError>)
    ensures
        outcome(r) == first_error(
            |i: int| text_error(references@[i]@, "standard_reference"@),
            references@.len(),
        ),
{
    let ghost f = |i: int| text_error(references@[i]@, "standard_reference"@);
    let mut i: usize = 0;
    while i < references.len()
        invariant
            i <= references@.len(),
            f == (|i: int| text_error(references@[i]@, "standard_reference"@)),
            first_error(f, i as nat) is None,
        decreases references@.len() - i,
    {
        match require_text(references[i].as_str(), "standard_reference") {
            Err(e) => {
                proof {
                    lemma_first_error_stays(f, (i + 1) as nat, references@.len());
                    assert(f =~= (|i: int| text_error(references@[i]@, "standard_reference"@)));
                }
                return Err(e);
            },
            Ok(()) => {},
        }
        i = i + 1;
    }
    assert(f =~= (|i: int| text_error(references@[i]@, "standard_reference"@)));
    Ok(())
}

fn check_method_reference(d: &TestTemplateDefinition) -> (r: Result<(), TestTemplateValidationError>)
    ensures
        outcome(r) == method_reference_error(*d),
{
    if d.method_code.is_some() != d.method_revision.is_some() {
        return Err(
            TestTemplateValidationError::new(
                "invalid_method_reference",
                "method_code and method_revision must be provided together".to_owned(),
            ),
        );
    }
    match &d.method_code {
        Some(c) => match require_token(c.as_str(), "method_code") {
            Err(e) => {
                return Err(e);
            },
            Ok(()) => {},
        },
        None => {},
    }
    match &d.method_revision {
        Some(r) => require_text(r.as_str(), "method_revision"),
        None => Ok(()),
    }
}

/// Checks a whole template and returns the first defect found.
pub fn validate_definition(d: &TestTemplateDefinition) -> (r: Result<(), TestTemplateValidationError>)
    ensures
        outcome(r) == definition_error(*d),
{
    if !str_eq(d.definition_schema_version.as_str(), TEST_TEMPLATE_DEFINITION_SCHEMA_VERSION) {
        return Err(
            TestTemplateValidationError::new(
                "unsupported_test_template_definition_schema",
                concat("unsupported definition schema version: ", d.definition_schema_version.as_str()),
            ),
        );
    }
    match require_text(d.title.as_str(), "title") {
        Err(e) => {
            return Err(e);
        },
        Ok(()) => {},
    }
    match require_text(d.description.as_str(), "description") {
        Err(e) => {
            return Err(e);
        },
        Ok(()) => {},
    }
    match check_method_reference(d) {
        Err(e) => {
            return Err(e);
        },
        Ok(()) => {},
    }
    let variable_ids = match validate_variables(d.variables.as_slice()) {
        Err(e) => {
            return Err(e);
        },
        Ok(ids) => ids,
    };
    match validate_lock_policy(d.lock_policy.as_slice(), variable_ids.as_slice()) {
        Err(e) => {
            return Err(e);
        },
        Ok(()) => {},
    }
    let slot_ids = match validate_instrumentation_chain(d.instrumentation_chain.as_slice()) {
        Err(e) => {
            return Err(e);
        },
        Ok(ids) => ids,
    };
    match validate_sequence(d.sequence.as_slice(), d.entry_step_id.as_str(), slot_ids.as_slice()) {
        Err(e) => {
            return Err(e);
        },
        Ok(()) => {},
    }
    match validate_limits(d.limits.as_slice(), variable_ids.as_slice()) {
        Err(e) => {
            return Err(e);
        },
        Ok(()) => {},
    }
    match validate_post_processing(d.post_processing.as_slice()) {
        Err(e) => {
            return Err(e);
        },
        Ok(()) => {},
    }
    match check_standard_references(d.standard_references.as_slice()) {
        Err(e) => {
            return Err(e);
        },
        Ok(()) => {},
    }
    validate_json_map(d.method_parameters.as_slice(), "method_parameters")
}

impl TestTemplateDefinition {
    /// Checks the template; the first defect found is returned.
    pub fn validate(&self) -> (r: Result<(), TestTemplateValidationError>)
        ensures
            outcome(r) == definition_error(*self),
    {
        validate_definition(self)
    }
}

} // verus!
