//! Station measurement setups: the revision workflow, material requirements
//! and assignments, the wiring between materials and the readiness verdict.

use crate::calendar::{days_in_month, days_in_month_spec};
use crate::checksum::{checksum_text, sha256_checksum};
use crate::planned_test_preparation::{canonical_checksum, element_path, is_canonical_checksum};
use crate::method_workflow::{PortDirectionality, SignalDomain};
use crate::sorting::views;
use crate::station_materials::{material_requirement_issues, validate_material_requirements};
use crate::text::{
    all_identifier_characters, all_identifier_chars, concat, indexed_path, push_char, push_str,
    str_eq, trim, trim_seq,
};
use vstd::prelude::*;
use vstd::utf8::encode_utf8;

verus! {

#[derive(Clone, Copy, Debug, PartialEq, Eq, PartialOrd, Ord, Structural)]
pub enum StationSetupRevisionStatus {
    Draft,
    Qualified,
    Ready,
    Superseded,
}

impl StationSetupRevisionStatus {
    pub open spec fn label(self) -> Seq<char> {
        match self {
            StationSetupRevisionStatus::Draft => "draft"@,
            StationSetupRevisionStatus::Qualified => "qualified"@,
            StationSetupRevisionStatus::Ready => "ready"@,
            StationSetupRevisionStatus::Superseded => "superseded"@,
        }
    }

    pub fn as_str(self) -> (r: &'static str)
        ensures
            r@ == self.label(),
    {
        match self {
            StationSetupRevisionStatus::Draft => "draft",
            StationSetupRevisionStatus::Qualified => "qualified",
            StationSetupRevisionStatus::Ready => "ready",
            StationSetupRevisionStatus::Superseded => "superseded",
        }
    }
}

#[derive(Clone, Copy, Debug, PartialEq, Eq, PartialOrd, Ord, Structural)]
pub enum StationMaterialSelectionPolicy {
    CategoryPool,
    CapabilityMatch,
    ExactAsset,
}

#[derive(Clone, Copy, Debug, PartialEq, Eq, PartialOrd, Ord, Structural)]
pub enum StationMaterialAssignmentStage {
    SetupDefinition,
    PlannedTestPreparation,
}

#[derive(Clone, Copy, Debug, PartialEq, Eq, PartialOrd, Ord, Structural)]
pub enum StationMaterialSubstitutionPolicy {
    NoSubstitution,
    SameExactModel,
    SameCategory,
    SameCapabilities,
    ApprovedEquivalent,
}

#[derive(Clone, Copy, Debug, PartialEq, Eq, PartialOrd, Ord, Structural)]
pub enum StationCalibrationRequirement {
    Required,
    IfUsed,
    NotRequired,
}

/// A material category a requirement accepts, possibly with its sub-categories.
#[derive(Clone, Debug, PartialEq, Eq)]
pub struct StationCategoryRequirementDefinition {
    pub category_id: String,
    pub accept_descendants: bool,
}

/// Which physical port of a material plays a logical port.
#[derive(Clone, Debug, PartialEq, Eq)]
pub struct StationPhysicalPortMappingDefinition {
    pub logical_port_id: String,
    pub actual_port_id: String,
}

/// The material chosen for a requirement, pinned to its model revision.
#[derive(Clone, Debug, PartialEq, Eq)]
pub struct StationMaterialAssignmentDefinition {
    pub requirement_id: String,
    pub asset_id: String,
    pub asset_revision: String,
    pub inventory_code: String,
    pub serial_number: Option<String>,
    pub equipment_model_id: String,
    pub equipment_model_revision_id: String,
    pub equipment_model_checksum: String,
    pub selected_ports: Vec<StationPhysicalPortMappingDefinition>,
    pub assignment_context: String,
    pub assigned_on: String,
}

/// A logical port of a material requirement.
#[derive(Clone, Debug, PartialEq, Eq, PartialOrd, Ord)]
pub struct StationLogicalPortEndpoint {
    pub requirement_id: String,
    pub logical_port_id: String,
}

/// A wire between two logical ports.
#[derive(Clone, Debug, PartialEq, Eq)]
pub struct StationLogicalConnectionDefinition {
    pub connection_id: String,
    pub label: String,
    pub from: StationLogicalPortEndpoint,
    pub to: StationLogicalPortEndpoint,
}

#[derive(Clone, Copy, Debug, PartialEq, Eq, Structural)]
pub enum StationCompatibilityState {
    Compatible,
    Incompatible,
    Indeterminate,
}

/// Why a material is or is not compatible with a requirement.
#[derive(Clone, Debug, PartialEq, Eq)]
pub struct StationCompatibilityReason {
    pub code: String,
    pub dimension: String,
    pub message: String,
    pub next_action: Option<String>,
}

#[derive(Clone, Copy, Debug, PartialEq, Eq, PartialOrd, Ord, Structural)]
pub enum StationCorrectionKind {
    TimeConversion,
    FrequencyResponse,
}

impl StationCorrectionKind {
    pub open spec fn label(self) -> Seq<char> {
        match self {
            StationCorrectionKind::TimeConversion => "time_conversion"@,
            StationCorrectionKind::FrequencyResponse => "frequency_response"@,
        }
    }

    pub fn as_str(self) -> (r: &'static str)
        ensures
            r@ == self.label(),
    {
        match self {
            StationCorrectionKind::TimeConversion => "time_conversion",
            StationCorrectionKind::FrequencyResponse => "frequency_response",
        }
    }
}

#[derive(Clone, Copy, Debug, PartialEq, Eq, Structural)]
pub enum StationReadinessSeverity {
    Blocking,
    Warning,
}

#[derive(Clone, Copy, Debug, PartialEq, Eq, Structural)]
pub enum StationReadinessDimension {
    Structure,
    AssetIdentity,
    Serviceability,
    CalibrationValidity,
    MissingEvidence,
    Nonconformance,
    PortCompatibility,
    CorrectionValidity,
}

/// A finding of the station readiness check, with the materials and wires it concerns.
#[derive(Clone, Debug, PartialEq, Eq)]
pub struct StationReadinessIssue {
    pub code: String,
    pub severity: StationReadinessSeverity,
    pub dimension: StationReadinessDimension,
    pub message: String,
    pub binding_ids: Vec<String>,
    pub connection_ids: Vec<String>,
}

/// The readiness of a station setup at a date.
#[derive(Clone, Debug, PartialEq, Eq)]
pub struct StationSetupReadiness {
    pub ready: bool,
    pub checked_on: String,
    pub issues: Vec<StationReadinessIssue>,
}

impl StationSetupReadiness {
    /// The setup is ready when no issue blocks.
    pub fn from_issues(checked_on: &str, issues: Vec<StationReadinessIssue>) -> (r: Self)
        ensures
            r.ready == (forall|i: int|
                0 <= i < issues@.len() ==> (#[trigger] issues@[i]).severity
                    != StationReadinessSeverity::Blocking),
            r.checked_on@ == checked_on@,
            r.issues@ == issues@,
    {
        let mut ready = true;
        let mut k: usize = 0;
        while k < issues.len()
            invariant
                k <= issues@.len(),
                ready == (forall|i: int|
                    0 <= i < k ==> (#[trigger] issues@[i]).severity
                        != StationReadinessSeverity::Blocking),
            decreases issues@.len() - k,
        {
            if issues[k].severity == StationReadinessSeverity::Blocking {
                ready = false;
            }
            k = k + 1;
        }
        StationSetupReadiness { ready, checked_on: checked_on.to_owned(), issues }
    }
}

/// A material placed in the setup under a binding.
#[derive(Clone, Debug, PartialEq, Eq)]
pub struct StationAssetBindingDefinition {
    pub binding_id: String,
    pub role_label: String,
    pub asset_id: String,
    pub asset_revision: String,
    pub equipment_model_id: String,
    pub equipment_model_revision_id: String,
    pub equipment_model_checksum: String,
}

/// A port of a bound material.
#[derive(Clone, Debug, PartialEq, Eq, PartialOrd, Ord)]
pub struct StationPortEndpoint {
    pub binding_id: String,
    pub port_id: String,
}

/// A wire between two ports of bound materials.
#[derive(Clone, Debug, PartialEq, Eq)]
pub struct StationConnectionDefinition {
    pub connection_id: String,
    pub label: String,
    pub from: StationPortEndpoint,
    pub to: StationPortEndpoint,
}

/// A correction (time conversion or frequency response) selected for a material.
#[derive(Clone, Debug, PartialEq, Eq)]
pub struct StationCorrectionSelectionDefinition {
    pub selection_id: String,
    pub binding_id: String,
    pub correction_kind: StationCorrectionKind,
    pub characterization_id: String,
    pub characterization_checksum: String,
    pub label: String,
}

/// A setup definition in canonical form, with its checksum.
#[derive(Clone, Debug, PartialEq, Eq)]
pub struct CanonicalStationMeasurementSetupDefinition {
    pub setup_id: String,
    pub label: String,
    pub definition_schema_version: String,
    pub canonical_json: String,
    pub definition_checksum: String,
}

/// A defect of a setup definition, located by its path.
#[derive(Clone, Debug, PartialEq, Eq)]
pub struct StationSetupValidationIssue {
    pub code: String,
    pub path: String,
    pub message: String,
}

/// The schema of version 3 setups (material requirements and assignments).
pub const STATION_SETUP_DEFINITION_SCHEMA_VERSION: &'static str = "emc-locus.station-measurement-setup-definition.v3";

/// The schema of version 2 setups (bound materials with a location identity).
pub const STATION_SETUP_V2_DEFINITION_SCHEMA_VERSION: &'static str = "emc-locus.station-measurement-setup-definition.v2";

/// The schema of version 1 setups.
pub const LEGACY_STATION_SETUP_DEFINITION_SCHEMA_VERSION: &'static str = "emc-locus.station-measurement-setup-definition.v1";

/// A range that a material must cover, with what the checks read: its unit, which
/// bounds are given, and whether a given bound is not finite or the minimum exceeds the
/// maximum (comparisons of floating-point bounds).
#[derive(Clone, Debug, PartialEq, Eq)]
pub struct StationRangeConstraint {
    pub unit: String,
    pub has_minimum: bool,
    pub has_maximum: bool,
    pub bounds_incoherent: bool,
}

/// The capability contract of a material requirement, with what the checks read: its
/// impedance is held by whether it is given and not a finite positive value.
#[derive(Clone, Debug, PartialEq, Eq)]
pub struct StationCapabilityRequirementDefinition {
    pub capability_kind: String,
    pub model_capability_id: Option<String>,
    pub model_capability_equipment_model_id: Option<String>,
    pub frequency_range: Option<StationRangeConstraint>,
    pub voltage_range: Option<StationRangeConstraint>,
    pub current_range: Option<StationRangeConstraint>,
    pub power_range: Option<StationRangeConstraint>,
    pub detector_modes: Vec<String>,
    pub signal_domain: Option<SignalDomain>,
    pub port_directionality: Option<PortDirectionality>,
    pub connector_requirement: Option<String>,
    pub impedance_invalid: bool,
    pub communication_capability: Option<String>,
    pub automated_control_required: bool,
    pub required_driver_action: Option<String>,
}

/// A logical port that a material requirement declares.
#[derive(Clone, Debug, PartialEq, Eq)]
pub struct StationLogicalPortRequirementDefinition {
    pub logical_port_id: String,
    pub label: String,
    pub directionality: PortDirectionality,
    pub signal_domain: SignalDomain,
    pub connector_requirement: Option<String>,
    pub frequency_range: Option<StationRangeConstraint>,
    pub voltage_range: Option<StationRangeConstraint>,
    pub current_range: Option<StationRangeConstraint>,
    pub power_range: Option<StationRangeConstraint>,
}

/// A role a material must fill in a version 3 setup.
#[derive(Clone, Debug, PartialEq, Eq)]
pub struct StationMaterialRequirementDefinition {
    pub requirement_id: String,
    pub role_label: String,
    pub description: String,
    pub required: bool,
    pub selection_policy: StationMaterialSelectionPolicy,
    pub assignment_stage: StationMaterialAssignmentStage,
    pub substitution_policy: StationMaterialSubstitutionPolicy,
    pub calibration_requirement: StationCalibrationRequirement,
    pub category_requirement: Option<StationCategoryRequirementDefinition>,
    pub capability_requirement: Option<StationCapabilityRequirementDefinition>,
    pub exact_asset_id: Option<String>,
    pub logical_ports: Vec<StationLogicalPortRequirementDefinition>,
}

/// A measurement setup of a station: where and when it is used, its materials, the
/// wires between their ports and the corrections selected for them.
#[derive(Clone, Debug, PartialEq, Eq)]
pub struct StationMeasurementSetupDefinition {
    pub definition_schema_version: String,
    pub setup_id: String,
    pub label: String,
    pub laboratory_location_id: Option<String>,
    pub laboratory_location_label: String,
    pub planned_use_on: String,
    pub execution_mode: String,
    pub asset_bindings: Vec<StationAssetBindingDefinition>,
    pub connections: Vec<StationConnectionDefinition>,
    pub correction_selections: Vec<StationCorrectionSelectionDefinition>,
    pub material_requirements: Vec<StationMaterialRequirementDefinition>,
    pub material_assignments: Vec<StationMaterialAssignmentDefinition>,
    pub logical_connections: Vec<StationLogicalConnectionDefinition>,
}

pub struct SetupIssueView {
    pub code: Seq<char>,
    pub path: Seq<char>,
    pub message: Seq<char>,
}

impl View for StationSetupValidationIssue {
    type V = SetupIssueView;

    open spec fn view(&self) -> SetupIssueView {
        SetupIssueView { code: self.code@, path: self.path@, message: self.message@ }
    }
}

pub open spec fn setup_issues_view(s: Seq<StationSetupValidationIssue>) -> Seq<SetupIssueView> {
    s.map_values(|x: StationSetupValidationIssue| x@)
}

pub open spec fn sissue(code: &str, path: Seq<char>, message: &str) -> SetupIssueView {
    SetupIssueView { code: code@, path, message: message@ }
}

pub open spec fn found(cond: bool, issue: SetupIssueView) -> Seq<SetupIssueView> {
    if cond {
        seq![issue]
    } else {
        seq![]
    }
}

pub(crate) fn push_validation(
    issues: &mut Vec<StationSetupValidationIssue>,
    cond: bool,
    code: &str,
    path: &str,
    message: &str,
)
    ensures
        setup_issues_view(final(issues)@) == setup_issues_view(old(issues)@) + found(
            cond,
            sissue(code, path@, message),
        ),
{
    let ghost before = setup_issues_view(issues@);
    if cond {
        issues.push(
            StationSetupValidationIssue {
                code: code.to_owned(),
                path: path.to_owned(),
                message: message.to_owned(),
            },
        );
    }
    assert(setup_issues_view(issues@) =~= before + found(cond, sissue(code, path@, message)));
}

/// An identifier of a setup: non-blank, without surrounding spaces, of ASCII letters,
/// digits, `-`, `_` and `.`.
pub open spec fn station_id_ok(v: Seq<char>) -> bool {
    trim_seq(v).len() > 0 && v == trim_seq(v) && all_identifier_chars(v)
}

#[verifier::opaque]
pub open spec fn station_id_issues(v: Seq<char>, path: Seq<char>) -> Seq<SetupIssueView> {
    found(
        !station_id_ok(v),
        sissue(
            "invalid_station_setup_identifier",
            path,
            "identifier must use letters, digits, hyphen, underscore, or dot",
        ),
    )
}

/// A text of a setup: non-blank and without surrounding spaces.
#[verifier::opaque]
pub open spec fn station_text_issues(v: Seq<char>, path: Seq<char>, message: &str) -> Seq<
    SetupIssueView,
> {
    found(
        trim_seq(v).len() == 0 || v != trim_seq(v),
        sissue("invalid_station_setup_text", path, message),
    )
}

#[verifier::opaque]
pub open spec fn station_checksum_issues(v: Seq<char>, path: Seq<char>) -> Seq<SetupIssueView> {
    found(
        !canonical_checksum(v),
        sissue(
            "invalid_station_setup_checksum",
            path,
            "reference checksum must use canonical lowercase sha256 form",
        ),
    )
}

pub(crate) fn require_id(issues: &mut Vec<StationSetupValidationIssue>, value: &str, path: &str)
    ensures
        setup_issues_view(final(issues)@) == setup_issues_view(old(issues)@) + station_id_issues(
            value@,
            path@,
        ),
{
    proof {
        reveal(station_id_issues);
    }
    let t = trim(value);
    let valid = !t.as_str().is_empty() && str_eq(value, t.as_str()) && all_identifier_characters(
        value,
    );
    push_validation(
        issues,
        !valid,
        "invalid_station_setup_identifier",
        path,
        "identifier must use letters, digits, hyphen, underscore, or dot",
    );
}

pub(crate) fn require_text(
    issues: &mut Vec<StationSetupValidationIssue>,
    value: &str,
    path: &str,
    message: &str,
)
    ensures
        setup_issues_view(final(issues)@) == setup_issues_view(old(issues)@) + station_text_issues(
            value@,
            path@,
            message,
        ),
{
    proof {
        reveal(station_text_issues);
    }
    let t = trim(value);
    push_validation(
        issues,
        t.as_str().is_empty() || !str_eq(value, t.as_str()),
        "invalid_station_setup_text",
        path,
        message,
    );
}

pub(crate) fn require_checksum(issues: &mut Vec<StationSetupValidationIssue>, value: &str, path: &str)
    ensures
        setup_issues_view(final(issues)@) == setup_issues_view(old(issues)@)
            + station_checksum_issues(value@, path@),
{
    proof {
        reveal(station_checksum_issues);
    }
    push_validation(
        issues,
        !is_canonical_checksum(value),
        "invalid_station_setup_checksum",
        path,
        "reference checksum must use canonical lowercase sha256 form",
    );
}

// ---------------------------------------------------------------------------
// Dates of use
// ---------------------------------------------------------------------------

/// The parts of a text between `-` separators (one part for a text without any).
pub open spec fn dash_split(s: Seq<char>) -> Seq<Seq<char>>
    decreases s.len(),
{
    if s.len() == 0 {
        seq![seq![]]
    } else {
        let rest = dash_split(s.drop_last());
        if s.last() == '-' {
            rest.push(seq![])
        } else {
            rest.update(rest.len() - 1, rest.last().push(s.last()))
        }
    }
}

pub proof fn lemma_dash_split_nonempty(s: Seq<char>)
    ensures
        dash_split(s).len() >= 1,
    decreases s.len(),
{
    if s.len() > 0 {
        lemma_dash_split_nonempty(s.drop_last());
    }
}

pub open spec fn is_digit(c: char) -> bool {
    '0' <= c && c <= '9'
}

pub open spec fn digits_value(s: Seq<char>) -> int
    decreases s.len(),
{
    if s.len() == 0 {
        0
    } else {
        digits_value(s.drop_last()) * 10 + (s.last() as int - 48)
    }
}

pub open spec fn all_digits(s: Seq<char>) -> bool {
    forall|i: int| 0 <= i < s.len() ==> is_digit(#[trigger] s[i])
}

/// The digits of a number: the text without its leading `+`, if any.
pub open spec fn unsigned_digits(part: Seq<char>) -> Seq<char> {
    if part.len() > 0 && part[0] == '+' {
        part.drop_first()
    } else {
        part
    }
}

/// An unsigned decimal number at most `max`, with an optional leading `+`.
pub open spec fn parsed_unsigned(part: Seq<char>, max: int) -> Option<int> {
    let digits = unsigned_digits(part);
    if digits.len() == 0 || !all_digits(digits) {
        None
    } else if digits_value(digits) > max {
        None
    } else {
        Some(digits_value(digits))
    }
}

/// A calendar date `YYYY-MM-DD` of ten bytes, from 1900 on: three numbers separated by
/// `-` (a year up to 65535, a month and a day up to 255, each with an optional `+`), the
/// month in 1..=12 and the day within the month.
pub open spec fn valid_station_date(v: Seq<char>) -> bool {
    let parts = dash_split(v);
    &&& parts.len() == 3
    &&& parsed_unsigned(parts[0], 65535) is Some
    &&& parsed_unsigned(parts[1], 255) is Some
    &&& parsed_unsigned(parts[2], 255) is Some
    &&& encode_utf8(v).len() == 10
    &&& {
        let year = parsed_unsigned(parts[0], 65535).unwrap();
        let month = parsed_unsigned(parts[1], 255).unwrap();
        let day = parsed_unsigned(parts[2], 255).unwrap();
        &&& year >= 1900
        &&& 1 <= month <= 12
        &&& 1 <= day <= days_in_month_spec(year, month)
    }
}

fn split_dashes(v: &str) -> (r: Vec<String>)
    ensures
        views(r@) == dash_split(v@),
{
    let n = v.unicode_len();
    let mut parts: Vec<String> = Vec::new();
    parts.push(String::new());
    let mut i: usize = 0;
    assert(v@.take(0) =~= Seq::<char>::empty());
    assert(views(parts@) =~= dash_split(v@.take(0)));
    while i < n
        invariant
            n == v@.len(),
            i <= n,
            parts@.len() >= 1,
            views(parts@) == dash_split(v@.take(i as int)),
        decreases n - i,
    {
        let c = v.get_char(i);
        assert(v@.take(i + 1).drop_last() =~= v@.take(i as int));
        assert(v@.take(i + 1).last() == c);
        let ghost before = views(parts@);
        if c == '-' {
            parts.push(String::new());
            assert(views(parts@) =~= before.push(Seq::<char>::empty()));
        } else {
            let mut current = parts.pop().unwrap();
            push_char(&mut current, c);
            parts.push(current);
            assert(views(parts@) =~= before.update(before.len() - 1, before.last().push(c)));
        }
        i = i + 1;
    }
    assert(v@.take(n as int) =~= v@);
    parts
}

proof fn lemma_digits_value_step(s: Seq<char>, k: int)
    requires
        0 <= k < s.len(),
    ensures
        digits_value(s.take(k + 1)) == digits_value(s.take(k)) * 10 + (s[k] as int - 48),
{
    assert(s.take(k + 1).drop_last() =~= s.take(k));
}

proof fn lemma_digits_value_nonnegative(s: Seq<char>)
    requires
        forall|i: int| 0 <= i < s.len() ==> is_digit(#[trigger] s[i]),
    ensures
        digits_value(s) >= 0,
    decreases s.len(),
{
    if s.len() > 0 {
        assert forall|i: int| 0 <= i < s.drop_last().len() implies is_digit(
            #[trigger] s.drop_last()[i],
        ) by {
            assert(s.drop_last()[i] == s[i]);
        }
        lemma_digits_value_nonnegative(s.drop_last());
    }
}

pub fn parse_unsigned(part: &String, max: u32) -> (r: Option<u32>)
    requires
        max <= 65535,
    ensures
        match r {
            Some(x) => parsed_unsigned(part@, max as int) == Some(x as int),
            None => parsed_unsigned(part@, max as int) is None,
        },
{
    let n = part.unicode_len();
    let mut start: usize = 0;
    if n > 0 && part.get_char(0) == '+' {
        start = 1;
    }
    let ghost digits = part@.subrange(start as int, n as int);
    assert(digits =~= unsigned_digits(part@));
    if start == n {
        assert(digits.len() == 0);
        assert(parsed_unsigned(part@, max as int) is None);
        return None;
    }
    let cap: u64 = max as u64 + 1;
    let mut acc: u64 = 0;
    let mut k: usize = start;
    assert(digits.take(0) =~= Seq::<char>::empty());
    while k < n
        invariant
            n == part@.len(),
            start <= k <= n,
            start < n,
            digits == part@.subrange(start as int, n as int),
            digits == unsigned_digits(part@),
            cap == max + 1,
            max <= 65535,
            forall|i: int| 0 <= i < k - start ==> is_digit(#[trigger] digits[i]),
            acc as int == if digits_value(digits.take(k - start)) < cap {
                digits_value(digits.take(k - start))
            } else {
                cap as int
            },
        decreases n - k,
    {
        let c = part.get_char(k);
        assert(digits[k - start] == c);
        if !('0' <= c && c <= '9') {
            assert(!is_digit(digits[k - start]));
            return None;
        }
        proof {
            lemma_digits_value_step(digits, k - start);
            assert forall|i: int| 0 <= i < k - start + 1 implies is_digit(#[trigger] digits[i]) by {
                if i == k - start {
                    assert(digits[i] == c);
                }
            }
            assert forall|i: int| 0 <= i < digits.take(k - start).len() implies is_digit(
                #[trigger] digits.take(k - start)[i],
            ) by {
                assert(digits.take(k - start)[i] == digits[i]);
            }
            lemma_digits_value_nonnegative(digits.take(k - start));
        }
        let d = (c as u32 - 48) as u64;
        let next = acc * 10 + d;
        acc = if next < cap {
            next
        } else {
            cap
        };
        k = k + 1;
    }
    assert(digits.take(n - start) =~= digits);
    if acc > max as u64 {
        None
    } else {
        Some(acc as u32)
    }
}

pub(crate) fn valid_date(v: &str) -> (b: bool)
    ensures
        b == valid_station_date(v@),
{
    let parts = split_dashes(v);
    if parts.len() != 3 {
        return false;
    }
    assert(views(parts@)[0] == parts@[0]@);
    assert(views(parts@)[1] == parts@[1]@);
    assert(views(parts@)[2] == parts@[2]@);
    let year = match parse_unsigned(&parts[0], 65535) {
        Some(y) => y,
        None => return false,
    };
    let month = match parse_unsigned(&parts[1], 255) {
        Some(m) => m,
        None => return false,
    };
    let day = match parse_unsigned(&parts[2], 255) {
        Some(d) => d,
        None => return false,
    };
    if v.as_bytes().len() != 10 {
        return false;
    }
    if year < 1900 || month < 1 || month > 12 {
        return false;
    }
    let max_day = days_in_month(year as u16, month as u8);
    1 <= day && day <= max_day as u32
}

// ---------------------------------------------------------------------------
// Integrity of a setup definition
// ---------------------------------------------------------------------------

pub open spec fn known_schema(v: Seq<char>) -> bool {
    v == STATION_SETUP_DEFINITION_SCHEMA_VERSION@ || v == STATION_SETUP_V2_DEFINITION_SCHEMA_VERSION@
        || v == LEGACY_STATION_SETUP_DEFINITION_SCHEMA_VERSION@
}

pub open spec fn known_mode(v: Seq<char>) -> bool {
    v == "accredited"@ || v == "non_accredited"@ || v == "investigation"@
}

/// Versions 2 and 3 need a location identity; version 1 (and any other) must not carry one.
pub open spec fn location_identity_issues(d: StationMeasurementSetupDefinition) -> Seq<SetupIssueView> {
    let v = d.definition_schema_version@;
    if v == STATION_SETUP_DEFINITION_SCHEMA_VERSION@ || v == STATION_SETUP_V2_DEFINITION_SCHEMA_VERSION@ {
        match d.laboratory_location_id {
            Some(l) => station_id_issues(l@, "laboratory_location_id"@),
            None => seq![
                sissue(
                    "station_setup_location_identity_required",
                    "laboratory_location_id"@,
                    "a stable laboratory location identifier is required",
                ),
            ],
        }
    } else {
        found(
            d.laboratory_location_id is Some,
            sissue(
                "legacy_station_setup_location_identity_forbidden",
                "laboratory_location_id"@,
                "legacy station definitions cannot carry the v2 location identity",
            ),
        )
    }
}

/// Version 3 carries material requirements (checked by `material_requirement_issues`) and
/// no bound materials; the other versions carry bound materials and no requirements.
pub open spec fn material_contract_issues(d: StationMeasurementSetupDefinition) -> Seq<
    SetupIssueView,
> {
    if d.definition_schema_version@ == STATION_SETUP_DEFINITION_SCHEMA_VERSION@ {
        found(
            d.asset_bindings@.len() > 0 || d.connections@.len() > 0
                || d.correction_selections@.len() > 0,
            sissue(
                "station_v3_legacy_material_contract_forbidden",
                "$"@,
                "station v3 uses material requirements, assignments, and logical connections",
            ),
        ) + material_requirement_issues(d)
    } else {
        found(
            d.material_requirements@.len() > 0 || d.material_assignments@.len() > 0
                || d.logical_connections@.len() > 0,
            sissue(
                "legacy_station_v3_contract_forbidden",
                "$"@,
                "station v1 and v2 definitions cannot carry v3 material requirements",
            ),
        )
    }
}

/// The checks of the setup as a whole, before its materials, wires and corrections.
pub open spec fn setup_head_issues(d: StationMeasurementSetupDefinition) -> Seq<SetupIssueView> {
    found(
        !known_schema(d.definition_schema_version@),
        sissue(
            "unsupported_station_setup_schema",
            "definition_schema_version"@,
            "unsupported station measurement setup schema",
        ),
    ) + station_id_issues(d.setup_id@, "setup_id"@) + station_text_issues(
        d.label@,
        "label"@,
        "a setup name is required",
    ) + location_identity_issues(d) + material_contract_issues(d)
        + station_text_issues(
        d.laboratory_location_label@,
        "laboratory_location_label"@,
        "a laboratory location label is required",
    ) + found(
        !valid_station_date(d.planned_use_on@),
        sissue(
            "invalid_station_setup_date",
            "planned_use_on"@,
            "planned use date must be a valid YYYY-MM-DD date",
        ),
    ) + found(
        !known_mode(d.execution_mode@),
        sissue(
            "invalid_station_setup_execution_mode",
            "execution_mode"@,
            "execution mode must be accredited, non_accredited, or investigation",
        ),
    )
}

pub open spec fn binding_path(i: int, suffix: Seq<char>) -> Seq<char> {
    element_path("asset_bindings"@, i, suffix)
}

pub open spec fn binding_id_seen_before(bs: Seq<StationAssetBindingDefinition>, i: int) -> bool {
    exists|j: int| 0 <= j < i && (#[trigger] bs[j]).binding_id@ == bs[i].binding_id@
}

pub open spec fn asset_id_seen_before(bs: Seq<StationAssetBindingDefinition>, i: int) -> bool {
    exists|j: int| 0 <= j < i && (#[trigger] bs[j]).asset_id@ == bs[i].asset_id@
}

/// The checks of the bound material at `i`.
pub open spec fn binding_checks(bs: Seq<StationAssetBindingDefinition>, i: int) -> Seq<SetupIssueView> {
    let b = bs[i];
    station_id_issues(b.binding_id@, binding_path(i, ".binding_id"@)) + station_text_issues(
        b.role_label@,
        binding_path(i, ".role_label"@),
        "a laboratory role is required for each material",
    ) + station_id_issues(b.asset_id@, binding_path(i, ".asset_id"@)) + station_id_issues(
        b.asset_revision@,
        binding_path(i, ".asset_revision"@),
    ) + station_id_issues(b.equipment_model_id@, binding_path(i, ".equipment_model_id"@))
        + station_id_issues(
        b.equipment_model_revision_id@,
        binding_path(i, ".equipment_model_revision_id"@),
    ) + station_checksum_issues(
        b.equipment_model_checksum@,
        binding_path(i, ".equipment_model_checksum"@),
    ) + found(
        binding_id_seen_before(bs, i),
        sissue(
            "duplicate_station_binding_id",
            binding_path(i, ".binding_id"@),
            "material binding identifiers must be unique",
        ),
    ) + found(
        asset_id_seen_before(bs, i),
        sissue(
            "duplicate_station_asset",
            binding_path(i, ".asset_id"@),
            "the same physical material cannot be added twice",
        ),
    )
}

pub open spec fn binding_pass(bs: Seq<StationAssetBindingDefinition>, n: int) -> Seq<SetupIssueView>
    decreases n,
{
    if n <= 0 {
        seq![]
    } else {
        binding_pass(bs, n - 1) + binding_checks(bs, n - 1)
    }
}

#[verifier::rlimit(80)]
#[verifier::spinoff_prover]
fn check_binding(issues: &mut Vec<StationSetupValidationIssue>, bs: &Vec<StationAssetBindingDefinition>, i: usize)
    requires
        i < bs@.len(),
    ensures
        setup_issues_view(final(issues)@) == setup_issues_view(old(issues)@) + binding_checks(
            bs@,
            i as int,
        ),
{
    let ghost before = setup_issues_view(issues@);
    let b = &bs[i];
    let binding_path = indexed_path("asset_bindings", i, ".binding_id");
    let asset_path = indexed_path("asset_bindings", i, ".asset_id");
    require_id(issues, b.binding_id.as_str(), binding_path.as_str());
    require_text(
        issues,
        b.role_label.as_str(),
        indexed_path("asset_bindings", i, ".role_label").as_str(),
        "a laboratory role is required for each material",
    );
    require_id(issues, b.asset_id.as_str(), asset_path.as_str());
    require_id(
        issues,
        b.asset_revision.as_str(),
        indexed_path("asset_bindings", i, ".asset_revision").as_str(),
    );
    require_id(
        issues,
        b.equipment_model_id.as_str(),
        indexed_path("asset_bindings", i, ".equipment_model_id").as_str(),
    );
    require_id(
        issues,
        b.equipment_model_revision_id.as_str(),
        indexed_path("asset_bindings", i, ".equipment_model_revision_id").as_str(),
    );
    require_checksum(
        issues,
        b.equipment_model_checksum.as_str(),
        indexed_path("asset_bindings", i, ".equipment_model_checksum").as_str(),
    );
    let mut binding_seen = false;
    let mut asset_seen = false;
    let mut j: usize = 0;
    while j < i
        invariant
            i < bs@.len(),
            j <= i,
            b == &bs@[i as int],
            binding_seen == exists|k: int| 0 <= k < j && (#[trigger] bs@[k]).binding_id@
                == bs@[i as int].binding_id@,
            asset_seen == exists|k: int| 0 <= k < j && (#[trigger] bs@[k]).asset_id@
                == bs@[i as int].asset_id@,
        decreases i - j,
    {
        if str_eq(bs[j].binding_id.as_str(), b.binding_id.as_str()) {
            binding_seen = true;
        }
        if str_eq(bs[j].asset_id.as_str(), b.asset_id.as_str()) {
            asset_seen = true;
        }
        j = j + 1;
    }
    push_validation(
        issues,
        binding_seen,
        "duplicate_station_binding_id",
        binding_path.as_str(),
        "material binding identifiers must be unique",
    );
    push_validation(
        issues,
        asset_seen,
        "duplicate_station_asset",
        asset_path.as_str(),
        "the same physical material cannot be added twice",
    );
    assert(setup_issues_view(issues@) =~= before + binding_checks(bs@, i as int));
}

pub open spec fn has_binding(bs: Seq<StationAssetBindingDefinition>, id: Seq<char>) -> bool {
    exists|j: int| 0 <= j < bs.len() && (#[trigger] bs[j]).binding_id@ == id
}

pub open spec fn same_endpoint(a: StationPortEndpoint, b: StationPortEndpoint) -> bool {
    a.binding_id@ == b.binding_id@ && a.port_id@ == b.port_id@
}

pub open spec fn connection_path(i: int, suffix: Seq<char>) -> Seq<char> {
    element_path("connections"@, i, suffix)
}

pub open spec fn connection_id_seen_before(cs: Seq<StationConnectionDefinition>, i: int) -> bool {
    exists|j: int| 0 <= j < i && (#[trigger] cs[j]).connection_id@ == cs[i].connection_id@
}

pub open spec fn port_pair_seen_before(cs: Seq<StationConnectionDefinition>, i: int) -> bool {
    exists|j: int|
        0 <= j < i && same_endpoint((#[trigger] cs[j]).from, cs[i].from) && same_endpoint(
            cs[j].to,
            cs[i].to,
        )
}

pub open spec fn input_seen_before(cs: Seq<StationConnectionDefinition>, i: int) -> bool {
    exists|j: int| 0 <= j < i && same_endpoint((#[trigger] cs[j]).to, cs[i].to)
}

/// The checks of the wire at `i`.
pub open spec fn connection_checks(
    cs: Seq<StationConnectionDefinition>,
    bs: Seq<StationAssetBindingDefinition>,
    i: int,
) -> Seq<SetupIssueView> {
    let c = cs[i];
    station_id_issues(c.connection_id@, connection_path(i, ".connection_id"@)) + station_text_issues(
        c.label@,
        connection_path(i, ".label"@),
        "a connection name is required",
    ) + station_id_issues(c.from.binding_id@, connection_path(i, ".from.binding_id"@))
        + station_id_issues(c.from.port_id@, connection_path(i, ".from.port_id"@))
        + station_id_issues(c.to.binding_id@, connection_path(i, ".to.binding_id"@))
        + station_id_issues(c.to.port_id@, connection_path(i, ".to.port_id"@)) + found(
        connection_id_seen_before(cs, i),
        sissue(
            "duplicate_station_connection_id",
            connection_path(i, ".connection_id"@),
            "connection identifiers must be unique",
        ),
    ) + found(
        !has_binding(bs, c.from.binding_id@),
        sissue(
            "station_connection_unknown_source_material",
            connection_path(i, ".from.binding_id"@),
            "the source material is not part of this setup",
        ),
    ) + found(
        !has_binding(bs, c.to.binding_id@),
        sissue(
            "station_connection_unknown_destination_material",
            connection_path(i, ".to.binding_id"@),
            "the destination material is not part of this setup",
        ),
    ) + found(
        c.from.binding_id@ == c.to.binding_id@,
        sissue(
            "station_connection_same_material",
            connection_path(i, ""@),
            "a physical connection must link two different materials",
        ),
    ) + found(
        port_pair_seen_before(cs, i),
        sissue(
            "duplicate_station_connection",
            connection_path(i, ""@),
            "the same two ports are already connected",
        ),
    ) + found(
        input_seen_before(cs, i),
        sissue(
            "station_input_connected_twice",
            connection_path(i, ".to"@),
            "a destination port cannot receive two physical connections",
        ),
    )
}

pub open spec fn connection_pass(
    cs: Seq<StationConnectionDefinition>,
    bs: Seq<StationAssetBindingDefinition>,
    n: int,
) -> Seq<SetupIssueView>
    decreases n,
{
    if n <= 0 {
        seq![]
    } else {
        connection_pass(cs, bs, n - 1) + connection_checks(cs, bs, n - 1)
    }
}

fn contains_binding(bs: &Vec<StationAssetBindingDefinition>, id: &String) -> (b: bool)
    ensures
        b == has_binding(bs@, id@),
{
    let mut k: usize = 0;
    while k < bs.len()
        invariant
            k <= bs@.len(),
            forall|j: int| 0 <= j < k ==> (#[trigger] bs@[j]).binding_id@ != id@,
        decreases bs@.len() - k,
    {
        if str_eq(bs[k].binding_id.as_str(), id.as_str()) {
            return true;
        }
        k = k + 1;
    }
    false
}

fn endpoints_equal(a: &StationPortEndpoint, b: &StationPortEndpoint) -> (r: bool)
    ensures
        r == same_endpoint(*a, *b),
{
    str_eq(a.binding_id.as_str(), b.binding_id.as_str()) && str_eq(
        a.port_id.as_str(),
        b.port_id.as_str(),
    )
}

#[verifier::rlimit(80)]
#[verifier::spinoff_prover]
fn check_connection(
    issues: &mut Vec<StationSetupValidationIssue>,
    cs: &Vec<StationConnectionDefinition>,
    bs: &Vec<StationAssetBindingDefinition>,
    i: usize,
)
    requires
        i < cs@.len(),
    ensures
        setup_issues_view(final(issues)@) == setup_issues_view(old(issues)@) + connection_checks(
            cs@,
            bs@,
            i as int,
        ),
{
    let ghost before = setup_issues_view(issues@);
    let c = &cs[i];
    let id_path = indexed_path("connections", i, ".connection_id");
    let from_path = indexed_path("connections", i, ".from.binding_id");
    let to_path = indexed_path("connections", i, ".to.binding_id");
    let path = indexed_path("connections", i, "");
    proof {
        reveal_strlit("");
    }
    require_id(issues, c.connection_id.as_str(), id_path.as_str());
    require_text(
        issues,
        c.label.as_str(),
        indexed_path("connections", i, ".label").as_str(),
        "a connection name is required",
    );
    require_id(issues, c.from.binding_id.as_str(), from_path.as_str());
    require_id(
        issues,
        c.from.port_id.as_str(),
        indexed_path("connections", i, ".from.port_id").as_str(),
    );
    require_id(issues, c.to.binding_id.as_str(), to_path.as_str());
    require_id(issues, c.to.port_id.as_str(), indexed_path("connections", i, ".to.port_id").as_str());
    let mut id_seen = false;
    let mut pair_seen = false;
    let mut input_seen = false;
    let mut j: usize = 0;
    while j < i
        invariant
            i < cs@.len(),
            j <= i,
            c == &cs@[i as int],
            id_seen == exists|k: int| 0 <= k < j && (#[trigger] cs@[k]).connection_id@
                == cs@[i as int].connection_id@,
            pair_seen == exists|k: int|
                0 <= k < j && same_endpoint((#[trigger] cs@[k]).from, cs@[i as int].from)
                    && same_endpoint(cs@[k].to, cs@[i as int].to),
            input_seen == exists|k: int| 0 <= k < j && same_endpoint((#[trigger] cs@[k]).to, cs@[i as int].to),
        decreases i - j,
    {
        let other = &cs[j];
        if str_eq(other.connection_id.as_str(), c.connection_id.as_str()) {
            id_seen = true;
        }
        let same_to = endpoints_equal(&other.to, &c.to);
        if endpoints_equal(&other.from, &c.from) && same_to {
            pair_seen = true;
        }
        if same_to {
            input_seen = true;
        }
        j = j + 1;
    }
    push_validation(
        issues,
        id_seen,
        "duplicate_station_connection_id",
        id_path.as_str(),
        "connection identifiers must be unique",
    );
    push_validation(
        issues,
        !contains_binding(bs, &c.from.binding_id),
        "station_connection_unknown_source_material",
        from_path.as_str(),
        "the source material is not part of this setup",
    );
    push_validation(
        issues,
        !contains_binding(bs, &c.to.binding_id),
        "station_connection_unknown_destination_material",
        to_path.as_str(),
        "the destination material is not part of this setup",
    );
    push_validation(
        issues,
        str_eq(c.from.binding_id.as_str(), c.to.binding_id.as_str()),
        "station_connection_same_material",
        path.as_str(),
        "a physical connection must link two different materials",
    );
    push_validation(
        issues,
        pair_seen,
        "duplicate_station_connection",
        path.as_str(),
        "the same two ports are already connected",
    );
    push_validation(
        issues,
        input_seen,
        "station_input_connected_twice",
        indexed_path("connections", i, ".to").as_str(),
        "a destination port cannot receive two physical connections",
    );
    assert(setup_issues_view(issues@) =~= before + connection_checks(cs@, bs@, i as int));
}

pub open spec fn correction_path(i: int, suffix: Seq<char>) -> Seq<char> {
    element_path("correction_selections"@, i, suffix)
}

pub open spec fn selection_id_seen_before(ss: Seq<StationCorrectionSelectionDefinition>, i: int) -> bool {
    exists|j: int| 0 <= j < i && (#[trigger] ss[j]).selection_id@ == ss[i].selection_id@
}

pub open spec fn correction_kind_seen_before(ss: Seq<StationCorrectionSelectionDefinition>, i: int) -> bool {
    exists|j: int|
        0 <= j < i && (#[trigger] ss[j]).binding_id@ == ss[i].binding_id@ && ss[j].correction_kind
            == ss[i].correction_kind
}

/// The checks of the correction selection at `i`.
pub open spec fn correction_checks(
    ss: Seq<StationCorrectionSelectionDefinition>,
    bs: Seq<StationAssetBindingDefinition>,
    i: int,
) -> Seq<SetupIssueView> {
    let c = ss[i];
    station_id_issues(c.selection_id@, correction_path(i, ".selection_id"@)) + station_id_issues(
        c.binding_id@,
        correction_path(i, ".binding_id"@),
    ) + station_id_issues(c.characterization_id@, correction_path(i, ".characterization_id"@))
        + station_checksum_issues(
        c.characterization_checksum@,
        correction_path(i, ".characterization_checksum"@),
    ) + station_text_issues(
        c.label@,
        correction_path(i, ".label"@),
        "a correction label is required",
    ) + found(
        selection_id_seen_before(ss, i),
        sissue(
            "duplicate_station_correction_selection_id",
            correction_path(i, ".selection_id"@),
            "correction selection identifiers must be unique",
        ),
    ) + found(
        !has_binding(bs, c.binding_id@),
        sissue(
            "station_correction_unknown_material",
            correction_path(i, ".binding_id"@),
            "the corrected material is not part of this setup",
        ),
    ) + found(
        correction_kind_seen_before(ss, i),
        sissue(
            "duplicate_station_correction_kind",
            correction_path(i, ""@),
            "only one correction of each kind can be selected for a material",
        ),
    )
}

pub open spec fn correction_pass(
    ss: Seq<StationCorrectionSelectionDefinition>,
    bs: Seq<StationAssetBindingDefinition>,
    n: int,
) -> Seq<SetupIssueView>
    decreases n,
{
    if n <= 0 {
        seq![]
    } else {
        correction_pass(ss, bs, n - 1) + correction_checks(ss, bs, n - 1)
    }
}

#[verifier::rlimit(80)]
#[verifier::spinoff_prover]
fn check_correction(
    issues: &mut Vec<StationSetupValidationIssue>,
    ss: &Vec<StationCorrectionSelectionDefinition>,
    bs: &Vec<StationAssetBindingDefinition>,
    i: usize,
)
    requires
        i < ss@.len(),
    ensures
        setup_issues_view(final(issues)@) == setup_issues_view(old(issues)@) + correction_checks(
            ss@,
            bs@,
            i as int,
        ),
{
    let ghost before = setup_issues_view(issues@);
    let c = &ss[i];
    let id_path = indexed_path("correction_selections", i, ".selection_id");
    let binding_path = indexed_path("correction_selections", i, ".binding_id");
    proof {
        reveal_strlit("");
    }
    require_id(issues, c.selection_id.as_str(), id_path.as_str());
    require_id(issues, c.binding_id.as_str(), binding_path.as_str());
    require_id(
        issues,
        c.characterization_id.as_str(),
        indexed_path("correction_selections", i, ".characterization_id").as_str(),
    );
    require_checksum(
        issues,
        c.characterization_checksum.as_str(),
        indexed_path("correction_selections", i, ".characterization_checksum").as_str(),
    );
    require_text(
        issues,
        c.label.as_str(),
        indexed_path("correction_selections", i, ".label").as_str(),
        "a correction label is required",
    );
    let mut id_seen = false;
    let mut kind_seen = false;
    let mut j: usize = 0;
    while j < i
        invariant
            i < ss@.len(),
            j <= i,
            c == &ss@[i as int],
            id_seen == exists|k: int| 0 <= k < j && (#[trigger] ss@[k]).selection_id@
                == ss@[i as int].selection_id@,
            kind_seen == exists|k: int|
                0 <= k < j && (#[trigger] ss@[k]).binding_id@ == ss@[i as int].binding_id@
                    && ss@[k].correction_kind == ss@[i as int].correction_kind,
        decreases i - j,
    {
        let other = &ss[j];
        if str_eq(other.selection_id.as_str(), c.selection_id.as_str()) {
            id_seen = true;
        }
        if str_eq(other.binding_id.as_str(), c.binding_id.as_str()) && other.correction_kind
            == c.correction_kind {
            kind_seen = true;
        }
        j = j + 1;
    }
    push_validation(
        issues,
        id_seen,
        "duplicate_station_correction_selection_id",
        id_path.as_str(),
        "correction selection identifiers must be unique",
    );
    push_validation(
        issues,
        !contains_binding(bs, &c.binding_id),
        "station_correction_unknown_material",
        binding_path.as_str(),
        "the corrected material is not part of this setup",
    );
    push_validation(
        issues,
        kind_seen,
        "duplicate_station_correction_kind",
        indexed_path("correction_selections", i, "").as_str(),
        "only one correction of each kind can be selected for a material",
    );
    assert(setup_issues_view(issues@) =~= before + correction_checks(ss@, bs@, i as int));
}

/// Every defect of a setup definition, in the order they are reported: the setup as a
/// whole (see `setup_head_issues`), then each bound material, each wire and each
/// correction selection.
pub open spec fn setup_integrity_issues(d: StationMeasurementSetupDefinition) -> Seq<
    SetupIssueView,
> {
    setup_head_issues(d) + binding_pass(
        d.asset_bindings@,
        d.asset_bindings@.len() as int,
    ) + connection_pass(d.connections@, d.asset_bindings@, d.connections@.len() as int)
        + correction_pass(
        d.correction_selections@,
        d.asset_bindings@,
        d.correction_selections@.len() as int,
    )
}

fn is_known_schema(v: &str) -> (b: bool)
    ensures
        b == known_schema(v@),
{
    str_eq(v, STATION_SETUP_DEFINITION_SCHEMA_VERSION) || str_eq(
        v,
        STATION_SETUP_V2_DEFINITION_SCHEMA_VERSION,
    ) || str_eq(v, LEGACY_STATION_SETUP_DEFINITION_SCHEMA_VERSION)
}

#[verifier::rlimit(80)]
#[verifier::spinoff_prover]
fn check_setup_head(issues: &mut Vec<StationSetupValidationIssue>, d: &StationMeasurementSetupDefinition)
    ensures
        setup_issues_view(final(issues)@) == setup_issues_view(old(issues)@) + setup_head_issues(
            *d,
        ),
{
    let ghost before = setup_issues_view(issues@);
    let version = d.definition_schema_version.as_str();
    push_validation(
        issues,
        !is_known_schema(version),
        "unsupported_station_setup_schema",
        "definition_schema_version",
        "unsupported station measurement setup schema",
    );
    require_id(issues, d.setup_id.as_str(), "setup_id");
    require_text(issues, d.label.as_str(), "label", "a setup name is required");
    let ghost s1 = setup_issues_view(issues@);
    let is_v3 = str_eq(version, STATION_SETUP_DEFINITION_SCHEMA_VERSION);
    if is_v3 || str_eq(version, STATION_SETUP_V2_DEFINITION_SCHEMA_VERSION) {
        match &d.laboratory_location_id {
            Some(l) => require_id(issues, l.as_str(), "laboratory_location_id"),
            None => push_validation(
                issues,
                true,
                "station_setup_location_identity_required",
                "laboratory_location_id",
                "a stable laboratory location identifier is required",
            ),
        }
    } else {
        push_validation(
            issues,
            d.laboratory_location_id.is_some(),
            "legacy_station_setup_location_identity_forbidden",
            "laboratory_location_id",
            "legacy station definitions cannot carry the v2 location identity",
        );
    }
    assert(setup_issues_view(issues@) =~= s1 + location_identity_issues(*d));
    let ghost s2 = setup_issues_view(issues@);
    if is_v3 {
        push_validation(
            issues,
            d.asset_bindings.len() > 0 || d.connections.len() > 0 || d.correction_selections.len()
                > 0,
            "station_v3_legacy_material_contract_forbidden",
            "$",
            "station v3 uses material requirements, assignments, and logical connections",
        );
        validate_material_requirements(d, issues);
    } else {
        push_validation(
            issues,
            d.material_requirements.len() > 0 || d.material_assignments.len() > 0
                || d.logical_connections.len() > 0,
            "legacy_station_v3_contract_forbidden",
            "$",
            "station v1 and v2 definitions cannot carry v3 material requirements",
        );
    }
    assert(setup_issues_view(issues@) =~= s2 + material_contract_issues(*d));
    require_text(
        issues,
        d.laboratory_location_label.as_str(),
        "laboratory_location_label",
        "a laboratory location label is required",
    );
    push_validation(
        issues,
        !valid_date(d.planned_use_on.as_str()),
        "invalid_station_setup_date",
        "planned_use_on",
        "planned use date must be a valid YYYY-MM-DD date",
    );
    let mode = d.execution_mode.as_str();
    push_validation(
        issues,
        !(str_eq(mode, "accredited") || str_eq(mode, "non_accredited") || str_eq(
            mode,
            "investigation",
        )),
        "invalid_station_setup_execution_mode",
        "execution_mode",
        "execution mode must be accredited, non_accredited, or investigation",
    );
    proof {
        reveal_strlit("definition_schema_version");
        reveal_strlit("setup_id");
        reveal_strlit("label");
        reveal_strlit("laboratory_location_id");
        reveal_strlit("$");
        reveal_strlit("laboratory_location_label");
        reveal_strlit("planned_use_on");
        reveal_strlit("execution_mode");
    }
    assert(setup_issues_view(issues@) =~= before + setup_head_issues(*d));
}

/// Every defect of the setup definition (see `setup_integrity_issues`).
pub fn validate_station_setup_integrity(definition: &StationMeasurementSetupDefinition) -> (r: Vec<
    StationSetupValidationIssue,
>)
    ensures
        setup_issues_view(r@) == setup_integrity_issues(*definition),
{
    let mut issues: Vec<StationSetupValidationIssue> = Vec::new();
    assert(setup_issues_view(issues@) =~= Seq::<SetupIssueView>::empty());
    check_setup_head(&mut issues, definition);
    let ghost s1 = setup_issues_view(issues@);
    let bs = &definition.asset_bindings;
    let mut i: usize = 0;
    assert(s1 =~= s1 + binding_pass(bs@, 0));
    while i < bs.len()
        invariant
            i <= bs@.len(),
            bs == &definition.asset_bindings,
            setup_issues_view(issues@) == s1 + binding_pass(bs@, i as int),
        decreases bs@.len() - i,
    {
        check_binding(&mut issues, bs, i);
        assert(setup_issues_view(issues@) =~= s1 + binding_pass(bs@, i + 1));
        i = i + 1;
    }
    let ghost s2 = setup_issues_view(issues@);
    let cs = &definition.connections;
    let mut i: usize = 0;
    assert(s2 =~= s2 + connection_pass(cs@, bs@, 0));
    while i < cs.len()
        invariant
            i <= cs@.len(),
            bs == &definition.asset_bindings,
            cs == &definition.connections,
            setup_issues_view(issues@) == s2 + connection_pass(cs@, bs@, i as int),
        decreases cs@.len() - i,
    {
        check_connection(&mut issues, cs, bs, i);
        assert(setup_issues_view(issues@) =~= s2 + connection_pass(cs@, bs@, i + 1));
        i = i + 1;
    }
    let ghost s3 = setup_issues_view(issues@);
    let ss = &definition.correction_selections;
    let mut i: usize = 0;
    assert(s3 =~= s3 + correction_pass(ss@, bs@, 0));
    while i < ss.len()
        invariant
            i <= ss@.len(),
            bs == &definition.asset_bindings,
            ss == &definition.correction_selections,
            setup_issues_view(issues@) == s3 + correction_pass(ss@, bs@, i as int),
        decreases ss@.len() - i,
    {
        check_correction(&mut issues, ss, bs, i);
        assert(setup_issues_view(issues@) =~= s3 + correction_pass(ss@, bs@, i + 1));
        i = i + 1;
    }
    assert(setup_issues_view(issues@) =~= setup_integrity_issues(*definition));
    issues
}

// ---------------------------------------------------------------------------
// Structural readiness of a setup
// ---------------------------------------------------------------------------

pub struct ReadinessIssueView {
    pub code: Seq<char>,
    pub severity: StationReadinessSeverity,
    pub dimension: StationReadinessDimension,
    pub message: Seq<char>,
    pub binding_ids: Seq<Seq<char>>,
    pub connection_ids: Seq<Seq<char>>,
}

impl View for StationReadinessIssue {
    type V = ReadinessIssueView;

    open spec fn view(&self) -> ReadinessIssueView {
        ReadinessIssueView {
            code: self.code@,
            severity: self.severity,
            dimension: self.dimension,
            message: self.message@,
            binding_ids: views(self.binding_ids@),
            connection_ids: views(self.connection_ids@),
        }
    }
}

pub open spec fn readiness_view(s: Seq<StationReadinessIssue>) -> Seq<ReadinessIssueView> {
    s.map_values(|x: StationReadinessIssue| x@)
}

/// A blocking structural finding.
pub open spec fn structure_issue(
    code: &str,
    message: Seq<char>,
    binding_ids: Seq<Seq<char>>,
    connection_ids: Seq<Seq<char>>,
) -> ReadinessIssueView {
    ReadinessIssueView {
        code: code@,
        severity: StationReadinessSeverity::Blocking,
        dimension: StationReadinessDimension::Structure,
        message,
        binding_ids,
        connection_ids,
    }
}

pub open spec fn found_readiness(cond: bool, issue: ReadinessIssueView) -> Seq<ReadinessIssueView> {
    if cond {
        seq![issue]
    } else {
        seq![]
    }
}

fn push_readiness(issues: &mut Vec<StationReadinessIssue>, cond: bool, issue: StationReadinessIssue)
    ensures
        readiness_view(final(issues)@) == readiness_view(old(issues)@) + found_readiness(cond, issue@),
{
    let ghost before = readiness_view(issues@);
    let ghost v = issue@;
    if cond {
        issues.push(issue);
    }
    assert(readiness_view(issues@) =~= before + found_readiness(cond, v));
}

fn structure_finding(
    code: &str,
    message: String,
    binding_ids: Vec<String>,
    connection_ids: Vec<String>,
) -> (r: StationReadinessIssue)
    ensures
        r@ == structure_issue(code, message@, views(binding_ids@), views(connection_ids@)),
{
    StationReadinessIssue {
        code: code.to_owned(),
        severity: StationReadinessSeverity::Blocking,
        dimension: StationReadinessDimension::Structure,
        message,
        binding_ids,
        connection_ids,
    }
}

fn single_text(value: &String) -> (r: Vec<String>)
    ensures
        views(r@) == seq![value@],
{
    let mut r: Vec<String> = Vec::new();
    r.push(value.clone());
    assert(views(r@) =~= seq![value@]);
    r
}

fn no_texts() -> (r: Vec<String>)
    ensures
        views(r@) == Seq::<Seq<char>>::empty(),
{
    let r: Vec<String> = Vec::new();
    assert(views(r@) =~= Seq::<Seq<char>>::empty());
    r
}

/// Some logical wire starts or ends at the requirement.
pub open spec fn requirement_connected(
    wires: Seq<StationLogicalConnectionDefinition>,
    requirement_id: Seq<char>,
) -> bool {
    exists|k: int|
        0 <= k < wires.len() && ((#[trigger] wires[k]).from.requirement_id@ == requirement_id
            || wires[k].to.requirement_id@ == requirement_id)
}

/// Some material is assigned to the requirement.
pub open spec fn requirement_assigned(
    assignments: Seq<StationMaterialAssignmentDefinition>,
    requirement_id: Seq<char>,
) -> bool {
    exists|k: int| 0 <= k < assignments.len() && (#[trigger] assignments[k]).requirement_id@ == requirement_id
}

/// The findings on the requirement at `i`: a required role with no logical wire, then
/// (when `with_assignment`) a role without an assigned material, blocking when required.
pub open spec fn requirement_readiness(
    d: StationMeasurementSetupDefinition,
    i: int,
    with_assignment: bool,
) -> Seq<ReadinessIssueView> {
    let r = d.material_requirements@[i];
    found_readiness(
        r.required && !requirement_connected(d.logical_connections@, r.requirement_id@),
        structure_issue(
            "station_required_material_role_not_connected",
            "Le rôle obligatoire « "@ + r.role_label@ + " » n'est relié à aucun autre rôle."@,
            seq![r.requirement_id@],
            seq![],
        ),
    ) + found_readiness(
        with_assignment && !requirement_assigned(d.material_assignments@, r.requirement_id@),
        if r.required {
            ReadinessIssueView {
                code: "station_required_material_unassigned"@,
                severity: StationReadinessSeverity::Blocking,
                dimension: StationReadinessDimension::AssetIdentity,
                message: "Le rôle obligatoire « "@ + r.role_label@
                    + " » n'a pas encore d'exemplaire affecté."@,
                binding_ids: seq![r.requirement_id@],
                connection_ids: seq![],
            }
        } else {
            ReadinessIssueView {
                code: "station_optional_material_unassigned"@,
                severity: StationReadinessSeverity::Warning,
                dimension: StationReadinessDimension::AssetIdentity,
                message: "Le rôle optionnel « "@ + r.role_label@ + " » reste sans exemplaire affecté."@,
                binding_ids: seq![r.requirement_id@],
                connection_ids: seq![],
            }
        },
    )
}

pub open spec fn requirement_readiness_pass(
    d: StationMeasurementSetupDefinition,
    n: int,
    with_assignment: bool,
) -> Seq<ReadinessIssueView>
    decreases n,
{
    if n <= 0 {
        seq![]
    } else {
        requirement_readiness_pass(d, n - 1, with_assignment) + requirement_readiness(
            d,
            n - 1,
            with_assignment,
        )
    }
}

/// The structural findings of a version 3 setup: fewer than two roles, no logical wire,
/// then those of each requirement (see `requirement_readiness`).
pub open spec fn v3_readiness(d: StationMeasurementSetupDefinition, with_assignment: bool) -> Seq<
    ReadinessIssueView,
> {
    found_readiness(
        d.material_requirements@.len() < 2,
        structure_issue(
            "station_setup_requires_two_material_roles",
            "Ajoutez au moins deux rôles matériels au montage."@,
            seq![],
            seq![],
        ),
    ) + found_readiness(
        d.logical_connections@.len() == 0,
        structure_issue(
            "station_setup_requires_logical_connection",
            "Reliez les ports logiques pour former un chemin de signal."@,
            seq![],
            seq![],
        ),
    ) + requirement_readiness_pass(d, d.material_requirements@.len() as int, with_assignment)
}

fn requirement_is_connected(wires: &Vec<StationLogicalConnectionDefinition>, id: &String) -> (b: bool)
    ensures
        b == requirement_connected(wires@, id@),
{
    let mut k: usize = 0;
    while k < wires.len()
        invariant
            k <= wires@.len(),
            forall|j: int|
                0 <= j < k ==> !((#[trigger] wires@[j]).from.requirement_id@ == id@
                    || wires@[j].to.requirement_id@ == id@),
        decreases wires@.len() - k,
    {
        if str_eq(wires[k].from.requirement_id.as_str(), id.as_str()) || str_eq(
            wires[k].to.requirement_id.as_str(),
            id.as_str(),
        ) {
            return true;
        }
        k = k + 1;
    }
    false
}

fn requirement_is_assigned(assignments: &Vec<StationMaterialAssignmentDefinition>, id: &String) -> (b:
    bool)
    ensures
        b == requirement_assigned(assignments@, id@),
{
    let mut k: usize = 0;
    while k < assignments.len()
        invariant
            k <= assignments@.len(),
            forall|j: int| 0 <= j < k ==> (#[trigger] assignments@[j]).requirement_id@ != id@,
        decreases assignments@.len() - k,
    {
        if str_eq(assignments[k].requirement_id.as_str(), id.as_str()) {
            return true;
        }
        k = k + 1;
    }
    false
}

fn v3_readiness_issues(d: &StationMeasurementSetupDefinition, with_assignment: bool) -> (r: Vec<
    StationReadinessIssue,
>)
    ensures
        readiness_view(r@) == v3_readiness(*d, with_assignment),
{
    let mut issues: Vec<StationReadinessIssue> = Vec::new();
    assert(readiness_view(issues@) =~= Seq::<ReadinessIssueView>::empty());
    push_readiness(
        &mut issues,
        d.material_requirements.len() < 2,
        structure_finding(
            "station_setup_requires_two_material_roles",
            "Ajoutez au moins deux rôles matériels au montage.".to_owned(),
            no_texts(),
            no_texts(),
        ),
    );
    push_readiness(
        &mut issues,
        d.logical_connections.len() == 0,
        structure_finding(
            "station_setup_requires_logical_connection",
            "Reliez les ports logiques pour former un chemin de signal.".to_owned(),
            no_texts(),
            no_texts(),
        ),
    );
    let ghost s1 = readiness_view(issues@);
    let reqs = &d.material_requirements;
    let mut i: usize = 0;
    assert(s1 =~= s1 + requirement_readiness_pass(*d, 0, with_assignment));
    while i < reqs.len()
        invariant
            i <= reqs@.len(),
            reqs == &d.material_requirements,
            readiness_view(issues@) == s1 + requirement_readiness_pass(*d, i as int, with_assignment),
        decreases reqs@.len() - i,
    {
        let r = &reqs[i];
        let ghost start = readiness_view(issues@);
        let mut message = concat("Le rôle obligatoire « ", r.role_label.as_str());
        push_str(&mut message, " » n'est relié à aucun autre rôle.");
        let connected = requirement_is_connected(&d.logical_connections, &r.requirement_id);
        push_readiness(
            &mut issues,
            r.required && !connected,
            structure_finding(
                "station_required_material_role_not_connected",
                message,
                single_text(&r.requirement_id),
                no_texts(),
            ),
        );
        let assigned = requirement_is_assigned(&d.material_assignments, &r.requirement_id);
        let finding = if r.required {
            let mut message = concat("Le rôle obligatoire « ", r.role_label.as_str());
            push_str(&mut message, " » n'a pas encore d'exemplaire affecté.");
            StationReadinessIssue {
                code: "station_required_material_unassigned".to_owned(),
                severity: StationReadinessSeverity::Blocking,
                dimension: StationReadinessDimension::AssetIdentity,
                message,
                binding_ids: single_text(&r.requirement_id),
                connection_ids: no_texts(),
            }
        } else {
            let mut message = concat("Le rôle optionnel « ", r.role_label.as_str());
            push_str(&mut message, " » reste sans exemplaire affecté.");
            StationReadinessIssue {
                code: "station_optional_material_unassigned".to_owned(),
                severity: StationReadinessSeverity::Warning,
                dimension: StationReadinessDimension::AssetIdentity,
                message,
                binding_ids: single_text(&r.requirement_id),
                connection_ids: no_texts(),
            }
        };
        push_readiness(&mut issues, with_assignment && !assigned, finding);
        assert(readiness_view(issues@) =~= s1 + requirement_readiness_pass(
            *d,
            i + 1,
            with_assignment,
        ));
        i = i + 1;
    }
    issues
}

pub open spec fn text_set(s: Seq<Seq<char>>) -> Set<Seq<char>> {
    Set::new(|x: Seq<char>| s.contains(x))
}

/// The materials reached from the bound materials by following at most `k` wires.
pub open spec fn reached_within(
    bs: Seq<StationAssetBindingDefinition>,
    cs: Seq<StationConnectionDefinition>,
    k: nat,
) -> Set<Seq<char>>
    decreases k,
{
    if k == 0 {
        Set::new(|v: Seq<char>| exists|j: int| 0 <= j < bs.len() && (#[trigger] bs[j]).binding_id@ == v)
    } else {
        let prev = reached_within(bs, cs, (k - 1) as nat);
        prev.union(
            Set::new(
                |w: Seq<char>|
                    exists|m: int|
                        0 <= m < cs.len() && prev.contains((#[trigger] cs[m]).from.binding_id@)
                            && cs[m].to.binding_id@ == w,
            ),
        )
    }
}

/// Some wire leads from `v` to a material of `s`.
pub open spec fn leads_into(cs: Seq<StationConnectionDefinition>, v: Seq<char>, s: Set<Seq<char>>) -> bool {
    exists|m: int|
        0 <= m < cs.len() && (#[trigger] cs[m]).from.binding_id@ == v && s.contains(
            cs[m].to.binding_id@,
        )
}

/// Every material of `s` has a wire to another material of `s`, and all are reached
/// from the bound materials.
pub open spec fn wired_loop(
    bs: Seq<StationAssetBindingDefinition>,
    cs: Seq<StationConnectionDefinition>,
    s: Set<Seq<char>>,
) -> bool {
    &&& s.subset_of(reached_within(bs, cs, cs.len()))
    &&& forall|v: Seq<char>| s.contains(v) ==> #[trigger] leads_into(cs, v, s)
}

/// Following the wires from the bound materials (at most as many wires as the setup has)
/// can go round a loop.
pub open spec fn has_binding_loop(
    bs: Seq<StationAssetBindingDefinition>,
    cs: Seq<StationConnectionDefinition>,
) -> bool {
    exists|s: Set<Seq<char>>, v: Seq<char>|
        #![trigger wired_loop(bs, cs, s), s.contains(v)]
        s.contains(v) && wired_loop(bs, cs, s)
}

fn text_listed(ids: &Vec<String>, x: &String) -> (b: bool)
    ensures
        b == views(ids@).contains(x@),
{
    let mut k: usize = 0;
    while k < ids.len()
        invariant
            k <= ids@.len(),
            forall|j: int| 0 <= j < k ==> (#[trigger] ids@[j])@ != x@,
        decreases ids@.len() - k,
    {
        if str_eq(ids[k].as_str(), x.as_str()) {
            assert(views(ids@)[k as int] == x@);
            return true;
        }
        k = k + 1;
    }
    assert forall|j: int| 0 <= j < views(ids@).len() implies views(ids@)[j] != x@ by {
        assert(views(ids@)[j] == ids@[j]@);
    }
    false
}

fn reached_materials(
    bs: &Vec<StationAssetBindingDefinition>,
    cs: &Vec<StationConnectionDefinition>,
) -> (r: Vec<String>)
    ensures
        text_set(views(r@)) == reached_within(bs@, cs@, cs@.len()),
{
    let mut reached: Vec<String> = Vec::new();
    let mut i: usize = 0;
    while i < bs.len()
        invariant
            i <= bs@.len(),
            reached@.len() == i,
            forall|j: int| 0 <= j < i ==> (#[trigger] reached@[j])@ == bs@[j].binding_id@,
        decreases bs@.len() - i,
    {
        reached.push(bs[i].binding_id.clone());
        i = i + 1;
    }
    assert(text_set(views(reached@)) =~= reached_within(bs@, cs@, 0)) by {
        assert forall|x: Seq<char>| text_set(views(reached@)).contains(x) <==> reached_within(
            bs@,
            cs@,
            0,
        ).contains(x) by {
            if views(reached@).contains(x) {
                let j = choose|j: int| 0 <= j < views(reached@).len() && views(reached@)[j] == x;
                assert(reached@[j]@ == x);
                assert(bs@[j].binding_id@ == x);
            }
            if reached_within(bs@, cs@, 0).contains(x) {
                let j = choose|j: int| 0 <= j < bs@.len() && (#[trigger] bs@[j]).binding_id@ == x;
                assert(views(reached@)[j] == x);
            }
        }
    }
    let mut round: usize = 0;
    while round < cs.len()
        invariant
            round <= cs@.len(),
            text_set(views(reached@)) == reached_within(bs@, cs@, round as nat),
        decreases cs@.len() - round,
    {
        let ghost prev = reached_within(bs@, cs@, round as nat);
        let snapshot = reached.clone();
        assert(views(snapshot@) == views(reached@)) by {
            assert(snapshot@.len() == reached@.len());
            assert forall|j: int| 0 <= j < snapshot@.len() implies views(snapshot@)[j] == views(
                reached@,
            )[j] by {
                assert(cloned::<String>(reached@[j], snapshot@[j]));
            }
            assert(views(snapshot@) =~= views(reached@));
        }
        let ghost base = views(reached@);
        let mut m: usize = 0;
        while m < cs.len()
            invariant
                m <= cs@.len(),
                text_set(views(snapshot@)) == prev,
                base.len() <= views(reached@).len(),
                views(reached@).subrange(0, base.len() as int) == base,
                text_set(base) == prev,
                forall|x: Seq<char>|
                    #[trigger] views(reached@).contains(x) ==> prev.contains(x) || exists|q: int|
                        0 <= q < m && prev.contains((#[trigger] cs@[q]).from.binding_id@)
                            && cs@[q].to.binding_id@ == x,
                forall|q: int|
                    0 <= q < m && prev.contains((#[trigger] cs@[q]).from.binding_id@)
                        ==> views(reached@).contains(cs@[q].to.binding_id@),
            decreases cs@.len() - m,
        {
            let c = &cs[m];
            if text_listed(&snapshot, &c.from.binding_id) {
                let ghost before = views(reached@);
                reached.push(c.to.binding_id.clone());
                assert(views(reached@) =~= before.push(c.to.binding_id@));
                assert(views(reached@).subrange(0, base.len() as int) =~= before.subrange(
                    0,
                    base.len() as int,
                ));
                assert forall|x: Seq<char>| #[trigger] views(reached@).contains(x) implies prev.contains(
                    x,
                ) || exists|q: int|
                    0 <= q < m + 1 && prev.contains((#[trigger] cs@[q]).from.binding_id@)
                        && cs@[q].to.binding_id@ == x by {
                    if x != c.to.binding_id@ {
                        let j = choose|j: int| 0 <= j < views(reached@).len() && views(reached@)[j] == x;
                        assert(before[j] == x);
                        assert(before.contains(x));
                    } else {
                        assert(prev.contains(cs@[m as int].from.binding_id@));
                    }
                }
                assert forall|q: int|
                    0 <= q < m + 1 && prev.contains((#[trigger] cs@[q]).from.binding_id@)
                        implies views(reached@).contains(cs@[q].to.binding_id@) by {
                    if q < m {
                        let y = cs@[q].to.binding_id@;
                        let j = choose|j: int| 0 <= j < before.len() && before[j] == y;
                        assert(views(reached@)[j] == y);
                    } else {
                        assert(views(reached@)[views(reached@).len() - 1] == c.to.binding_id@);
                    }
                }
            }
            m = m + 1;
        }
        proof {
            let next = reached_within(bs@, cs@, (round + 1) as nat);
            assert(next == prev.union(
                Set::new(
                    |w: Seq<char>|
                        exists|q: int|
                            0 <= q < cs@.len() && prev.contains((#[trigger] cs@[q]).from.binding_id@)
                                && cs@[q].to.binding_id@ == w,
                ),
            ));
            assert forall|x: Seq<char>| text_set(views(reached@)).contains(x) <==> next.contains(x) by {
                if prev.contains(x) {
                    let j = choose|j: int| 0 <= j < base.len() && base[j] == x;
                    assert(views(reached@)[j] == base[j]);
                }
            }
            assert(text_set(views(reached@)) =~= next);
        }
        round = round + 1;
    }
    reached
}

fn leads_into_listed(cs: &Vec<StationConnectionDefinition>, v: &String, remaining: &Vec<String>) -> (b:
    bool)
    ensures
        b == leads_into(cs@, v@, text_set(views(remaining@))),
{
    let ghost r = text_set(views(remaining@));
    let mut k: usize = 0;
    while k < cs.len()
        invariant
            k <= cs@.len(),
            r == text_set(views(remaining@)),
            forall|i: int|
                0 <= i < k ==> !((#[trigger] cs@[i]).from.binding_id@ == v@ && r.contains(
                    cs@[i].to.binding_id@,
                )),
        decreases cs@.len() - k,
    {
        if str_eq(cs[k].from.binding_id.as_str(), v.as_str()) && text_listed(
            remaining,
            &cs[k].to.binding_id,
        ) {
            return true;
        }
        k = k + 1;
    }
    false
}

/// Whether following the wires from the bound materials can go round a loop (see
/// `has_binding_loop`).
fn has_binding_cycle(d: &StationMeasurementSetupDefinition) -> (b: bool)
    ensures
        b == has_binding_loop(d.asset_bindings@, d.connections@),
{
    let bs = &d.asset_bindings;
    let cs = &d.connections;
    let ghost all = reached_within(bs@, cs@, cs@.len());
    let mut remaining = reached_materials(bs, cs);
    loop
        invariant
            bs == &d.asset_bindings,
            cs == &d.connections,
            all == reached_within(bs@, cs@, cs@.len()),
            text_set(views(remaining@)).subset_of(all),
            forall|s: Set<Seq<char>>|
                #[trigger] wired_loop(bs@, cs@, s) ==> s.subset_of(text_set(views(remaining@))),
        decreases remaining@.len(),
    {
        let ghost r = text_set(views(remaining@));
        let mut next: Vec<String> = Vec::new();
        let mut k: usize = 0;
        while k < remaining.len()
            invariant
                k <= remaining@.len(),
                r == text_set(views(remaining@)),
                next@.len() <= k,
                next@.len() == k ==> forall|j: int|
                    0 <= j < k ==> #[trigger] leads_into(cs@, views(remaining@)[j], r),
                forall|j: int|
                    0 <= j < k && #[trigger] leads_into(cs@, views(remaining@)[j], r)
                        ==> views(next@).contains(views(remaining@)[j]),
                forall|x: Seq<char>| #[trigger] views(next@).contains(x) ==> r.contains(x),
            decreases remaining@.len() - k,
        {
            assert(views(remaining@)[k as int] == remaining@[k as int]@);
            if leads_into_listed(cs, &remaining[k], &remaining) {
                let ghost before = views(next@);
                next.push(remaining[k].clone());
                assert(views(next@) =~= before.push(remaining@[k as int]@));
                assert forall|x: Seq<char>| #[trigger] views(next@).contains(x) implies r.contains(
                    x,
                ) by {
                    if x != remaining@[k as int]@ {
                        let j = choose|j: int| 0 <= j < views(next@).len() && views(next@)[j] == x;
                        assert(before[j] == x);
                        assert(before.contains(x));
                    } else {
                        assert(views(remaining@).contains(x));
                    }
                }
                assert forall|j: int|
                    0 <= j < k + 1 && #[trigger] leads_into(cs@, views(remaining@)[j], r)
                        implies views(next@).contains(views(remaining@)[j]) by {
                    if j < k {
                        let y = views(remaining@)[j];
                        let m = choose|m: int| 0 <= m < before.len() && before[m] == y;
                        assert(views(next@)[m] == y);
                    } else {
                        assert(views(next@)[views(next@).len() - 1] == views(remaining@)[j]);
                    }
                }
            } else {
                assert(!leads_into(cs@, views(remaining@)[k as int], r));
            }
            k = k + 1;
        }
        if next.len() == remaining.len() {
            proof {
                assert forall|v: Seq<char>| r.contains(v) implies #[trigger] leads_into(cs@, v, r) by {
                    let j = choose|j: int| 0 <= j < views(remaining@).len() && views(remaining@)[j] == v;
                }
                assert(wired_loop(bs@, cs@, r));
                if remaining@.len() > 0 {
                    let v = views(remaining@)[0];
                    assert(r.contains(v));
                    assert(has_binding_loop(bs@, cs@));
                } else {
                    assert forall|s: Set<Seq<char>>, v: Seq<char>|
                        #![trigger wired_loop(bs@, cs@, s), s.contains(v)]
                        s.contains(v) && wired_loop(bs@, cs@, s) implies false by {
                        assert(s.subset_of(r));
                        assert(r.contains(v));
                        let j = choose|j: int| 0 <= j < views(remaining@).len() && views(remaining@)[j] == v;
                    }
                }
            }
            return remaining.len() > 0;
        }
        proof {
            let nr = text_set(views(next@));
            assert forall|s: Set<Seq<char>>| #[trigger] wired_loop(bs@, cs@, s) implies s.subset_of(
                nr,
            ) by {
                assert(s.subset_of(r));
                assert forall|v: Seq<char>| s.contains(v) implies nr.contains(v) by {
                    assert(leads_into(cs@, v, s));
                    let e = choose|e: int|
                        0 <= e < cs@.len() && (#[trigger] cs@[e]).from.binding_id@ == v && s.contains(
                            cs@[e].to.binding_id@,
                        );
                    assert(r.contains(cs@[e].to.binding_id@));
                    assert(leads_into(cs@, v, r));
                    let j = choose|j: int| 0 <= j < views(remaining@).len() && views(remaining@)[j] == v;
                    assert(leads_into(cs@, views(remaining@)[j], r));
                }
            }
            assert forall|x: Seq<char>| nr.contains(x) implies all.contains(x) by {
                assert(views(next@).contains(x));
            }
        }
        remaining = next;
    }
}

/// Some wire starts or ends at the material.
pub open spec fn binding_wired(cs: Seq<StationConnectionDefinition>, id: Seq<char>) -> bool {
    exists|k: int|
        0 <= k < cs.len() && ((#[trigger] cs[k]).from.binding_id@ == id || cs[k].to.binding_id@
            == id)
}

pub open spec fn unwired_pass(d: StationMeasurementSetupDefinition, n: int) -> Seq<ReadinessIssueView>
    decreases n,
{
    if n <= 0 {
        seq![]
    } else {
        let b = d.asset_bindings@[n - 1];
        unwired_pass(d, n - 1) + found_readiness(
            !binding_wired(d.connections@, b.binding_id@),
            structure_issue(
                "station_material_not_connected",
                "Le matériel « "@ + b.role_label@ + " » n'est relié à aucun autre matériel."@,
                seq![b.binding_id@],
                seq![],
            ),
        )
    }
}

/// The structural findings of a version 1 or 2 setup: fewer than two materials, no
/// wire, each material without a wire, and a loop in the signal path (naming every
/// material and wire).
pub open spec fn legacy_readiness(d: StationMeasurementSetupDefinition) -> Seq<ReadinessIssueView> {
    found_readiness(
        d.asset_bindings@.len() < 2,
        structure_issue(
            "station_setup_requires_two_materials",
            "Ajoutez au moins deux matériels réels au montage."@,
            seq![],
            seq![],
        ),
    ) + found_readiness(
        d.connections@.len() == 0,
        structure_issue(
            "station_setup_requires_connection",
            "Reliez au moins deux ports pour former un chemin de signal."@,
            seq![],
            seq![],
        ),
    ) + unwired_pass(d, d.asset_bindings@.len() as int) + found_readiness(
        has_binding_loop(d.asset_bindings@, d.connections@),
        structure_issue(
            "station_setup_cycle_detected",
            "Le chemin de signal forme une boucle. Corrigez les connexions avant de continuer."@,
            d.asset_bindings@.map_values(|b: StationAssetBindingDefinition| b.binding_id@),
            d.connections@.map_values(|c: StationConnectionDefinition| c.connection_id@),
        ),
    )
}

/// The structural findings of a setup, by its schema version.
pub open spec fn structural_readiness(d: StationMeasurementSetupDefinition) -> Seq<ReadinessIssueView> {
    if d.definition_schema_version@ == STATION_SETUP_DEFINITION_SCHEMA_VERSION@ {
        v3_readiness(d, true)
    } else {
        legacy_readiness(d)
    }
}

/// The findings that keep a setup from qualification: its structural findings, except,
/// for version 3, the roles still waiting for a material.
pub open spec fn qualification_readiness(d: StationMeasurementSetupDefinition) -> Seq<
    ReadinessIssueView,
> {
    if d.definition_schema_version@ == STATION_SETUP_DEFINITION_SCHEMA_VERSION@ {
        v3_readiness(d, false)
    } else {
        legacy_readiness(d)
    }
}

fn binding_is_wired(cs: &Vec<StationConnectionDefinition>, id: &String) -> (b: bool)
    ensures
        b == binding_wired(cs@, id@),
{
    let mut k: usize = 0;
    while k < cs.len()
        invariant
            k <= cs@.len(),
            forall|j: int|
                0 <= j < k ==> !((#[trigger] cs@[j]).from.binding_id@ == id@ || cs@[j].to.binding_id@
                    == id@),
        decreases cs@.len() - k,
    {
        if str_eq(cs[k].from.binding_id.as_str(), id.as_str()) || str_eq(
            cs[k].to.binding_id.as_str(),
            id.as_str(),
        ) {
            return true;
        }
        k = k + 1;
    }
    false
}

fn legacy_readiness_issues(d: &StationMeasurementSetupDefinition) -> (r: Vec<StationReadinessIssue>)
    ensures
        readiness_view(r@) == legacy_readiness(*d),
{
    let mut issues: Vec<StationReadinessIssue> = Vec::new();
    assert(readiness_view(issues@) =~= Seq::<ReadinessIssueView>::empty());
    push_readiness(
        &mut issues,
        d.asset_bindings.len() < 2,
        structure_finding(
            "station_setup_requires_two_materials",
            "Ajoutez au moins deux matériels réels au montage.".to_owned(),
            no_texts(),
            no_texts(),
        ),
    );
    push_readiness(
        &mut issues,
        d.connections.len() == 0,
        structure_finding(
            "station_setup_requires_connection",
            "Reliez au moins deux ports pour former un chemin de signal.".to_owned(),
            no_texts(),
            no_texts(),
        ),
    );
    let ghost s1 = readiness_view(issues@);
    let bs = &d.asset_bindings;
    let mut i: usize = 0;
    assert(s1 =~= s1 + unwired_pass(*d, 0));
    while i < bs.len()
        invariant
            i <= bs@.len(),
            bs == &d.asset_bindings,
            readiness_view(issues@) == s1 + unwired_pass(*d, i as int),
        decreases bs@.len() - i,
    {
        let b = &bs[i];
        let mut message = concat("Le matériel « ", b.role_label.as_str());
        push_str(&mut message, " » n'est relié à aucun autre matériel.");
        push_readiness(
            &mut issues,
            !binding_is_wired(&d.connections, &b.binding_id),
            structure_finding(
                "station_material_not_connected",
                message,
                single_text(&b.binding_id),
                no_texts(),
            ),
        );
        assert(readiness_view(issues@) =~= s1 + unwired_pass(*d, i + 1));
        i = i + 1;
    }
    let ghost s2 = readiness_view(issues@);
    if has_binding_cycle(d) {
        let mut binding_ids: Vec<String> = Vec::new();
        let mut i: usize = 0;
        while i < bs.len()
            invariant
                i <= bs@.len(),
                bs == &d.asset_bindings,
                views(binding_ids@) == bs@.take(i as int).map_values(
                    |b: StationAssetBindingDefinition| b.binding_id@,
                ),
            decreases bs@.len() - i,
        {
            let ghost before = views(binding_ids@);
            binding_ids.push(bs[i].binding_id.clone());
            assert(views(binding_ids@) =~= before.push(bs@[i as int].binding_id@));
            assert(bs@.take(i + 1).map_values(|b: StationAssetBindingDefinition| b.binding_id@)
                =~= before.push(bs@[i as int].binding_id@));
            i = i + 1;
        }
        assert(bs@.take(i as int) =~= bs@);
        let cs = &d.connections;
        let mut connection_ids: Vec<String> = Vec::new();
        let mut i: usize = 0;
        while i < cs.len()
            invariant
                i <= cs@.len(),
                cs == &d.connections,
                views(connection_ids@) == cs@.take(i as int).map_values(
                    |c: StationConnectionDefinition| c.connection_id@,
                ),
            decreases cs@.len() - i,
        {
            let ghost before = views(connection_ids@);
            connection_ids.push(cs[i].connection_id.clone());
            assert(views(connection_ids@) =~= before.push(cs@[i as int].connection_id@));
            assert(cs@.take(i + 1).map_values(|c: StationConnectionDefinition| c.connection_id@)
                =~= before.push(cs@[i as int].connection_id@));
            i = i + 1;
        }
        assert(cs@.take(i as int) =~= cs@);
        issues.push(
            structure_finding(
                "station_setup_cycle_detected",
                "Le chemin de signal forme une boucle. Corrigez les connexions avant de continuer.".to_owned(),
                binding_ids,
                connection_ids,
            ),
        );
    }
    assert(readiness_view(issues@) =~= legacy_readiness(*d));
    issues
}

/// The structural findings of the setup (see `structural_readiness`).
pub fn station_setup_structural_readiness_issues(definition: &StationMeasurementSetupDefinition) -> (r:
    Vec<StationReadinessIssue>)
    ensures
        readiness_view(r@) == structural_readiness(*definition),
{
    if str_eq(definition.definition_schema_version.as_str(), STATION_SETUP_DEFINITION_SCHEMA_VERSION) {
        return v3_readiness_issues(definition, true);
    }
    legacy_readiness_issues(definition)
}

/// The findings that keep the setup from qualification (see `qualification_readiness`).
pub fn station_setup_qualification_issues(definition: &StationMeasurementSetupDefinition) -> (r: Vec<
    StationReadinessIssue,
>)
    ensures
        readiness_view(r@) == qualification_readiness(*definition),
{
    if !str_eq(definition.definition_schema_version.as_str(), STATION_SETUP_DEFINITION_SCHEMA_VERSION) {
        return definition.structural_readiness_issues();
    }
    v3_readiness_issues(definition, false)
}

impl StationMeasurementSetupDefinition {
    /// Every defect of the setup definition (see `validate_station_setup_integrity`).
    pub fn validate_integrity(&self) -> (r: Vec<StationSetupValidationIssue>)
        ensures
            setup_issues_view(r@) == setup_integrity_issues(*self),
    {
        validate_station_setup_integrity(self)
    }

    /// The structural findings of the setup (see `structural_readiness`).
    pub fn structural_readiness_issues(&self) -> (r: Vec<StationReadinessIssue>)
        ensures
            readiness_view(r@) == structural_readiness(*self),
    {
        station_setup_structural_readiness_issues(self)
    }
}

impl CanonicalStationMeasurementSetupDefinition {
    /// The canonical form of a setup from its canonical JSON text: the checksum is
    /// `sha256:` and the lowercase hexadecimal SHA-256 digest of the text's bytes.
    pub fn from_canonical_json(
        setup_id: String,
        label: String,
        definition_schema_version: String,
        canonical_json: String,
    ) -> (r: Self)
        ensures
            r.setup_id@ == setup_id@,
            r.label@ == label@,
            r.definition_schema_version@ == definition_schema_version@,
            r.canonical_json@ == canonical_json@,
            r.definition_checksum@ == checksum_text(encode_utf8(canonical_json@)),
    {
        let definition_checksum = sha256_checksum(canonical_json.as_str().as_bytes());
        CanonicalStationMeasurementSetupDefinition {
            setup_id,
            label,
            definition_schema_version,
            canonical_json,
            definition_checksum,
        }
    }
}

} // verus!
