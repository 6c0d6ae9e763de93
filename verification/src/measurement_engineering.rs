//! Measurement engineering vocabulary: sensor, scaling, engineering curve, DAQ channel
//! and acquisition recipe definitions, and their schema versions.

use crate::planned_test_preparation::{canonical_checksum, is_canonical_checksum};
use crate::text::{
    concat, decimal_text, indexed_path, is_ascii_alphanumeric_char, push_char, str_eq, trim,
    trim_seq,
};
use vstd::prelude::*;

verus! {

pub const SENSOR_DEFINITION_SCHEMA_VERSION: &'static str = "emc-locus.sensor-definition.v1";

pub const SCALING_PROFILE_DEFINITION_SCHEMA_VERSION: &'static str = "emc-locus.scaling-profile-definition.v1";

pub const ENGINEERING_CURVE_DEFINITION_SCHEMA_VERSION: &'static str = "emc-locus.engineering-curve-definition.v1";

pub const DAQ_CHANNEL_PROFILE_DEFINITION_SCHEMA_VERSION: &'static str = "emc-locus.daq-channel-profile-definition.v1";

pub const ACQUISITION_CHANNEL_RECIPE_DEFINITION_SCHEMA_VERSION: &'static str = "emc-locus.acquisition-channel-recipe-definition.v1";

#[derive(Clone, Copy, Debug, PartialEq, Eq, PartialOrd, Ord, Structural)]
pub enum MeasurementEngineeringRevisionStatus {
    Draft,
    UnderReview,
    Approved,
    Superseded,
    Suspended,
    Retired,
}

#[derive(Clone, Copy, Debug, PartialEq, Eq, PartialOrd, Ord, Structural)]
pub enum MeasurementEngineeringAggregateKind {
    SensorDefinition,
    ScalingProfile,
    EngineeringCurve,
    DaqChannelProfile,
    AcquisitionChannelRecipe,
}

#[derive(Clone, Copy, Debug, PartialEq, Eq, PartialOrd, Ord, Structural)]
pub enum SignalRepresentation {
    TimeDomainSamples,
    FrequencyDomainSpectrum,
}

#[derive(Clone, Copy, Debug, PartialEq, Eq, PartialOrd, Ord, Structural)]
pub enum SampleLimitHandling {
    Warn,
    Reject,
    MarkClipped,
}

#[derive(Clone, Copy, Debug, PartialEq, Eq, PartialOrd, Ord, Structural)]
/// The excitation a sensor needs; `NoExcitation` for a passive sensor.
pub enum ExcitationKind {
    NoExcitation,
    External,
    Voltage,
    Current,
    Iepe,
    Bridge,
    Charge,
}

#[derive(Clone, Copy, Debug, PartialEq, Eq, PartialOrd, Ord, Structural)]
pub enum SensorFamily {
    CurrentProbe,
    VoltageProbe,
    FieldProbe,
    ReceivingAntenna,
    TransmittingAntenna,
    Accelerometer,
    Microphone,
    Thermocouple,
    PressureSensor,
    Photodiode,
    StrainGauge,
    GenericTransducer,
    ManualTransducer,
}

#[derive(Clone, Copy, Debug, PartialEq, Eq, PartialOrd, Ord, Structural)]
pub enum ScalingKind {
    Identity,
    Linear,
    TwoPoint,
    Polynomial,
    LookupTable,
    PiecewiseLinear,
    Expression,
}

#[derive(Clone, Copy, Debug, PartialEq, Eq, PartialOrd, Ord, Structural)]
pub enum ScalingInterpolation {
    Linear,
    Nearest,
    StepPrevious,
    StepNext,
}

#[derive(Clone, Copy, Debug, PartialEq, Eq, PartialOrd, Ord, Structural)]
pub enum ExtrapolationPolicy {
    Forbidden,
    Clamp,
    Warn,
    Allow,
}

#[derive(Clone, Copy, Debug, PartialEq, Eq, PartialOrd, Ord, Structural)]
pub enum EngineeringCurveType {
    AntennaFactor,
    CableLoss,
    AmplifierGain,
    AttenuatorLoss,
    CurrentProbeTransfer,
    VoltageProbeTransfer,
    SensorFrequencyResponse,
    PhaseResponse,
    LinearityCorrection,
    Uncertainty,
    Vswr,
    SParameterMagnitude,
    SiteCharacterization,
    GenericCorrection,
}

#[derive(Clone, Copy, Debug, PartialEq, Eq, PartialOrd, Ord, Structural)]
pub enum CurveAxis {
    Frequency,
    Amplitude,
    Temperature,
    Distance,
    Polarization,
    Orientation,
    Time,
    ChannelIndex,
}

#[derive(Clone, Copy, Debug, PartialEq, Eq, PartialOrd, Ord, Structural)]
pub enum CurveInterpolation {
    LinearXLinearY,
    LogXLinearY,
    LinearXLogY,
    Nearest,
    StepPrevious,
    StepNext,
}

#[derive(Clone, Copy, Debug, PartialEq, Eq, PartialOrd, Ord, Structural)]
pub enum FrequencyResponseComponent {
    Amplitude,
    Phase,
}

#[derive(Clone, Copy, Debug, PartialEq, Eq, PartialOrd, Ord, Structural)]
pub enum CorrectionOperation {
    Add,
    Subtract,
    Multiply,
    Divide,
}

#[derive(Clone, Copy, Debug, PartialEq, Eq, PartialOrd, Ord, Structural)]
pub enum DaqChannelKind {
    AnalogInput,
    AnalogOutput,
    DigitalInput,
    DigitalOutput,
    DigitalBidirectional,
    CounterInput,
    FrequencyInput,
    TriggerInput,
    TriggerOutput,
    CanBusChannel,
    SoftwareChannel,
}

#[derive(Clone, Copy, Debug, PartialEq, Eq, PartialOrd, Ord, Structural)]
pub enum DaqInputMode {
    SingleEnded,
    Differential,
    PseudoDifferential,
    CurrentLoop,
    Charge,
    Iepe,
    BridgeQuarter,
    BridgeHalf,
    BridgeFull,
    Thermocouple,
    Rtd,
}

#[derive(Clone, Copy, Debug, PartialEq, Eq, PartialOrd, Ord, Structural)]
pub enum CouplingMode {
    Dc,
    Ac,
    Gnd,
}

/// The schema version of each kind of definition.
pub open spec fn schema_version_of(kind: MeasurementEngineeringAggregateKind) -> Seq<char> {
    match kind {
        MeasurementEngineeringAggregateKind::SensorDefinition => SENSOR_DEFINITION_SCHEMA_VERSION@,
        MeasurementEngineeringAggregateKind::ScalingProfile => SCALING_PROFILE_DEFINITION_SCHEMA_VERSION@,
        MeasurementEngineeringAggregateKind::EngineeringCurve => ENGINEERING_CURVE_DEFINITION_SCHEMA_VERSION@,
        MeasurementEngineeringAggregateKind::DaqChannelProfile => DAQ_CHANNEL_PROFILE_DEFINITION_SCHEMA_VERSION@,
        MeasurementEngineeringAggregateKind::AcquisitionChannelRecipe => ACQUISITION_CHANNEL_RECIPE_DEFINITION_SCHEMA_VERSION@,
    }
}

/// The stable name of each kind of definition.
pub open spec fn aggregate_kind_name(kind: MeasurementEngineeringAggregateKind) -> Seq<char> {
    match kind {
        MeasurementEngineeringAggregateKind::SensorDefinition => "sensor_definition"@,
        MeasurementEngineeringAggregateKind::ScalingProfile => "scaling_profile"@,
        MeasurementEngineeringAggregateKind::EngineeringCurve => "engineering_curve"@,
        MeasurementEngineeringAggregateKind::DaqChannelProfile => "daq_channel_profile"@,
        MeasurementEngineeringAggregateKind::AcquisitionChannelRecipe => "acquisition_channel_recipe"@,
    }
}

impl MeasurementEngineeringAggregateKind {
    pub fn schema_version(self) -> (r: &'static str)
        ensures
            r@ == schema_version_of(self),
    {
        match self {
            MeasurementEngineeringAggregateKind::SensorDefinition => SENSOR_DEFINITION_SCHEMA_VERSION,
            MeasurementEngineeringAggregateKind::ScalingProfile => SCALING_PROFILE_DEFINITION_SCHEMA_VERSION,
            MeasurementEngineeringAggregateKind::EngineeringCurve => ENGINEERING_CURVE_DEFINITION_SCHEMA_VERSION,
            MeasurementEngineeringAggregateKind::DaqChannelProfile => DAQ_CHANNEL_PROFILE_DEFINITION_SCHEMA_VERSION,
            MeasurementEngineeringAggregateKind::AcquisitionChannelRecipe => ACQUISITION_CHANNEL_RECIPE_DEFINITION_SCHEMA_VERSION,
        }
    }

    pub fn as_str(self) -> (r: &'static str)
        ensures
            r@ == aggregate_kind_name(self),
    {
        match self {
            MeasurementEngineeringAggregateKind::SensorDefinition => "sensor_definition",
            MeasurementEngineeringAggregateKind::ScalingProfile => "scaling_profile",
            MeasurementEngineeringAggregateKind::EngineeringCurve => "engineering_curve",
            MeasurementEngineeringAggregateKind::DaqChannelProfile => "daq_channel_profile",
            MeasurementEngineeringAggregateKind::AcquisitionChannelRecipe => "acquisition_channel_recipe",
        }
    }
}

/// The stable name of each curve axis.
pub open spec fn curve_axis_name(axis: CurveAxis) -> Seq<char> {
    match axis {
        CurveAxis::Frequency => "frequency"@,
        CurveAxis::Amplitude => "amplitude"@,
        CurveAxis::Temperature => "temperature"@,
        CurveAxis::Distance => "distance"@,
        CurveAxis::Polarization => "polarization"@,
        CurveAxis::Orientation => "orientation"@,
        CurveAxis::Time => "time"@,
        CurveAxis::ChannelIndex => "channel_index"@,
    }
}

impl CurveAxis {
    pub fn as_str(self) -> (r: &'static str)
        ensures
            r@ == curve_axis_name(self),
    {
        match self {
            CurveAxis::Frequency => "frequency",
            CurveAxis::Amplitude => "amplitude",
            CurveAxis::Temperature => "temperature",
            CurveAxis::Distance => "distance",
            CurveAxis::Polarization => "polarization",
            CurveAxis::Orientation => "orientation",
            CurveAxis::Time => "time",
            CurveAxis::ChannelIndex => "channel_index",
        }
    }
}

/// A canonical measurement engineering definition, with its checksum.
#[derive(Clone, Debug, PartialEq, Eq)]
pub struct CanonicalMeasurementEngineeringDefinition {
    pub aggregate_kind: MeasurementEngineeringAggregateKind,
    pub entity_id: String,
    pub label: String,
    pub summary_kind: String,
    pub definition_schema_version: String,
    pub canonical_json: String,
    pub definition_checksum: String,
}

/// A reference to another definition, by identity and optionally by exact revision.
#[derive(Clone, Debug, PartialEq)]
pub struct DefinitionReference {
    pub entity_id: String,
    pub revision_id: Option<String>,
    pub require_approved: bool,
}

/// A finding on a measurement engineering definition: its severity, a stable code,
/// the JSON path it points at, a message and an optional suggestion.
#[derive(Clone, Debug, PartialEq, Eq)]
pub struct DefinitionValidationIssue {
    pub severity: String,
    pub code: String,
    pub path: String,
    pub message: String,
    pub suggestion: Option<String>,
}

pub struct DefinitionIssueView {
    pub severity: Seq<char>,
    pub code: Seq<char>,
    pub path: Seq<char>,
    pub message: Seq<char>,
    pub suggestion: Option<Seq<char>>,
}

impl View for DefinitionValidationIssue {
    type V = DefinitionIssueView;

    open spec fn view(&self) -> DefinitionIssueView {
        DefinitionIssueView {
            severity: self.severity@,
            code: self.code@,
            path: self.path@,
            message: self.message@,
            suggestion: match self.suggestion {
                Some(t) => Some(t@),
                None => None,
            },
        }
    }
}

pub open spec fn definition_issues_view(s: Seq<DefinitionValidationIssue>) -> Seq<DefinitionIssueView> {
    s.map_values(|x: DefinitionValidationIssue| x@)
}

/// An error finding.
pub open spec fn error_issue(
    code: Seq<char>,
    path: Seq<char>,
    message: Seq<char>,
    suggestion: Option<Seq<char>>,
) -> DefinitionIssueView {
    DefinitionIssueView { severity: "error"@, code, path, message, suggestion }
}

/// Builds a finding.
pub fn issue(
    severity: &str,
    code: &str,
    path: &str,
    message: String,
    suggestion: Option<&str>,
) -> (r: DefinitionValidationIssue)
    ensures
        r@ == (DefinitionIssueView {
            severity: severity@,
            code: code@,
            path: path@,
            message: message@,
            suggestion: match suggestion {
                Some(t) => Some(t@),
                None => None,
            },
        }),
{
    DefinitionValidationIssue {
        severity: severity.to_owned(),
        code: code.to_owned(),
        path: path.to_owned(),
        message,
        suggestion: match suggestion {
            Some(t) => Some(t.to_owned()),
            None => None,
        },
    }
}

/// Appends one finding.
fn push_issue(issues: &mut Vec<DefinitionValidationIssue>, item: DefinitionValidationIssue)
    ensures
        definition_issues_view(final(issues)@) == definition_issues_view(old(issues)@).push(item@),
{
    let ghost before = definition_issues_view(issues@);
    issues.push(item);
    assert(definition_issues_view(issues@) =~= before.push(item@));
}

/// A character that continues an expression identifier or number.
pub open spec fn is_expression_token_char(c: char) -> bool {
    is_ascii_alphanumeric_char(c) || c == '_'
}

/// ASCII whitespace: space, tab, line feed, form feed and carriage return.
pub open spec fn is_ascii_whitespace_char(c: char) -> bool {
    c == ' ' || c == '\t' || c == '\n' || c == '\x0C' || c == '\r'
}

/// The operators and separators an expression may use.
pub open spec fn is_expression_operator_char(c: char) -> bool {
    c == '+' || c == '-' || c == '*' || c == '/' || c == '^' || c == '(' || c == ')' || c == ','
        || c == '.'
}

/// Every character is an ASCII digit.
pub open spec fn all_ascii_digits(t: Seq<char>) -> bool {
    forall|i: int| 0 <= i < t.len() ==> '0' <= #[trigger] t[i] && t[i] <= '9'
}

/// The texts of a list of names.
pub open spec fn names_view(s: Seq<&str>) -> Seq<Seq<char>> {
    s.map_values(|x: &str| x@)
}

/// The variables an expression may read.
pub open spec fn expression_variables() -> Seq<Seq<char>> {
    seq!["x"@, "input"@, "temperature"@, "frequency"@]
}

/// The functions an expression may call.
pub open spec fn expression_functions() -> Seq<Seq<char>> {
    seq!["pow"@, "sqrt"@, "log10"@, "ln"@, "abs"@, "min"@, "max"@]
}

/// The finding on an identifier of an expression: none for a number or an allowed name.
pub open spec fn identifier_issues(
    token: Seq<char>,
    variables: Seq<Seq<char>>,
    functions: Seq<Seq<char>>,
    path: Seq<char>,
) -> Seq<DefinitionIssueView> {
    if all_ascii_digits(token) || variables.contains(token) || functions.contains(token) {
        seq![]
    } else {
        seq![
            error_issue(
                "unknown_expression_identifier"@,
                path,
                "unknown expression identifier: "@ + token,
                Some(
                    "Allowed variables are x, input, temperature, frequency; allowed functions are pow, sqrt, log10, ln, abs, min and max."@,
                ),
            ),
        ]
    }
}

/// The finding on a character that is neither part of a token nor an operator.
pub open spec fn character_issues(c: char, path: Seq<char>) -> Seq<DefinitionIssueView> {
    if is_ascii_whitespace_char(c) || is_expression_operator_char(c) {
        seq![]
    } else {
        seq![
            error_issue(
                "unsafe_expression_character"@,
                path,
                "unsupported character in expression: "@.push(c),
                Some("Use only numeric operators and the allowed function names."@),
            ),
        ]
    }
}

/// The findings on the rest of an expression, with `token` read but not yet checked.
pub open spec fn expression_scan(rest: Seq<char>, token: Seq<char>, path: Seq<char>) -> Seq<
    DefinitionIssueView,
>
    decreases rest.len(),
{
    if rest.len() == 0 {
        if token.len() > 0 {
            identifier_issues(token, expression_variables(), expression_functions(), path)
        } else {
            seq![]
        }
    } else {
        let c = rest[0];
        if is_expression_token_char(c) {
            expression_scan(rest.drop_first(), token.push(c), path)
        } else {
            (if token.len() > 0 {
                identifier_issues(token, expression_variables(), expression_functions(), path)
            } else {
                seq![]
            }) + character_issues(c, path) + expression_scan(rest.drop_first(), seq![], path)
        }
    }
}

/// The findings on a scaling or curve expression: each identifier must be a number,
/// an allowed variable or an allowed function, and each other character an operator,
/// a separator or whitespace.
pub open spec fn expression_issues(expression: Seq<char>, path: Seq<char>) -> Seq<
    DefinitionIssueView,
> {
    expression_scan(expression, seq![], path)
}

fn is_token_character(c: char) -> (b: bool)
    ensures
        b == is_expression_token_char(c),
{
    ('0' <= c && c <= '9') || ('a' <= c && c <= 'z') || ('A' <= c && c <= 'Z') || c == '_'
}

fn is_allowed_expression_character(c: char) -> (b: bool)
    ensures
        b == (is_ascii_whitespace_char(c) || is_expression_operator_char(c)),
{
    c == ' ' || c == '\t' || c == '\n' || c == '\x0C' || c == '\r' || c == '+' || c == '-' || c
        == '*' || c == '/' || c == '^' || c == '(' || c == ')' || c == ',' || c == '.'
}

fn is_listed(names: &[&str], token: &str) -> (b: bool)
    ensures
        b == names_view(names@).contains(token@),
{
    let mut k: usize = 0;
    while k < names.len()
        invariant
            k <= names@.len(),
            forall|j: int| 0 <= j < k ==> names@[j]@ != token@,
        decreases names@.len() - k,
    {
        if str_eq(names[k], token) {
            assert(names_view(names@)[k as int] == token@);
            return true;
        }
        k = k + 1;
    }
    assert(!names_view(names@).contains(token@)) by {
        if names_view(names@).contains(token@) {
            let j = choose|j: int| 0 <= j < names_view(names@).len() && names_view(names@)[j] == token@;
            assert(names@[j]@ == token@);
        }
    }
    false
}

fn all_digits(token: &str) -> (b: bool)
    ensures
        b == all_ascii_digits(token@),
{
    let n = token.unicode_len();
    let mut i: usize = 0;
    while i < n
        invariant
            n == token@.len(),
            i <= n,
            forall|k: int| 0 <= k < i ==> '0' <= #[trigger] token@[k] && token@[k] <= '9',
        decreases n - i,
    {
        let c = token.get_char(i);
        if !('0' <= c && c <= '9') {
            return false;
        }
        i = i + 1;
    }
    true
}

/// Checks one identifier of an expression against the allowed names.
pub fn validate_expression_identifier(
    issues: &mut Vec<DefinitionValidationIssue>,
    token: &str,
    allowed_variables: &[&str],
    allowed_functions: &[&str],
    path: &str,
)
    ensures
        definition_issues_view(final(issues)@) == definition_issues_view(old(issues)@)
            + identifier_issues(
            token@,
            names_view(allowed_variables@),
            names_view(allowed_functions@),
            path@,
        ),
{
    let ghost before = definition_issues_view(issues@);
    if all_digits(token) || is_listed(allowed_variables, token) || is_listed(allowed_functions, token) {
        assert(definition_issues_view(issues@) =~= before + seq![]);
        return ;
    }
    let message = concat("unknown expression identifier: ", token);
    push_issue(
        issues,
        issue(
            "error",
            "unknown_expression_identifier",
            path,
            message,
            Some(
                "Allowed variables are x, input, temperature, frequency; allowed functions are pow, sqrt, log10, ln, abs, min and max.",
            ),
        ),
    );
}

/// Checks a scaling or curve expression: every identifier and every other character.
pub fn validate_expression(issues: &mut Vec<DefinitionValidationIssue>, expression: &str, path: &str)
    ensures
        definition_issues_view(final(issues)@) == definition_issues_view(old(issues)@)
            + expression_issues(expression@, path@),
{
    let allowed_variables: [&str; 4] = ["x", "input", "temperature", "frequency"];
    let allowed_functions: [&str; 7] = ["pow", "sqrt", "log10", "ln", "abs", "min", "max"];
    assert(names_view(allowed_variables@) =~= expression_variables());
    assert(names_view(allowed_functions@) =~= expression_functions());
    let ghost start = definition_issues_view(issues@);
    let ghost e = expression@;
    let ghost p = path@;
    let mut token = String::new();
    let n = expression.unicode_len();
    let mut i: usize = 0;
    assert(e.skip(0) =~= e);
    while i < n
        invariant
            n == e.len(),
            e == expression@,
            p == path@,
            i <= n,
            names_view(allowed_variables@) == expression_variables(),
            names_view(allowed_functions@) == expression_functions(),
            definition_issues_view(issues@) + expression_scan(e.skip(i as int), token@, p) == start
                + expression_issues(e, p),
        decreases n - i,
    {
        let c = expression.get_char(i);
        let ghost t0 = token@;
        let ghost mid = definition_issues_view(issues@);
        assert(e.skip(i as int).drop_first() =~= e.skip(i + 1));
        assert(e.skip(i as int)[0] == c);
        if is_token_character(c) {
            push_char(&mut token, c);
        } else {
            if token.as_str().unicode_len() > 0 {
                validate_expression_identifier(
                    issues,
                    token.as_str(),
                    &allowed_variables,
                    &allowed_functions,
                    path,
                );
                token = String::new();
            }
            let ghost mid2 = definition_issues_view(issues@);
            assert(mid2 == mid + (if t0.len() > 0 {
                identifier_issues(t0, expression_variables(), expression_functions(), p)
            } else {
                seq![]
            })) by {
                if t0.len() == 0 {
                    assert(mid2 =~= mid + seq![]);
                }
            }
            if !is_allowed_expression_character(c) {
                let mut message = "unsupported character in expression: ".to_owned();
                push_char(&mut message, c);
                push_issue(
                    issues,
                    issue(
                        "error",
                        "unsafe_expression_character",
                        path,
                        message,
                        Some("Use only numeric operators and the allowed function names."),
                    ),
                );
            } else {
                assert(definition_issues_view(issues@) =~= mid2 + seq![]);
            }
            assert(token@ =~= Seq::<char>::empty());
            assert(expression_scan(e.skip(i as int), t0, p) == (if t0.len() > 0 {
                identifier_issues(t0, expression_variables(), expression_functions(), p)
            } else {
                seq![]
            }) + character_issues(c, p) + expression_scan(e.skip(i + 1), seq![], p));
            assert(definition_issues_view(issues@) =~= mid2 + character_issues(c, p));
            assert(definition_issues_view(issues@) + expression_scan(e.skip(i + 1), token@, p)
                =~= mid + expression_scan(e.skip(i as int), t0, p));
        }
        i = i + 1;
    }
    let ghost mid = definition_issues_view(issues@);
    assert(e.skip(n as int) =~= Seq::<char>::empty());
    if token.as_str().unicode_len() > 0 {
        validate_expression_identifier(
            issues,
            token.as_str(),
            &allowed_variables,
            &allowed_functions,
            path,
        );
    } else {
        assert(mid + expression_scan(e.skip(n as int), token@, p) =~= mid);
    }
}

/// The finding on a blank text.
pub open spec fn blank_text_issues(value: Seq<char>, path: Seq<char>) -> Seq<DefinitionIssueView> {
    if trim_seq(value).len() == 0 {
        seq![error_issue("blank_text"@, path, "text value must not be blank"@, None)]
    } else {
        seq![]
    }
}

/// A character of a definition identifier: ASCII letters, digits, `_` and `-`.
pub open spec fn is_definition_id_char(c: char) -> bool {
    is_ascii_alphanumeric_char(c) || c == '_' || c == '-'
}

/// The finding on a value that is not a definition identifier: blank, or with another
/// character than those allowed.
pub open spec fn definition_id_issues(value: Seq<char>, path: Seq<char>) -> Seq<DefinitionIssueView> {
    if trim_seq(value).len() == 0 || !(forall|i: int|
        0 <= i < value.len() ==> is_definition_id_char(#[trigger] value[i])) {
        seq![
            error_issue(
                "invalid_identifier"@,
                path,
                "identifier must use ASCII letters, digits, hyphen or underscore"@,
                None,
            ),
        ]
    } else {
        seq![]
    }
}

/// Requires a text that is not blank.
pub fn require_text(issues: &mut Vec<DefinitionValidationIssue>, value: &str, path: &str)
    ensures
        definition_issues_view(final(issues)@) == definition_issues_view(old(issues)@)
            + blank_text_issues(value@, path@),
{
    let ghost before = definition_issues_view(issues@);
    let t = trim(value);
    if t.as_str().unicode_len() == 0 {
        push_issue(
            issues,
            issue("error", "blank_text", path, "text value must not be blank".to_owned(), None),
        );
    } else {
        assert(definition_issues_view(issues@) =~= before + seq![]);
    }
}

fn definition_id_characters(value: &str) -> (b: bool)
    ensures
        b == (forall|i: int| 0 <= i < value@.len() ==> is_definition_id_char(#[trigger] value@[i])),
{
    let n = value.unicode_len();
    let mut i: usize = 0;
    while i < n
        invariant
            n == value@.len(),
            i <= n,
            forall|k: int| 0 <= k < i ==> is_definition_id_char(#[trigger] value@[k]),
        decreases n - i,
    {
        let c = value.get_char(i);
        if !(('0' <= c && c <= '9') || ('a' <= c && c <= 'z') || ('A' <= c && c <= 'Z') || c == '_'
            || c == '-') {
            assert(!is_definition_id_char(value@[i as int]));
            return false;
        }
        i = i + 1;
    }
    true
}

/// Requires a definition identifier.
pub fn require_id(issues: &mut Vec<DefinitionValidationIssue>, value: &str, path: &str)
    ensures
        definition_issues_view(final(issues)@) == definition_issues_view(old(issues)@)
            + definition_id_issues(value@, path@),
{
    let ghost before = definition_issues_view(issues@);
    let t = trim(value);
    if t.as_str().unicode_len() == 0 || !definition_id_characters(value) {
        push_issue(
            issues,
            issue(
                "error",
                "invalid_identifier",
                path,
                "identifier must use ASCII letters, digits, hyphen or underscore".to_owned(),
                None,
            ),
        );
    } else {
        assert(definition_issues_view(issues@) =~= before + seq![]);
    }
}

/// Whether the value is `sha256:` followed by 64 lowercase hexadecimal digits.
pub fn is_sha256_checksum(value: &str) -> (b: bool)
    ensures
        b == canonical_checksum(value@),
{
    is_canonical_checksum(value)
}

/// The finding on a schema version other than the expected one.
pub open spec fn schema_issues(observed: Seq<char>, expected: Seq<char>, path: Seq<char>) -> Seq<
    DefinitionIssueView,
> {
    if observed != expected {
        seq![
            error_issue(
                "unsupported_measurement_engineering_schema"@,
                path,
                "unsupported schema version: "@ + observed,
                Some(expected),
            ),
        ]
    } else {
        seq![]
    }
}

/// Requires the expected schema version.
pub fn require_schema(
    issues: &mut Vec<DefinitionValidationIssue>,
    observed: &str,
    expected: &'static str,
    path: &str,
)
    ensures
        definition_issues_view(final(issues)@) == definition_issues_view(old(issues)@)
            + schema_issues(observed@, expected@, path@),
{
    let ghost before = definition_issues_view(issues@);
    if !str_eq(observed, expected) {
        push_issue(
            issues,
            issue(
                "error",
                "unsupported_measurement_engineering_schema",
                path,
                concat("unsupported schema version: ", observed),
                Some(expected),
            ),
        );
    } else {
        assert(definition_issues_view(issues@) =~= before + seq![]);
    }
}

/// The finding on a definition JSON text that could not be read.
pub open spec fn parse_issue_view(kind: MeasurementEngineeringAggregateKind, message: Seq<char>) -> DefinitionIssueView {
    error_issue(
        "invalid_measurement_engineering_definition_json"@,
        "$"@,
        "invalid "@ + aggregate_kind_name(kind) + " definition JSON: "@ + message,
        Some("Send a JSON object matching the requested measurement engineering schema."@),
    )
}

/// The finding reported when a definition's JSON text cannot be read; `message` is
/// what the reader said.
pub fn parse_issue(kind: MeasurementEngineeringAggregateKind, message: String) -> (r:
    DefinitionValidationIssue)
    ensures
        r@ == parse_issue_view(kind, message@),
{
    let mut text = concat("invalid ", kind.as_str());
    text = concat(text.as_str(), " definition JSON: ");
    text = concat(text.as_str(), message.as_str());
    issue(
        "error",
        "invalid_measurement_engineering_definition_json",
        "$",
        text,
        Some("Send a JSON object matching the requested measurement engineering schema."),
    )
}

/// The default of a flag that is on unless stated.
pub fn default_true() -> (b: bool)
    ensures
        b,
{
    true
}

/// The default signal representation of a frequency-domain curve.
pub fn default_frequency_domain_spectrum() -> (r: SignalRepresentation)
    ensures
        r == SignalRepresentation::FrequencyDomainSpectrum,
{
    SignalRepresentation::FrequencyDomainSpectrum
}

/// The revision a reference names, the empty text for none.
pub open spec fn revision_text(r: DefinitionReference) -> Seq<char> {
    match r.revision_id {
        Some(v) => v@,
        None => seq![],
    }
}

/// The findings on one reference: its identity and, where given, its revision.
pub open spec fn reference_issues(r: DefinitionReference, path: Seq<char>) -> Seq<DefinitionIssueView> {
    definition_id_issues(r.entity_id@, path + ".entity_id"@) + match r.revision_id {
        Some(v) => definition_id_issues(v@, path + ".revision_id"@),
        None => seq![],
    }
}

/// Checks the identity and revision of a reference.
pub fn validate_ref(issues: &mut Vec<DefinitionValidationIssue>, reference: &DefinitionReference, path: &str)
    ensures
        definition_issues_view(final(issues)@) == definition_issues_view(old(issues)@)
            + reference_issues(*reference, path@),
{
    let ghost before = definition_issues_view(issues@);
    let entity_path = concat(path, ".entity_id");
    require_id(issues, reference.entity_id.as_str(), entity_path.as_str());
    let ghost mid = definition_issues_view(issues@);
    match &reference.revision_id {
        Some(revision_id) => {
            let revision_path = concat(path, ".revision_id");
            require_id(issues, revision_id.as_str(), revision_path.as_str());
        },
        None => {},
    }
    assert(definition_issues_view(issues@) =~= before + reference_issues(*reference, path@));
}

/// Whether an earlier reference of the list names the same definition and revision.
pub open spec fn repeats_earlier(refs: Seq<DefinitionReference>, k: int) -> bool {
    exists|j: int|
        0 <= j < k && #[trigger] refs[j].entity_id@ == refs[k].entity_id@ && revision_text(refs[j])
            == revision_text(refs[k])
}

/// The path of the element at `k` of a list.
pub open spec fn element_path(path: Seq<char>, k: nat) -> Seq<char> {
    path + seq!['['] + decimal_text(k) + seq![']']
}

/// The findings on the first `n` references of a list: each reference's own, and a
/// duplicate finding on each that repeats an earlier one.
pub open spec fn references_issues(refs: Seq<DefinitionReference>, path: Seq<char>, n: nat) -> Seq<
    DefinitionIssueView,
>
    decreases n,
{
    if n == 0 {
        seq![]
    } else {
        let k = (n - 1) as nat;
        references_issues(refs, path, k) + reference_issues(refs[k as int], element_path(path, k))
            + if repeats_earlier(refs, k as int) {
            seq![
                error_issue(
                    "duplicate_definition_reference"@,
                    element_path(path, k),
                    "definition references must not be duplicated"@,
                    None,
                ),
            ]
        } else {
            seq![]
        }
    }
}

fn revision_or_empty(reference: &DefinitionReference) -> (r: &str)
    ensures
        r@ == revision_text(*reference),
{
    proof {
        reveal_strlit("");
    }
    match &reference.revision_id {
        Some(v) => v.as_str(),
        None => "",
    }
}

fn repeats_before(refs: &[DefinitionReference], k: usize) -> (b: bool)
    requires
        k < refs@.len(),
    ensures
        b == repeats_earlier(refs@, k as int),
{
    let mut j: usize = 0;
    while j < k
        invariant
            k < refs@.len(),
            j <= k,
            forall|i: int|
                0 <= i < j ==> !(#[trigger] refs@[i].entity_id@ == refs@[k as int].entity_id@
                    && revision_text(refs@[i]) == revision_text(refs@[k as int])),
        decreases k - j,
    {
        if str_eq(refs[j].entity_id.as_str(), refs[k].entity_id.as_str()) && str_eq(
            revision_or_empty(&refs[j]),
            revision_or_empty(&refs[k]),
        ) {
            return true;
        }
        j = j + 1;
    }
    false
}

/// Checks every reference of a list, and that none repeats an earlier one.
pub fn validate_refs(issues: &mut Vec<DefinitionValidationIssue>, refs: &[DefinitionReference], path: &str)
    ensures
        definition_issues_view(final(issues)@) == definition_issues_view(old(issues)@)
            + references_issues(refs@, path@, refs@.len()),
{
    let ghost start = definition_issues_view(issues@);
    let mut k: usize = 0;
    while k < refs.len()
        invariant
            k <= refs@.len(),
            definition_issues_view(issues@) == start + references_issues(refs@, path@, k as nat),
        decreases refs@.len() - k,
    {
        let element = indexed_path(path, k, "");
        proof {
            reveal_strlit("");
            assert(element@ =~= element_path(path@, k as nat));
        }
        validate_ref(issues, &refs[k], element.as_str());
        let ghost mid = definition_issues_view(issues@);
        if repeats_before(refs, k) {
            push_issue(
                issues,
                issue(
                    "error",
                    "duplicate_definition_reference",
                    element.as_str(),
                    "definition references must not be duplicated".to_owned(),
                    None,
                ),
            );
        }
        assert(definition_issues_view(issues@) =~= start + references_issues(refs@, path@, (k + 1) as nat));
        k = k + 1;
    }
}

} // verus!
