//! Characterizations of a material: the correction it applies to the signals that go
//! through it, as a time conversion or a frequency response.

use crate::engineering_curves::{
    engineering_curve_issues, validate_engineering_curve_definition, EngineeringCurveDefinition,
};
use crate::engineering_validation::{
    finding, flagged, push_when, scaling_profile_issues, validate_scaling_profile_definition,
    ScalingProfileDefinition,
};
use crate::measurement_engineering::{
    definition_issues_view, error_issue, issue, DefinitionIssueView, DefinitionValidationIssue,
};
use crate::planned_test_preparation::{canonical_checksum, is_canonical_checksum};
use crate::text::{
    all_identifier_characters, all_identifier_chars, concat, str_eq, trim, trim_seq,
};
use vstd::prelude::*;

verus! {

/// The schema of asset characterization definitions.
pub const ASSET_CHARACTERIZATION_DEFINITION_SCHEMA_VERSION: &'static str = "emc-locus.asset-characterization-definition.v1";

/// How a correction transforms a signal.
#[derive(Clone, Copy, Debug, PartialEq, Eq, Structural)]
pub enum SignalTransformationKind {
    SampleConversion,
    FrequencyResponse,
}

#[derive(Clone, Copy, Debug, PartialEq, Eq, Structural)]
pub enum AssetCharacterizationKind {
    TimeConversion,
    FrequencyResponse,
}

/// The stable name of each kind of characterization.
pub open spec fn characterization_kind_name(kind: AssetCharacterizationKind) -> Seq<char> {
    match kind {
        AssetCharacterizationKind::TimeConversion => "time_conversion"@,
        AssetCharacterizationKind::FrequencyResponse => "frequency_response"@,
    }
}

/// A time conversion converts samples; a frequency response shapes the spectrum.
pub open spec fn transformation_of(kind: AssetCharacterizationKind) -> SignalTransformationKind {
    match kind {
        AssetCharacterizationKind::TimeConversion => SignalTransformationKind::SampleConversion,
        AssetCharacterizationKind::FrequencyResponse => SignalTransformationKind::FrequencyResponse,
    }
}

impl AssetCharacterizationKind {
    pub fn as_str(self) -> (r: &'static str)
        ensures
            r@ == characterization_kind_name(self),
    {
        match self {
            AssetCharacterizationKind::TimeConversion => "time_conversion",
            AssetCharacterizationKind::FrequencyResponse => "frequency_response",
        }
    }

    pub fn transformation_kind(self) -> (r: SignalTransformationKind)
        ensures
            r == transformation_of(self),
    {
        match self {
            AssetCharacterizationKind::TimeConversion => SignalTransformationKind::SampleConversion,
            AssetCharacterizationKind::FrequencyResponse => SignalTransformationKind::FrequencyResponse,
        }
    }
}

/// A characterization in canonical form, with its checksum.
#[derive(Clone, Debug, PartialEq, Eq)]
pub struct CanonicalAssetCharacterizationDefinition {
    pub characterization_id: String,
    pub asset_id: String,
    pub kind: AssetCharacterizationKind,
    pub label: String,
    pub definition_schema_version: String,
    pub canonical_json: String,
    pub definition_checksum: String,
}

/// The path of a nested finding under `prefix`: the prefix itself for the root `$`,
/// otherwise the prefix, a dot and the nested path.
pub open spec fn nested_path(prefix: Seq<char>, path: Seq<char>) -> Seq<char> {
    if path == "$"@ {
        prefix
    } else {
        prefix + "."@ + path
    }
}

/// A nested finding moved under `prefix`.
pub open spec fn nested_issue(prefix: Seq<char>, item: DefinitionIssueView) -> DefinitionIssueView {
    DefinitionIssueView { path: nested_path(prefix, item.path), ..item }
}

/// Appends the findings of a nested definition, each with its path put under `prefix`.
pub fn append_nested_issues(
    issues: &mut Vec<DefinitionValidationIssue>,
    prefix: &str,
    nested: Vec<DefinitionValidationIssue>,
)
    ensures
        definition_issues_view(final(issues)@) == definition_issues_view(old(issues)@)
            + definition_issues_view(nested@).map_values(
            |item: DefinitionIssueView| nested_issue(prefix@, item),
        ),
{
    let ghost start = definition_issues_view(issues@);
    let ghost moved = definition_issues_view(nested@).map_values(
        |item: DefinitionIssueView| nested_issue(prefix@, item),
    );
    let mut k: usize = 0;
    while k < nested.len()
        invariant
            k <= nested@.len(),
            moved == definition_issues_view(nested@).map_values(
                |item: DefinitionIssueView| nested_issue(prefix@, item),
            ),
            definition_issues_view(issues@) == start + moved.take(k as int),
        decreases nested@.len() - k,
    {
        let item = &nested[k];
        let path = if str_eq(item.path.as_str(), "$") {
            prefix.to_owned()
        } else {
            concat(concat(prefix, ".").as_str(), item.path.as_str())
        };
        let moved_item = DefinitionValidationIssue {
            severity: item.severity.clone(),
            code: item.code.clone(),
            path,
            message: item.message.clone(),
            suggestion: match &item.suggestion {
                Some(t) => Some(t.clone()),
                None => None,
            },
        };
        let ghost before = definition_issues_view(issues@);
        assert(moved_item@ == moved[k as int]);
        issues.push(moved_item);
        assert(definition_issues_view(issues@) =~= before.push(moved[k as int]));
        assert(moved.take(k + 1) =~= moved.take(k as int).push(moved[k as int]));
        k = k + 1;
    }
    assert(moved.take(k as int) =~= moved);
}

/// The finding on a value that is not a stable identifier: blank, with surrounding
/// whitespace, or with a character other than ASCII letters, digits, `-`, `_` and `.`.
pub open spec fn stable_id_issues(value: Seq<char>, path: Seq<char>) -> Seq<DefinitionIssueView> {
    if !(trim_seq(value).len() > 0 && value == trim_seq(value) && all_identifier_chars(value)) {
        seq![
            error_issue(
                "invalid_asset_characterization_identifier"@,
                path,
                "identifier must use letters, digits, hyphen, underscore, or dot"@,
                None,
            ),
        ]
    } else {
        seq![]
    }
}

/// Requires a stable identifier.
pub fn require_stable_id(issues: &mut Vec<DefinitionValidationIssue>, value: &str, path: &str)
    ensures
        definition_issues_view(final(issues)@) == definition_issues_view(old(issues)@)
            + stable_id_issues(value@, path@),
{
    let ghost before = definition_issues_view(issues@);
    let trimmed = trim(value);
    let valid = trimmed.as_str().unicode_len() > 0 && str_eq(value, trimmed.as_str())
        && all_identifier_characters(value);
    if !valid {
        let found = issue(
            "error",
            "invalid_asset_characterization_identifier",
            path,
            "identifier must use letters, digits, hyphen, underscore, or dot".to_owned(),
            None,
        );
        let ghost v = found@;
        issues.push(found);
        assert(definition_issues_view(issues@) =~= before.push(v));
    } else {
        assert(definition_issues_view(issues@) =~= before + seq![]);
    }
}

/// Whether the value is `sha256:` followed by 64 lowercase hexadecimal digits.
pub fn is_canonical_sha256(value: &str) -> (b: bool)
    ensures
        b == canonical_checksum(value@),
{
    is_canonical_checksum(value)
}

// ---------------------------------------------------------------------------
// Checks of a characterization
// ---------------------------------------------------------------------------

/// The correction a characterization applies.
#[derive(Clone, Debug, PartialEq, Eq)]
pub enum AssetCorrectionDefinition {
    TimeConversion { correction: ScalingProfileDefinition },
    FrequencyResponse { correction: EngineeringCurveDefinition },
}

pub open spec fn correction_kind(c: AssetCorrectionDefinition) -> AssetCharacterizationKind {
    match c {
        AssetCorrectionDefinition::TimeConversion { .. } => AssetCharacterizationKind::TimeConversion,
        AssetCorrectionDefinition::FrequencyResponse { .. } => AssetCharacterizationKind::FrequencyResponse,
    }
}

impl AssetCorrectionDefinition {
    pub fn kind(&self) -> (r: AssetCharacterizationKind)
        ensures
            r == correction_kind(*self),
    {
        match self {
            AssetCorrectionDefinition::TimeConversion { .. } => AssetCharacterizationKind::TimeConversion,
            AssetCorrectionDefinition::FrequencyResponse { .. } => AssetCharacterizationKind::FrequencyResponse,
        }
    }
}

/// A reference to the correction a model declares, by exact revision and checksum.
#[derive(Clone, Debug, PartialEq, Eq)]
pub struct SignalTransformationReference {
    pub transformation_kind: SignalTransformationKind,
    pub entity_id: String,
    pub revision_id: String,
    pub definition_checksum: String,
}

/// The uncertainty of a characterization, with what its checks read of each number:
/// whether it is given, and whether a given expanded uncertainty is not finite or
/// negative, a given coverage factor not finite or not positive, and a given confidence
/// level not finite or outside 0 to 100 percent.
#[derive(Clone, Debug, PartialEq, Eq)]
pub struct CharacterizationUncertainty {
    pub has_expanded_uncertainty: bool,
    pub expanded_uncertainty_invalid: bool,
    pub unit: Option<String>,
    pub has_coverage_factor: bool,
    pub coverage_factor_invalid: bool,
    pub has_confidence_level: bool,
    pub confidence_level_invalid: bool,
    pub statement: Option<String>,
}

/// A characterization of a material.
#[derive(Clone, Debug, PartialEq, Eq)]
pub struct AssetCharacterizationDefinition {
    pub definition_schema_version: String,
    pub characterization_id: String,
    pub asset_id: String,
    pub label: String,
    pub correction: AssetCorrectionDefinition,
    pub model_correction_reference: Option<SignalTransformationReference>,
    pub uncertainty: Option<CharacterizationUncertainty>,
}

/// The findings of a nested definition, moved under `prefix`.
pub open spec fn nested_issues(prefix: Seq<char>, s: Seq<DefinitionIssueView>) -> Seq<DefinitionIssueView> {
    s.map_values(|item: DefinitionIssueView| nested_issue(prefix, item))
}

#[verifier::opaque]
pub open spec fn characterization_head_issues(d: AssetCharacterizationDefinition) -> Seq<
    DefinitionIssueView,
> {
    flagged(
        d.definition_schema_version@ != ASSET_CHARACTERIZATION_DEFINITION_SCHEMA_VERSION@,
        finding(
            "error",
            "unsupported_asset_characterization_schema",
            "definition_schema_version"@,
            "unsupported asset characterization definition schema"@,
            Some("Use "@ + ASSET_CHARACTERIZATION_DEFINITION_SCHEMA_VERSION@ + "."@),
        ),
    ) + stable_id_issues(d.characterization_id@, "characterization_id"@) + stable_id_issues(
        d.asset_id@,
        "asset_id"@,
    ) + flagged(
        trim_seq(d.label@).len() == 0,
        finding(
            "error",
            "missing_asset_characterization_label",
            "label"@,
            "a characterization name is required"@,
            Some("Name the measured correction so it can be recognized in the material record."@),
        ),
    )
}

/// The checks of the correction: its identity is the characterization's, its own
/// findings moved under `correction`, and a frequency response has two points at least.
#[verifier::opaque]
pub open spec fn correction_issues(d: AssetCharacterizationDefinition) -> Seq<DefinitionIssueView> {
    match d.correction {
        AssetCorrectionDefinition::TimeConversion { correction } => flagged(
            correction.scaling_profile_id@ != d.characterization_id@,
            finding(
                "error",
                "asset_characterization_identity_mismatch",
                "correction.scaling_profile_id"@,
                "the time conversion must use the characterization identity"@,
                None,
            ),
        ) + nested_issues("correction"@, scaling_profile_issues(correction)),
        AssetCorrectionDefinition::FrequencyResponse { correction } => flagged(
            correction.curve_id@ != d.characterization_id@,
            finding(
                "error",
                "asset_characterization_identity_mismatch",
                "correction.curve_id"@,
                "the frequency response must use the characterization identity"@,
                None,
            ),
        ) + nested_issues("correction"@, engineering_curve_issues(correction)) + flagged(
            correction.points@.len() < 2,
            finding(
                "error",
                "asset_frequency_response_requires_two_points",
                "correction.points"@,
                "a material frequency response requires at least two measured frequencies"@,
                Some("Add the lower and upper measured frequencies."@),
            ),
        ),
    }
}

/// The checks of the model correction reference: same transformation as the
/// characterization, stable identity and revision, canonical checksum.
#[verifier::opaque]
pub open spec fn model_reference_issues(d: AssetCharacterizationDefinition) -> Seq<DefinitionIssueView> {
    match d.model_correction_reference {
        None => seq![],
        Some(r) => flagged(
            r.transformation_kind != transformation_of(correction_kind(d.correction)),
            finding(
                "error",
                "model_correction_kind_mismatch",
                "model_correction_reference.transformation_kind"@,
                "the model correction and material characterization must use the same signal representation"@,
                None,
            ),
        ) + stable_id_issues(r.entity_id@, "model_correction_reference.entity_id"@)
            + stable_id_issues(r.revision_id@, "model_correction_reference.revision_id"@) + flagged(
            !canonical_checksum(r.definition_checksum@),
            finding(
                "error",
                "invalid_model_correction_checksum",
                "model_correction_reference.definition_checksum"@,
                "the model correction checksum must use canonical sha256 form"@,
                None,
            ),
        ),
    }
}

/// The checks of an uncertainty statement.
#[verifier::opaque]
pub open spec fn uncertainty_issues(u: CharacterizationUncertainty) -> Seq<DefinitionIssueView> {
    flagged(
        !u.has_expanded_uncertainty && (u.unit is Some || u.has_coverage_factor
            || u.has_confidence_level),
        finding(
            "error",
            "incomplete_characterization_uncertainty",
            "uncertainty.expanded_uncertainty"@,
            "expanded uncertainty is required when its unit, coverage factor, or confidence level is provided"@,
            None,
        ),
    ) + (if u.has_expanded_uncertainty {
        flagged(
            u.expanded_uncertainty_invalid,
            finding(
                "error",
                "invalid_characterization_uncertainty",
                "uncertainty.expanded_uncertainty"@,
                "expanded uncertainty must be a finite non-negative value"@,
                None,
            ),
        ) + flagged(
            match u.unit {
                Some(t) => trim_seq(t@).len() == 0,
                None => true,
            },
            finding(
                "error",
                "missing_characterization_uncertainty_unit",
                "uncertainty.unit"@,
                "an uncertainty unit is required when a numeric uncertainty is provided"@,
                None,
            ),
        )
    } else {
        seq![]
    }) + flagged(
        u.has_coverage_factor && u.coverage_factor_invalid,
        finding(
            "error",
            "invalid_characterization_coverage_factor",
            "uncertainty.coverage_factor"@,
            "coverage factor must be a finite positive value"@,
            None,
        ),
    ) + flagged(
        u.has_confidence_level && u.confidence_level_invalid,
        finding(
            "error",
            "invalid_characterization_confidence_level",
            "uncertainty.confidence_level_percent"@,
            "confidence level must be between 0 and 100 percent"@,
            None,
        ),
    )
}

/// Every finding on a characterization, in the order they are reported: identity and
/// name, the correction, the model correction reference, then the uncertainty.
pub open spec fn asset_characterization_issues(d: AssetCharacterizationDefinition) -> Seq<
    DefinitionIssueView,
> {
    characterization_head_issues(d) + correction_issues(d) + model_reference_issues(d)
        + match d.uncertainty {
        Some(u) => uncertainty_issues(u),
        None => seq![],
    }
}

#[verifier::rlimit(60)]
#[verifier::spinoff_prover]
fn check_characterization_head(issues: &mut Vec<DefinitionValidationIssue>, d: &AssetCharacterizationDefinition)
    ensures
        definition_issues_view(final(issues)@) == definition_issues_view(old(issues)@)
            + characterization_head_issues(*d),
{
    proof {
        reveal(characterization_head_issues);
        reveal_strlit("definition_schema_version");
        reveal_strlit("characterization_id");
        reveal_strlit("asset_id");
        reveal_strlit("label");
        reveal_strlit(".");
        reveal_strlit("Use ");
    }
    let ghost before = definition_issues_view(issues@);
    let suggestion = concat(
        concat("Use ", ASSET_CHARACTERIZATION_DEFINITION_SCHEMA_VERSION).as_str(),
        ".",
    );
    push_when(
        issues,
        !str_eq(d.definition_schema_version.as_str(), ASSET_CHARACTERIZATION_DEFINITION_SCHEMA_VERSION),
        "error",
        "unsupported_asset_characterization_schema",
        "definition_schema_version",
        "unsupported asset characterization definition schema".to_owned(),
        Some(suggestion.as_str()),
    );
    require_stable_id(issues, d.characterization_id.as_str(), "characterization_id");
    require_stable_id(issues, d.asset_id.as_str(), "asset_id");
    let t = trim(d.label.as_str());
    push_when(
        issues,
        t.as_str().unicode_len() == 0,
        "error",
        "missing_asset_characterization_label",
        "label",
        "a characterization name is required".to_owned(),
        Some("Name the measured correction so it can be recognized in the material record."),
    );
    assert(definition_issues_view(issues@) =~= before + characterization_head_issues(*d));
}

#[verifier::rlimit(60)]
#[verifier::spinoff_prover]
fn check_correction(issues: &mut Vec<DefinitionValidationIssue>, d: &AssetCharacterizationDefinition)
    ensures
        definition_issues_view(final(issues)@) == definition_issues_view(old(issues)@)
            + correction_issues(*d),
{
    proof {
        reveal(correction_issues);
        reveal_strlit("correction.scaling_profile_id");
        reveal_strlit("correction.curve_id");
        reveal_strlit("correction.points");
        reveal_strlit("correction");
    }
    let ghost before = definition_issues_view(issues@);
    match &d.correction {
        AssetCorrectionDefinition::TimeConversion { correction } => {
            push_when(
                issues,
                !str_eq(correction.scaling_profile_id.as_str(), d.characterization_id.as_str()),
                "error",
                "asset_characterization_identity_mismatch",
                "correction.scaling_profile_id",
                "the time conversion must use the characterization identity".to_owned(),
                None,
            );
            append_nested_issues(issues, "correction", validate_scaling_profile_definition(correction));
        },
        AssetCorrectionDefinition::FrequencyResponse { correction } => {
            push_when(
                issues,
                !str_eq(correction.curve_id.as_str(), d.characterization_id.as_str()),
                "error",
                "asset_characterization_identity_mismatch",
                "correction.curve_id",
                "the frequency response must use the characterization identity".to_owned(),
                None,
            );
            append_nested_issues(issues, "correction", validate_engineering_curve_definition(correction));
            push_when(
                issues,
                correction.points.len() < 2,
                "error",
                "asset_frequency_response_requires_two_points",
                "correction.points",
                "a material frequency response requires at least two measured frequencies".to_owned(),
                Some("Add the lower and upper measured frequencies."),
            );
        },
    }
    assert(definition_issues_view(issues@) =~= before + correction_issues(*d));
}

#[verifier::rlimit(60)]
#[verifier::spinoff_prover]
fn check_model_reference(issues: &mut Vec<DefinitionValidationIssue>, d: &AssetCharacterizationDefinition)
    ensures
        definition_issues_view(final(issues)@) == definition_issues_view(old(issues)@)
            + model_reference_issues(*d),
{
    proof {
        reveal(model_reference_issues);
        reveal_strlit("model_correction_reference.transformation_kind");
        reveal_strlit("model_correction_reference.entity_id");
        reveal_strlit("model_correction_reference.revision_id");
        reveal_strlit("model_correction_reference.definition_checksum");
    }
    let ghost before = definition_issues_view(issues@);
    match &d.model_correction_reference {
        None => {},
        Some(r) => {
            push_when(
                issues,
                r.transformation_kind != d.correction.kind().transformation_kind(),
                "error",
                "model_correction_kind_mismatch",
                "model_correction_reference.transformation_kind",
                "the model correction and material characterization must use the same signal representation".to_owned(),
                None,
            );
            require_stable_id(issues, r.entity_id.as_str(), "model_correction_reference.entity_id");
            require_stable_id(issues, r.revision_id.as_str(), "model_correction_reference.revision_id");
            push_when(
                issues,
                !is_canonical_sha256(r.definition_checksum.as_str()),
                "error",
                "invalid_model_correction_checksum",
                "model_correction_reference.definition_checksum",
                "the model correction checksum must use canonical sha256 form".to_owned(),
                None,
            );
        },
    }
    assert(definition_issues_view(issues@) =~= before + model_reference_issues(*d));
}

#[verifier::rlimit(60)]
#[verifier::spinoff_prover]
fn check_uncertainty(issues: &mut Vec<DefinitionValidationIssue>, u: &CharacterizationUncertainty)
    ensures
        definition_issues_view(final(issues)@) == definition_issues_view(old(issues)@)
            + uncertainty_issues(*u),
{
    proof {
        reveal(uncertainty_issues);
        reveal_strlit("uncertainty.expanded_uncertainty");
        reveal_strlit("uncertainty.unit");
        reveal_strlit("uncertainty.coverage_factor");
        reveal_strlit("uncertainty.confidence_level_percent");
    }
    let ghost before = definition_issues_view(issues@);
    push_when(
        issues,
        !u.has_expanded_uncertainty && (u.unit.is_some() || u.has_coverage_factor
            || u.has_confidence_level),
        "error",
        "incomplete_characterization_uncertainty",
        "uncertainty.expanded_uncertainty",
        "expanded uncertainty is required when its unit, coverage factor, or confidence level is provided".to_owned(),
        None,
    );
    let ghost s1 = definition_issues_view(issues@);
    if u.has_expanded_uncertainty {
        push_when(
            issues,
            u.expanded_uncertainty_invalid,
            "error",
            "invalid_characterization_uncertainty",
            "uncertainty.expanded_uncertainty",
            "expanded uncertainty must be a finite non-negative value".to_owned(),
            None,
        );
        let unit_missing = match &u.unit {
            Some(t) => {
                let tt = trim(t.as_str());
                tt.as_str().unicode_len() == 0
            },
            None => true,
        };
        push_when(
            issues,
            unit_missing,
            "error",
            "missing_characterization_uncertainty_unit",
            "uncertainty.unit",
            "an uncertainty unit is required when a numeric uncertainty is provided".to_owned(),
            None,
        );
    }
    let ghost s2 = definition_issues_view(issues@);
    push_when(
        issues,
        u.has_coverage_factor && u.coverage_factor_invalid,
        "error",
        "invalid_characterization_coverage_factor",
        "uncertainty.coverage_factor",
        "coverage factor must be a finite positive value".to_owned(),
        None,
    );
    push_when(
        issues,
        u.has_confidence_level && u.confidence_level_invalid,
        "error",
        "invalid_characterization_confidence_level",
        "uncertainty.confidence_level_percent",
        "confidence level must be between 0 and 100 percent".to_owned(),
        None,
    );
    assert(definition_issues_view(issues@) =~= before + uncertainty_issues(*u));
}

/// Checks a characterization of a material (see `asset_characterization_issues`).
pub fn validate_asset_characterization_definition(definition: &AssetCharacterizationDefinition) -> (r: Vec<
    DefinitionValidationIssue,
>)
    ensures
        definition_issues_view(r@) == asset_characterization_issues(*definition),
{
    let mut issues: Vec<DefinitionValidationIssue> = Vec::new();
    assert(definition_issues_view(issues@) =~= Seq::<DefinitionIssueView>::empty());
    check_characterization_head(&mut issues, definition);
    check_correction(&mut issues, definition);
    check_model_reference(&mut issues, definition);
    let ghost s = definition_issues_view(issues@);
    match &definition.uncertainty {
        Some(u) => check_uncertainty(&mut issues, u),
        None => {},
    }
    assert(definition_issues_view(issues@) =~= asset_characterization_issues(*definition));
    issues
}

impl AssetCharacterizationDefinition {
    /// Every finding on the characterization (see `asset_characterization_issues`).
    pub fn validate_all(&self) -> (r: Vec<DefinitionValidationIssue>)
        ensures
            definition_issues_view(r@) == asset_characterization_issues(*self),
    {
        validate_asset_characterization_definition(self)
    }
}

} // verus!
