//! The checks of engineering curve definitions: frequency-response corrections given
//! as tables of points over one or more axes.

use crate::engineering_validation::{
    finding, flagged, push_when, quantity_unit_issues, validate_quantity_unit, PhysicalQuantity,
    RegisteredUnit,
};
use crate::measurement_engineering::{
    blank_text_issues, curve_axis_name, definition_id_issues, definition_issues_view,
    element_path, is_sha256_checksum, issue, require_id, require_schema, require_text,
    schema_issues, CorrectionOperation, CurveAxis, CurveInterpolation, DefinitionIssueView,
    DefinitionValidationIssue, EngineeringCurveType, ExtrapolationPolicy,
    FrequencyResponseComponent, SignalRepresentation, ENGINEERING_CURVE_DEFINITION_SCHEMA_VERSION,
};
use crate::planned_test_preparation::canonical_checksum;
use crate::text::{concat, indexed_path, str_eq};
use vstd::prelude::*;

verus! {

/// An independent axis of a curve.
#[derive(Clone, Debug, PartialEq, Eq)]
pub struct CurveAxisDefinition {
    pub axis: CurveAxis,
    pub quantity: PhysicalQuantity,
    pub unit: RegisteredUnit,
}

/// A dependent value of a curve; `unit_is_logarithmic` is what the unit registry says
/// of its unit.
#[derive(Clone, Debug, PartialEq, Eq)]
pub struct CurveValueDefinition {
    pub value_id: String,
    pub quantity: PhysicalQuantity,
    pub unit: RegisteredUnit,
    pub unit_is_logarithmic: bool,
    pub component: FrequencyResponseComponent,
    pub operation: CorrectionOperation,
}

/// What the checks read of a number of a curve point: whether it is finite, whether it
/// is at most zero, and its bit pattern (equal numbers have equal patterns).
#[derive(Clone, Copy, Debug, PartialEq, Eq)]
pub struct CurveNumber {
    pub finite: bool,
    pub at_most_zero: bool,
    pub bits: u64,
}

/// A point of a curve: its axis values and its dependent values, by name. As in a map,
/// a name given twice keeps its last entry.
#[derive(Clone, Debug, PartialEq, Eq)]
pub struct EngineeringCurvePoint {
    pub axis_values: Vec<(String, CurveNumber)>,
    pub values: Vec<(String, CurveNumber)>,
}

/// An engineering curve definition.
#[derive(Clone, Debug, PartialEq, Eq)]
pub struct EngineeringCurveDefinition {
    pub definition_schema_version: String,
    pub curve_id: String,
    pub curve_type: EngineeringCurveType,
    pub label: String,
    pub signal_representation: SignalRepresentation,
    pub independent_axes: Vec<CurveAxisDefinition>,
    pub dependent_values: Vec<CurveValueDefinition>,
    pub points: Vec<EngineeringCurvePoint>,
    pub interpolation: CurveInterpolation,
    pub extrapolation_policy: ExtrapolationPolicy,
    pub source_document_reference: Option<String>,
    pub source_checksum: Option<String>,
    pub status: Option<String>,
}

/// The entry named `key` among the first `n`, the last if several.
pub open spec fn entry_at(entries: Seq<(String, CurveNumber)>, key: Seq<char>, n: int) -> Option<CurveNumber>
    decreases n,
{
    if n <= 0 {
        None
    } else if entries[n - 1].0@ == key {
        Some(entries[n - 1].1)
    } else {
        entry_at(entries, key, n - 1)
    }
}

pub open spec fn entry_of(entries: Seq<(String, CurveNumber)>, key: Seq<char>) -> Option<CurveNumber> {
    entry_at(entries, key, entries.len() as int)
}

fn lookup(entries: &Vec<(String, CurveNumber)>, key: &str) -> (r: Option<CurveNumber>)
    ensures
        r == entry_of(entries@, key@),
{
    let mut found: Option<CurveNumber> = None;
    let mut k: usize = 0;
    while k < entries.len()
        invariant
            k <= entries@.len(),
            found == entry_at(entries@, key@, k as int),
        decreases entries@.len() - k,
    {
        if str_eq(entries[k].0.as_str(), key) {
            found = Some(entries[k].1);
        }
        k = k + 1;
    }
    found
}

// ---------------------------------------------------------------------------
// Identity, axes and dependent values
// ---------------------------------------------------------------------------

#[verifier::opaque]
pub open spec fn curve_head_issues(d: EngineeringCurveDefinition) -> Seq<DefinitionIssueView> {
    schema_issues(
        d.definition_schema_version@,
        ENGINEERING_CURVE_DEFINITION_SCHEMA_VERSION@,
        "definition_schema_version"@,
    ) + definition_id_issues(d.curve_id@, "curve_id"@) + blank_text_issues(d.label@, "label"@)
        + flagged(
        d.signal_representation != SignalRepresentation::FrequencyDomainSpectrum,
        finding(
            "error",
            "engineering_curve_requires_frequency_spectrum",
            "signal_representation"@,
            "frequency-response corrections operate on frequency-domain spectra"@,
            Some(
                "Use a sample conversion profile for gain, offset, overload, or clipping in the time domain."@,
            ),
        ),
    ) + flagged(
        d.independent_axes@.len() == 0,
        finding(
            "error",
            "missing_curve_axis",
            "independent_axes"@,
            "engineering curves require at least one independent axis"@,
            None,
        ),
    ) + flagged(
        d.dependent_values@.len() == 0,
        finding(
            "error",
            "missing_curve_value",
            "dependent_values"@,
            "engineering curves require at least one dependent value"@,
            None,
        ),
    )
}

pub open spec fn axis_checks(axes: Seq<CurveAxisDefinition>, k: int) -> Seq<DefinitionIssueView> {
    let path = element_path("independent_axes"@, k as nat);
    flagged(
        exists|j: int| 0 <= j < k && (#[trigger] axes[j]).axis == axes[k].axis,
        finding("error", "duplicate_curve_axis", path + ".axis"@, "curve axes must be unique"@, None),
    ) + quantity_unit_issues(axes[k].quantity, axes[k].unit, path + ".unit"@)
}

pub open spec fn axes_pass(axes: Seq<CurveAxisDefinition>, n: int) -> Seq<DefinitionIssueView>
    decreases n,
{
    if n <= 0 {
        seq![]
    } else {
        axes_pass(axes, n - 1) + axis_checks(axes, n - 1)
    }
}

pub open spec fn component_issues(v: CurveValueDefinition, path: Seq<char>) -> Seq<DefinitionIssueView> {
    match v.component {
        FrequencyResponseComponent::Amplitude => flagged(
            v.quantity != PhysicalQuantity::Dimensionless,
            finding(
                "error",
                "amplitude_correction_quantity_mismatch",
                path + ".quantity"@,
                "amplitude response corrections must use the dimensionless quantity with dB or a linear ratio unit"@,
                Some("Use quantity=dimensionless and unit=dB for RF loss or gain."@),
            ),
        ),
        FrequencyResponseComponent::Phase => flagged(
            v.quantity != PhysicalQuantity::Angle || !(v.unit.unit@ == "deg"@ || v.unit.unit@
                == "rad"@),
            finding(
                "error",
                "phase_correction_unit_mismatch",
                path + ".unit"@,
                "phase response corrections must use an angle in deg or rad"@,
                Some("Use quantity=angle with unit=deg or rad."@),
            ),
        ),
    }
}

#[verifier::opaque]
pub open spec fn value_checks(vs: Seq<CurveValueDefinition>, k: int) -> Seq<DefinitionIssueView> {
    let path = element_path("dependent_values"@, k as nat);
    definition_id_issues(vs[k].value_id@, path + ".value_id"@) + flagged(
        exists|j: int| 0 <= j < k && (#[trigger] vs[j]).value_id@ == vs[k].value_id@,
        finding(
            "error",
            "duplicate_curve_value",
            path + ".value_id"@,
            "curve dependent value ids must be unique"@,
            None,
        ),
    ) + quantity_unit_issues(vs[k].quantity, vs[k].unit, path + ".unit"@) + flagged(
        exists|j: int| 0 <= j < k && (#[trigger] vs[j]).component == vs[k].component,
        finding(
            "error",
            "duplicate_frequency_response_component",
            path + ".component"@,
            "a frequency response can define at most one amplitude and one phase component"@,
            None,
        ),
    ) + component_issues(vs[k], path)
}

pub open spec fn values_pass(vs: Seq<CurveValueDefinition>, n: int) -> Seq<DefinitionIssueView>
    decreases n,
{
    if n <= 0 {
        seq![]
    } else {
        values_pass(vs, n - 1) + value_checks(vs, n - 1)
    }
}

#[verifier::rlimit(60)]
#[verifier::spinoff_prover]
fn check_curve_head(issues: &mut Vec<DefinitionValidationIssue>, d: &EngineeringCurveDefinition)
    ensures
        definition_issues_view(final(issues)@) == definition_issues_view(old(issues)@)
            + curve_head_issues(*d),
{
    proof {
        reveal(curve_head_issues);
        reveal_strlit("definition_schema_version");
        reveal_strlit("curve_id");
        reveal_strlit("label");
        reveal_strlit("signal_representation");
        reveal_strlit("independent_axes");
        reveal_strlit("dependent_values");
    }
    let ghost before = definition_issues_view(issues@);
    require_schema(
        issues,
        d.definition_schema_version.as_str(),
        ENGINEERING_CURVE_DEFINITION_SCHEMA_VERSION,
        "definition_schema_version",
    );
    require_id(issues, d.curve_id.as_str(), "curve_id");
    require_text(issues, d.label.as_str(), "label");
    push_when(
        issues,
        d.signal_representation != SignalRepresentation::FrequencyDomainSpectrum,
        "error",
        "engineering_curve_requires_frequency_spectrum",
        "signal_representation",
        "frequency-response corrections operate on frequency-domain spectra".to_owned(),
        Some("Use a sample conversion profile for gain, offset, overload, or clipping in the time domain."),
    );
    push_when(
        issues,
        d.independent_axes.len() == 0,
        "error",
        "missing_curve_axis",
        "independent_axes",
        "engineering curves require at least one independent axis".to_owned(),
        None,
    );
    push_when(
        issues,
        d.dependent_values.len() == 0,
        "error",
        "missing_curve_value",
        "dependent_values",
        "engineering curves require at least one dependent value".to_owned(),
        None,
    );
    assert(definition_issues_view(issues@) =~= before + curve_head_issues(*d));
}

fn check_axis(issues: &mut Vec<DefinitionValidationIssue>, axes: &Vec<CurveAxisDefinition>, k: usize)
    requires
        k < axes@.len(),
    ensures
        definition_issues_view(final(issues)@) == definition_issues_view(old(issues)@)
            + axis_checks(axes@, k as int),
{
    proof {
        reveal_strlit("");
    }
    let ghost before = definition_issues_view(issues@);
    let path = indexed_path("independent_axes", k, "");
    assert(path@ =~= element_path("independent_axes"@, k as nat));
    let mut seen = false;
    let mut j: usize = 0;
    while j < k
        invariant
            k < axes@.len(),
            j <= k,
            seen == exists|m: int| 0 <= m < j && (#[trigger] axes@[m]).axis == axes@[k as int].axis,
        decreases k - j,
    {
        if axes[j].axis == axes[k].axis {
            seen = true;
        }
        j = j + 1;
    }
    push_when(
        issues,
        seen,
        "error",
        "duplicate_curve_axis",
        concat(path.as_str(), ".axis").as_str(),
        "curve axes must be unique".to_owned(),
        None,
    );
    validate_quantity_unit(issues, axes[k].quantity, &axes[k].unit, concat(path.as_str(), ".unit").as_str());
    assert(definition_issues_view(issues@) =~= before + axis_checks(axes@, k as int));
}

#[verifier::rlimit(60)]
#[verifier::spinoff_prover]
fn check_value(issues: &mut Vec<DefinitionValidationIssue>, vs: &Vec<CurveValueDefinition>, k: usize)
    requires
        k < vs@.len(),
    ensures
        definition_issues_view(final(issues)@) == definition_issues_view(old(issues)@)
            + value_checks(vs@, k as int),
{
    proof {
        reveal(value_checks);
        reveal_strlit("");
    }
    let ghost before = definition_issues_view(issues@);
    let path = indexed_path("dependent_values", k, "");
    assert(path@ =~= element_path("dependent_values"@, k as nat));
    let id_path = concat(path.as_str(), ".value_id");
    let v = &vs[k];
    require_id(issues, v.value_id.as_str(), id_path.as_str());
    let mut id_seen = false;
    let mut component_seen = false;
    let mut j: usize = 0;
    while j < k
        invariant
            k < vs@.len(),
            j <= k,
            v == &vs@[k as int],
            id_seen == exists|m: int| 0 <= m < j && (#[trigger] vs@[m]).value_id@ == vs@[k as int].value_id@,
            component_seen == exists|m: int| 0 <= m < j && (#[trigger] vs@[m]).component == vs@[k as int].component,
        decreases k - j,
    {
        if str_eq(vs[j].value_id.as_str(), v.value_id.as_str()) {
            id_seen = true;
        }
        if vs[j].component == v.component {
            component_seen = true;
        }
        j = j + 1;
    }
    push_when(
        issues,
        id_seen,
        "error",
        "duplicate_curve_value",
        id_path.as_str(),
        "curve dependent value ids must be unique".to_owned(),
        None,
    );
    validate_quantity_unit(issues, v.quantity, &v.unit, concat(path.as_str(), ".unit").as_str());
    push_when(
        issues,
        component_seen,
        "error",
        "duplicate_frequency_response_component",
        concat(path.as_str(), ".component").as_str(),
        "a frequency response can define at most one amplitude and one phase component".to_owned(),
        None,
    );
    let ghost mid = definition_issues_view(issues@);
    match v.component {
        FrequencyResponseComponent::Amplitude => push_when(
            issues,
            v.quantity != PhysicalQuantity::Dimensionless,
            "error",
            "amplitude_correction_quantity_mismatch",
            concat(path.as_str(), ".quantity").as_str(),
            "amplitude response corrections must use the dimensionless quantity with dB or a linear ratio unit".to_owned(),
            Some("Use quantity=dimensionless and unit=dB for RF loss or gain."),
        ),
        FrequencyResponseComponent::Phase => push_when(
            issues,
            v.quantity != PhysicalQuantity::Angle || !(str_eq(v.unit.unit.as_str(), "deg") || str_eq(
                v.unit.unit.as_str(),
                "rad",
            )),
            "error",
            "phase_correction_unit_mismatch",
            concat(path.as_str(), ".unit").as_str(),
            "phase response corrections must use an angle in deg or rad".to_owned(),
            Some("Use quantity=angle with unit=deg or rad."),
        ),
    }
    assert(definition_issues_view(issues@) =~= mid + component_issues(*v, path@));
    assert(definition_issues_view(issues@) =~= before + value_checks(vs@, k as int));
}

// ---------------------------------------------------------------------------
// Frequency response, points and units
// ---------------------------------------------------------------------------

pub open spec fn has_component(vs: Seq<CurveValueDefinition>, c: FrequencyResponseComponent) -> bool {
    exists|k: int| 0 <= k < vs.len() && (#[trigger] vs[k]).component == c
}

pub open spec fn has_frequency_axis(axes: Seq<CurveAxisDefinition>) -> bool {
    exists|k: int| 0 <= k < axes.len() && (#[trigger] axes[k]).axis == CurveAxis::Frequency
}

/// A frequency response needs an amplitude component, a frequency axis and points.
#[verifier::opaque]
pub open spec fn curve_presence_issues(d: EngineeringCurveDefinition) -> Seq<DefinitionIssueView> {
    flagged(
        !has_component(d.dependent_values@, FrequencyResponseComponent::Amplitude),
        finding(
            "error",
            "missing_amplitude_frequency_response",
            "dependent_values"@,
            "frequency-response corrections require an amplitude component"@,
            Some("Add an amplitude correction in dB or as a linear ratio."@),
        ),
    ) + flagged(
        !has_frequency_axis(d.independent_axes@),
        finding(
            "error",
            "frequency_response_axis_missing",
            "independent_axes"@,
            "frequency-response corrections require a frequency axis"@,
            Some("Use axis=frequency, quantity=frequency, unit=Hz."@),
        ),
    ) + flagged(
        d.points@.len() == 0,
        finding(
            "error",
            "missing_curve_points",
            "points"@,
            "engineering curves require at least one point"@,
            Some("Provide table rows with axis_values and values."@),
        ),
    )
}

/// The name of the first axis, by which a point gives its x value.
pub open spec fn first_axis_name(d: EngineeringCurveDefinition) -> Seq<char> {
    curve_axis_name(d.independent_axes@[0].axis)
}

pub open spec fn point_path(k: int) -> Seq<char> {
    element_path("points"@, k as nat)
}

/// The check of the dependent value `v` at the point at `k`: present, finite, and
/// positive under log-y interpolation.
pub open spec fn dependent_point_check(d: EngineeringCurveDefinition, k: int, v: CurveValueDefinition) -> Seq<
    DefinitionIssueView,
> {
    match entry_of(d.points@[k].values@, v.value_id@) {
        Some(n) => if n.finite {
            flagged(
                d.interpolation == CurveInterpolation::LinearXLogY && n.at_most_zero,
                finding(
                    "error",
                    "log_y_interpolation_non_positive_value",
                    point_path(k) + ".values."@ + v.value_id@,
                    "linear_x_log_y interpolation requires positive dependent values"@,
                    None,
                ),
            )
        } else {
            seq![
                finding(
                    "error",
                    "invalid_curve_point_value",
                    point_path(k) + ".values."@ + v.value_id@,
                    "curve dependent values must be finite"@,
                    None,
                ),
            ]
        },
        None => seq![
            finding(
                "error",
                "missing_curve_point_value",
                point_path(k) + ".values"@,
                "missing dependent value "@ + v.value_id@,
                None,
            ),
        ],
    }
}

pub open spec fn dependents_pass(d: EngineeringCurveDefinition, k: int, n: int) -> Seq<
    DefinitionIssueView,
>
    decreases n,
{
    if n <= 0 {
        seq![]
    } else {
        dependents_pass(d, k, n - 1) + dependent_point_check(d, k, d.dependent_values@[n - 1])
    }
}

/// Whether an earlier point has an x value with the given bit pattern.
pub open spec fn x_seen_before(d: EngineeringCurveDefinition, k: int, bits: u64) -> bool {
    exists|j: int|
        0 <= j < k && match entry_of((#[trigger] d.points@[j]).axis_values@, first_axis_name(d)) {
            Some(x) => x.bits == bits,
            None => false,
        }
}

pub open spec fn is_step(i: CurveInterpolation) -> bool {
    i == CurveInterpolation::StepPrevious || i == CurveInterpolation::StepNext
}

/// The checks of the point at `k` of a one-axis curve: its x value (present, finite,
/// positive for a frequency axis, not repeated unless stepping), then each dependent
/// value; a point without an x value gets that finding alone.
#[verifier::opaque]
pub open spec fn point_1d_checks(d: EngineeringCurveDefinition, k: int) -> Seq<DefinitionIssueView> {
    let name = first_axis_name(d);
    match entry_of(d.points@[k].axis_values@, name) {
        None => seq![
            finding(
                "error",
                "missing_curve_point_axis",
                point_path(k) + ".axis_values"@,
                "missing "@ + name + " axis value"@,
                None,
            ),
        ],
        Some(x) => {
            let path = point_path(k) + ".axis_values."@ + name;
            flagged(
                !x.finite,
                finding("error", "invalid_curve_point_axis", path, "curve axis values must be finite"@, None),
            ) + flagged(
                d.independent_axes@[0].axis == CurveAxis::Frequency && x.at_most_zero,
                finding(
                    "error",
                    "frequency_curve_non_positive_frequency",
                    path,
                    "frequency curves require positive frequencies"@,
                    None,
                ),
            ) + flagged(
                !is_step(d.interpolation) && x_seen_before(d, k, x.bits),
                finding(
                    "error",
                    "duplicate_curve_x",
                    path,
                    "curve x values must be unique unless a step interpolation explicitly allows duplicates"@,
                    None,
                ),
            ) + dependents_pass(d, k, d.dependent_values@.len() as int)
        },
    }
}

pub open spec fn points_1d_pass(d: EngineeringCurveDefinition, n: int) -> Seq<DefinitionIssueView>
    decreases n,
{
    if n <= 0 {
        seq![]
    } else {
        points_1d_pass(d, n - 1) + point_1d_checks(d, n - 1)
    }
}

/// Under log-x interpolation, the x value of the point at `k`, where it has one, must be
/// above zero.
pub open spec fn log_x_check(d: EngineeringCurveDefinition, k: int) -> Seq<DefinitionIssueView> {
    if d.independent_axes@.len() > 0 {
        match entry_of(d.points@[k].axis_values@, first_axis_name(d)) {
            Some(x) => flagged(
                x.at_most_zero,
                finding(
                    "error",
                    "log_interpolation_non_positive_x",
                    point_path(k) + ".axis_values"@,
                    "log-x interpolation requires strictly positive x values"@,
                    None,
                ),
            ),
            None => seq![],
        }
    } else {
        seq![]
    }
}

pub open spec fn log_x_pass(d: EngineeringCurveDefinition, n: int) -> Seq<DefinitionIssueView>
    decreases n,
{
    if n <= 0 {
        seq![]
    } else {
        log_x_pass(d, n - 1) + log_x_check(d, n - 1)
    }
}

/// The unit a curve type asks of a dependent value that is not a phase, and the warning
/// on a linear unit under log-y interpolation.
#[verifier::opaque]
pub open spec fn type_unit_check(d: EngineeringCurveDefinition, v: CurveValueDefinition) -> Seq<
    DefinitionIssueView,
> {
    let u = v.unit.unit@;
    if v.component == FrequencyResponseComponent::Phase {
        seq![]
    } else {
        (match d.curve_type {
            EngineeringCurveType::AntennaFactor => flagged(
                !(u == "dB_per_meter"@ || u == "dBuV_per_m"@),
                finding(
                    "error",
                    "antenna_factor_unit_mismatch",
                    "dependent_values"@,
                    "antenna factor curves must use dB_per_meter or dBuV_per_m"@,
                    None,
                ),
            ),
            EngineeringCurveType::CableLoss => flagged(
                !(u == "dB"@ || u == "dB_per_meter"@),
                finding(
                    "error",
                    "rf_gain_loss_unit_mismatch",
                    "dependent_values"@,
                    "RF gain/loss curves must use dB-like units"@,
                    None,
                ),
            ),
            EngineeringCurveType::AmplifierGain => flagged(
                !(u == "dB"@ || u == "dB_per_meter"@),
                finding(
                    "error",
                    "rf_gain_loss_unit_mismatch",
                    "dependent_values"@,
                    "RF gain/loss curves must use dB-like units"@,
                    None,
                ),
            ),
            EngineeringCurveType::AttenuatorLoss => flagged(
                !(u == "dB"@ || u == "dB_per_meter"@),
                finding(
                    "error",
                    "rf_gain_loss_unit_mismatch",
                    "dependent_values"@,
                    "RF gain/loss curves must use dB-like units"@,
                    None,
                ),
            ),
            EngineeringCurveType::Uncertainty => flagged(
                !(u == "dB"@ || u == "percent"@ || u == "dimensionless"@),
                finding(
                    "error",
                    "uncertainty_unit_mismatch",
                    "dependent_values"@,
                    "uncertainty curves must use dB, percent or dimensionless units"@,
                    None,
                ),
            ),
            _ => seq![],
        }) + flagged(
            d.interpolation == CurveInterpolation::LinearXLogY && !v.unit_is_logarithmic,
            finding(
                "warning",
                "linear_x_log_y_with_linear_unit",
                "interpolation"@,
                "linear_x_log_y is unusual for a non-logarithmic dependent unit"@,
                None,
            ),
        )
    }
}

pub open spec fn type_units_pass(d: EngineeringCurveDefinition, n: int) -> Seq<DefinitionIssueView>
    decreases n,
{
    if n <= 0 {
        seq![]
    } else {
        type_units_pass(d, n - 1) + type_unit_check(d, d.dependent_values@[n - 1])
    }
}

pub open spec fn source_checksum_issues(d: EngineeringCurveDefinition) -> Seq<DefinitionIssueView> {
    match d.source_checksum {
        Some(c) => flagged(
            !canonical_checksum(c@),
            finding(
                "error",
                "invalid_source_checksum",
                "source_checksum"@,
                "source checksum must use sha256:<64 lowercase hex characters>"@,
                None,
            ),
        ),
        None => seq![],
    }
}

/// Every finding on an engineering curve, in the order they are reported: identity and
/// presence of axes and values, each axis, each dependent value, the frequency-response
/// needs, the points of a one-axis curve, the x values under log-x interpolation, the
/// units each curve type asks for, and the source checksum.
pub open spec fn engineering_curve_issues(d: EngineeringCurveDefinition) -> Seq<DefinitionIssueView> {
    let np = d.points@.len() as int;
    curve_head_issues(d) + axes_pass(d.independent_axes@, d.independent_axes@.len() as int)
        + values_pass(d.dependent_values@, d.dependent_values@.len() as int)
        + curve_presence_issues(d) + (if d.independent_axes@.len() == 1 {
        points_1d_pass(d, np)
    } else {
        seq![]
    }) + (if d.interpolation == CurveInterpolation::LogXLinearY {
        log_x_pass(d, np)
    } else {
        seq![]
    }) + type_units_pass(d, d.dependent_values@.len() as int) + source_checksum_issues(d)
}

fn has_component_exec(vs: &Vec<CurveValueDefinition>, c: FrequencyResponseComponent) -> (b: bool)
    ensures
        b == has_component(vs@, c),
{
    let mut k: usize = 0;
    while k < vs.len()
        invariant
            k <= vs@.len(),
            forall|j: int| 0 <= j < k ==> (#[trigger] vs@[j]).component != c,
        decreases vs@.len() - k,
    {
        if vs[k].component == c {
            return true;
        }
        k = k + 1;
    }
    false
}

fn has_frequency_axis_exec(axes: &Vec<CurveAxisDefinition>) -> (b: bool)
    ensures
        b == has_frequency_axis(axes@),
{
    let mut k: usize = 0;
    while k < axes.len()
        invariant
            k <= axes@.len(),
            forall|j: int| 0 <= j < k ==> (#[trigger] axes@[j]).axis != CurveAxis::Frequency,
        decreases axes@.len() - k,
    {
        if axes[k].axis == CurveAxis::Frequency {
            return true;
        }
        k = k + 1;
    }
    false
}

fn check_presence(issues: &mut Vec<DefinitionValidationIssue>, d: &EngineeringCurveDefinition)
    ensures
        definition_issues_view(final(issues)@) == definition_issues_view(old(issues)@)
            + curve_presence_issues(*d),
{
    proof {
        reveal(curve_presence_issues);
        reveal_strlit("dependent_values");
        reveal_strlit("independent_axes");
        reveal_strlit("points");
    }
    let ghost before = definition_issues_view(issues@);
    push_when(
        issues,
        !has_component_exec(&d.dependent_values, FrequencyResponseComponent::Amplitude),
        "error",
        "missing_amplitude_frequency_response",
        "dependent_values",
        "frequency-response corrections require an amplitude component".to_owned(),
        Some("Add an amplitude correction in dB or as a linear ratio."),
    );
    push_when(
        issues,
        !has_frequency_axis_exec(&d.independent_axes),
        "error",
        "frequency_response_axis_missing",
        "independent_axes",
        "frequency-response corrections require a frequency axis".to_owned(),
        Some("Use axis=frequency, quantity=frequency, unit=Hz."),
    );
    push_when(
        issues,
        d.points.len() == 0,
        "error",
        "missing_curve_points",
        "points",
        "engineering curves require at least one point".to_owned(),
        Some("Provide table rows with axis_values and values."),
    );
    assert(definition_issues_view(issues@) =~= before + curve_presence_issues(*d));
}

fn check_dependent_point(
    issues: &mut Vec<DefinitionValidationIssue>,
    d: &EngineeringCurveDefinition,
    k: usize,
    m: usize,
)
    requires
        k < d.points@.len(),
        m < d.dependent_values@.len(),
    ensures
        definition_issues_view(final(issues)@) == definition_issues_view(old(issues)@)
            + dependent_point_check(*d, k as int, d.dependent_values@[m as int]),
{
    proof {
        reveal_strlit("");
    }
    let ghost before = definition_issues_view(issues@);
    let v = &d.dependent_values[m];
    let base = indexed_path("points", k, "");
    assert(base@ =~= point_path(k as int));
    match lookup(&d.points[k].values, v.value_id.as_str()) {
        Some(n) => {
            if n.finite {
                push_when(
                    issues,
                    d.interpolation == CurveInterpolation::LinearXLogY && n.at_most_zero,
                    "error",
                    "log_y_interpolation_non_positive_value",
                    concat(concat(base.as_str(), ".values.").as_str(), v.value_id.as_str()).as_str(),
                    "linear_x_log_y interpolation requires positive dependent values".to_owned(),
                    None,
                );
            } else {
                issues.push(
                    issue(
                        "error",
                        "invalid_curve_point_value",
                        concat(concat(base.as_str(), ".values.").as_str(), v.value_id.as_str()).as_str(),
                        "curve dependent values must be finite".to_owned(),
                        None,
                    ),
                );
            }
        },
        None => {
            issues.push(
                issue(
                    "error",
                    "missing_curve_point_value",
                    concat(base.as_str(), ".values").as_str(),
                    concat("missing dependent value ", v.value_id.as_str()),
                    None,
                ),
            );
        },
    }
    assert(definition_issues_view(issues@) =~= before + dependent_point_check(
        *d,
        k as int,
        d.dependent_values@[m as int],
    ));
}

fn x_seen(d: &EngineeringCurveDefinition, name: &str, k: usize, bits: u64) -> (b: bool)
    requires
        k < d.points@.len(),
        d.independent_axes@.len() > 0,
        name@ == first_axis_name(*d),
    ensures
        b == x_seen_before(*d, k as int, bits),
{
    let mut j: usize = 0;
    while j < k
        invariant
            k < d.points@.len(),
            j <= k,
            name@ == first_axis_name(*d),
            forall|i: int|
                0 <= i < j ==> !match entry_of((#[trigger] d.points@[i]).axis_values@, first_axis_name(*d)) {
                    Some(x) => x.bits == bits,
                    None => false,
                },
        decreases k - j,
    {
        match lookup(&d.points[j].axis_values, name) {
            Some(x) => {
                if x.bits == bits {
                    return true;
                }
            },
            None => {},
        }
        j = j + 1;
    }
    false
}

#[verifier::rlimit(60)]
#[verifier::spinoff_prover]
fn check_point_1d(issues: &mut Vec<DefinitionValidationIssue>, d: &EngineeringCurveDefinition, k: usize)
    requires
        k < d.points@.len(),
        d.independent_axes@.len() == 1,
    ensures
        definition_issues_view(final(issues)@) == definition_issues_view(old(issues)@)
            + point_1d_checks(*d, k as int),
{
    proof {
        reveal(point_1d_checks);
        reveal_strlit("");
    }
    let ghost before = definition_issues_view(issues@);
    let name = d.independent_axes[0].axis.as_str();
    let base = indexed_path("points", k, "");
    assert(base@ =~= point_path(k as int));
    match lookup(&d.points[k].axis_values, name) {
        None => {
            issues.push(
                issue(
                    "error",
                    "missing_curve_point_axis",
                    concat(base.as_str(), ".axis_values").as_str(),
                    concat(concat("missing ", name).as_str(), " axis value"),
                    None,
                ),
            );
        },
        Some(x) => {
            let path = concat(concat(base.as_str(), ".axis_values.").as_str(), name);
            push_when(
                issues,
                !x.finite,
                "error",
                "invalid_curve_point_axis",
                path.as_str(),
                "curve axis values must be finite".to_owned(),
                None,
            );
            push_when(
                issues,
                d.independent_axes[0].axis == CurveAxis::Frequency && x.at_most_zero,
                "error",
                "frequency_curve_non_positive_frequency",
                path.as_str(),
                "frequency curves require positive frequencies".to_owned(),
                None,
            );
            let step = d.interpolation == CurveInterpolation::StepPrevious || d.interpolation
                == CurveInterpolation::StepNext;
            push_when(
                issues,
                !step && x_seen(d, name, k, x.bits),
                "error",
                "duplicate_curve_x",
                path.as_str(),
                "curve x values must be unique unless a step interpolation explicitly allows duplicates".to_owned(),
                None,
            );
            let ghost s = definition_issues_view(issues@);
            let mut m: usize = 0;
            assert(s =~= s + dependents_pass(*d, k as int, 0));
            while m < d.dependent_values.len()
                invariant
                    k < d.points@.len(),
                    m <= d.dependent_values@.len(),
                    definition_issues_view(issues@) == s + dependents_pass(*d, k as int, m as int),
                decreases d.dependent_values@.len() - m,
            {
                check_dependent_point(issues, d, k, m);
                assert(definition_issues_view(issues@) =~= s + dependents_pass(*d, k as int, m + 1));
                m = m + 1;
            }
        },
    }
    assert(definition_issues_view(issues@) =~= before + point_1d_checks(*d, k as int));
}

fn check_log_x(issues: &mut Vec<DefinitionValidationIssue>, d: &EngineeringCurveDefinition, k: usize)
    requires
        k < d.points@.len(),
    ensures
        definition_issues_view(final(issues)@) == definition_issues_view(old(issues)@)
            + log_x_check(*d, k as int),
{
    proof {
        reveal_strlit("");
    }
    let ghost before = definition_issues_view(issues@);
    if d.independent_axes.len() > 0 {
        let base = indexed_path("points", k, "");
        assert(base@ =~= point_path(k as int));
        match lookup(&d.points[k].axis_values, d.independent_axes[0].axis.as_str()) {
            Some(x) => push_when(
                issues,
                x.at_most_zero,
                "error",
                "log_interpolation_non_positive_x",
                concat(base.as_str(), ".axis_values").as_str(),
                "log-x interpolation requires strictly positive x values".to_owned(),
                None,
            ),
            None => {},
        }
    }
    assert(definition_issues_view(issues@) =~= before + log_x_check(*d, k as int));
}

#[verifier::rlimit(60)]
#[verifier::spinoff_prover]
fn check_type_unit(issues: &mut Vec<DefinitionValidationIssue>, d: &EngineeringCurveDefinition, m: usize)
    requires
        m < d.dependent_values@.len(),
    ensures
        definition_issues_view(final(issues)@) == definition_issues_view(old(issues)@)
            + type_unit_check(*d, d.dependent_values@[m as int]),
{
    proof {
        reveal(type_unit_check);
        reveal_strlit("dependent_values");
        reveal_strlit("interpolation");
    }
    let ghost before = definition_issues_view(issues@);
    let v = &d.dependent_values[m];
    let u = v.unit.unit.as_str();
    if v.component != FrequencyResponseComponent::Phase {
        match d.curve_type {
            EngineeringCurveType::AntennaFactor => push_when(
                issues,
                !(str_eq(u, "dB_per_meter") || str_eq(u, "dBuV_per_m")),
                "error",
                "antenna_factor_unit_mismatch",
                "dependent_values",
                "antenna factor curves must use dB_per_meter or dBuV_per_m".to_owned(),
                None,
            ),
            EngineeringCurveType::CableLoss | EngineeringCurveType::AmplifierGain
            | EngineeringCurveType::AttenuatorLoss => push_when(
                issues,
                !(str_eq(u, "dB") || str_eq(u, "dB_per_meter")),
                "error",
                "rf_gain_loss_unit_mismatch",
                "dependent_values",
                "RF gain/loss curves must use dB-like units".to_owned(),
                None,
            ),
            EngineeringCurveType::Uncertainty => push_when(
                issues,
                !(str_eq(u, "dB") || str_eq(u, "percent") || str_eq(u, "dimensionless")),
                "error",
                "uncertainty_unit_mismatch",
                "dependent_values",
                "uncertainty curves must use dB, percent or dimensionless units".to_owned(),
                None,
            ),
            _ => {},
        }
        push_when(
            issues,
            d.interpolation == CurveInterpolation::LinearXLogY && !v.unit_is_logarithmic,
            "warning",
            "linear_x_log_y_with_linear_unit",
            "interpolation",
            "linear_x_log_y is unusual for a non-logarithmic dependent unit".to_owned(),
            None,
        );
    }
    assert(definition_issues_view(issues@) =~= before + type_unit_check(
        *d,
        d.dependent_values@[m as int],
    ));
}

/// Checks an engineering curve definition (see `engineering_curve_issues`).
#[verifier::rlimit(60)]
#[verifier::spinoff_prover]
pub fn validate_engineering_curve_definition(definition: &EngineeringCurveDefinition) -> (r: Vec<
    DefinitionValidationIssue,
>)
    ensures
        definition_issues_view(r@) == engineering_curve_issues(*definition),
{
    let d = definition;
    let mut issues: Vec<DefinitionValidationIssue> = Vec::new();
    assert(definition_issues_view(issues@) =~= Seq::<DefinitionIssueView>::empty());
    check_curve_head(&mut issues, d);
    let ghost s1 = definition_issues_view(issues@);
    let mut k: usize = 0;
    assert(s1 =~= s1 + axes_pass(d.independent_axes@, 0));
    while k < d.independent_axes.len()
        invariant
            k <= d.independent_axes@.len(),
            definition_issues_view(issues@) == s1 + axes_pass(d.independent_axes@, k as int),
        decreases d.independent_axes@.len() - k,
    {
        check_axis(&mut issues, &d.independent_axes, k);
        assert(definition_issues_view(issues@) =~= s1 + axes_pass(d.independent_axes@, k + 1));
        k = k + 1;
    }
    let ghost s2 = definition_issues_view(issues@);
    let mut k: usize = 0;
    assert(s2 =~= s2 + values_pass(d.dependent_values@, 0));
    while k < d.dependent_values.len()
        invariant
            k <= d.dependent_values@.len(),
            definition_issues_view(issues@) == s2 + values_pass(d.dependent_values@, k as int),
        decreases d.dependent_values@.len() - k,
    {
        check_value(&mut issues, &d.dependent_values, k);
        assert(definition_issues_view(issues@) =~= s2 + values_pass(d.dependent_values@, k + 1));
        k = k + 1;
    }
    check_presence(&mut issues, d);
    let ghost s3 = definition_issues_view(issues@);
    if d.independent_axes.len() == 1 {
        let mut k: usize = 0;
        assert(s3 =~= s3 + points_1d_pass(*d, 0));
        while k < d.points.len()
            invariant
                d.independent_axes@.len() == 1,
                k <= d.points@.len(),
                definition_issues_view(issues@) == s3 + points_1d_pass(*d, k as int),
            decreases d.points@.len() - k,
        {
            check_point_1d(&mut issues, d, k);
            assert(definition_issues_view(issues@) =~= s3 + points_1d_pass(*d, k + 1));
            k = k + 1;
        }
    }
    let ghost s4 = definition_issues_view(issues@);
    assert(s4 =~= s3 + (if d.independent_axes@.len() == 1 {
        points_1d_pass(*d, d.points@.len() as int)
    } else {
        seq![]
    }));
    if d.interpolation == CurveInterpolation::LogXLinearY {
        let mut k: usize = 0;
        assert(s4 =~= s4 + log_x_pass(*d, 0));
        while k < d.points.len()
            invariant
                k <= d.points@.len(),
                definition_issues_view(issues@) == s4 + log_x_pass(*d, k as int),
            decreases d.points@.len() - k,
        {
            check_log_x(&mut issues, d, k);
            assert(definition_issues_view(issues@) =~= s4 + log_x_pass(*d, k + 1));
            k = k + 1;
        }
    }
    let ghost s5 = definition_issues_view(issues@);
    assert(s5 =~= s4 + (if d.interpolation == CurveInterpolation::LogXLinearY {
        log_x_pass(*d, d.points@.len() as int)
    } else {
        seq![]
    }));
    let mut m: usize = 0;
    assert(s5 =~= s5 + type_units_pass(*d, 0));
    while m < d.dependent_values.len()
        invariant
            m <= d.dependent_values@.len(),
            definition_issues_view(issues@) == s5 + type_units_pass(*d, m as int),
        decreases d.dependent_values@.len() - m,
    {
        check_type_unit(&mut issues, d, m);
        assert(definition_issues_view(issues@) =~= s5 + type_units_pass(*d, m + 1));
        m = m + 1;
    }
    let ghost s6 = definition_issues_view(issues@);
    proof {
        reveal_strlit("source_checksum");
    }
    match &d.source_checksum {
        Some(c) => push_when(
            &mut issues,
            !is_sha256_checksum(c.as_str()),
            "error",
            "invalid_source_checksum",
            "source_checksum",
            "source checksum must use sha256:<64 lowercase hex characters>".to_owned(),
            None,
        ),
        None => {},
    }
    assert(definition_issues_view(issues@) =~= s6 + source_checksum_issues(*d));
    assert(definition_issues_view(issues@) =~= engineering_curve_issues(*definition));
    issues
}

} // verus!
