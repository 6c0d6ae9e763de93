//! The checks of the measurement engineering definitions: sensors and DAQ channel
//! profiles. A unit is checked against the quantity the equipment unit registry gives
//! it, which a definition carries with the unit; a floating-point value is carried by
//! the outcome of the comparison that the checks make on it.

use crate::measurement_engineering::{
    blank_text_issues, definition_id_issues, definition_issues_view, element_path, issue, references_issues,
    reference_issues, require_id, require_schema, require_text, schema_issues, validate_ref,
    validate_refs, CouplingMode, ACQUISITION_CHANNEL_RECIPE_DEFINITION_SCHEMA_VERSION,
    expression_issues, validate_expression, ExtrapolationPolicy, ScalingInterpolation, ScalingKind,
    SignalRepresentation, SCALING_PROFILE_DEFINITION_SCHEMA_VERSION,
    DaqChannelKind, DaqInputMode, DefinitionIssueView, DefinitionReference,
    DefinitionValidationIssue, ExcitationKind, SensorFamily,
    DAQ_CHANNEL_PROFILE_DEFINITION_SCHEMA_VERSION, SENSOR_DEFINITION_SCHEMA_VERSION,
};
use crate::engineering_curves::EngineeringCurveDefinition;
use crate::method_workflow::SignalDomain;
use crate::text::{concat, indexed_path, str_eq, trim, trim_seq};
use vstd::prelude::*;

verus! {

/// A physical quantity of the equipment unit registry.
#[derive(Clone, Copy, Debug, PartialEq, Eq, Structural)]
pub enum PhysicalQuantity {
    Acceleration,
    Angle,
    Charge,
    Current,
    Dimensionless,
    ElectricCharge,
    ElectricField,
    Frequency,
    Power,
    Pressure,
    SoundPressure,
    Temperature,
    Time,
    Voltage,
}

/// The name of a quantity, as the findings print it.
pub open spec fn quantity_name(q: PhysicalQuantity) -> Seq<char> {
    match q {
        PhysicalQuantity::Acceleration => "Acceleration"@,
        PhysicalQuantity::Angle => "Angle"@,
        PhysicalQuantity::Charge => "Charge"@,
        PhysicalQuantity::Current => "Current"@,
        PhysicalQuantity::Dimensionless => "Dimensionless"@,
        PhysicalQuantity::ElectricCharge => "ElectricCharge"@,
        PhysicalQuantity::ElectricField => "ElectricField"@,
        PhysicalQuantity::Frequency => "Frequency"@,
        PhysicalQuantity::Power => "Power"@,
        PhysicalQuantity::Pressure => "Pressure"@,
        PhysicalQuantity::SoundPressure => "SoundPressure"@,
        PhysicalQuantity::Temperature => "Temperature"@,
        PhysicalQuantity::Time => "Time"@,
        PhysicalQuantity::Voltage => "Voltage"@,
    }
}

impl PhysicalQuantity {
    /// The name of the quantity (see `quantity_name`).
    pub fn name(self) -> (r: &'static str)
        ensures
            r@ == quantity_name(self),
    {
        match self {
            PhysicalQuantity::Acceleration => "Acceleration",
            PhysicalQuantity::Angle => "Angle",
            PhysicalQuantity::Charge => "Charge",
            PhysicalQuantity::Current => "Current",
            PhysicalQuantity::Dimensionless => "Dimensionless",
            PhysicalQuantity::ElectricCharge => "ElectricCharge",
            PhysicalQuantity::ElectricField => "ElectricField",
            PhysicalQuantity::Frequency => "Frequency",
            PhysicalQuantity::Power => "Power",
            PhysicalQuantity::Pressure => "Pressure",
            PhysicalQuantity::SoundPressure => "SoundPressure",
            PhysicalQuantity::Temperature => "Temperature",
            PhysicalQuantity::Time => "Time",
            PhysicalQuantity::Voltage => "Voltage",
        }
    }
}

/// A unit as written, with the quantity the unit registry gives to it once trimmed
/// (none for a unit the registry does not know).
#[derive(Clone, Debug, PartialEq, Eq)]
pub struct RegisteredUnit {
    pub unit: String,
    pub registry_quantity: Option<PhysicalQuantity>,
}

/// A finding of the given severity.
pub open spec fn finding(
    severity: &str,
    code: &str,
    path: Seq<char>,
    message: Seq<char>,
    suggestion: Option<Seq<char>>,
) -> DefinitionIssueView {
    DefinitionIssueView { severity: severity@, code: code@, path, message, suggestion }
}

pub open spec fn flagged(cond: bool, item: DefinitionIssueView) -> Seq<DefinitionIssueView> {
    if cond {
        seq![item]
    } else {
        seq![]
    }
}

/// The transfer units that the registry files as dimensionless and that a quantity of
/// any kind accepts.
pub open spec fn transfer_unit(t: Seq<char>) -> bool {
    t == "mV_per_g"@ || t == "V_per_g"@ || t == "pC_per_N"@ || t == "V_per_A"@ || t == "mV_per_A"@
        || t == "A_per_V"@ || t == "V_per_V"@ || t == "dB_ohm"@ || t == "dB_per_meter"@ || t
        == "dB_per_microampere"@
}

/// Whether a unit of registry quantity `family` (trimmed text `t`) serves the quantity
/// `q`: the same quantity, pascal for sound pressure, coulomb or picocoulomb for a
/// charge, or a transfer unit.
pub open spec fn unit_serves(q: PhysicalQuantity, family: PhysicalQuantity, t: Seq<char>) -> bool {
    ||| family == q
    ||| (family == PhysicalQuantity::Pressure && q == PhysicalQuantity::SoundPressure && t == "Pa"@)
    ||| (family == PhysicalQuantity::ElectricCharge && q == PhysicalQuantity::Charge && (t == "C"@
        || t == "pC"@))
    ||| (family == PhysicalQuantity::Dimensionless && transfer_unit(t))
}

/// The finding on a unit for the quantity `q`: missing, of another quantity, or unknown.
pub open spec fn quantity_unit_issues(q: PhysicalQuantity, u: RegisteredUnit, path: Seq<char>) -> Seq<
    DefinitionIssueView,
> {
    let t = trim_seq(u.unit@);
    if t.len() == 0 {
        seq![
            finding(
                "error",
                "missing_unit",
                path,
                "unit is required"@,
                Some("Use an explicit unit from the measurement engineering unit registry."@),
            ),
        ]
    } else {
        match u.registry_quantity {
            Some(family) => flagged(
                !unit_serves(q, family, t),
                finding(
                    "error",
                    "quantity_unit_mismatch",
                    path,
                    "unit "@ + t + " belongs to "@ + quantity_name(family) + ", not "@
                        + quantity_name(q),
                    Some(
                        "Choose a unit from the same physical quantity family or a declared transfer unit."@,
                    ),
                ),
            ),
            None => seq![
                finding(
                    "error",
                    "unknown_unit",
                    path,
                    "unit is not in the registry: "@ + t,
                    Some(
                        "Add the unit deliberately to the equipment measurement registry before using it."@,
                    ),
                ),
            ],
        }
    }
}

pub(crate) fn push_when(
    issues: &mut Vec<DefinitionValidationIssue>,
    cond: bool,
    severity: &str,
    code: &str,
    path: &str,
    message: String,
    suggestion: Option<&str>,
)
    ensures
        definition_issues_view(final(issues)@) == definition_issues_view(old(issues)@) + flagged(
            cond,
            finding(
                severity,
                code,
                path@,
                message@,
                match suggestion {
                    Some(t) => Some(t@),
                    None => None,
                },
            ),
        ),
{
    let ghost before = definition_issues_view(issues@);
    if cond {
        issues.push(issue(severity, code, path, message, suggestion));
    }
    assert(definition_issues_view(issues@) =~= before + flagged(
        cond,
        finding(
            severity,
            code,
            path@,
            message@,
            match suggestion {
                Some(t) => Some(t@),
                None => None,
            },
        ),
    ));
}

fn is_transfer_unit(t: &str) -> (b: bool)
    ensures
        b == transfer_unit(t@),
{
    str_eq(t, "mV_per_g") || str_eq(t, "V_per_g") || str_eq(t, "pC_per_N") || str_eq(t, "V_per_A")
        || str_eq(t, "mV_per_A") || str_eq(t, "A_per_V") || str_eq(t, "V_per_V") || str_eq(
        t,
        "dB_ohm",
    ) || str_eq(t, "dB_per_meter") || str_eq(t, "dB_per_microampere")
}

fn join4(a: &str, b: &str, c: &str, d: &str) -> (r: String)
    ensures
        r@ == a@ + b@ + c@ + d@,
{
    concat(concat(concat(a, b).as_str(), c).as_str(), d)
}

/// Checks a unit against the quantity `q` (see `quantity_unit_issues`).
pub fn validate_quantity_unit(
    issues: &mut Vec<DefinitionValidationIssue>,
    q: PhysicalQuantity,
    u: &RegisteredUnit,
    path: &str,
)
    ensures
        definition_issues_view(final(issues)@) == definition_issues_view(old(issues)@)
            + quantity_unit_issues(q, *u, path@),
{
    let ghost before = definition_issues_view(issues@);
    let t = trim(u.unit.as_str());
    let ts = t.as_str();
    if ts.is_empty() {
        issues.push(
            issue(
                "error",
                "missing_unit",
                path,
                "unit is required".to_owned(),
                Some("Use an explicit unit from the measurement engineering unit registry."),
            ),
        );
    } else {
        match u.registry_quantity {
            Some(family) => {
                let serves = family == q || (family == PhysicalQuantity::Pressure && q
                    == PhysicalQuantity::SoundPressure && str_eq(ts, "Pa")) || (family
                    == PhysicalQuantity::ElectricCharge && q == PhysicalQuantity::Charge && (str_eq(
                    ts,
                    "C",
                ) || str_eq(ts, "pC"))) || (family == PhysicalQuantity::Dimensionless
                    && is_transfer_unit(ts));
                let message = concat(
                    concat(join4("unit ", ts, " belongs to ", family.name()).as_str(), ", not ").as_str(),
                    q.name(),
                );
                push_when(
                    issues,
                    !serves,
                    "error",
                    "quantity_unit_mismatch",
                    path,
                    message,
                    Some(
                        "Choose a unit from the same physical quantity family or a declared transfer unit.",
                    ),
                );
            },
            None => {
                issues.push(
                    issue(
                        "error",
                        "unknown_unit",
                        path,
                        concat("unit is not in the registry: ", ts),
                        Some(
                            "Add the unit deliberately to the equipment measurement registry before using it.",
                        ),
                    ),
                );
            },
        }
    }
    assert(definition_issues_view(issues@) =~= before + quantity_unit_issues(q, *u, path@));
}

/// A numeric range with its unit; `bounds_invalid` holds where both bounds are given and
/// one is not finite or the maximum is not above the minimum.
#[derive(Clone, Debug, PartialEq, Eq)]
pub struct NumericRange {
    pub unit: RegisteredUnit,
    pub bounds_invalid: bool,
}

/// The findings on an optional range for the quantity `q`: its unit, then its bounds.
pub open spec fn numeric_range_issues(
    r: Option<NumericRange>,
    q: PhysicalQuantity,
    path: Seq<char>,
) -> Seq<DefinitionIssueView> {
    match r {
        None => seq![],
        Some(r) => quantity_unit_issues(q, r.unit, path + ".unit"@) + flagged(
            r.bounds_invalid,
            finding(
                "error",
                "invalid_numeric_range",
                path,
                "range values must be finite with maximum above minimum"@,
                None,
            ),
        ),
    }
}

fn validate_numeric_range(
    issues: &mut Vec<DefinitionValidationIssue>,
    r: &Option<NumericRange>,
    q: PhysicalQuantity,
    path: &str,
)
    ensures
        definition_issues_view(final(issues)@) == definition_issues_view(old(issues)@)
            + numeric_range_issues(*r, q, path@),
{
    let ghost before = definition_issues_view(issues@);
    match r {
        None => {},
        Some(r) => {
            validate_quantity_unit(issues, q, &r.unit, concat(path, ".unit").as_str());
            push_when(
                issues,
                r.bounds_invalid,
                "error",
                "invalid_numeric_range",
                path,
                "range values must be finite with maximum above minimum".to_owned(),
                None,
            );
        },
    }
    assert(definition_issues_view(issues@) =~= before + numeric_range_issues(*r, q, path@));
}

/// A range a DAQ channel supports; `bounds_invalid` holds where a bound is not finite or
/// the maximum is not above the minimum, and `unit_known` where the registry knows the
/// unit as written.
#[derive(Clone, Debug, PartialEq, Eq)]
pub struct SupportedRange {
    pub unit: RegisteredUnit,
    pub unit_known: bool,
    pub bounds_invalid: bool,
}

pub open spec fn supported_range_issues(r: SupportedRange, path: Seq<char>) -> Seq<DefinitionIssueView> {
    flagged(
        r.bounds_invalid,
        finding(
            "error",
            "invalid_supported_range",
            path,
            "range minimum/maximum must be finite with maximum above minimum"@,
            None,
        ),
    ) + flagged(
        !r.unit_known,
        finding(
            "error",
            "unknown_unit",
            path + ".unit"@,
            "unit is not in the registry: "@ + r.unit.unit@,
            None,
        ),
    )
}

fn validate_supported_range(issues: &mut Vec<DefinitionValidationIssue>, r: &SupportedRange, path: &str)
    ensures
        definition_issues_view(final(issues)@) == definition_issues_view(old(issues)@)
            + supported_range_issues(*r, path@),
{
    let ghost before = definition_issues_view(issues@);
    push_when(
        issues,
        r.bounds_invalid,
        "error",
        "invalid_supported_range",
        path,
        "range minimum/maximum must be finite with maximum above minimum".to_owned(),
        None,
    );
    push_when(
        issues,
        !r.unit_known,
        "error",
        "unknown_unit",
        concat(path, ".unit").as_str(),
        concat("unit is not in the registry: ", r.unit.unit.as_str()),
        None,
    );
    assert(definition_issues_view(issues@) =~= before + supported_range_issues(*r, path@));
}

/// An excitation a sensor needs or a DAQ channel supplies; `nominal_value_invalid` holds
/// where a nominal value is given and is not finite or is negative.
#[derive(Clone, Debug, PartialEq, Eq)]
pub struct ExcitationRequirement {
    pub excitation_kind: ExcitationKind,
    pub has_nominal_value: bool,
    pub nominal_value_invalid: bool,
    pub unit: Option<RegisteredUnit>,
    pub external_allowed: bool,
}

/// The quantity the unit of an excitation of this kind must have, if any.
pub open spec fn excitation_quantity(kind: ExcitationKind) -> Option<PhysicalQuantity> {
    match kind {
        ExcitationKind::Voltage => Some(PhysicalQuantity::Voltage),
        ExcitationKind::Bridge => Some(PhysicalQuantity::Voltage),
        ExcitationKind::Current => Some(PhysicalQuantity::Current),
        ExcitationKind::Iepe => Some(PhysicalQuantity::Current),
        ExcitationKind::Charge => Some(PhysicalQuantity::ElectricCharge),
        _ => None,
    }
}

/// The findings on an excitation: a value or unit on no excitation (a warning), an
/// invalid nominal value, and the unit against the kind's quantity.
pub open spec fn excitation_issues(e: ExcitationRequirement, path: Seq<char>) -> Seq<
    DefinitionIssueView,
> {
    flagged(
        e.excitation_kind == ExcitationKind::NoExcitation && (e.has_nominal_value || e.unit is Some),
        finding(
            "warning",
            "none_excitation_has_value",
            path,
            "excitation_kind=none should not carry a nominal value or unit"@,
            None,
        ),
    ) + flagged(
        e.nominal_value_invalid,
        finding(
            "error",
            "invalid_excitation_value",
            path + ".nominal_value"@,
            "excitation nominal value must be finite and non-negative"@,
            None,
        ),
    ) + match e.unit {
        Some(u) => match excitation_quantity(e.excitation_kind) {
            Some(q) => quantity_unit_issues(q, u, path + ".unit"@),
            None => seq![],
        },
        None => seq![],
    }
}

fn validate_excitation(
    issues: &mut Vec<DefinitionValidationIssue>,
    e: &ExcitationRequirement,
    path: &str,
)
    ensures
        definition_issues_view(final(issues)@) == definition_issues_view(old(issues)@)
            + excitation_issues(*e, path@),
{
    let ghost before = definition_issues_view(issues@);
    push_when(
        issues,
        e.excitation_kind == ExcitationKind::NoExcitation && (e.has_nominal_value
            || e.unit.is_some()),
        "warning",
        "none_excitation_has_value",
        path,
        "excitation_kind=none should not carry a nominal value or unit".to_owned(),
        None,
    );
    push_when(
        issues,
        e.nominal_value_invalid,
        "error",
        "invalid_excitation_value",
        concat(path, ".nominal_value").as_str(),
        "excitation nominal value must be finite and non-negative".to_owned(),
        None,
    );
    let ghost mid = definition_issues_view(issues@);
    match &e.unit {
        Some(u) => {
            let q = match e.excitation_kind {
                ExcitationKind::Voltage => Some(PhysicalQuantity::Voltage),
                ExcitationKind::Bridge => Some(PhysicalQuantity::Voltage),
                ExcitationKind::Current => Some(PhysicalQuantity::Current),
                ExcitationKind::Iepe => Some(PhysicalQuantity::Current),
                ExcitationKind::Charge => Some(PhysicalQuantity::ElectricCharge),
                _ => None,
            };
            match q {
                Some(q) => validate_quantity_unit(issues, q, u, concat(path, ".unit").as_str()),
                None => {},
            }
        },
        None => {},
    }
    assert(definition_issues_view(issues@) =~= before + excitation_issues(*e, path@));
}

// ---------------------------------------------------------------------------
// Sensors
// ---------------------------------------------------------------------------

/// A sensor definition, with what its checks read: each unit with its registry
/// quantity, each range with the outcome of its bound comparisons, whether the declared
/// frequency range is invalid (a bound not finite, a negative minimum, or a maximum not
/// above the minimum), whether the settling time is invalid (not finite or negative), and
/// whether the technology tags include the IEPE tag.
#[derive(Clone, Debug, PartialEq)]
pub struct SensorDefinition {
    pub definition_schema_version: String,
    pub sensor_definition_id: String,
    pub manufacturer: String,
    pub model_name: String,
    pub variant: Option<String>,
    pub sensor_family: SensorFamily,
    pub physical_input_quantity: PhysicalQuantity,
    pub engineering_output_quantity: PhysicalQuantity,
    pub engineering_output_unit: RegisteredUnit,
    pub electrical_output_quantity: PhysicalQuantity,
    pub electrical_output_unit: RegisteredUnit,
    pub signal_domain: SignalDomain,
    pub iepe_tag_declared: bool,
    pub required_excitation: Option<ExcitationRequirement>,
    pub input_mode_requirement: Option<DaqInputMode>,
    pub nominal_range: Option<NumericRange>,
    pub safe_range: Option<NumericRange>,
    pub orientation_axes: Vec<String>,
    pub settling_time_invalid: bool,
    pub frequency_range_invalid: bool,
    pub temperature_range: Option<NumericRange>,
    pub scaling_profile_refs: Vec<DefinitionReference>,
    pub correction_curve_refs: Vec<DefinitionReference>,
}

/// The checks of a sensor's identity, units and ranges.
#[verifier::opaque]
pub open spec fn sensor_head_issues(d: SensorDefinition) -> Seq<DefinitionIssueView> {
    schema_issues(
        d.definition_schema_version@,
        SENSOR_DEFINITION_SCHEMA_VERSION@,
        "definition_schema_version"@,
    ) + definition_id_issues(d.sensor_definition_id@, "sensor_definition_id"@)
        + blank_text_issues(d.manufacturer@, "manufacturer"@) + blank_text_issues(
        d.model_name@,
        "model_name"@,
    ) + quantity_unit_issues(
        d.engineering_output_quantity,
        d.engineering_output_unit,
        "engineering_output_unit"@,
    ) + quantity_unit_issues(
        d.electrical_output_quantity,
        d.electrical_output_unit,
        "electrical_output_unit"@,
    ) + numeric_range_issues(d.nominal_range, d.physical_input_quantity, "nominal_range"@)
        + numeric_range_issues(d.safe_range, d.physical_input_quantity, "safe_range"@)
        + numeric_range_issues(
        d.temperature_range,
        PhysicalQuantity::Temperature,
        "temperature_range"@,
    )
}

/// What quantity each sensor family must measure, where the family fixes one.
pub open spec fn family_issues(family: SensorFamily, q: PhysicalQuantity) -> Seq<DefinitionIssueView> {
    match family {
        SensorFamily::CurrentProbe => flagged(
            q != PhysicalQuantity::Current,
            finding(
                "error",
                "current_probe_quantity_mismatch",
                "physical_input_quantity"@,
                "current_probe sensors must measure current"@,
                Some("Set physical_input_quantity to current."@),
            ),
        ),
        SensorFamily::Accelerometer => flagged(
            q != PhysicalQuantity::Acceleration,
            finding(
                "error",
                "accelerometer_quantity_mismatch",
                "physical_input_quantity"@,
                "accelerometers must measure acceleration"@,
                Some("Set physical_input_quantity to acceleration."@),
            ),
        ),
        SensorFamily::Microphone => flagged(
            q != PhysicalQuantity::SoundPressure,
            finding(
                "error",
                "microphone_quantity_mismatch",
                "physical_input_quantity"@,
                "microphones must measure sound_pressure"@,
                Some("Set physical_input_quantity to sound_pressure."@),
            ),
        ),
        SensorFamily::ReceivingAntenna => flagged(
            q != PhysicalQuantity::ElectricField,
            finding(
                "error",
                "receiving_antenna_quantity_mismatch",
                "physical_input_quantity"@,
                "receiving antennas must measure electric_field"@,
                Some("Set physical_input_quantity to electric_field."@),
            ),
        ),
        _ => seq![],
    }
}

pub open spec fn needs_iepe(d: SensorDefinition) -> bool {
    match d.required_excitation {
        Some(e) => e.excitation_kind == ExcitationKind::Iepe,
        None => false,
    }
}

/// The checks of a sensor after its ranges: frequency range, settling time, references.
#[verifier::opaque]
pub open spec fn sensor_middle_issues(d: SensorDefinition) -> Seq<DefinitionIssueView> {
    flagged(
        d.frequency_range_invalid,
        finding(
            "error",
            "invalid_frequency_range",
            "frequency_range"@,
            "frequency_range must use finite positive values with maximum above minimum"@,
            Some("Use values in Hz, for example 10.0 to 100000000.0."@),
        ),
    ) + flagged(
        d.settling_time_invalid,
        finding(
            "error",
            "invalid_settling_time",
            "settling_time_ms"@,
            "settling_time_ms must be a finite non-negative number"@,
            None,
        ),
    ) + references_issues(d.scaling_profile_refs@, "scaling_profile_refs"@, d.scaling_profile_refs@.len())
        + references_issues(
        d.correction_curve_refs@,
        "correction_curve_refs"@,
        d.correction_curve_refs@.len(),
    )
}

/// The last checks of a sensor: family against quantity, the IEPE tag of an IEPE
/// accelerometer, and the excitation.
#[verifier::opaque]
pub open spec fn sensor_tail_issues(d: SensorDefinition) -> Seq<DefinitionIssueView> {
    family_issues(d.sensor_family, d.physical_input_quantity) + flagged(
        d.sensor_family == SensorFamily::Accelerometer && needs_iepe(d) && !d.iepe_tag_declared,
        finding(
            "warning",
            "iepe_tag_missing",
            "technology_tags"@,
            "IEPE accelerometers should declare the iepe technology tag"@,
            Some("Add technology_tags: [\"iepe\"] when the sensor requires IEPE excitation."@),
        ),
    ) + match d.required_excitation {
        Some(e) => excitation_issues(e, "required_excitation"@),
        None => seq![],
    }
}

/// Every finding on a sensor definition, in the order they are reported.
pub open spec fn sensor_definition_issues(d: SensorDefinition) -> Seq<DefinitionIssueView> {
    sensor_head_issues(d) + sensor_middle_issues(d) + sensor_tail_issues(d)
}

#[verifier::rlimit(60)]
#[verifier::spinoff_prover]
fn check_sensor_head(issues: &mut Vec<DefinitionValidationIssue>, d: &SensorDefinition)
    ensures
        definition_issues_view(final(issues)@) == definition_issues_view(old(issues)@)
            + sensor_head_issues(*d),
{
    proof {
        reveal(sensor_head_issues);
        reveal_strlit("definition_schema_version");
        reveal_strlit("sensor_definition_id");
        reveal_strlit("manufacturer");
        reveal_strlit("model_name");
        reveal_strlit("engineering_output_unit");
        reveal_strlit("electrical_output_unit");
        reveal_strlit("nominal_range");
        reveal_strlit("safe_range");
        reveal_strlit("temperature_range");
    }
    let ghost before = definition_issues_view(issues@);
    require_schema(
        issues,
        d.definition_schema_version.as_str(),
        SENSOR_DEFINITION_SCHEMA_VERSION,
        "definition_schema_version",
    );
    require_id(issues, d.sensor_definition_id.as_str(), "sensor_definition_id");
    require_text(issues, d.manufacturer.as_str(), "manufacturer");
    require_text(issues, d.model_name.as_str(), "model_name");
    validate_quantity_unit(
        issues,
        d.engineering_output_quantity,
        &d.engineering_output_unit,
        "engineering_output_unit",
    );
    validate_quantity_unit(
        issues,
        d.electrical_output_quantity,
        &d.electrical_output_unit,
        "electrical_output_unit",
    );
    validate_numeric_range(issues, &d.nominal_range, d.physical_input_quantity, "nominal_range");
    validate_numeric_range(issues, &d.safe_range, d.physical_input_quantity, "safe_range");
    validate_numeric_range(
        issues,
        &d.temperature_range,
        PhysicalQuantity::Temperature,
        "temperature_range",
    );
    assert(definition_issues_view(issues@) =~= before + sensor_head_issues(*d));
}

fn check_family(issues: &mut Vec<DefinitionValidationIssue>, family: SensorFamily, q: PhysicalQuantity)
    ensures
        definition_issues_view(final(issues)@) == definition_issues_view(old(issues)@)
            + family_issues(family, q),
{
    proof {
        reveal_strlit("physical_input_quantity");
    }
    let ghost before = definition_issues_view(issues@);
    match family {
        SensorFamily::CurrentProbe => push_when(
            issues,
            q != PhysicalQuantity::Current,
            "error",
            "current_probe_quantity_mismatch",
            "physical_input_quantity",
            "current_probe sensors must measure current".to_owned(),
            Some("Set physical_input_quantity to current."),
        ),
        SensorFamily::Accelerometer => push_when(
            issues,
            q != PhysicalQuantity::Acceleration,
            "error",
            "accelerometer_quantity_mismatch",
            "physical_input_quantity",
            "accelerometers must measure acceleration".to_owned(),
            Some("Set physical_input_quantity to acceleration."),
        ),
        SensorFamily::Microphone => push_when(
            issues,
            q != PhysicalQuantity::SoundPressure,
            "error",
            "microphone_quantity_mismatch",
            "physical_input_quantity",
            "microphones must measure sound_pressure".to_owned(),
            Some("Set physical_input_quantity to sound_pressure."),
        ),
        SensorFamily::ReceivingAntenna => push_when(
            issues,
            q != PhysicalQuantity::ElectricField,
            "error",
            "receiving_antenna_quantity_mismatch",
            "physical_input_quantity",
            "receiving antennas must measure electric_field".to_owned(),
            Some("Set physical_input_quantity to electric_field."),
        ),
        _ => {},
    }
    assert(definition_issues_view(issues@) =~= before + family_issues(family, q));
}

#[verifier::rlimit(60)]
#[verifier::spinoff_prover]
fn check_sensor_middle(issues: &mut Vec<DefinitionValidationIssue>, d: &SensorDefinition)
    ensures
        definition_issues_view(final(issues)@) == definition_issues_view(old(issues)@)
            + sensor_middle_issues(*d),
{
    proof {
        reveal(sensor_middle_issues);
        reveal_strlit("frequency_range");
        reveal_strlit("settling_time_ms");
        reveal_strlit("scaling_profile_refs");
        reveal_strlit("correction_curve_refs");
    }
    let ghost before = definition_issues_view(issues@);
    push_when(
        issues,
        d.frequency_range_invalid,
        "error",
        "invalid_frequency_range",
        "frequency_range",
        "frequency_range must use finite positive values with maximum above minimum".to_owned(),
        Some("Use values in Hz, for example 10.0 to 100000000.0."),
    );
    push_when(
        issues,
        d.settling_time_invalid,
        "error",
        "invalid_settling_time",
        "settling_time_ms",
        "settling_time_ms must be a finite non-negative number".to_owned(),
        None,
    );
    validate_refs(issues, d.scaling_profile_refs.as_slice(), "scaling_profile_refs");
    validate_refs(issues, d.correction_curve_refs.as_slice(), "correction_curve_refs");
    assert(definition_issues_view(issues@) =~= before + sensor_middle_issues(*d));
}

#[verifier::rlimit(60)]
#[verifier::spinoff_prover]
fn check_sensor_tail(issues: &mut Vec<DefinitionValidationIssue>, d: &SensorDefinition)
    ensures
        definition_issues_view(final(issues)@) == definition_issues_view(old(issues)@)
            + sensor_tail_issues(*d),
{
    proof {
        reveal(sensor_tail_issues);
        reveal_strlit("technology_tags");
        reveal_strlit("required_excitation");
    }
    let ghost before = definition_issues_view(issues@);
    check_family(issues, d.sensor_family, d.physical_input_quantity);
    let iepe = match &d.required_excitation {
        Some(e) => e.excitation_kind == ExcitationKind::Iepe,
        None => false,
    };
    push_when(
        issues,
        d.sensor_family == SensorFamily::Accelerometer && iepe && !d.iepe_tag_declared,
        "warning",
        "iepe_tag_missing",
        "technology_tags",
        "IEPE accelerometers should declare the iepe technology tag".to_owned(),
        Some("Add technology_tags: [\"iepe\"] when the sensor requires IEPE excitation."),
    );
    let ghost mid = definition_issues_view(issues@);
    match &d.required_excitation {
        Some(e) => validate_excitation(issues, e, "required_excitation"),
        None => {},
    }
    assert(definition_issues_view(issues@) =~= before + sensor_tail_issues(*d));
}

/// Checks a sensor definition (see `sensor_definition_issues`).
pub fn validate_sensor_definition(definition: &SensorDefinition) -> (r: Vec<DefinitionValidationIssue>)
    ensures
        definition_issues_view(r@) == sensor_definition_issues(*definition),
{
    let mut issues: Vec<DefinitionValidationIssue> = Vec::new();
    assert(definition_issues_view(issues@) =~= Seq::<DefinitionIssueView>::empty());
    check_sensor_head(&mut issues, definition);
    check_sensor_middle(&mut issues, definition);
    check_sensor_tail(&mut issues, definition);
    assert(definition_issues_view(issues@) =~= sensor_definition_issues(*definition));
    issues
}

// ---------------------------------------------------------------------------
// DAQ channel profiles
// ---------------------------------------------------------------------------

/// A DAQ channel profile, with what its checks read of its sampling rates: whether the
/// maximum rate is given and is not finite or not positive, whether the minimum rate is
/// given and is not finite or negative, and whether both are given with the minimum
/// above the maximum.
#[derive(Clone, Debug, PartialEq)]
pub struct DaqChannelProfileDefinition {
    pub definition_schema_version: String,
    pub daq_channel_profile_id: String,
    pub label: String,
    pub channel_kind: DaqChannelKind,
    pub signal_domain: SignalDomain,
    pub input_quantity: Option<PhysicalQuantity>,
    pub input_unit: Option<RegisteredUnit>,
    pub supported_ranges: Vec<SupportedRange>,
    pub resolution_bits: Option<u32>,
    pub max_sampling_rate_invalid: bool,
    pub min_sampling_rate_invalid: bool,
    pub sampling_rates_inverted: bool,
    pub coupling_modes: Vec<CouplingMode>,
    pub input_modes: Vec<DaqInputMode>,
    pub anti_alias_filter: Option<String>,
    pub excitation_capabilities: Vec<ExcitationRequirement>,
    pub bridge_completion: Option<String>,
    pub iepe_support: bool,
    pub isolation: Option<String>,
    pub synchronization: Option<String>,
    pub triggering: Option<String>,
}

pub open spec fn is_analog_channel(kind: DaqChannelKind) -> bool {
    kind == DaqChannelKind::AnalogInput || kind == DaqChannelKind::AnalogOutput
}

/// An analog channel needs an input quantity and unit, and the unit must serve it.
pub open spec fn analog_issues(d: DaqChannelProfileDefinition) -> Seq<DefinitionIssueView> {
    if is_analog_channel(d.channel_kind) {
        match (d.input_quantity, d.input_unit) {
            (Some(q), Some(u)) => quantity_unit_issues(q, u, "input_unit"@),
            _ => seq![
                finding(
                    "error",
                    "analog_channel_missing_quantity_unit",
                    "input_quantity"@,
                    "analog channels require input_quantity and input_unit"@,
                    None,
                ),
            ],
        }
    } else {
        seq![]
    }
}

/// The checks of the supported range at `k`: its own, then its unit against the
/// channel's input quantity, if any.
pub open spec fn supported_range_checks(d: DaqChannelProfileDefinition, k: int) -> Seq<
    DefinitionIssueView,
> {
    let r = d.supported_ranges@[k];
    let path = element_path("supported_ranges"@, k as nat);
    supported_range_issues(r, path) + match d.input_quantity {
        Some(q) => quantity_unit_issues(q, r.unit, path + ".unit"@),
        None => seq![],
    }
}

pub open spec fn supported_ranges_pass(d: DaqChannelProfileDefinition, n: int) -> Seq<
    DefinitionIssueView,
>
    decreases n,
{
    if n <= 0 {
        seq![]
    } else {
        supported_ranges_pass(d, n - 1) + supported_range_checks(d, n - 1)
    }
}

pub open spec fn excitations_pass(es: Seq<ExcitationRequirement>, n: int) -> Seq<DefinitionIssueView>
    decreases n,
{
    if n <= 0 {
        seq![]
    } else {
        excitations_pass(es, n - 1) + excitation_issues(
            es[n - 1],
            element_path("excitation_capabilities"@, (n - 1) as nat),
        )
    }
}

pub open spec fn lists_input_mode(modes: Seq<DaqInputMode>, m: DaqInputMode) -> bool {
    exists|k: int| 0 <= k < modes.len() && modes[k] == m
}

/// The checks of a DAQ channel's identity, analog quantity and supported ranges.
#[verifier::opaque]
pub open spec fn daq_head_issues(d: DaqChannelProfileDefinition) -> Seq<DefinitionIssueView> {
    schema_issues(
        d.definition_schema_version@,
        DAQ_CHANNEL_PROFILE_DEFINITION_SCHEMA_VERSION@,
        "definition_schema_version"@,
    ) + definition_id_issues(d.daq_channel_profile_id@, "daq_channel_profile_id"@)
        + blank_text_issues(d.label@, "label"@) + analog_issues(d) + supported_ranges_pass(
        d,
        d.supported_ranges@.len() as int,
    )
}

/// The checks of a DAQ channel's resolution, sampling rates and IEPE support.
#[verifier::opaque]
pub open spec fn daq_rate_and_domain_issues(d: DaqChannelProfileDefinition) -> Seq<
    DefinitionIssueView,
> {
    flagged(
        d.resolution_bits == Some(0u32),
        finding(
            "error",
            "invalid_resolution_bits",
            "resolution_bits"@,
            "resolution_bits must be positive"@,
            None,
        ),
    ) + flagged(
        d.max_sampling_rate_invalid,
        finding(
            "error",
            "invalid_max_sampling_rate",
            "max_sampling_rate"@,
            "max_sampling_rate must be positive"@,
            None,
        ),
    ) + flagged(
        d.min_sampling_rate_invalid,
        finding(
            "error",
            "invalid_min_sampling_rate",
            "min_sampling_rate"@,
            "min_sampling_rate must be non-negative"@,
            None,
        ),
    ) + flagged(
        d.sampling_rates_inverted,
        finding(
            "error",
            "sampling_rate_order_invalid",
            "min_sampling_rate"@,
            "min_sampling_rate must not exceed max_sampling_rate"@,
            None,
        ),
    ) + flagged(
        d.iepe_support && !lists_input_mode(d.input_modes@, DaqInputMode::Iepe),
        finding(
            "error",
            "iepe_support_without_input_mode",
            "iepe_support"@,
            "IEPE support requires input_modes to include iepe"@,
            None,
        ),
    )
}

/// The checks of a DAQ channel's kind against its signal domain.
#[verifier::opaque]
pub open spec fn daq_domain_issues(d: DaqChannelProfileDefinition) -> Seq<DefinitionIssueView> {
    flagged(
        d.channel_kind == DaqChannelKind::CanBusChannel && d.signal_domain != SignalDomain::CanBus,
        finding(
            "error",
            "can_channel_domain_mismatch",
            "signal_domain"@,
            "CAN bus channels must use signal_domain=can_bus"@,
            Some("Use a DAQ analog input profile for ADC voltage/current channels."@),
        ),
    ) + flagged(
        (d.channel_kind == DaqChannelKind::TriggerInput || d.channel_kind
            == DaqChannelKind::TriggerOutput) && d.signal_domain != SignalDomain::Trigger,
        finding(
            "error",
            "trigger_channel_domain_mismatch",
            "signal_domain"@,
            "trigger channels must use signal_domain=trigger"@,
            None,
        ),
    ) + flagged(
        (d.channel_kind == DaqChannelKind::DigitalInput || d.channel_kind
            == DaqChannelKind::DigitalOutput || d.channel_kind
            == DaqChannelKind::DigitalBidirectional) && (d.signal_domain
            == SignalDomain::AnalogVoltage || d.signal_domain == SignalDomain::AnalogCurrent),
        finding(
            "error",
            "digital_channel_analog_domain",
            "signal_domain"@,
            "digital channels must not be modelled as analog ADC/DAC channels"@,
            None,
        ),
    )
}

/// Every finding on a DAQ channel profile, in the order they are reported: identity,
/// analog quantity and unit, supported ranges, resolution, sampling rates, IEPE
/// support, channel kind against signal domain, then each excitation capability.
pub open spec fn daq_channel_profile_issues(d: DaqChannelProfileDefinition) -> Seq<
    DefinitionIssueView,
> {
    daq_head_issues(d) + daq_rate_and_domain_issues(d) + daq_domain_issues(d) + excitations_pass(
        d.excitation_capabilities@,
        d.excitation_capabilities@.len() as int,
    )
}

fn check_supported_range(
    issues: &mut Vec<DefinitionValidationIssue>,
    d: &DaqChannelProfileDefinition,
    k: usize,
)
    requires
        k < d.supported_ranges@.len(),
    ensures
        definition_issues_view(final(issues)@) == definition_issues_view(old(issues)@)
            + supported_range_checks(*d, k as int),
{
    proof {
        reveal_strlit("");
    }
    let ghost before = definition_issues_view(issues@);
    let r = &d.supported_ranges[k];
    let path = indexed_path("supported_ranges", k, "");
    assert(path@ =~= element_path("supported_ranges"@, k as nat));
    validate_supported_range(issues, r, path.as_str());
    let ghost mid = definition_issues_view(issues@);
    match d.input_quantity {
        Some(q) => validate_quantity_unit(issues, q, &r.unit, concat(path.as_str(), ".unit").as_str()),
        None => {},
    }
    assert(definition_issues_view(issues@) =~= before + supported_range_checks(*d, k as int));
}

#[verifier::rlimit(60)]
#[verifier::spinoff_prover]
fn check_daq_head(issues: &mut Vec<DefinitionValidationIssue>, d: &DaqChannelProfileDefinition)
    ensures
        definition_issues_view(final(issues)@) == definition_issues_view(old(issues)@)
            + daq_head_issues(*d),
{
    proof {
        reveal(daq_head_issues);
        reveal_strlit("definition_schema_version");
        reveal_strlit("daq_channel_profile_id");
        reveal_strlit("label");
        reveal_strlit("input_unit");
        reveal_strlit("input_quantity");
    }
    let ghost before = definition_issues_view(issues@);
    require_schema(
        issues,
        d.definition_schema_version.as_str(),
        DAQ_CHANNEL_PROFILE_DEFINITION_SCHEMA_VERSION,
        "definition_schema_version",
    );
    require_id(issues, d.daq_channel_profile_id.as_str(), "daq_channel_profile_id");
    require_text(issues, d.label.as_str(), "label");
    let ghost s1 = definition_issues_view(issues@);
    if d.channel_kind == DaqChannelKind::AnalogInput || d.channel_kind == DaqChannelKind::AnalogOutput {
        match (&d.input_quantity, &d.input_unit) {
            (Some(q), Some(u)) => validate_quantity_unit(issues, *q, u, "input_unit"),
            _ => push_when(
                issues,
                true,
                "error",
                "analog_channel_missing_quantity_unit",
                "input_quantity",
                "analog channels require input_quantity and input_unit".to_owned(),
                None,
            ),
        }
    }
    assert(definition_issues_view(issues@) =~= s1 + analog_issues(*d));
    let ghost s2 = definition_issues_view(issues@);
    let mut k: usize = 0;
    assert(s2 =~= s2 + supported_ranges_pass(*d, 0));
    while k < d.supported_ranges.len()
        invariant
            k <= d.supported_ranges@.len(),
            definition_issues_view(issues@) == s2 + supported_ranges_pass(*d, k as int),
        decreases d.supported_ranges@.len() - k,
    {
        check_supported_range(issues, d, k);
        assert(definition_issues_view(issues@) =~= s2 + supported_ranges_pass(*d, k + 1));
        k = k + 1;
    }
    assert(definition_issues_view(issues@) =~= before + daq_head_issues(*d));
}

fn has_input_mode(modes: &Vec<DaqInputMode>, m: DaqInputMode) -> (b: bool)
    ensures
        b == lists_input_mode(modes@, m),
{
    let mut k: usize = 0;
    while k < modes.len()
        invariant
            k <= modes@.len(),
            forall|j: int| 0 <= j < k ==> modes@[j] != m,
        decreases modes@.len() - k,
    {
        if modes[k] == m {
            return true;
        }
        k = k + 1;
    }
    false
}

#[verifier::rlimit(60)]
#[verifier::spinoff_prover]
fn check_daq_rates_and_domain(
    issues: &mut Vec<DefinitionValidationIssue>,
    d: &DaqChannelProfileDefinition,
)
    ensures
        definition_issues_view(final(issues)@) == definition_issues_view(old(issues)@)
            + daq_rate_and_domain_issues(*d),
{
    proof {
        reveal(daq_rate_and_domain_issues);
        reveal_strlit("resolution_bits");
        reveal_strlit("max_sampling_rate");
        reveal_strlit("min_sampling_rate");
        reveal_strlit("iepe_support");
        reveal_strlit("signal_domain");
    }
    let ghost before = definition_issues_view(issues@);
    push_when(
        issues,
        d.resolution_bits == Some(0u32),
        "error",
        "invalid_resolution_bits",
        "resolution_bits",
        "resolution_bits must be positive".to_owned(),
        None,
    );
    push_when(
        issues,
        d.max_sampling_rate_invalid,
        "error",
        "invalid_max_sampling_rate",
        "max_sampling_rate",
        "max_sampling_rate must be positive".to_owned(),
        None,
    );
    push_when(
        issues,
        d.min_sampling_rate_invalid,
        "error",
        "invalid_min_sampling_rate",
        "min_sampling_rate",
        "min_sampling_rate must be non-negative".to_owned(),
        None,
    );
    push_when(
        issues,
        d.sampling_rates_inverted,
        "error",
        "sampling_rate_order_invalid",
        "min_sampling_rate",
        "min_sampling_rate must not exceed max_sampling_rate".to_owned(),
        None,
    );
    push_when(
        issues,
        d.iepe_support && !has_input_mode(&d.input_modes, DaqInputMode::Iepe),
        "error",
        "iepe_support_without_input_mode",
        "iepe_support",
        "IEPE support requires input_modes to include iepe".to_owned(),
        None,
    );
    assert(definition_issues_view(issues@) =~= before + daq_rate_and_domain_issues(*d));
}

#[verifier::rlimit(60)]
#[verifier::spinoff_prover]
fn check_daq_domain(issues: &mut Vec<DefinitionValidationIssue>, d: &DaqChannelProfileDefinition)
    ensures
        definition_issues_view(final(issues)@) == definition_issues_view(old(issues)@)
            + daq_domain_issues(*d),
{
    proof {
        reveal(daq_domain_issues);
        reveal_strlit("signal_domain");
    }
    let ghost before = definition_issues_view(issues@);
    let kind = d.channel_kind;
    let domain = d.signal_domain;
    push_when(
        issues,
        kind == DaqChannelKind::CanBusChannel && domain != SignalDomain::CanBus,
        "error",
        "can_channel_domain_mismatch",
        "signal_domain",
        "CAN bus channels must use signal_domain=can_bus".to_owned(),
        Some("Use a DAQ analog input profile for ADC voltage/current channels."),
    );
    push_when(
        issues,
        (kind == DaqChannelKind::TriggerInput || kind == DaqChannelKind::TriggerOutput) && domain
            != SignalDomain::Trigger,
        "error",
        "trigger_channel_domain_mismatch",
        "signal_domain",
        "trigger channels must use signal_domain=trigger".to_owned(),
        None,
    );
    push_when(
        issues,
        (kind == DaqChannelKind::DigitalInput || kind == DaqChannelKind::DigitalOutput || kind
            == DaqChannelKind::DigitalBidirectional) && (domain == SignalDomain::AnalogVoltage
            || domain == SignalDomain::AnalogCurrent),
        "error",
        "digital_channel_analog_domain",
        "signal_domain",
        "digital channels must not be modelled as analog ADC/DAC channels".to_owned(),
        None,
    );
    assert(definition_issues_view(issues@) =~= before + daq_domain_issues(*d));
}

/// Checks a DAQ channel profile (see `daq_channel_profile_issues`).
pub fn validate_daq_channel_profile_definition(definition: &DaqChannelProfileDefinition) -> (r: Vec<
    DefinitionValidationIssue,
>)
    ensures
        definition_issues_view(r@) == daq_channel_profile_issues(*definition),
{
    let mut issues: Vec<DefinitionValidationIssue> = Vec::new();
    assert(definition_issues_view(issues@) =~= Seq::<DefinitionIssueView>::empty());
    check_daq_head(&mut issues, definition);
    check_daq_rates_and_domain(&mut issues, definition);
    check_daq_domain(&mut issues, definition);
    let ghost s = definition_issues_view(issues@);
    let es = &definition.excitation_capabilities;
    let mut k: usize = 0;
    assert(s =~= s + excitations_pass(es@, 0));
    while k < es.len()
        invariant
            k <= es@.len(),
            definition_issues_view(issues@) == s + excitations_pass(es@, k as int),
        decreases es@.len() - k,
    {
        let path = indexed_path("excitation_capabilities", k, "");
        proof {
            reveal_strlit("");
        }
        assert(path@ =~= element_path("excitation_capabilities"@, k as nat));
        validate_excitation(&mut issues, &es[k], path.as_str());
        assert(definition_issues_view(issues@) =~= s + excitations_pass(es@, k + 1));
        k = k + 1;
    }
    assert(definition_issues_view(issues@) =~= daq_channel_profile_issues(*definition));
    issues
}

// ---------------------------------------------------------------------------
// Acquisition channel recipes
// ---------------------------------------------------------------------------

/// An acquisition channel recipe; `sample_rate_invalid` holds where its sample rate is
/// not finite or not positive.
#[derive(Clone, Debug, PartialEq)]
pub struct AcquisitionChannelRecipeDefinition {
    pub definition_schema_version: String,
    pub recipe_id: String,
    pub label: String,
    pub output_channel_name: String,
    pub output_quantity: PhysicalQuantity,
    pub output_unit: RegisteredUnit,
    pub daq_channel_profile_ref: DefinitionReference,
    pub sensor_definition_ref: Option<DefinitionReference>,
    pub scaling_profile_ref: Option<DefinitionReference>,
    pub correction_curve_refs: Vec<DefinitionReference>,
    pub sample_rate_invalid: bool,
    pub range: SupportedRange,
    pub coupling: CouplingMode,
    pub input_mode: DaqInputMode,
    pub excitation: Option<ExcitationRequirement>,
    pub filtering: Option<String>,
    pub triggering: Option<String>,
    pub validation_rules: Vec<String>,
}

pub open spec fn optional_reference_issues(r: Option<DefinitionReference>, path: Seq<char>) -> Seq<
    DefinitionIssueView,
> {
    match r {
        Some(r) => reference_issues(r, path),
        None => seq![],
    }
}

/// The checks of a recipe's identity, output and references.
#[verifier::opaque]
pub open spec fn recipe_head_issues(d: AcquisitionChannelRecipeDefinition) -> Seq<DefinitionIssueView> {
    schema_issues(
        d.definition_schema_version@,
        ACQUISITION_CHANNEL_RECIPE_DEFINITION_SCHEMA_VERSION@,
        "definition_schema_version"@,
    ) + definition_id_issues(d.recipe_id@, "recipe_id"@) + blank_text_issues(d.label@, "label"@)
        + definition_id_issues(d.output_channel_name@, "output_channel_name"@)
        + quantity_unit_issues(d.output_quantity, d.output_unit, "output_unit"@) + reference_issues(
        d.daq_channel_profile_ref,
        "daq_channel_profile_ref"@,
    ) + optional_reference_issues(d.sensor_definition_ref, "sensor_definition_ref"@)
        + optional_reference_issues(d.scaling_profile_ref, "scaling_profile_ref"@)
}

/// The checks of a recipe's correction curves, sample rate, range and excitation.
#[verifier::opaque]
pub open spec fn recipe_tail_issues(d: AcquisitionChannelRecipeDefinition) -> Seq<DefinitionIssueView> {
    references_issues(d.correction_curve_refs@, "correction_curve_refs"@, d.correction_curve_refs@.len())
        + flagged(
        d.sample_rate_invalid,
        finding(
            "error",
            "invalid_recipe_sample_rate",
            "sample_rate"@,
            "sample_rate must be positive"@,
            None,
        ),
    ) + supported_range_issues(d.range, "range"@) + match d.excitation {
        Some(e) => excitation_issues(e, "excitation"@),
        None => seq![],
    }
}

/// Every finding on a recipe on its own, in the order they are reported.
pub open spec fn recipe_definition_issues(d: AcquisitionChannelRecipeDefinition) -> Seq<
    DefinitionIssueView,
> {
    recipe_head_issues(d) + recipe_tail_issues(d)
}

fn check_optional_reference(
    issues: &mut Vec<DefinitionValidationIssue>,
    r: &Option<DefinitionReference>,
    path: &str,
)
    ensures
        definition_issues_view(final(issues)@) == definition_issues_view(old(issues)@)
            + optional_reference_issues(*r, path@),
{
    let ghost before = definition_issues_view(issues@);
    match r {
        Some(r) => validate_ref(issues, r, path),
        None => {},
    }
    assert(definition_issues_view(issues@) =~= before + optional_reference_issues(*r, path@));
}

#[verifier::rlimit(60)]
#[verifier::spinoff_prover]
fn check_recipe_head(issues: &mut Vec<DefinitionValidationIssue>, d: &AcquisitionChannelRecipeDefinition)
    ensures
        definition_issues_view(final(issues)@) == definition_issues_view(old(issues)@)
            + recipe_head_issues(*d),
{
    proof {
        reveal(recipe_head_issues);
        reveal_strlit("definition_schema_version");
        reveal_strlit("recipe_id");
        reveal_strlit("label");
        reveal_strlit("output_channel_name");
        reveal_strlit("output_unit");
        reveal_strlit("daq_channel_profile_ref");
        reveal_strlit("sensor_definition_ref");
        reveal_strlit("scaling_profile_ref");
    }
    let ghost before = definition_issues_view(issues@);
    require_schema(
        issues,
        d.definition_schema_version.as_str(),
        ACQUISITION_CHANNEL_RECIPE_DEFINITION_SCHEMA_VERSION,
        "definition_schema_version",
    );
    require_id(issues, d.recipe_id.as_str(), "recipe_id");
    require_text(issues, d.label.as_str(), "label");
    require_id(issues, d.output_channel_name.as_str(), "output_channel_name");
    validate_quantity_unit(issues, d.output_quantity, &d.output_unit, "output_unit");
    validate_ref(issues, &d.daq_channel_profile_ref, "daq_channel_profile_ref");
    check_optional_reference(issues, &d.sensor_definition_ref, "sensor_definition_ref");
    check_optional_reference(issues, &d.scaling_profile_ref, "scaling_profile_ref");
    assert(definition_issues_view(issues@) =~= before + recipe_head_issues(*d));
}

#[verifier::rlimit(60)]
#[verifier::spinoff_prover]
fn check_recipe_tail(issues: &mut Vec<DefinitionValidationIssue>, d: &AcquisitionChannelRecipeDefinition)
    ensures
        definition_issues_view(final(issues)@) == definition_issues_view(old(issues)@)
            + recipe_tail_issues(*d),
{
    proof {
        reveal(recipe_tail_issues);
        reveal_strlit("correction_curve_refs");
        reveal_strlit("sample_rate");
        reveal_strlit("range");
        reveal_strlit("excitation");
    }
    let ghost before = definition_issues_view(issues@);
    validate_refs(issues, d.correction_curve_refs.as_slice(), "correction_curve_refs");
    push_when(
        issues,
        d.sample_rate_invalid,
        "error",
        "invalid_recipe_sample_rate",
        "sample_rate",
        "sample_rate must be positive".to_owned(),
        None,
    );
    validate_supported_range(issues, &d.range, "range");
    let ghost mid = definition_issues_view(issues@);
    match &d.excitation {
        Some(e) => validate_excitation(issues, e, "excitation"),
        None => {},
    }
    assert(definition_issues_view(issues@) =~= before + recipe_tail_issues(*d));
}

/// Checks a recipe on its own (see `recipe_definition_issues`).
pub fn validate_acquisition_channel_recipe_definition(
    definition: &AcquisitionChannelRecipeDefinition,
) -> (r: Vec<DefinitionValidationIssue>)
    ensures
        definition_issues_view(r@) == recipe_definition_issues(*definition),
{
    let mut issues: Vec<DefinitionValidationIssue> = Vec::new();
    assert(definition_issues_view(issues@) =~= Seq::<DefinitionIssueView>::empty());
    check_recipe_head(&mut issues, definition);
    check_recipe_tail(&mut issues, definition);
    assert(definition_issues_view(issues@) =~= recipe_definition_issues(*definition));
    issues
}

/// The sample rate of a recipe and the maximum rate of its DAQ channel, as displayed,
/// where the first exceeds the second.
#[derive(Clone, Debug, PartialEq, Eq)]
pub struct SampleRateExcess {
    pub sample_rate: String,
    pub max_sampling_rate: String,
}

/// The definitions a recipe's references resolve to, with what the checks read of the
/// floating-point comparisons between them: where the DAQ channel declares a maximum
/// rate that the recipe's sample rate exceeds, the two rates as displayed; and for each
/// supported range of the DAQ channel, by position, whether its bounds contain the
/// recipe's range.
#[derive(Clone, Debug, PartialEq)]
pub struct ResolvedAcquisitionRecipeContext {
    pub daq_channel_profile: Option<DaqChannelProfileDefinition>,
    pub sensor_definition: Option<SensorDefinition>,
    pub scaling_profile: Option<ScalingProfileDefinition>,
    pub correction_curves: Vec<EngineeringCurveDefinition>,
    pub sample_rate_excess: Option<SampleRateExcess>,
    pub covering_ranges: Vec<bool>,
}

pub open spec fn has_error(s: Seq<DefinitionIssueView>) -> bool {
    exists|k: int| 0 <= k < s.len() && s[k].severity == "error"@
}

pub open spec fn lists_coupling(modes: Seq<CouplingMode>, m: CouplingMode) -> bool {
    exists|k: int| 0 <= k < modes.len() && modes[k] == m
}

/// Whether a supported range of the DAQ channel has the recipe's unit (as written) and
/// contains its range.
pub open spec fn range_covered(
    d: AcquisitionChannelRecipeDefinition,
    daq: DaqChannelProfileDefinition,
    covering: Seq<bool>,
) -> bool {
    exists|k: int|
        0 <= k < daq.supported_ranges@.len() && k < covering.len() && (
        #[trigger] daq.supported_ranges@[k]).unit.unit@ == d.range.unit.unit@ && covering[k]
}

/// The checks of a recipe against its DAQ channel.
#[verifier::opaque]
pub open spec fn recipe_daq_issues(
    d: AcquisitionChannelRecipeDefinition,
    daq: DaqChannelProfileDefinition,
    c: ResolvedAcquisitionRecipeContext,
) -> Seq<DefinitionIssueView> {
    flagged(
        has_error(daq_channel_profile_issues(daq)),
        finding(
            "error",
            "resolved_daq_channel_profile_invalid",
            "daq_channel_profile_ref"@,
            "resolved DAQ channel profile is not valid"@,
            None,
        ),
    ) + flagged(
        daq.input_modes@.len() > 0 && !lists_input_mode(daq.input_modes@, d.input_mode),
        finding(
            "error",
            "recipe_input_mode_not_supported",
            "input_mode"@,
            "recipe input_mode is not supported by the DAQ channel profile"@,
            None,
        ),
    ) + flagged(
        daq.coupling_modes@.len() > 0 && !lists_coupling(daq.coupling_modes@, d.coupling),
        finding(
            "error",
            "recipe_coupling_not_supported",
            "coupling"@,
            "recipe coupling is not supported by the DAQ channel profile"@,
            None,
        ),
    )
}

/// The checks of a recipe's rate, unit and range against its DAQ channel.
#[verifier::opaque]
pub open spec fn recipe_fit_issues(
    d: AcquisitionChannelRecipeDefinition,
    daq: DaqChannelProfileDefinition,
    c: ResolvedAcquisitionRecipeContext,
) -> Seq<DefinitionIssueView> {
    (match c.sample_rate_excess {
        Some(x) => seq![
            finding(
                "error",
                "recipe_sample_rate_exceeds_daq",
                "sample_rate"@,
                "recipe sample_rate "@ + x.sample_rate@ + " exceeds DAQ max_sampling_rate "@
                    + x.max_sampling_rate@,
                None,
            ),
        ],
        None => seq![],
    }) + match daq.input_quantity {
        Some(q) => quantity_unit_issues(q, d.range.unit, "range.unit"@),
        None => seq![],
    } + flagged(
        !range_covered(d, daq, c.covering_ranges@),
        finding(
            "error",
            "recipe_range_not_supported",
            "range"@,
            "recipe range is not covered by the DAQ supported ranges"@,
            Some("Use a range inside one declared supported_ranges entry."@),
        ),
    )
}

pub open spec fn supplies_excitation(caps: Seq<ExcitationRequirement>, kind: ExcitationKind) -> bool {
    exists|k: int| 0 <= k < caps.len() && (#[trigger] caps[k]).excitation_kind == kind
}

/// The checks of a recipe against its sensor: the sensor's excitation must be none,
/// external or supplied by the DAQ channel, and its electrical output must be the DAQ
/// channel's input quantity, where one is declared.
pub open spec fn recipe_sensor_issues(daq: DaqChannelProfileDefinition, sensor: SensorDefinition) -> Seq<
    DefinitionIssueView,
> {
    (match sensor.required_excitation {
        Some(req) => flagged(
            !(req.excitation_kind == ExcitationKind::NoExcitation || req.external_allowed
                || supplies_excitation(daq.excitation_capabilities@, req.excitation_kind)),
            finding(
                "error",
                "recipe_sensor_excitation_not_available",
                "excitation"@,
                "sensor excitation cannot be supplied by the DAQ profile and is not marked external"@,
                None,
            ),
        ),
        None => seq![],
    }) + flagged(
        daq.input_quantity is Some && daq.input_quantity != Some(sensor.electrical_output_quantity),
        finding(
            "error",
            "recipe_sensor_daq_quantity_mismatch",
            "sensor_definition_ref"@,
            "sensor electrical output quantity does not match the DAQ input quantity"@,
            None,
        ),
    )
}

/// The checks of a recipe against its scaling profile: same output as the recipe, and
/// input equal to the sensor's electrical output where a sensor is resolved.
pub open spec fn recipe_scaling_issues(
    d: AcquisitionChannelRecipeDefinition,
    scaling: ScalingProfileDefinition,
    sensor: Option<SensorDefinition>,
) -> Seq<DefinitionIssueView> {
    flagged(
        scaling.output_quantity != d.output_quantity || scaling.output_unit.unit@ != d.output_unit.unit@,
        finding(
            "error",
            "recipe_scaling_output_mismatch",
            "scaling_profile_ref"@,
            "scaling profile output quantity/unit must match the recipe output"@,
            None,
        ),
    ) + match sensor {
        Some(sensor) => flagged(
            scaling.input_quantity != sensor.electrical_output_quantity || scaling.input_unit.unit@
                != sensor.electrical_output_unit.unit@,
            finding(
                "error",
                "recipe_scaling_sensor_input_mismatch",
                "scaling_profile_ref"@,
                "scaling input must match the sensor electrical output"@,
                None,
            ),
        ),
        None => seq![],
    }
}

pub open spec fn curves_pass(curves: Seq<EngineeringCurveDefinition>, n: int) -> Seq<DefinitionIssueView>
    decreases n,
{
    if n <= 0 {
        seq![]
    } else {
        curves_pass(curves, n - 1) + flagged(
            curves[n - 1].dependent_values@.len() == 0,
            finding(
                "error",
                "recipe_correction_curve_invalid",
                "correction_curve_refs"@,
                "correction curve must expose at least one dependent value"@,
                None,
            ),
        )
    }
}

/// Every finding on a recipe in its resolved context, in the order they are reported:
/// the recipe's own; then, without a resolved DAQ channel, that finding alone; else the
/// checks against the DAQ channel, the sensor, the scaling profile and each curve.
pub open spec fn recipe_context_issues(
    d: AcquisitionChannelRecipeDefinition,
    c: ResolvedAcquisitionRecipeContext,
) -> Seq<DefinitionIssueView> {
    recipe_definition_issues(d) + match c.daq_channel_profile {
        None => seq![
            finding(
                "error",
                "missing_resolved_daq_channel_profile",
                "daq_channel_profile_ref"@,
                "DAQ channel profile reference must resolve to an approved definition"@,
                None,
            ),
        ],
        Some(daq) => recipe_daq_issues(d, daq, c) + recipe_fit_issues(d, daq, c) + match c.sensor_definition {
            Some(sensor) => recipe_sensor_issues(daq, sensor),
            None => seq![],
        } + match c.scaling_profile {
            Some(scaling) => recipe_scaling_issues(d, scaling, c.sensor_definition),
            None => seq![],
        } + curves_pass(c.correction_curves@, c.correction_curves@.len() as int),
    }
}

fn any_error(s: &Vec<DefinitionValidationIssue>) -> (b: bool)
    ensures
        b == has_error(definition_issues_view(s@)),
{
    let mut k: usize = 0;
    while k < s.len()
        invariant
            k <= s@.len(),
            forall|j: int| 0 <= j < k ==> definition_issues_view(s@)[j].severity != "error"@,
        decreases s@.len() - k,
    {
        assert(definition_issues_view(s@)[k as int] == s@[k as int]@);
        if str_eq(s[k].severity.as_str(), "error") {
            return true;
        }
        k = k + 1;
    }
    false
}

fn has_coupling(modes: &Vec<CouplingMode>, m: CouplingMode) -> (b: bool)
    ensures
        b == lists_coupling(modes@, m),
{
    let mut k: usize = 0;
    while k < modes.len()
        invariant
            k <= modes@.len(),
            forall|j: int| 0 <= j < k ==> modes@[j] != m,
        decreases modes@.len() - k,
    {
        if modes[k] == m {
            return true;
        }
        k = k + 1;
    }
    false
}

fn covered(
    d: &AcquisitionChannelRecipeDefinition,
    daq: &DaqChannelProfileDefinition,
    covering: &Vec<bool>,
) -> (b: bool)
    ensures
        b == range_covered(*d, *daq, covering@),
{
    let rs = &daq.supported_ranges;
    let mut k: usize = 0;
    while k < rs.len()
        invariant
            k <= rs@.len(),
            rs == &daq.supported_ranges,
            forall|j: int|
                0 <= j < k && j < covering@.len() ==> !((#[trigger] rs@[j]).unit.unit@
                    == d.range.unit.unit@ && covering@[j]),
        decreases rs@.len() - k,
    {
        if k < covering.len() && covering[k] && str_eq(rs[k].unit.unit.as_str(), d.range.unit.unit.as_str()) {
            return true;
        }
        k = k + 1;
    }
    false
}

#[verifier::rlimit(60)]
#[verifier::spinoff_prover]
fn check_recipe_daq(
    issues: &mut Vec<DefinitionValidationIssue>,
    d: &AcquisitionChannelRecipeDefinition,
    daq: &DaqChannelProfileDefinition,
    c: &ResolvedAcquisitionRecipeContext,
)
    ensures
        definition_issues_view(final(issues)@) == definition_issues_view(old(issues)@)
            + recipe_daq_issues(*d, *daq, *c),
{
    proof {
        reveal(recipe_daq_issues);
        reveal_strlit("daq_channel_profile_ref");
        reveal_strlit("input_mode");
        reveal_strlit("coupling");
        reveal_strlit("sample_rate");
        reveal_strlit("range.unit");
        reveal_strlit("range");
    }
    let ghost before = definition_issues_view(issues@);
    let daq_issues = validate_daq_channel_profile_definition(daq);
    push_when(
        issues,
        any_error(&daq_issues),
        "error",
        "resolved_daq_channel_profile_invalid",
        "daq_channel_profile_ref",
        "resolved DAQ channel profile is not valid".to_owned(),
        None,
    );
    push_when(
        issues,
        daq.input_modes.len() > 0 && !has_input_mode(&daq.input_modes, d.input_mode),
        "error",
        "recipe_input_mode_not_supported",
        "input_mode",
        "recipe input_mode is not supported by the DAQ channel profile".to_owned(),
        None,
    );
    push_when(
        issues,
        daq.coupling_modes.len() > 0 && !has_coupling(&daq.coupling_modes, d.coupling),
        "error",
        "recipe_coupling_not_supported",
        "coupling",
        "recipe coupling is not supported by the DAQ channel profile".to_owned(),
        None,
    );
    assert(definition_issues_view(issues@) =~= before + recipe_daq_issues(*d, *daq, *c));
}

#[verifier::rlimit(60)]
#[verifier::spinoff_prover]
fn check_recipe_fit(
    issues: &mut Vec<DefinitionValidationIssue>,
    d: &AcquisitionChannelRecipeDefinition,
    daq: &DaqChannelProfileDefinition,
    c: &ResolvedAcquisitionRecipeContext,
)
    ensures
        definition_issues_view(final(issues)@) == definition_issues_view(old(issues)@)
            + recipe_fit_issues(*d, *daq, *c),
{
    proof {
        reveal(recipe_fit_issues);
        reveal_strlit("sample_rate");
        reveal_strlit("range.unit");
        reveal_strlit("range");
    }
    let ghost before = definition_issues_view(issues@);
    match &c.sample_rate_excess {
        Some(x) => push_when(
            issues,
            true,
            "error",
            "recipe_sample_rate_exceeds_daq",
            "sample_rate",
            join4(
                "recipe sample_rate ",
                x.sample_rate.as_str(),
                " exceeds DAQ max_sampling_rate ",
                x.max_sampling_rate.as_str(),
            ),
            None,
        ),
        None => {},
    }
    let ghost s2 = definition_issues_view(issues@);
    match daq.input_quantity {
        Some(q) => validate_quantity_unit(issues, q, &d.range.unit, "range.unit"),
        None => {},
    }
    let ghost s3 = definition_issues_view(issues@);
    push_when(
        issues,
        !covered(d, daq, &c.covering_ranges),
        "error",
        "recipe_range_not_supported",
        "range",
        "recipe range is not covered by the DAQ supported ranges".to_owned(),
        Some("Use a range inside one declared supported_ranges entry."),
    );
    assert(definition_issues_view(issues@) =~= before + recipe_fit_issues(*d, *daq, *c));
}

fn supplies(caps: &Vec<ExcitationRequirement>, kind: ExcitationKind) -> (b: bool)
    ensures
        b == supplies_excitation(caps@, kind),
{
    let mut k: usize = 0;
    while k < caps.len()
        invariant
            k <= caps@.len(),
            forall|j: int| 0 <= j < k ==> (#[trigger] caps@[j]).excitation_kind != kind,
        decreases caps@.len() - k,
    {
        if caps[k].excitation_kind == kind {
            return true;
        }
        k = k + 1;
    }
    false
}

fn check_recipe_sensor(
    issues: &mut Vec<DefinitionValidationIssue>,
    daq: &DaqChannelProfileDefinition,
    sensor: &SensorDefinition,
)
    ensures
        definition_issues_view(final(issues)@) == definition_issues_view(old(issues)@)
            + recipe_sensor_issues(*daq, *sensor),
{
    proof {
        reveal_strlit("excitation");
        reveal_strlit("sensor_definition_ref");
    }
    let ghost before = definition_issues_view(issues@);
    match &sensor.required_excitation {
        Some(req) => push_when(
            issues,
            !(req.excitation_kind == ExcitationKind::NoExcitation || req.external_allowed || supplies(
                &daq.excitation_capabilities,
                req.excitation_kind,
            )),
            "error",
            "recipe_sensor_excitation_not_available",
            "excitation",
            "sensor excitation cannot be supplied by the DAQ profile and is not marked external".to_owned(),
            None,
        ),
        None => {},
    }
    let ghost mid = definition_issues_view(issues@);
    let mismatch = match daq.input_quantity {
        Some(q) => q != sensor.electrical_output_quantity,
        None => false,
    };
    push_when(
        issues,
        mismatch,
        "error",
        "recipe_sensor_daq_quantity_mismatch",
        "sensor_definition_ref",
        "sensor electrical output quantity does not match the DAQ input quantity".to_owned(),
        None,
    );
    assert(definition_issues_view(issues@) =~= before + recipe_sensor_issues(*daq, *sensor));
}

fn check_recipe_scaling(
    issues: &mut Vec<DefinitionValidationIssue>,
    d: &AcquisitionChannelRecipeDefinition,
    scaling: &ScalingProfileDefinition,
    sensor: &Option<SensorDefinition>,
)
    ensures
        definition_issues_view(final(issues)@) == definition_issues_view(old(issues)@)
            + recipe_scaling_issues(*d, *scaling, *sensor),
{
    proof {
        reveal_strlit("scaling_profile_ref");
    }
    let ghost before = definition_issues_view(issues@);
    push_when(
        issues,
        scaling.output_quantity != d.output_quantity || !str_eq(
            scaling.output_unit.unit.as_str(),
            d.output_unit.unit.as_str(),
        ),
        "error",
        "recipe_scaling_output_mismatch",
        "scaling_profile_ref",
        "scaling profile output quantity/unit must match the recipe output".to_owned(),
        None,
    );
    let ghost mid = definition_issues_view(issues@);
    match sensor {
        Some(sensor) => push_when(
            issues,
            scaling.input_quantity != sensor.electrical_output_quantity || !str_eq(
                scaling.input_unit.unit.as_str(),
                sensor.electrical_output_unit.unit.as_str(),
            ),
            "error",
            "recipe_scaling_sensor_input_mismatch",
            "scaling_profile_ref",
            "scaling input must match the sensor electrical output".to_owned(),
            None,
        ),
        None => {},
    }
    assert(definition_issues_view(issues@) =~= before + recipe_scaling_issues(*d, *scaling, *sensor));
}

/// Checks a recipe in the context its references resolve to (see
/// `recipe_context_issues`).
pub fn validate_acquisition_channel_recipe_with_context(
    definition: &AcquisitionChannelRecipeDefinition,
    context: &ResolvedAcquisitionRecipeContext,
) -> (r: Vec<DefinitionValidationIssue>)
    ensures
        definition_issues_view(r@) == recipe_context_issues(*definition, *context),
{
    proof {
        reveal_strlit("daq_channel_profile_ref");
        reveal_strlit("correction_curve_refs");
    }
    let mut issues = validate_acquisition_channel_recipe_definition(definition);
    let ghost base = definition_issues_view(issues@);
    match &context.daq_channel_profile {
        None => {
            push_when(
                &mut issues,
                true,
                "error",
                "missing_resolved_daq_channel_profile",
                "daq_channel_profile_ref",
                "DAQ channel profile reference must resolve to an approved definition".to_owned(),
                None,
            );
        },
        Some(daq) => {
            check_recipe_daq(&mut issues, definition, daq, context);
            check_recipe_fit(&mut issues, definition, daq, context);
            let ghost s1 = definition_issues_view(issues@);
            match &context.sensor_definition {
                Some(sensor) => check_recipe_sensor(&mut issues, daq, sensor),
                None => {},
            }
            let ghost s2 = definition_issues_view(issues@);
            match &context.scaling_profile {
                Some(scaling) => check_recipe_scaling(
                    &mut issues,
                    definition,
                    scaling,
                    &context.sensor_definition,
                ),
                None => {},
            }
            let ghost s3 = definition_issues_view(issues@);
            let curves = &context.correction_curves;
            let mut k: usize = 0;
            assert(s3 =~= s3 + curves_pass(curves@, 0));
            while k < curves.len()
                invariant
                    k <= curves@.len(),
                    definition_issues_view(issues@) == s3 + curves_pass(curves@, k as int),
                decreases curves@.len() - k,
            {
                push_when(
                    &mut issues,
                    curves[k].dependent_values.len() == 0,
                    "error",
                    "recipe_correction_curve_invalid",
                    "correction_curve_refs",
                    "correction curve must expose at least one dependent value".to_owned(),
                    None,
                );
                assert(definition_issues_view(issues@) =~= s3 + curves_pass(curves@, k + 1));
                k = k + 1;
            }
        },
    }
    assert(definition_issues_view(issues@) =~= recipe_context_issues(*definition, *context));
    issues
}

// ---------------------------------------------------------------------------
// Scaling profiles
// ---------------------------------------------------------------------------

/// What the checks read of an optional floating-point parameter.
#[derive(Clone, Copy, Debug, PartialEq, Eq, Structural)]
pub enum FiniteCheck {
    Missing,
    NotFinite,
    Finite,
}

/// The finding on a parameter that must be given and finite.
pub open spec fn required_finite_issues(v: FiniteCheck, path: Seq<char>, missing_code: &str) -> Seq<
    DefinitionIssueView,
> {
    match v {
        FiniteCheck::Missing => seq![
            finding("error", missing_code, path, "numeric value is required"@, None),
        ],
        FiniteCheck::NotFinite => seq![
            finding("error", "invalid_numeric_value", path, "numeric value must be finite"@, None),
        ],
        FiniteCheck::Finite => seq![],
    }
}

fn require_finite(
    issues: &mut Vec<DefinitionValidationIssue>,
    v: FiniteCheck,
    path: &str,
    missing_code: &str,
)
    ensures
        definition_issues_view(final(issues)@) == definition_issues_view(old(issues)@)
            + required_finite_issues(v, path@, missing_code),
{
    let ghost before = definition_issues_view(issues@);
    match v {
        FiniteCheck::Missing => issues.push(
            issue("error", missing_code, path, "numeric value is required".to_owned(), None),
        ),
        FiniteCheck::NotFinite => issues.push(
            issue(
                "error",
                "invalid_numeric_value",
                path,
                "numeric value must be finite".to_owned(),
                None,
            ),
        ),
        FiniteCheck::Finite => {},
    }
    assert(definition_issues_view(issues@) =~= before + required_finite_issues(v, path@, missing_code));
}

/// A point of a lookup table: whether its input and output are finite, the bit pattern
/// of its input (equal inputs have equal patterns), and whether its input is not above
/// the previous point's.
#[derive(Clone, Debug, PartialEq, Eq)]
pub struct ScalingPoint {
    pub finite: bool,
    pub input_bits: u64,
    pub input_not_above_previous: bool,
}

/// The parameters of a scaling profile, with what the checks read of each float: each
/// single value by `FiniteCheck`, whether both two-point inputs are finite and closer
/// than the machine epsilon, and whether each polynomial coefficient is finite.
#[derive(Clone, Debug, PartialEq, Eq)]
pub struct ScalingParameters {
    pub scale: FiniteCheck,
    pub offset: FiniteCheck,
    pub input_point_1: FiniteCheck,
    pub output_point_1: FiniteCheck,
    pub input_point_2: FiniteCheck,
    pub output_point_2: FiniteCheck,
    pub two_point_inputs_identical: bool,
    pub coefficients_finite: Vec<bool>,
    pub points: Vec<ScalingPoint>,
    pub interpolation: Option<ScalingInterpolation>,
    pub extrapolation_policy: Option<ExtrapolationPolicy>,
    pub expression: Option<String>,
}

/// A scaling profile; `input_limits_invalid` holds where input limits are given with a
/// bound not finite or the maximum not above the minimum.
#[derive(Clone, Debug, PartialEq, Eq)]
pub struct ScalingProfileDefinition {
    pub definition_schema_version: String,
    pub scaling_profile_id: String,
    pub label: String,
    pub input_quantity: PhysicalQuantity,
    pub input_unit: RegisteredUnit,
    pub output_quantity: PhysicalQuantity,
    pub output_unit: RegisteredUnit,
    pub signal_representation: SignalRepresentation,
    pub scaling_kind: ScalingKind,
    pub parameters: ScalingParameters,
    pub input_limits_invalid: bool,
    pub source_reference: Option<String>,
}

/// The checks of a scaling profile's identity, units, representation and limits.
#[verifier::opaque]
pub open spec fn scaling_head_issues(d: ScalingProfileDefinition) -> Seq<DefinitionIssueView> {
    schema_issues(
        d.definition_schema_version@,
        SCALING_PROFILE_DEFINITION_SCHEMA_VERSION@,
        "definition_schema_version"@,
    ) + definition_id_issues(d.scaling_profile_id@, "scaling_profile_id"@) + blank_text_issues(
        d.label@,
        "label"@,
    ) + quantity_unit_issues(d.input_quantity, d.input_unit, "input_unit"@)
        + quantity_unit_issues(d.output_quantity, d.output_unit, "output_unit"@) + flagged(
        d.signal_representation != SignalRepresentation::TimeDomainSamples,
        finding(
            "error",
            "scaling_requires_time_domain_samples",
            "signal_representation"@,
            "sample conversion profiles operate on time-domain samples"@,
            Some("Use frequency-response correction for spectrum amplitude or phase compensation."@),
        ),
    ) + flagged(
        d.input_limits_invalid,
        finding(
            "error",
            "invalid_sample_input_limits",
            "input_limits"@,
            "sample input limits require finite values with maximum above minimum"@,
            Some("Declare the usable input range before overload or clipping."@),
        ),
    )
}

pub open spec fn coefficients_pass(cs: Seq<bool>, n: int) -> Seq<DefinitionIssueView>
    decreases n,
{
    if n <= 0 {
        seq![]
    } else {
        coefficients_pass(cs, n - 1) + flagged(
            !cs[n - 1],
            finding(
                "error",
                "invalid_polynomial_coefficient",
                element_path("parameters.coefficients"@, (n - 1) as nat),
                "polynomial coefficients must be finite"@,
                None,
            ),
        )
    }
}

/// The checks of the lookup point at `k`: finite values, an input not used before, and
/// an input above the previous one.
pub open spec fn point_checks(ps: Seq<ScalingPoint>, k: int) -> Seq<DefinitionIssueView> {
    let path = element_path("parameters.points"@, k as nat);
    flagged(
        !ps[k].finite,
        finding(
            "error",
            "invalid_lookup_point",
            path,
            "lookup point input and output must be finite"@,
            None,
        ),
    ) + flagged(
        exists|j: int| 0 <= j < k && (#[trigger] ps[j]).input_bits == ps[k].input_bits,
        finding(
            "error",
            "duplicate_lookup_input",
            path + ".input"@,
            "lookup table inputs must be unique"@,
            None,
        ),
    ) + flagged(
        k > 0 && ps[k].input_not_above_previous,
        finding(
            "error",
            "lookup_inputs_not_monotonic",
            path + ".input"@,
            "lookup inputs must be strictly increasing"@,
            None,
        ),
    )
}

pub open spec fn points_pass(ps: Seq<ScalingPoint>, n: int) -> Seq<DefinitionIssueView>
    decreases n,
{
    if n <= 0 {
        seq![]
    } else {
        points_pass(ps, n - 1) + point_checks(ps, n - 1)
    }
}

/// The checks of a lookup or piecewise table: two points at least, explicit
/// interpolation and extrapolation, then each point.
pub open spec fn lookup_issues(p: ScalingParameters) -> Seq<DefinitionIssueView> {
    flagged(
        p.points@.len() < 2,
        finding(
            "error",
            "lookup_points_too_short",
            "parameters.points"@,
            "lookup and piecewise scaling require at least two points"@,
            None,
        ),
    ) + flagged(
        p.interpolation is None,
        finding(
            "error",
            "missing_interpolation",
            "parameters.interpolation"@,
            "lookup and piecewise scaling require an explicit interpolation mode"@,
            None,
        ),
    ) + flagged(
        p.extrapolation_policy is None,
        finding(
            "error",
            "missing_extrapolation_policy",
            "parameters.extrapolation_policy"@,
            "lookup and piecewise scaling require an explicit extrapolation policy"@,
            None,
        ),
    ) + points_pass(p.points@, p.points@.len() as int)
}

/// The checks that a scaling kind makes of its parameters.
#[verifier::opaque]
pub open spec fn scaling_kind_issues(d: ScalingProfileDefinition) -> Seq<DefinitionIssueView> {
    let p = d.parameters;
    match d.scaling_kind {
        ScalingKind::Identity => flagged(
            d.input_quantity != d.output_quantity || d.input_unit.unit@ != d.output_unit.unit@,
            finding(
                "error",
                "identity_scaling_unit_mismatch",
                "scaling_kind"@,
                "identity scaling requires identical input and output quantity/unit"@,
                Some("Use linear scaling when a unit conversion or sensitivity is required."@),
            ),
        ),
        ScalingKind::Linear => required_finite_issues(p.scale, "parameters.scale"@, "missing_linear_scale")
            + flagged(
            p.offset == FiniteCheck::NotFinite,
            finding(
                "error",
                "invalid_linear_offset",
                "parameters.offset"@,
                "linear offset must be finite"@,
                None,
            ),
        ),
        ScalingKind::TwoPoint => required_finite_issues(
            p.input_point_1,
            "parameters.input_point_1"@,
            "missing_two_point_input_1",
        ) + required_finite_issues(
            p.output_point_1,
            "parameters.output_point_1"@,
            "missing_two_point_output_1",
        ) + required_finite_issues(
            p.input_point_2,
            "parameters.input_point_2"@,
            "missing_two_point_input_2",
        ) + required_finite_issues(
            p.output_point_2,
            "parameters.output_point_2"@,
            "missing_two_point_output_2",
        ) + flagged(
            p.input_point_1 == FiniteCheck::Finite && p.input_point_2 == FiniteCheck::Finite
                && p.two_point_inputs_identical,
            finding(
                "error",
                "two_point_inputs_identical",
                "parameters.input_point_2"@,
                "two-point scaling requires distinct input points"@,
                Some("Change one input point so the slope is defined."@),
            ),
        ),
        ScalingKind::Polynomial => flagged(
            p.coefficients_finite@.len() == 0,
            finding(
                "error",
                "polynomial_coefficients_empty",
                "parameters.coefficients"@,
                "polynomial scaling requires at least one coefficient"@,
                None,
            ),
        ) + coefficients_pass(p.coefficients_finite@, p.coefficients_finite@.len() as int),
        ScalingKind::LookupTable => lookup_issues(p),
        ScalingKind::PiecewiseLinear => lookup_issues(p),
        ScalingKind::Expression => match p.expression {
            Some(e) => if trim_seq(e@).len() > 0 {
                expression_issues(e@, "parameters.expression"@)
            } else {
                seq![
                    finding(
                        "error",
                        "missing_expression",
                        "parameters.expression"@,
                        "expression scaling requires an expression"@,
                        Some(
                            "Use variables x, input, temperature or frequency with the allowed functions."@,
                        ),
                    ),
                ]
            },
            None => seq![
                finding(
                    "error",
                    "missing_expression",
                    "parameters.expression"@,
                    "expression scaling requires an expression"@,
                    Some("Use variables x, input, temperature or frequency with the allowed functions."@),
                ),
            ],
        },
    }
}

/// Every finding on a scaling profile, in the order they are reported.
pub open spec fn scaling_profile_issues(d: ScalingProfileDefinition) -> Seq<DefinitionIssueView> {
    scaling_head_issues(d) + scaling_kind_issues(d)
}

#[verifier::rlimit(60)]
#[verifier::spinoff_prover]
fn check_scaling_head(issues: &mut Vec<DefinitionValidationIssue>, d: &ScalingProfileDefinition)
    ensures
        definition_issues_view(final(issues)@) == definition_issues_view(old(issues)@)
            + scaling_head_issues(*d),
{
    proof {
        reveal(scaling_head_issues);
        reveal_strlit("definition_schema_version");
        reveal_strlit("scaling_profile_id");
        reveal_strlit("label");
        reveal_strlit("input_unit");
        reveal_strlit("output_unit");
        reveal_strlit("signal_representation");
        reveal_strlit("input_limits");
    }
    let ghost before = definition_issues_view(issues@);
    require_schema(
        issues,
        d.definition_schema_version.as_str(),
        SCALING_PROFILE_DEFINITION_SCHEMA_VERSION,
        "definition_schema_version",
    );
    require_id(issues, d.scaling_profile_id.as_str(), "scaling_profile_id");
    require_text(issues, d.label.as_str(), "label");
    validate_quantity_unit(issues, d.input_quantity, &d.input_unit, "input_unit");
    validate_quantity_unit(issues, d.output_quantity, &d.output_unit, "output_unit");
    push_when(
        issues,
        d.signal_representation != SignalRepresentation::TimeDomainSamples,
        "error",
        "scaling_requires_time_domain_samples",
        "signal_representation",
        "sample conversion profiles operate on time-domain samples".to_owned(),
        Some("Use frequency-response correction for spectrum amplitude or phase compensation."),
    );
    push_when(
        issues,
        d.input_limits_invalid,
        "error",
        "invalid_sample_input_limits",
        "input_limits",
        "sample input limits require finite values with maximum above minimum".to_owned(),
        Some("Declare the usable input range before overload or clipping."),
    );
    assert(definition_issues_view(issues@) =~= before + scaling_head_issues(*d));
}

fn check_point(issues: &mut Vec<DefinitionValidationIssue>, ps: &Vec<ScalingPoint>, k: usize)
    requires
        k < ps@.len(),
    ensures
        definition_issues_view(final(issues)@) == definition_issues_view(old(issues)@)
            + point_checks(ps@, k as int),
{
    proof {
        reveal_strlit("");
    }
    let ghost before = definition_issues_view(issues@);
    let path = indexed_path("parameters.points", k, "");
    assert(path@ =~= element_path("parameters.points"@, k as nat));
    let input_path = concat(path.as_str(), ".input");
    push_when(
        issues,
        !ps[k].finite,
        "error",
        "invalid_lookup_point",
        path.as_str(),
        "lookup point input and output must be finite".to_owned(),
        None,
    );
    let mut seen = false;
    let mut j: usize = 0;
    while j < k
        invariant
            k < ps@.len(),
            j <= k,
            seen == exists|m: int| 0 <= m < j && (#[trigger] ps@[m]).input_bits == ps@[k as int].input_bits,
        decreases k - j,
    {
        if ps[j].input_bits == ps[k].input_bits {
            seen = true;
        }
        j = j + 1;
    }
    push_when(
        issues,
        seen,
        "error",
        "duplicate_lookup_input",
        input_path.as_str(),
        "lookup table inputs must be unique".to_owned(),
        None,
    );
    push_when(
        issues,
        k > 0 && ps[k].input_not_above_previous,
        "error",
        "lookup_inputs_not_monotonic",
        input_path.as_str(),
        "lookup inputs must be strictly increasing".to_owned(),
        None,
    );
    assert(definition_issues_view(issues@) =~= before + point_checks(ps@, k as int));
}

fn check_lookup(issues: &mut Vec<DefinitionValidationIssue>, p: &ScalingParameters)
    ensures
        definition_issues_view(final(issues)@) == definition_issues_view(old(issues)@)
            + lookup_issues(*p),
{
    proof {
        reveal_strlit("parameters.points");
        reveal_strlit("parameters.interpolation");
        reveal_strlit("parameters.extrapolation_policy");
    }
    let ghost before = definition_issues_view(issues@);
    push_when(
        issues,
        p.points.len() < 2,
        "error",
        "lookup_points_too_short",
        "parameters.points",
        "lookup and piecewise scaling require at least two points".to_owned(),
        None,
    );
    push_when(
        issues,
        p.interpolation.is_none(),
        "error",
        "missing_interpolation",
        "parameters.interpolation",
        "lookup and piecewise scaling require an explicit interpolation mode".to_owned(),
        None,
    );
    push_when(
        issues,
        p.extrapolation_policy.is_none(),
        "error",
        "missing_extrapolation_policy",
        "parameters.extrapolation_policy",
        "lookup and piecewise scaling require an explicit extrapolation policy".to_owned(),
        None,
    );
    let ghost s = definition_issues_view(issues@);
    let ps = &p.points;
    let mut k: usize = 0;
    assert(s =~= s + points_pass(ps@, 0));
    while k < ps.len()
        invariant
            k <= ps@.len(),
            definition_issues_view(issues@) == s + points_pass(ps@, k as int),
        decreases ps@.len() - k,
    {
        check_point(issues, ps, k);
        assert(definition_issues_view(issues@) =~= s + points_pass(ps@, k + 1));
        k = k + 1;
    }
    assert(definition_issues_view(issues@) =~= before + lookup_issues(*p));
}

fn check_coefficients(issues: &mut Vec<DefinitionValidationIssue>, cs: &Vec<bool>)
    ensures
        definition_issues_view(final(issues)@) == definition_issues_view(old(issues)@)
            + coefficients_pass(cs@, cs@.len() as int),
{
    proof {
        reveal_strlit("");
    }
    let ghost s = definition_issues_view(issues@);
    let mut k: usize = 0;
    assert(s =~= s + coefficients_pass(cs@, 0));
    while k < cs.len()
        invariant
            k <= cs@.len(),
            definition_issues_view(issues@) == s + coefficients_pass(cs@, k as int),
        decreases cs@.len() - k,
    {
        let path = indexed_path("parameters.coefficients", k, "");
        proof {
            reveal_strlit("");
        }
        assert(path@ =~= element_path("parameters.coefficients"@, k as nat));
        push_when(
            issues,
            !cs[k],
            "error",
            "invalid_polynomial_coefficient",
            path.as_str(),
            "polynomial coefficients must be finite".to_owned(),
            None,
        );
        assert(definition_issues_view(issues@) =~= s + coefficients_pass(cs@, k + 1));
        k = k + 1;
    }
}

#[verifier::rlimit(60)]
#[verifier::spinoff_prover]
fn check_scaling_kind(issues: &mut Vec<DefinitionValidationIssue>, d: &ScalingProfileDefinition)
    ensures
        definition_issues_view(final(issues)@) == definition_issues_view(old(issues)@)
            + scaling_kind_issues(*d),
{
    proof {
        reveal(scaling_kind_issues);
        reveal_strlit("scaling_kind");
        reveal_strlit("parameters.scale");
        reveal_strlit("parameters.offset");
        reveal_strlit("parameters.input_point_1");
        reveal_strlit("parameters.output_point_1");
        reveal_strlit("parameters.input_point_2");
        reveal_strlit("parameters.output_point_2");
        reveal_strlit("parameters.coefficients");
        reveal_strlit("parameters.expression");
    }
    let ghost before = definition_issues_view(issues@);
    let p = &d.parameters;
    match d.scaling_kind {
        ScalingKind::Identity => push_when(
            issues,
            d.input_quantity != d.output_quantity || !str_eq(
                d.input_unit.unit.as_str(),
                d.output_unit.unit.as_str(),
            ),
            "error",
            "identity_scaling_unit_mismatch",
            "scaling_kind",
            "identity scaling requires identical input and output quantity/unit".to_owned(),
            Some("Use linear scaling when a unit conversion or sensitivity is required."),
        ),
        ScalingKind::Linear => {
            require_finite(issues, p.scale, "parameters.scale", "missing_linear_scale");
            push_when(
                issues,
                p.offset == FiniteCheck::NotFinite,
                "error",
                "invalid_linear_offset",
                "parameters.offset",
                "linear offset must be finite".to_owned(),
                None,
            );
        },
        ScalingKind::TwoPoint => {
            require_finite(
                issues,
                p.input_point_1,
                "parameters.input_point_1",
                "missing_two_point_input_1",
            );
            require_finite(
                issues,
                p.output_point_1,
                "parameters.output_point_1",
                "missing_two_point_output_1",
            );
            require_finite(
                issues,
                p.input_point_2,
                "parameters.input_point_2",
                "missing_two_point_input_2",
            );
            require_finite(
                issues,
                p.output_point_2,
                "parameters.output_point_2",
                "missing_two_point_output_2",
            );
            push_when(
                issues,
                p.input_point_1 == FiniteCheck::Finite && p.input_point_2 == FiniteCheck::Finite
                    && p.two_point_inputs_identical,
                "error",
                "two_point_inputs_identical",
                "parameters.input_point_2",
                "two-point scaling requires distinct input points".to_owned(),
                Some("Change one input point so the slope is defined."),
            );
        },
        ScalingKind::Polynomial => {
            push_when(
                issues,
                p.coefficients_finite.len() == 0,
                "error",
                "polynomial_coefficients_empty",
                "parameters.coefficients",
                "polynomial scaling requires at least one coefficient".to_owned(),
                None,
            );
            check_coefficients(issues, &p.coefficients_finite);
        },
        ScalingKind::LookupTable => check_lookup(issues, p),
        ScalingKind::PiecewiseLinear => check_lookup(issues, p),
        ScalingKind::Expression => {
            let given = match &p.expression {
                Some(e) => {
                    let t = trim(e.as_str());
                    !t.as_str().is_empty()
                },
                None => false,
            };
            if given {
                match &p.expression {
                    Some(e) => validate_expression(issues, e.as_str(), "parameters.expression"),
                    None => {},
                }
            } else {
                issues.push(
                    issue(
                        "error",
                        "missing_expression",
                        "parameters.expression",
                        "expression scaling requires an expression".to_owned(),
                        Some(
                            "Use variables x, input, temperature or frequency with the allowed functions.",
                        ),
                    ),
                );
            }
        },
    }
    assert(definition_issues_view(issues@) =~= before + scaling_kind_issues(*d));
}

/// Checks a scaling profile (see `scaling_profile_issues`).
pub fn validate_scaling_profile_definition(definition: &ScalingProfileDefinition) -> (r: Vec<
    DefinitionValidationIssue,
>)
    ensures
        definition_issues_view(r@) == scaling_profile_issues(*definition),
{
    let mut issues: Vec<DefinitionValidationIssue> = Vec::new();
    assert(definition_issues_view(issues@) =~= Seq::<DefinitionIssueView>::empty());
    check_scaling_head(&mut issues, definition);
    check_scaling_kind(&mut issues, definition);
    assert(definition_issues_view(issues@) =~= scaling_profile_issues(*definition));
    issues
}

} // verus!
