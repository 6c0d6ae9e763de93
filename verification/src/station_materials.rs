//! The material contract of a version 3 station setup: the requirements that name the
//! roles of the station, the physical assignments that fill them, and the logical wires
//! between their declared ports.

use crate::method_workflow::PortDirectionality;
use crate::planned_test_preparation::element_path;
use crate::station_setup::{
    found, require_checksum, require_id, require_text, setup_issues_view, sissue,
    station_checksum_issues, station_id_issues, station_text_issues, push_validation,
    valid_date, valid_station_date, SetupIssueView, StationCapabilityRequirementDefinition,
    StationLogicalConnectionDefinition, StationLogicalPortEndpoint,
    StationLogicalPortRequirementDefinition, StationMaterialAssignmentDefinition,
    StationMaterialRequirementDefinition, StationMaterialSelectionPolicy,
    StationMaterialSubstitutionPolicy, StationMeasurementSetupDefinition,
    StationRangeConstraint, StationSetupValidationIssue,
};
use crate::text::{concat, indexed_path, str_eq, trim, trim_seq};
use vstd::prelude::*;

verus! {

// ---------------------------------------------------------------------------
// Ranges
// ---------------------------------------------------------------------------

/// A range must name its unit, give at least one bound, and have coherent finite bounds.
pub open spec fn range_issues(r: Option<StationRangeConstraint>, path: Seq<char>) -> Seq<
    SetupIssueView,
> {
    match r {
        Some(r) => found(
            trim_seq(r.unit@).len() == 0 || r.bounds_incoherent || (!r.has_minimum
                && !r.has_maximum),
            sissue(
                "invalid_station_range_constraint",
                path,
                "a range needs a unit and coherent finite bounds",
            ),
        ),
        None => seq![],
    }
}

/// The frequency, voltage, current and power ranges under `base`, in that order.
pub open spec fn ranges_issues(
    frequency: Option<StationRangeConstraint>,
    voltage: Option<StationRangeConstraint>,
    current: Option<StationRangeConstraint>,
    power: Option<StationRangeConstraint>,
    base: Seq<char>,
) -> Seq<SetupIssueView> {
    range_issues(frequency, base + ".frequency_range"@) + range_issues(
        voltage,
        base + ".voltage_range"@,
    ) + range_issues(current, base + ".current_range"@) + range_issues(
        power,
        base + ".power_range"@,
    )
}

fn check_range(
    issues: &mut Vec<StationSetupValidationIssue>,
    r: &Option<StationRangeConstraint>,
    path: &str,
)
    ensures
        setup_issues_view(final(issues)@) == setup_issues_view(old(issues)@) + range_issues(
            *r,
            path@,
        ),
{
    let ghost before = setup_issues_view(issues@);
    match r {
        Some(r) => {
            let t = trim(r.unit.as_str());
            push_validation(
                issues,
                t.as_str().is_empty() || r.bounds_incoherent || (!r.has_minimum
                    && !r.has_maximum),
                "invalid_station_range_constraint",
                path,
                "a range needs a unit and coherent finite bounds",
            );
        },
        None => {},
    }
    assert(setup_issues_view(issues@) =~= before + range_issues(*r, path@));
}

fn check_ranges(
    issues: &mut Vec<StationSetupValidationIssue>,
    frequency: &Option<StationRangeConstraint>,
    voltage: &Option<StationRangeConstraint>,
    current: &Option<StationRangeConstraint>,
    power: &Option<StationRangeConstraint>,
    base: &str,
)
    ensures
        setup_issues_view(final(issues)@) == setup_issues_view(old(issues)@) + ranges_issues(
            *frequency,
            *voltage,
            *current,
            *power,
            base@,
        ),
{
    let ghost before = setup_issues_view(issues@);
    check_range(issues, frequency, concat(base, ".frequency_range").as_str());
    check_range(issues, voltage, concat(base, ".voltage_range").as_str());
    check_range(issues, current, concat(base, ".current_range").as_str());
    check_range(issues, power, concat(base, ".power_range").as_str());
    assert(setup_issues_view(issues@) =~= before + ranges_issues(
        *frequency,
        *voltage,
        *current,
        *power,
        base@,
    ));
}

// ---------------------------------------------------------------------------
// Requirements and their logical ports
// ---------------------------------------------------------------------------

pub open spec fn requirement_path(i: int, suffix: Seq<char>) -> Seq<char> {
    element_path("material_requirements"@, i, suffix)
}

pub open spec fn port_path(base: Seq<char>, k: int, suffix: Seq<char>) -> Seq<char> {
    base + element_path(".logical_ports"@, k, suffix)
}

pub open spec fn port_id_seen_before(ps: Seq<StationLogicalPortRequirementDefinition>, k: int) -> bool {
    exists|j: int| 0 <= j < k && (#[trigger] ps[j]).logical_port_id@ == ps[k].logical_port_id@
}

/// The checks of the logical port at `k` of the requirement whose path is `base`.
pub open spec fn port_checks(
    ps: Seq<StationLogicalPortRequirementDefinition>,
    base: Seq<char>,
    k: int,
) -> Seq<SetupIssueView> {
    let p = ps[k];
    station_id_issues(p.logical_port_id@, port_path(base, k, ".logical_port_id"@))
        + station_text_issues(
        p.label@,
        port_path(base, k, ".label"@),
        "a logical port name is required",
    ) + found(
        port_id_seen_before(ps, k),
        sissue(
            "duplicate_station_logical_port_id",
            port_path(base, k, ".logical_port_id"@),
            "logical port identifiers must be unique within a material role",
        ),
    ) + ranges_issues(
        p.frequency_range,
        p.voltage_range,
        p.current_range,
        p.power_range,
        port_path(base, k, ""@),
    )
}

pub open spec fn port_pass(
    ps: Seq<StationLogicalPortRequirementDefinition>,
    base: Seq<char>,
    n: int,
) -> Seq<SetupIssueView>
    decreases n,
{
    if n <= 0 {
        seq![]
    } else {
        port_pass(ps, base, n - 1) + port_checks(ps, base, n - 1)
    }
}

#[verifier::rlimit(40)]
fn check_port(
    issues: &mut Vec<StationSetupValidationIssue>,
    ps: &Vec<StationLogicalPortRequirementDefinition>,
    base: &str,
    k: usize,
)
    requires
        k < ps@.len(),
    ensures
        setup_issues_view(final(issues)@) == setup_issues_view(old(issues)@) + port_checks(
            ps@,
            base@,
            k as int,
        ),
{
    let ghost before = setup_issues_view(issues@);
    let p = &ps[k];
    let id_path = concat(base, indexed_path(".logical_ports", k, ".logical_port_id").as_str());
    require_id(issues, p.logical_port_id.as_str(), id_path.as_str());
    require_text(
        issues,
        p.label.as_str(),
        concat(base, indexed_path(".logical_ports", k, ".label").as_str()).as_str(),
        "a logical port name is required",
    );
    let mut seen = false;
    let mut j: usize = 0;
    while j < k
        invariant
            k < ps@.len(),
            j <= k,
            p == &ps@[k as int],
            seen == exists|m: int| 0 <= m < j && (#[trigger] ps@[m]).logical_port_id@
                == ps@[k as int].logical_port_id@,
        decreases k - j,
    {
        if str_eq(ps[j].logical_port_id.as_str(), p.logical_port_id.as_str()) {
            seen = true;
        }
        j = j + 1;
    }
    push_validation(
        issues,
        seen,
        "duplicate_station_logical_port_id",
        id_path.as_str(),
        "logical port identifiers must be unique within a material role",
    );
    let port_base = concat(base, indexed_path(".logical_ports", k, "").as_str());
    check_ranges(
        issues,
        &p.frequency_range,
        &p.voltage_range,
        &p.current_range,
        &p.power_range,
        port_base.as_str(),
    );
    assert(setup_issues_view(issues@) =~= before + port_checks(ps@, base@, k as int));
}

pub open spec fn requirement_id_seen_before(rs: Seq<StationMaterialRequirementDefinition>, i: int) -> bool {
    exists|j: int| 0 <= j < i && (#[trigger] rs[j]).requirement_id@ == rs[i].requirement_id@
}

/// What each selection policy asks of the rest of the requirement: a category pool only a
/// category, a capability match a capability and no exact asset, an exact asset an asset
/// and no substitution.
pub open spec fn policy_issues(r: StationMaterialRequirementDefinition, path: Seq<char>) -> Seq<
    SetupIssueView,
> {
    match r.selection_policy {
        StationMaterialSelectionPolicy::CategoryPool => found(
            r.category_requirement is None || r.capability_requirement is Some
                || r.exact_asset_id is Some,
            sissue(
                "invalid_station_category_requirement",
                path,
                "a category-pool role requires only a category requirement",
            ),
        ),
        StationMaterialSelectionPolicy::CapabilityMatch => found(
            r.capability_requirement is None || r.exact_asset_id is Some,
            sissue(
                "invalid_station_capability_requirement",
                path,
                "a capability role requires a capability contract and no exact asset",
            ),
        ),
        StationMaterialSelectionPolicy::ExactAsset => found(
            r.exact_asset_id is None || r.substitution_policy
                != StationMaterialSubstitutionPolicy::NoSubstitution,
            sissue(
                "invalid_station_exact_asset_requirement",
                path,
                "an exact-asset role requires an asset and forbids substitution",
            ),
        ),
    }
}

pub open spec fn optional_id_issues(v: Option<String>, path: Seq<char>) -> Seq<SetupIssueView> {
    match v {
        Some(v) => station_id_issues(v@, path),
        None => seq![],
    }
}

/// The checks of a capability contract whose path is `base`.
pub open spec fn capability_issues(c: StationCapabilityRequirementDefinition, base: Seq<char>) -> Seq<
    SetupIssueView,
> {
    station_id_issues(c.capability_kind@, base + ".capability_kind"@) + optional_id_issues(
        c.model_capability_id,
        base + ".model_capability_id"@,
    ) + found(
        (c.model_capability_id is Some) != (c.model_capability_equipment_model_id is Some),
        sissue(
            "unscoped_model_capability_id",
            base + ".model_capability_id"@,
            "a model-local capability ID must name its originating equipment model",
        ),
    ) + optional_id_issues(
        c.model_capability_equipment_model_id,
        base + ".model_capability_equipment_model_id"@,
    ) + ranges_issues(c.frequency_range, c.voltage_range, c.current_range, c.power_range, base)
        + found(
        c.impedance_invalid,
        sissue(
            "invalid_station_impedance_requirement",
            base + ".impedance_ohm"@,
            "impedance must be a finite positive value",
        ),
    )
}

/// The checks of the requirement at `i`, before those of its logical ports.
pub open spec fn requirement_head_checks(rs: Seq<StationMaterialRequirementDefinition>, i: int) -> Seq<
    SetupIssueView,
> {
    let r = rs[i];
    station_id_issues(r.requirement_id@, requirement_path(i, ".requirement_id"@))
        + station_text_issues(
        r.role_label@,
        requirement_path(i, ".role_label"@),
        "a material role name is required",
    ) + found(
        requirement_id_seen_before(rs, i),
        sissue(
            "duplicate_station_material_requirement_id",
            requirement_path(i, ".requirement_id"@),
            "material requirement identifiers must be unique",
        ),
    ) + policy_issues(r, requirement_path(i, ""@)) + match r.category_requirement {
        Some(c) => station_id_issues(
            c.category_id@,
            requirement_path(i, ".category_requirement.category_id"@),
        ),
        None => seq![],
    } + match r.capability_requirement {
        Some(c) => capability_issues(c, requirement_path(i, ".capability_requirement"@)),
        None => seq![],
    }
}

/// The checks of the requirement at `i`: its own, then those of each logical port.
pub open spec fn requirement_checks(rs: Seq<StationMaterialRequirementDefinition>, i: int) -> Seq<
    SetupIssueView,
> {
    requirement_head_checks(rs, i) + port_pass(
        rs[i].logical_ports@,
        requirement_path(i, ""@),
        rs[i].logical_ports@.len() as int,
    )
}

pub open spec fn requirement_pass(rs: Seq<StationMaterialRequirementDefinition>, n: int) -> Seq<
    SetupIssueView,
>
    decreases n,
{
    if n <= 0 {
        seq![]
    } else {
        requirement_pass(rs, n - 1) + requirement_checks(rs, n - 1)
    }
}

fn check_optional_id(issues: &mut Vec<StationSetupValidationIssue>, v: &Option<String>, path: &str)
    ensures
        setup_issues_view(final(issues)@) == setup_issues_view(old(issues)@) + optional_id_issues(
            *v,
            path@,
        ),
{
    let ghost before = setup_issues_view(issues@);
    match v {
        Some(v) => require_id(issues, v.as_str(), path),
        None => {},
    }
    assert(setup_issues_view(issues@) =~= before + optional_id_issues(*v, path@));
}

#[verifier::rlimit(40)]
fn check_capability(
    issues: &mut Vec<StationSetupValidationIssue>,
    c: &StationCapabilityRequirementDefinition,
    base: &str,
)
    ensures
        setup_issues_view(final(issues)@) == setup_issues_view(old(issues)@) + capability_issues(
            *c,
            base@,
        ),
{
    let ghost before = setup_issues_view(issues@);
    require_id(issues, c.capability_kind.as_str(), concat(base, ".capability_kind").as_str());
    let model_path = concat(base, ".model_capability_id");
    check_optional_id(issues, &c.model_capability_id, model_path.as_str());
    push_validation(
        issues,
        c.model_capability_id.is_some() != c.model_capability_equipment_model_id.is_some(),
        "unscoped_model_capability_id",
        model_path.as_str(),
        "a model-local capability ID must name its originating equipment model",
    );
    check_optional_id(
        issues,
        &c.model_capability_equipment_model_id,
        concat(base, ".model_capability_equipment_model_id").as_str(),
    );
    check_ranges(
        issues,
        &c.frequency_range,
        &c.voltage_range,
        &c.current_range,
        &c.power_range,
        base,
    );
    push_validation(
        issues,
        c.impedance_invalid,
        "invalid_station_impedance_requirement",
        concat(base, ".impedance_ohm").as_str(),
        "impedance must be a finite positive value",
    );
    assert(setup_issues_view(issues@) =~= before + capability_issues(*c, base@));
}

fn check_policy(
    issues: &mut Vec<StationSetupValidationIssue>,
    r: &StationMaterialRequirementDefinition,
    path: &str,
)
    ensures
        setup_issues_view(final(issues)@) == setup_issues_view(old(issues)@) + policy_issues(
            *r,
            path@,
        ),
{
    match r.selection_policy {
        StationMaterialSelectionPolicy::CategoryPool => push_validation(
            issues,
            r.category_requirement.is_none() || r.capability_requirement.is_some()
                || r.exact_asset_id.is_some(),
            "invalid_station_category_requirement",
            path,
            "a category-pool role requires only a category requirement",
        ),
        StationMaterialSelectionPolicy::CapabilityMatch => push_validation(
            issues,
            r.capability_requirement.is_none() || r.exact_asset_id.is_some(),
            "invalid_station_capability_requirement",
            path,
            "a capability role requires a capability contract and no exact asset",
        ),
        StationMaterialSelectionPolicy::ExactAsset => push_validation(
            issues,
            r.exact_asset_id.is_none() || r.substitution_policy
                != StationMaterialSubstitutionPolicy::NoSubstitution,
            "invalid_station_exact_asset_requirement",
            path,
            "an exact-asset role requires an asset and forbids substitution",
        ),
    }
}

#[verifier::rlimit(60)]
fn check_requirement_head(
    issues: &mut Vec<StationSetupValidationIssue>,
    rs: &Vec<StationMaterialRequirementDefinition>,
    i: usize,
)
    requires
        i < rs@.len(),
    ensures
        setup_issues_view(final(issues)@) == setup_issues_view(old(issues)@)
            + requirement_head_checks(rs@, i as int),
{
    let ghost before = setup_issues_view(issues@);
    let r = &rs[i];
    let id_path = indexed_path("material_requirements", i, ".requirement_id");
    require_id(issues, r.requirement_id.as_str(), id_path.as_str());
    require_text(
        issues,
        r.role_label.as_str(),
        indexed_path("material_requirements", i, ".role_label").as_str(),
        "a material role name is required",
    );
    let mut seen = false;
    let mut j: usize = 0;
    while j < i
        invariant
            i < rs@.len(),
            j <= i,
            r == &rs@[i as int],
            seen == exists|m: int| 0 <= m < j && (#[trigger] rs@[m]).requirement_id@
                == rs@[i as int].requirement_id@,
        decreases i - j,
    {
        if str_eq(rs[j].requirement_id.as_str(), r.requirement_id.as_str()) {
            seen = true;
        }
        j = j + 1;
    }
    push_validation(
        issues,
        seen,
        "duplicate_station_material_requirement_id",
        id_path.as_str(),
        "material requirement identifiers must be unique",
    );
    check_policy(issues, r, indexed_path("material_requirements", i, "").as_str());
    let ghost s1 = setup_issues_view(issues@);
    match &r.category_requirement {
        Some(c) => require_id(
            issues,
            c.category_id.as_str(),
            indexed_path("material_requirements", i, ".category_requirement.category_id").as_str(),
        ),
        None => {},
    }
    let ghost s2 = setup_issues_view(issues@);
    match &r.capability_requirement {
        Some(c) => check_capability(
            issues,
            c,
            indexed_path("material_requirements", i, ".capability_requirement").as_str(),
        ),
        None => {},
    }
    assert(setup_issues_view(issues@) =~= before + requirement_head_checks(rs@, i as int));
}

fn check_requirement(
    issues: &mut Vec<StationSetupValidationIssue>,
    rs: &Vec<StationMaterialRequirementDefinition>,
    i: usize,
)
    requires
        i < rs@.len(),
    ensures
        setup_issues_view(final(issues)@) == setup_issues_view(old(issues)@) + requirement_checks(
            rs@,
            i as int,
        ),
{
    let ghost before = setup_issues_view(issues@);
    check_requirement_head(issues, rs, i);
    let ghost s1 = setup_issues_view(issues@);
    let ps = &rs[i].logical_ports;
    let base = indexed_path("material_requirements", i, "");
    let mut k: usize = 0;
    assert(s1 =~= s1 + port_pass(ps@, base@, 0));
    while k < ps.len()
        invariant
            k <= ps@.len(),
            setup_issues_view(issues@) == s1 + port_pass(ps@, base@, k as int),
        decreases ps@.len() - k,
    {
        check_port(issues, ps, base.as_str(), k);
        assert(setup_issues_view(issues@) =~= s1 + port_pass(ps@, base@, k + 1));
        k = k + 1;
    }
    assert(setup_issues_view(issues@) =~= before + requirement_checks(rs@, i as int));
}

// ---------------------------------------------------------------------------
// The ports that a requirement declares
// ---------------------------------------------------------------------------

/// The index of the last of the first `n` requirements with identifier `id`, or -1.
pub open spec fn last_requirement(
    rs: Seq<StationMaterialRequirementDefinition>,
    id: Seq<char>,
    n: int,
) -> int
    decreases n,
{
    if n <= 0 {
        -1
    } else if rs[n - 1].requirement_id@ == id {
        n - 1
    } else {
        last_requirement(rs, id, n - 1)
    }
}

pub open spec fn requirement_declared(rs: Seq<StationMaterialRequirementDefinition>, id: Seq<char>) -> bool {
    exists|j: int| 0 <= j < rs.len() && (#[trigger] rs[j]).requirement_id@ == id
}

/// Whether the requirement `id` declares the logical port `port`. Where several
/// requirements share an identifier, the last of them speaks for it.
pub open spec fn declares_port(
    rs: Seq<StationMaterialRequirementDefinition>,
    id: Seq<char>,
    port: Seq<char>,
) -> bool {
    let j = last_requirement(rs, id, rs.len() as int);
    &&& j >= 0
    &&& exists|k: int|
        0 <= k < rs[j].logical_ports@.len() && (#[trigger] rs[j].logical_ports@[k]).logical_port_id@
            == port
}

pub proof fn lemma_last_requirement(
    rs: Seq<StationMaterialRequirementDefinition>,
    id: Seq<char>,
    n: int,
)
    requires
        0 <= n <= rs.len(),
    ensures
        -1 <= last_requirement(rs, id, n) < n,
        last_requirement(rs, id, n) >= 0 ==> rs[last_requirement(rs, id, n)].requirement_id@ == id,
        last_requirement(rs, id, n) >= 0 <==> exists|j: int|
            0 <= j < n && (#[trigger] rs[j]).requirement_id@ == id,
    decreases n,
{
    if n > 0 {
        lemma_last_requirement(rs, id, n - 1);
        if rs[n - 1].requirement_id@ != id {
            assert forall|j: int| 0 <= j < n && (#[trigger] rs[j]).requirement_id@ == id implies 0
                <= j < n - 1 by {}
        }
    }
}

fn find_last_requirement(rs: &Vec<StationMaterialRequirementDefinition>, id: &str) -> (r: Option<
    usize,
>)
    ensures
        match r {
            Some(j) => j as int == last_requirement(rs@, id@, rs@.len() as int) && j < rs@.len(),
            None => last_requirement(rs@, id@, rs@.len() as int) == -1,
        },
        r is Some <==> requirement_declared(rs@, id@),
{
    let mut last: Option<usize> = None;
    let mut j: usize = 0;
    while j < rs.len()
        invariant
            j <= rs@.len(),
            match last {
                Some(l) => l as int == last_requirement(rs@, id@, j as int) && l < j,
                None => last_requirement(rs@, id@, j as int) == -1,
            },
        decreases rs@.len() - j,
    {
        if str_eq(rs[j].requirement_id.as_str(), id) {
            last = Some(j);
        }
        j = j + 1;
    }
    proof {
        lemma_last_requirement(rs@, id@, rs@.len() as int);
    }
    last
}

/// Whether the requirement at `j` declares the logical port `port`.
fn has_port(r: &StationMaterialRequirementDefinition, port: &str) -> (b: bool)
    ensures
        b == exists|k: int|
            0 <= k < r.logical_ports@.len() && (#[trigger] r.logical_ports@[k]).logical_port_id@
                == port@,
{
    let ps = &r.logical_ports;
    let mut k: usize = 0;
    while k < ps.len()
        invariant
            k <= ps@.len(),
            ps == &r.logical_ports,
            forall|m: int| 0 <= m < k ==> (#[trigger] ps@[m]).logical_port_id@ != port@,
        decreases ps@.len() - k,
    {
        if str_eq(ps[k].logical_port_id.as_str(), port) {
            return true;
        }
        k = k + 1;
    }
    false
}

fn declares(rs: &Vec<StationMaterialRequirementDefinition>, id: &str, port: &str) -> (b: bool)
    ensures
        b == declares_port(rs@, id@, port@),
{
    match find_last_requirement(rs, id) {
        Some(j) => has_port(&rs[j], port),
        None => false,
    }
}

// ---------------------------------------------------------------------------
// Physical assignments
// ---------------------------------------------------------------------------

pub open spec fn assignment_path(i: int, suffix: Seq<char>) -> Seq<char> {
    element_path("material_assignments"@, i, suffix)
}

pub open spec fn mapping_path(i: int, m: int, suffix: Seq<char>) -> Seq<char> {
    assignment_path(i, ""@) + element_path(".selected_ports"@, m, suffix)
}

pub open spec fn assigned_before(xs: Seq<StationMaterialAssignmentDefinition>, i: int) -> bool {
    exists|j: int| 0 <= j < i && (#[trigger] xs[j]).requirement_id@ == xs[i].requirement_id@
}

/// The checks of the assignment at `i`, before those of its port mappings.
pub open spec fn assignment_head_checks(
    rs: Seq<StationMaterialRequirementDefinition>,
    xs: Seq<StationMaterialAssignmentDefinition>,
    i: int,
) -> Seq<SetupIssueView> {
    let a = xs[i];
    station_id_issues(a.requirement_id@, assignment_path(i, ".requirement_id"@))
        + station_id_issues(a.asset_id@, assignment_path(i, ".asset_id"@)) + station_id_issues(
        a.asset_revision@,
        assignment_path(i, ".asset_revision"@),
    ) + station_text_issues(
        a.inventory_code@,
        assignment_path(i, ".inventory_code"@),
        "an inventory code snapshot is required",
    ) + station_id_issues(a.equipment_model_id@, assignment_path(i, ".equipment_model_id"@))
        + station_id_issues(
        a.equipment_model_revision_id@,
        assignment_path(i, ".equipment_model_revision_id"@),
    ) + station_checksum_issues(
        a.equipment_model_checksum@,
        assignment_path(i, ".equipment_model_checksum"@),
    ) + station_text_issues(
        a.assignment_context@,
        assignment_path(i, ".assignment_context"@),
        "an assignment context is required",
    ) + found(
        !valid_station_date(a.assigned_on@),
        sissue(
            "invalid_station_assignment_date",
            assignment_path(i, ".assigned_on"@),
            "assigned_on must be a valid YYYY-MM-DD date",
        ),
    ) + found(
        !requirement_declared(rs, a.requirement_id@),
        sissue(
            "station_assignment_unknown_requirement",
            assignment_path(i, ".requirement_id"@),
            "the material assignment references an unknown requirement",
        ),
    ) + found(
        assigned_before(xs, i),
        sissue(
            "duplicate_station_material_assignment",
            assignment_path(i, ".requirement_id"@),
            "a material requirement can have only one physical assignment",
        ),
    )
}

/// The checks of the port mapping at `m` of the assignment at `i`.
pub open spec fn mapping_checks(
    rs: Seq<StationMaterialRequirementDefinition>,
    xs: Seq<StationMaterialAssignmentDefinition>,
    i: int,
    m: int,
) -> Seq<SetupIssueView> {
    let a = xs[i];
    let ms = a.selected_ports@;
    let p = ms[m];
    station_id_issues(p.logical_port_id@, mapping_path(i, m, ".logical_port_id"@))
        + station_id_issues(p.actual_port_id@, mapping_path(i, m, ".actual_port_id"@)) + found(
        exists|j: int| 0 <= j < m && (#[trigger] ms[j]).logical_port_id@ == p.logical_port_id@,
        sissue(
            "duplicate_station_logical_port_mapping",
            mapping_path(i, m, ""@),
            "a logical port can be mapped only once",
        ),
    ) + found(
        exists|j: int| 0 <= j < m && (#[trigger] ms[j]).actual_port_id@ == p.actual_port_id@,
        sissue(
            "duplicate_station_actual_port_mapping",
            mapping_path(i, m, ""@),
            "an actual port cannot satisfy two logical ports in one assignment",
        ),
    ) + found(
        !declares_port(rs, a.requirement_id@, p.logical_port_id@),
        sissue(
            "station_assignment_unknown_logical_port",
            mapping_path(i, m, ".logical_port_id"@),
            "the assignment maps a logical port not declared by the requirement",
        ),
    )
}

pub open spec fn mapping_pass(
    rs: Seq<StationMaterialRequirementDefinition>,
    xs: Seq<StationMaterialAssignmentDefinition>,
    i: int,
    n: int,
) -> Seq<SetupIssueView>
    decreases n,
{
    if n <= 0 {
        seq![]
    } else {
        mapping_pass(rs, xs, i, n - 1) + mapping_checks(rs, xs, i, n - 1)
    }
}

pub open spec fn assignment_checks(
    rs: Seq<StationMaterialRequirementDefinition>,
    xs: Seq<StationMaterialAssignmentDefinition>,
    i: int,
) -> Seq<SetupIssueView> {
    assignment_head_checks(rs, xs, i) + mapping_pass(
        rs,
        xs,
        i,
        xs[i].selected_ports@.len() as int,
    )
}

pub open spec fn assignment_pass(
    rs: Seq<StationMaterialRequirementDefinition>,
    xs: Seq<StationMaterialAssignmentDefinition>,
    n: int,
) -> Seq<SetupIssueView>
    decreases n,
{
    if n <= 0 {
        seq![]
    } else {
        assignment_pass(rs, xs, n - 1) + assignment_checks(rs, xs, n - 1)
    }
}

#[verifier::rlimit(80)]
#[verifier::spinoff_prover]
fn check_assignment_head(
    issues: &mut Vec<StationSetupValidationIssue>,
    rs: &Vec<StationMaterialRequirementDefinition>,
    xs: &Vec<StationMaterialAssignmentDefinition>,
    i: usize,
)
    requires
        i < xs@.len(),
    ensures
        setup_issues_view(final(issues)@) == setup_issues_view(old(issues)@)
            + assignment_head_checks(rs@, xs@, i as int),
{
    let ghost before = setup_issues_view(issues@);
    let a = &xs[i];
    let id_path = indexed_path("material_assignments", i, ".requirement_id");
    require_id(issues, a.requirement_id.as_str(), id_path.as_str());
    require_id(
        issues,
        a.asset_id.as_str(),
        indexed_path("material_assignments", i, ".asset_id").as_str(),
    );
    require_id(
        issues,
        a.asset_revision.as_str(),
        indexed_path("material_assignments", i, ".asset_revision").as_str(),
    );
    require_text(
        issues,
        a.inventory_code.as_str(),
        indexed_path("material_assignments", i, ".inventory_code").as_str(),
        "an inventory code snapshot is required",
    );
    require_id(
        issues,
        a.equipment_model_id.as_str(),
        indexed_path("material_assignments", i, ".equipment_model_id").as_str(),
    );
    require_id(
        issues,
        a.equipment_model_revision_id.as_str(),
        indexed_path("material_assignments", i, ".equipment_model_revision_id").as_str(),
    );
    require_checksum(
        issues,
        a.equipment_model_checksum.as_str(),
        indexed_path("material_assignments", i, ".equipment_model_checksum").as_str(),
    );
    require_text(
        issues,
        a.assignment_context.as_str(),
        indexed_path("material_assignments", i, ".assignment_context").as_str(),
        "an assignment context is required",
    );
    push_validation(
        issues,
        !valid_date(a.assigned_on.as_str()),
        "invalid_station_assignment_date",
        indexed_path("material_assignments", i, ".assigned_on").as_str(),
        "assigned_on must be a valid YYYY-MM-DD date",
    );
    let known = find_last_requirement(rs, a.requirement_id.as_str()).is_some();
    push_validation(
        issues,
        !known,
        "station_assignment_unknown_requirement",
        id_path.as_str(),
        "the material assignment references an unknown requirement",
    );
    let mut seen = false;
    let mut j: usize = 0;
    while j < i
        invariant
            i < xs@.len(),
            j <= i,
            a == &xs@[i as int],
            seen == exists|m: int| 0 <= m < j && (#[trigger] xs@[m]).requirement_id@
                == xs@[i as int].requirement_id@,
        decreases i - j,
    {
        if str_eq(xs[j].requirement_id.as_str(), a.requirement_id.as_str()) {
            seen = true;
        }
        j = j + 1;
    }
    push_validation(
        issues,
        seen,
        "duplicate_station_material_assignment",
        id_path.as_str(),
        "a material requirement can have only one physical assignment",
    );
    assert(setup_issues_view(issues@) =~= before + assignment_head_checks(rs@, xs@, i as int));
}

#[verifier::rlimit(60)]
fn check_mapping(
    issues: &mut Vec<StationSetupValidationIssue>,
    rs: &Vec<StationMaterialRequirementDefinition>,
    xs: &Vec<StationMaterialAssignmentDefinition>,
    i: usize,
    m: usize,
)
    requires
        i < xs@.len(),
        m < xs@[i as int].selected_ports@.len(),
    ensures
        setup_issues_view(final(issues)@) == setup_issues_view(old(issues)@) + mapping_checks(
            rs@,
            xs@,
            i as int,
            m as int,
        ),
{
    let ghost before = setup_issues_view(issues@);
    let a = &xs[i];
    let ms = &a.selected_ports;
    let p = &ms[m];
    let base = indexed_path("material_assignments", i, "");
    let logical_path = concat(
        base.as_str(),
        indexed_path(".selected_ports", m, ".logical_port_id").as_str(),
    );
    let mapping_base = concat(base.as_str(), indexed_path(".selected_ports", m, "").as_str());
    require_id(issues, p.logical_port_id.as_str(), logical_path.as_str());
    require_id(
        issues,
        p.actual_port_id.as_str(),
        concat(base.as_str(), indexed_path(".selected_ports", m, ".actual_port_id").as_str()).as_str(),
    );
    let mut logical_seen = false;
    let mut actual_seen = false;
    let mut j: usize = 0;
    while j < m
        invariant
            m < ms@.len(),
            j <= m,
            p == &ms@[m as int],
            logical_seen == exists|k: int| 0 <= k < j && (#[trigger] ms@[k]).logical_port_id@
                == ms@[m as int].logical_port_id@,
            actual_seen == exists|k: int| 0 <= k < j && (#[trigger] ms@[k]).actual_port_id@
                == ms@[m as int].actual_port_id@,
        decreases m - j,
    {
        if str_eq(ms[j].logical_port_id.as_str(), p.logical_port_id.as_str()) {
            logical_seen = true;
        }
        if str_eq(ms[j].actual_port_id.as_str(), p.actual_port_id.as_str()) {
            actual_seen = true;
        }
        j = j + 1;
    }
    push_validation(
        issues,
        logical_seen,
        "duplicate_station_logical_port_mapping",
        mapping_base.as_str(),
        "a logical port can be mapped only once",
    );
    push_validation(
        issues,
        actual_seen,
        "duplicate_station_actual_port_mapping",
        mapping_base.as_str(),
        "an actual port cannot satisfy two logical ports in one assignment",
    );
    push_validation(
        issues,
        !declares(rs, a.requirement_id.as_str(), p.logical_port_id.as_str()),
        "station_assignment_unknown_logical_port",
        logical_path.as_str(),
        "the assignment maps a logical port not declared by the requirement",
    );
    assert(setup_issues_view(issues@) =~= before + mapping_checks(rs@, xs@, i as int, m as int));
}

fn check_assignment(
    issues: &mut Vec<StationSetupValidationIssue>,
    rs: &Vec<StationMaterialRequirementDefinition>,
    xs: &Vec<StationMaterialAssignmentDefinition>,
    i: usize,
)
    requires
        i < xs@.len(),
    ensures
        setup_issues_view(final(issues)@) == setup_issues_view(old(issues)@) + assignment_checks(
            rs@,
            xs@,
            i as int,
        ),
{
    let ghost before = setup_issues_view(issues@);
    check_assignment_head(issues, rs, xs, i);
    let ghost s1 = setup_issues_view(issues@);
    let n = xs[i].selected_ports.len();
    let mut m: usize = 0;
    assert(s1 =~= s1 + mapping_pass(rs@, xs@, i as int, 0));
    while m < n
        invariant
            i < xs@.len(),
            n == xs@[i as int].selected_ports@.len(),
            m <= n,
            setup_issues_view(issues@) == s1 + mapping_pass(rs@, xs@, i as int, m as int),
        decreases n - m,
    {
        check_mapping(issues, rs, xs, i, m);
        assert(setup_issues_view(issues@) =~= s1 + mapping_pass(rs@, xs@, i as int, m + 1));
        m = m + 1;
    }
    assert(setup_issues_view(issues@) =~= before + assignment_checks(rs@, xs@, i as int));
}

// ---------------------------------------------------------------------------
// Logical wires
// ---------------------------------------------------------------------------

pub open spec fn logical_connection_path(i: int, suffix: Seq<char>) -> Seq<char> {
    element_path("logical_connections"@, i, suffix)
}

/// The checks of an end of a logical wire whose path is `path`: its identifiers, then
/// that it names a declared requirement and a port that this requirement declares.
pub open spec fn endpoint_issues(
    rs: Seq<StationMaterialRequirementDefinition>,
    e: StationLogicalPortEndpoint,
    path: Seq<char>,
) -> Seq<SetupIssueView> {
    station_id_issues(e.requirement_id@, path + ".requirement_id"@) + station_id_issues(
        e.logical_port_id@,
        path + ".logical_port_id"@,
    ) + if !requirement_declared(rs, e.requirement_id@) {
        seq![
            sissue(
                "station_logical_connection_unknown_requirement",
                path + ".requirement_id"@,
                "the logical connection references an unknown requirement",
            ),
        ]
    } else {
        found(
            !declares_port(rs, e.requirement_id@, e.logical_port_id@),
            sissue(
                "station_logical_connection_unknown_port",
                path + ".logical_port_id"@,
                "the logical connection references an unknown logical port",
            ),
        )
    }
}

pub open spec fn logical_connection_seen_before(
    cs: Seq<StationLogicalConnectionDefinition>,
    i: int,
) -> bool {
    exists|j: int| 0 <= j < i && (#[trigger] cs[j]).connection_id@ == cs[i].connection_id@
}

/// The checks of the logical wire at `i`.
pub open spec fn logical_connection_checks(
    rs: Seq<StationMaterialRequirementDefinition>,
    cs: Seq<StationLogicalConnectionDefinition>,
    i: int,
) -> Seq<SetupIssueView> {
    let c = cs[i];
    station_id_issues(c.connection_id@, logical_connection_path(i, ".connection_id"@))
        + station_text_issues(
        c.label@,
        logical_connection_path(i, ".label"@),
        "a logical connection name is required",
    ) + found(
        logical_connection_seen_before(cs, i),
        sissue(
            "duplicate_station_logical_connection_id",
            logical_connection_path(i, ".connection_id"@),
            "logical connection identifiers must be unique",
        ),
    ) + endpoint_issues(rs, c.from, logical_connection_path(i, ".from"@)) + endpoint_issues(
        rs,
        c.to,
        logical_connection_path(i, ".to"@),
    ) + found(
        c.from.requirement_id@ == c.to.requirement_id@ && c.from.logical_port_id@
            == c.to.logical_port_id@,
        sissue(
            "station_logical_connection_same_port",
            logical_connection_path(i, ""@),
            "a logical connection must link two different ports",
        ),
    )
}

pub open spec fn logical_connection_pass(
    rs: Seq<StationMaterialRequirementDefinition>,
    cs: Seq<StationLogicalConnectionDefinition>,
    n: int,
) -> Seq<SetupIssueView>
    decreases n,
{
    if n <= 0 {
        seq![]
    } else {
        logical_connection_pass(rs, cs, n - 1) + logical_connection_checks(rs, cs, n - 1)
    }
}

fn check_endpoint(
    issues: &mut Vec<StationSetupValidationIssue>,
    rs: &Vec<StationMaterialRequirementDefinition>,
    e: &StationLogicalPortEndpoint,
    path: &str,
)
    ensures
        setup_issues_view(final(issues)@) == setup_issues_view(old(issues)@) + endpoint_issues(
            rs@,
            *e,
            path@,
        ),
{
    let ghost before = setup_issues_view(issues@);
    let requirement_path = concat(path, ".requirement_id");
    let port_path = concat(path, ".logical_port_id");
    require_id(issues, e.requirement_id.as_str(), requirement_path.as_str());
    require_id(issues, e.logical_port_id.as_str(), port_path.as_str());
    match find_last_requirement(rs, e.requirement_id.as_str()) {
        None => push_validation(
            issues,
            true,
            "station_logical_connection_unknown_requirement",
            requirement_path.as_str(),
            "the logical connection references an unknown requirement",
        ),
        Some(j) => push_validation(
            issues,
            !has_port(&rs[j], e.logical_port_id.as_str()),
            "station_logical_connection_unknown_port",
            port_path.as_str(),
            "the logical connection references an unknown logical port",
        ),
    }
    assert(setup_issues_view(issues@) =~= before + endpoint_issues(rs@, *e, path@));
}

#[verifier::rlimit(40)]
fn check_logical_connection(
    issues: &mut Vec<StationSetupValidationIssue>,
    rs: &Vec<StationMaterialRequirementDefinition>,
    cs: &Vec<StationLogicalConnectionDefinition>,
    i: usize,
)
    requires
        i < cs@.len(),
    ensures
        setup_issues_view(final(issues)@) == setup_issues_view(old(issues)@)
            + logical_connection_checks(rs@, cs@, i as int),
{
    let ghost before = setup_issues_view(issues@);
    let c = &cs[i];
    let id_path = indexed_path("logical_connections", i, ".connection_id");
    require_id(issues, c.connection_id.as_str(), id_path.as_str());
    require_text(
        issues,
        c.label.as_str(),
        indexed_path("logical_connections", i, ".label").as_str(),
        "a logical connection name is required",
    );
    let mut seen = false;
    let mut j: usize = 0;
    while j < i
        invariant
            i < cs@.len(),
            j <= i,
            c == &cs@[i as int],
            seen == exists|m: int| 0 <= m < j && (#[trigger] cs@[m]).connection_id@
                == cs@[i as int].connection_id@,
        decreases i - j,
    {
        if str_eq(cs[j].connection_id.as_str(), c.connection_id.as_str()) {
            seen = true;
        }
        j = j + 1;
    }
    push_validation(
        issues,
        seen,
        "duplicate_station_logical_connection_id",
        id_path.as_str(),
        "logical connection identifiers must be unique",
    );
    check_endpoint(issues, rs, &c.from, indexed_path("logical_connections", i, ".from").as_str());
    check_endpoint(issues, rs, &c.to, indexed_path("logical_connections", i, ".to").as_str());
    push_validation(
        issues,
        str_eq(c.from.requirement_id.as_str(), c.to.requirement_id.as_str()) && str_eq(
            c.from.logical_port_id.as_str(),
            c.to.logical_port_id.as_str(),
        ),
        "station_logical_connection_same_port",
        indexed_path("logical_connections", i, "").as_str(),
        "a logical connection must link two different ports",
    );
    assert(setup_issues_view(issues@) =~= before + logical_connection_checks(rs@, cs@, i as int));
}

// ---------------------------------------------------------------------------
// The whole contract
// ---------------------------------------------------------------------------

/// Every defect of the material contract of a version 3 setup, in the order they are
/// reported: each requirement (with its logical ports), each assignment (with its port
/// mappings), then each logical wire.
pub open spec fn material_requirement_issues(d: StationMeasurementSetupDefinition) -> Seq<
    SetupIssueView,
> {
    let rs = d.material_requirements@;
    requirement_pass(rs, rs.len() as int) + assignment_pass(
        rs,
        d.material_assignments@,
        d.material_assignments@.len() as int,
    ) + logical_connection_pass(rs, d.logical_connections@, d.logical_connections@.len() as int)
}

/// Appends the defects of the material contract (see `material_requirement_issues`).
pub fn validate_material_requirements(
    definition: &StationMeasurementSetupDefinition,
    issues: &mut Vec<StationSetupValidationIssue>,
)
    ensures
        setup_issues_view(final(issues)@) == setup_issues_view(old(issues)@)
            + material_requirement_issues(*definition),
{
    let ghost before = setup_issues_view(issues@);
    let rs = &definition.material_requirements;
    let mut i: usize = 0;
    assert(before =~= before + requirement_pass(rs@, 0));
    while i < rs.len()
        invariant
            i <= rs@.len(),
            setup_issues_view(issues@) == before + requirement_pass(rs@, i as int),
        decreases rs@.len() - i,
    {
        check_requirement(issues, rs, i);
        assert(setup_issues_view(issues@) =~= before + requirement_pass(rs@, i + 1));
        i = i + 1;
    }
    let ghost s1 = setup_issues_view(issues@);
    let xs = &definition.material_assignments;
    let mut i: usize = 0;
    assert(s1 =~= s1 + assignment_pass(rs@, xs@, 0));
    while i < xs.len()
        invariant
            i <= xs@.len(),
            setup_issues_view(issues@) == s1 + assignment_pass(rs@, xs@, i as int),
        decreases xs@.len() - i,
    {
        check_assignment(issues, rs, xs, i);
        assert(setup_issues_view(issues@) =~= s1 + assignment_pass(rs@, xs@, i + 1));
        i = i + 1;
    }
    let ghost s2 = setup_issues_view(issues@);
    let cs = &definition.logical_connections;
    let mut i: usize = 0;
    assert(s2 =~= s2 + logical_connection_pass(rs@, cs@, 0));
    while i < cs.len()
        invariant
            i <= cs@.len(),
            setup_issues_view(issues@) == s2 + logical_connection_pass(rs@, cs@, i as int),
        decreases cs@.len() - i,
    {
        check_logical_connection(issues, rs, cs, i);
        assert(setup_issues_view(issues@) =~= s2 + logical_connection_pass(rs@, cs@, i + 1));
        i = i + 1;
    }
    assert(setup_issues_view(issues@) =~= before + material_requirement_issues(*definition));
}

// ---------------------------------------------------------------------------
// Port directions of candidate materials
// ---------------------------------------------------------------------------

/// Whether a physical port of the given direction can serve a logical port that needs
/// the required one: the same direction, a bidirectional port, or a through port for
/// an input or an output.
pub open spec fn directionality_fits(required: PortDirectionality, actual: PortDirectionality) -> bool {
    ||| required == actual
    ||| actual == PortDirectionality::Bidirectional
    ||| (required == PortDirectionality::Input && actual == PortDirectionality::Through)
    ||| (required == PortDirectionality::Output && actual == PortDirectionality::Through)
}

/// Whether a physical port of direction `actual` can serve a logical port that needs
/// `required` (see `directionality_fits`).
pub fn directionality_matches(required: PortDirectionality, actual: PortDirectionality) -> (b: bool)
    ensures
        b == directionality_fits(required, actual),
{
    required == actual || actual == PortDirectionality::Bidirectional || (required
        == PortDirectionality::Input && actual == PortDirectionality::Through) || (required
        == PortDirectionality::Output && actual == PortDirectionality::Through)
}

} // verus!
