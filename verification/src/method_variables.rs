//! The variables of a test method: deterministic expressions over other variables, the
//! dimension such an expression has, and the checks of the variables of a method.

use crate::method_workflow::{
    missing_text, push_found, require_text, requires_unit, stable_token, unit_dimension,
    unit_dimension_of, valid_token, when_found, wissue, workflow_issues_view, AvailabilityPhase,
    MethodVariableSemantic, MethodWorkflowValidationIssue, QuantityDimension, WorkflowIssueView,
};
use crate::sorting::{lemma_sorted_distinct_props, sort_distinct, sorted_distinct, views};
use crate::test_definitions::{VariableDefaultValue, VariableValueType};
use crate::text::{concat, copy_string, str_eq};
use vstd::prelude::*;

verus! {

/// A deterministic expression over the variables of a method. A literal is held by its
/// unit and by whether its value is zero, the one thing the checks read of it.
#[derive(Debug)]
pub enum DeterministicExpression {
    Literal { value_is_zero: bool, unit: String },
    Variable { variable_id: String },
    Add { operands: Vec<DeterministicExpression> },
    Subtract { left: Box<DeterministicExpression>, right: Box<DeterministicExpression> },
    Multiply { left: Box<DeterministicExpression>, right: Box<DeterministicExpression> },
    Divide { numerator: Box<DeterministicExpression>, denominator: Box<DeterministicExpression> },
    Minimum { operands: Vec<DeterministicExpression> },
    Maximum { operands: Vec<DeterministicExpression> },
}

// ---------------------------------------------------------------------------
// The variables an expression reads
// ---------------------------------------------------------------------------

/// The variables an expression reads, in the order they occur (repeats included).
pub open spec fn expression_occurrences(e: DeterministicExpression) -> Seq<Seq<char>>
    decreases e, 0nat,
{
    match e {
        DeterministicExpression::Literal { .. } => seq![],
        DeterministicExpression::Variable { variable_id } => seq![variable_id@],
        DeterministicExpression::Add { operands } => operands_occurrences(
            operands@,
            operands@.len(),
        ),
        DeterministicExpression::Minimum { operands } => operands_occurrences(
            operands@,
            operands@.len(),
        ),
        DeterministicExpression::Maximum { operands } => operands_occurrences(
            operands@,
            operands@.len(),
        ),
        DeterministicExpression::Subtract { left, right } => expression_occurrences(*left)
            + expression_occurrences(*right),
        DeterministicExpression::Multiply { left, right } => expression_occurrences(*left)
            + expression_occurrences(*right),
        DeterministicExpression::Divide { numerator, denominator } => expression_occurrences(
            *numerator,
        ) + expression_occurrences(*denominator),
    }
}

/// The variables read by the first `n` operands, in order.
pub open spec fn operands_occurrences(ops: Seq<DeterministicExpression>, n: nat) -> Seq<Seq<char>>
    decreases ops, n,
{
    if n == 0 || n > ops.len() {
        seq![]
    } else {
        operands_occurrences(ops, (n - 1) as nat) + expression_occurrences(ops[n - 1])
    }
}

fn collect_references(e: &DeterministicExpression, out: &mut Vec<String>)
    ensures
        views(final(out)@) == views(old(out)@) + expression_occurrences(*e),
    decreases *e, 0nat,
{
    let ghost before = views(out@);
    match e {
        DeterministicExpression::Literal { .. } => {},
        DeterministicExpression::Variable { variable_id } => {
            out.push(copy_string(variable_id));
        },
        DeterministicExpression::Add { operands } => collect_operand_references(operands, out),
        DeterministicExpression::Minimum { operands } => collect_operand_references(operands, out),
        DeterministicExpression::Maximum { operands } => collect_operand_references(operands, out),
        DeterministicExpression::Subtract { left, right } => {
            collect_references(left, out);
            collect_references(right, out);
        },
        DeterministicExpression::Multiply { left, right } => {
            collect_references(left, out);
            collect_references(right, out);
        },
        DeterministicExpression::Divide { numerator, denominator } => {
            collect_references(numerator, out);
            collect_references(denominator, out);
        },
    }
    assert(views(out@) =~= before + expression_occurrences(*e));
}

fn collect_operand_references(ops: &Vec<DeterministicExpression>, out: &mut Vec<String>)
    ensures
        views(final(out)@) == views(old(out)@) + operands_occurrences(ops@, ops@.len()),
    decreases ops@, ops@.len() + 1,
{
    let ghost before = views(out@);
    let mut i: usize = 0;
    assert(before =~= before + operands_occurrences(ops@, 0));
    while i < ops.len()
        invariant
            i <= ops@.len(),
            views(out@) == before + operands_occurrences(ops@, i as nat),
        decreases ops@.len() - i,
    {
        collect_references(&ops[i], out);
        assert(views(out@) =~= before + operands_occurrences(ops@, (i + 1) as nat));
        i = i + 1;
    }
}

/// The variables an expression reads, each once, in increasing order.
pub fn expression_references(expression: &DeterministicExpression) -> (r: Vec<String>)
    ensures
        views(r@) == sorted_distinct(expression_occurrences(*expression)),
{
    let mut out: Vec<String> = Vec::new();
    assert(views(out@) =~= Seq::<Seq<char>>::empty());
    collect_references(expression, &mut out);
    assert(views(out@) =~= expression_occurrences(*expression));
    sort_distinct(out)
}

// ---------------------------------------------------------------------------
// Division by a literal zero
// ---------------------------------------------------------------------------

/// Whether an expression divides, anywhere, by a literal whose value is zero.
pub open spec fn has_zero_denominator(e: DeterministicExpression) -> bool
    decreases e, 0nat,
{
    match e {
        DeterministicExpression::Divide { numerator, denominator } => {
            ||| (match *denominator {
                DeterministicExpression::Literal { value_is_zero, .. } => value_is_zero,
                _ => false,
            })
            ||| has_zero_denominator(*numerator)
            ||| has_zero_denominator(*denominator)
        },
        DeterministicExpression::Add { operands } => any_zero_denominator(
            operands@,
            operands@.len(),
        ),
        DeterministicExpression::Minimum { operands } => any_zero_denominator(
            operands@,
            operands@.len(),
        ),
        DeterministicExpression::Maximum { operands } => any_zero_denominator(
            operands@,
            operands@.len(),
        ),
        DeterministicExpression::Subtract { left, right } => has_zero_denominator(*left)
            || has_zero_denominator(*right),
        DeterministicExpression::Multiply { left, right } => has_zero_denominator(*left)
            || has_zero_denominator(*right),
        _ => false,
    }
}

/// Whether one of the first `n` operands divides by a literal zero.
pub open spec fn any_zero_denominator(ops: Seq<DeterministicExpression>, n: nat) -> bool
    decreases ops, n,
{
    if n == 0 || n > ops.len() {
        false
    } else {
        any_zero_denominator(ops, (n - 1) as nat) || has_zero_denominator(ops[n - 1])
    }
}

/// Whether the expression divides, anywhere, by a literal zero.
pub fn contains_literal_zero_denominator(expression: &DeterministicExpression) -> (b: bool)
    ensures
        b == has_zero_denominator(*expression),
    decreases *expression, 0nat,
{
    match expression {
        DeterministicExpression::Divide { numerator, denominator } => {
            let literal_zero = match &**denominator {
                DeterministicExpression::Literal { value_is_zero, .. } => *value_is_zero,
                _ => false,
            };
            literal_zero || contains_literal_zero_denominator(numerator)
                || contains_literal_zero_denominator(denominator)
        },
        DeterministicExpression::Add { operands } => operands_zero_denominator(operands),
        DeterministicExpression::Minimum { operands } => operands_zero_denominator(operands),
        DeterministicExpression::Maximum { operands } => operands_zero_denominator(operands),
        DeterministicExpression::Subtract { left, right } => contains_literal_zero_denominator(left)
            || contains_literal_zero_denominator(right),
        DeterministicExpression::Multiply { left, right } => contains_literal_zero_denominator(left)
            || contains_literal_zero_denominator(right),
        _ => false,
    }
}

proof fn lemma_any_zero_stays(ops: Seq<DeterministicExpression>, n: nat, m: nat)
    requires
        n <= m <= ops.len(),
        any_zero_denominator(ops, n),
    ensures
        any_zero_denominator(ops, m),
    decreases m - n,
{
    if m > n {
        lemma_any_zero_stays(ops, n, (m - 1) as nat);
    }
}

fn operands_zero_denominator(ops: &Vec<DeterministicExpression>) -> (b: bool)
    ensures
        b == any_zero_denominator(ops@, ops@.len()),
    decreases ops@, ops@.len() + 1,
{
    let mut i: usize = 0;
    while i < ops.len()
        invariant
            i <= ops@.len(),
            !any_zero_denominator(ops@, i as nat),
        decreases ops@.len() - i,
    {
        if contains_literal_zero_denominator(&ops[i]) {
            proof {
                lemma_any_zero_stays(ops@, (i + 1) as nat, ops@.len());
            }
            return true;
        }
        i = i + 1;
    }
    false
}

// ---------------------------------------------------------------------------
// Variables and the dimension of an expression
// ---------------------------------------------------------------------------

/// A variable of a test method. Its bounds are floating-point numbers: what the checks
/// read of them is whether both are given with the minimum above the maximum.
#[derive(Debug)]
pub struct MethodVariableDefinition {
    pub variable_id: String,
    pub label: String,
    pub description: String,
    pub semantic: MethodVariableSemantic,
    pub value_type: VariableValueType,
    pub dimension: QuantityDimension,
    pub unit: Option<String>,
    pub default_value: Option<VariableDefaultValue>,
    pub range_inverted: bool,
    pub enum_values: Vec<String>,
    pub required: bool,
    pub source: String,
    pub availability_phase: AvailabilityPhase,
    pub expression: Option<DeterministicExpression>,
    pub consumers: Vec<String>,
}

/// The index of the last of the first `n` variables with identifier `id`, or -1: a
/// variable named twice is known by its last definition.
pub open spec fn last_variable(vars: Seq<MethodVariableDefinition>, id: Seq<char>, n: int) -> int
    decreases n,
{
    if n <= 0 {
        -1
    } else if vars[n - 1].variable_id@ == id {
        n - 1
    } else {
        last_variable(vars, id, n - 1)
    }
}

pub proof fn lemma_last_variable(vars: Seq<MethodVariableDefinition>, id: Seq<char>, n: int)
    requires
        0 <= n <= vars.len(),
    ensures
        -1 <= last_variable(vars, id, n) < n,
        last_variable(vars, id, n) >= 0 ==> vars[last_variable(vars, id, n)].variable_id@ == id,
        last_variable(vars, id, n) >= 0 <==> exists|j: int|
            0 <= j < n && (#[trigger] vars[j]).variable_id@ == id,
    decreases n,
{
    if n > 0 {
        lemma_last_variable(vars, id, n - 1);
        if vars[n - 1].variable_id@ != id {
            assert forall|j: int| 0 <= j < n && (#[trigger] vars[j]).variable_id@ == id implies 0
                <= j < n - 1 by {}
        }
    }
}

fn find_variable(vars: &[MethodVariableDefinition], id: &str) -> (r: Option<usize>)
    ensures
        match r {
            Some(j) => j as int == last_variable(vars@, id@, vars@.len() as int) && j < vars@.len(),
            None => last_variable(vars@, id@, vars@.len() as int) == -1,
        },
{
    let mut last: Option<usize> = None;
    let mut j: usize = 0;
    while j < vars.len()
        invariant
            j <= vars@.len(),
            match last {
                Some(l) => l as int == last_variable(vars@, id@, j as int) && l < j,
                None => last_variable(vars@, id@, j as int) == -1,
            },
        decreases vars@.len() - j,
    {
        if str_eq(vars[j].variable_id.as_str(), id) {
            last = Some(j);
        }
        j = j + 1;
    }
    last
}

/// A dimension that scales another: dimensionless or a ratio.
pub open spec fn is_scalar(d: QuantityDimension) -> bool {
    d == QuantityDimension::Dimensionless || d == QuantityDimension::Ratio
}

/// The dimension of an expression, or why it has none: a literal has that of its unit, a
/// variable its declared one; a sum, minimum or maximum that of its operands, which
/// must agree; a difference that of its two agreeing sides; a product that of its
/// physical side when the other is a scalar; a quotient is dimensionless when both
/// sides agree, and keeps the numerator's dimension over a scalar.
pub open spec fn expression_dimension_of(
    e: DeterministicExpression,
    vars: Seq<MethodVariableDefinition>,
) -> Result<QuantityDimension, Seq<char>>
    decreases e, 0nat,
{
    match e {
        DeterministicExpression::Literal { unit, .. } => match unit_dimension_of(unit@) {
            Some(d) => Ok(d),
            None => Err("unsupported expression unit "@ + unit@),
        },
        DeterministicExpression::Variable { variable_id } => {
            let j = last_variable(vars, variable_id@, vars.len() as int);
            if j >= 0 {
                Ok(vars[j].dimension)
            } else {
                Err("unknown expression variable "@ + variable_id@)
            }
        },
        DeterministicExpression::Add { operands } => operands_dimension(operands@, vars),
        DeterministicExpression::Minimum { operands } => operands_dimension(operands@, vars),
        DeterministicExpression::Maximum { operands } => operands_dimension(operands@, vars),
        DeterministicExpression::Subtract { left, right } => match expression_dimension_of(
            *left,
            vars,
        ) {
            Err(m) => Err(m),
            Ok(l) => match expression_dimension_of(*right, vars) {
                Err(m) => Err(m),
                Ok(r) => if l != r {
                    Err("subtraction requires compatible dimensions"@)
                } else {
                    Ok(l)
                },
            },
        },
        DeterministicExpression::Multiply { left, right } => match expression_dimension_of(
            *left,
            vars,
        ) {
            Err(m) => Err(m),
            Ok(l) => match expression_dimension_of(*right, vars) {
                Err(m) => Err(m),
                Ok(r) => if is_scalar(l) {
                    Ok(r)
                } else if is_scalar(r) {
                    Ok(l)
                } else {
                    Err("multiplication is limited to a scalar and one physical quantity"@)
                },
            },
        },
        DeterministicExpression::Divide { numerator, denominator } => match expression_dimension_of(
            *numerator,
            vars,
        ) {
            Err(m) => Err(m),
            Ok(n) => match expression_dimension_of(*denominator, vars) {
                Err(m) => Err(m),
                Ok(d) => if n == d {
                    Ok(QuantityDimension::Dimensionless)
                } else if is_scalar(d) {
                    Ok(n)
                } else {
                    Err("division uses incompatible dimensions"@)
                },
            },
        },
    }
}

/// The dimension of a sum, minimum or maximum: that of its first operand, which each
/// other operand must have too.
pub open spec fn operands_dimension(
    ops: Seq<DeterministicExpression>,
    vars: Seq<MethodVariableDefinition>,
) -> Result<QuantityDimension, Seq<char>>
    decreases ops, ops.len() + 1,
{
    if ops.len() == 0 {
        Err("expression requires at least one operand"@)
    } else {
        match expression_dimension_of(ops[0], vars) {
            Err(m) => Err(m),
            Ok(d) => if operands_agree(ops, vars, d, ops.len()) {
                Ok(d)
            } else {
                Err("expression combines incompatible dimensions"@)
            },
        }
    }
}

/// Whether the operands from the second up to the `n`-th have the dimension `d`.
pub open spec fn operands_agree(
    ops: Seq<DeterministicExpression>,
    vars: Seq<MethodVariableDefinition>,
    d: QuantityDimension,
    n: nat,
) -> bool
    decreases ops, n,
{
    if n <= 1 || n > ops.len() {
        true
    } else {
        operands_agree(ops, vars, d, (n - 1) as nat) && expression_dimension_of(ops[n - 1], vars)
            == Ok::<QuantityDimension, Seq<char>>(d)
    }
}

proof fn lemma_disagree_stays(
    ops: Seq<DeterministicExpression>,
    vars: Seq<MethodVariableDefinition>,
    d: QuantityDimension,
    n: nat,
    m: nat,
)
    requires
        1 <= n <= m <= ops.len(),
        !operands_agree(ops, vars, d, n),
    ensures
        !operands_agree(ops, vars, d, m),
    decreases m - n,
{
    if m > n {
        lemma_disagree_stays(ops, vars, d, n, (m - 1) as nat);
    }
}

/// What a computed dimension stands for.
pub open spec fn dimension_outcome(r: Result<QuantityDimension, String>) -> Result<
    QuantityDimension,
    Seq<char>,
> {
    match r {
        Ok(d) => Ok(d),
        Err(m) => Err(m@),
    }
}

/// The dimension of an expression over the given variables (see `expression_dimension_of`).
pub fn expression_dimension(
    expression: &DeterministicExpression,
    vars: &[MethodVariableDefinition],
) -> (r: Result<QuantityDimension, String>)
    ensures
        dimension_outcome(r) == expression_dimension_of(*expression, vars@),
    decreases *expression, 0nat,
{
    match expression {
        DeterministicExpression::Literal { unit, .. } => match unit_dimension(unit.as_str()) {
            Some(d) => Ok(d),
            None => Err(concat("unsupported expression unit ", unit.as_str())),
        },
        DeterministicExpression::Variable { variable_id } => match find_variable(
            vars,
            variable_id.as_str(),
        ) {
            Some(j) => Ok(vars[j].dimension),
            None => Err(concat("unknown expression variable ", variable_id.as_str())),
        },
        DeterministicExpression::Add { operands } => operands_dimension_exec(operands, vars),
        DeterministicExpression::Minimum { operands } => operands_dimension_exec(operands, vars),
        DeterministicExpression::Maximum { operands } => operands_dimension_exec(operands, vars),
        DeterministicExpression::Subtract { left, right } => {
            let l = match expression_dimension(left, vars) {
                Ok(l) => l,
                Err(m) => return Err(m),
            };
            let r = match expression_dimension(right, vars) {
                Ok(r) => r,
                Err(m) => return Err(m),
            };
            if l != r {
                Err("subtraction requires compatible dimensions".to_owned())
            } else {
                Ok(l)
            }
        },
        DeterministicExpression::Multiply { left, right } => {
            let l = match expression_dimension(left, vars) {
                Ok(l) => l,
                Err(m) => return Err(m),
            };
            let r = match expression_dimension(right, vars) {
                Ok(r) => r,
                Err(m) => return Err(m),
            };
            if l == QuantityDimension::Dimensionless || l == QuantityDimension::Ratio {
                Ok(r)
            } else if r == QuantityDimension::Dimensionless || r == QuantityDimension::Ratio {
                Ok(l)
            } else {
                Err("multiplication is limited to a scalar and one physical quantity".to_owned())
            }
        },
        DeterministicExpression::Divide { numerator, denominator } => {
            let n = match expression_dimension(numerator, vars) {
                Ok(n) => n,
                Err(m) => return Err(m),
            };
            let d = match expression_dimension(denominator, vars) {
                Ok(d) => d,
                Err(m) => return Err(m),
            };
            if n == d {
                Ok(QuantityDimension::Dimensionless)
            } else if d == QuantityDimension::Dimensionless || d == QuantityDimension::Ratio {
                Ok(n)
            } else {
                Err("division uses incompatible dimensions".to_owned())
            }
        },
    }
}

fn operands_dimension_exec(
    ops: &Vec<DeterministicExpression>,
    vars: &[MethodVariableDefinition],
) -> (r: Result<QuantityDimension, String>)
    ensures
        dimension_outcome(r) == operands_dimension(ops@, vars@),
    decreases ops@, ops@.len() + 1,
{
    if ops.len() == 0 {
        return Err("expression requires at least one operand".to_owned());
    }
    let d = match expression_dimension(&ops[0], vars) {
        Ok(d) => d,
        Err(m) => return Err(m),
    };
    let mut i: usize = 1;
    while i < ops.len()
        invariant
            1 <= i <= ops@.len(),
            expression_dimension_of(ops@[0], vars@) == Ok::<QuantityDimension, Seq<char>>(d),
            operands_agree(ops@, vars@, d, i as nat),
        decreases ops@.len() - i,
    {
        let agrees = match expression_dimension(&ops[i], vars) {
            Ok(x) => x == d,
            Err(_) => false,
        };
        if !agrees {
            proof {
                assert(!operands_agree(ops@, vars@, d, (i + 1) as nat));
                lemma_disagree_stays(ops@, vars@, d, (i + 1) as nat, ops@.len());
            }
            return Err("expression combines incompatible dimensions".to_owned());
        }
        i = i + 1;
    }
    Ok(d)
}

// ---------------------------------------------------------------------------
// The checks of each variable
// ---------------------------------------------------------------------------

fn join3(a: &str, b: &str, c: &str) -> (r: String)
    ensures
        r@ == a@ + b@ + c@,
{
    concat(concat(a, b).as_str(), c)
}

fn join4(a: &str, b: &str, c: &str, d: &str) -> (r: String)
    ensures
        r@ == a@ + b@ + c@ + d@,
{
    concat(join3(a, b, c).as_str(), d)
}

/// The order of the phases of a run, from the definition of the method to its verdict.
pub open spec fn phase_rank(p: AvailabilityPhase) -> int {
    match p {
        AvailabilityPhase::Definition => 0,
        AvailabilityPhase::Preparation => 1,
        AvailabilityPhase::Preflight => 2,
        AvailabilityPhase::Execution => 3,
        AvailabilityPhase::PostProcessing => 4,
        AvailabilityPhase::Verdict => 5,
    }
}

fn phase_order(p: AvailabilityPhase) -> (r: u8)
    ensures
        r as int == phase_rank(p),
{
    match p {
        AvailabilityPhase::Definition => 0,
        AvailabilityPhase::Preparation => 1,
        AvailabilityPhase::Preflight => 2,
        AvailabilityPhase::Execution => 3,
        AvailabilityPhase::PostProcessing => 4,
        AvailabilityPhase::Verdict => 5,
    }
}

/// Whether a default value has a kind the value type accepts (an integer also stands
/// for a number, a text for an enumerated value).
pub open spec fn default_type_matches(t: VariableValueType, v: VariableDefaultValue) -> bool {
    match v {
        VariableDefaultValue::Integer(_) => t == VariableValueType::Integer || t
            == VariableValueType::Number,
        VariableDefaultValue::Number => t == VariableValueType::Number,
        VariableDefaultValue::Boolean(_) => t == VariableValueType::Boolean,
        VariableDefaultValue::Text(_) => t == VariableValueType::Text || t == VariableValueType::Enum,
    }
}

pub open spec fn listed(values: Seq<String>, v: Seq<char>) -> bool {
    exists|k: int| 0 <= k < values.len() && (#[trigger] values[k])@ == v
}

proof fn lemma_listed_views(values: Seq<String>, v: Seq<char>)
    ensures
        listed(values, v) <==> views(values).contains(v),
{
    if listed(values, v) {
        let k = choose|k: int| 0 <= k < values.len() && (#[trigger] values[k])@ == v;
        assert(views(values)[k] == v);
    }
    if views(values).contains(v) {
        let k = choose|k: int| 0 <= k < views(values).len() && views(values)[k] == v;
        assert(values[k]@ == v);
    }
}

/// The checks of a variable's default value: its kind, then, for an enumerated
/// variable, that it is one of the allowed values.
#[verifier::opaque]
pub open spec fn default_issues(v: MethodVariableDefinition) -> Seq<WorkflowIssueView> {
    match v.default_value {
        None => seq![],
        Some(value) => when_found(
            !default_type_matches(v.value_type, value),
            wissue(
                "variable_default_type_mismatch",
                "variables[].default_value",
                "default value type does not match "@ + v.variable_id@,
            ),
        ) + match value {
            VariableDefaultValue::Text(d) => when_found(
                v.value_type == VariableValueType::Enum && !listed(v.enum_values@, d@),
                wissue(
                    "enum_default_not_allowed",
                    "variables[].default_value",
                    "enum default is not allowed for "@ + v.variable_id@,
                ),
            ),
            _ => seq![],
        },
    }
}

pub open spec fn variable_id_repeats(vars: Seq<MethodVariableDefinition>, i: int) -> bool {
    exists|j: int| 0 <= j < i && (#[trigger] vars[j]).variable_id@ == vars[i].variable_id@
}

pub open spec fn unit_required(d: QuantityDimension) -> bool {
    !(d == QuantityDimension::Dimensionless || d == QuantityDimension::Text || d
        == QuantityDimension::Boolean)
}

/// The checks of a variable's unit: present where its dimension needs one, and of that
/// dimension when given.
#[verifier::opaque]
pub open spec fn unit_issues(v: MethodVariableDefinition) -> Seq<WorkflowIssueView> {
    let id = v.variable_id@;
    when_found(
        unit_required(v.dimension) && (v.unit is None || v.unit->0@.len() == 0),
        wissue("missing_variable_unit", "variables[].unit", id + " requires an explicit unit"@),
    ) + match v.unit {
        Some(u) => when_found(
            unit_dimension_of(u@) != Some(v.dimension),
            wissue(
                "incompatible_variable_unit",
                "variables[].unit",
                "unit "@ + u@ + " is incompatible with "@ + id,
            ),
        ),
        None => seq![],
    }
}

/// The checks of the variable at `i` on its own: its identifier (a stable token not used
/// before), label and description, bounds, unit, expression when derived, and default.
pub open spec fn variable_checks(vars: Seq<MethodVariableDefinition>, i: int) -> Seq<
    WorkflowIssueView,
> {
    let v = vars[i];
    let id = v.variable_id@;
    when_found(
        !stable_token(id) || variable_id_repeats(vars, i),
        wissue(
            "invalid_or_duplicate_variable_id",
            "variables[].variable_id",
            "invalid or duplicate variable ID: "@ + id,
        ),
    ) + missing_text(v.label@, "variables[].label") + missing_text(
        v.description@,
        "variables[].description",
    ) + when_found(
        v.range_inverted,
        wissue("invalid_variable_range", "variables", "minimum exceeds maximum for "@ + id),
    ) + unit_issues(v) + when_found(
        v.semantic == MethodVariableSemantic::DerivedValue && v.expression is None,
        wissue(
            "missing_derived_expression",
            "variables[].expression",
            "derived variable "@ + id + " requires an expression"@,
        ),
    ) + default_issues(v)
}

fn text_listed(values: &Vec<String>, v: &str) -> (b: bool)
    ensures
        b == listed(values@, v@),
{
    let mut k: usize = 0;
    while k < values.len()
        invariant
            k <= values@.len(),
            forall|m: int| 0 <= m < k ==> (#[trigger] values@[m])@ != v@,
        decreases values@.len() - k,
    {
        if str_eq(values[k].as_str(), v) {
            return true;
        }
        k = k + 1;
    }
    false
}

fn check_default(issues: &mut Vec<MethodWorkflowValidationIssue>, v: &MethodVariableDefinition)
    ensures
        workflow_issues_view(final(issues)@) == workflow_issues_view(old(issues)@) + default_issues(
            *v,
        ),
{
    proof {
        reveal(default_issues);
    }
    let ghost before = workflow_issues_view(issues@);
    match &v.default_value {
        None => {},
        Some(value) => {
            let t = v.value_type;
            let matches = match value {
                VariableDefaultValue::Integer(_) => t == VariableValueType::Integer || t
                    == VariableValueType::Number,
                VariableDefaultValue::Number => t == VariableValueType::Number,
                VariableDefaultValue::Boolean(_) => t == VariableValueType::Boolean,
                VariableDefaultValue::Text(_) => t == VariableValueType::Text || t
                    == VariableValueType::Enum,
            };
            push_found(
                issues,
                !matches,
                "variable_default_type_mismatch",
                "variables[].default_value",
                concat("default value type does not match ", v.variable_id.as_str()),
            );
            match value {
                VariableDefaultValue::Text(d) => push_found(
                    issues,
                    t == VariableValueType::Enum && !text_listed(&v.enum_values, d.as_str()),
                    "enum_default_not_allowed",
                    "variables[].default_value",
                    concat("enum default is not allowed for ", v.variable_id.as_str()),
                ),
                _ => {},
            }
        },
    }
    assert(workflow_issues_view(issues@) =~= before + default_issues(*v));
}

fn check_unit(issues: &mut Vec<MethodWorkflowValidationIssue>, v: &MethodVariableDefinition)
    ensures
        workflow_issues_view(final(issues)@) == workflow_issues_view(old(issues)@) + unit_issues(*v),
{
    proof {
        reveal(unit_issues);
    }
    let ghost before = workflow_issues_view(issues@);
    let id = v.variable_id.as_str();
    let unit_missing = match &v.unit {
        None => true,
        Some(u) => u.as_str().is_empty(),
    };
    push_found(
        issues,
        requires_unit(v.dimension) && unit_missing,
        "missing_variable_unit",
        "variables[].unit",
        concat(id, " requires an explicit unit"),
    );
    match &v.unit {
        Some(u) => {
            let compatible = match unit_dimension(u.as_str()) {
                Some(d) => d == v.dimension,
                None => false,
            };
            push_found(
                issues,
                !compatible,
                "incompatible_variable_unit",
                "variables[].unit",
                join4("unit ", u.as_str(), " is incompatible with ", id),
            );
        },
        None => {},
    }
    assert(workflow_issues_view(issues@) =~= before + unit_issues(*v));
}

#[verifier::rlimit(40)]
fn check_variable(
    issues: &mut Vec<MethodWorkflowValidationIssue>,
    vars: &[MethodVariableDefinition],
    i: usize,
)
    requires
        i < vars@.len(),
    ensures
        workflow_issues_view(final(issues)@) == workflow_issues_view(old(issues)@)
            + variable_checks(vars@, i as int),
{
    let ghost before = workflow_issues_view(issues@);
    let v = &vars[i];
    let id = v.variable_id.as_str();
    let mut repeats = false;
    let mut j: usize = 0;
    while j < i
        invariant
            i < vars@.len(),
            j <= i,
            v == &vars@[i as int],
            id@ == vars@[i as int].variable_id@,
            repeats == exists|m: int| 0 <= m < j && (#[trigger] vars@[m]).variable_id@
                == vars@[i as int].variable_id@,
        decreases i - j,
    {
        if str_eq(vars[j].variable_id.as_str(), id) {
            repeats = true;
        }
        j = j + 1;
    }
    push_found(
        issues,
        !valid_token(id) || repeats,
        "invalid_or_duplicate_variable_id",
        "variables[].variable_id",
        concat("invalid or duplicate variable ID: ", id),
    );
    require_text(issues, v.label.as_str(), "variables[].label");
    require_text(issues, v.description.as_str(), "variables[].description");
    push_found(
        issues,
        v.range_inverted,
        "invalid_variable_range",
        "variables",
        concat("minimum exceeds maximum for ", id),
    );
    let ghost s1 = workflow_issues_view(issues@);
    check_unit(issues, v);
    push_found(
        issues,
        v.semantic == MethodVariableSemantic::DerivedValue && v.expression.is_none(),
        "missing_derived_expression",
        "variables[].expression",
        join3("derived variable ", id, " requires an expression"),
    );
    let ghost s2 = workflow_issues_view(issues@);
    check_default(issues, v);
    assert(s1 =~= before + when_found(
        !stable_token(id@) || variable_id_repeats(vars@, i as int),
        wissue(
            "invalid_or_duplicate_variable_id",
            "variables[].variable_id",
            "invalid or duplicate variable ID: "@ + id@,
        ),
    ) + missing_text(v.label@, "variables[].label") + missing_text(
        v.description@,
        "variables[].description",
    ) + when_found(
        v.range_inverted,
        wissue("invalid_variable_range", "variables", "minimum exceeds maximum for "@ + id@),
    ));
    assert(workflow_issues_view(issues@) =~= before + variable_checks(vars@, i as int));
}

// ---------------------------------------------------------------------------
// The checks of each expression
// ---------------------------------------------------------------------------

/// The check of the reference `r` in the expression of the variable at `i`: the variable
/// must exist, and be available no later than the variable that reads it.
pub open spec fn reference_check(vars: Seq<MethodVariableDefinition>, i: int, r: Seq<char>) -> Seq<
    WorkflowIssueView,
> {
    let v = vars[i];
    let j = last_variable(vars, r, vars.len() as int);
    if j < 0 {
        seq![
            wissue(
                "unknown_expression_variable",
                "variables[].expression",
                v.variable_id@ + " references unknown variable "@ + r,
            ),
        ]
    } else {
        when_found(
            phase_rank(vars[j].availability_phase) > phase_rank(v.availability_phase),
            wissue(
                "variable_not_available_in_phase",
                "variables[].availability_phase",
                r + " is not available when "@ + v.variable_id@ + " is evaluated"@,
            ),
        )
    }
}

pub open spec fn reference_issues(
    vars: Seq<MethodVariableDefinition>,
    i: int,
    refs: Seq<Seq<char>>,
    n: nat,
) -> Seq<WorkflowIssueView>
    decreases n,
{
    if n == 0 || n > refs.len() {
        seq![]
    } else {
        reference_issues(vars, i, refs, (n - 1) as nat) + reference_check(vars, i, refs[n - 1])
    }
}

/// The checks of the expression of the variable at `i`, if it has one: each variable it
/// reads (once, in increasing order), its dimension against the declared one when it
/// has one, and division by a literal zero.
pub open spec fn expression_checks(vars: Seq<MethodVariableDefinition>, i: int) -> Seq<
    WorkflowIssueView,
> {
    let v = vars[i];
    match v.expression {
        None => seq![],
        Some(e) => {
            let refs = sorted_distinct(expression_occurrences(e));
            reference_issues(vars, i, refs, refs.len()) + match expression_dimension_of(e, vars) {
                Ok(d) => when_found(
                    d != v.dimension,
                    wissue(
                        "expression_unit_mismatch",
                        "variables[].expression",
                        "expression dimension does not match "@ + v.variable_id@,
                    ),
                ),
                Err(_) => seq![],
            } + when_found(
                has_zero_denominator(e),
                wissue(
                    "unsafe_division_by_zero",
                    "variables[].expression",
                    v.variable_id@ + " contains a literal division by zero"@,
                ),
            )
        },
    }
}

fn check_reference(
    issues: &mut Vec<MethodWorkflowValidationIssue>,
    vars: &[MethodVariableDefinition],
    i: usize,
    r: &str,
)
    requires
        i < vars@.len(),
    ensures
        workflow_issues_view(final(issues)@) == workflow_issues_view(old(issues)@)
            + reference_check(vars@, i as int, r@),
{
    let ghost before = workflow_issues_view(issues@);
    let v = &vars[i];
    match find_variable(vars, r) {
        None => push_found(
            issues,
            true,
            "unknown_expression_variable",
            "variables[].expression",
            join3(v.variable_id.as_str(), " references unknown variable ", r),
        ),
        Some(j) => push_found(
            issues,
            phase_order(vars[j].availability_phase) > phase_order(v.availability_phase),
            "variable_not_available_in_phase",
            "variables[].availability_phase",
            join4(r, " is not available when ", v.variable_id.as_str(), " is evaluated"),
        ),
    }
    assert(workflow_issues_view(issues@) =~= before + reference_check(vars@, i as int, r@));
}

fn check_expression(
    issues: &mut Vec<MethodWorkflowValidationIssue>,
    vars: &[MethodVariableDefinition],
    i: usize,
)
    requires
        i < vars@.len(),
    ensures
        workflow_issues_view(final(issues)@) == workflow_issues_view(old(issues)@)
            + expression_checks(vars@, i as int),
{
    let ghost before = workflow_issues_view(issues@);
    let v = &vars[i];
    match &v.expression {
        None => {},
        Some(e) => {
            let refs = expression_references(e);
            let ghost rs = views(refs@);
            let mut k: usize = 0;
            assert(before =~= before + reference_issues(vars@, i as int, rs, 0));
            while k < refs.len()
                invariant
                    i < vars@.len(),
                    k <= refs@.len(),
                    rs == views(refs@),
                    workflow_issues_view(issues@) == before + reference_issues(
                        vars@,
                        i as int,
                        rs,
                        k as nat,
                    ),
                decreases refs@.len() - k,
            {
                check_reference(issues, vars, i, refs[k].as_str());
                assert(rs[k as int] == refs@[k as int]@);
                assert(workflow_issues_view(issues@) =~= before + reference_issues(
                    vars@,
                    i as int,
                    rs,
                    (k + 1) as nat,
                ));
                k = k + 1;
            }
            let ghost s1 = workflow_issues_view(issues@);
            match expression_dimension(e, vars) {
                Ok(d) => push_found(
                    issues,
                    d != v.dimension,
                    "expression_unit_mismatch",
                    "variables[].expression",
                    concat("expression dimension does not match ", v.variable_id.as_str()),
                ),
                Err(_) => {},
            }
            let ghost s2 = workflow_issues_view(issues@);
            push_found(
                issues,
                contains_literal_zero_denominator(e),
                "unsafe_division_by_zero",
                "variables[].expression",
                concat(v.variable_id.as_str(), " contains a literal division by zero"),
            );
            assert(workflow_issues_view(issues@) =~= before + expression_checks(vars@, i as int));
        },
    }
}

// ---------------------------------------------------------------------------
// Cycles between derived variables
// ---------------------------------------------------------------------------

/// The index of the last of the first `n` variables with identifier `id` and an
/// expression, or -1: the expression that a variable named twice is computed by.
pub open spec fn last_expression_variable(
    vars: Seq<MethodVariableDefinition>,
    id: Seq<char>,
    n: int,
) -> int
    decreases n,
{
    if n <= 0 {
        -1
    } else if vars[n - 1].variable_id@ == id && vars[n - 1].expression is Some {
        n - 1
    } else {
        last_expression_variable(vars, id, n - 1)
    }
}

/// Whether the variable `a` reads the variable `b`, through the expression of its last
/// definition that has one.
pub open spec fn reads_variable(vars: Seq<MethodVariableDefinition>, a: Seq<char>, b: Seq<char>) -> bool {
    let j = last_expression_variable(vars, a, vars.len() as int);
    j >= 0 && match vars[j].expression {
        Some(e) => expression_occurrences(e).contains(b),
        None => false,
    }
}

/// Whether `b` is reached from `a` along at least one and at most `m` reads.
pub open spec fn reads_within(vars: Seq<MethodVariableDefinition>, a: Seq<char>, b: Seq<char>, m: nat) -> bool
    decreases m,
{
    if m == 0 {
        false
    } else {
        reads_variable(vars, a, b) || exists|q: int|
            0 <= q < vars.len() && reads_within(vars, a, (#[trigger] vars[q]).variable_id@, (m - 1) as nat)
                && reads_variable(vars, vars[q].variable_id@, b)
    }
}

/// Whether the variable reads itself through a chain of expressions, which never needs
/// more steps than there are variables.
pub open spec fn in_variable_cycle(vars: Seq<MethodVariableDefinition>, a: Seq<char>) -> bool {
    reads_within(vars, a, a, vars.len())
}

proof fn lemma_last_expression_variable(vars: Seq<MethodVariableDefinition>, id: Seq<char>, n: int)
    requires
        0 <= n <= vars.len(),
    ensures
        -1 <= last_expression_variable(vars, id, n) < n,
        last_expression_variable(vars, id, n) >= 0 ==> vars[last_expression_variable(
            vars,
            id,
            n,
        )].variable_id@ == id && vars[last_expression_variable(vars, id, n)].expression is Some,
    decreases n,
{
    if n > 0 {
        lemma_last_expression_variable(vars, id, n - 1);
    }
}

fn find_expression_variable(vars: &[MethodVariableDefinition], id: &str) -> (r: Option<usize>)
    ensures
        match r {
            Some(j) => j as int == last_expression_variable(vars@, id@, vars@.len() as int) && j
                < vars@.len(),
            None => last_expression_variable(vars@, id@, vars@.len() as int) == -1,
        },
{
    let mut last: Option<usize> = None;
    let mut j: usize = 0;
    while j < vars.len()
        invariant
            j <= vars@.len(),
            match last {
                Some(l) => l as int == last_expression_variable(vars@, id@, j as int) && l < j,
                None => last_expression_variable(vars@, id@, j as int) == -1,
            },
        decreases vars@.len() - j,
    {
        if str_eq(vars[j].variable_id.as_str(), id) && vars[j].expression.is_some() {
            last = Some(j);
        }
        j = j + 1;
    }
    last
}

fn reads(vars: &[MethodVariableDefinition], a: &str, b: &str) -> (r: bool)
    ensures
        r == reads_variable(vars@, a@, b@),
{
    proof {
        lemma_last_expression_variable(vars@, a@, vars@.len() as int);
    }
    match find_expression_variable(vars, a) {
        None => false,
        Some(j) => match &vars[j].expression {
            None => false,
            Some(e) => {
                let mut out: Vec<String> = Vec::new();
                assert(views(out@) =~= Seq::<Seq<char>>::empty());
                collect_references(e, &mut out);
                assert(views(out@) =~= expression_occurrences(*e));
                let found = text_listed(&out, b);
                proof {
                    if found {
                        let k = choose|k: int| 0 <= k < out@.len() && (#[trigger] out@[k])@ == b@;
                        assert(views(out@)[k] == b@);
                    } else {
                        assert forall|k: int| 0 <= k < views(out@).len() implies views(out@)[k] != b@ by {
                            assert(views(out@)[k] == out@[k]@);
                        }
                    }
                }
                found
            },
        },
    }
}

/// What each variable reads, by position: `d[q][t]` when the variable at `q` reads the
/// variable at `t`.
fn reads_matrix(vars: &[MethodVariableDefinition]) -> (d: Vec<Vec<bool>>)
    ensures
        d@.len() == vars@.len(),
        forall|q: int| 0 <= q < vars@.len() ==> (#[trigger] d@[q])@.len() == vars@.len(),
        forall|q: int, t: int|
            0 <= q < vars@.len() && 0 <= t < vars@.len() ==> (#[trigger] d@[q]@[t]) == reads_variable(
                vars@,
                vars@[q].variable_id@,
                vars@[t].variable_id@,
            ),
{
    let n = vars.len();
    let mut d: Vec<Vec<bool>> = Vec::new();
    let mut q: usize = 0;
    while q < n
        invariant
            n == vars@.len(),
            q <= n,
            d@.len() == q,
            forall|i: int| 0 <= i < q ==> (#[trigger] d@[i])@.len() == n,
            forall|i: int, t: int|
                0 <= i < q && 0 <= t < n ==> (#[trigger] d@[i]@[t]) == reads_variable(
                    vars@,
                    vars@[i].variable_id@,
                    vars@[t].variable_id@,
                ),
        decreases n - q,
    {
        let mut row: Vec<bool> = Vec::new();
        let mut t: usize = 0;
        while t < n
            invariant
                n == vars@.len(),
                q < n,
                t <= n,
                row@.len() == t,
                forall|u: int|
                    0 <= u < t ==> (#[trigger] row@[u]) == reads_variable(
                        vars@,
                        vars@[q as int].variable_id@,
                        vars@[u].variable_id@,
                    ),
            decreases n - t,
        {
            row.push(reads(vars, vars[q].variable_id.as_str(), vars[t].variable_id.as_str()));
            t = t + 1;
        }
        d.push(row);
        q = q + 1;
    }
    d
}

/// Whether the variable at `p` reads itself through other variables, from the matrix of
/// what each variable reads.
fn variable_in_cycle(vars: &[MethodVariableDefinition], d: &Vec<Vec<bool>>, p: usize) -> (r: bool)
    requires
        p < vars@.len(),
        d@.len() == vars@.len(),
        forall|q: int| 0 <= q < vars@.len() ==> (#[trigger] d@[q])@.len() == vars@.len(),
        forall|q: int, t: int|
            0 <= q < vars@.len() && 0 <= t < vars@.len() ==> (#[trigger] d@[q]@[t]) == reads_variable(
                vars@,
                vars@[q].variable_id@,
                vars@[t].variable_id@,
            ),
    ensures
        r == in_variable_cycle(vars@, vars@[p as int].variable_id@),
{
    let n = vars.len();
    let ghost a = vars@[p as int].variable_id@;
    let mut cur: Vec<bool> = Vec::new();
    let mut t: usize = 0;
    while t < n
        invariant
            n == vars@.len(),
            t <= n,
            cur@.len() == t,
            forall|u: int| 0 <= u < t ==> !(#[trigger] cur@[u]),
        decreases n - t,
    {
        cur.push(false);
        t = t + 1;
    }
    let mut round: usize = 0;
    while round + 1 < n
        invariant
            n == vars@.len(),
            p < n,
            a == vars@[p as int].variable_id@,
            round < n,
            cur@.len() == n,
            d@.len() == n,
            forall|q: int| 0 <= q < n ==> (#[trigger] d@[q])@.len() == n,
            forall|q: int, t: int|
                0 <= q < n && 0 <= t < n ==> (#[trigger] d@[q]@[t]) == reads_variable(
                    vars@,
                    vars@[q].variable_id@,
                    vars@[t].variable_id@,
                ),
            forall|u: int| 0 <= u < n ==> (#[trigger] cur@[u]) == reads_within(vars@, a, vars@[u].variable_id@, round as nat),
        decreases n - round,
    {
        let mut next: Vec<bool> = Vec::new();
        let mut t: usize = 0;
        while t < n
            invariant
                n == vars@.len(),
                p < n,
                a == vars@[p as int].variable_id@,
                round + 1 < n,
                cur@.len() == n,
                d@.len() == n,
                forall|q: int| 0 <= q < n ==> (#[trigger] d@[q])@.len() == n,
                forall|q: int, t: int|
                    0 <= q < n && 0 <= t < n ==> (#[trigger] d@[q]@[t]) == reads_variable(
                        vars@,
                        vars@[q].variable_id@,
                        vars@[t].variable_id@,
                    ),
                forall|u: int| 0 <= u < n ==> (#[trigger] cur@[u]) == reads_within(vars@, a, vars@[u].variable_id@, round as nat),
                t <= n,
                next@.len() == t,
                forall|u: int| 0 <= u < t ==> (#[trigger] next@[u]) == reads_within(vars@, a, vars@[u].variable_id@, (round + 1) as nat),
            decreases n - t,
        {
            let mut hit = d[p][t];
            let mut q: usize = 0;
            while q < n
                invariant
                    n == vars@.len(),
                    p < n,
                    t < n,
                    a == vars@[p as int].variable_id@,
                    cur@.len() == n,
                    d@.len() == n,
                    forall|q: int| 0 <= q < n ==> (#[trigger] d@[q])@.len() == n,
                    forall|q: int, t: int|
                        0 <= q < n && 0 <= t < n ==> (#[trigger] d@[q]@[t]) == reads_variable(
                            vars@,
                            vars@[q].variable_id@,
                            vars@[t].variable_id@,
                        ),
                    forall|u: int| 0 <= u < n ==> (#[trigger] cur@[u]) == reads_within(vars@, a, vars@[u].variable_id@, round as nat),
                    q <= n,
                    hit == (reads_variable(vars@, a, vars@[t as int].variable_id@) || exists|i: int|
                        0 <= i < q && reads_within(vars@, a, (#[trigger] vars@[i]).variable_id@, round as nat)
                            && reads_variable(vars@, vars@[i].variable_id@, vars@[t as int].variable_id@)),
                decreases n - q,
            {
                if !hit && cur[q] && d[q][t] {
                    hit = true;
                }
                q = q + 1;
            }
            next.push(hit);
            t = t + 1;
        }
        cur = next;
        round = round + 1;
    }
    let mut hit = d[p][p];
    let mut q: usize = 0;
    while q < n
        invariant
            n == vars@.len(),
            p < n,
            round + 1 == n,
            a == vars@[p as int].variable_id@,
            cur@.len() == n,
            d@.len() == n,
            forall|q: int| 0 <= q < n ==> (#[trigger] d@[q])@.len() == n,
            forall|q: int, t: int|
                0 <= q < n && 0 <= t < n ==> (#[trigger] d@[q]@[t]) == reads_variable(
                    vars@,
                    vars@[q].variable_id@,
                    vars@[t].variable_id@,
                ),
            forall|u: int| 0 <= u < n ==> (#[trigger] cur@[u]) == reads_within(vars@, a, vars@[u].variable_id@, round as nat),
            q <= n,
            hit == (reads_variable(vars@, a, a) || exists|i: int|
                0 <= i < q && reads_within(vars@, a, (#[trigger] vars@[i]).variable_id@, round as nat)
                    && reads_variable(vars@, vars@[i].variable_id@, a)),
        decreases n - q,
    {
        if !hit && cur[q] && d[q][p] {
            hit = true;
        }
        q = q + 1;
    }
    hit
}


/// The identifiers of the first `n` variables that have an expression, in order.
pub open spec fn expression_variable_ids(vars: Seq<MethodVariableDefinition>, n: int) -> Seq<
    Seq<char>,
>
    decreases n,
{
    if n <= 0 {
        seq![]
    } else {
        expression_variable_ids(vars, n - 1) + if vars[n - 1].expression is Some {
            seq![vars[n - 1].variable_id@]
        } else {
            seq![]
        }
    }
}

proof fn lemma_expression_ids_known(vars: Seq<MethodVariableDefinition>, n: int, x: Seq<char>)
    requires
        0 <= n <= vars.len(),
        expression_variable_ids(vars, n).contains(x),
    ensures
        exists|j: int| 0 <= j < n && (#[trigger] vars[j]).variable_id@ == x,
    decreases n,
{
    if n > 0 {
        let prev = expression_variable_ids(vars, n - 1);
        if prev.contains(x) {
            lemma_expression_ids_known(vars, n - 1, x);
            let j = choose|j: int| 0 <= j < n - 1 && (#[trigger] vars[j]).variable_id@ == x;
            assert(vars[j].variable_id@ == x);
        } else {
            let k = choose|k: int| 0 <= k < expression_variable_ids(vars, n).len() && expression_variable_ids(vars, n)[k] == x;
            assert(k >= prev.len());
            assert(vars[n - 1].variable_id@ == x);
        }
    }
}

/// The identifiers of the first `n` variables that are stable tokens, in order.
pub open spec fn valid_variable_ids(vars: Seq<MethodVariableDefinition>, n: int) -> Seq<Seq<char>>
    decreases n,
{
    if n <= 0 {
        seq![]
    } else {
        valid_variable_ids(vars, n - 1) + if stable_token(vars[n - 1].variable_id@) {
            seq![vars[n - 1].variable_id@]
        } else {
            seq![]
        }
    }
}

/// A finding for each of the first `n` keys that lies on a cycle of reads.
pub open spec fn cycle_issues(vars: Seq<MethodVariableDefinition>, keys: Seq<Seq<char>>, n: nat) -> Seq<
    WorkflowIssueView,
>
    decreases n,
{
    if n == 0 || n > keys.len() {
        seq![]
    } else {
        cycle_issues(vars, keys, (n - 1) as nat) + when_found(
            in_variable_cycle(vars, keys[n - 1]),
            wissue(
                "variable_dependency_cycle",
                "variables",
                "variable dependency cycle includes "@ + keys[n - 1],
            ),
        )
    }
}

pub open spec fn variable_pass(vars: Seq<MethodVariableDefinition>, n: int) -> Seq<WorkflowIssueView>
    decreases n,
{
    if n <= 0 {
        seq![]
    } else {
        variable_pass(vars, n - 1) + variable_checks(vars, n - 1)
    }
}

pub open spec fn expression_pass(vars: Seq<MethodVariableDefinition>, n: int) -> Seq<WorkflowIssueView>
    decreases n,
{
    if n <= 0 {
        seq![]
    } else {
        expression_pass(vars, n - 1) + expression_checks(vars, n - 1)
    }
}

/// Every defect of the variables of a method, in the order they are reported: each
/// variable on its own, then each expression, then, for each identifier of a variable
/// with an expression (once, in increasing order), whether it lies on a cycle of reads.
pub open spec fn variable_issues(vars: Seq<MethodVariableDefinition>) -> Seq<WorkflowIssueView> {
    let keys = sorted_distinct(expression_variable_ids(vars, vars.len() as int));
    variable_pass(vars, vars.len() as int) + expression_pass(vars, vars.len() as int)
        + cycle_issues(vars, keys, keys.len())
}

/// Checks the variables of a method (see `variable_issues`) and gives the identifiers of
/// those that are stable tokens, each once, in increasing order.
pub fn validate_variables(
    variables: &[MethodVariableDefinition],
    issues: &mut Vec<MethodWorkflowValidationIssue>,
) -> (ids: Vec<String>)
    ensures
        workflow_issues_view(final(issues)@) == workflow_issues_view(old(issues)@)
            + variable_issues(variables@),
        views(ids@) == sorted_distinct(valid_variable_ids(variables@, variables@.len() as int)),
{
    let ghost before = workflow_issues_view(issues@);
    let n = variables.len();
    let mut valid: Vec<String> = Vec::new();
    let mut i: usize = 0;
    assert(before =~= before + variable_pass(variables@, 0));
    assert(views(valid@) =~= valid_variable_ids(variables@, 0));
    while i < n
        invariant
            n == variables@.len(),
            i <= n,
            workflow_issues_view(issues@) == before + variable_pass(variables@, i as int),
            views(valid@) == valid_variable_ids(variables@, i as int),
        decreases n - i,
    {
        check_variable(issues, variables, i);
        let ghost prev = views(valid@);
        if valid_token(variables[i].variable_id.as_str()) {
            valid.push(copy_string(&variables[i].variable_id));
        }
        assert(views(valid@) =~= valid_variable_ids(variables@, i + 1));
        assert(workflow_issues_view(issues@) =~= before + variable_pass(variables@, i + 1));
        i = i + 1;
    }
    let ghost s1 = workflow_issues_view(issues@);
    let mut i: usize = 0;
    assert(s1 =~= s1 + expression_pass(variables@, 0));
    while i < n
        invariant
            n == variables@.len(),
            i <= n,
            workflow_issues_view(issues@) == s1 + expression_pass(variables@, i as int),
        decreases n - i,
    {
        check_expression(issues, variables, i);
        assert(workflow_issues_view(issues@) =~= s1 + expression_pass(variables@, i + 1));
        i = i + 1;
    }
    let ghost s2 = workflow_issues_view(issues@);
    let mut with_expression: Vec<String> = Vec::new();
    let mut i: usize = 0;
    assert(views(with_expression@) =~= expression_variable_ids(variables@, 0));
    while i < n
        invariant
            n == variables@.len(),
            i <= n,
            views(with_expression@) == expression_variable_ids(variables@, i as int),
        decreases n - i,
    {
        if variables[i].expression.is_some() {
            with_expression.push(copy_string(&variables[i].variable_id));
        }
        assert(views(with_expression@) =~= expression_variable_ids(variables@, i + 1));
        i = i + 1;
    }
    let keys = sort_distinct(with_expression);
    let ghost ks = views(keys@);
    proof {
        lemma_sorted_distinct_props(expression_variable_ids(variables@, n as int));
    }
    let d = reads_matrix(variables);
    let mut k: usize = 0;
    assert(s2 =~= s2 + cycle_issues(variables@, ks, 0));
    while k < keys.len()
        invariant
            n == variables@.len(),
            k <= keys@.len(),
            ks == views(keys@),
            ks == sorted_distinct(expression_variable_ids(variables@, n as int)),
            forall|x: Seq<char>| ks.contains(x) <==> expression_variable_ids(variables@, n as int).contains(x),
            d@.len() == n,
            forall|q: int| 0 <= q < n ==> (#[trigger] d@[q])@.len() == n,
            forall|q: int, t: int|
                0 <= q < n && 0 <= t < n ==> (#[trigger] d@[q]@[t]) == reads_variable(
                    variables@,
                    variables@[q].variable_id@,
                    variables@[t].variable_id@,
                ),
            workflow_issues_view(issues@) == s2 + cycle_issues(variables@, ks, k as nat),
        decreases keys@.len() - k,
    {
        let key = keys[k].as_str();
        assert(ks[k as int] == key@);
        assert(ks.contains(key@));
        proof {
            lemma_expression_ids_known(variables@, n as int, key@);
            lemma_last_variable(variables@, key@, n as int);
        }
        let cyclic = match find_variable(variables, key) {
            Some(p) => variable_in_cycle(variables, &d, p),
            None => false,
        };
        push_found(
            issues,
            cyclic,
            "variable_dependency_cycle",
            "variables",
            concat("variable dependency cycle includes ", key),
        );
        assert(workflow_issues_view(issues@) =~= s2 + cycle_issues(variables@, ks, (k + 1) as nat));
        k = k + 1;
    }
    assert(workflow_issues_view(issues@) =~= before + variable_issues(variables@));
    sort_distinct(valid)
}

// ---------------------------------------------------------------------------
// Parameter profiles
// ---------------------------------------------------------------------------

/// A named set of values for the variables of a method. As in a map, a variable named
/// twice keeps its last value.
#[derive(Debug)]
pub struct ParameterProfileDefinition {
    pub profile_id: String,
    pub label: String,
    pub values: Vec<(String, VariableDefaultValue)>,
}

pub open spec fn profile_keys(values: Seq<(String, VariableDefaultValue)>) -> Seq<Seq<char>> {
    values.map_values(|e: (String, VariableDefaultValue)| e.0@)
}

pub open spec fn profile_id_repeats(profiles: Seq<ParameterProfileDefinition>, i: int) -> bool {
    exists|j: int| 0 <= j < i && (#[trigger] profiles[j]).profile_id@ == profiles[i].profile_id@
}

/// A finding for each of the first `n` variables named by a profile (once each, in
/// increasing order) that the method does not declare.
pub open spec fn unknown_profile_variables(
    keys: Seq<Seq<char>>,
    variable_ids: Seq<Seq<char>>,
    n: nat,
) -> Seq<WorkflowIssueView>
    decreases n,
{
    if n == 0 || n > keys.len() {
        seq![]
    } else {
        unknown_profile_variables(keys, variable_ids, (n - 1) as nat) + when_found(
            !variable_ids.contains(keys[n - 1]),
            wissue(
                "unknown_profile_variable",
                "parameter_profiles[].values",
                "parameter profile references unknown variable "@ + keys[n - 1],
            ),
        )
    }
}

/// The checks of the profile at `i`: its identifier, a stable token not used before,
/// then each variable it names.
pub open spec fn profile_checks(
    profiles: Seq<ParameterProfileDefinition>,
    variable_ids: Seq<Seq<char>>,
    i: int,
) -> Seq<WorkflowIssueView> {
    let p = profiles[i];
    let keys = sorted_distinct(profile_keys(p.values@));
    when_found(
        !stable_token(p.profile_id@) || profile_id_repeats(profiles, i),
        wissue(
            "invalid_or_duplicate_parameter_profile",
            "parameter_profiles",
            "invalid or duplicate profile "@ + p.profile_id@,
        ),
    ) + unknown_profile_variables(keys, variable_ids, keys.len())
}

pub open spec fn profile_pass(
    profiles: Seq<ParameterProfileDefinition>,
    variable_ids: Seq<Seq<char>>,
    n: int,
) -> Seq<WorkflowIssueView>
    decreases n,
{
    if n <= 0 {
        seq![]
    } else {
        profile_pass(profiles, variable_ids, n - 1) + profile_checks(profiles, variable_ids, n - 1)
    }
}

fn check_profile(
    issues: &mut Vec<MethodWorkflowValidationIssue>,
    profiles: &[ParameterProfileDefinition],
    variable_ids: &Vec<String>,
    i: usize,
)
    requires
        i < profiles@.len(),
    ensures
        workflow_issues_view(final(issues)@) == workflow_issues_view(old(issues)@)
            + profile_checks(profiles@, views(variable_ids@), i as int),
{
    let ghost before = workflow_issues_view(issues@);
    let p = &profiles[i];
    let mut repeats = false;
    let mut j: usize = 0;
    while j < i
        invariant
            i < profiles@.len(),
            j <= i,
            p == &profiles@[i as int],
            repeats == exists|m: int| 0 <= m < j && (#[trigger] profiles@[m]).profile_id@
                == profiles@[i as int].profile_id@,
        decreases i - j,
    {
        if str_eq(profiles[j].profile_id.as_str(), p.profile_id.as_str()) {
            repeats = true;
        }
        j = j + 1;
    }
    push_found(
        issues,
        !valid_token(p.profile_id.as_str()) || repeats,
        "invalid_or_duplicate_parameter_profile",
        "parameter_profiles",
        concat("invalid or duplicate profile ", p.profile_id.as_str()),
    );
    let ghost s1 = workflow_issues_view(issues@);
    let mut names: Vec<String> = Vec::new();
    let mut k: usize = 0;
    while k < p.values.len()
        invariant
            p == &profiles@[i as int],
            k <= p.values@.len(),
            views(names@) == profile_keys(p.values@).take(k as int),
        decreases p.values@.len() - k,
    {
        names.push(copy_string(&p.values[k].0));
        assert(profile_keys(p.values@).take(k + 1) =~= profile_keys(p.values@).take(k as int).push(
            p.values@[k as int].0@,
        ));
        assert(views(names@) =~= profile_keys(p.values@).take(k + 1));
        k = k + 1;
    }
    assert(profile_keys(p.values@).take(p.values@.len() as int) =~= profile_keys(p.values@));
    let keys = sort_distinct(names);
    let ghost ks = views(keys@);
    let mut k: usize = 0;
    assert(s1 =~= s1 + unknown_profile_variables(ks, views(variable_ids@), 0));
    while k < keys.len()
        invariant
            k <= keys@.len(),
            ks == views(keys@),
            workflow_issues_view(issues@) == s1 + unknown_profile_variables(
                ks,
                views(variable_ids@),
                k as nat,
            ),
        decreases keys@.len() - k,
    {
        assert(ks[k as int] == keys@[k as int]@);
        proof {
            lemma_listed_views(variable_ids@, keys@[k as int]@);
        }
        push_found(
            issues,
            !text_listed(variable_ids, keys[k].as_str()),
            "unknown_profile_variable",
            "parameter_profiles[].values",
            concat("parameter profile references unknown variable ", keys[k].as_str()),
        );
        assert(workflow_issues_view(issues@) =~= s1 + unknown_profile_variables(
            ks,
            views(variable_ids@),
            (k + 1) as nat,
        ));
        k = k + 1;
    }
    assert(workflow_issues_view(issues@) =~= before + profile_checks(
        profiles@,
        views(variable_ids@),
        i as int,
    ));
}

/// Checks the parameter profiles of a method against the identifiers of its variables:
/// each profile in turn (see `profile_checks`).
pub fn validate_parameter_profiles(
    profiles: &[ParameterProfileDefinition],
    variable_ids: &Vec<String>,
    issues: &mut Vec<MethodWorkflowValidationIssue>,
)
    ensures
        workflow_issues_view(final(issues)@) == workflow_issues_view(old(issues)@) + profile_pass(
            profiles@,
            views(variable_ids@),
            profiles@.len() as int,
        ),
{
    let ghost before = workflow_issues_view(issues@);
    let mut i: usize = 0;
    assert(before =~= before + profile_pass(profiles@, views(variable_ids@), 0));
    while i < profiles.len()
        invariant
            i <= profiles@.len(),
            workflow_issues_view(issues@) == before + profile_pass(
                profiles@,
                views(variable_ids@),
                i as int,
            ),
        decreases profiles@.len() - i,
    {
        check_profile(issues, profiles, variable_ids, i);
        assert(workflow_issues_view(issues@) =~= before + profile_pass(
            profiles@,
            views(variable_ids@),
            i + 1,
        ));
        i = i + 1;
    }
}

} // verus!
