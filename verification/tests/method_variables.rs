use emc_locus::method_variables::{
    contains_literal_zero_denominator, expression_dimension, expression_references,
    validate_variables, DeterministicExpression, MethodVariableDefinition,
};
use emc_locus::method_workflow::{
    AvailabilityPhase, MethodVariableSemantic, MethodWorkflowValidationIssue, QuantityDimension,
};
use emc_locus::test_definitions::{VariableDefaultValue, VariableValueType};

fn variable(id: &str, semantic: MethodVariableSemantic, unit: &str) -> MethodVariableDefinition {
    MethodVariableDefinition {
        variable_id: id.to_owned(),
        label: id.replace('_', " "),
        description: format!("Variable {id}"),
        semantic,
        value_type: VariableValueType::Number,
        dimension: if unit == "dB" { QuantityDimension::Ratio } else { QuantityDimension::Frequency },
        unit: Some(unit.to_owned()),
        default_value: Some(VariableDefaultValue::Number),
        range_inverted: false,
        enum_values: Vec::new(),
        required: true,
        source: "laboratory_method".to_owned(),
        availability_phase: AvailabilityPhase::Preparation,
        expression: None,
        consumers: Vec::new(),
    }
}

fn var(id: &str) -> DeterministicExpression {
    DeterministicExpression::Variable { variable_id: id.to_owned() }
}

fn literal(zero: bool, unit: &str) -> DeterministicExpression {
    DeterministicExpression::Literal { value_is_zero: zero, unit: unit.to_owned() }
}

fn codes(issues: &[MethodWorkflowValidationIssue]) -> Vec<(&str, &str)> {
    issues.iter().map(|issue| (issue.code.as_str(), issue.message.as_str())).collect()
}

fn cyclic_variables() -> Vec<MethodVariableDefinition> {
    let frequency = variable("frequency", MethodVariableSemantic::MethodParameter, "MHz");
    let mut left = variable("left", MethodVariableSemantic::DerivedValue, "MHz");
    left.expression = Some(var("right"));
    let mut right = variable("right", MethodVariableSemantic::DerivedValue, "MHz");
    right.expression = Some(DeterministicExpression::Divide {
        numerator: Box::new(var("left")),
        denominator: Box::new(literal(true, "1")),
    });
    vec![frequency, left, right]
}

#[test]
fn variable_checks_find_cycles_and_zero_denominators() {
    let variables = cyclic_variables();
    let mut issues = Vec::new();
    validate_variables(&variables, &mut issues);
    assert!(issues.iter().any(|issue| issue.code == "variable_dependency_cycle"));
    assert!(issues.iter().any(|issue| issue.code == "unsafe_division_by_zero"));
}

#[test]
fn cycle_and_division_findings_come_in_order() {
    let variables = cyclic_variables();
    let mut issues = Vec::new();
    let ids = validate_variables(&variables, &mut issues);
    assert_eq!(
        codes(&issues),
        vec![
            ("unsafe_division_by_zero", "right contains a literal division by zero"),
            ("variable_dependency_cycle", "variable dependency cycle includes left"),
            ("variable_dependency_cycle", "variable dependency cycle includes right"),
        ]
    );
    assert_eq!(ids, vec!["frequency", "left", "right"]);
}

#[test]
fn a_chain_without_return_is_no_cycle() {
    let mut variables = cyclic_variables();
    variables[2].expression = Some(DeterministicExpression::Multiply {
        left: Box::new(var("frequency")),
        right: Box::new(literal(false, "dB")),
    });
    let mut issues = Vec::new();
    validate_variables(&variables, &mut issues);
    assert!(issues.is_empty(), "{issues:?}");
}

#[test]
fn each_variable_defect_is_reported() {
    let mut bad = variable("bad id", MethodVariableSemantic::DerivedValue, "MHz");
    bad.label = " ".to_owned();
    bad.range_inverted = true;
    bad.unit = None;
    let mut duplicate = variable("frequency", MethodVariableSemantic::MethodParameter, "dB");
    duplicate.dimension = QuantityDimension::Frequency;
    duplicate.value_type = VariableValueType::Enum;
    duplicate.enum_values = vec!["a".to_owned(), "b".to_owned()];
    duplicate.default_value = Some(VariableDefaultValue::Text("c".to_owned()));
    let mut flag = variable("flag", MethodVariableSemantic::MethodParameter, "MHz");
    flag.default_value = Some(VariableDefaultValue::Boolean(true));
    let variables = vec![
        variable("frequency", MethodVariableSemantic::MethodParameter, "MHz"),
        bad,
        duplicate,
        flag,
    ];
    let mut issues = Vec::new();
    let ids = validate_variables(&variables, &mut issues);
    assert_eq!(
        codes(&issues),
        vec![
            ("invalid_or_duplicate_variable_id", "invalid or duplicate variable ID: bad id"),
            ("missing_required_text", "variables[].label is required"),
            ("invalid_variable_range", "minimum exceeds maximum for bad id"),
            ("missing_variable_unit", "bad id requires an explicit unit"),
            ("missing_derived_expression", "derived variable bad id requires an expression"),
            ("invalid_or_duplicate_variable_id", "invalid or duplicate variable ID: frequency"),
            ("incompatible_variable_unit", "unit dB is incompatible with frequency"),
            ("enum_default_not_allowed", "enum default is not allowed for frequency"),
            ("variable_default_type_mismatch", "default value type does not match flag"),
        ]
    );
    assert_eq!(ids, vec!["flag", "frequency"]);
}

#[test]
fn expression_references_are_checked_for_existence_phase_and_dimension() {
    let mut early = variable("early", MethodVariableSemantic::DerivedValue, "MHz");
    early.expression = Some(DeterministicExpression::Add {
        operands: vec![var("late"), var("missing"), var("late")],
    });
    let mut late = variable("late", MethodVariableSemantic::MethodParameter, "MHz");
    late.availability_phase = AvailabilityPhase::Execution;
    let mut gain = variable("gain", MethodVariableSemantic::DerivedValue, "dB");
    gain.expression = Some(var("late"));
    gain.availability_phase = AvailabilityPhase::Verdict;
    let variables = vec![early, late, gain];
    let mut issues = Vec::new();
    validate_variables(&variables, &mut issues);
    assert_eq!(
        codes(&issues),
        vec![
            ("variable_not_available_in_phase", "late is not available when early is evaluated"),
            ("unknown_expression_variable", "early references unknown variable missing"),
            ("expression_unit_mismatch", "expression dimension does not match gain"),
        ]
    );
}

#[test]
fn dimensions_follow_the_algebra_of_expressions() {
    let variables = cyclic_variables();
    let ratio = DeterministicExpression::Divide {
        numerator: Box::new(var("frequency")),
        denominator: Box::new(var("left")),
    };
    assert_eq!(expression_dimension(&ratio, &variables), Ok(QuantityDimension::Dimensionless));
    let product = DeterministicExpression::Multiply {
        left: Box::new(var("frequency")),
        right: Box::new(var("left")),
    };
    assert_eq!(
        expression_dimension(&product, &variables),
        Err("multiplication is limited to a scalar and one physical quantity".to_owned())
    );
    let scaled = DeterministicExpression::Multiply {
        left: Box::new(literal(false, "%")),
        right: Box::new(var("frequency")),
    };
    assert_eq!(expression_dimension(&scaled, &variables), Ok(QuantityDimension::Frequency));
    let mixed = DeterministicExpression::Maximum { operands: vec![var("frequency"), literal(false, "V")] };
    assert_eq!(
        expression_dimension(&mixed, &variables),
        Err("expression combines incompatible dimensions".to_owned())
    );
    let empty = DeterministicExpression::Minimum { operands: Vec::new() };
    assert_eq!(
        expression_dimension(&empty, &variables),
        Err("expression requires at least one operand".to_owned())
    );
    assert_eq!(
        expression_dimension(&literal(false, "furlong"), &variables),
        Err("unsupported expression unit furlong".to_owned())
    );
    assert_eq!(
        expression_dimension(&var("nowhere"), &variables),
        Err("unknown expression variable nowhere".to_owned())
    );
    let difference = DeterministicExpression::Subtract {
        left: Box::new(var("frequency")),
        right: Box::new(literal(false, "V")),
    };
    assert_eq!(
        expression_dimension(&difference, &variables),
        Err("subtraction requires compatible dimensions".to_owned())
    );
}

#[test]
fn references_are_distinct_and_ordered() {
    let expression = DeterministicExpression::Subtract {
        left: Box::new(DeterministicExpression::Add { operands: vec![var("b"), var("a"), var("b")] }),
        right: Box::new(DeterministicExpression::Divide {
            numerator: Box::new(var("c")),
            denominator: Box::new(literal(false, "1")),
        }),
    };
    assert_eq!(expression_references(&expression), vec!["a", "b", "c"]);
    assert!(!contains_literal_zero_denominator(&expression));
    let nested = DeterministicExpression::Maximum {
        operands: vec![var("a"), DeterministicExpression::Divide {
            numerator: Box::new(var("a")),
            denominator: Box::new(literal(true, "1")),
        }],
    };
    assert!(contains_literal_zero_denominator(&nested));
}

use emc_locus::method_variables::{validate_parameter_profiles, ParameterProfileDefinition};

fn profile(id: &str, names: &[&str]) -> ParameterProfileDefinition {
    ParameterProfileDefinition {
        profile_id: id.to_owned(),
        label: format!("Profil {id}"),
        values: names
            .iter()
            .map(|name| ((*name).to_owned(), VariableDefaultValue::Integer(1)))
            .collect(),
    }
}

#[test]
fn parameter_profiles_name_known_variables_once() {
    let known = vec!["frequency".to_owned(), "level".to_owned()];
    let profiles = vec![
        profile("quick", &["level", "frequency"]),
        profile("quick", &["zeta", "level", "alpha", "zeta"]),
        profile("bad profile", &[]),
    ];
    let mut issues = Vec::new();
    validate_parameter_profiles(&profiles, &known, &mut issues);
    assert_eq!(
        codes(&issues),
        vec![
            ("invalid_or_duplicate_parameter_profile", "invalid or duplicate profile quick"),
            ("unknown_profile_variable", "parameter profile references unknown variable alpha"),
            ("unknown_profile_variable", "parameter profile references unknown variable zeta"),
            ("invalid_or_duplicate_parameter_profile", "invalid or duplicate profile bad profile"),
        ]
    );
}
