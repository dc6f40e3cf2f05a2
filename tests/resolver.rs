use opti_sql::expr::{resolve, Expression, ResolutionError, UnresolvedExpr};
use opti_sql::types::{classify_literal, BinOp, Builtin, Field, TypeTag};

fn example_schema() -> Vec<Field> {
    vec![
        Field::new("name".to_string(), TypeTag::Utf8String),
        Field::new("age".to_string(), TypeTag::Integer64),
        Field::new("salary".to_string(), TypeTag::Integer64),
    ]
}

fn lit(t: &str) -> UnresolvedExpr {
    UnresolvedExpr::Literal(t.to_string())
}

fn col(c: &str) -> UnresolvedExpr {
    UnresolvedExpr::Column(c.to_string())
}

fn bin(op: BinOp, l: UnresolvedExpr, r: UnresolvedExpr) -> UnresolvedExpr {
    UnresolvedExpr::Binary(op, Box::new(l), Box::new(r))
}

fn call(n: &str, args: Vec<UnresolvedExpr>) -> UnresolvedExpr {
    UnresolvedExpr::Call(n.to_string(), args)
}

#[test]
fn literal_types_follow_lexical_form() {
    assert_eq!(classify_literal("5"), Some(TypeTag::Integer64));
    assert_eq!(classify_literal("-17"), Some(TypeTag::Integer64));
    assert_eq!(classify_literal("2.4"), Some(TypeTag::Float64));
    assert_eq!(classify_literal("-3.14"), Some(TypeTag::Float64));
    assert_eq!(classify_literal("'hello'"), Some(TypeTag::Utf8String));
    assert_eq!(classify_literal("''"), Some(TypeTag::Utf8String));
    assert_eq!(classify_literal("true"), Some(TypeTag::Boolean));
    assert_eq!(classify_literal("FALSE"), Some(TypeTag::Boolean));
    assert_eq!(classify_literal("NULL"), Some(TypeTag::Null));
}

#[test]
fn malformed_literals_are_rejected() {
    assert_eq!(classify_literal(""), None);
    assert_eq!(classify_literal("-"), None);
    assert_eq!(classify_literal("1."), None);
    assert_eq!(classify_literal(".5"), None);
    assert_eq!(classify_literal("1.2.3"), None);
    assert_eq!(classify_literal("abc"), None);
    assert_eq!(classify_literal("'open"), None);
    let r = resolve(&lit("12a"), &example_schema());
    assert!(matches!(r, Err(ResolutionError::InvalidLiteral(t)) if t == "12a"));
}

#[test]
fn literal_type_is_independent_of_schema() {
    for t in ["5", "2.4", "'x'", "true", "null"] {
        let a = resolve(&lit(t), &Vec::new()).unwrap();
        let b = resolve(&lit(t), &example_schema()).unwrap();
        assert_eq!(a.type_tag(), b.type_tag());
        assert_eq!(a.output_name(), t);
    }
}

#[test]
fn column_resolves_to_its_position() {
    let e = resolve(&col("age"), &example_schema()).unwrap();
    match e {
        Expression::ColumnRef { name, index, tag } => {
            assert_eq!(name, "age");
            assert_eq!(index, 1);
            assert_eq!(tag, TypeTag::Integer64);
        }
        _ => panic!("expected a column reference"),
    }
}

#[test]
fn missing_column_is_unknown() {
    let r = resolve(&col("bonus"), &example_schema());
    assert!(matches!(r, Err(ResolutionError::UnknownColumn(c)) if c == "bonus"));
    let r = resolve(&col("age"), &Vec::new());
    assert!(matches!(r, Err(ResolutionError::UnknownColumn(_))));
}

#[test]
fn repeated_column_is_ambiguous() {
    let mut s = example_schema();
    s.push(Field::new("age".to_string(), TypeTag::Float64));
    let r = resolve(&col("age"), &s);
    assert!(matches!(r, Err(ResolutionError::AmbiguousColumn(c)) if c == "age"));
    let e = resolve(&col("name"), &s).unwrap();
    assert_eq!(e.type_tag(), TypeTag::Utf8String);
}

#[test]
fn integer_addition_stays_integer() {
    let e = resolve(&bin(BinOp::Add, col("age"), lit("5")), &example_schema()).unwrap();
    assert!(matches!(e, Expression::BinaryOp { op: BinOp::Add, result_type: TypeTag::Integer64, .. }));
    assert_eq!(e.output_name(), "age + 5");
}

#[test]
fn float_operand_promotes_to_float() {
    let e = resolve(&bin(BinOp::Mul, col("salary"), lit("2.4")), &example_schema()).unwrap();
    assert_eq!(e.type_tag(), TypeTag::Float64);
    assert_eq!(e.output_name(), "salary * 2.4");
}

#[test]
fn division_promotes_to_float() {
    let e = resolve(&bin(BinOp::Div, col("salary"), col("age")), &example_schema()).unwrap();
    assert_eq!(e.type_tag(), TypeTag::Float64);
    let e = resolve(&bin(BinOp::Sub, lit("5"), lit("10")), &example_schema()).unwrap();
    assert_eq!(e.type_tag(), TypeTag::Integer64);
}

#[test]
fn nested_arithmetic_is_typed() {
    let inner = bin(BinOp::Sub, col("salary"), col("age"));
    let e = resolve(&bin(BinOp::Mul, inner, lit("1.08")), &example_schema()).unwrap();
    assert_eq!(e.type_tag(), TypeTag::Float64);
    assert_eq!(e.output_name(), "salary - age * 1.08");
}

#[test]
fn arithmetic_on_text_is_a_type_mismatch() {
    let r = resolve(&bin(BinOp::Add, col("name"), lit("1")), &example_schema());
    assert!(matches!(r, Err(ResolutionError::TypeMismatch(BinOp::Add))));
    let r = resolve(&bin(BinOp::Mul, lit("null"), lit("1")), &example_schema());
    assert!(matches!(r, Err(ResolutionError::TypeMismatch(BinOp::Mul))));
}

#[test]
fn operand_error_comes_before_type_check() {
    let r = resolve(&bin(BinOp::Add, col("name"), col("bonus")), &example_schema());
    assert!(matches!(r, Err(ResolutionError::UnknownColumn(c)) if c == "bonus"));
}

#[test]
fn abs_keeps_integer_type() {
    let e = resolve(&call("ABS", vec![col("age")]), &example_schema()).unwrap();
    assert!(matches!(e, Expression::FunctionCall { func: Builtin::Abs, result_type: TypeTag::Integer64, .. }));
    assert_eq!(e.output_name(), "abs(age)");
}

#[test]
fn upper_of_text_is_text() {
    let e = resolve(&call("UPPER", vec![col("name")]), &example_schema()).unwrap();
    assert_eq!(e.type_tag(), TypeTag::Utf8String);
    assert_eq!(e.output_name(), "upper(name)");
    let e = resolve(&call("upper", vec![lit("'richard'")]), &example_schema()).unwrap();
    assert_eq!(e.output_name(), "upper('richard')");
}

#[test]
fn upper_of_integer_is_rejected() {
    let r = resolve(&call("UPPER", vec![col("age")]), &example_schema());
    assert!(matches!(r, Err(ResolutionError::ArgumentTypeMismatch(Builtin::Upper))));
}

#[test]
fn other_builtins_are_typed() {
    let s = example_schema();
    let e = resolve(&call("substring", vec![col("name"), lit("1"), lit("3")]), &s).unwrap();
    assert_eq!(e.type_tag(), TypeTag::Utf8String);
    assert_eq!(e.output_name(), "substring(name, 1, 3)");
    let e = resolve(&call("Length", vec![col("name")]), &s).unwrap();
    assert_eq!(e.type_tag(), TypeTag::Integer64);
    let e = resolve(&call("round", vec![col("age")]), &s).unwrap();
    assert_eq!(e.type_tag(), TypeTag::Float64);
    let e = resolve(&call("lower", vec![col("name")]), &s).unwrap();
    assert_eq!(e.type_tag(), TypeTag::Utf8String);
}

#[test]
fn wrong_argument_count_is_rejected() {
    let s = example_schema();
    let r = resolve(&call("abs", vec![]), &s);
    assert!(matches!(r, Err(ResolutionError::ArgumentTypeMismatch(Builtin::Abs))));
    let r = resolve(&call("substring", vec![col("name")]), &s);
    assert!(matches!(r, Err(ResolutionError::ArgumentTypeMismatch(Builtin::Substring))));
    let r = resolve(&call("substring", vec![col("name"), lit("'a'")]), &s);
    assert!(matches!(r, Err(ResolutionError::ArgumentTypeMismatch(Builtin::Substring))));
}

#[test]
fn unknown_function_is_rejected() {
    let r = resolve(&call("greatest", vec![col("age")]), &example_schema());
    assert!(matches!(r, Err(ResolutionError::UnknownFunction(n)) if n == "greatest"));
}

#[test]
fn alias_renames_without_retyping() {
    let e = resolve(
        &UnresolvedExpr::Alias(Box::new(bin(BinOp::Add, col("age"), lit("5"))), "new_age".to_string()),
        &example_schema(),
    )
    .unwrap();
    assert_eq!(e.output_name(), "new_age");
    assert_eq!(e.base_name(), "age + 5");
    assert!(e.is_alias());
    assert_eq!(e.type_tag(), TypeTag::Integer64);
}

#[test]
fn builtin_lookup_ignores_case() {
    assert_eq!(Builtin::lookup("AbS"), Some(Builtin::Abs));
    assert_eq!(Builtin::lookup("SUBSTRING"), Some(Builtin::Substring));
    assert_eq!(Builtin::lookup("abs "), None);
    assert_eq!(Builtin::Round.name(), "round");
}
