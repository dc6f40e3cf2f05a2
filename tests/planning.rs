use opti_sql::expr::{ResolutionError, UnresolvedExpr};
use opti_sql::plan::{build_projection, scan, Catalog, PlanError, PlanNode, Relation};
use opti_sql::portable::{from_portable, to_portable, PortableExpr, PortableNode, TranslationError};
use opti_sql::query::{basic_project, CompileError};
use opti_sql::types::{BinOp, Field, TypeTag};

fn example_schema() -> Vec<Field> {
    vec![
        Field::new("name".to_string(), TypeTag::Utf8String),
        Field::new("age".to_string(), TypeTag::Integer64),
        Field::new("salary".to_string(), TypeTag::Integer64),
    ]
}

fn example_catalog() -> Catalog {
    Catalog::new(vec![Relation { name: "example".to_string(), schema: example_schema() }])
}

fn col(c: &str) -> UnresolvedExpr {
    UnresolvedExpr::Column(c.to_string())
}

fn alias(e: UnresolvedExpr, n: &str) -> UnresolvedExpr {
    UnresolvedExpr::Alias(Box::new(e), n.to_string())
}

fn names(s: &[Field]) -> Vec<String> {
    s.iter().map(|f| f.name.clone()).collect()
}

fn example_scan() -> PlanNode {
    scan(&example_catalog(), &"example".to_string()).unwrap()
}

#[test]
fn scan_snapshots_catalog_columns() {
    let p = example_scan();
    assert_eq!(names(p.schema()), vec!["name", "age", "salary"]);
    let r = scan(&example_catalog(), &"missing".to_string());
    assert!(matches!(r, Err(PlanError::UnknownRelation(n)) if n == "missing"));
}

#[test]
fn projection_selects_columns() {
    let p = build_projection(example_scan(), &vec![col("name"), col("salary")]).unwrap();
    assert_eq!(names(p.schema()), vec!["name", "salary"]);
    assert_eq!(p.schema()[1].tag, TypeTag::Integer64);
}

#[test]
fn reselected_column_without_alias_is_a_duplicate() {
    let r = build_projection(example_scan(), &vec![col("salary"), col("name"), alias(col("salary"), "s1")]);
    assert!(matches!(r, Err(PlanError::DuplicateOutputName { position: 2, name }) if name == "s1"));
}

#[test]
fn reselected_column_with_aliases_succeeds() {
    let p = build_projection(
        example_scan(),
        &vec![alias(col("salary"), "s0"), col("name"), alias(col("salary"), "s1")],
    )
    .unwrap();
    assert_eq!(names(p.schema()), vec!["s0", "name", "s1"]);
}

#[test]
fn same_output_name_twice_is_a_duplicate() {
    let r = build_projection(example_scan(), &vec![col("age"), col("age")]);
    assert!(matches!(r, Err(PlanError::DuplicateOutputName { position: 1, .. })));
    let r = build_projection(example_scan(), &vec![alias(col("age"), "x"), alias(col("name"), "x")]);
    assert!(matches!(r, Err(PlanError::DuplicateOutputName { position: 1, .. })));
}

#[test]
fn aliases_are_not_visible_to_siblings() {
    let r = build_projection(example_scan(), &vec![alias(col("age"), "a"), col("a")]);
    assert!(matches!(
        r,
        Err(PlanError::Resolution { position: 1, error: ResolutionError::UnknownColumn(_) })
    ));
}

#[test]
fn first_failing_expression_is_reported() {
    let r = build_projection(example_scan(), &vec![col("name"), col("bonus"), col("zzz")]);
    assert!(matches!(
        r,
        Err(PlanError::Resolution { position: 1, error: ResolutionError::UnknownColumn(c) }) if c == "bonus"
    ));
}

#[test]
fn literal_only_projection() {
    let one = UnresolvedExpr::Literal("1".to_string());
    let p = build_projection(example_scan(), &vec![alias(one, "greatest_number")]).unwrap();
    assert_eq!(names(p.schema()), vec!["greatest_number"]);
    assert_eq!(p.schema()[0].tag, TypeTag::Integer64);
}

#[test]
fn abs_query_end_to_end() {
    let exprs = vec![UnresolvedExpr::Call("ABS".to_string(), vec![col("age")])];
    let (p, x) = basic_project(&example_catalog(), &"example".to_string(), &exprs).unwrap();
    assert_eq!(names(p.schema()), vec!["abs(age)"]);
    assert_eq!(p.schema()[0].tag, TypeTag::Integer64);
    match x {
        PortableNode::Project { input, exprs, fields } => {
            assert!(matches!(*input, PortableNode::Read { ref table, .. } if table == "example"));
            assert_eq!(names(&fields), vec!["abs(age)"]);
            match &exprs[0] {
                PortableExpr::ScalarFunction { name, args, result_type } => {
                    assert_eq!(name, "abs");
                    assert_eq!(*result_type, TypeTag::Integer64);
                    assert!(matches!(&args[0], PortableExpr::FieldRef { index: 1, name, tag: TypeTag::Integer64 } if name == "age"));
                }
                _ => panic!("expected a scalar function"),
            }
        }
        _ => panic!("expected a projection"),
    }
}

#[test]
fn query_on_unknown_relation_fails() {
    let r = basic_project(&example_catalog(), &"nothing".to_string(), &vec![col("age")]);
    assert!(matches!(r, Err(CompileError::Plan(PlanError::UnknownRelation(_)))));
    let r = basic_project(&example_catalog(), &"example".to_string(), &vec![col("age"), col("age")]);
    assert!(matches!(r, Err(CompileError::Plan(PlanError::DuplicateOutputName { .. }))));
}

fn mixed_plan() -> PlanNode {
    let exprs = vec![
        alias(UnresolvedExpr::Call("upper".to_string(), vec![col("name")]), "upper_name"),
        alias(
            UnresolvedExpr::Binary(
                BinOp::Mul,
                Box::new(col("salary")),
                Box::new(UnresolvedExpr::Literal("1.1".to_string())),
            ),
            "increased_salary",
        ),
        UnresolvedExpr::Call(
            "substring".to_string(),
            vec![col("name"), UnresolvedExpr::Literal("1".to_string()), UnresolvedExpr::Literal("3".to_string())],
        ),
    ];
    build_projection(example_scan(), &exprs).unwrap()
}

#[test]
fn portable_round_trip_gives_the_same_plan() {
    let p = mixed_plan();
    let x = to_portable(&p).unwrap();
    let q = from_portable(&x, &example_catalog()).unwrap();
    assert_eq!(format!("{:?}", p), format!("{:?}", q));
    let nested = build_projection(p, &vec![col("upper_name")]).unwrap();
    let x = to_portable(&nested).unwrap();
    let q = from_portable(&x, &example_catalog()).unwrap();
    assert_eq!(format!("{:?}", nested), format!("{:?}", q));
}

#[test]
fn portable_translation_is_deterministic() {
    let p = mixed_plan();
    let a = to_portable(&p).unwrap();
    let b = to_portable(&p).unwrap();
    assert_eq!(format!("{:?}", a), format!("{:?}", b));
}

#[test]
fn literal_keeps_its_type_in_portable_form() {
    let p = build_projection(example_scan(), &vec![UnresolvedExpr::Literal("3.14".to_string())]).unwrap();
    match to_portable(&p).unwrap() {
        PortableNode::Project { exprs, .. } => {
            assert!(matches!(&exprs[0], PortableExpr::Literal { text, tag: TypeTag::Float64 } if text == "3.14"));
        }
        _ => panic!("expected a projection"),
    }
}

#[test]
fn reading_back_needs_the_relation() {
    let x = to_portable(&mixed_plan()).unwrap();
    let r = from_portable(&x, &Catalog::new(vec![]));
    assert!(matches!(r, Err(TranslationError::UnknownRelation(t)) if t == "example"));
}

#[test]
fn reading_back_checks_the_columns() {
    let x = to_portable(&mixed_plan()).unwrap();
    let other = Catalog::new(vec![Relation {
        name: "example".to_string(),
        schema: vec![Field::new("name".to_string(), TypeTag::Utf8String)],
    }]);
    let r = from_portable(&x, &other);
    assert!(matches!(r, Err(TranslationError::SchemaMismatch(t)) if t == "example"));
}

fn read_example() -> Box<PortableNode> {
    Box::new(PortableNode::Read { table: "example".to_string(), fields: example_schema() })
}

#[test]
fn reading_back_checks_field_references() {
    let x = PortableNode::Project {
        input: read_example(),
        exprs: vec![PortableExpr::FieldRef { index: 0, name: "age".to_string(), tag: TypeTag::Integer64 }],
        fields: vec![Field::new("age".to_string(), TypeTag::Integer64)],
    };
    assert!(matches!(from_portable(&x, &example_catalog()), Err(TranslationError::InvalidFieldRef(0))));
    let x = PortableNode::Project {
        input: read_example(),
        exprs: vec![PortableExpr::FieldRef { index: 7, name: "age".to_string(), tag: TypeTag::Integer64 }],
        fields: vec![Field::new("age".to_string(), TypeTag::Integer64)],
    };
    assert!(matches!(from_portable(&x, &example_catalog()), Err(TranslationError::InvalidFieldRef(7))));
}

#[test]
fn reading_back_checks_function_names() {
    let arg = PortableExpr::FieldRef { index: 1, name: "age".to_string(), tag: TypeTag::Integer64 };
    let x = PortableNode::Project {
        input: read_example(),
        exprs: vec![PortableExpr::ScalarFunction {
            name: "ABS".to_string(),
            args: vec![arg],
            result_type: TypeTag::Integer64,
        }],
        fields: vec![Field::new("abs(age)".to_string(), TypeTag::Integer64)],
    };
    assert!(matches!(from_portable(&x, &example_catalog()), Err(TranslationError::UnknownFunction(n)) if n == "ABS"));
}

#[test]
fn reading_back_checks_projection_columns() {
    let age = || PortableExpr::FieldRef { index: 1, name: "age".to_string(), tag: TypeTag::Integer64 };
    let x = PortableNode::Project {
        input: read_example(),
        exprs: vec![age(), age()],
        fields: vec![
            Field::new("age".to_string(), TypeTag::Integer64),
            Field::new("age".to_string(), TypeTag::Integer64),
        ],
    };
    assert!(matches!(from_portable(&x, &example_catalog()), Err(TranslationError::MalformedProjection)));
    let x = PortableNode::Project {
        input: read_example(),
        exprs: vec![age()],
        fields: vec![],
    };
    assert!(matches!(from_portable(&x, &example_catalog()), Err(TranslationError::MalformedProjection)));
}
