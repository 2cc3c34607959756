//! Row evaluation: memoization, dependency resolution and errors.

use mockagen::ast;
use mockagen::{evaluate_mockagen, Bindings, Context, EvaluationError, GeneratorEnum, IntegerRangeGen, LiteralGen, OutValue};

fn literal_value(text: &str) -> ast::Value {
    ast::Value::Primitive(ast::PrimitiveValue::Literal(ast::LiteralValue(
        ast::StringLiteral(ast::StringContent(text.to_string())),
    )))
}

fn identifier_value(name: &str) -> ast::Value {
    ast::Value::HigherOrder(ast::HigherOrderValue::IdentifierValue(ast::IdentifierValue(
        ast::Identifier(name.to_string()),
    )))
}

fn join_value(parts: Vec<ast::Value>) -> ast::Value {
    ast::Value::HigherOrder(ast::HigherOrderValue::JoinValue(ast::JoinValue(parts)))
}

fn single_def(name: &str, value: ast::Value) -> ast::Definition {
    ast::Definition::Single(ast::SingleDefinition::SingleVal(ast::SingleValDef(
        ast::Identifier(name.to_string()),
        value,
    )))
}

#[test]
fn test_write_once_context() {
    // A wide integer range: two fresh draws would almost surely differ,
    // so equal reads witness the cache.
    let mut bindings = Bindings::new();
    bindings
        .add(
            "x".to_string(),
            GeneratorEnum::IntegerRange(IntegerRangeGen::new(0, i64::MAX - 1)),
        )
        .unwrap();
    let mut ctx = Context::from_bindings(bindings);
    let first = ctx.get_value("x").unwrap();
    let second = ctx.get_value("x").unwrap();
    let a = match &*first {
        OutValue::I64(v) => *v,
        _ => panic!("expected an integer"),
    };
    let b = match &*second {
        OutValue::I64(v) => *v,
        _ => panic!("expected an integer"),
    };
    assert_eq!(a, b);
}

#[test]
fn test_write_once_through_two_dependent_generators() {
    let defs = vec![
        single_def(
            "x",
            ast::Value::Primitive(ast::PrimitiveValue::Integer(ast::IntegerValue(
                ast::IntegerLiteral(0),
                Some(ast::IntegerLiteral(i64::MAX - 1)),
            ))),
        ),
        single_def("a", join_value(vec![identifier_value("x")])),
        single_def("b", join_value(vec![identifier_value("x")])),
    ];
    let bindings = evaluate_mockagen(ast::Body(None, defs, ast::EOI)).unwrap();
    let cols = bindings
        .make_column_generator(&vec!["a".to_string(), "b".to_string()])
        .unwrap();
    let row = bindings.generate_row(&cols).unwrap();
    assert_eq!(row.len(), 2);
    assert_eq!(row[0].to_display_string(), row[1].to_display_string());
}

#[test]
fn test_join_concatenates_left_to_right() {
    let defs = vec![
        single_def("first", literal_value("foo")),
        single_def(
            "joined",
            join_value(vec![
                identifier_value("first"),
                literal_value("-"),
                literal_value("bar"),
            ]),
        ),
    ];
    let bindings = evaluate_mockagen(ast::Body(None, defs, ast::EOI)).unwrap();
    let mut ctx = Context::from_bindings(bindings);
    let v = ctx.get_value("joined").unwrap();
    assert_eq!(v.to_display_string(), "foo-bar");
}

#[test]
fn test_missing_identifiers_are_aggregated() {
    let defs = vec![single_def("a", literal_value("here"))];
    let bindings = evaluate_mockagen(ast::Body(None, defs, ast::EOI)).unwrap();
    let request = vec!["a".to_string(), "missing1".to_string(), "missing2".to_string()];
    match bindings.make_column_generator(&request) {
        Err(EvaluationError::MissingIdentifiers(names)) => {
            assert_eq!(names, vec!["missing1".to_string(), "missing2".to_string()]);
        }
        _ => panic!("expected the missing identifiers to be collected"),
    }
}

#[test]
fn test_unbound_identifier() {
    let bindings = Bindings::new();
    let mut ctx = Context::from_bindings(bindings);
    match ctx.get_value("nothing") {
        Err(EvaluationError::UnboundIdentifier(name)) => assert_eq!(name, "nothing"),
        _ => panic!("expected an unbound identifier"),
    }
}

#[test]
fn test_unbound_reference_inside_generator() {
    let defs = vec![single_def("a", identifier_value("ghostly"))];
    let bindings = evaluate_mockagen(ast::Body(None, defs, ast::EOI)).unwrap();
    let mut ctx = Context::from_bindings(bindings);
    assert!(matches!(
        ctx.get_value("a"),
        Err(EvaluationError::UnboundIdentifier(_))
    ));
}

#[test]
fn test_cyclic_reference_is_detected() {
    let defs = vec![
        single_def("x", identifier_value("y")),
        single_def("y", identifier_value("x")),
    ];
    let bindings = evaluate_mockagen(ast::Body(None, defs, ast::EOI)).unwrap();
    let mut ctx = Context::from_bindings(bindings);
    assert!(matches!(
        ctx.get_value("x"),
        Err(EvaluationError::CyclicReference(_))
    ));
}

#[test]
fn test_duplicate_identifier_on_registration() {
    let defs = vec![
        single_def("twice", literal_value("one")),
        single_def("twice", literal_value("two")),
    ];
    match evaluate_mockagen(ast::Body(None, defs, ast::EOI)) {
        Err(EvaluationError::DuplicateIdentifier(name)) => assert_eq!(name, "twice"),
        _ => panic!("expected a duplicate identifier"),
    }
}

#[test]
fn test_empty_value_set_on_registration() {
    let defs = vec![ast::Definition::Single(ast::SingleDefinition::MultiVal(
        ast::MultiValDef(
            ast::Identifier("empty".into()),
            vec![],
            ast::ValueSet(vec![]),
        ),
    ))];
    assert!(matches!(
        evaluate_mockagen(ast::Body(None, defs, ast::EOI)),
        Err(EvaluationError::EmptyValueSet)
    ));
}

#[test]
fn test_merge_disjoint_registries() {
    let mut left = Bindings::new();
    left.add("a".to_string(), GeneratorEnum::Literal(LiteralGen::new("1".into())))
        .unwrap();
    let mut right = Bindings::new();
    right
        .add("b".to_string(), GeneratorEnum::Literal(LiteralGen::new("2".into())))
        .unwrap();
    left.merge(right).unwrap();
    assert_eq!(left.len(), 2);
    let mut ctx = Context::from_bindings(left);
    assert_eq!(ctx.get_value("a").unwrap().to_display_string(), "1");
    assert_eq!(ctx.get_value("b").unwrap().to_display_string(), "2");
}

#[test]
fn test_merge_rejects_shared_identifier() {
    let mut left = Bindings::new();
    left.add("a".to_string(), GeneratorEnum::Literal(LiteralGen::new("1".into())))
        .unwrap();
    let mut right = Bindings::new();
    right
        .add("a".to_string(), GeneratorEnum::Literal(LiteralGen::new("2".into())))
        .unwrap();
    assert!(matches!(
        left.merge(right),
        Err(EvaluationError::DuplicateIdentifier(_))
    ));
    assert_eq!(left.len(), 1);
}

#[test]
fn test_generate_row_discards_dependency_values() {
    let defs = vec![
        single_def("base", literal_value("b")),
        single_def("derived", join_value(vec![identifier_value("base"), literal_value("!")])),
    ];
    let bindings = evaluate_mockagen(ast::Body(None, defs, ast::EOI)).unwrap();
    let cols = bindings
        .make_column_generator(&vec!["derived".to_string()])
        .unwrap();
    let row = bindings.generate_row(&cols).unwrap();
    assert_eq!(row.len(), 1);
    assert_eq!(row[0].to_display_string(), "b!");
}
