//! Nested decision trees: depth binding, wildcard fallback and errors.

use mockagen::ast;
use mockagen::{evaluate_mockagen, EvaluationError};

fn literal_value(text: &str) -> ast::Value {
    ast::Value::Primitive(ast::PrimitiveValue::Literal(ast::LiteralValue(
        ast::StringLiteral(ast::StringContent(text.to_string())),
    )))
}

fn single_def(name: &str, value: ast::Value) -> ast::Definition {
    ast::Definition::Single(ast::SingleDefinition::SingleVal(ast::SingleValDef(
        ast::Identifier(name.to_string()),
        value,
    )))
}

fn assign_leaf(text: &str) -> ast::AssignClause {
    ast::AssignClause(
        vec![],
        ast::WeightedValues(None, ast::Values::Value(literal_value(text))),
        None,
    )
}

fn assign_with_children(text: &str, children: Vec<ast::AssignClause>) -> ast::AssignClause {
    ast::AssignClause(
        vec![],
        ast::WeightedValues(None, ast::Values::Value(literal_value(text))),
        Some(ast::AssignClauses(children)),
    )
}

fn match_clause(literal: &str, inner: ast::NestedClauses) -> ast::MatchClause {
    ast::MatchClause(
        vec![],
        ast::Matchers::MatchExpr(ast::MatchExpr::LiteralValue(ast::LiteralValue(
            ast::StringLiteral(ast::StringContent(literal.to_string())),
        ))),
        inner,
    )
}

fn nested_def(
    using: Option<Vec<&str>>,
    define: Vec<&str>,
    clauses: ast::NestedClauses,
) -> ast::Definition {
    let using_ids = using.map(|names| {
        ast::UsingIds(ast::Names(
            names.into_iter().map(|n| ast::Identifier(n.to_string())).collect(),
        ))
    });
    let assign_ids = ast::AssignIds(ast::Names(
        define.into_iter().map(|n| ast::Identifier(n.to_string())).collect(),
    ));
    ast::Definition::Nested(ast::NestedDefinition(using_ids, assign_ids, clauses))
}

/// `Using country Define region, city` with a country match arm whose
/// regions each carry their own city.
fn country_tree(arms: Vec<ast::MatchClause>, wildcard: Option<ast::NestedClauses>) -> ast::NestedClauses {
    match wildcard {
        None => ast::NestedClauses::MatchClauses(ast::MatchClauses(arms)),
        Some(w) => ast::NestedClauses::MatchClausesWithWildcard(ast::MatchClausesWithWildcard(
            ast::MatchClauses(arms),
            ast::WildcardClause(vec![], Box::new(w)),
        )),
    }
}

#[test]
fn test_nested_tree_depth_binding() {
    let uk_regions = ast::NestedClauses::AssignClauses(ast::AssignClauses(vec![
        assign_with_children("North", vec![assign_leaf("Leeds")]),
        assign_with_children("South", vec![assign_leaf("London")]),
    ]));
    let defs = vec![
        single_def("country", literal_value("UK")),
        nested_def(
            Some(vec!["country"]),
            vec!["region", "city"],
            country_tree(vec![match_clause("UK", uk_regions)], None),
        ),
    ];
    let bindings = evaluate_mockagen(ast::Body(None, defs, ast::EOI)).unwrap();
    let cols = bindings
        .make_column_generator(&vec![
            "country".to_string(),
            "region".to_string(),
            "city".to_string(),
        ])
        .unwrap();
    for _ in 0..50 {
        let row = bindings.generate_row(&cols).unwrap();
        assert_eq!(row.len(), 3);
        let country = row[0].to_display_string();
        let region = row[1].to_display_string();
        let city = row[2].to_display_string();
        assert_eq!(country, "UK");
        // The city is conditioned on the same region outcome within the
        // row.
        match region.as_str() {
            "North" => assert_eq!(city, "Leeds"),
            "South" => assert_eq!(city, "London"),
            other => panic!("unexpected region {other}"),
        }
    }
}

#[test]
fn test_wildcard_fallback() {
    let uk_regions = ast::NestedClauses::AssignClauses(ast::AssignClauses(vec![
        assign_leaf("North"),
        assign_leaf("South"),
    ]));
    let fallback = ast::NestedClauses::AssignClauses(ast::AssignClauses(vec![
        assign_leaf("Elsewhere"),
    ]));
    let defs = vec![
        single_def("country", literal_value("France")),
        nested_def(
            Some(vec!["country"]),
            vec!["region"],
            country_tree(vec![match_clause("UK", uk_regions)], Some(fallback)),
        ),
    ];
    let bindings = evaluate_mockagen(ast::Body(None, defs, ast::EOI)).unwrap();
    let cols = bindings
        .make_column_generator(&vec!["region".to_string()])
        .unwrap();
    let row = bindings.generate_row(&cols).unwrap();
    assert_eq!(row[0].to_display_string(), "Elsewhere");
}

#[test]
fn test_no_match_for_value() {
    let uk_regions = ast::NestedClauses::AssignClauses(ast::AssignClauses(vec![
        assign_leaf("North"),
    ]));
    let defs = vec![
        single_def("country", literal_value("France")),
        nested_def(
            Some(vec!["country"]),
            vec!["region"],
            country_tree(vec![match_clause("UK", uk_regions)], None),
        ),
    ];
    let bindings = evaluate_mockagen(ast::Body(None, defs, ast::EOI)).unwrap();
    let cols = bindings
        .make_column_generator(&vec!["region".to_string()])
        .unwrap();
    assert!(matches!(
        bindings.generate_row(&cols),
        Err(EvaluationError::NoMatchForValue)
    ));
}

#[test]
fn test_no_children_for_tree() {
    // The tree assigns regions without nested cities, yet `city` is
    // bound one level deeper.
    let flat_regions = ast::NestedClauses::AssignClauses(ast::AssignClauses(vec![
        assign_leaf("North"),
        assign_leaf("South"),
    ]));
    let defs = vec![
        single_def("country", literal_value("UK")),
        nested_def(
            Some(vec!["country"]),
            vec!["region", "city"],
            country_tree(vec![match_clause("UK", flat_regions)], None),
        ),
    ];
    let bindings = evaluate_mockagen(ast::Body(None, defs, ast::EOI)).unwrap();
    let cols = bindings
        .make_column_generator(&vec!["city".to_string()])
        .unwrap();
    assert!(matches!(
        bindings.generate_row(&cols),
        Err(EvaluationError::NoChildrenForTree)
    ));
}

#[test]
fn test_expected_value_found_matcher() {
    // `b` is bound at a depth that lands on a match level, not an assign
    // level.
    let inner = ast::NestedClauses::MatchClauses(ast::MatchClauses(vec![match_clause(
        "anything",
        ast::NestedClauses::AssignClauses(ast::AssignClauses(vec![assign_leaf("value")])),
    )]));
    let defs = vec![
        single_def("a", literal_value("go")),
        nested_def(
            Some(vec!["a"]),
            vec!["b", "c"],
            country_tree(vec![match_clause("go", inner)], None),
        ),
    ];
    let bindings = evaluate_mockagen(ast::Body(None, defs, ast::EOI)).unwrap();
    let cols = bindings
        .make_column_generator(&vec!["b".to_string()])
        .unwrap();
    assert!(matches!(
        bindings.generate_row(&cols),
        Err(EvaluationError::ExpectedValueFoundMatcher)
    ));
}

#[test]
fn test_invalid_match_expr_cast() {
    // An assign candidate that is not a literal cannot be restated as a
    // match predicate for deeper levels.
    let bad_assign = ast::NestedClauses::AssignClauses(ast::AssignClauses(vec![
        ast::AssignClause(
            vec![],
            ast::WeightedValues(
                None,
                ast::Values::Value(ast::Value::Primitive(ast::PrimitiveValue::Integer(
                    ast::IntegerValue(ast::IntegerLiteral(1), Some(ast::IntegerLiteral(5))),
                ))),
            ),
            None,
        ),
    ]));
    let defs = vec![nested_def(None, vec!["n"], bad_assign)];
    assert!(matches!(
        evaluate_mockagen(ast::Body(None, defs, ast::EOI)),
        Err(EvaluationError::InvalidMatchExprCast)
    ));
}

#[test]
fn test_tree_deeper_than_identifier_list() {
    // One bound identifier, but the clause tree wants two levels.
    let too_deep = ast::NestedClauses::AssignClauses(ast::AssignClauses(vec![
        assign_with_children("only", vec![assign_leaf("deeper")]),
    ]));
    let defs = vec![nested_def(None, vec!["x"], too_deep)];
    assert!(matches!(
        evaluate_mockagen(ast::Body(None, defs, ast::EOI)),
        Err(EvaluationError::NoChildrenForTree)
    ));
}

#[test]
fn test_nested_without_using_reads_own_levels() {
    // `Define p, q`: the first level assigns p, each candidate carrying
    // its q.
    let clauses = ast::NestedClauses::AssignClauses(ast::AssignClauses(vec![
        assign_with_children("p1", vec![assign_leaf("q1")]),
        assign_with_children("p2", vec![assign_leaf("q2")]),
    ]));
    let defs = vec![nested_def(None, vec!["p", "q"], clauses)];
    let bindings = evaluate_mockagen(ast::Body(None, defs, ast::EOI)).unwrap();
    let cols = bindings
        .make_column_generator(&vec!["p".to_string(), "q".to_string()])
        .unwrap();
    for _ in 0..20 {
        let row = bindings.generate_row(&cols).unwrap();
        let p = row[0].to_display_string();
        let q = row[1].to_display_string();
        match p.as_str() {
            "p1" => assert_eq!(q, "q1"),
            "p2" => assert_eq!(q, "q2"),
            other => panic!("unexpected value {other}"),
        }
    }
}
