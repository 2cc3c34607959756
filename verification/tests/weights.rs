//! Weighted alternation: normalization, selection and distribution.

use mockagen::ast;
use mockagen::convert;
use mockagen::{
    evaluate_mockagen, AlternationGen, GeneratorEnum, LiteralGen, MaybeWeighted, OutValue,
    EvaluationError, WEIGHT_TOTAL,
};

fn literal_candidate(weight: Option<u64>, text: &str) -> MaybeWeighted<GeneratorEnum> {
    MaybeWeighted {
        weight,
        value: GeneratorEnum::Literal(LiteralGen::new(text.to_string())),
    }
}

#[test]
fn test_weight_normalization_exact() {
    // 30% and 30% explicit; the remaining 40% goes to the one unweighted
    // candidate: cumulative weights land exactly on the whole.
    let alt = AlternationGen::new(vec![
        literal_candidate(Some(300_000), "a"),
        literal_candidate(Some(300_000), "b"),
        literal_candidate(None, "c"),
    ])
    .unwrap();
    assert_eq!(alt.cumulative_weights(), vec![300_000, 600_000, 1_000_000]);
}

#[test]
fn test_weight_normalization_even_split() {
    let alt = AlternationGen::new(vec![
        literal_candidate(None, "a"),
        literal_candidate(None, "b"),
        literal_candidate(None, "c"),
        literal_candidate(None, "d"),
    ])
    .unwrap();
    assert_eq!(alt.cumulative_weights(), vec![250_000, 500_000, 750_000, 1_000_000]);
}

#[test]
fn test_weight_normalization_remainder_distribution() {
    // Three unweighted candidates share 4 leftover units: the first one
    // takes the extra unit, and the sum still lands exactly on the whole.
    let alt = AlternationGen::new(vec![
        literal_candidate(Some(999_996), "a"),
        literal_candidate(None, "b"),
        literal_candidate(None, "c"),
        literal_candidate(None, "d"),
    ])
    .unwrap();
    assert_eq!(alt.cumulative_weights(), vec![999_996, 999_998, 999_999, 1_000_000]);
}

#[test]
fn test_pick_tie_break_favours_earlier_candidate() {
    let alt = AlternationGen::new(vec![
        literal_candidate(Some(300_000), "a"),
        literal_candidate(Some(300_000), "b"),
        literal_candidate(None, "c"),
    ])
    .unwrap();
    assert_eq!(alt.pick(0), 0);
    assert_eq!(alt.pick(299_999), 0);
    assert_eq!(alt.pick(300_000), 1);
    assert_eq!(alt.pick(599_999), 1);
    assert_eq!(alt.pick(600_000), 2);
    assert_eq!(alt.pick(999_999), 2);
}

#[test]
fn test_pick_sweep_reproduces_weights() {
    let alt = AlternationGen::new(vec![
        literal_candidate(Some(300_000), "a"),
        literal_candidate(Some(300_000), "b"),
        literal_candidate(None, "c"),
    ])
    .unwrap();
    let mut counts = [0u64; 3];
    let mut draw: u64 = 0;
    while draw < WEIGHT_TOTAL {
        counts[alt.pick(draw)] += 1;
        draw += 1000;
    }
    // A uniform sweep of 1000 draws selects each candidate exactly in
    // proportion to its weight.
    assert_eq!(counts, [300, 300, 400]);
}

#[test]
fn test_empty_value_set_is_refused() {
    assert!(matches!(
        AlternationGen::new(vec![]),
        Err(EvaluationError::EmptyValueSet)
    ));
}

fn weighted_literal(weight: Option<ast::Weight>, text: &str) -> ast::WeightedValue {
    ast::WeightedValue(
        weight,
        ast::Value::Primitive(ast::PrimitiveValue::Literal(ast::LiteralValue(
            ast::StringLiteral(ast::StringContent(text.to_string())),
        ))),
    )
}

#[test]
fn test_end_to_end_distribution() {
    // gender: 30% Male, 30% Female, the rest Business Entity.
    let defs = vec![ast::Definition::Single(ast::SingleDefinition::MultiVal(
        ast::MultiValDef(
            ast::Identifier("gender".into()),
            vec![],
            ast::ValueSet(vec![
                weighted_literal(Some(ast::Weight(300_000)), "Male"),
                weighted_literal(Some(ast::Weight(300_000)), "Female"),
                weighted_literal(None, "Business Entity"),
            ]),
        ),
    ))];
    let bindings = evaluate_mockagen(ast::Body(None, defs, ast::EOI)).unwrap();
    let cols = bindings
        .make_column_generator(&vec!["gender".to_string()])
        .unwrap();

    let rows = 10_000;
    let mut business = 0u64;
    for _ in 0..rows {
        let row = bindings.generate_row(&cols).unwrap();
        assert_eq!(row.len(), 1);
        let text = row[0].to_display_string();
        assert!(text == "Male" || text == "Female" || text == "Business Entity");
        if text == "Business Entity" {
            business += 1;
        }
    }
    // Expected 40% within a two-percentage-point tolerance.
    assert!((3800..=4200).contains(&business), "frequency was {business}");
}

#[test]
fn test_single_value_group_converts_to_alternation() {
    // A weighted group around a single value still selects that value.
    let mw = convert::maybe_weighted_from_weighted_values(&ast::WeightedValues(
        Some(ast::Weight(500_000)),
        ast::Values::Value(ast::Value::Primitive(ast::PrimitiveValue::Literal(
            ast::LiteralValue(ast::StringLiteral(ast::StringContent("only".into()))),
        ))),
    ))
    .unwrap();
    assert_eq!(mw.weight, Some(500_000));
}
