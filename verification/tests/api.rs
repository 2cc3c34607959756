//! Smaller API pieces: list splitting, weight settling and the
//! write-once scope.

use std::rc::Rc;

use mockagen::ast::Weight;
use mockagen::{
    vec_first_and_rest, FirstAndRest, MaybeWeighted, OutValue, Scope, WeightedT, WEIGHT_TOTAL,
};

#[test]
fn test_vec_first_and_rest() {
    match vec_first_and_rest::<u8>(vec![]) {
        FirstAndRest::Neither => {}
        _ => panic!("an empty list has no first element"),
    }
    match vec_first_and_rest(vec![7]) {
        FirstAndRest::OnlyFirst(f) => assert_eq!(f, 7),
        _ => panic!("a singleton has only a first element"),
    }
    match vec_first_and_rest(vec![1, 2, 3]) {
        FirstAndRest::Both(f, rest) => {
            assert_eq!(f, 1);
            assert_eq!(rest, vec![2, 3]);
        }
        _ => panic!("a longer list has both"),
    }
}

#[test]
fn test_weight_settling() {
    let explicit = WeightedT::new(MaybeWeighted { weight: Some(250_000), value: "a" }, 10);
    assert_eq!(explicit.weight, 250_000);
    assert_eq!(explicit.value, "a");
    let implicit = WeightedT::new(MaybeWeighted { weight: None, value: "b" }, 10);
    assert_eq!(implicit.weight, 10);
}

#[test]
fn test_weight_units_are_capped() {
    assert_eq!(Weight(300_000).get(), 300_000);
    assert_eq!(Weight(5_000_000).get(), WEIGHT_TOTAL);
}

#[test]
fn test_scope_is_write_once() {
    let mut scope = Scope::new();
    let first = Rc::new(OutValue::I64(1));
    scope.set_value("k", first).unwrap();
    let again = Rc::new(OutValue::I64(2));
    assert!(scope.set_value("k", again).is_err());
    let held = scope.get_value("k").unwrap();
    assert_eq!(held.to_display_string(), "1");
}
