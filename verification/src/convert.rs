//! Turning the parsed definition tree into generators.
//!
//! Values convert without failure; candidate sets fail exactly when they
//! are empty, and nested clause trees fail exactly when a level has no
//! identifier left to bind, an assign level has no arms, a candidate set
//! is empty, or a candidate that must be restated as a match predicate is
//! not a literal.

use vstd::prelude::*;

use crate::ast;
use crate::engine::{
    AlternationGen, AssignArm, CumulWeightedGen, DateRangeGen, GeneratorEnum, IdentifierGen,
    IntegerRangeGen, JoinGen, LiteralGen, MatchArm, MatchConditions, MatchExpr, MaybeWeighted,
    RealRangeGen, StringRangeGen, ValueTree, alt_wf, gen_wf, tree_wf,
};
use crate::weights::{cumulative_weight, WEIGHT_TOTAL};
use crate::errors::EvaluationError;

verus! {

/// Whether a value is a string literal, the only value that can be
/// restated as a match predicate.
pub open spec fn value_is_literal(v: ast::Value) -> bool {
    v matches ast::Value::Primitive(ast::PrimitiveValue::Literal(_))
}

/// Whether every candidate of a weighted group is a string literal.
pub open spec fn values_all_literal(vs: ast::Values) -> bool {
    match vs {
        ast::Values::Value(v) => value_is_literal(v),
        ast::Values::ValueSet(ast::ValueSet(wvs)) =>
            forall|i: int| 0 <= i < wvs@.len() ==> value_is_literal((#[trigger] wvs@[i]).1),
    }
}

/// Whether a weighted group holds at least one candidate.
pub open spec fn values_nonempty(vs: ast::Values) -> bool {
    match vs {
        ast::Values::Value(_) => true,
        ast::Values::ValueSet(ast::ValueSet(wvs)) => wvs@.len() > 0,
    }
}

/// Whether one assign clause can be built with `ids_left` identifiers
/// still to bind.
pub open spec fn assign_clause_ok(c: ast::AssignClause, ids_left: int) -> bool
    decreases c,
{
    &&& values_nonempty(c.1.1)
    &&& values_all_literal(c.1.1)
    &&& match c.2 {
        Some(children) => assign_clauses_ok(children, ids_left - 1),
        None => true,
    }
}

/// Whether an assign level can be built with `ids_left` identifiers
/// still to bind.
pub open spec fn assign_clauses_ok(cs: ast::AssignClauses, ids_left: int) -> bool
    decreases cs,
{
    &&& ids_left >= 1
    &&& cs.0@.len() > 0
    &&& forall|i: int| 0 <= i < cs.0@.len() ==> assign_clause_ok(#[trigger] cs.0@[i], ids_left)
}

/// Whether one match arm can be built with `ids_left` identifiers still
/// to bind.
pub open spec fn match_clause_ok(c: ast::MatchClause, ids_left: int) -> bool
    decreases c,
{
    nested_clauses_ok(c.2, ids_left - 1)
}

/// Whether a match level's arms can be built with `ids_left` identifiers
/// still to bind.
pub open spec fn match_clauses_ok(cs: ast::MatchClauses, ids_left: int) -> bool
    decreases cs,
{
    &&& ids_left >= 1
    &&& forall|i: int| 0 <= i < cs.0@.len() ==> match_clause_ok(#[trigger] cs.0@[i], ids_left)
}

/// Whether a nested clause tree can be built with `ids_left` identifiers
/// still to bind.
pub open spec fn nested_clauses_ok(cs: ast::NestedClauses, ids_left: int) -> bool
    decreases cs,
{
    match cs {
        ast::NestedClauses::AssignClauses(a) => assign_clauses_ok(a, ids_left),
        ast::NestedClauses::MatchClauses(m) => match_clauses_ok(m, ids_left),
        ast::NestedClauses::MatchClausesWithWildcard(ast::MatchClausesWithWildcard(m, w)) => {
            &&& match_clauses_ok(m, ids_left)
            &&& nested_clauses_ok(*w.1, ids_left - 1)
        },
    }
}


/// The size of one assign clause, the termination measure for building
/// assign levels.
pub open spec fn assign_clause_size(c: ast::AssignClause) -> nat
    decreases c,
{
    1 + match c.2 {
        Some(cs) => assign_clauses_size(cs),
        None => 0nat,
    }
}

/// The size of an assign level.
pub open spec fn assign_clauses_size(cs: ast::AssignClauses) -> nat
    decreases cs,
{
    1 + assign_clause_seq_size(cs.0@)
}

/// The summed size of a list of assign clauses.
pub open spec fn assign_clause_seq_size(s: Seq<ast::AssignClause>) -> nat
    decreases s,
{
    if s.len() == 0 {
        0
    } else {
        assign_clause_seq_size(s.drop_last()) + assign_clause_size(s.last())
    }
}

/// The size of a nested clause tree, the termination measure for
/// building it.
pub open spec fn nested_clauses_size(c: ast::NestedClauses) -> nat
    decreases c,
{
    match c {
        ast::NestedClauses::AssignClauses(a) => 1 + assign_clauses_size(a),
        ast::NestedClauses::MatchClauses(m) => 2 + match_clause_seq_size(m.0@),
        ast::NestedClauses::MatchClausesWithWildcard(mw) =>
            2 + match_clause_seq_size(mw.0.0@) + nested_clauses_size(*mw.1.1),
    }
}

/// The summed size of a list of match clauses.
pub open spec fn match_clause_seq_size(s: Seq<ast::MatchClause>) -> nat
    decreases s,
{
    if s.len() == 0 {
        0
    } else {
        match_clause_seq_size(s.drop_last()) + match_clause_size(s.last())
    }
}

/// The size of one match clause.
pub open spec fn match_clause_size(c: ast::MatchClause) -> nat
    decreases c,
{
    1 + nested_clauses_size(c.2)
}

/// A listed assign clause weighs no more than the whole list.
proof fn lemma_assign_clause_seq_size_bound(s: Seq<ast::AssignClause>, i: int)
    requires
        0 <= i < s.len(),
    ensures
        assign_clause_size(s[i]) <= assign_clause_seq_size(s),
    decreases s.len(),
{
    if i < s.len() - 1 {
        assert(s.drop_last()[i] == s[i]);
        lemma_assign_clause_seq_size_bound(s.drop_last(), i);
    }
}

/// A listed match clause weighs no more than the whole list.
proof fn lemma_match_clause_seq_size_bound(s: Seq<ast::MatchClause>, i: int)
    requires
        0 <= i < s.len(),
    ensures
        match_clause_size(s[i]) <= match_clause_seq_size(s),
    decreases s.len(),
{
    if i < s.len() - 1 {
        assert(s.drop_last()[i] == s[i]);
        lemma_match_clause_seq_size_bound(s.drop_last(), i);
    }
}

/// An explicit weight's units, capped at the whole.
pub open spec fn cap_units(w: u64) -> u64 {
    if w > WEIGHT_TOTAL { WEIGHT_TOTAL } else { w }
}

/// The optional capped weight units of a candidate list, as handed to
/// the alternation builder.
pub open spec fn set_weight_opts(vs: Seq<ast::WeightedValue>) -> Seq<Option<u64>> {
    vs.map(|i: int, wv: ast::WeightedValue| match wv.0 {
        Some(w) => Some(cap_units(w.0)),
        None => None,
    })
}

/// Whether a generator is the one a primitive value specification
/// describes: each range normalized from the specification's bounds, a
/// literal carrying the specification's text, an absent integer upper
/// bound defaulting to the largest integer.
pub open spec fn primitive_gen_ok(p: ast::PrimitiveValue, g: GeneratorEnum) -> bool {
    match p {
        ast::PrimitiveValue::TimestampDate(t) => g matches GeneratorEnum::DateRange(d)
            && (d.after == vstd::math::min(t.0.0 as int, t.1.0 as int)
                && d.range_in_days == vstd::math::min(
                    vstd::math::max(t.0.0 as int, t.1.0 as int)
                        - vstd::math::min(t.0.0 as int, t.1.0 as int),
                    i64::MAX as int,
                )),
        ast::PrimitiveValue::Literal(l) => g matches GeneratorEnum::Literal(lg)
            && lg.0@ == l.0.0.0@,
        ast::PrimitiveValue::Integer(iv) => {
            let hi: int = match iv.1 {
                Some(t) => t.0 as int,
                None => i64::MAX as int,
            };
            g matches GeneratorEnum::IntegerRange(r)
                && (r.from == vstd::math::min(iv.0.0 as int, hi)
                    && r.to == vstd::math::max(iv.0.0 as int, hi))
        },
        ast::PrimitiveValue::String(sv) => g matches GeneratorEnum::StringRange(r)
            && (r.from == crate::engine::clamped_len(
                    vstd::math::min(sv.0.0 as int, sv.1.0 as int))
                && r.to == crate::engine::clamped_len(
                    vstd::math::max(sv.0.0 as int, sv.1.0 as int))),
        ast::PrimitiveValue::Real(rv) => g matches GeneratorEnum::RealRange(r)
            && (r.from == vstd::math::min(rv.0.0 as int, rv.1.0 as int)
                && r.to == vstd::math::max(rv.0.0 as int, rv.1.0 as int)),
    }
}

/// Whether a generator is the one a value specification describes.
pub open spec fn value_gen_ok(v: ast::Value, g: GeneratorEnum) -> bool
    decreases v,
{
    match v {
        ast::Value::Primitive(p) => primitive_gen_ok(p, g),
        ast::Value::HigherOrder(hv) => match hv {
            ast::HigherOrderValue::IdentifierValue(iv) =>
                g matches GeneratorEnum::Identifier(idg) && idg.0@ == iv.0.0@,
            ast::HigherOrderValue::JoinValue(jv) =>
                g matches GeneratorEnum::Join(jg) && values_gens_ok(jv.0@, jg.0@),
        },
    }
}

/// Whether each generator of a list is the one the matching value
/// specification describes.
pub open spec fn values_gens_ok(vs: Seq<ast::Value>, gs: Seq<GeneratorEnum>) -> bool
    decreases vs,
{
    &&& vs.len() == gs.len()
    &&& if vs.len() == 0 {
        true
    } else {
        values_gens_ok(vs.drop_last(), gs.drop_last()) && value_gen_ok(vs.last(), gs.last())
    }
}

/// Whether an alternation's candidates are the ones a weighted candidate
/// set describes: one candidate per entry, in order, with the set's
/// capped weights turned into cumulative weights.
pub open spec fn value_set_alt_ok(vs: Seq<ast::WeightedValue>, alt: AlternationGen) -> bool {
    &&& alt.wgens@.len() == vs.len()
    &&& forall|i: int| 0 <= i < vs.len()
        ==> value_gen_ok((#[trigger] vs[i]).1, alt.wgens@[i].value)
    &&& forall|i: int| 0 <= i < vs.len()
        ==> (#[trigger] alt.wgens@[i]).cumul_weight as int
            == cumulative_weight(set_weight_opts(vs), i)
}

/// The weight units of an optional explicit weight.
fn weight_units(w: &Option<ast::Weight>) -> (r: Option<u64>)
    ensures
        r matches Some(u) ==> w matches Some(wt) && u as int == crate::weights::capped(wt.0),
        r is None <==> w is None,
{
    match w {
        Some(wt) => Some(wt.get()),
        None => None,
    }
}

impl GeneratorEnum {
    /// Builds the generator for a primitive value specification.
    pub fn from_primitive(value: &ast::PrimitiveValue) -> (r: GeneratorEnum)
        ensures
            gen_wf(r),
            primitive_gen_ok(*value, r),
    {
        match value {
            ast::PrimitiveValue::TimestampDate(ast::TimestampDateValue(from, to)) =>
                GeneratorEnum::DateRange(DateRangeGen::new(from.0, to.0)),
            ast::PrimitiveValue::Literal(ast::LiteralValue(lit)) =>
                GeneratorEnum::Literal(LiteralGen::new(lit.0.0.clone())),
            ast::PrimitiveValue::Integer(ast::IntegerValue(from, maybe_to)) => {
                let to: i64 = match maybe_to {
                    Some(t) => t.0,
                    None => i64::MAX,
                };
                GeneratorEnum::IntegerRange(IntegerRangeGen::new(from.0, to))
            },
            ast::PrimitiveValue::String(ast::StringValue(from, to)) =>
                GeneratorEnum::StringRange(StringRangeGen::new(from.0, to.0)),
            ast::PrimitiveValue::Real(ast::RealValue(from, to)) =>
                GeneratorEnum::RealRange(RealRangeGen::new(from.0, to.0)),
        }
    }

    /// Builds the generator for any value specification.
    pub fn from_value(value: &ast::Value) -> (r: GeneratorEnum)
        ensures
            gen_wf(r),
            value_gen_ok(*value, r),
        decreases *value,
    {
        match value {
            ast::Value::Primitive(p) => GeneratorEnum::from_primitive(p),
            ast::Value::HigherOrder(ast::HigherOrderValue::IdentifierValue(
                ast::IdentifierValue(ast::Identifier(id)),
            )) => GeneratorEnum::Identifier(IdentifierGen::new(id.clone())),
            ast::Value::HigherOrder(ast::HigherOrderValue::JoinValue(ast::JoinValue(vals))) => {
                let mut subs: Vec<GeneratorEnum> = Vec::new();
                let n = vals.len();
                let mut i: usize = 0;
                while i < n
                    invariant
                        n == vals@.len(),
                        i <= n,
                        subs@.len() == i,
                        forall|j: int| 0 <= j < i ==> gen_wf(#[trigger] subs@[j]),
                        values_gens_ok(vals@.take(i as int), subs@),
                        *value == ast::Value::HigherOrder(ast::HigherOrderValue::JoinValue(
                            ast::JoinValue(*vals),
                        )),
                    decreases n - i,
                {
                    proof {
                        assert(decreases_to!(*value => (*value)->HigherOrder_0));
                        assert(decreases_to!((*value)->HigherOrder_0
                            => (*value)->HigherOrder_0->JoinValue_0));
                        assert(decreases_to!((*value)->HigherOrder_0->JoinValue_0
                            => (*value)->HigherOrder_0->JoinValue_0.0));
                        assert((*value)->HigherOrder_0->JoinValue_0.0 == *vals);
                        assert(decreases_to!(*vals => vals@));
                        assert(decreases_to!(vals@ => vals@[i as int]));
                        assert(decreases_to!(*value => vals@[i as int]));
                    }
                    let g = GeneratorEnum::from_value(&vals[i]);
                    let ghost subs_before = subs@;
                    subs.push(g);
                    proof {
                        assert(vals@.take(i + 1).drop_last() =~= vals@.take(i as int));
                        assert(vals@.take(i + 1).last() == vals@[i as int]);
                        assert(subs@.drop_last() =~= subs_before);
                        assert(subs@.last() == g);
                    }
                    i = i + 1;
                }
                proof {
                    assert(vals@.take(n as int) =~= vals@);
                }
                GeneratorEnum::Join(JoinGen(subs))
            },
        }
    }

    /// Builds a weighted alternation over a candidate set; fails exactly
    /// when the set is empty.
    pub fn from_value_set(values: &ast::ValueSet) -> (r: Result<GeneratorEnum, EvaluationError>)
        ensures
            r matches Ok(g) ==> gen_wf(g) && values.0@.len() > 0
                && (g matches GeneratorEnum::Alternation(alt)
                    && value_set_alt_ok(values.0@, *alt)),
            r matches Err(e) ==> e is EmptyValueSet && values.0@.len() == 0,
    {
        let mut wvals: Vec<MaybeWeighted<GeneratorEnum>> = Vec::new();
        let n = values.0.len();
        let mut i: usize = 0;
        while i < n
            invariant
                n == values.0@.len(),
                i <= n,
                wvals@.len() == i,
                forall|j: int| 0 <= j < i ==> gen_wf((#[trigger] wvals@[j]).value),
                forall|j: int| 0 <= j < i
                    ==> value_gen_ok((#[trigger] values.0@[j]).1, wvals@[j].value),
                forall|j: int| 0 <= j < i
                    ==> (#[trigger] wvals@[j]).weight == set_weight_opts(values.0@)[j],
            decreases n - i,
        {
            let wv = &values.0[i];
            let weight = weight_units(&wv.0);
            let gen = GeneratorEnum::from_value(&wv.1);
            wvals.push(MaybeWeighted { weight, value: gen });
            i = i + 1;
        }
        let ghost wvals_snapshot = wvals@;
        match AlternationGen::new(wvals) {
            Ok(alt) => {
                proof {
                    assert(crate::engine::weights_of(wvals_snapshot)
                        =~= set_weight_opts(values.0@));
                }
                Ok(GeneratorEnum::Alternation(Box::new(alt)))
            },
            Err(e) => Err(e),
        }
    }
}

/// The literal text a parsed match expression compares against.
pub open spec fn ast_match_expr_text(m: ast::MatchExpr) -> Seq<char> {
    match m {
        ast::MatchExpr::LiteralValue(lit) => lit.0.0.0@,
    }
}

/// Whether a value is the string literal with the given text.
pub open spec fn value_literal_text_ok(v: ast::Value, text: Seq<char>) -> bool {
    v matches ast::Value::Primitive(ast::PrimitiveValue::Literal(l)) && text == l.0.0.0@
}

/// Whether predicates are the restatement of an assign group's
/// candidates: one literal predicate per candidate, in order, carrying
/// the candidate's text.
pub open spec fn restated_matchers_ok(ms: Seq<MatchExpr>, vs: ast::Values) -> bool {
    match vs {
        ast::Values::Value(v) => ms.len() == 1
            && (ms[0] matches MatchExpr::Literal(s) && value_literal_text_ok(v, s@)),
        ast::Values::ValueSet(set) => ms.len() == set.0@.len()
            && forall|i: int| 0 <= i < ms.len()
                ==> ((#[trigger] ms[i]) matches MatchExpr::Literal(s)
                    && value_literal_text_ok(set.0@[i].1, s@)),
    }
}

/// Whether predicates carry exactly a match clause's literal texts.
pub open spec fn matchers_texts_ok(ms: Seq<MatchExpr>, m: ast::Matchers) -> bool {
    match m {
        ast::Matchers::MatchExpr(e) => ms.len() == 1
            && (ms[0] matches MatchExpr::Literal(s) && s@ == ast_match_expr_text(e)),
        ast::Matchers::MatcherSet(set) => ms.len() == set.0@.len()
            && forall|i: int| 0 <= i < ms.len()
                ==> ((#[trigger] ms[i]) matches MatchExpr::Literal(s)
                    && s@ == ast_match_expr_text(set.0@[i])),
    }
}

/// The capped weight units of one assign group.
pub open spec fn group_weight_opt(wv: ast::WeightedValues) -> Option<u64> {
    match wv.0 {
        Some(w) => Some(cap_units(w.0)),
        None => None,
    }
}

/// The capped weight units of an assign level's groups.
pub open spec fn clause_weight_opts(cs: Seq<ast::AssignClause>) -> Seq<Option<u64>> {
    cs.map(|i: int, c: ast::AssignClause| group_weight_opt(c.1))
}

/// Whether a generator is the alternation a weighted value group
/// describes: a single value becomes the alternation's only candidate.
pub open spec fn group_value_ok(vs: ast::Values, g: GeneratorEnum) -> bool {
    g matches GeneratorEnum::Alternation(alt) && (match vs {
        ast::Values::Value(v) => alt.wgens@.len() == 1
            && (value_gen_ok(v, alt.wgens@[0].value)
                && alt.wgens@[0].cumul_weight == WEIGHT_TOTAL),
        ast::Values::ValueSet(set) => value_set_alt_ok(set.0@, *alt),
    })
}

/// Whether an assign arm is the one an assign clause describes: it
/// inspects the identifier bound at this level, restates the clause's
/// candidates as predicates, and carries the clause's deeper subtree
/// exactly when the clause declares one.
pub open spec fn assign_clause_arm_ok(
    c: ast::AssignClause, ids: Seq<Seq<char>>, offset: int, arm: AssignArm,
) -> bool
    decreases c,
{
    &&& arm.match_conditions.id@ == ids[offset]
    &&& restated_matchers_ok(arm.match_conditions.matchers@, c.1.1)
    &&& match c.2 {
        Some(sub) => arm.children matches Some(child)
            && assign_tree_ok(sub, ids, offset + 1, child),
        None => arm.children is None,
    }
}

/// Whether a decision-tree node is the assign level an assign clause
/// list describes: one arm per clause, and one alternation candidate per
/// clause's value group, with the groups' capped weights as cumulative
/// weights.
pub open spec fn assign_tree_ok(
    cs: ast::AssignClauses, ids: Seq<Seq<char>>, offset: int, t: ValueTree,
) -> bool
    decreases cs,
{
    t matches ValueTree::Assign(arms, gen) && {
        &&& arms@.len() == cs.0@.len()
        &&& forall|i: int| 0 <= i < cs.0@.len()
            ==> assign_clause_arm_ok(#[trigger] cs.0@[i], ids, offset, arms@[i])
        &&& gen matches GeneratorEnum::Alternation(alt) && {
            &&& alt.wgens@.len() == cs.0@.len()
            &&& forall|i: int| 0 <= i < cs.0@.len()
                ==> group_value_ok((#[trigger] cs.0@[i]).1.1, alt.wgens@[i].value)
            &&& forall|i: int| 0 <= i < cs.0@.len()
                ==> (#[trigger] alt.wgens@[i]).cumul_weight as int
                    == cumulative_weight(clause_weight_opts(cs.0@), i)
        }
    }
}

/// Whether a match arm is the one a match clause describes.
pub open spec fn match_clause_arm_ok(
    c: ast::MatchClause, ids: Seq<Seq<char>>, offset: int, arm: MatchArm,
) -> bool
    decreases c,
{
    &&& arm.match_conditions.id@ == ids[offset]
    &&& matchers_texts_ok(arm.match_conditions.matchers@, c.1)
    &&& clauses_tree_ok(c.2, ids, offset + 1, arm.children)
}

/// Whether match arms are the ones a match clause list describes, in
/// order.
pub open spec fn match_level_ok(
    m: ast::MatchClauses, ids: Seq<Seq<char>>, offset: int, arms: Seq<MatchArm>,
) -> bool
    decreases m,
{
    &&& arms.len() == m.0@.len()
    &&& forall|i: int| 0 <= i < m.0@.len()
        ==> match_clause_arm_ok(#[trigger] m.0@[i], ids, offset, arms[i])
}

/// Whether a decision tree is the one a nested clause tree describes,
/// consuming the identifier list from `offset` on: match levels carry
/// one arm per clause and a wildcard subtree exactly when the clauses
/// declare one, assign levels one arm and one weighted candidate per
/// clause.
pub open spec fn clauses_tree_ok(
    c: ast::NestedClauses, ids: Seq<Seq<char>>, offset: int, t: ValueTree,
) -> bool
    decreases c,
{
    match c {
        ast::NestedClauses::AssignClauses(a) => assign_tree_ok(a, ids, offset, t),
        ast::NestedClauses::MatchClauses(m) => t matches ValueTree::Match(arms, wc)
            && (wc is None && match_level_ok(m, ids, offset, arms@)),
        ast::NestedClauses::MatchClausesWithWildcard(mw) => t matches ValueTree::Match(arms, wc)
            && (match_level_ok(mw.0, ids, offset, arms@)
                && (wc matches Some(w) && clauses_tree_ok(*mw.1.1, ids, offset + 1, *w))),
    }
}

/// Restates a parsed match expression as a match predicate.
fn match_expr_from_ast(m: &ast::MatchExpr) -> (r: MatchExpr)
    ensures
        r matches MatchExpr::Literal(s) && s@ == ast_match_expr_text(*m),
{
    match m {
        ast::MatchExpr::LiteralValue(ast::LiteralValue(lit)) =>
            MatchExpr::Literal(lit.0.0.clone()),
    }
}

/// Restates a candidate value as a match predicate; fails exactly when
/// the value is not a string literal.
fn match_expr_try_from_value(v: &ast::Value) -> (r: Result<MatchExpr, EvaluationError>)
    ensures
        r is Ok <==> value_is_literal(*v),
        r matches Ok(m) ==> (m matches MatchExpr::Literal(s) && value_literal_text_ok(*v, s@)),
        r matches Err(e) ==> e is InvalidMatchExprCast,
{
    match v {
        ast::Value::Primitive(ast::PrimitiveValue::Literal(ast::LiteralValue(lit))) =>
            Ok(MatchExpr::Literal(lit.0.0.clone())),
        _ => Err(EvaluationError::InvalidMatchExprCast),
    }
}

impl MatchConditions {
    /// Gathers the predicates of a match clause over the identifier they
    /// inspect.
    pub fn from_matchers(id: &str, matchers: &ast::Matchers) -> (r: MatchConditions)
        ensures
            r.id@ == id@,
            match *matchers {
                ast::Matchers::MatchExpr(m) => r.matchers@.len() == 1
                    && (r.matchers@[0] matches MatchExpr::Literal(s)
                        && s@ == ast_match_expr_text(m)),
                ast::Matchers::MatcherSet(ms) => r.matchers@.len() == ms.0@.len()
                    && forall|k: int| 0 <= k < ms.0@.len()
                        ==> ((#[trigger] r.matchers@[k]) matches MatchExpr::Literal(s)
                            && s@ == ast_match_expr_text(ms.0@[k])),
            },
    {
        let exprs: Vec<MatchExpr> = match matchers {
            ast::Matchers::MatchExpr(m) => {
                let mut v: Vec<MatchExpr> = Vec::new();
                v.push(match_expr_from_ast(m));
                v
            },
            ast::Matchers::MatcherSet(ast::MatcherSet(ms)) => {
                let mut v: Vec<MatchExpr> = Vec::new();
                let n = ms.len();
                let mut i: usize = 0;
                while i < n
                    invariant
                        i <= n,
                        n == ms@.len(),
                        v@.len() == i,
                        forall|k: int| 0 <= k < i
                            ==> ((#[trigger] v@[k]) matches MatchExpr::Literal(s)
                                && s@ == ast_match_expr_text(ms@[k])),
                    decreases n - i,
                {
                    v.push(match_expr_from_ast(&ms[i]));
                    i = i + 1;
                }
                v
            },
        };
        MatchConditions { id: id.to_owned(), matchers: exprs }
    }

    /// Wraps ready-made predicates over the identifier they inspect.
    pub fn from_match_exprs(id: &str, match_exprs: Vec<MatchExpr>) -> (r: MatchConditions)
        ensures
            r.id@ == id@,
            r.matchers@ == match_exprs@,
    {
        MatchConditions { id: id.to_owned(), matchers: match_exprs }
    }
}

impl AssignArm {
    /// Builds one assign arm: the candidates of the weighted group are
    /// restated as match predicates for deeper levels; fails exactly when
    /// one of them is not a string literal.
    pub fn new(id: &str, weighted_values: &ast::WeightedValues, children: Option<ValueTree>)
        -> (r: Result<AssignArm, EvaluationError>)
        requires
            children matches Some(t) ==> tree_wf(t),
        ensures
            r is Ok <==> values_all_literal(weighted_values.1),
            r matches Ok(arm) ==> arm.children == children,
            r matches Ok(arm) ==> arm.match_conditions.id@ == id@
                && restated_matchers_ok(arm.match_conditions.matchers@, weighted_values.1),
            r matches Err(e) ==> e is InvalidMatchExprCast,
    {
        let exprs: Vec<MatchExpr> = match &weighted_values.1 {
            ast::Values::Value(v) => {
                let mut out: Vec<MatchExpr> = Vec::new();
                match match_expr_try_from_value(v) {
                    Ok(m) => out.push(m),
                    Err(e) => {
                        return Err(e);
                    },
                }
                out
            },
            ast::Values::ValueSet(ast::ValueSet(wvs)) => {
                let mut out: Vec<MatchExpr> = Vec::new();
                let n = wvs.len();
                let mut i: usize = 0;
                while i < n
                    invariant
                        i <= n,
                        n == wvs@.len(),
                        out@.len() == i,
                        weighted_values.1 == ast::Values::ValueSet(ast::ValueSet(*wvs)),
                        forall|j: int| 0 <= j < i ==> value_is_literal((#[trigger] wvs@[j]).1),
                        forall|j: int| 0 <= j < i
                            ==> ((#[trigger] out@[j]) matches MatchExpr::Literal(s)
                                && value_literal_text_ok(wvs@[j].1, s@)),
                    decreases n - i,
                {
                    match match_expr_try_from_value(&wvs[i].1) {
                        Ok(m) => out.push(m),
                        Err(e) => {
                            proof {
                                assert(!value_is_literal(wvs@[i as int].1));
                                assert(!values_all_literal(weighted_values.1));
                            }
                            return Err(e);
                        },
                    }
                    i = i + 1;
                }
                proof {
                    assert(values_all_literal(weighted_values.1));
                }
                out
            },
        };
        Ok(AssignArm {
            match_conditions: MatchConditions::from_match_exprs(id, exprs),
            children,
        })
    }
}

impl MatchArm {
    /// Builds one match arm: predicates over the current identifier and
    /// the subtree for the remaining identifiers.
    pub fn new(ids: &Vec<String>, offset: usize, clause: &ast::MatchClause)
        -> (r: Result<MatchArm, EvaluationError>)
        requires
            offset < ids@.len(),
        ensures
            r is Ok <==> match_clause_ok(*clause, ids@.len() - offset),
            r matches Ok(arm) ==> tree_wf(arm.children),
            r matches Ok(arm)
                ==> match_clause_arm_ok(*clause, crate::deps::name_views(ids@), offset as int, arm),
            r matches Err(e) ==> e is NoChildrenForTree || e is EmptyValueSet
                || e is InvalidMatchExprCast,
        decreases match_clause_size(*clause),
    {
        let n_ids = ids.len();
        let conditions = MatchConditions::from_matchers(ids[offset].as_str(), &clause.1);
        let children = match ValueTree::from_nested_clauses(ids, offset + 1, &clause.2) {
            Ok(t) => t,
            Err(e) => {
                return Err(e);
            },
        };
        proof {
            assert(crate::deps::name_views(ids@)[offset as int] == ids@[offset as int]@);
            assert(matchers_texts_ok(conditions.matchers@, clause.1));
        }
        Ok(MatchArm { match_conditions: conditions, children })
    }
}

impl ValueTree {
    /// Builds the decision tree of a nested definition from its clause
    /// tree, consuming the identifier list from `offset` on.  Succeeds
    /// exactly when every level still has an identifier to bind, every
    /// assign level has arms with nonempty candidate sets, and every
    /// candidate that is restated as a match predicate is a string
    /// literal.
    pub fn from_nested_clauses(ids: &Vec<String>, offset: usize, clauses: &ast::NestedClauses)
        -> (r: Result<ValueTree, EvaluationError>)
        ensures
            r is Ok <==> nested_clauses_ok(*clauses, ids@.len() - offset),
            r matches Ok(t) ==> tree_wf(t),
            r matches Ok(t)
                ==> clauses_tree_ok(*clauses, crate::deps::name_views(ids@), offset as int, t),
            r matches Err(e) ==> e is NoChildrenForTree || e is EmptyValueSet
                || e is InvalidMatchExprCast,
        decreases nested_clauses_size(*clauses),
    {
        match clauses {
            ast::NestedClauses::AssignClauses(a) => {
                ValueTree::from_assign_clauses(ids, offset, a)
            },
            ast::NestedClauses::MatchClauses(m) => {
                let arms = match ValueTree::match_arms_from_clauses(ids, offset, m) {
                    Ok(arms) => arms,
                    Err(e) => {
                        return Err(e);
                    },
                };
                Ok(ValueTree::Match(arms, None))
            },
            ast::NestedClauses::MatchClausesWithWildcard(ast::MatchClausesWithWildcard(m, w)) => {
                let n_ids = ids.len();
                let arms = match ValueTree::match_arms_from_clauses(ids, offset, m) {
                    Ok(arms) => arms,
                    Err(e) => {
                        return Err(e);
                    },
                };
                if offset >= n_ids {
                    proof {
                        assert(!match_clauses_ok(*m, ids@.len() - offset));
                        assert(false);
                    }
                }
                let wildcard = match ValueTree::from_nested_clauses(ids, offset + 1, &w.1) {
                    Ok(t) => t,
                    Err(e) => {
                        return Err(e);
                    },
                };
                Ok(ValueTree::Match(arms, Some(Box::new(wildcard))))
            },
        }
    }

    /// Builds the arms of a match level.
    fn match_arms_from_clauses(ids: &Vec<String>, offset: usize, m: &ast::MatchClauses)
        -> (r: Result<Vec<MatchArm>, EvaluationError>)
        ensures
            r is Ok <==> match_clauses_ok(*m, ids@.len() - offset),
            r matches Ok(arms) ==> forall|i: int| 0 <= i < arms@.len()
                ==> tree_wf((#[trigger] arms@[i]).children),
            r matches Ok(arms)
                ==> match_level_ok(*m, crate::deps::name_views(ids@), offset as int, arms@),
            r matches Err(e) ==> e is NoChildrenForTree || e is EmptyValueSet
                || e is InvalidMatchExprCast,
        decreases 1 + match_clause_seq_size(m.0@),
    {
        if offset >= ids.len() {
            return Err(EvaluationError::NoChildrenForTree);
        }
        let mut arms: Vec<MatchArm> = Vec::new();
        let n = m.0.len();
        let mut i: usize = 0;
        while i < n
            invariant
                offset < ids@.len(),
                i <= n,
                n == m.0@.len(),
                forall|j: int| 0 <= j < i ==> match_clause_ok(#[trigger] m.0@[j], ids@.len() - offset),
                forall|j: int| 0 <= j < arms@.len() ==> tree_wf((#[trigger] arms@[j]).children),
                forall|j: int| 0 <= j < i ==> match_clause_arm_ok(
                    #[trigger] m.0@[j], crate::deps::name_views(ids@), offset as int, arms@[j]),
                arms@.len() == i,
            decreases n - i,
        {
            proof {
                lemma_match_clause_seq_size_bound(m.0@, i as int);
            }
            match MatchArm::new(ids, offset, &m.0[i]) {
                Ok(arm) => arms.push(arm),
                Err(e) => {
                    proof {
                        assert(!match_clause_ok(m.0@[i as int], ids@.len() - offset));
                    }
                    return Err(e);
                },
            }
            i = i + 1;
        }
        Ok(arms)
    }

    /// Builds an assign level: one alternation over all the arms' value
    /// groups, and for each arm its restated predicates and optional
    /// deeper subtree.
    fn from_assign_clauses(ids: &Vec<String>, offset: usize, cs: &ast::AssignClauses)
        -> (r: Result<ValueTree, EvaluationError>)
        ensures
            r is Ok <==> assign_clauses_ok(*cs, ids@.len() - offset),
            r matches Ok(t) ==> tree_wf(t),
            r matches Ok(t)
                ==> assign_tree_ok(*cs, crate::deps::name_views(ids@), offset as int, t),
            r matches Err(e) ==> e is NoChildrenForTree || e is EmptyValueSet
                || e is InvalidMatchExprCast,
        decreases assign_clauses_size(*cs),
    {
        let n_ids = ids.len();
        if offset >= ids.len() {
            return Err(EvaluationError::NoChildrenForTree);
        }
        if cs.0.len() == 0 {
            return Err(EvaluationError::EmptyValueSet);
        }
        let mut arms: Vec<AssignArm> = Vec::new();
        let mut gens: Vec<MaybeWeighted<GeneratorEnum>> = Vec::new();
        let n = cs.0.len();
        let mut i: usize = 0;
        while i < n
            invariant
                offset < ids@.len(),
                n_ids == ids@.len(),
                i <= n,
                n == cs.0@.len(),
                forall|j: int| 0 <= j < i ==> assign_clause_ok(#[trigger] cs.0@[j], ids@.len() - offset),
                forall|j: int| 0 <= j < arms@.len()
                    ==> ((#[trigger] arms@[j]).children matches Some(c) ==> tree_wf(c)),
                forall|j: int| 0 <= j < gens@.len() ==> gen_wf((#[trigger] gens@[j]).value),
                forall|j: int| 0 <= j < i ==> assign_clause_arm_ok(
                    #[trigger] cs.0@[j], crate::deps::name_views(ids@), offset as int, arms@[j]),
                forall|j: int| 0 <= j < i
                    ==> group_value_ok((#[trigger] cs.0@[j]).1.1, gens@[j].value),
                forall|j: int| 0 <= j < i
                    ==> (#[trigger] gens@[j]).weight == group_weight_opt(cs.0@[j].1),
                arms@.len() == i,
                gens@.len() == i,
            decreases n - i,
        {
            let clause = &cs.0[i];
            proof {
                lemma_assign_clause_seq_size_bound(cs.0@, i as int);
            }
            let children: Option<ValueTree> = match &clause.2 {
                Some(sub) => {
                    match ValueTree::from_assign_clauses(ids, offset + 1, sub) {
                        Ok(t) => Some(t),
                        Err(e) => {
                            proof {
                                assert(!assign_clause_ok(cs.0@[i as int], ids@.len() - offset));
                            }
                            return Err(e);
                        },
                    }
                },
                None => None,
            };
            let arm = match AssignArm::new(ids[offset].as_str(), &clause.1, children) {
                Ok(arm) => arm,
                Err(e) => {
                    proof {
                        assert(!assign_clause_ok(cs.0@[i as int], ids@.len() - offset));
                    }
                    return Err(e);
                },
            };
            let mw = match maybe_weighted_from_weighted_values(&clause.1) {
                Ok(mw) => mw,
                Err(e) => {
                    proof {
                        assert(!assign_clause_ok(cs.0@[i as int], ids@.len() - offset));
                    }
                    return Err(e);
                },
            };
            proof {
                assert(crate::deps::name_views(ids@)[offset as int] == ids@[offset as int]@);
            }
            arms.push(arm);
            gens.push(mw);
            i = i + 1;
        }
        let ghost gens_snapshot = gens@;
        let gen = match AlternationGen::new(gens) {
            Ok(alt) => {
                proof {
                    assert(forall|j: int| 0 <= j < gens_snapshot.len()
                        ==> gen_wf((#[trigger] gens_snapshot[j]).value));
                    assert(alt_wf(alt));
                    assert(crate::engine::weights_of(gens_snapshot)
                        =~= clause_weight_opts(cs.0@));
                }
                GeneratorEnum::Alternation(Box::new(alt))
            },
            Err(e) => {
                proof {
                    assert(false);
                }
                return Err(e);
            },
        };
        assert(gen_wf(gen));
        Ok(ValueTree::Assign(arms, gen))
    }
}

/// Whether a candidate is the one a weighted value group describes: the
/// group's capped weight, and an alternation over the group's values —
/// a single value becomes the alternation's only candidate.
pub open spec fn weighted_group_ok(wv: ast::WeightedValues, mw: MaybeWeighted<GeneratorEnum>) -> bool {
    &&& mw.weight == (match wv.0 {
        Some(w) => Some(cap_units(w.0)),
        None => None::<u64>,
    })
    &&& mw.value matches GeneratorEnum::Alternation(alt) && (match wv.1 {
        ast::Values::Value(v) => alt.wgens@.len() == 1
            && (value_gen_ok(v, alt.wgens@[0].value)
                && alt.wgens@[0].cumul_weight == WEIGHT_TOTAL),
        ast::Values::ValueSet(vs) => value_set_alt_ok(vs.0@, *alt),
    })
}

/// Builds the candidate (weight and generator) that one weighted value
/// group contributes to an assign level; fails exactly when the group's
/// candidate set is empty.
pub fn maybe_weighted_from_weighted_values(wvalues: &ast::WeightedValues)
    -> (r: Result<MaybeWeighted<GeneratorEnum>, EvaluationError>)
    ensures
        r matches Ok(mw) ==> gen_wf(mw.value) && values_nonempty(wvalues.1),
        r matches Ok(mw) ==> weighted_group_ok(*wvalues, mw),
        r matches Err(e) ==> e is EmptyValueSet && !values_nonempty(wvalues.1),
{
    let weight = weight_units(&wvalues.0);
    match &wvalues.1 {
        ast::Values::Value(v) => {
            let mut candidates: Vec<MaybeWeighted<GeneratorEnum>> = Vec::new();
            candidates.push(MaybeWeighted {
                weight: Some(crate::weights::WEIGHT_TOTAL),
                value: GeneratorEnum::from_value(v),
            });
            match AlternationGen::new(candidates) {
                Ok(alt) => Ok(MaybeWeighted {
                    weight,
                    value: GeneratorEnum::Alternation(Box::new(alt)),
                }),
                Err(_) => {
                    proof {
                        assert(false);
                    }
                    Err(EvaluationError::EmptyValueSet)
                },
            }
        },
        ast::Values::ValueSet(vs) => {
            match GeneratorEnum::from_value_set(vs) {
                Ok(g) => Ok(MaybeWeighted { weight, value: g }),
                Err(e) => Err(e),
            }
        },
    }
}

} // verus!
