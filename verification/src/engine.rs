//! The generator data model and its evaluation engine.
//!
//! A `GeneratorEnum` is a closed sum of every kind of value generator:
//! primitive ranges, literals, identifier references, joins, weighted
//! alternations and nested decision trees.  Generators own their
//! sub-generators outright; a nested decision tree is the one shared
//! structure, held behind a reference-counted handle so that every
//! identifier bound by the same nested definition reads the same tree at
//! its own depth.

use vstd::prelude::*;
use std::rc::Rc;

use crate::errors::EvaluationError;
use crate::rng::{is_alphanumeric_char, random_alphanumeric_string, random_i64_inclusive, random_u64_below};
use crate::values::OutValue;
use crate::weights::{
    cumulative_weight, first_hit, capped, explicit_sum, effective_prefix_sum, implicit_base,
    implicit_rem, leftover, unweighted_count, WEIGHT_TOTAL,
    lemma_first_hit_characterization,
};

verus! {

/// A candidate value with an optional explicit weight, in fixed-point
/// units of `WEIGHT_TOTAL`.
#[derive(Debug)]
pub struct MaybeWeighted<T> {
    pub weight: Option<u64>,
    pub value: T,
}

/// A candidate value with its effective weight settled.
#[derive(Debug)]
pub struct WeightedT<T> {
    pub weight: u64,
    pub value: T,
}

impl<T> WeightedT<T> {
    /// Settles a candidate's weight: its own explicit weight if it has
    /// one, else the implicit weight handed in.
    pub fn new(maybe_weighted: MaybeWeighted<T>, implicit_weight: u64) -> (r: Self)
        ensures
            r.weight == match maybe_weighted.weight {
                Some(w) => w,
                None => implicit_weight,
            },
            r.value == maybe_weighted.value,
    {
        match maybe_weighted.weight {
            Some(weight) => WeightedT { weight, value: maybe_weighted.value },
            None => WeightedT { weight: implicit_weight, value: maybe_weighted.value },
        }
    }
}

/// A candidate generator together with its cumulative weight.
#[derive(Debug)]
pub struct CumulWeightedGen {
    pub cumul_weight: u64,
    pub value: GeneratorEnum,
}

/// A match predicate over one generated value: equality against a string
/// literal, or the wildcard that matches anything.
#[derive(Debug)]
pub enum MatchExpr {
    Literal(String),
    Any,
}

/// Whether a match predicate accepts a generated value: the wildcard
/// accepts everything, a literal accepts exactly the equal string value.
pub open spec fn match_expr_accepts(m: MatchExpr, v: OutValue) -> bool {
    match m {
        MatchExpr::Any => true,
        MatchExpr::Literal(s) => match v {
            OutValue::String(t) => s@ == t@,
            _ => false,
        },
    }
}

impl MatchExpr {
    /// Tests this predicate against a generated value.
    pub fn is_match(&self, value: &OutValue) -> (r: bool)
        ensures
            r == match_expr_accepts(*self, *value),
    {
        match self {
            MatchExpr::Any => true,
            MatchExpr::Literal(s) => match value {
                OutValue::String(t) => s.eq(t),
                _ => false,
            },
        }
    }
}

/// Samples a calendar date uniformly between two day-number bounds.
#[derive(Debug)]
pub struct DateRangeGen {
    pub after: i64,
    pub range_in_days: i64,
}

/// Samples an integer uniformly between two inclusive bounds.
#[derive(Debug)]
pub struct IntegerRangeGen {
    pub from: i64,
    pub to: i64,
}

/// Samples a fixed-point real uniformly between two inclusive bounds.
#[derive(Debug)]
pub struct RealRangeGen {
    pub from: i64,
    pub to: i64,
}

/// Samples a random alphanumeric string whose length is drawn uniformly
/// between two inclusive bounds.
#[derive(Debug)]
pub struct StringRangeGen {
    pub from: usize,
    pub to: usize,
}

/// Produces a fixed string, cloned on every draw.
#[derive(Debug)]
pub struct LiteralGen(pub String);

/// Produces another identifier's value for the current row.
#[derive(Debug)]
pub struct IdentifierGen(pub String);

/// Concatenates the display text of several sub-generators' values.
#[derive(Debug)]
pub struct JoinGen(pub Vec<GeneratorEnum>);

/// Chooses among candidate generators by cumulative weight: a uniform
/// draw in `[0, WEIGHT_TOTAL)` selects the first candidate whose
/// cumulative weight strictly exceeds it.
#[derive(Debug)]
pub struct AlternationGen {
    pub wgens: Vec<CumulWeightedGen>,
}

/// Reads a shared nested decision tree at a fixed depth.
#[derive(Debug)]
pub struct NestedGenerator {
    pub read_depth: usize,
    pub tree: Rc<ValueTree>,
}

/// One arm of a match level: predicates over a prior identifier's value
/// and the subtree taken when one of them accepts it.
#[derive(Debug)]
pub struct MatchArm {
    pub match_conditions: MatchConditions,
    pub children: ValueTree,
}

/// The predicates of one arm: the identifier whose value is inspected and
/// the alternatives tested against it.
#[derive(Debug)]
pub struct MatchConditions {
    pub id: String,
    pub matchers: Vec<MatchExpr>,
}

/// One arm of an assign level: the restated predicates derived from the
/// assigned candidate values, and the optional subtree for the next
/// identifier.
#[derive(Debug)]
pub struct AssignArm {
    pub match_conditions: MatchConditions,
    pub children: Option<ValueTree>,
}

/// A nested decision tree: match levels branch on an earlier identifier's
/// value, assign levels produce this level's value through a weighted
/// alternation and pair each candidate with an optional deeper subtree.
#[derive(Debug)]
pub enum ValueTree {
    Match(Vec<MatchArm>, Option<Box<ValueTree>>),
    Assign(Vec<AssignArm>, GeneratorEnum),
}

/// Every kind of value generator.
#[derive(Debug)]
pub enum GeneratorEnum {
    DateRange(DateRangeGen),
    IntegerRange(IntegerRangeGen),
    RealRange(RealRangeGen),
    StringRange(StringRangeGen),
    Literal(LiteralGen),
    Identifier(IdentifierGen),
    Alternation(Box<AlternationGen>),
    Join(JoinGen),
    Nested(NestedGenerator),
}

// ---------------------------------------------------------------------
// Structural height, the termination measure for every walk over a
// generator tree.
// ---------------------------------------------------------------------

/// The height of a generator tree.
pub open spec fn gen_height(g: GeneratorEnum) -> nat
    decreases g,
{
    match g {
        GeneratorEnum::Join(JoinGen(subs)) => 1 + gens_height(subs@),
        GeneratorEnum::Alternation(alt) => 1 + wgens_height(alt.wgens@),
        GeneratorEnum::Nested(ng) => 1 + tree_height(*ng.tree),
        _ => 1,
    }
}

/// The greatest height among a list of generators.
pub open spec fn gens_height(s: Seq<GeneratorEnum>) -> nat
    decreases s,
{
    if s.len() == 0 {
        0
    } else {
        vstd::math::max(gens_height(s.drop_last()) as int, gen_height(s.last()) as int) as nat
    }
}

/// The greatest height among weighted candidates.
pub open spec fn wgens_height(s: Seq<CumulWeightedGen>) -> nat
    decreases s,
{
    if s.len() == 0 {
        0
    } else {
        vstd::math::max(wgens_height(s.drop_last()) as int, gen_height(s.last().value) as int) as nat
    }
}

/// The height of a decision tree, counting the generators inside it.
pub open spec fn tree_height(t: ValueTree) -> nat
    decreases t,
{
    match t {
        ValueTree::Match(arms, wildcard) => {
            let w = match wildcard {
                Some(child) => tree_height(*child),
                None => 0,
            };
            1 + vstd::math::max(match_arms_height(arms@) as int, w as int) as nat
        },
        ValueTree::Assign(arms, gen) => {
            1 + vstd::math::max(assign_arms_height(arms@) as int, gen_height(gen) as int) as nat
        },
    }
}

/// The greatest height among match arms.
pub open spec fn match_arms_height(s: Seq<MatchArm>) -> nat
    decreases s,
{
    if s.len() == 0 {
        0
    } else {
        vstd::math::max(match_arms_height(s.drop_last()) as int, tree_height(s.last().children) as int) as nat
    }
}

/// The greatest height among assign arms.
pub open spec fn assign_arms_height(s: Seq<AssignArm>) -> nat
    decreases s,
{
    if s.len() == 0 {
        0
    } else {
        let c = match s.last().children {
            Some(child) => tree_height(child),
            None => 0,
        };
        vstd::math::max(assign_arms_height(s.drop_last()) as int, c as int) as nat
    }
}

/// A listed generator is no taller than the list's height.
pub proof fn lemma_gens_height_bound(s: Seq<GeneratorEnum>, i: int)
    requires
        0 <= i < s.len(),
    ensures
        gen_height(s[i]) <= gens_height(s),
    decreases s.len(),
{
    if i < s.len() - 1 {
        assert(s.drop_last()[i] == s[i]);
        lemma_gens_height_bound(s.drop_last(), i);
    }
}

/// A listed candidate's generator is no taller than the list's height.
pub proof fn lemma_wgens_height_bound(s: Seq<CumulWeightedGen>, i: int)
    requires
        0 <= i < s.len(),
    ensures
        gen_height(s[i].value) <= wgens_height(s),
    decreases s.len(),
{
    if i < s.len() - 1 {
        assert(s.drop_last()[i] == s[i]);
        lemma_wgens_height_bound(s.drop_last(), i);
    }
}

/// A listed match arm's subtree is no taller than the list's height.
pub proof fn lemma_match_arms_height_bound(s: Seq<MatchArm>, i: int)
    requires
        0 <= i < s.len(),
    ensures
        tree_height(s[i].children) <= match_arms_height(s),
    decreases s.len(),
{
    if i < s.len() - 1 {
        assert(s.drop_last()[i] == s[i]);
        lemma_match_arms_height_bound(s.drop_last(), i);
    }
}

/// A listed assign arm's subtree is no taller than the list's height.
pub proof fn lemma_assign_arms_height_bound(s: Seq<AssignArm>, i: int)
    requires
        0 <= i < s.len(),
        s[i].children is Some,
    ensures
        tree_height(s[i].children->0) <= assign_arms_height(s),
    decreases s.len(),
{
    if i < s.len() - 1 {
        assert(s.drop_last()[i] == s[i]);
        lemma_assign_arms_height_bound(s.drop_last(), i);
    }
}

// ---------------------------------------------------------------------
// Well-formedness: what the constructors establish and evaluation
// requires.
// ---------------------------------------------------------------------

/// The cumulative weights stored in a candidate list.
pub open spec fn cumuls_of(s: Seq<CumulWeightedGen>) -> Seq<u64> {
    s.map(|i: int, c: CumulWeightedGen| c.cumul_weight)
}

/// Whether an alternation's candidate list is fit for selection: at least
/// one candidate, nondecreasing cumulative weights pinned to the whole at
/// the end, and well-formed candidate generators.
pub open spec fn alt_wf(a: AlternationGen) -> bool
    decreases a,
{
    &&& a.wgens@.len() > 0
    &&& a.wgens@.last().cumul_weight == WEIGHT_TOTAL
    &&& forall|i: int, j: int| 0 <= i <= j < a.wgens@.len()
        ==> #[trigger] a.wgens@[i].cumul_weight <= #[trigger] a.wgens@[j].cumul_weight
    &&& forall|i: int| 0 <= i < a.wgens@.len() ==> gen_wf(#[trigger] a.wgens@[i].value)
}

/// Whether a generator is fit for evaluation.
pub open spec fn gen_wf(g: GeneratorEnum) -> bool
    decreases g,
{
    match g {
        GeneratorEnum::DateRange(d) => d.range_in_days >= 0
            && d.after + d.range_in_days <= i64::MAX,
        GeneratorEnum::IntegerRange(r) => r.from <= r.to,
        GeneratorEnum::RealRange(r) => r.from <= r.to,
        GeneratorEnum::StringRange(r) => r.from <= r.to,
        GeneratorEnum::Literal(_) => true,
        GeneratorEnum::Identifier(_) => true,
        GeneratorEnum::Join(JoinGen(subs)) =>
            forall|i: int| 0 <= i < subs@.len() ==> gen_wf(#[trigger] subs@[i]),
        GeneratorEnum::Alternation(alt) => alt_wf(*alt),
        GeneratorEnum::Nested(ng) => tree_wf(*ng.tree),
    }
}

/// Whether a generator can never fail: it reads no other identifier and
/// holds no decision tree, so every draw produces a value.
pub open spec fn gen_total(g: GeneratorEnum) -> bool
    decreases g,
{
    match g {
        GeneratorEnum::DateRange(_) => true,
        GeneratorEnum::IntegerRange(_) => true,
        GeneratorEnum::RealRange(_) => true,
        GeneratorEnum::StringRange(_) => true,
        GeneratorEnum::Literal(_) => true,
        GeneratorEnum::Identifier(_) => false,
        GeneratorEnum::Join(jg) =>
            forall|i: int| 0 <= i < jg.0@.len() ==> gen_total(#[trigger] jg.0@[i]),
        GeneratorEnum::Alternation(alt) =>
            forall|i: int| 0 <= i < alt.wgens@.len() ==> gen_total((#[trigger] alt.wgens@[i]).value),
        GeneratorEnum::Nested(_) => false,
    }
}

/// Whether a decision tree is fit for evaluation.
pub open spec fn tree_wf(t: ValueTree) -> bool
    decreases t,
{
    match t {
        ValueTree::Match(arms, wildcard) => {
            &&& forall|i: int| 0 <= i < arms@.len() ==> tree_wf(#[trigger] arms@[i].children)
            &&& match wildcard {
                Some(child) => tree_wf(*child),
                None => true,
            }
        },
        ValueTree::Assign(arms, gen) => {
            &&& forall|i: int| 0 <= i < arms@.len()
                ==> ((#[trigger] arms@[i].children) matches Some(c) ==> tree_wf(c))
            &&& gen_wf(gen)
        },
    }
}

// ---------------------------------------------------------------------
// Primitive generators.
// ---------------------------------------------------------------------

impl DateRangeGen {
    /// Builds a date range from two day-number bounds, in either order;
    /// spans wider than an `i64` are capped.
    pub fn new(from: i64, to: i64) -> (r: Self)
        ensures
            r.after == vstd::math::min(from as int, to as int),
            r.range_in_days == vstd::math::min(
                vstd::math::max(from as int, to as int) - vstd::math::min(from as int, to as int),
                i64::MAX as int,
            ),
            gen_wf(GeneratorEnum::DateRange(r)),
    {
        let lo = if from <= to { from } else { to };
        let hi = if from <= to { to } else { from };
        let span: i128 = hi as i128 - lo as i128;
        let range_in_days: i64 = if span > i64::MAX as i128 { i64::MAX } else { span as i64 };
        assert(lo as int + range_in_days as int <= hi as int);
        DateRangeGen { after: lo, range_in_days }
    }

    /// Draws a day number uniformly from the range.
    pub fn generate_value(&self) -> (r: OutValue)
        requires
            gen_wf(GeneratorEnum::DateRange(*self)),
        ensures
            r matches OutValue::Date(d)
                && self.after <= d
                && d <= self.after + self.range_in_days,
    {
        let offset = random_i64_inclusive(0, self.range_in_days);
        OutValue::Date(self.after + offset)
    }
}

impl IntegerRangeGen {
    /// Builds an integer range from two inclusive bounds; bounds given in
    /// reverse order are normalized, so declaration order never produces
    /// an empty range.
    pub fn new(from: i64, to: i64) -> (r: Self)
        ensures
            r.from == vstd::math::min(from as int, to as int),
            r.to == vstd::math::max(from as int, to as int),
            gen_wf(GeneratorEnum::IntegerRange(r)),
    {
        if from <= to {
            IntegerRangeGen { from, to }
        } else {
            IntegerRangeGen { from: to, to: from }
        }
    }

    /// The normalized inclusive bounds.
    pub fn bounds(&self) -> (r: (i64, i64))
        ensures
            r.0 == self.from,
            r.1 == self.to,
    {
        (self.from, self.to)
    }

    /// Draws an integer uniformly from the inclusive range.
    pub fn generate_value(&self) -> (r: OutValue)
        requires
            gen_wf(GeneratorEnum::IntegerRange(*self)),
        ensures
            r matches OutValue::I64(v) && self.from <= v && v <= self.to,
    {
        OutValue::I64(random_i64_inclusive(self.from, self.to))
    }
}

impl RealRangeGen {
    /// Builds a fixed-point real range from two inclusive bounds in
    /// millionths; bounds given in reverse order are normalized.
    pub fn new(from: i64, to: i64) -> (r: Self)
        ensures
            r.from == vstd::math::min(from as int, to as int),
            r.to == vstd::math::max(from as int, to as int),
            gen_wf(GeneratorEnum::RealRange(r)),
    {
        if from <= to {
            RealRangeGen { from, to }
        } else {
            RealRangeGen { from: to, to: from }
        }
    }

    /// Draws a fixed-point real uniformly from the inclusive range.
    pub fn generate_value(&self) -> (r: OutValue)
        requires
            gen_wf(GeneratorEnum::RealRange(*self)),
        ensures
            r matches OutValue::Real(v) && self.from <= v && v <= self.to,
    {
        OutValue::Real(random_i64_inclusive(self.from, self.to))
    }
}

/// A signed length clamped into the range of string lengths.
pub open spec fn clamped_len(v: int) -> int {
    if v < 0 {
        0
    } else if v > usize::MAX {
        usize::MAX as int
    } else {
        v
    }
}

impl StringRangeGen {
    /// Builds a random-string generator from two inclusive length bounds;
    /// bounds given in reverse order are normalized and negative lengths
    /// are clamped to zero.
    pub fn new(from: i64, to: i64) -> (r: Self)
        ensures
            r.from == clamped_len(vstd::math::min(from as int, to as int)),
            r.to == clamped_len(vstd::math::max(from as int, to as int)),
            gen_wf(GeneratorEnum::StringRange(r)),
    {
        let lo = if from <= to { from } else { to };
        let hi = if from <= to { to } else { from };
        StringRangeGen { from: Self::clamp(lo), to: Self::clamp(hi) }
    }

    /// The normalized inclusive length bounds.
    pub fn bounds(&self) -> (r: (usize, usize))
        ensures
            r.0 == self.from,
            r.1 == self.to,
    {
        (self.from, self.to)
    }

    fn clamp(v: i64) -> (r: usize)
        ensures
            r == clamped_len(v as int),
    {
        if v < 0 {
            0
        } else if v as u64 > usize::MAX as u64 {
            usize::MAX
        } else {
            v as usize
        }
    }

    /// Draws a length uniformly from the range, then that many random
    /// alphanumeric characters.
    pub fn generate_value(&self) -> (r: OutValue)
        requires
            gen_wf(GeneratorEnum::StringRange(*self)),
        ensures
            r matches OutValue::String(s)
                && self.from <= s@.len() <= self.to
                && forall|i: int| 0 <= i < s@.len() ==> is_alphanumeric_char(#[trigger] s@[i]),
    {
        let span: usize = self.to - self.from;
        let length: usize = if span == usize::MAX {
            // The only draw that needs the whole usize range.
            random_u64_below(u64::MAX) as usize
        } else {
            self.from + (random_u64_below(span as u64 + 1) as usize)
        };
        let s = random_alphanumeric_string(length);
        OutValue::String(s)
    }
}

impl LiteralGen {
    /// Wraps a fixed string.
    pub fn new(literal: String) -> (r: Self)
        ensures
            r.0@ == literal@,
            gen_wf(GeneratorEnum::Literal(r)),
    {
        LiteralGen(literal)
    }

    /// Returns the fixed string, cloned.
    pub fn generate_value(&self) -> (r: OutValue)
        ensures
            r matches OutValue::String(s) && s@ == self.0@,
    {
        OutValue::String(self.0.clone())
    }
}

impl IdentifierGen {
    /// Wraps the name of the identifier whose value is read.
    pub fn new(identifier: String) -> (r: Self)
        ensures
            r.0@ == identifier@,
            gen_wf(GeneratorEnum::Identifier(r)),
    {
        IdentifierGen(identifier)
    }
}

impl NestedGenerator {
    /// Binds a read depth into a shared decision tree.
    pub fn new(read_depth: usize, tree: Rc<ValueTree>) -> (r: Self)
        ensures
            r.read_depth == read_depth,
            r.tree == tree,
            tree_wf(*tree) ==> gen_wf(GeneratorEnum::Nested(r)),
    {
        NestedGenerator { read_depth, tree }
    }
}

// ---------------------------------------------------------------------
// The weighted alternation generator.
// ---------------------------------------------------------------------

/// The optional explicit weights of a candidate list.
pub open spec fn weights_of<T>(s: Seq<MaybeWeighted<T>>) -> Seq<Option<u64>> {
    s.map(|i: int, mw: MaybeWeighted<T>| mw.weight)
}

impl AlternationGen {
    /// The candidates' cumulative weights, for inspection.
    pub fn cumulative_weights(&self) -> (r: Vec<u64>)
        ensures
            r@ == cumuls_of(self.wgens@),
    {
        let mut out: Vec<u64> = Vec::new();
        let mut i: usize = 0;
        while i < self.wgens.len()
            invariant
                i <= self.wgens@.len(),
                out@ == cumuls_of(self.wgens@).take(i as int),
            decreases self.wgens@.len() - i,
        {
            out.push(self.wgens[i].cumul_weight);
            assert(cumuls_of(self.wgens@).take(i + 1)
                =~= cumuls_of(self.wgens@).take(i as int).push(self.wgens@[i as int].cumul_weight));
            i = i + 1;
        }
        assert(cumuls_of(self.wgens@).take(self.wgens@.len() as int) =~= cumuls_of(self.wgens@));
        out
    }

    /// How many candidates the alternation holds.
    pub fn len(&self) -> (r: usize)
        ensures
            r == self.wgens@.len(),
    {
        self.wgens.len()
    }

    /// Selects the candidate for a draw: the first whose cumulative
    /// weight strictly exceeds it, so a tie at a boundary falls to the
    /// earlier candidate.
    pub fn pick(&self, draw: u64) -> (idx: usize)
        requires
            alt_wf(*self),
            draw < WEIGHT_TOTAL,
        ensures
            idx < self.wgens@.len(),
            idx as int == first_hit(cumuls_of(self.wgens@), draw),
            draw < self.wgens@[idx as int].cumul_weight,
    {
        proof {
            assert(cumuls_of(self.wgens@).last() == self.wgens@.last().cumul_weight);
            lemma_first_hit_characterization(cumuls_of(self.wgens@), draw);
        }
        let ghost h = first_hit(cumuls_of(self.wgens@), draw);
        let n = self.wgens.len();
        let mut i: usize = 0;
        while i < n - 1
            invariant
                alt_wf(*self),
                n == self.wgens@.len(),
                0 < n,
                i < n,
                forall|j: int| 0 <= j < i ==> cumuls_of(self.wgens@)[j] <= draw,
                draw < WEIGHT_TOTAL,
                h == first_hit(cumuls_of(self.wgens@), draw),
                0 <= h < n,
                draw < cumuls_of(self.wgens@)[h],
                forall|j: int| 0 <= j < h ==> cumuls_of(self.wgens@)[j] <= draw,
            decreases n - i,
        {
            if draw < self.wgens[i].cumul_weight {
                proof {
                    assert(cumuls_of(self.wgens@)[i as int] == self.wgens@[i as int].cumul_weight);
                    if h < i as int {
                        assert(cumuls_of(self.wgens@)[h] <= draw);
                        assert(false);
                    }
                    if h > i as int {
                        assert(cumuls_of(self.wgens@)[i as int] <= draw);
                        assert(false);
                    }
                }
                return i;
            }
            proof {
                assert(cumuls_of(self.wgens@)[i as int] == self.wgens@[i as int].cumul_weight);
            }
            i = i + 1;
        }
        proof {
            if h < n - 1 {
                assert(cumuls_of(self.wgens@)[h] <= draw);
                assert(false);
            }
            assert(cumuls_of(self.wgens@)[n - 1] == self.wgens@.last().cumul_weight);
        }
        n - 1
    }

    /// Builds an alternation from weighted candidates: unweighted entries
    /// share the leftover weight as evenly as the units allow, cumulative
    /// weights run in declaration order, and the final entry is pinned to
    /// the whole so that selection always lands on some candidate.
    pub fn new(maybe_weighteds: Vec<MaybeWeighted<GeneratorEnum>>) -> (r: Result<Self, EvaluationError>)
        ensures
            match r {
                Ok(alt) => {
                    &&& maybe_weighteds@.len() > 0
                    &&& alt.wgens@.len() == maybe_weighteds@.len()
                    &&& forall|i: int| 0 <= i < alt.wgens@.len()
                        ==> #[trigger] alt.wgens@[i].value == maybe_weighteds@[i].value
                    &&& forall|i: int| 0 <= i < alt.wgens@.len()
                        ==> #[trigger] alt.wgens@[i].cumul_weight as int
                            == cumulative_weight(weights_of(maybe_weighteds@), i)
                    &&& (forall|i: int| 0 <= i < maybe_weighteds@.len()
                            ==> gen_wf(#[trigger] maybe_weighteds@[i].value)) ==> alt_wf(alt)
                },
                Err(e) => {
                    &&& e is EmptyValueSet
                    &&& maybe_weighteds@.len() == 0
                },
            },
    {
        let ghost ws = weights_of(maybe_weighteds@);
        let n = maybe_weighteds.len();
        if n == 0 {
            return Err(EvaluationError::EmptyValueSet);
        }

        // First pass: the capped explicit sum and the unweighted count.
        let mut e_sum: u128 = 0;
        let mut k: usize = 0;
        let mut i: usize = 0;
        while i < n
            invariant
                n == maybe_weighteds@.len(),
                ws == weights_of(maybe_weighteds@),
                i <= n,
                e_sum == explicit_sum(ws.take(i as int)),
                e_sum <= i as int * (WEIGHT_TOTAL as int),
                k as int == unweighted_count(ws.take(i as int)),
                k <= i,
            decreases n - i,
        {
            proof {
                assert(ws.take(i + 1).drop_last() =~= ws.take(i as int));
                assert(ws.take(i + 1).last() == ws[i as int]);
            }
            match maybe_weighteds[i].weight {
                Some(w) => {
                    let capped_w = if w > WEIGHT_TOTAL { WEIGHT_TOTAL } else { w };
                    e_sum = e_sum + capped_w as u128;
                },
                None => {
                    k = k + 1;
                },
            }
            i = i + 1;
        }
        proof {
            assert(ws.take(n as int) =~= ws);
        }

        // Leftover weight and its even split.
        let l: u64 = if e_sum <= WEIGHT_TOTAL as u128 {
            WEIGHT_TOTAL - e_sum as u64
        } else {
            0
        };
        assert(l as int == leftover(ws));
        let (base, rem): (u64, u64) = if k > 0 {
            (l / k as u64, l % k as u64)
        } else {
            (0, 0)
        };
        proof {
            if k > 0 {
                assert(base as int == implicit_base(ws));
                assert(rem as int == implicit_rem(ws));
            }
        }

        // Second pass: effective weights and saturated cumulative sums.
        let mut cumuls: Vec<u64> = Vec::new();
        let mut seen_nones: usize = 0;
        let mut cum: u64 = 0;
        let mut i: usize = 0;
        while i < n
            invariant
                n == maybe_weighteds@.len(),
                n > 0,
                ws == weights_of(maybe_weighteds@),
                i <= n,
                cumuls@.len() == i,
                seen_nones as int == unweighted_count(ws.take(i as int)),
                seen_nones <= i,
                k as int == unweighted_count(ws),
                k > 0 ==> base as int == implicit_base(ws) && rem as int == implicit_rem(ws),
                k == 0 ==> base == 0 && rem == 0,
                base <= WEIGHT_TOTAL,
                cum <= WEIGHT_TOTAL,
                cum as int == if effective_prefix_sum(ws, i as int) > WEIGHT_TOTAL as int {
                    WEIGHT_TOTAL as int
                } else {
                    effective_prefix_sum(ws, i as int)
                },
                effective_prefix_sum(ws, i as int) >= 0,
                forall|j: int| 0 <= j < i && j < n - 1
                    ==> #[trigger] cumuls@[j] as int == cumulative_weight(ws, j),
                forall|j: int, jj: int| 0 <= j <= jj < i
                    ==> #[trigger] cumuls@[j] <= #[trigger] cumuls@[jj],
                i > 0 ==> cumuls@[i - 1] == cum,
            decreases n - i,
        {
            proof {
                assert(ws.take(i + 1).drop_last() =~= ws.take(i as int));
                assert(ws.take(i + 1).last() == ws[i as int]);
                assert(ws[i as int] == maybe_weighteds@[i as int].weight);
                if ws[i as int] is None {
                    crate::weights::lemma_unweighted_count_at(ws, i as int);
                    crate::weights::lemma_unweighted_count_le_len(ws.take(i as int));
                    crate::weights::lemma_explicit_sum_nonneg(ws);
                    vstd::arithmetic::div_mod::lemma_fundamental_div_mod(leftover(ws), k as int);
                    vstd::arithmetic::div_mod::lemma_mod_division_less_than_divisor(leftover(ws), k as int);
                    vstd::arithmetic::div_mod::lemma_div_pos_is_pos(leftover(ws), k as int);
                    assert(k as int * implicit_base(ws) >= implicit_base(ws)) by (nonlinear_arith)
                        requires k as int >= 1, implicit_base(ws) >= 0;
                }
            }
            let w: u64 = match maybe_weighteds[i].weight {
                Some(w) => {
                    if w > WEIGHT_TOTAL { WEIGHT_TOTAL } else { w }
                },
                None => {
                    let extra: u64 = if (seen_nones as u64) < rem { 1 } else { 0 };
                    assert(base + extra <= WEIGHT_TOTAL);
                    seen_nones = seen_nones + 1;
                    base + extra
                },
            };
            assert(w as int == crate::weights::effective_weight(ws, i as int));
            assert(w <= WEIGHT_TOTAL);
            let sum = cum + w;
            cum = if sum > WEIGHT_TOTAL { WEIGHT_TOTAL } else { sum };
            cumuls.push(cum);
            i = i + 1;
        }

        // Pin the last cumulative weight to the whole.
        cumuls.set(n - 1, WEIGHT_TOTAL);
        assert(forall|j: int| 0 <= j < n
            ==> #[trigger] cumuls@[j] as int == cumulative_weight(ws, j));
        assert(forall|j: int, jj: int| 0 <= j <= jj < n
            ==> #[trigger] cumuls@[j] <= #[trigger] cumuls@[jj]);

        // Third pass: attach the candidate generators in declaration
        // order.
        let ghost original = maybe_weighteds@;
        let mut rest = maybe_weighteds;
        let mut wgens: Vec<CumulWeightedGen> = Vec::new();
        let mut i: usize = 0;
        while i < n
            invariant
                n == original.len(),
                n == cumuls@.len(),
                i <= n,
                rest@ =~= original.subrange(i as int, n as int),
                wgens@.len() == i,
                forall|j: int| 0 <= j < i ==> #[trigger] wgens@[j].value == original[j].value,
                forall|j: int| 0 <= j < i ==> #[trigger] wgens@[j].cumul_weight == cumuls@[j],
            decreases n - i,
        {
            let mw = rest.remove(0);
            assert(mw == original[i as int]);
            wgens.push(CumulWeightedGen { cumul_weight: cumuls[i], value: mw.value });
            i = i + 1;
        }

        let alt = AlternationGen { wgens };
        proof {
            assert(alt.wgens@.last().cumul_weight == cumuls@[n - 1]);
            if forall|i: int| 0 <= i < original.len() ==> gen_wf(#[trigger] original[i].value) {
                assert forall|i: int| 0 <= i < alt.wgens@.len() implies gen_wf(#[trigger] alt.wgens@[i].value) by {
                    assert(alt.wgens@[i].value == original[i].value);
                }
            }
        }
        Ok(alt)
    }
}

} // verus!
