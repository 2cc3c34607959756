//! Row evaluation: the per-row memoizing scope and the lazy generator
//! walk.
//!
//! A row is produced by a fresh `Context`: identifiers are evaluated on
//! first read, cached, and never overwritten, so two readers of the same
//! identifier within one row see the identical value.  A set of
//! identifiers currently being evaluated detects cyclic references, and
//! doubles as part of the termination measure: every nested read either
//! consumes a structurally smaller piece of a generator or permanently
//! claims one more identifier.

use vstd::prelude::*;
use std::rc::Rc;

use crate::bindings::{bcontains, bdef, bindings_wf, bkeys, Bindings};
use crate::deps::{lemma_string_keys_contains, lemma_string_keys_finite, name_views, string_keys};
use crate::engine::{
    assign_arms_height, gen_height, gen_total, gen_wf, match_expr_accepts, tree_height, tree_wf,
    AssignArm, GeneratorEnum, MatchConditions, ValueTree, lemma_assign_arms_height_bound,
    lemma_gens_height_bound, lemma_match_arms_height_bound, lemma_wgens_height_bound,
};
use crate::errors::EvaluationError;
use crate::rng::random_u64_below;
use crate::values::OutValue;
use crate::weights::WEIGHT_TOTAL;

verus! {

broadcast use vstd::set::group_set_axioms;

/// The per-row cache of already generated values.
#[derive(Debug)]
pub struct Scope {
    pub entries: Vec<(String, Rc<OutValue>)>,
}

/// The key views of the cache's entries.
pub open spec fn skey_seq(s: Seq<(String, Rc<OutValue>)>) -> Seq<Seq<char>> {
    s.map(|i: int, e: (String, Rc<OutValue>)| e.0@)
}

/// The set of cached identifiers.
pub open spec fn skeys(s: Scope) -> Set<Seq<char>> {
    string_keys(skey_seq(s.entries@))
}

/// Whether an identifier is cached.
pub open spec fn scontains(s: Scope, id: Seq<char>) -> bool {
    exists|i: int| 0 <= i < s.entries@.len() && (#[trigger] s.entries@[i]).0@ == id
}

/// The cached value of an identifier.
pub open spec fn sval(s: Seq<(String, Rc<OutValue>)>, id: Seq<char>) -> OutValue
    decreases s.len(),
{
    if s.len() == 0 {
        arbitrary()
    } else if s.last().0@ == id {
        *s.last().1
    } else {
        sval(s.drop_last(), id)
    }
}

/// Whether the cache is fit for use: each identifier appears at most
/// once.
pub open spec fn scope_wf(s: Scope) -> bool {
    forall|i: int, j: int| 0 <= i < j < s.entries@.len()
        ==> (#[trigger] s.entries@[i]).0@ != (#[trigger] s.entries@[j]).0@
}

/// Being cached and being in the key set agree.
pub proof fn lemma_scontains_skeys(s: Scope, id: Seq<char>)
    ensures
        scontains(s, id) <==> skeys(s).contains(id),
{
    let ks = skey_seq(s.entries@);
    lemma_string_keys_contains(ks, id);
    assert forall|i: int| 0 <= i < s.entries@.len()
        implies #[trigger] ks[i] == (#[trigger] s.entries@[i]).0@ by {}
    if scontains(s, id) {
        let i = choose|i: int| 0 <= i < s.entries@.len() && (#[trigger] s.entries@[i]).0@ == id;
        assert(ks[i] == id);
    }
    if skeys(s).contains(id) {
        let i = choose|i: int| 0 <= i < ks.len() && ks[i] == id;
        assert(s.entries@[i].0@ == id);
    }
}

/// The cached value is the one found at any matching index.
pub proof fn lemma_sval_at(s: Seq<(String, Rc<OutValue>)>, id: Seq<char>, i: int)
    requires
        forall|a: int, b: int| 0 <= a < b < s.len()
            ==> (#[trigger] s[a]).0@ != (#[trigger] s[b]).0@,
        0 <= i < s.len(),
        s[i].0@ == id,
    ensures
        sval(s, id) == *s[i].1,
    decreases s.len(),
{
    if i < s.len() - 1 {
        assert(s.drop_last()[i] == s[i]);
        lemma_sval_at(s.drop_last(), id, i);
    }
}

/// Adding an entry leaves every other identifier's cached value alone.
pub proof fn lemma_sval_push(s: Seq<(String, Rc<OutValue>)>, e: (String, Rc<OutValue>), id: Seq<char>)
    requires
        id != e.0@,
    ensures
        sval(s.push(e), id) == sval(s, id),
{
    assert(s.push(e).drop_last() =~= s);
}

impl Scope {
    /// An empty cache.
    pub fn new() -> (r: Self)
        ensures
            r.entries@.len() == 0,
            scope_wf(r),
    {
        Scope { entries: Vec::new() }
    }

    /// The cached value of an identifier, if the identifier has already
    /// been generated in this row.
    pub fn get_value(&self, id: &str) -> (r: Option<Rc<OutValue>>)
        requires
            scope_wf(*self),
        ensures
            r matches Some(v) ==> scontains(*self, id@) && *v == sval(self.entries@, id@),
            r is None <==> !scontains(*self, id@),
    {
        let key: String = id.to_owned();
        let n = self.entries.len();
        let mut i: usize = 0;
        while i < n
            invariant
                scope_wf(*self),
                n == self.entries@.len(),
                i <= n,
                key@ == id@,
                forall|j: int| 0 <= j < i ==> (#[trigger] self.entries@[j]).0@ != id@,
            decreases n - i,
        {
            if self.entries[i].0.eq(&key) {
                proof {
                    lemma_sval_at(self.entries@, id@, i as int);
                }
                return Some(self.entries[i].1.clone());
            }
            i = i + 1;
        }
        None
    }

    /// Caches a value under an identifier; caching is write-once, so a
    /// second write to the same identifier fails and changes nothing.
    pub fn set_value(&mut self, id: &str, value: Rc<OutValue>)
        -> (r: Result<Rc<OutValue>, EvaluationError>)
        requires
            scope_wf(*old(self)),
        ensures
            scope_wf(*final(self)),
            r matches Ok(v) ==> {
                &&& !scontains(*old(self), id@)
                &&& v == value
                &&& final(self).entries@.len() == old(self).entries@.len() + 1
                &&& final(self).entries@.drop_last() == old(self).entries@
                &&& final(self).entries@.last().0@ == id@
                &&& final(self).entries@.last().1 == value
                &&& scontains(*final(self), id@)
                &&& sval(final(self).entries@, id@) == *value
            },
            r matches Err(e) ==> e is DuplicateIdentifier
                && scontains(*old(self), id@)
                && *final(self) == *old(self),
    {
        match self.get_value(id) {
            Some(_) => Err(EvaluationError::DuplicateIdentifier(id.to_owned())),
            None => {
                let rc = value.clone();
                self.entries.push((id.to_owned(), value));
                proof {
                    assert(self.entries@.drop_last() =~= old(self).entries@);
                    assert forall|a: int, b: int| 0 <= a < b < self.entries@.len()
                        implies (#[trigger] self.entries@[a]).0@ != (#[trigger] self.entries@[b]).0@ by {
                        if b == self.entries@.len() - 1 {
                            assert(self.entries@[a] == old(self).entries@[a]);
                        }
                    }
                }
                Ok(rc)
            },
        }
    }
}

/// The set of identifiers currently being evaluated.
pub open spec fn pkeys(p: Seq<String>) -> Set<Seq<char>> {
    string_keys(name_views(p))
}

/// Whether an identifier is currently being evaluated.
pub open spec fn pcontains(p: Seq<String>, id: Seq<char>) -> bool {
    exists|i: int| 0 <= i < p.len() && (#[trigger] p[i])@ == id
}

/// Being pending and being in the pending key set agree.
pub proof fn lemma_pcontains_pkeys(p: Seq<String>, id: Seq<char>)
    ensures
        pcontains(p, id) <==> pkeys(p).contains(id),
{
    let ks = name_views(p);
    lemma_string_keys_contains(ks, id);
    assert forall|i: int| 0 <= i < p.len() implies #[trigger] ks[i] == (#[trigger] p[i])@ by {}
    if pcontains(p, id) {
        let i = choose|i: int| 0 <= i < p.len() && (#[trigger] p[i])@ == id;
        assert(ks[i] == id);
    }
    if pkeys(p).contains(id) {
        let i = choose|i: int| 0 <= i < ks.len() && ks[i] == id;
        assert(p[i]@ == id);
    }
}

/// The full evaluation invariant: well-formed registry and cache, a
/// duplicate-free pending list of registered, not-yet-cached
/// identifiers, and a cache that models the registry — every cached
/// value is one its identifier's registered generator can produce for
/// this row.
pub open spec fn eval_inv(b: Bindings, s: Scope, p: Seq<String>) -> bool {
    &&& bindings_wf(b)
    &&& scope_wf(s)
    &&& forall|i: int, j: int| 0 <= i < j < p.len() ==> (#[trigger] p[i])@ != (#[trigger] p[j])@
    &&& forall|i: int| 0 <= i < p.len() ==> bcontains(b, (#[trigger] p[i])@)
    &&& forall|i: int| 0 <= i < p.len() ==> !scontains(s, (#[trigger] p[i])@)
    &&& forall|i: int| 0 <= i < s.entries@.len() ==> {
        &&& bcontains(b, (#[trigger] s.entries@[i]).0@)
        &&& gen_may_yield(*bdef(b.entries@, s.entries@[i].0@).gen, s, *s.entries@[i].1)
    }
}

/// The identifiers still open for a first evaluation: registered, not
/// cached, not pending.
pub open spec fn free_ids(b: Bindings, s: Scope, p: Seq<String>) -> Set<Seq<char>> {
    bkeys(b).difference(skeys(s)).difference(pkeys(p))
}

/// How many identifiers are still open; the leading termination measure
/// of the evaluation walk.
pub open spec fn avail(b: Bindings, s: Scope, p: Seq<String>) -> nat {
    free_ids(b, s, p).len()
}

/// The open set is finite.
pub proof fn lemma_free_ids_finite(b: Bindings, s: Scope, p: Seq<String>)
    ensures
        free_ids(b, s, p).finite(),
{
    lemma_string_keys_finite(crate::bindings::bkey_seq(b.entries@));
}

/// A smaller open set means no larger a count.
pub proof fn lemma_avail_monotone(b: Bindings, s1: Scope, p1: Seq<String>, s2: Scope, p2: Seq<String>)
    requires
        free_ids(b, s2, p2).subset_of(free_ids(b, s1, p1)),
    ensures
        avail(b, s2, p2) <= avail(b, s1, p1),
{
    lemma_free_ids_finite(b, s1, p1);
    lemma_free_ids_finite(b, s2, p2);
    vstd::set_lib::lemma_len_subset(free_ids(b, s2, p2), free_ids(b, s1, p1));
}

/// One row cache extends another: every identifier cached in the first
/// is cached in the second with the identical value.
pub open spec fn scope_ext(s0: Scope, s1: Scope) -> bool {
    forall|k: Seq<char>| #[trigger] scontains(s0, k)
        ==> scontains(s1, k) && sval(s1.entries@, k) == sval(s0.entries@, k)
}

/// What every evaluation step leaves intact: the cache only grows,
/// cached values never change, the pending list is restored, and no
/// identifier becomes open again.
pub open spec fn eval_frame(b: Bindings, s0: Scope, p0: Seq<String>, s1: Scope, p1: Seq<String>) -> bool {
    &&& p1 == p0
    &&& skeys(s0).subset_of(skeys(s1))
    &&& scope_ext(s0, s1)
    &&& free_ids(b, s1, p1).subset_of(free_ids(b, s0, p0))
}

/// The decision tree a nested generator reads.
pub open spec fn nested_tree_of(ng: crate::engine::NestedGenerator) -> ValueTree {
    *ng.tree
}

/// Whether one of an arm's predicates accepts the row's cached value of
/// the identifier the arm inspects.
pub open spec fn arm_accepts(cond: MatchConditions, s: Scope) -> bool {
    &&& scontains(s, cond.id@)
    &&& exists|j: int| 0 <= j < cond.matchers@.len()
        && match_expr_accepts(#[trigger] cond.matchers@[j], sval(s.entries@, cond.id@))
}

/// The concatenated display text of a list of values.
pub open spec fn concat_displays(vs: Seq<OutValue>) -> Seq<char>
    decreases vs.len(),
{
    if vs.len() == 0 {
        Seq::empty()
    } else {
        concat_displays(vs.drop_last()) + crate::values::out_value_display(vs.last())
    }
}

/// The values a generator can produce for a row whose cache ended as
/// `s`: ranges yield values within their bounds, a literal its fixed
/// string, an identifier reference the referenced identifier's cached
/// row value, a join the left-to-right concatenation of its
/// sub-generators' display texts, an alternation one of its candidates'
/// values, and a nested read a value reached through arms whose
/// predicates accept this row's cached values.
pub open spec fn gen_may_yield(g: GeneratorEnum, s: Scope, v: OutValue) -> bool
    decreases g,
{
    match g {
        GeneratorEnum::DateRange(d) => v matches OutValue::Date(x)
            && d.after <= x <= d.after + d.range_in_days,
        GeneratorEnum::IntegerRange(r) => v matches OutValue::I64(x) && r.from <= x <= r.to,
        GeneratorEnum::RealRange(r) => v matches OutValue::Real(x) && r.from <= x <= r.to,
        GeneratorEnum::StringRange(r) => v matches OutValue::String(t)
            && (r.from <= t@.len() <= r.to
                && forall|i: int| 0 <= i < t@.len()
                    ==> crate::rng::is_alphanumeric_char(#[trigger] t@[i])),
        GeneratorEnum::Literal(l) => v matches OutValue::String(t) && t@ == l.0@,
        GeneratorEnum::Identifier(idg) => scontains(s, idg.0@)
            && v == sval(s.entries@, idg.0@),
        GeneratorEnum::Join(jg) => exists|vs: Seq<OutValue>| {
            &&& #[trigger] vs.len() == jg.0@.len()
            &&& forall|i: int| 0 <= i < vs.len() ==> gen_may_yield(#[trigger] jg.0@[i], s, vs[i])
            &&& v matches OutValue::String(t) && t@ == concat_displays(vs)
        },
        GeneratorEnum::Alternation(alt) => exists|i: int| 0 <= i < alt.wgens@.len()
            && gen_may_yield((#[trigger] alt.wgens@[i]).value, s, v),
        GeneratorEnum::Nested(ng) => tree_may_yield(*ng.tree, ng.read_depth as int, s, v),
    }
}

/// The values a decision tree can yield when read at a depth for a row
/// whose cache ended as `s`: the read descends only through match arms
/// and assign arms whose predicates accept the row's cached values (or a
/// match level's wildcard), and lands on an assign level whose own
/// alternation produces the value.
pub open spec fn tree_may_yield(t: ValueTree, depth: int, s: Scope, v: OutValue) -> bool
    decreases t,
{
    if depth <= 0 {
        t matches ValueTree::Assign(_, gen) && gen_may_yield(gen, s, v)
    } else {
        match t {
            ValueTree::Match(arms, wildcard) => {
                ||| exists|i: int| 0 <= i < arms@.len()
                    && arm_accepts((#[trigger] arms@[i]).match_conditions, s)
                    && tree_may_yield(arms@[i].children, depth - 1, s, v)
                ||| (wildcard matches Some(c) && tree_may_yield(*c, depth - 1, s, v))
            },
            ValueTree::Assign(arms, _) => exists|i: int| 0 <= i < arms@.len()
                && arm_accepts((#[trigger] arms@[i]).match_conditions, s)
                && ((#[trigger] arms@[i]).children matches Some(c)
                    && tree_may_yield(c, depth - 1, s, v)),
        }
    }
}

/// Acceptance of an arm survives a growing cache: cached values never
/// change.
pub proof fn lemma_arm_accepts_ext(cond: MatchConditions, s0: Scope, s1: Scope)
    requires
        scope_ext(s0, s1),
        arm_accepts(cond, s0),
    ensures
        arm_accepts(cond, s1),
{
    assert(scontains(s0, cond.id@));
}

/// A possible value of a generator stays possible as the row cache
/// grows.
pub proof fn lemma_gen_may_yield_ext(g: GeneratorEnum, s0: Scope, s1: Scope, v: OutValue)
    requires
        scope_ext(s0, s1),
        gen_may_yield(g, s0, v),
    ensures
        gen_may_yield(g, s1, v),
    decreases g,
{
    match g {
        GeneratorEnum::Identifier(idg) => {
            assert(scontains(s0, idg.0@));
        },
        GeneratorEnum::Join(jg) => {
            let vs = choose|vs: Seq<OutValue>| {
                &&& #[trigger] vs.len() == jg.0@.len()
                &&& forall|i: int| 0 <= i < vs.len()
                    ==> gen_may_yield(#[trigger] jg.0@[i], s0, vs[i])
                &&& v matches OutValue::String(t) && t@ == concat_displays(vs)
            };
            assert forall|i: int| 0 <= i < vs.len()
                implies gen_may_yield(#[trigger] jg.0@[i], s1, vs[i]) by {
                lemma_gen_may_yield_ext(jg.0@[i], s0, s1, vs[i]);
            }
        },
        GeneratorEnum::Alternation(alt) => {
            let i = choose|i: int| 0 <= i < alt.wgens@.len()
                && gen_may_yield((#[trigger] alt.wgens@[i]).value, s0, v);
            lemma_gen_may_yield_ext(alt.wgens@[i].value, s0, s1, v);
        },
        GeneratorEnum::Nested(ng) => {
            lemma_tree_may_yield_ext(nested_tree_of(ng), ng.read_depth as int, s0, s1, v);
        },
        _ => {},
    }
}

/// A possible value of a depth read stays possible as the row cache
/// grows.
pub proof fn lemma_tree_may_yield_ext(t: ValueTree, depth: int, s0: Scope, s1: Scope, v: OutValue)
    requires
        scope_ext(s0, s1),
        tree_may_yield(t, depth, s0, v),
    ensures
        tree_may_yield(t, depth, s1, v),
    decreases t,
{
    if depth <= 0 {
        match t {
            ValueTree::Assign(_, gen) => {
                lemma_gen_may_yield_ext(gen, s0, s1, v);
            },
            _ => {},
        }
    } else {
        match t {
            ValueTree::Match(arms, wildcard) => {
                if exists|i: int| 0 <= i < arms@.len()
                    && arm_accepts((#[trigger] arms@[i]).match_conditions, s0)
                    && tree_may_yield(arms@[i].children, depth - 1, s0, v) {
                    let i = choose|i: int| 0 <= i < arms@.len()
                        && arm_accepts((#[trigger] arms@[i]).match_conditions, s0)
                        && tree_may_yield(arms@[i].children, depth - 1, s0, v);
                    lemma_arm_accepts_ext(arms@[i].match_conditions, s0, s1);
                    lemma_tree_may_yield_ext(arms@[i].children, depth - 1, s0, s1, v);
                } else {
                    match wildcard {
                        Some(c) => {
                            lemma_tree_may_yield_ext(*c, depth - 1, s0, s1, v);
                        },
                        None => {},
                    }
                }
            },
            ValueTree::Assign(arms, _) => {
                let i = choose|i: int| 0 <= i < arms@.len()
                    && arm_accepts((#[trigger] arms@[i]).match_conditions, s0)
                    && ((#[trigger] arms@[i]).children matches Some(c)
                        && tree_may_yield(c, depth - 1, s0, v));
                lemma_arm_accepts_ext(arms@[i].match_conditions, s0, s1);
                lemma_tree_may_yield_ext(arms@[i].children->0, depth - 1, s0, s1, v);
            },
        }
    }
}

/// No arm of a match level accepts the row's cached values.
pub open spec fn no_match_arm_accepts(arms: Seq<crate::engine::MatchArm>, s: Scope) -> bool {
    forall|i: int| 0 <= i < arms.len()
        ==> !arm_accepts((#[trigger] arms[i]).match_conditions, s)
}

/// No arm of an assign level accepts the row's cached values.
pub open spec fn no_assign_arm_accepts(arms: Seq<AssignArm>, s: Scope) -> bool {
    forall|i: int| 0 <= i < arms.len()
        ==> !arm_accepts((#[trigger] arms[i]).match_conditions, s)
}

/// Arm `i` is the selected arm of a match level: the first, in
/// declaration order, whose predicates accept the row's cached value.
pub open spec fn selected_match_arm(arms: Seq<crate::engine::MatchArm>, s: Scope, i: int) -> bool {
    &&& 0 <= i < arms.len()
    &&& arm_accepts(arms[i].match_conditions, s)
    &&& forall|j: int| 0 <= j < i ==> !arm_accepts((#[trigger] arms[j]).match_conditions, s)
}

/// Arm `i` is the selected arm of an assign level.
pub open spec fn selected_assign_arm(arms: Seq<AssignArm>, s: Scope, i: int) -> bool {
    &&& 0 <= i < arms.len()
    &&& arm_accepts(arms[i].match_conditions, s)
    &&& forall|j: int| 0 <= j < i ==> !arm_accepts((#[trigger] arms[j]).match_conditions, s)
}

/// The subtree a level descends into for this row: the selected arm's
/// subtree, or a match level's wildcard when no arm accepts.
pub open spec fn selected_child(t: ValueTree, s: Scope, c: ValueTree) -> bool {
    match t {
        ValueTree::Match(arms, wildcard) => {
            ||| exists|i: int| #[trigger] selected_match_arm(arms@, s, i) && c == arms@[i].children
            ||| (no_match_arm_accepts(arms@, s) && (wildcard matches Some(w) && c == *w))
        },
        ValueTree::Assign(arms, _) => exists|i: int| #[trigger] selected_assign_arm(arms@, s, i)
            && arms@[i].children == Some(c),
    }
}

/// Whether every identifier a level's arms inspect is already cached, so
/// that descending neither changes the row nor can fail for an outside
/// reason.
pub open spec fn conditions_ready(t: ValueTree, s: Scope) -> bool {
    match t {
        ValueTree::Match(arms, _) => forall|i: int| 0 <= i < arms@.len()
            ==> scontains(s, (#[trigger] arms@[i]).match_conditions.id@),
        ValueTree::Assign(arms, _) => forall|i: int| 0 <= i < arms@.len()
            ==> scontains(s, (#[trigger] arms@[i]).match_conditions.id@),
    }
}

/// Cache extension composes.
pub proof fn lemma_scope_ext_trans(s0: Scope, s1: Scope, s2: Scope)
    requires
        scope_ext(s0, s1),
        scope_ext(s1, s2),
    ensures
        scope_ext(s0, s2),
{
}

/// A selected descent step lifts a possible value of the child to a
/// possible value of the parent, in any further-grown cache.
pub proof fn lemma_selected_step(
    parent: ValueTree, s_sel: Scope, s2: Scope, c: ValueTree, depth: int, v: OutValue,
)
    requires
        depth >= 1,
        selected_child(parent, s_sel, c),
        scope_ext(s_sel, s2),
        tree_may_yield(c, depth - 1, s2, v),
    ensures
        tree_may_yield(parent, depth, s2, v),
{
    match parent {
        ValueTree::Match(arms, wildcard) => {
            if exists|i: int| #[trigger] selected_match_arm(arms@, s_sel, i)
                && c == arms@[i].children {
                let i = choose|i: int| #[trigger] selected_match_arm(arms@, s_sel, i)
                    && c == arms@[i].children;
                lemma_arm_accepts_ext(arms@[i].match_conditions, s_sel, s2);
            }
        },
        ValueTree::Assign(arms, _) => {
            let i = choose|i: int| #[trigger] selected_assign_arm(arms@, s_sel, i)
                && arms@[i].children == Some(c);
            lemma_arm_accepts_ext(arms@[i].match_conditions, s_sel, s2);
        },
    }
}

/// What each primitive generator promises of its result: a value of the
/// right shape within the generator's bounds.
pub open spec fn primitive_result_ok(g: GeneratorEnum, r: Result<OutValue, EvaluationError>) -> bool {
    match g {
        GeneratorEnum::DateRange(d) => r matches Ok(v) && (v matches OutValue::Date(x)
            && d.after <= x <= d.after + d.range_in_days),
        GeneratorEnum::IntegerRange(g) => r matches Ok(v) && (v matches OutValue::I64(x)
            && g.from <= x <= g.to),
        GeneratorEnum::RealRange(g) => r matches Ok(v) && (v matches OutValue::Real(x)
            && g.from <= x <= g.to),
        GeneratorEnum::StringRange(g) => r matches Ok(v) && (v matches OutValue::String(s)
            && g.from <= s@.len() <= g.to),
        GeneratorEnum::Literal(l) => r matches Ok(v) && (v matches OutValue::String(s)
            && s@ == l.0@),
        GeneratorEnum::Join(_) => r matches Ok(v) ==> v is String,
        _ => true,
    }
}

/// Whether an identifier is on the pending list.
fn pending_contains(pending: &Vec<String>, id: &str) -> (r: bool)
    ensures
        r == pcontains(pending@, id@),
{
    let key: String = id.to_owned();
    let n = pending.len();
    let mut i: usize = 0;
    while i < n
        invariant
            n == pending@.len(),
            i <= n,
            key@ == id@,
            forall|j: int| 0 <= j < i ==> (#[trigger] pending@[j])@ != id@,
        decreases n - i,
    {
        if pending[i].eq(&key) {
            return true;
        }
        i = i + 1;
    }
    false
}

/// Produces the value bound to an identifier in the current row: the
/// cached value if the identifier was already generated, else one fresh
/// run of its generator, cached under the identifier so that every later
/// read of the same row sees the identical value.
#[verifier::loop_isolation(false)]
pub fn lookup_value(b: &Bindings, scope: &mut Scope, pending: &mut Vec<String>, id: &str)
    -> (r: Result<Rc<OutValue>, EvaluationError>)
    requires
        eval_inv(*b, *scope, pending@),
    ensures
        eval_inv(*b, *final(scope), final(pending)@),
        eval_frame(*b, *old(scope), old(pending)@, *final(scope), final(pending)@),
        r matches Ok(v) ==> scontains(*final(scope), id@)
            && sval(final(scope).entries@, id@) == *v,
        scontains(*old(scope), id@) ==> (r matches Ok(v)
            && (*v == sval(old(scope).entries@, id@)
                && *final(scope) == *old(scope))),
        r is Err ==> !scontains(*final(scope), id@),
        !scontains(*old(scope), id@) ==> (r matches Ok(v)
            ==> gen_may_yield(*bdef(b.entries@, id@).gen, *final(scope), *v)),
        !scontains(*old(scope), id@) && bcontains(*b, id@) && !pcontains(old(pending)@, id@)
            && gen_total(*bdef(b.entries@, id@).gen) ==> r is Ok,
        !scontains(*old(scope), id@) && !bcontains(*b, id@)
            ==> (r matches Err(e)
                && (e matches EvaluationError::UnboundIdentifier(n) && n@ == id@)),
        !scontains(*old(scope), id@) && bcontains(*b, id@) && pcontains(old(pending)@, id@)
            ==> (r matches Err(e) && e is CyclicReference),
    decreases avail(*b, *scope, pending@), 0nat, 0nat,
{
    let ghost s0 = *scope;
    let ghost p0 = pending@;
    match scope.get_value(id) {
        Some(v) => {
            return Ok(v);
        },
        None => {},
    }
    if pending_contains(pending, id) {
        return Err(EvaluationError::CyclicReference(id.to_owned()));
    }
    let gen_rc = match b.get(id) {
        Ok(rc) => rc,
        Err(e) => {
            return Err(e);
        },
    };
    proof {
        lemma_scontains_skeys(s0, id@);
        lemma_pcontains_pkeys(p0, id@);
        crate::bindings::lemma_bcontains_bkeys(*b, id@);
        assert(free_ids(*b, s0, p0).contains(id@));
    }
    pending.push(id.to_owned());
    let ghost p1 = pending@;
    proof {
        assert(name_views(p1).drop_last() =~= name_views(p0));
        assert(name_views(p1).last() == id@);
        assert(pkeys(p1) == pkeys(p0).insert(id@));
        assert(free_ids(*b, s0, p1) =~= free_ids(*b, s0, p0).remove(id@));
        lemma_free_ids_finite(*b, s0, p0);
        assert(avail(*b, s0, p1) < avail(*b, s0, p0));
        assert forall|i: int, j: int| 0 <= i < j < p1.len()
            implies (#[trigger] p1[i])@ != (#[trigger] p1[j])@ by {
            if j == p1.len() - 1 {
                assert(p1[i] == p0[i]);
            }
        }
    }
    let result = generate_value_inner(&gen_rc, b, scope, pending);
    let ghost s2 = *scope;
    let ghost p2 = pending@;
    let _ = pending.pop();
    proof {
        assert(p2 == p1);
        assert(pending@ =~= p0);
        assert(pkeys(p0).subset_of(pkeys(p1)));
        assert forall|k: Seq<char>| free_ids(*b, s2, p0).contains(k)
            implies free_ids(*b, s0, p0).contains(k) by {
            if k != id@ {
                assert(free_ids(*b, s2, p1).contains(k));
                assert(free_ids(*b, s0, p1).contains(k));
            }
        }
        assert forall|i: int| 0 <= i < p0.len()
            implies !scontains(s2, (#[trigger] p0[i])@) by {
            assert(p1[i] == p0[i]);
        }
    }
    match result {
        Ok(value) => {
            let rc = Rc::new(value);
            proof {
                // The identifier stayed pending throughout, so nothing
                // cached it.
                assert(p1.last()@ == id@);
                assert(!scontains(s2, id@));
            }
            match scope.set_value(id, rc) {
                Ok(v) => {
                    let ghost s3 = *scope;
                    proof {
                        assert(skey_seq(s3.entries@).drop_last() =~= skey_seq(s2.entries@));
                        assert(skey_seq(s3.entries@).last() == id@);
                        assert(skeys(s3) == skeys(s2).insert(id@));
                        lemma_scontains_skeys(s2, id@);
                        lemma_scontains_skeys(s3, id@);
                        // The grown cache still models the registry: old
                        // entries keep their values, and the new entry
                        // holds what the identifier's generator produced.
                        assert(scope_ext(s2, s3)) by {
                            assert forall|k: Seq<char>| #[trigger] scontains(s2, k)
                                implies scontains(s3, k)
                                    && sval(s3.entries@, k) == sval(s2.entries@, k) by {
                                assert(k != id@);
                                lemma_sval_push(s2.entries@, s3.entries@.last(), k);
                                assert(s3.entries@.drop_last() =~= s2.entries@);
                            }
                        }
                        assert forall|i: int| 0 <= i < s3.entries@.len() implies {
                            &&& bcontains(*b, (#[trigger] s3.entries@[i]).0@)
                            &&& gen_may_yield(*bdef(b.entries@, s3.entries@[i].0@).gen, s3,
                                *s3.entries@[i].1)
                        } by {
                            if i < s2.entries@.len() {
                                assert(s3.entries@[i] == s2.entries@[i]);
                                lemma_gen_may_yield_ext(
                                    *bdef(b.entries@, s2.entries@[i].0@).gen, s2, s3,
                                    *s2.entries@[i].1,
                                );
                            } else {
                                assert(s3.entries@[i] == s3.entries@.last());
                                assert(gen_rc == bdef(b.entries@, id@).gen);
                                lemma_gen_may_yield_ext(*gen_rc, s2, s3, *s3.entries@[i].1);
                            }
                        }
                        assert forall|k: Seq<char>| #[trigger] scontains(s0, k)
                            implies scontains(s3, k)
                                && sval(s3.entries@, k) == sval(s0.entries@, k) by {
                            lemma_scontains_skeys(s0, k);
                            lemma_scontains_skeys(s2, k);
                            lemma_scontains_skeys(s3, k);
                            assert(scontains(s2, k));
                            assert(k != id@);
                            lemma_sval_push(s2.entries@, s3.entries@.last(), k);
                            assert(s3.entries@.drop_last() =~= s2.entries@);
                        }
                        assert forall|k: Seq<char>| free_ids(*b, s3, p0).contains(k)
                            implies free_ids(*b, s0, p0).contains(k) by {
                            assert(k != id@);
                            assert(free_ids(*b, s2, p0).contains(k));
                        }
                        assert forall|i: int| 0 <= i < p0.len()
                            implies !scontains(s3, (#[trigger] p0[i])@) by {
                            lemma_scontains_skeys(s3, p0[i]@);
                            lemma_scontains_skeys(s2, p0[i]@);
                            assert(pcontains(p0, p0[i]@));
                            lemma_pcontains_pkeys(p0, p0[i]@);
                            assert(p1[i] == p0[i]);
                        }
                        assert forall|k: Seq<char>| #[trigger] skeys(s0).contains(k)
                            implies skeys(s3).contains(k) by {
                            lemma_scontains_skeys(s0, k);
                            lemma_scontains_skeys(s3, k);
                        }
                    }
                    Ok(v)
                },
                Err(e) => {
                    // Unreachable: the identifier stayed pending during
                    // generation, so nothing could have cached it.
                    proof {
                        assert(false);
                    }
                    Err(e)
                },
            }
        },
        Err(e) => {
            proof {
                assert forall|k: Seq<char>| #[trigger] skeys(s0).contains(k)
                    implies skeys(s2).contains(k) by {}
            }
            Err(e)
        },
    }
}

/// Runs one generator to produce one value, reading and populating the
/// row's cache through the identifiers it references.
#[verifier::loop_isolation(false)]
pub fn generate_value_inner(
    gen: &GeneratorEnum, b: &Bindings, scope: &mut Scope, pending: &mut Vec<String>,
) -> (r: Result<OutValue, EvaluationError>)
    requires
        eval_inv(*b, *scope, pending@),
        gen_wf(*gen),
    ensures
        eval_inv(*b, *final(scope), final(pending)@),
        eval_frame(*b, *old(scope), old(pending)@, *final(scope), final(pending)@),
        primitive_result_ok(*gen, r),
        r matches Ok(v) ==> gen_may_yield(*gen, *final(scope), v),
        gen_total(*gen) ==> r is Ok,
        (*gen) matches GeneratorEnum::Identifier(idg)
            ==> (scontains(*old(scope), idg.0@)
                ==> (r matches Ok(v) && v == sval(old(scope).entries@, idg.0@))),
        (*gen) matches GeneratorEnum::Identifier(idg)
            ==> (!scontains(*old(scope), idg.0@) && !bcontains(*b, idg.0@)
                ==> (r matches Err(e)
                    && (e matches EvaluationError::UnboundIdentifier(n) && n@ == idg.0@))),
    decreases avail(*b, *scope, pending@), gen_height(*gen), 1nat,
{
    let ghost s0 = *scope;
    let ghost p0 = pending@;
    match gen {
        GeneratorEnum::DateRange(g) => Ok(g.generate_value()),
        GeneratorEnum::IntegerRange(g) => Ok(g.generate_value()),
        GeneratorEnum::RealRange(g) => Ok(g.generate_value()),
        GeneratorEnum::StringRange(g) => Ok(g.generate_value()),
        GeneratorEnum::Literal(g) => Ok(g.generate_value()),
        GeneratorEnum::Identifier(idg) => {
            match lookup_value(b, scope, pending, idg.0.as_str()) {
                Ok(v) => Ok(v.duplicate()),
                Err(e) => Err(e),
            }
        },
        GeneratorEnum::Join(jg) => {
            let mut out = String::new();
            let ghost mut vs: Seq<OutValue> = Seq::empty();
            let n = jg.0.len();
            let mut i: usize = 0;
            while i < n
                invariant
                    i <= n,
                    eval_inv(*b, *scope, pending@),
                    eval_frame(*b, s0, p0, *scope, pending@),
                    vs.len() == i,
                    forall|k: int| 0 <= k < i
                        ==> gen_may_yield(#[trigger] jg.0@[k], *scope, vs[k]),
                    out@ == concat_displays(vs),
                decreases n - i,
            {
                proof {
                    lemma_gens_height_bound(jg.0@, i as int);
                    lemma_avail_monotone(*b, s0, p0, *scope, pending@);
                }
                let ghost scope_before = *scope;
                let v = match generate_value_inner(&jg.0[i], b, scope, pending) {
                    Ok(v) => v,
                    Err(e) => {
                        proof {
                            // A failing piece means the join is not a
                            // total generator.
                            assert(!gen_total(jg.0@[i as int]));
                        }
                        return Err(e);
                    },
                };
                let piece = v.to_display_string();
                out.append(piece.as_str());
                proof {
                    assert forall|k: int| 0 <= k < i
                        implies gen_may_yield(#[trigger] jg.0@[k], *scope, vs[k]) by {
                        lemma_gen_may_yield_ext(jg.0@[k], scope_before, *scope, vs[k]);
                    }
                    let vs_old = vs;
                    vs = vs.push(v);
                    assert(vs.drop_last() =~= vs_old);
                    assert(vs.last() == v);
                    assert(out@ == concat_displays(vs));
                }
                i = i + 1;
            }
            proof {
                assert(gen_may_yield(*gen, *scope, OutValue::String(out)));
            }
            Ok(OutValue::String(out))
        },
        GeneratorEnum::Alternation(alt) => {
            let draw = random_u64_below(WEIGHT_TOTAL);
            let idx = alt.pick(draw);
            proof {
                lemma_wgens_height_bound(alt.wgens@, idx as int);
                assert(crate::engine::alt_wf(**alt));
                assert(gen_wf(alt.wgens@[idx as int].value));
            }
            let r = generate_value_inner(&alt.wgens[idx].value, b, scope, pending);
            proof {
                if r is Ok {
                    assert(gen_may_yield(*gen, *scope, r->Ok_0));
                }
                if r is Err {
                    assert(!gen_total(alt.wgens@[idx as int].value));
                }
            }
            r
        },
        GeneratorEnum::Nested(ng) => {
            let r = tree_generate_at_depth(&ng.tree, ng.read_depth, b, scope, pending);
            proof {
                if r is Ok {
                    assert(gen_may_yield(*gen, *scope, r->Ok_0));
                }
            }
            r
        },
    }
}

/// Whether any of an arm's predicates accepts the inspected identifier's
/// value for this row; looking the value up may trigger its first
/// evaluation.
#[verifier::loop_isolation(false)]
fn conditions_match(cond: &MatchConditions, b: &Bindings, scope: &mut Scope, pending: &mut Vec<String>)
    -> (r: Result<bool, EvaluationError>)
    requires
        eval_inv(*b, *scope, pending@),
    ensures
        eval_inv(*b, *final(scope), final(pending)@),
        eval_frame(*b, *old(scope), old(pending)@, *final(scope), final(pending)@),
        r matches Ok(tv) ==> scontains(*final(scope), cond.id@)
            && (tv <==> arm_accepts(*cond, *final(scope))),
        scontains(*old(scope), cond.id@)
            ==> (*final(scope) == *old(scope) && r is Ok),
    decreases avail(*b, *scope, pending@), 0nat, 1nat,
{
    let value = match lookup_value(b, scope, pending, cond.id.as_str()) {
        Ok(v) => v,
        Err(e) => {
            return Err(e);
        },
    };
    let n = cond.matchers.len();
    let mut i: usize = 0;
    while i < n
        invariant
            i <= n,
            forall|j: int| 0 <= j < i
                ==> !match_expr_accepts(#[trigger] cond.matchers@[j], *value),
        decreases n - i,
    {
        if cond.matchers[i].is_match(&value) {
            return Ok(true);
        }
        i = i + 1;
    }
    Ok(false)
}

/// Selects the subtree a match or assign level descends into for this
/// row: the first arm, in declaration order, whose predicates accept the
/// inspected identifier's row value (looking it up may trigger its first
/// evaluation); the wildcard when a match level has no accepting arm;
/// `NoMatchForValue` when nothing applies, and `NoChildrenForTree` when
/// the selected assign arm carries no deeper subtree.
#[verifier::loop_isolation(false)]
fn find_child_from_context<'a>(
    tree: &'a ValueTree, b: &Bindings, scope: &mut Scope, pending: &mut Vec<String>,
) -> (r: Result<&'a ValueTree, EvaluationError>)
    requires
        eval_inv(*b, *scope, pending@),
        tree_wf(*tree),
    ensures
        eval_inv(*b, *final(scope), final(pending)@),
        eval_frame(*b, *old(scope), old(pending)@, *final(scope), final(pending)@),
        r matches Ok(t) ==> tree_wf(*t) && tree_height(*t) < tree_height(*tree)
            && selected_child(*tree, *final(scope), *t),
        conditions_ready(*tree, *old(scope)) ==> {
            &&& *final(scope) == *old(scope)
            &&& match *tree {
                ValueTree::Match(arms, wildcard) => {
                    &&& (r is Err <==> (no_match_arm_accepts(arms@, *old(scope))
                        && wildcard is None))
                    &&& (r matches Err(e) ==> e is NoMatchForValue)
                },
                ValueTree::Assign(arms, _) => {
                    &&& ((r matches Err(e) && e is NoMatchForValue)
                        <==> no_assign_arm_accepts(arms@, *old(scope)))
                    &&& ((r matches Err(e) && e is NoChildrenForTree)
                        <==> exists|i: int| #[trigger] selected_assign_arm(arms@, *old(scope), i)
                            && arms@[i].children is None)
                },
            }
        },
    decreases avail(*b, *scope, pending@), tree_height(*tree), 2nat,
{
    let ghost s0 = *scope;
    let ghost p0 = pending@;
    match tree {
        ValueTree::Match(arms, wildcard) => {
            let n = arms.len();
            let mut i: usize = 0;
            while i < n
                invariant
                    i <= n,
                    eval_inv(*b, *scope, pending@),
                    eval_frame(*b, s0, p0, *scope, pending@),
                    forall|j: int| 0 <= j < i ==> {
                        &&& scontains(*scope, (#[trigger] arms@[j]).match_conditions.id@)
                        &&& !arm_accepts(arms@[j].match_conditions, *scope)
                    },
                    conditions_ready(*tree, s0) ==> *scope == s0,
                decreases n - i,
            {
                proof {
                    lemma_avail_monotone(*b, s0, p0, *scope, pending@);
                    lemma_match_arms_height_bound(arms@, i as int);
                }
                let ghost scope_before = *scope;
                let matched = match conditions_match(&arms[i].match_conditions, b, scope, pending) {
                    Ok(m) => m,
                    Err(e) => {
                        proof {
                            if conditions_ready(*tree, s0) {
                                assert(scontains(scope_before, arms@[i as int].match_conditions.id@));
                                assert(false);
                            }
                        }
                        return Err(e);
                    },
                };
                proof {
                    assert forall|j: int| 0 <= j < i implies {
                        &&& scontains(*scope, (#[trigger] arms@[j]).match_conditions.id@)
                        &&& !arm_accepts(arms@[j].match_conditions, *scope)
                    } by {
                        if arm_accepts(arms@[j].match_conditions, *scope) {
                            assert(scontains(scope_before, arms@[j].match_conditions.id@));
                            assert(sval(scope.entries@, arms@[j].match_conditions.id@)
                                == sval(scope_before.entries@, arms@[j].match_conditions.id@));
                            assert(arm_accepts(arms@[j].match_conditions, scope_before));
                        }
                    }
                }
                if matched {
                    proof {
                        assert(selected_match_arm(arms@, *scope, i as int));
                    }
                    return Ok(&arms[i].children);
                }
                i = i + 1;
            }
            proof {
                assert(no_match_arm_accepts(arms@, *scope));
            }
            match wildcard {
                Some(child) => Ok(&**child),
                None => Err(EvaluationError::NoMatchForValue),
            }
        },
        ValueTree::Assign(arms, _) => {
            let n = arms.len();
            let mut i: usize = 0;
            while i < n
                invariant
                    i <= n,
                    eval_inv(*b, *scope, pending@),
                    eval_frame(*b, s0, p0, *scope, pending@),
                    forall|j: int| 0 <= j < i ==> {
                        &&& scontains(*scope, (#[trigger] arms@[j]).match_conditions.id@)
                        &&& !arm_accepts(arms@[j].match_conditions, *scope)
                    },
                    conditions_ready(*tree, s0) ==> *scope == s0,
                decreases n - i,
            {
                proof {
                    lemma_avail_monotone(*b, s0, p0, *scope, pending@);
                    lemma_assign_arms_height_bound_opt(arms@, i as int);
                }
                let ghost scope_before = *scope;
                let matched = match conditions_match(&arms[i].match_conditions, b, scope, pending) {
                    Ok(m) => m,
                    Err(e) => {
                        proof {
                            if conditions_ready(*tree, s0) {
                                assert(scontains(scope_before, arms@[i as int].match_conditions.id@));
                                assert(false);
                            }
                        }
                        return Err(e);
                    },
                };
                proof {
                    assert forall|j: int| 0 <= j < i implies {
                        &&& scontains(*scope, (#[trigger] arms@[j]).match_conditions.id@)
                        &&& !arm_accepts(arms@[j].match_conditions, *scope)
                    } by {
                        if arm_accepts(arms@[j].match_conditions, *scope) {
                            assert(scontains(scope_before, arms@[j].match_conditions.id@));
                            assert(sval(scope.entries@, arms@[j].match_conditions.id@)
                                == sval(scope_before.entries@, arms@[j].match_conditions.id@));
                            assert(arm_accepts(arms@[j].match_conditions, scope_before));
                        }
                    }
                }
                if matched {
                    proof {
                        assert(selected_assign_arm(arms@, *scope, i as int));
                    }
                    return match &arms[i].children {
                        Some(child) => Ok(child),
                        None => Err(EvaluationError::NoChildrenForTree),
                    };
                }
                i = i + 1;
            }
            proof {
                assert(no_assign_arm_accepts(arms@, *scope));
                assert forall|k: int| !(#[trigger] selected_assign_arm(arms@, *scope, k)) by {}
            }
            Err(EvaluationError::NoMatchForValue)
        },
    }
}

/// A listed assign arm's subtree, when it has one, is no taller than the
/// list's height.
proof fn lemma_assign_arms_height_bound_opt(s: Seq<AssignArm>, i: int)
    requires
        0 <= i < s.len(),
    ensures
        s[i].children matches Some(c) ==> tree_height(c) <= assign_arms_height(s),
{
    if s[i].children is Some {
        lemma_assign_arms_height_bound(s, i);
    }
}

/// Walks a shared decision tree `read_depth` levels deep for this row,
/// descending through the selected arm (or wildcard) of each level, then
/// produces the landed assign level's value; a read that lands on a
/// match level is a modeling error.
#[verifier::loop_isolation(false)]
fn tree_generate_at_depth(
    tree: &ValueTree, read_depth: usize, b: &Bindings, scope: &mut Scope, pending: &mut Vec<String>,
) -> (r: Result<OutValue, EvaluationError>)
    requires
        eval_inv(*b, *scope, pending@),
        tree_wf(*tree),
    ensures
        eval_inv(*b, *final(scope), final(pending)@),
        eval_frame(*b, *old(scope), old(pending)@, *final(scope), final(pending)@),
        r matches Ok(v) ==> tree_may_yield(*tree, read_depth as int, *final(scope), v),
        read_depth == 0 && ((*tree) matches ValueTree::Match(_, _))
            ==> (r matches Err(e) && e is ExpectedValueFoundMatcher),
    decreases avail(*b, *scope, pending@), tree_height(*tree), 3nat,
{
    let ghost s0 = *scope;
    let ghost p0 = pending@;
    let mut cur: &ValueTree = tree;
    let mut step: usize = 0;
    while step < read_depth
        invariant
            step <= read_depth,
            eval_inv(*b, *scope, pending@),
            eval_frame(*b, s0, p0, *scope, pending@),
            tree_wf(*cur),
            tree_height(*cur) <= tree_height(*tree),
            step == 0 ==> *cur == *tree,
            forall|v2: OutValue, s2: Scope| scope_ext(*scope, s2)
                && #[trigger] tree_may_yield(*cur, read_depth - step, s2, v2)
                ==> tree_may_yield(*tree, read_depth as int, s2, v2),
        decreases read_depth - step,
    {
        proof {
            lemma_avail_monotone(*b, s0, p0, *scope, pending@);
        }
        let ghost cur_before: ValueTree = *cur;
        let ghost scope_before = *scope;
        cur = match find_child_from_context(cur, b, scope, pending) {
            Ok(t) => t,
            Err(e) => {
                return Err(e);
            },
        };
        proof {
            assert forall|v2: OutValue, s2: Scope| scope_ext(*scope, s2)
                && #[trigger] tree_may_yield(*cur, read_depth - (step + 1), s2, v2)
                implies tree_may_yield(*tree, read_depth as int, s2, v2) by {
                lemma_scope_ext_trans(scope_before, *scope, s2);
                lemma_selected_step(
                    cur_before, *scope, s2, *cur, read_depth - step, v2,
                );
                assert(tree_may_yield(cur_before, read_depth - step, s2, v2));
            }
        }
        step = step + 1;
    }
    proof {
        lemma_avail_monotone(*b, s0, p0, *scope, pending@);
    }
    match cur {
        ValueTree::Assign(_, gen) => {
            let ghost cur_snapshot: ValueTree = *cur;
            let ghost scope_before = *scope;
            let r = generate_value_inner(gen, b, scope, pending);
            proof {
                if r is Ok {
                    assert(tree_may_yield(cur_snapshot, 0, *scope, r->Ok_0));
                    assert(scope_ext(scope_before, *scope));
                    assert(tree_may_yield(*tree, read_depth as int, *scope, r->Ok_0));
                }
            }
            r
        },
        ValueTree::Match(_, _) => Err(EvaluationError::ExpectedValueFoundMatcher),
    }
}

} // verus!
