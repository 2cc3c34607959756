//! Static dependency analysis of generators.
//!
//! The identifiers a generator reads are the identifier references inside
//! it and the identifiers its decision trees' predicates inspect.  They
//! are gathered once at registration time, so that a column request can
//! pull in every upstream identifier before the rows are generated.

use vstd::prelude::*;

use crate::engine::{
    AssignArm, GeneratorEnum, MatchArm, ValueTree, gen_height, gens_height, match_arms_height,
    assign_arms_height, tree_height, wgens_height, lemma_gens_height_bound,
    lemma_wgens_height_bound, lemma_match_arms_height_bound, lemma_assign_arms_height_bound,
};

verus! {

/// The set behind a list of identifier names.
pub open spec fn string_keys(s: Seq<Seq<char>>) -> Set<Seq<char>>
    decreases s.len(),
{
    if s.len() == 0 {
        Set::empty()
    } else {
        string_keys(s.drop_last()).insert(s.last())
    }
}

/// The name views of a list of identifiers.
pub open spec fn name_views(s: Seq<String>) -> Seq<Seq<char>> {
    s.map(|i: int, n: String| n@)
}

/// A key is in the set exactly when some list entry equals it.
pub proof fn lemma_string_keys_contains(s: Seq<Seq<char>>, x: Seq<char>)
    ensures
        string_keys(s).contains(x) <==> exists|i: int| 0 <= i < s.len() && s[i] == x,
    decreases s.len(),
{
    if s.len() > 0 {
        lemma_string_keys_contains(s.drop_last(), x);
        if exists|i: int| 0 <= i < s.len() - 1 && s.drop_last()[i] == x {
            let i = choose|i: int| 0 <= i < s.len() - 1 && s.drop_last()[i] == x;
            assert(s[i] == x);
        }
        if string_keys(s).contains(x) {
        } else {
            assert(forall|i: int| 0 <= i < s.len() - 1 ==> s.drop_last()[i] == #[trigger] s[i]);
        }
    }
}

/// The set behind a list of names is finite.
pub proof fn lemma_string_keys_finite(s: Seq<Seq<char>>)
    ensures
        string_keys(s).finite(),
    decreases s.len(),
{
    broadcast use vstd::set::group_set_axioms;

    if s.len() > 0 {
        lemma_string_keys_finite(s.drop_last());
    }
}

/// The identifiers a generator reads.
pub open spec fn gen_dep_set(g: GeneratorEnum) -> Set<Seq<char>>
    decreases g,
{
    match g {
        GeneratorEnum::Identifier(idg) => Set::empty().insert(idg.0@),
        GeneratorEnum::Join(jg) => gens_dep_set(jg.0@),
        GeneratorEnum::Alternation(alt) => wgens_dep_set(alt.wgens@),
        GeneratorEnum::Nested(ng) => tree_dep_set(*ng.tree),
        _ => Set::empty(),
    }
}

/// The identifiers a list of generators reads.
pub open spec fn gens_dep_set(s: Seq<GeneratorEnum>) -> Set<Seq<char>>
    decreases s,
{
    if s.len() == 0 {
        Set::empty()
    } else {
        gens_dep_set(s.drop_last()).union(gen_dep_set(s.last()))
    }
}

/// The identifiers a list of weighted candidates reads.
pub open spec fn wgens_dep_set(s: Seq<crate::engine::CumulWeightedGen>) -> Set<Seq<char>>
    decreases s,
{
    if s.len() == 0 {
        Set::empty()
    } else {
        wgens_dep_set(s.drop_last()).union(gen_dep_set(s.last().value))
    }
}

/// The identifiers a decision tree reads: the identifiers its predicates
/// inspect, and everything its subtrees and generators read.
pub open spec fn tree_dep_set(t: ValueTree) -> Set<Seq<char>>
    decreases t,
{
    match t {
        ValueTree::Match(arms, wildcard) => {
            let w = match wildcard {
                Some(child) => tree_dep_set(*child),
                None => Set::empty(),
            };
            match_arms_dep_set(arms@).union(w)
        },
        ValueTree::Assign(arms, gen) => assign_arms_dep_set(arms@).union(gen_dep_set(gen)),
    }
}

/// The identifiers a list of match arms reads.
pub open spec fn match_arms_dep_set(s: Seq<MatchArm>) -> Set<Seq<char>>
    decreases s,
{
    if s.len() == 0 {
        Set::empty()
    } else {
        match_arms_dep_set(s.drop_last())
            .union(tree_dep_set(s.last().children))
            .insert(s.last().match_conditions.id@)
    }
}

/// The identifiers a list of assign arms reads.
pub open spec fn assign_arms_dep_set(s: Seq<AssignArm>) -> Set<Seq<char>>
    decreases s,
{
    if s.len() == 0 {
        Set::empty()
    } else {
        let c = match s.last().children {
            Some(child) => tree_dep_set(child),
            None => Set::empty(),
        };
        assign_arms_dep_set(s.drop_last()).union(c).insert(s.last().match_conditions.id@)
    }
}

/// Appends the identifiers the generator reads to the accumulator.
#[verifier::loop_isolation(false)]
fn push_gen_deps(g: &GeneratorEnum, acc: &mut Vec<String>)
    ensures
        string_keys(name_views(final(acc)@))
            =~= string_keys(name_views(old(acc)@)).union(gen_dep_set(*g)),
    decreases gen_height(*g), 1int,
{
    broadcast use vstd::set::group_set_axioms;

    match g {
        GeneratorEnum::Identifier(idg) => {
            let ghost before = acc@;
            acc.push(idg.0.clone());
            proof {
                assert(name_views(acc@).drop_last() =~= name_views(before));
                assert(name_views(acc@).last() == idg.0@);
            }
        },
        GeneratorEnum::Join(jg) => {
            let n = jg.0.len();
            let mut i: usize = 0;
            while i < n
                invariant
                    n == jg.0@.len(),
                    i <= n,
                    string_keys(name_views(acc@)) =~= string_keys(name_views(old(acc)@))
                        .union(gens_dep_set(jg.0@.take(i as int))),
                decreases n - i,
            {
                proof {
                    lemma_gens_height_bound(jg.0@, i as int);
                    assert(jg.0@.take(i + 1).drop_last() =~= jg.0@.take(i as int));
                    assert(jg.0@.take(i + 1).last() == jg.0@[i as int]);
                }
                push_gen_deps(&jg.0[i], acc);
                i = i + 1;
            }
            proof {
                assert(jg.0@.take(n as int) =~= jg.0@);
            }
        },
        GeneratorEnum::Alternation(alt) => {
            let n = alt.wgens.len();
            let mut i: usize = 0;
            while i < n
                invariant
                    n == alt.wgens@.len(),
                    i <= n,
                    string_keys(name_views(acc@)) =~= string_keys(name_views(old(acc)@))
                        .union(wgens_dep_set(alt.wgens@.take(i as int))),
                decreases n - i,
            {
                proof {
                    lemma_wgens_height_bound(alt.wgens@, i as int);
                    assert(alt.wgens@.take(i + 1).drop_last() =~= alt.wgens@.take(i as int));
                    assert(alt.wgens@.take(i + 1).last() == alt.wgens@[i as int]);
                }
                push_gen_deps(&alt.wgens[i].value, acc);
                i = i + 1;
            }
            proof {
                assert(alt.wgens@.take(n as int) =~= alt.wgens@);
            }
        },
        GeneratorEnum::Nested(ng) => {
            push_tree_deps(&ng.tree, acc);
        },
        _ => {},
    }
}

/// Appends the identifiers the decision tree reads to the accumulator.
#[verifier::loop_isolation(false)]
fn push_tree_deps(t: &ValueTree, acc: &mut Vec<String>)
    ensures
        string_keys(name_views(final(acc)@))
            =~= string_keys(name_views(old(acc)@)).union(tree_dep_set(*t)),
    decreases tree_height(*t), 0int,
{
    broadcast use vstd::set::group_set_axioms;

    match t {
        ValueTree::Match(arms, wildcard) => {
            let n = arms.len();
            let mut i: usize = 0;
            while i < n
                invariant
                    n == arms@.len(),
                    i <= n,
                    string_keys(name_views(acc@)) =~= string_keys(name_views(old(acc)@))
                        .union(match_arms_dep_set(arms@.take(i as int))),
                decreases n - i,
            {
                proof {
                    lemma_match_arms_height_bound(arms@, i as int);
                    assert(arms@.take(i + 1).drop_last() =~= arms@.take(i as int));
                    assert(arms@.take(i + 1).last() == arms@[i as int]);
                }
                let ghost before = acc@;
                acc.push(arms[i].match_conditions.id.clone());
                proof {
                    assert(name_views(acc@).drop_last() =~= name_views(before));
                    assert(name_views(acc@).last() == arms@[i as int].match_conditions.id@);
                }
                push_tree_deps(&arms[i].children, acc);
                i = i + 1;
            }
            proof {
                assert(arms@.take(n as int) =~= arms@);
            }
            match wildcard {
                Some(child) => {
                    push_tree_deps(child, acc);
                },
                None => {},
            }
        },
        ValueTree::Assign(arms, gen) => {
            let n = arms.len();
            let mut i: usize = 0;
            while i < n
                invariant
                    n == arms@.len(),
                    i <= n,
                    string_keys(name_views(acc@)) =~= string_keys(name_views(old(acc)@))
                        .union(assign_arms_dep_set(arms@.take(i as int))),
                decreases n - i,
            {
                proof {
                    lemma_assign_arms_height_bound_any(arms@, i as int);
                    assert(arms@.take(i + 1).drop_last() =~= arms@.take(i as int));
                    assert(arms@.take(i + 1).last() == arms@[i as int]);
                }
                let ghost before = acc@;
                acc.push(arms[i].match_conditions.id.clone());
                proof {
                    assert(name_views(acc@).drop_last() =~= name_views(before));
                    assert(name_views(acc@).last() == arms@[i as int].match_conditions.id@);
                }
                match &arms[i].children {
                    Some(child) => {
                        push_tree_deps(child, acc);
                    },
                    None => {},
                }
                i = i + 1;
            }
            proof {
                assert(arms@.take(n as int) =~= arms@);
            }
            push_gen_deps(gen, acc);
        },
    }
}

/// A listed assign arm's subtree, when it has one, is no taller than the
/// list's height.
proof fn lemma_assign_arms_height_bound_any(s: Seq<AssignArm>, i: int)
    requires
        0 <= i < s.len(),
    ensures
        s[i].children matches Some(c) ==> tree_height(c) <= assign_arms_height(s),
{
    if s[i].children is Some {
        lemma_assign_arms_height_bound(s, i);
    }
}

/// Gathers the identifiers the generator reads, in first-occurrence
/// order; the resulting list names exactly the generator's dependency
/// set.
pub fn collect_deps(g: &GeneratorEnum) -> (r: Vec<String>)
    ensures
        string_keys(name_views(r@)) =~= gen_dep_set(*g),
{
    broadcast use vstd::set::group_set_axioms;

    let mut acc: Vec<String> = Vec::new();
    push_gen_deps(g, &mut acc);
    proof {
        assert(name_views(Seq::<String>::empty()) =~= Seq::<Seq<char>>::empty());
    }
    acc
}

} // verus!
