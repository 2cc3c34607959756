//! Registration: turning a parsed definition list into a registry of
//! named generators.
//!
//! Each definition binds one identifier to a single generator, or several
//! identifiers to depth-bindings into one shared decision tree.
//! Registration fails entirely on a duplicate identifier or a malformed
//! definition; no partial registry is returned.

use vstd::prelude::*;
use std::rc::Rc;

use crate::ast;
use crate::bindings::{bcontains, bdef, bindings_wf, Bindings};
use crate::convert::{clauses_tree_ok, nested_clauses_ok, value_gen_ok, value_set_alt_ok};
use crate::engine::{GeneratorEnum, NestedGenerator, ValueTree};
use crate::errors::EvaluationError;

verus! {

/// The identifiers a nested definition's levels consume, in order: the
/// branch identifiers first, then the bound ones.
pub open spec fn nested_id_views(d: ast::NestedDefinition) -> Seq<Seq<char>> {
    (match d.0 {
        Some(u) => u.0.0@.map(|i: int, name: ast::Identifier| name.0@),
        None => Seq::<Seq<char>>::empty(),
    }) + assign_id_views(d)
}

/// The identifiers a nested definition binds, in order.
pub open spec fn assign_id_views(d: ast::NestedDefinition) -> Seq<Seq<char>> {
    d.1.0.0@.map(|i: int, name: ast::Identifier| name.0@)
}

/// How many identifiers a nested definition branches on.
pub open spec fn using_count(d: ast::NestedDefinition) -> int {
    match d.0 {
        Some(u) => u.0.0@.len() as int,
        None => 0,
    }
}

/// Whether a single-valued definition can register against a registry.
pub open spec fn single_val_ok(b: Bindings, d: ast::SingleValDef) -> bool {
    !bcontains(b, d.0.0@)
}

/// Whether a multi-valued definition can register against a registry.
pub open spec fn multi_val_ok(b: Bindings, d: ast::MultiValDef) -> bool {
    &&& !bcontains(b, d.0.0@)
    &&& d.2.0@.len() > 0
}

/// Whether a nested definition can register against a registry: its
/// clause tree builds over the branch and bound identifiers, and the
/// bound identifiers are fresh and pairwise distinct.
pub open spec fn nested_ok(b: Bindings, d: ast::NestedDefinition) -> bool {
    &&& nested_clauses_ok(d.2, using_count(d) + assign_id_views(d).len())
    &&& forall|i: int, j: int| 0 <= i < j < assign_id_views(d).len()
        ==> #[trigger] assign_id_views(d)[i] != #[trigger] assign_id_views(d)[j]
    &&& forall|i: int| 0 <= i < assign_id_views(d).len()
        ==> !bcontains(b, #[trigger] assign_id_views(d)[i])
}

impl ast::SingleValDef {
    /// Registers this definition's identifier; fails exactly when the
    /// identifier is already taken, leaving no partial registry.
    pub fn evaluate(self, bindings: Bindings) -> (r: Result<Bindings, EvaluationError>)
        requires
            bindings_wf(bindings),
        ensures
            r is Ok <==> single_val_ok(bindings, self),
            r matches Ok(b2) ==> {
                &&& bindings_wf(b2)
                &&& b2.entries@.len() == bindings.entries@.len() + 1
                &&& b2.entries@.drop_last() == bindings.entries@
                &&& b2.entries@.last().0@ == self.0.0@
                &&& value_gen_ok(self.1, *b2.entries@.last().1.gen)
            },
            r matches Err(e) ==> e is DuplicateIdentifier,
    {
        let ast::SingleValDef(ast::Identifier(id), value) = self;
        let gen = GeneratorEnum::from_value(&value);
        let mut bindings = bindings;
        match bindings.add(id, gen) {
            Ok(_) => Ok(bindings),
            Err(e) => Err(e),
        }
    }
}

impl ast::MultiValDef {
    /// Registers this definition's identifier over its candidate set;
    /// fails exactly when the set is empty or the identifier is already
    /// taken.
    pub fn evaluate(self, bindings: Bindings) -> (r: Result<Bindings, EvaluationError>)
        requires
            bindings_wf(bindings),
        ensures
            r is Ok <==> multi_val_ok(bindings, self),
            r matches Ok(b2) ==> {
                &&& bindings_wf(b2)
                &&& b2.entries@.len() == bindings.entries@.len() + 1
                &&& b2.entries@.drop_last() == bindings.entries@
                &&& b2.entries@.last().0@ == self.0.0@
                &&& *b2.entries@.last().1.gen matches GeneratorEnum::Alternation(alt)
                    && value_set_alt_ok(self.2.0@, *alt)
            },
            r matches Err(e) ==> e is DuplicateIdentifier || e is EmptyValueSet,
    {
        let ast::MultiValDef(ast::Identifier(id), _, values) = self;
        let gen = match GeneratorEnum::from_value_set(&values) {
            Ok(g) => g,
            Err(e) => {
                return Err(e);
            },
        };
        let mut bindings = bindings;
        match bindings.add(id, gen) {
            Ok(_) => Ok(bindings),
            Err(e) => Err(e),
        }
    }
}

impl ast::SingleDefinition {
    /// Registers a single-identifier definition.
    pub fn evaluate(self, bindings: Bindings) -> (r: Result<Bindings, EvaluationError>)
        requires
            bindings_wf(bindings),
        ensures
            r is Ok <==> (match self {
                ast::SingleDefinition::SingleVal(d) => single_val_ok(bindings, d),
                ast::SingleDefinition::MultiVal(d) => multi_val_ok(bindings, d),
            }),
            r matches Ok(b2) ==> {
                &&& bindings_wf(b2)
                &&& b2.entries@.len() == bindings.entries@.len() + 1
                &&& b2.entries@.drop_last() == bindings.entries@
                &&& b2.entries@.last().0@ == (match self {
                    ast::SingleDefinition::SingleVal(d) => d.0.0@,
                    ast::SingleDefinition::MultiVal(d) => d.0.0@,
                })
                &&& match self {
                    ast::SingleDefinition::SingleVal(d) =>
                        value_gen_ok(d.1, *b2.entries@.last().1.gen),
                    ast::SingleDefinition::MultiVal(d) =>
                        *b2.entries@.last().1.gen matches GeneratorEnum::Alternation(alt)
                            && value_set_alt_ok(d.2.0@, *alt),
                }
            },
            r matches Err(e) ==> e is DuplicateIdentifier || e is EmptyValueSet,
    {
        match self {
            ast::SingleDefinition::SingleVal(d) => d.evaluate(bindings),
            ast::SingleDefinition::MultiVal(d) => d.evaluate(bindings),
        }
    }
}

impl ast::NestedDefinition {
    /// Registers every identifier a nested definition binds: one shared
    /// decision tree is built once, and each bound identifier reads it at
    /// its own depth, following the branch identifiers.  Fails exactly
    /// when the clause tree cannot be built or a bound identifier is not
    /// fresh, leaving no partial registry.
    #[verifier::loop_isolation(false)]
    pub fn evaluate(self, bindings: Bindings) -> (r: Result<Bindings, EvaluationError>)
        requires
            bindings_wf(bindings),
        ensures
            r is Ok <==> nested_ok(bindings, self),
            r matches Ok(b2) ==> {
                &&& bindings_wf(b2)
                &&& b2.entries@.len() == bindings.entries@.len() + assign_id_views(self).len()
                &&& b2.entries@.subrange(0, bindings.entries@.len() as int) == bindings.entries@
                &&& forall|k: int| 0 <= k < assign_id_views(self).len()
                    ==> b2.entries@[bindings.entries@.len() + k].0@
                        == #[trigger] assign_id_views(self)[k]
                &&& exists|t: Rc<ValueTree>| {
                    &&& crate::engine::tree_wf(*t)
                    &&& clauses_tree_ok(self.2, nested_id_views(self), 0, *t)
                    &&& forall|k: int| 0 <= k < assign_id_views(self).len() ==> {
                        let d = #[trigger] bdef(b2.entries@, assign_id_views(self)[k]);
                        &&& b2.entries@[bindings.entries@.len() + k].0@ == assign_id_views(self)[k]
                        &&& *d.gen matches GeneratorEnum::Nested(ng)
                            && ng.read_depth == using_count(self) + k
                            && ng.tree == t
                    }
                }
            },
            r matches Err(e) ==> e is DuplicateIdentifier || e is EmptyValueSet
                || e is InvalidMatchExprCast || e is NoChildrenForTree,
    {
        let ast::NestedDefinition(maybe_using, ast::AssignIds(ast::Names(assign_ids)), clauses) = self;
        let ghost original = bindings;
        let ghost self_view = ast::NestedDefinition(
            maybe_using, ast::AssignIds(ast::Names(assign_ids)), clauses,
        );
        // Gather the full identifier list: the branch identifiers first,
        // then the bound ones.
        let mut ids: Vec<String> = Vec::new();
        let offset: usize;
        match &maybe_using {
            Some(u) => {
                let names = &u.0.0;
                let n = names.len();
                let mut i: usize = 0;
                while i < n
                    invariant
                        n == names@.len(),
                        i <= n,
                        ids@.len() == i,
                        forall|k: int| 0 <= k < i ==> (#[trigger] ids@[k])@ == names@[k].0@,
                    decreases n - i,
                {
                    ids.push(names[i].0.clone());
                    i = i + 1;
                }
                proof {
                    assert forall|k: int| 0 <= k < n
                        implies (#[trigger] ids@[k])@ == nested_id_views(self_view)[k] by {
                        assert(ids@[k]@ == names@[k].0@);
                    }
                }
                offset = n;
            },
            None => {
                offset = 0;
            },
        }
        let n_assign = assign_ids.len();
        proof {
            assert(offset == using_count(self_view));
        }
        let mut i: usize = 0;
        while i < n_assign
            invariant
                n_assign == assign_ids@.len(),
                i <= n_assign,
                ids@.len() == offset + i,
                forall|k: int| 0 <= k < offset
                    ==> (#[trigger] ids@[k])@ == nested_id_views(self_view)[k],
                forall|k: int| 0 <= k < i
                    ==> (#[trigger] ids@[offset + k])@ == assign_ids@[k].0@,
            decreases n_assign - i,
        {
            ids.push(assign_ids[i].0.clone());
            i = i + 1;
        }
        proof {
            assert(ids@.len() == using_count(self_view) + assign_id_views(self_view).len());
            assert forall|k: int| 0 <= k < ids@.len()
                implies crate::deps::name_views(ids@)[k] == nested_id_views(self_view)[k] by {
                if k >= offset {
                    let kk = k - offset;
                    assert(nested_id_views(self_view)[k] == assign_id_views(self_view)[kk]);
                    assert(assign_id_views(self_view)[kk] == assign_ids@[kk].0@);
                    assert((#[trigger] ids@[offset + kk])@ == assign_ids@[kk].0@);
                    assert(ids@[k]@ == assign_ids@[kk].0@);
                }
            }
            assert(crate::deps::name_views(ids@) =~= nested_id_views(self_view));
        }
        let total_ids = ids.len();
        let tree = match ValueTree::from_nested_clauses(&ids, 0, &clauses) {
            Ok(t) => t,
            Err(e) => {
                return Err(e);
            },
        };
        let tree = Rc::new(tree);
        let mut bindings = bindings;
        let mut i: usize = 0;
        // First pass: check freshness and distinctness by adding one by
        // one; any duplicate aborts with no partial registry returned.
        while i < n_assign
            invariant
                n_assign == assign_ids@.len(),
                bindings_wf(bindings),
                i <= n_assign,
                crate::engine::tree_wf(*tree),
                bindings.entries@.len() == original.entries@.len() + i,
                bindings.entries@.subrange(0, original.entries@.len() as int)
                    =~= original.entries@,
                forall|k: int| 0 <= k < i ==> {
                    &&& (#[trigger] bindings.entries@[original.entries@.len() + k]).0@
                        == assign_ids@[k].0@
                    &&& bindings.entries@[original.entries@.len() + k].1.gen
                        == bdef(bindings.entries@, assign_ids@[k].0@).gen
                    &&& (*bindings.entries@[original.entries@.len() + k].1.gen)
                        matches GeneratorEnum::Nested(ng)
                        && ng.read_depth == offset + k
                        && ng.tree == tree
                },
                forall|k: int| 0 <= k < i ==> !bcontains(original, (#[trigger] assign_ids@[k]).0@),
                forall|k: int, j: int| 0 <= k < j < i
                    ==> (#[trigger] assign_ids@[k]).0@ != (#[trigger] assign_ids@[j]).0@,
            decreases n_assign - i,
        {
            assert(offset + i < total_ids);
            let depth = offset + i;
            let gen = GeneratorEnum::Nested(NestedGenerator::new(depth, tree.clone()));
            let ghost before = bindings.entries@;
            match bindings.add(assign_ids[i].0.clone(), gen) {
                Ok(_) => {},
                Err(e) => {
                    proof {
                        // The clash is either with an original entry or
                        // with an earlier bound identifier.
                        assert(bcontains(bindings, assign_ids@[i as int].0@));
                        let m = choose|m: int| 0 <= m < bindings.entries@.len()
                            && (#[trigger] bindings.entries@[m]).0@ == assign_ids@[i as int].0@;
                        assert(before == bindings.entries@);
                        assert(0 <= m < before.len() && before[m].0@ == assign_ids@[i as int].0@);
                        if m < original.entries@.len() {
                            assert(before.subrange(0, original.entries@.len() as int)[m]
                                == before[m]);
                            assert(original.entries@[m].0@ == assign_ids@[i as int].0@);
                            assert(bcontains(original, assign_id_views(self_view)[i as int]));
                            assert(!nested_ok(original, self_view));
                        } else {
                            let k = m - original.entries@.len();
                            assert(0 <= k < i as int);
                            assert(bindings.entries@[original.entries@.len() + k].0@
                                == assign_ids@[k].0@);
                            assert(before[m].0@ == assign_ids@[k].0@);
                            assert(assign_id_views(self_view)[k] == assign_ids@[k].0@);
                            assert(assign_id_views(self_view)[i as int]
                                == assign_ids@[i as int].0@);
                            assert(assign_id_views(self_view)[k]
                                == assign_id_views(self_view)[i as int]);
                            assert(!nested_ok(original, self_view));
                        }
                    }
                    return Err(e);
                },
            }
            proof {
                assert(bindings.entries@.drop_last() == before);
                assert(bindings.entries@.subrange(0, original.entries@.len() as int)
                    =~= original.entries@);
                assert forall|k: int| 0 <= k < i + 1 implies {
                    &&& (#[trigger] bindings.entries@[original.entries@.len() + k]).0@
                        == assign_ids@[k].0@
                    &&& bindings.entries@[original.entries@.len() + k].1.gen
                        == bdef(bindings.entries@, assign_ids@[k].0@).gen
                    &&& (*bindings.entries@[original.entries@.len() + k].1.gen)
                        matches GeneratorEnum::Nested(ng)
                        && ng.read_depth == offset + k
                        && ng.tree == tree
                } by {
                    if k < i as int {
                        assert(bindings.entries@[original.entries@.len() + k] == before[original.entries@.len() + k]);
                        crate::bindings::lemma_bdef_at(
                            bindings.entries@, assign_ids@[k].0@, original.entries@.len() + k,
                        );
                    } else {
                        crate::bindings::lemma_bdef_at(
                            bindings.entries@, assign_ids@[k].0@, original.entries@.len() + k,
                        );
                    }
                }
                assert forall|k: int| 0 <= k < i + 1
                    implies !bcontains(original, (#[trigger] assign_ids@[k]).0@) by {
                    if k == i as int {
                        if bcontains(original, assign_ids@[k].0@) {
                            let m = choose|m: int| 0 <= m < original.entries@.len()
                                && (#[trigger] original.entries@[m]).0@ == assign_ids@[k].0@;
                            assert(before[m].0@ == assign_ids@[k].0@);
                        }
                    }
                }
                assert forall|k: int, j: int| 0 <= k < j < i + 1
                    implies (#[trigger] assign_ids@[k]).0@ != (#[trigger] assign_ids@[j]).0@ by {
                    if j == i as int {
                        assert(before[original.entries@.len() + k].0@ == assign_ids@[k].0@);
                    }
                }
            }
            i = i + 1;
        }
        proof {
            assert(nested_clauses_ok(clauses, ids@.len() as int));
            assert forall|a: int, j: int| 0 <= a < j < assign_id_views(self_view).len()
                implies #[trigger] assign_id_views(self_view)[a]
                    != #[trigger] assign_id_views(self_view)[j] by {
                assert(assign_id_views(self_view)[a] == assign_ids@[a].0@);
                assert(assign_id_views(self_view)[j] == assign_ids@[j].0@);
            }
            assert forall|a: int| 0 <= a < assign_id_views(self_view).len()
                implies !bcontains(original, #[trigger] assign_id_views(self_view)[a]) by {
                assert(assign_id_views(self_view)[a] == assign_ids@[a].0@);
            }
            assert(nested_ok(original, self_view));
            assert forall|k: int| 0 <= k < assign_id_views(self_view).len()
                implies bindings.entries@[original.entries@.len() + k].0@
                    == #[trigger] assign_id_views(self_view)[k] by {
                assert(assign_id_views(self_view)[k] == assign_ids@[k].0@);
            }
            assert forall|k: int| 0 <= k < assign_id_views(self_view).len() implies {
                let d = #[trigger] bdef(bindings.entries@, assign_id_views(self_view)[k]);
                &&& bindings.entries@[original.entries@.len() + k].0@
                    == assign_id_views(self_view)[k]
                &&& *d.gen matches GeneratorEnum::Nested(ng)
                    && ng.read_depth == using_count(self_view) + k
                    && ng.tree == tree
            } by {
                assert(assign_id_views(self_view)[k] == assign_ids@[k].0@);
            }
        }
        Ok(bindings)
    }
}

impl ast::Definition {
    /// Registers one definition of either kind.
    pub fn evaluate(self, bindings: Bindings) -> (r: Result<Bindings, EvaluationError>)
        requires
            bindings_wf(bindings),
        ensures
            r matches Ok(b2) ==> bindings_wf(b2)
                && (b2.entries@.len() == bindings.entries@.len() + definition_id_views(self).len()
                    && b2.entries@.subrange(0, bindings.entries@.len() as int)
                        == bindings.entries@),
            r matches Ok(b2) ==> forall|k: int|
                0 <= k < definition_id_views(self).len()
                    ==> b2.entries@[bindings.entries@.len() + k].0@
                        == #[trigger] definition_id_views(self)[k],
            r is Ok <==> (match self {
                ast::Definition::Single(ast::SingleDefinition::SingleVal(d)) =>
                    single_val_ok(bindings, d),
                ast::Definition::Single(ast::SingleDefinition::MultiVal(d)) =>
                    multi_val_ok(bindings, d),
                ast::Definition::Nested(d) => nested_ok(bindings, d),
            }),
    {
        match self {
            ast::Definition::Single(d) => {
                let r = d.evaluate(bindings);
                proof {
                    if r is Ok {
                        assert(r->Ok_0.entries@.subrange(0, bindings.entries@.len() as int)
                            =~= r->Ok_0.entries@.drop_last());
                    }
                }
                r
            },
            ast::Definition::Nested(d) => d.evaluate(bindings),
        }
    }
}

/// The identifiers one definition binds.
pub open spec fn definition_id_views(d: ast::Definition) -> Seq<Seq<char>> {
    match d {
        ast::Definition::Single(ast::SingleDefinition::SingleVal(s)) => seq![s.0.0@],
        ast::Definition::Single(ast::SingleDefinition::MultiVal(m)) => seq![m.0.0@],
        ast::Definition::Nested(n) => assign_id_views(n),
    }
}

/// Builds the registry of generators from a whole parsed source file:
/// on success every identifier any definition binds is registered;
/// registration stops at the first failing definition and returns no
/// partial registry.
#[verifier::loop_isolation(false)]
pub fn evaluate_mockagen(body: ast::Body) -> (r: Result<Bindings, EvaluationError>)
    ensures
        r matches Ok(b) ==> bindings_wf(b)
            && forall|i: int, k: int| 0 <= i < body.1@.len()
                && 0 <= k < definition_id_views(#[trigger] body.1@[i]).len()
                ==> bcontains(b, #[trigger] definition_id_views(body.1@[i])[k]),
{
    let ast::Body(_, definitions, _) = body;
    let ghost defs0 = definitions@;
    let n_defs = definitions.len();
    let mut bindings = Bindings::new();
    let mut rest = definitions;
    let mut done: usize = 0;
    while rest.len() > 0
        invariant
            bindings_wf(bindings),
            n_defs == defs0.len(),
            done <= n_defs,
            defs0.len() == rest@.len() + done,
            rest@ =~= defs0.subrange(done as int, defs0.len() as int),
            forall|i: int, k: int| 0 <= i < done
                && 0 <= k < definition_id_views(#[trigger] defs0[i]).len()
                ==> bcontains(bindings, #[trigger] definition_id_views(defs0[i])[k]),
        decreases rest@.len(),
    {
        let def = rest.remove(0);
        let ghost before = bindings;
        proof {
            assert(forall|i: int, k: int| 0 <= i < done
                && 0 <= k < definition_id_views(#[trigger] defs0[i]).len()
                ==> bcontains(before, #[trigger] definition_id_views(defs0[i])[k]));
        }
        bindings = match def.evaluate(bindings) {
            Ok(b) => b,
            Err(e) => {
                return Err(e);
            },
        };
        proof {
            // Earlier identifiers survive: the new registry extends the
            // old one entry for entry; the new definition's identifiers
            // stand at the appended positions.
            assert forall|i: int, k: int| 0 <= i < done + 1
                && 0 <= k < definition_id_views(#[trigger] defs0[i]).len()
                implies bcontains(bindings, #[trigger] definition_id_views(defs0[i])[k]) by {
                if i < done as int {
                    assert(bcontains(before, definition_id_views(defs0[i])[k]));
                    let m = choose|m: int| 0 <= m < before.entries@.len()
                        && (#[trigger] before.entries@[m]).0@
                            == definition_id_views(defs0[i])[k];
                    assert(bindings.entries@.subrange(0, before.entries@.len() as int)[m]
                        == bindings.entries@[m]);
                } else {
                    assert(defs0[i] == def);
                    assert(bindings.entries@[before.entries@.len() + k].0@
                        == definition_id_views(def)[k]);
                }
            }
        }
        done = done + 1;
    }
    proof {
        assert(defs0 =~= body.1@);
    }
    Ok(bindings)
}

} // verus!
