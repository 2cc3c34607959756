//! Column selection: resolving a requested set of output columns into an
//! ordered, reusable list of generators.
//!
//! Each requested identifier is looked up and marked as directly
//! requested; the identifiers its generator reads are pulled in after it
//! and marked as dependencies, recursively.  Requested identifiers that
//! cannot be resolved are collected into one aggregate error rather than
//! failing fast on the first, so that a caller sees every unresolvable
//! name in one pass.  Evaluation order is not a correctness concern: row
//! generation resolves identifiers lazily through the row context.

use vstd::prelude::*;
use std::rc::Rc;

use crate::bindings::{bcontains, bdef, bindings_wf, Bindings};
use crate::deps::name_views;
use crate::engine::{gen_total, GeneratorEnum};
use crate::errors::EvaluationError;
use crate::eval::{
    eval_inv, gen_may_yield, lemma_sval_at, lookup_value, pcontains, scontains, scope_ext,
    scope_wf, sval, Scope,
};
use crate::values::OutValue;

verus! {

/// One selected column: an identifier, its generator, and whether it was
/// directly requested or only pulled in as a dependency.
#[derive(Debug)]
pub struct SelectedDefGen {
    pub id: String,
    pub gen: Rc<GeneratorEnum>,
    pub requested: bool,
}

/// An ordered, dependency-resolved selection of generators, reusable
/// across any number of generated rows.
#[derive(Debug)]
pub struct ColumnGenerator {
    pub entries: Vec<SelectedDefGen>,
}

/// Whether a selection belongs to a registry: every selected identifier
/// is registered and carries that registration's generator.
pub open spec fn colgen_wf(cg: ColumnGenerator, b: Bindings) -> bool {
    &&& forall|i: int| 0 <= i < cg.entries@.len()
        ==> bcontains(b, (#[trigger] cg.entries@[i]).id@)
    &&& forall|i: int| 0 <= i < cg.entries@.len()
        ==> (#[trigger] cg.entries@[i]).gen == bdef(b.entries@, cg.entries@[i].id@).gen
    &&& forall|i: int, j: int| 0 <= i < j < cg.entries@.len()
        ==> (#[trigger] cg.entries@[i]).id@ != (#[trigger] cg.entries@[j]).id@
}

/// Whether every dependency recorded in the registry is itself
/// registered.
pub open spec fn deps_closed(b: Bindings) -> bool {
    forall|i: int, j: int| 0 <= i < b.entries@.len()
        && 0 <= j < (#[trigger] b.entries@[i]).1.deps@.len()
        ==> bcontains(b, (#[trigger] b.entries@[i].1.deps@[j])@)
}

/// The unresolvable identifiers of a request, in first-occurrence order.
pub open spec fn spec_missing(b: Bindings, req: Seq<Seq<char>>) -> Seq<Seq<char>>
    decreases req.len(),
{
    if req.len() == 0 {
        Seq::empty()
    } else {
        let rest = spec_missing(b, req.drop_last());
        if !bcontains(b, req.last()) && !rest.contains(req.last()) {
            rest.push(req.last())
        } else {
            rest
        }
    }
}

/// Whether the selection holds the identifier as a directly requested
/// column.
pub open spec fn selection_has_requested(cg: ColumnGenerator, id: Seq<char>) -> bool {
    exists|k: int| 0 <= k < cg.entries@.len()
        && (#[trigger] cg.entries@[k]).id@ == id
        && cg.entries@[k].requested
}

/// Whether every requested identifier is selected and flagged as
/// directly requested.
pub open spec fn requested_covered(cg: ColumnGenerator, req: Seq<Seq<char>>) -> bool {
    forall|i: int| 0 <= i < req.len() ==> selection_has_requested(cg, #[trigger] req[i])
}

/// How many selected columns are marked as directly requested.
pub open spec fn count_requested(s: Seq<SelectedDefGen>) -> int
    decreases s.len(),
{
    if s.len() == 0 {
        0
    } else {
        count_requested(s.drop_last()) + if s.last().requested {
            1int
        } else {
            0int
        }
    }
}

/// The requested columns' cached row values, in selection order.
pub open spec fn requested_values(entries: Seq<SelectedDefGen>, s: Scope) -> Seq<OutValue>
    decreases entries.len(),
{
    if entries.len() == 0 {
        Seq::empty()
    } else {
        let rest = requested_values(entries.drop_last(), s);
        if entries.last().requested {
            rest.push(sval(s.entries@, entries.last().id@))
        } else {
            rest
        }
    }
}

/// There is one requested value per requested column.
proof fn lemma_requested_values_len(entries: Seq<SelectedDefGen>, s: Scope)
    ensures
        requested_values(entries, s).len() == count_requested(entries),
    decreases entries.len(),
{
    if entries.len() > 0 {
        lemma_requested_values_len(entries.drop_last(), s);
    }
}

/// The requested values do not change as the row cache grows, as long as
/// every selected identifier is already cached.
proof fn lemma_requested_values_ext(entries: Seq<SelectedDefGen>, s0: Scope, s1: Scope)
    requires
        scope_ext(s0, s1),
        forall|i: int| 0 <= i < entries.len()
            ==> scontains(s0, (#[trigger] entries[i]).id@),
    ensures
        requested_values(entries, s1) == requested_values(entries, s0),
    decreases entries.len(),
{
    if entries.len() > 0 {
        assert forall|i: int| 0 <= i < entries.drop_last().len()
            implies scontains(s0, (#[trigger] entries.drop_last()[i]).id@) by {
            assert(entries.drop_last()[i] == entries[i]);
        }
        lemma_requested_values_ext(entries.drop_last(), s0, s1);
        assert(scontains(s0, entries.last().id@));
    }
}

/// The index of an identifier in the selection, if present.
fn selection_find(out: &Vec<SelectedDefGen>, id: &str) -> (r: Option<usize>)
    ensures
        r matches Some(i) ==> i < out@.len() && out@[i as int].id@ == id@,
        r is None ==> forall|i: int| 0 <= i < out@.len() ==> (#[trigger] out@[i]).id@ != id@,
{
    let key: String = id.to_owned();
    let n = out.len();
    let mut i: usize = 0;
    while i < n
        invariant
            n == out@.len(),
            i <= n,
            key@ == id@,
            forall|j: int| 0 <= j < i ==> (#[trigger] out@[j]).id@ != id@,
        decreases n - i,
    {
        if out[i].id.eq(&key) {
            return Some(i);
        }
        i = i + 1;
    }
    None
}

/// Whether a name list holds an identifier.
fn names_contain(names: &Vec<String>, id: &str) -> (r: bool)
    ensures
        r == name_views(names@).contains(id@),
{
    let key: String = id.to_owned();
    let n = names.len();
    let mut i: usize = 0;
    while i < n
        invariant
            n == names@.len(),
            i <= n,
            key@ == id@,
            forall|j: int| 0 <= j < i ==> (#[trigger] names@[j])@ != id@,
        decreases n - i,
    {
        if names[i].eq(&key) {
            proof {
                assert(name_views(names@)[i as int] == id@);
            }
            return true;
        }
        i = i + 1;
    }
    proof {
        if name_views(names@).contains(id@) {
            let j = choose|j: int| 0 <= j < names@.len() && name_views(names@)[j] == id@;
            assert(names@[j]@ == id@);
        }
    }
    false
}

/// The selection invariant while resolving: unique, registered entries
/// carrying their registration's generator, and a missing list of
/// unregistered names.
pub open spec fn selection_inv(b: Bindings, out: Seq<SelectedDefGen>, missing: Seq<String>) -> bool {
    &&& forall|i: int| 0 <= i < out.len() ==> bcontains(b, (#[trigger] out[i]).id@)
    &&& forall|i: int| 0 <= i < out.len()
        ==> (#[trigger] out[i]).gen == bdef(b.entries@, out[i].id@).gen
    &&& forall|i: int, j: int| 0 <= i < j < out.len()
        ==> (#[trigger] out[i]).id@ != (#[trigger] out[j]).id@
    &&& forall|i: int| 0 <= i < missing.len() ==> !bcontains(b, (#[trigger] missing[i])@)
    &&& forall|i: int, j: int| 0 <= i < j < missing.len()
        ==> (#[trigger] missing[i])@ != (#[trigger] missing[j])@
}

/// Whether some registry entry carries the given identifier.
pub open spec fn entries_contain(
    entries: Seq<(String, crate::bindings::DefGen)>, id: Seq<char>,
) -> bool {
    exists|m: int| 0 <= m < entries.len() && (#[trigger] entries[m]).0@ == id
}

/// A duplicate-free selection of registered identifiers can never
/// outgrow the registry.
proof fn lemma_selection_bounded(entries: Seq<(String, crate::bindings::DefGen)>, ids: Seq<Seq<char>>)
    requires
        forall|i: int, j: int| 0 <= i < j < entries.len()
            ==> (#[trigger] entries[i]).0@ != (#[trigger] entries[j]).0@,
        forall|i: int| 0 <= i < ids.len() ==> entries_contain(entries, #[trigger] ids[i]),
        forall|i: int, j: int| 0 <= i < j < ids.len()
            ==> #[trigger] ids[i] != #[trigger] ids[j],
    ensures
        ids.len() <= entries.len(),
    decreases ids.len(),
{
    if ids.len() > 0 {
        let last_id = ids.last();
        let k = choose|k: int| 0 <= k < entries.len()
            && (#[trigger] entries[k]).0@ == last_id;
        let rest_entries = entries.subrange(0, k) + entries.subrange(k + 1, entries.len() as int);
        assert forall|i: int| 0 <= i < ids.drop_last().len()
            implies entries_contain(rest_entries, #[trigger] ids.drop_last()[i]) by {
            assert(ids.drop_last()[i] == ids[i]);
            let m = choose|m: int| 0 <= m < entries.len()
                && (#[trigger] entries[m]).0@ == ids[i];
            assert(ids[i] != last_id);
            if m < k {
                assert(rest_entries[m] == entries[m]);
            } else {
                assert(m > k);
                assert(rest_entries[m - 1] == entries[m]);
            }
        }
        assert forall|i: int, j: int| 0 <= i < j < rest_entries.len()
            implies (#[trigger] rest_entries[i]).0@ != (#[trigger] rest_entries[j]).0@ by {
            let bi = if i < k { i } else { i + 1 };
            let bj = if j < k { j } else { j + 1 };
            assert(rest_entries[i] == entries[bi]);
            assert(rest_entries[j] == entries[bj]);
        }
        lemma_selection_bounded(rest_entries, ids.drop_last());
    }
}

/// Resolves one identifier into the selection: a registered identifier
/// is selected (marked requested when asked directly, its flag raised if
/// it was already selected as a dependency), and the identifiers its
/// generator reads are pulled in after it as dependencies; an
/// unregistered identifier is recorded in the missing list instead, once.
#[verifier::loop_isolation(false)]
fn select_into(
    b: &Bindings, id: &str, requested: bool,
    out: &mut Vec<SelectedDefGen>, missing: &mut Vec<String>,
)
    requires
        bindings_wf(*b),
        selection_inv(*b, old(out)@, old(missing)@),
    ensures
        selection_inv(*b, final(out)@, final(missing)@),
        final(out)@.len() >= old(out)@.len(),
        forall|i: int| 0 <= i < old(out)@.len() ==> {
            &&& (#[trigger] final(out)@[i]).id@ == old(out)@[i].id@
            &&& final(out)@[i].gen == old(out)@[i].gen
            &&& (old(out)@[i].requested ==> final(out)@[i].requested)
        },
        final(missing)@.len() >= old(missing)@.len(),
        forall|i: int| 0 <= i < old(missing)@.len()
            ==> (#[trigger] final(missing)@[i])@ == old(missing)@[i]@,
        bcontains(*b, id@) ==> exists|i: int| 0 <= i < final(out)@.len()
            && (#[trigger] final(out)@[i]).id@ == id@
            && (requested ==> final(out)@[i].requested),
        forall|k: int| 0 <= k < final(out)@.len() && (#[trigger] final(out)@[k]).requested
            ==> (k < old(out)@.len() && old(out)@[k].requested)
                || (requested && final(out)@[k].id@ == id@),
        !bcontains(*b, id@) ==> name_views(final(missing)@).contains(id@),
        deps_closed(*b) ==> name_views(final(missing)@) == (
            if !bcontains(*b, id@) && !name_views(old(missing)@).contains(id@) {
                name_views(old(missing)@).push(id@)
            } else {
                name_views(old(missing)@)
            }),
    decreases b.entries@.len() - out@.len(), 0int,
{
    let ghost out0 = out@;
    let ghost missing0 = missing@;
    match selection_find(out, id) {
        Some(idx) => {
            if requested {
                let replacement = SelectedDefGen {
                    id: out[idx].id.clone(),
                    gen: out[idx].gen.clone(),
                    requested: true,
                };
                out.set(idx, replacement);
                proof {
                    assert forall|i: int| 0 <= i < out0.len() implies {
                        &&& (#[trigger] out@[i]).id@ == out0[i].id@
                        &&& out@[i].gen == out0[i].gen
                        &&& (out0[i].requested ==> out@[i].requested)
                    } by {
                        if i != idx {
                            assert(out@[i] == out0[i]);
                        }
                    }
                }
            }
            proof {
                if bcontains(*b, id@) {
                    assert(out@[idx as int].id@ == id@);
                }
            }
            return;
        },
        None => {},
    }
    let def = match b.get_def(id) {
        Ok(d) => d,
        Err(_) => {
            if !names_contain(missing, id) {
                missing.push(id.to_owned());
                proof {
                    assert(name_views(missing@).drop_last() =~= name_views(missing0));
                    assert(name_views(missing@).last() == id@);
                    assert(name_views(missing@) =~= name_views(missing0).push(id@));
                    assert forall|i: int, j: int| 0 <= i < j < missing@.len()
                        implies (#[trigger] missing@[i])@ != (#[trigger] missing@[j])@ by {
                        if j == missing@.len() - 1 {
                            assert(missing@[i] == missing0[i]);
                            assert(name_views(missing0)[i] == missing0[i]@);
                        }
                    }
                }
            }
            return;
        },
    };
    let ghost entry_index = choose|k: int| 0 <= k < b.entries@.len()
        && (#[trigger] b.entries@[k]).0@ == id@;
    proof {
        crate::bindings::lemma_bdef_at(b.entries@, id@, entry_index);
        assert(*def == b.entries@[entry_index].1);
    }
    let gen = def.gen.clone();
    out.push(SelectedDefGen { id: id.to_owned(), gen, requested });
    let ghost out1 = out@;
    proof {
        assert(out1.drop_last() =~= out0);
        assert forall|i: int, j: int| 0 <= i < j < out1.len()
            implies (#[trigger] out1[i]).id@ != (#[trigger] out1[j]).id@ by {
            if j == out1.len() - 1 {
                assert(out1[i] == out0[i]);
            }
        }
    }
    let n = def.deps.len();
    let mut i: usize = 0;
    while i < n
        invariant
            n == def.deps@.len(),
            i <= n,
            selection_inv(*b, out@, missing@),
            out@.len() >= out1.len(),
            forall|k: int| 0 <= k < out1.len() ==> {
                &&& (#[trigger] out@[k]).id@ == out1[k].id@
                &&& out@[k].gen == out1[k].gen
                &&& (out1[k].requested ==> out@[k].requested)
            },
            missing@.len() >= missing0.len(),
            forall|k: int| 0 <= k < missing0.len()
                ==> (#[trigger] missing@[k])@ == missing0[k]@,
            deps_closed(*b) ==> name_views(missing@) == name_views(missing0),
            forall|k: int| 0 <= k < out@.len() && (#[trigger] out@[k]).requested
                ==> (k < out1.len() && out1[k].requested),
        decreases n - i,
    {
        proof {
            lemma_selection_bounded(
                b.entries@,
                Seq::new(out@.len(), |k: int| out@[k].id@),
            );
            if deps_closed(*b) {
                assert(bcontains(*b, (b.entries@[entry_index].1.deps@[i as int])@));
            }
        }
        select_into(b, def.deps[i].as_str(), false, out, missing);
        i = i + 1;
    }
    proof {
        assert(out@[out1.len() - 1].id@ == id@);
        if requested {
            assert(out@[out1.len() - 1].requested);
        }
    }
}

impl Bindings {
    /// Resolves a requested set of output columns into an ordered,
    /// reusable selection of generators, pulling in every identifier a
    /// requested generator transitively reads.  Unresolvable requested
    /// identifiers are all collected into one `MissingIdentifiers` error
    /// rather than failing fast on the first.
    pub fn make_column_generator(&self, requested_ids: &Vec<String>)
        -> (r: Result<ColumnGenerator, EvaluationError>)
        requires
            bindings_wf(*self),
        ensures
            r matches Ok(cg) ==> {
                &&& colgen_wf(cg, *self)
                &&& forall|i: int| 0 <= i < requested_ids@.len()
                    ==> bcontains(*self, (#[trigger] requested_ids@[i])@)
                &&& requested_covered(cg, name_views(requested_ids@))
                &&& forall|k: int| 0 <= k < cg.entries@.len()
                    && (#[trigger] cg.entries@[k]).requested
                    ==> exists|q: int| 0 <= q < requested_ids@.len()
                        && (#[trigger] requested_ids@[q])@ == cg.entries@[k].id@
            },
            r matches Err(e) ==> (e matches EvaluationError::MissingIdentifiers(m) && {
                &&& m@.len() > 0
                &&& forall|i: int| 0 <= i < m@.len() ==> !bcontains(*self, (#[trigger] m@[i])@)
                &&& (deps_closed(*self)
                    ==> name_views(m@) == spec_missing(*self, name_views(requested_ids@)))
            }),
            (exists|i: int| 0 <= i < requested_ids@.len()
                && !bcontains(*self, (#[trigger] requested_ids@[i])@)) ==> r is Err,
            deps_closed(*self)
                ==> (r is Err <==> spec_missing(*self, name_views(requested_ids@)).len() > 0),
    {
        let mut out: Vec<SelectedDefGen> = Vec::new();
        let mut missing: Vec<String> = Vec::new();
        let n = requested_ids.len();
        let mut i: usize = 0;
        while i < n
            invariant
                bindings_wf(*self),
                n == requested_ids@.len(),
                i <= n,
                selection_inv(*self, out@, missing@),
                forall|k: int| 0 <= k < i ==> (bcontains(*self, (#[trigger] requested_ids@[k])@)
                    ==> exists|e: int| 0 <= e < out@.len()
                        && (#[trigger] out@[e]).id@ == requested_ids@[k]@
                        && out@[e].requested),
                forall|k: int| 0 <= k < i ==> (!bcontains(*self, (#[trigger] requested_ids@[k])@)
                    ==> name_views(missing@).contains(requested_ids@[k]@)),
                deps_closed(*self)
                    ==> name_views(missing@)
                        == spec_missing(*self, name_views(requested_ids@.take(i as int))),
                forall|e: int| 0 <= e < out@.len() && (#[trigger] out@[e]).requested
                    ==> exists|q: int| 0 <= q < i
                        && (#[trigger] requested_ids@[q])@ == out@[e].id@,
            decreases n - i,
        {
            let ghost out_before = out@;
            let ghost missing_before = missing@;
            select_into(self, requested_ids[i].as_str(), true, &mut out, &mut missing);
            proof {
                assert forall|e: int| 0 <= e < out@.len() && (#[trigger] out@[e]).requested
                    implies exists|q: int| 0 <= q < i + 1
                        && (#[trigger] requested_ids@[q])@ == out@[e].id@ by {
                    if e < out_before.len() && out_before[e].requested {
                        let q = choose|q: int| 0 <= q < i
                            && (#[trigger] requested_ids@[q])@ == out_before[e].id@;
                        assert(requested_ids@[q]@ == out@[e].id@);
                    } else {
                        assert(requested_ids@[i as int]@ == out@[e].id@);
                    }
                }
            }
            proof {
                assert(requested_ids@.take(i + 1).drop_last() =~= requested_ids@.take(i as int));
                assert(requested_ids@.take(i + 1).last() == requested_ids@[i as int]);
                assert(name_views(requested_ids@.take(i + 1)).drop_last()
                    =~= name_views(requested_ids@.take(i as int)));
                assert(name_views(requested_ids@.take(i + 1)).last()
                    == requested_ids@[i as int]@);
                assert forall|k: int| 0 <= k < i + 1 && bcontains(*self, (#[trigger] requested_ids@[k])@)
                    implies exists|e: int| 0 <= e < out@.len()
                        && (#[trigger] out@[e]).id@ == requested_ids@[k]@
                        && out@[e].requested by {
                    if k < i as int {
                        let e = choose|e: int| 0 <= e < out_before.len()
                            && (#[trigger] out_before[e]).id@ == requested_ids@[k]@
                            && out_before[e].requested;
                        assert(out@[e].id@ == requested_ids@[k]@ && out@[e].requested);
                    }
                }
                assert forall|k: int| 0 <= k < i + 1 && !bcontains(*self, (#[trigger] requested_ids@[k])@)
                    implies name_views(missing@).contains(requested_ids@[k]@) by {
                    if k < i as int {
                        let e = choose|e: int| 0 <= e < name_views(missing_before).len()
                            && name_views(missing_before)[e] == requested_ids@[k]@;
                        assert(missing@[e]@ == missing_before[e]@);
                        assert(name_views(missing@)[e] == requested_ids@[k]@);
                    }
                }
            }
            i = i + 1;
        }
        proof {
            assert(requested_ids@.take(n as int) =~= requested_ids@);
            assert(name_views(requested_ids@.take(n as int)) =~= name_views(requested_ids@));
        }
        if missing.len() == 0 {
            let cg = ColumnGenerator { entries: out };
            proof {
                assert forall|i: int| 0 <= i < requested_ids@.len()
                    implies bcontains(*self, (#[trigger] requested_ids@[i])@) by {
                    if !bcontains(*self, requested_ids@[i]@) {
                        assert(name_views(missing@).contains(requested_ids@[i]@));
                    }
                }
                assert forall|i: int| 0 <= i < requested_ids@.len()
                    implies selection_has_requested(cg, #[trigger] name_views(requested_ids@)[i]) by {
                    assert(name_views(requested_ids@)[i] == requested_ids@[i]@);
                    assert(bcontains(*self, requested_ids@[i]@));
                    let e = choose|e: int| 0 <= e < cg.entries@.len()
                        && (#[trigger] cg.entries@[e]).id@ == requested_ids@[i]@
                        && cg.entries@[e].requested;
                    assert(0 <= e < cg.entries@.len()
                        && cg.entries@[e].id@ == requested_ids@[i]@
                        && cg.entries@[e].requested);
                }
                assert(requested_covered(cg, name_views(requested_ids@)));
            }
            Ok(cg)
        } else {
            proof {
                if deps_closed(*self) {
                } else {
                    assert(name_views(missing@).len() > 0);
                    assert(!bcontains(*self, missing@[0]@));
                }
            }
            Err(EvaluationError::MissingIdentifiers(missing))
        }
    }

    /// Generates one row: a fresh evaluation scope is driven over the
    /// selection, every selected identifier is evaluated (or found
    /// cached, when an earlier column already pulled it in), and the
    /// values of the directly requested columns are returned in
    /// selection order, dependency-only values discarded.  Each returned
    /// value is the row's cached value of its column's identifier, which
    /// is a value that column's generator can produce; a selection of
    /// generators that read no identifiers and hold no decision trees
    /// cannot fail.
    #[verifier::loop_isolation(false)]
    pub fn generate_row(&self, cols: &ColumnGenerator) -> (r: Result<Vec<OutValue>, EvaluationError>)
        requires
            bindings_wf(*self),
            colgen_wf(*cols, *self),
        ensures
            r matches Ok(vs) ==> {
                &&& vs@.len() == count_requested(cols.entries@)
                &&& exists|s: Scope| {
                    &&& #[trigger] scope_wf(s)
                    &&& forall|i: int| 0 <= i < cols.entries@.len() ==> {
                        &&& scontains(s, (#[trigger] cols.entries@[i]).id@)
                        &&& gen_may_yield(*cols.entries@[i].gen, s,
                            sval(s.entries@, cols.entries@[i].id@))
                    }
                    &&& vs@ == requested_values(cols.entries@, s)
                }
            },
            (forall|i: int| 0 <= i < cols.entries@.len()
                ==> gen_total(*(#[trigger] cols.entries@[i]).gen)) ==> r is Ok,
    {
        let mut scope = Scope::new();
        let mut pending: Vec<String> = Vec::new();
        let mut row: Vec<OutValue> = Vec::new();
        let n = cols.entries.len();
        let mut i: usize = 0;
        while i < n
            invariant
                n == cols.entries@.len(),
                i <= n,
                eval_inv(*self, scope, pending@),
                pending@ =~= Seq::<String>::empty(),
                forall|k: int| 0 <= k < i
                    ==> scontains(scope, (#[trigger] cols.entries@[k]).id@),
                row@ == requested_values(cols.entries@.take(i as int), scope),
            decreases n - i,
        {
            proof {
                assert(cols.entries@.take(i + 1).drop_last() =~= cols.entries@.take(i as int));
                assert(cols.entries@.take(i + 1).last() == cols.entries@[i as int]);
            }
            let ghost scope_before = scope;
            let v = match lookup_value(self, &mut scope, &mut pending, cols.entries[i].id.as_str()) {
                Ok(v) => v,
                Err(e) => {
                    proof {
                        // The identifier is registered and nothing is
                        // pending, so a failure means its generator is
                        // not total.
                        assert(!pcontains(pending@, cols.entries@[i as int].id@));
                        assert(bdef(self.entries@, cols.entries@[i as int].id@).gen
                            == cols.entries@[i as int].gen);
                        assert(!gen_total(*cols.entries@[i as int].gen));
                    }
                    return Err(e);
                },
            };
            proof {
                assert forall|k: int| 0 <= k < cols.entries@.take(i as int).len()
                    implies scontains(scope_before,
                        (#[trigger] cols.entries@.take(i as int)[k]).id@) by {
                    assert(cols.entries@.take(i as int)[k] == cols.entries@[k]);
                }
                lemma_requested_values_ext(cols.entries@.take(i as int), scope_before, scope);
            }
            if cols.entries[i].requested {
                row.push(v.duplicate());
            }
            i = i + 1;
        }
        proof {
            assert(cols.entries@.take(n as int) =~= cols.entries@);
            // The final row cache witnesses the result: every selected
            // identifier is cached with a value its generator can
            // produce.
            assert forall|k: int| 0 <= k < cols.entries@.len() implies {
                &&& scontains(scope, (#[trigger] cols.entries@[k]).id@)
                &&& gen_may_yield(*cols.entries@[k].gen, scope,
                    sval(scope.entries@, cols.entries@[k].id@))
            } by {
                let j = choose|j: int| 0 <= j < scope.entries@.len()
                    && (#[trigger] scope.entries@[j]).0@ == cols.entries@[k].id@;
                lemma_sval_at(scope.entries@, cols.entries@[k].id@, j);
                assert(bdef(self.entries@, cols.entries@[k].id@).gen == cols.entries@[k].gen);
            }
            assert(scope_wf(scope));
            lemma_requested_values_len(cols.entries@, scope);
        }
        Ok(row)
    }
}

} // verus!
