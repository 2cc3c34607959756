//! The registry of named generators.
//!
//! Identifiers map to generators; registration enforces uniqueness, and
//! the registry is read-only once rows are being generated.  Each entry
//! also records the identifiers its generator reads, gathered once at
//! registration time.

use vstd::prelude::*;
use std::rc::Rc;

use crate::deps::{collect_deps, gen_dep_set, name_views, string_keys};
use crate::engine::{gen_wf, GeneratorEnum};
use crate::errors::EvaluationError;

verus! {

/// A registered generator together with the identifiers it reads.
#[derive(Debug)]
pub struct DefGen {
    pub gen: Rc<GeneratorEnum>,
    pub deps: Vec<String>,
}

/// The registry mapping each identifier to its generator.
#[derive(Debug)]
pub struct Bindings {
    pub entries: Vec<(String, DefGen)>,
}

/// The registry under the name the dependency-resolution layer uses.
pub type GeneratorSet = Bindings;

/// The key views of the registry's entries.
pub open spec fn bkey_seq(s: Seq<(String, DefGen)>) -> Seq<Seq<char>> {
    s.map(|i: int, e: (String, DefGen)| e.0@)
}

/// The set of registered identifiers.
pub open spec fn bkeys(b: Bindings) -> Set<Seq<char>> {
    string_keys(bkey_seq(b.entries@))
}

/// Whether an identifier is registered.
pub open spec fn bcontains(b: Bindings, id: Seq<char>) -> bool {
    exists|i: int| 0 <= i < b.entries@.len() && (#[trigger] b.entries@[i]).0@ == id
}

/// The entry registered under an identifier.
pub open spec fn bdef(s: Seq<(String, DefGen)>, id: Seq<char>) -> DefGen
    decreases s.len(),
{
    if s.len() == 0 {
        arbitrary()
    } else if s.last().0@ == id {
        s.last().1
    } else {
        bdef(s.drop_last(), id)
    }
}

/// Whether the registry is fit for use: unique identifiers, every
/// generator well formed, and every recorded dependency list naming
/// exactly what its generator reads.
pub open spec fn bindings_wf(b: Bindings) -> bool {
    &&& forall|i: int, j: int| 0 <= i < j < b.entries@.len()
        ==> (#[trigger] b.entries@[i]).0@ != (#[trigger] b.entries@[j]).0@
    &&& forall|i: int| 0 <= i < b.entries@.len() ==> gen_wf(*(#[trigger] b.entries@[i]).1.gen)
    &&& forall|i: int| 0 <= i < b.entries@.len()
        ==> string_keys(name_views((#[trigger] b.entries@[i]).1.deps@))
            == gen_dep_set(*b.entries@[i].1.gen)
}

/// Being registered and being in the key set agree.
pub proof fn lemma_bcontains_bkeys(b: Bindings, id: Seq<char>)
    ensures
        bcontains(b, id) <==> bkeys(b).contains(id),
{
    let ks = bkey_seq(b.entries@);
    crate::deps::lemma_string_keys_contains(ks, id);
    assert forall|i: int| 0 <= i < b.entries@.len()
        implies #[trigger] ks[i] == (#[trigger] b.entries@[i]).0@ by {}
    if bcontains(b, id) {
        let i = choose|i: int| 0 <= i < b.entries@.len() && (#[trigger] b.entries@[i]).0@ == id;
        assert(ks[i] == id);
    }
    if bkeys(b).contains(id) {
        let i = choose|i: int| 0 <= i < ks.len() && ks[i] == id;
        assert(b.entries@[i].0@ == id);
    }
}

/// The registered entry is the one found at any matching index.
pub proof fn lemma_bdef_at(s: Seq<(String, DefGen)>, id: Seq<char>, i: int)
    requires
        forall|a: int, b: int| 0 <= a < b < s.len()
            ==> (#[trigger] s[a]).0@ != (#[trigger] s[b]).0@,
        0 <= i < s.len(),
        s[i].0@ == id,
    ensures
        bdef(s, id) == s[i].1,
    decreases s.len(),
{
    if i < s.len() - 1 {
        assert(s.drop_last()[i] == s[i]);
        lemma_bdef_at(s.drop_last(), id, i);
    }
}

impl Bindings {
    /// An empty registry.
    pub fn new() -> (r: Self)
        ensures
            r.entries@.len() == 0,
            bindings_wf(r),
    {
        Bindings { entries: Vec::new() }
    }

    /// How many identifiers are registered.
    pub fn len(&self) -> (r: usize)
        ensures
            r == self.entries@.len(),
    {
        self.entries.len()
    }

    /// The index of an identifier's entry, if it is registered.
    fn find(&self, id: &str) -> (r: Option<usize>)
        ensures
            r matches Some(i) ==> i < self.entries@.len() && self.entries@[i as int].0@ == id@,
            r is None ==> !bcontains(*self, id@),
    {
        let key: String = id.to_owned();
        let n = self.entries.len();
        let mut i: usize = 0;
        while i < n
            invariant
                n == self.entries@.len(),
                i <= n,
                key@ == id@,
                forall|j: int| 0 <= j < i ==> (#[trigger] self.entries@[j]).0@ != id@,
            decreases n - i,
        {
            if self.entries[i].0.eq(&key) {
                return Some(i);
            }
            i = i + 1;
        }
        None
    }

    /// Looks up the generator bound to an identifier; fails exactly when
    /// the identifier is not registered.
    pub fn get(&self, id: &str) -> (r: Result<Rc<GeneratorEnum>, EvaluationError>)
        requires
            bindings_wf(*self),
        ensures
            r matches Ok(rc) ==> bcontains(*self, id@)
                && rc == bdef(self.entries@, id@).gen
                && gen_wf(*rc),
            r matches Err(e) ==> e matches EvaluationError::UnboundIdentifier(name)
                && name@ == id@
                && !bcontains(*self, id@),
    {
        match self.find(id) {
            Some(i) => {
                proof {
                    lemma_bdef_at(self.entries@, id@, i as int);
                }
                Ok(self.entries[i].1.gen.clone())
            },
            None => Err(EvaluationError::UnboundIdentifier(id.to_owned())),
        }
    }

    /// The registered entry, with its dependency list, for an identifier;
    /// fails exactly when the identifier is not registered.
    pub fn get_def(&self, id: &str) -> (r: Result<&DefGen, EvaluationError>)
        requires
            bindings_wf(*self),
        ensures
            r matches Ok(d) ==> bcontains(*self, id@) && *d == bdef(self.entries@, id@),
            r matches Err(e) ==> e matches EvaluationError::UnboundIdentifier(name)
                && name@ == id@
                && !bcontains(*self, id@),
    {
        match self.find(id) {
            Some(i) => {
                proof {
                    lemma_bdef_at(self.entries@, id@, i as int);
                }
                Ok(&self.entries[i].1)
            },
            None => Err(EvaluationError::UnboundIdentifier(id.to_owned())),
        }
    }

    /// Registers a generator under an identifier; fails exactly when the
    /// identifier is already taken, leaving the registry unchanged.
    pub fn add(&mut self, id: String, gen: GeneratorEnum)
        -> (r: Result<Rc<GeneratorEnum>, EvaluationError>)
        requires
            bindings_wf(*old(self)),
            gen_wf(gen),
        ensures
            bindings_wf(*final(self)),
            r matches Ok(rc) ==> {
                &&& !bcontains(*old(self), id@)
                &&& final(self).entries@.len() == old(self).entries@.len() + 1
                &&& final(self).entries@.drop_last() == old(self).entries@
                &&& final(self).entries@.last().0@ == id@
                &&& final(self).entries@.last().1.gen == rc
                &&& *rc == gen
                &&& bcontains(*final(self), id@)
            },
            r matches Err(e) ==> e matches EvaluationError::DuplicateIdentifier(name)
                && name@ == id@
                && bcontains(*old(self), id@)
                && *final(self) == *old(self),
    {
        match self.find(id.as_str()) {
            Some(_) => Err(EvaluationError::DuplicateIdentifier(id)),
            None => {
                let deps = collect_deps(&gen);
                let rc = Rc::new(gen);
                let entry = DefGen { gen: rc.clone(), deps };
                self.entries.push((id, entry));
                proof {
                    assert(self.entries@.drop_last() =~= old(self).entries@);
                    assert forall|i: int, j: int| 0 <= i < j < self.entries@.len()
                        implies (#[trigger] self.entries@[i]).0@ != (#[trigger] self.entries@[j]).0@ by {
                        if j == self.entries@.len() - 1 {
                            assert(self.entries@[i] == old(self).entries@[i]);
                        }
                    }
                }
                Ok(rc)
            },
        }
    }

    /// Unites another registry into this one; fails exactly when the two
    /// share an identifier, leaving this registry unchanged.
    pub fn merge(&mut self, other: Bindings) -> (r: Result<(), EvaluationError>)
        requires
            bindings_wf(*old(self)),
            bindings_wf(other),
        ensures
            bindings_wf(*final(self)),
            r is Ok ==> {
                &&& final(self).entries@ == old(self).entries@ + other.entries@
                &&& forall|k: Seq<char>| !(bcontains(*old(self), k) && bcontains(other, k))
            },
            r matches Err(e) ==> e is DuplicateIdentifier
                && *final(self) == *old(self)
                && exists|k: Seq<char>| bcontains(*old(self), k) && bcontains(other, k),
    {
        let n = other.entries.len();
        let mut i: usize = 0;
        while i < n
            invariant
                n == other.entries@.len(),
                i <= n,
                bindings_wf(*self),
                bindings_wf(other),
                *self == *old(self),
                forall|j: int| 0 <= j < i
                    ==> !bcontains(*old(self), (#[trigger] other.entries@[j]).0@),
            decreases n - i,
        {
            match self.find(other.entries[i].0.as_str()) {
                Some(j) => {
                    proof {
                        assert(self.entries@[j as int].0@ == other.entries@[i as int].0@);
                        assert(bcontains(*old(self), other.entries@[i as int].0@));
                        assert(bcontains(other, other.entries@[i as int].0@));
                    }
                    return Err(EvaluationError::DuplicateIdentifier(
                        other.entries[i].0.clone(),
                    ));
                },
                None => {},
            }
            i = i + 1;
        }
        let ghost old_entries = self.entries@;
        let mut rest = other;
        let mut i: usize = 0;
        while i < n
            invariant
                n == other.entries@.len(),
                n == rest.entries@.len() + i,
                i <= n,
                self.entries@ =~= old_entries + other.entries@.take(i as int),
                rest.entries@ =~= other.entries@.subrange(i as int, n as int),
                bindings_wf(*self),
                bindings_wf(other),
                old_entries == old(self).entries@,
                forall|j: int| 0 <= j < n
                    ==> !bcontains(*old(self), (#[trigger] other.entries@[j]).0@),
            decreases n - i,
        {
            let (key, entry) = rest.entries.remove(0);
            proof {
                assert((key, entry) == other.entries@[i as int]);
            }
            let ghost before = self.entries@;
            proof {
                assert(forall|a: int, b: int| 0 <= a < b < before.len()
                    ==> (#[trigger] before[a]).0@ != (#[trigger] before[b]).0@);
            }
            self.entries.push((key, entry));
            proof {
                assert(self.entries@ =~= old_entries + other.entries@.take(i + 1));
                assert forall|a: int, b: int| 0 <= a < b < self.entries@.len()
                    implies (#[trigger] self.entries@[a]).0@ != (#[trigger] self.entries@[b]).0@ by {
                    assert(self.entries@ == before.push(other.entries@[i as int]));
                    if b == self.entries@.len() - 1 {
                        assert(self.entries@[b] == other.entries@[i as int]);
                        if a < old_entries.len() {
                            assert(self.entries@[a] == before[a]);
                            assert(before[a] == old_entries[a]);
                            assert(old_entries[a] == old(self).entries@[a]);
                            if self.entries@[a].0@ == self.entries@[b].0@ {
                                assert(bcontains(*old(self), other.entries@[i as int].0@));
                            }
                        } else {
                            let oa = a - old_entries.len();
                            assert(self.entries@[a] == before[a]);
                            assert(before[a] == other.entries@.take(i as int)[oa]);
                            assert(other.entries@.take(i as int)[oa] == other.entries@[oa]);
                            assert(0 <= oa < i as int);
                        }
                    } else {
                        assert(self.entries@[a] == before[a]);
                        assert(self.entries@[b] == before[b]);
                    }
                }
            }
            i = i + 1;
        }
        proof {
            assert(other.entries@.take(n as int) =~= other.entries@);
            assert forall|k: Seq<char>| !(bcontains(*old(self), k) && bcontains(other, k)) by {
                if bcontains(other, k) {
                    let j = choose|j: int| 0 <= j < other.entries@.len()
                        && (#[trigger] other.entries@[j]).0@ == k;
                }
            }
        }
        Ok(())
    }
}

} // verus!
