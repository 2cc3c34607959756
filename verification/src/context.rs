//! The public face of row evaluation: a per-row evaluation context.

use vstd::prelude::*;
use std::rc::Rc;

use crate::bindings::{bcontains, bdef, bindings_wf, Bindings};
use crate::engine::{gen_total, gen_wf, GeneratorEnum};
use crate::errors::EvaluationError;
use crate::eval::{
    eval_frame, eval_inv, gen_may_yield, generate_value_inner, lookup_value, pcontains,
    primitive_result_ok, scontains, sval, Scope,
};
use crate::values::OutValue;

verus! {

/// One row's evaluation state: the read-only registry, the row's
/// write-once value cache, and the identifiers currently being
/// evaluated.
#[derive(Debug)]
pub struct Context {
    pub bindings: Bindings,
    pub scope: Scope,
    pub pending: Vec<String>,
}

/// Whether a context is fit for evaluation.
pub open spec fn ctx_wf(c: Context) -> bool {
    eval_inv(c.bindings, c.scope, c.pending@)
}

impl Context {
    /// A fresh evaluation scope over a registry; one is made per
    /// generated row.
    pub fn from_bindings(bindings: Bindings) -> (r: Context)
        requires
            bindings_wf(bindings),
        ensures
            ctx_wf(r),
            r.bindings == bindings,
            r.scope.entries@.len() == 0,
            r.pending@.len() == 0,
    {
        Context { bindings, scope: Scope::new(), pending: Vec::new() }
    }

    /// Takes the registry back out of a finished row's context.
    pub fn into_bindings(self) -> (r: Bindings)
        ensures
            r == self.bindings,
    {
        self.bindings
    }

    /// The identifier's value for this row: the cached value if the
    /// identifier was already generated, else one fresh run of its
    /// registered generator, whose value is cached under the identifier
    /// so that every later read of this row sees the identical value.
    /// Values are write-once: a cached identifier is returned unchanged,
    /// never regenerated, and a failed generation caches nothing.
    pub fn get_value(&mut self, id: &str) -> (r: Result<Rc<OutValue>, EvaluationError>)
        requires
            ctx_wf(*old(self)),
        ensures
            ctx_wf(*final(self)),
            final(self).bindings == old(self).bindings,
            final(self).pending@ == old(self).pending@,
            eval_frame(
                old(self).bindings, old(self).scope, old(self).pending@,
                final(self).scope, final(self).pending@,
            ),
            r matches Ok(v) ==> scontains(final(self).scope, id@)
                && sval(final(self).scope.entries@, id@) == *v,
            scontains(old(self).scope, id@) ==> (r matches Ok(v)
                && (*v == sval(old(self).scope.entries@, id@)
                    && final(self).scope == old(self).scope)),
            !scontains(old(self).scope, id@) ==> (r matches Ok(v)
                ==> gen_may_yield(
                    *bdef(old(self).bindings.entries@, id@).gen, final(self).scope, *v,
                )),
            r is Err ==> !scontains(final(self).scope, id@),
            !scontains(old(self).scope, id@) && !bcontains(old(self).bindings, id@)
                ==> (r matches Err(e)
                    && (e matches EvaluationError::UnboundIdentifier(n) && n@ == id@)),
            !scontains(old(self).scope, id@) && bcontains(old(self).bindings, id@)
                && pcontains(old(self).pending@, id@)
                ==> (r matches Err(e) && e is CyclicReference),
            !scontains(old(self).scope, id@) && bcontains(old(self).bindings, id@)
                && !pcontains(old(self).pending@, id@)
                && gen_total(*bdef(old(self).bindings.entries@, id@).gen) ==> r is Ok,
    {
        let Context { bindings, scope, pending } = self;
        lookup_value(bindings, scope, pending, id)
    }
}

impl GeneratorEnum {
    /// Runs this generator once against a row's context: a success is a
    /// value the generator can produce for the row's (possibly newly
    /// populated) cache, and a generator that reads no identifiers and
    /// holds no decision tree cannot fail.
    pub fn generate_value(&self, ctxt: &mut Context) -> (r: Result<OutValue, EvaluationError>)
        requires
            gen_wf(*self),
            ctx_wf(*old(ctxt)),
        ensures
            ctx_wf(*final(ctxt)),
            final(ctxt).bindings == old(ctxt).bindings,
            final(ctxt).pending@ == old(ctxt).pending@,
            eval_frame(
                old(ctxt).bindings, old(ctxt).scope, old(ctxt).pending@,
                final(ctxt).scope, final(ctxt).pending@,
            ),
            primitive_result_ok(*self, r),
            r matches Ok(v) ==> gen_may_yield(*self, final(ctxt).scope, v),
            gen_total(*self) ==> r is Ok,
            (*self) matches GeneratorEnum::Identifier(idg)
                ==> (scontains(old(ctxt).scope, idg.0@)
                    ==> (r matches Ok(v) && v == sval(old(ctxt).scope.entries@, idg.0@))),
            (*self) matches GeneratorEnum::Identifier(idg)
                ==> (!scontains(old(ctxt).scope, idg.0@)
                    && !bcontains(old(ctxt).bindings, idg.0@)
                    ==> (r matches Err(e)
                        && (e matches EvaluationError::UnboundIdentifier(n)
                            && n@ == idg.0@))),
    {
        let Context { bindings, scope, pending } = ctxt;
        generate_value_inner(self, bindings, scope, pending)
    }
}

} // verus!
