//! Progress for the first reduction step: a term the checker accepts
//! steps without a runtime error when evaluation starts, that is, against
//! the empty store. Later configurations hold evaluator-minted cells that
//! the checker's judgement says nothing about, so the step function is
//! specified there by what it returns for every store instead.
use vstd::prelude::*;

use crate::eval::alloc_spec;
use crate::eval::extract_spec;
use crate::eval::step_spec;
use crate::eval::StoreV;
use crate::syntax::Context;
use crate::syntax::TermCtxV;
use crate::syntax::TermV;
use crate::syntax::Type;
use crate::typing::check_spec;

verus! {

/// Progress from the start of evaluation: a term that type-checks under
/// the empty context reduces one step against the empty store without
/// raising. A value allocates itself a cell; anything else fires exactly
/// one rule; no rule can miss the store, because a term the checker
/// accepted under the empty context has no free variable to look up.
pub proof fn lemma_progress_from_empty(t: TermCtxV, s: StoreV, m: Seq<(Context, Type)>)
    requires
        check_spec(t, Map::<Seq<char>, Type>::empty(), m) is Ok,
        s.bindings == Map::<Seq<char>, TermCtxV>::empty(),
    ensures
        step_spec(s, t) is Ok,
    decreases t,
{
    let ctx0 = Map::<Seq<char>, Type>::empty();
    match t.term {
        TermV::Variable(x) => {
            assert(!ctx0.contains_key(x));
            assert(false);
        }
        TermV::Boolean(..) => {}
        TermV::Integer(..) => {}
        TermV::Abstraction(..) => {}
        TermV::Compound(q, t1, t2) => {
            if (*t1).term is Variable && (*t2).term is Variable {
                assert(step_spec(s, t) == alloc_spec(s, t));
            } else if (*t1).term is Variable {
                let x = (*t1).term->Variable_0;
                assert(check_spec(*t1, ctx0, m) is Err);
                assert(false);
            } else {
                lemma_progress_from_empty(*t1, s, m);
            }
        }
        TermV::Conditional(t1, t2, t3) => {
            if (*t1).term is Variable {
                assert(check_spec(*t1, ctx0, m) is Err);
                assert(false);
            } else {
                lemma_progress_from_empty(*t1, s, m);
            }
        }
        TermV::Application(t1, t2) => {
            if (*t1).term is Variable {
                assert(check_spec(*t1, ctx0, m) is Err);
                assert(false);
            } else {
                lemma_progress_from_empty(*t1, s, m);
            }
        }
        TermV::Let(x, t1, t2) => {
            if (*t1).term is Variable {
            } else {
                lemma_progress_from_empty(*t1, s, m);
            }
        }
        TermV::Letc(x1, x2, t1, t2) => {
            if x1 == x2 {
                assert(false);
            } else if (*t1).term is Variable {
                assert(check_spec(*t1, ctx0, m) is Err);
                assert(false);
            } else {
                lemma_progress_from_empty(*t1, s, m);
            }
        }
        TermV::Fix(t1) => {
            if (*t1).term is Abstraction {
                let f = (*t1).term->Abstraction_1;
                assert(extract_spec(s, f) is None);
            } else {
                lemma_progress_from_empty(*t1, s, m);
            }
        }
        TermV::Arith1(q, op, t1) => {
            if op is IsZero {
                if (*t1).term is Variable {
                    assert(check_spec(*t1, ctx0, m) is Err);
                    assert(false);
                } else {
                    lemma_progress_from_empty(*t1, s, m);
                }
            } else {
                assert(false);
            }
        }
        TermV::Arith2(q, op, t1, t2) => {
            if op is Diff {
                if (*t1).term is Variable {
                    assert(check_spec(*t1, ctx0, m) is Err);
                    assert(false);
                } else {
                    lemma_progress_from_empty(*t1, s, m);
                }
            } else {
                assert(false);
            }
        }
    }
}

} // verus!
