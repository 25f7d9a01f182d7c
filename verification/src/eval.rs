//! The small-step evaluator: a store of heap-allocated values with
//! qualifier-sensitive lookup (linear entries are consumed on read), fresh
//! names minted from a counter, variable-for-variable substitution, and a
//! one-step reduction function proved against its spec-level description.
use vstd::prelude::*;

use crate::assoc::assoc_map;
use crate::assoc::lemma_assoc_map_absent;
use crate::assoc::lemma_assoc_map_index;
use crate::assoc::lemma_assoc_map_push;
use crate::assoc::lemma_assoc_map_remove;
use crate::assoc::unique_keys;
use crate::digits::dec_str;
use crate::error::Error;
use crate::strutil::str_eq;
use crate::syntax::Context;
use crate::syntax::Qualifier;
use crate::syntax::Term;
use crate::syntax::TermCtx;
use crate::syntax::TermCtxV;
use crate::syntax::TermV;
use crate::syntax::context_str;
use crate::syntax::term_view;

verus! {

/// The spec-level model of the store: its bindings as a map from names to
/// term models, and the counter the fresh names are minted from.
pub struct StoreV {
    pub bindings: Map<Seq<char>, TermCtxV>,
    pub counter: u128,
}

/// The evaluator's store: heap cells for values, keyed by minted names,
/// with a monotonically increasing counter for minting.
#[derive(Debug)]
pub struct Store {
    pub bindings: Vec<(String, TermCtx)>,
    pub counter: u128,
}

impl Store {
    pub open spec fn entry_seq(&self) -> Seq<(Seq<char>, TermCtxV)> {
        self.bindings@.map_values(|p: (String, TermCtx)| (p.0@, p.1@))
    }

    /// Every name occurs at most once.
    pub open spec fn wf(&self) -> bool {
        unique_keys(self.entry_seq())
    }
}

impl View for Store {
    type V = StoreV;

    open spec fn view(&self) -> StoreV {
        StoreV { bindings: assoc_map(self.entry_seq()), counter: self.counter }
    }
}

/// Whether a term is a value: a literal, an abstraction, or a compound
/// whose two components are both variables (the boxed-pair form).
pub open spec fn is_value_spec(t: TermCtxV) -> bool {
    match t.term {
        TermV::Boolean(..) => true,
        TermV::Integer(..) => true,
        TermV::Abstraction(..) => true,
        TermV::Compound(_, t1, t2) => (*t1).term is Variable && (*t2).term is Variable,
        _ => false,
    }
}

/// The qualifier of a value-introducing node.
pub open spec fn get_qualifier_spec(t: TermCtxV) -> Option<Qualifier> {
    match t.term {
        TermV::Boolean(q, _) => Some(q),
        TermV::Integer(q, _) => Some(q),
        TermV::Abstraction(q, _, _, _) => Some(q),
        TermV::Compound(q, _, _) => Some(q),
        _ => None,
    }
}

/// Each variant of a term's model is the variant of the term.
pub proof fn lemma_term_view_variant(t: Term)
    ensures
        (term_view(t) is Variable) == (t is Variable),
        (term_view(t) is Boolean) == (t is Boolean),
        (term_view(t) is Integer) == (t is Integer),
        (term_view(t) is Compound) == (t is Compound),
        (term_view(t) is Arith1) == (t is Arith1),
        (term_view(t) is Arith2) == (t is Arith2),
        (term_view(t) is Abstraction) == (t is Abstraction),
        (term_view(t) is Application) == (t is Application),
        (term_view(t) is Conditional) == (t is Conditional),
        (term_view(t) is Fix) == (t is Fix),
        (term_view(t) is Let) == (t is Let),
        (term_view(t) is Letc) == (t is Letc),
{
    match t {
        Term::Variable(..) => {}
        Term::Boolean(..) => {}
        Term::Integer(..) => {}
        Term::Compound(..) => {}
        Term::Arith1(..) => {}
        Term::Arith2(..) => {}
        Term::Abstraction(..) => {}
        Term::Application(..) => {}
        Term::Conditional(..) => {}
        Term::Fix(..) => {}
        Term::Let(..) => {}
        Term::Letc(..) => {}
    }
}

/// Whether a term is a value, in the sense of `is_value_spec`.
pub fn is_value(term: &TermCtx) -> (r: bool)
    ensures
        r == is_value_spec(term@),
{
    proof {
        lemma_term_view_variant(term.1);
    }
    let TermCtx(_, t) = term;
    match t {
        Term::Boolean(..) => true,
        Term::Integer(..) => true,
        Term::Abstraction(..) => true,
        Term::Compound(_, t1, t2) => {
            let v1 = match &(**t1).1 {
                Term::Variable(_) => true,
                _ => false,
            };
            let v2 = match &(**t2).1 {
                Term::Variable(_) => true,
                _ => false,
            };
            proof {
                lemma_term_view_variant((**t1).1);
                lemma_term_view_variant((**t2).1);
            }
            v1 && v2
        }
        _ => false,
    }
}

/// The qualifier of a value-introducing node, `None` on any other node.
pub fn get_qualifier(term: &TermCtx) -> (r: Option<Qualifier>)
    ensures
        r == get_qualifier_spec(term@),
{
    let TermCtx(_, t) = term;
    match t {
        Term::Boolean(q, _) => Some(*q),
        Term::Integer(q, _) => Some(*q),
        Term::Abstraction(q, _, _, _) => Some(*q),
        Term::Compound(q, _, _) => Some(*q),
        Term::Variable(_) => None,
        Term::Arith1(..) => None,
        Term::Arith2(..) => None,
        Term::Application(..) => None,
        Term::Conditional(..) => None,
        Term::Fix(..) => None,
        Term::Let(..) => None,
        Term::Letc(..) => None,
    }
}

/// What a qualifier-sensitive store lookup yields: the read value together
/// with the store after the read, which has lost the entry exactly when the
/// stored value is linear.
pub open spec fn extract_spec(s: StoreV, x: Seq<char>) -> Option<(StoreV, TermCtxV)> {
    if s.bindings.contains_key(x) {
        let v = s.bindings[x];
        if get_qualifier_spec(v) == Some(Qualifier::Linear) {
            Some((StoreV { bindings: s.bindings.remove(x), counter: s.counter }, v))
        } else {
            Some((s, v))
        }
    } else {
        None
    }
}

/// The name minted for counter value `c` under the given prefix.
pub open spec fn fresh_name(prefix: Seq<char>, c: u128) -> Seq<char> {
    prefix + dec_str(c as nat)
}

impl Store {
    /// A store with no bindings and the counter at zero.
    pub fn new_empty() -> (r: Store)
        ensures
            r.wf(),
            r@.bindings == Map::<Seq<char>, TermCtxV>::empty(),
            r@.counter == 0,
    {
        let r = Store { bindings: Vec::new(), counter: 0 };
        proof {
            assert(r.entry_seq() =~= Seq::<(Seq<char>, TermCtxV)>::empty());
        }
        r
    }

    fn find_index(&self, name: &str) -> (r: Option<usize>)
        ensures
            match r {
                Some(i) => i < self.bindings@.len() && self.bindings@[i as int].0@ == name@,
                None => forall|i: int|
                    0 <= i < self.bindings@.len() ==> self.bindings@[i].0@ != name@,
            },
    {
        let n = self.bindings.len();
        let mut i: usize = 0;
        while i < n
            invariant
                n == self.bindings@.len(),
                i <= n,
                forall|j: int| 0 <= j < i ==> self.bindings@[j].0@ != name@,
            decreases n - i,
        {
            if str_eq(self.bindings[i].0.as_str(), name) {
                return Some(i);
            }
            i += 1;
        }
        None
    }

    /// Binds a name, replacing any earlier binding of the same name.
    fn insert_binding(&mut self, name: String, value: TermCtx)
        requires
            old(self).wf(),
        ensures
            final(self).wf(),
            final(self)@.bindings == old(self)@.bindings.insert(name@, value@),
            final(self).counter == old(self).counter,
    {
        let ghost pre = *self;
        match self.find_index(name.as_str()) {
            Some(i) => {
                proof {
                    lemma_assoc_map_remove(self.entry_seq(), i as int);
                }
                self.bindings.remove(i);
                proof {
                    assert(self.entry_seq() =~= pre.entry_seq().remove(i as int));
                    lemma_assoc_map_push(self.entry_seq(), name@, value@);
                }
                let ghost mid = *self;
                self.bindings.push((name, value));
                proof {
                    assert(self.entry_seq() =~= mid.entry_seq().push((name@, value@)));
                    assert(final(self)@.bindings =~= old(self)@.bindings.insert(name@, value@));
                }
            }
            None => {
                proof {
                    lemma_assoc_map_push(self.entry_seq(), name@, value@);
                }
                let ghost mid = *self;
                self.bindings.push((name, value));
                proof {
                    assert(self.entry_seq() =~= mid.entry_seq().push((name@, value@)));
                }
            }
        }
    }

    /// Stores one value; values are the only terms `push` accepts.
    fn push(&mut self, name: String, value: TermCtx)
        requires
            old(self).wf(),
            get_qualifier_spec(value@) is Some,
        ensures
            final(self).wf(),
            final(self)@.bindings == old(self)@.bindings.insert(name@, value@),
            final(self).counter == old(self).counter,
    {
        self.insert_binding(name, value)
    }

    /// Qualifier-sensitive lookup: a linear value is removed as it is read,
    /// an unrestricted one is copied and left in place.
    fn extract(&mut self, name: &str) -> (r: Option<TermCtx>)
        requires
            old(self).wf(),
        ensures
            final(self).wf(),
            final(self).counter == old(self).counter,
            match extract_spec(old(self)@, name@) {
                Some(p) => r matches Some(t) && t@ == p.1 && final(self)@ == p.0,
                None => r is None && final(self)@ == old(self)@,
            },
    {
        let ghost pre = *self;
        match self.find_index(name) {
            None => {
                proof {
                    lemma_assoc_map_absent(self.entry_seq(), name@);
                }
                None
            }
            Some(i) => {
                proof {
                    lemma_assoc_map_index(self.entry_seq(), i as int);
                }
                let is_linear = match get_qualifier(&self.bindings[i].1) {
                    Some(Qualifier::Linear) => true,
                    _ => false,
                };
                if is_linear {
                    proof {
                        lemma_assoc_map_remove(self.entry_seq(), i as int);
                    }
                    let (_, v) = self.bindings.remove(i);
                    proof {
                        assert(self.entry_seq() =~= pre.entry_seq().remove(i as int));
                    }
                    Some(v)
                } else {
                    Some(self.bindings[i].1.clone())
                }
            }
        }
    }

    /// Mints a fresh name: the prefix followed by the incremented counter.
    fn fresh_variable(&mut self, prefix: &str) -> (r: String)
        requires
            old(self).wf(),
            old(self).counter < u128::MAX,
        ensures
            final(self).wf(),
            final(self).bindings == old(self).bindings,
            final(self).counter == old(self).counter + 1,
            r@ == fresh_name(prefix@, (old(self).counter + 1) as u128),
    {
        self.counter = self.counter + 1;
        let mut s = prefix.to_owned();
        let digits = crate::digits::u128_to_string(self.counter);
        s.append(digits.as_str());
        s
    }
}

/// Replaces every free occurrence of the variable `x` with the variable
/// `y`; binders for the same name stop the recursion under them.
pub open spec fn subst_var_spec(t: TermCtxV, x: Seq<char>, y: Seq<char>) -> TermCtxV
    decreases t,
{
    let term = match t.term {
        TermV::Variable(z) => if z == x {
            TermV::Variable(y)
        } else {
            TermV::Variable(z)
        },
        TermV::Boolean(q, v) => TermV::Boolean(q, v),
        TermV::Integer(q, v) => TermV::Integer(q, v),
        TermV::Compound(q, t1, t2) => TermV::Compound(
            q,
            Box::new(subst_var_spec(*t1, x, y)),
            Box::new(subst_var_spec(*t2, x, y)),
        ),
        TermV::Arith1(q, op, t1) => TermV::Arith1(q, op, Box::new(subst_var_spec(*t1, x, y))),
        TermV::Arith2(q, op, t1, t2) => TermV::Arith2(
            q,
            op,
            Box::new(subst_var_spec(*t1, x, y)),
            Box::new(subst_var_spec(*t2, x, y)),
        ),
        TermV::Abstraction(q, z, ty, t1) => TermV::Abstraction(
            q,
            z,
            ty,
            if z == x {
                t1
            } else {
                Box::new(subst_var_spec(*t1, x, y))
            },
        ),
        TermV::Application(t1, t2) => TermV::Application(
            Box::new(subst_var_spec(*t1, x, y)),
            Box::new(subst_var_spec(*t2, x, y)),
        ),
        TermV::Conditional(t1, t2, t3) => TermV::Conditional(
            Box::new(subst_var_spec(*t1, x, y)),
            Box::new(subst_var_spec(*t2, x, y)),
            Box::new(subst_var_spec(*t3, x, y)),
        ),
        TermV::Fix(t1) => TermV::Fix(Box::new(subst_var_spec(*t1, x, y))),
        TermV::Let(z, t1, t2) => TermV::Let(
            z,
            Box::new(subst_var_spec(*t1, x, y)),
            if z == x {
                t2
            } else {
                Box::new(subst_var_spec(*t2, x, y))
            },
        ),
        TermV::Letc(z1, z2, t1, t2) => TermV::Letc(
            z1,
            z2,
            Box::new(subst_var_spec(*t1, x, y)),
            if z1 == x || z2 == x {
                t2
            } else {
                Box::new(subst_var_spec(*t2, x, y))
            },
        ),
    };
    TermCtxV { ctx: t.ctx, term }
}

/// Fresh-variable substitution: replaces every free occurrence of the
/// variable name `x` in the term with the variable name `x2`.
pub fn subst_var(term_ctx: Box<TermCtx>, x: &str, x2: &str) -> (r: Box<TermCtx>)
    ensures
        (*r)@ == subst_var_spec((*term_ctx)@, x@, x2@),
    decreases *term_ctx,
{
    let TermCtx(ctx, term) = *term_ctx;
    let term = match term {
        Term::Variable(z) => {
            if str_eq(z.as_str(), x) {
                Term::Variable(x2.to_owned())
            } else {
                Term::Variable(z)
            }
        }
        Term::Boolean(q, v) => Term::Boolean(q, v),
        Term::Integer(q, v) => Term::Integer(q, v),
        Term::Compound(q, t1, t2) => Term::Compound(
            q,
            subst_var(t1, x, x2),
            subst_var(t2, x, x2),
        ),
        Term::Arith1(q, op, t1) => Term::Arith1(q, op, subst_var(t1, x, x2)),
        Term::Arith2(q, op, t1, t2) => Term::Arith2(
            q,
            op,
            subst_var(t1, x, x2),
            subst_var(t2, x, x2),
        ),
        Term::Abstraction(q, z, ty, t1) => {
            let shadowed = str_eq(z.as_str(), x);
            Term::Abstraction(
                q,
                z,
                ty,
                if shadowed {
                    t1
                } else {
                    subst_var(t1, x, x2)
                },
            )
        }
        Term::Application(t1, t2) => Term::Application(
            subst_var(t1, x, x2),
            subst_var(t2, x, x2),
        ),
        Term::Conditional(t1, t2, t3) => Term::Conditional(
            subst_var(t1, x, x2),
            subst_var(t2, x, x2),
            subst_var(t3, x, x2),
        ),
        Term::Fix(t1) => Term::Fix(subst_var(t1, x, x2)),
        Term::Let(z, t1, t2) => {
            let shadowed = str_eq(z.as_str(), x);
            Term::Let(
                z,
                subst_var(t1, x, x2),
                if shadowed {
                    t2
                } else {
                    subst_var(t2, x, x2)
                },
            )
        }
        Term::Letc(z1, z2, t1, t2) => {
            let shadowed = str_eq(z1.as_str(), x) || str_eq(z2.as_str(), x);
            Term::Letc(
                z1,
                z2,
                subst_var(t1, x, x2),
                if shadowed {
                    t2
                } else {
                    subst_var(t2, x, x2)
                },
            )
        }
    };
    Box::new(TermCtx(ctx, term))
}

} // verus!

verus! {

/// The reasons a reduction step can fail at run time.
pub enum EvalErrKind {
    VariableNotFound,
    ExpectBooleanCond,
    ExpectAbstraction,
    ExpectCompoundValue,
    ExpectIntegerOperand,
    UnknownTerm,
}

/// A spec-level evaluation failure: the span of the offending subterm and
/// its reason.
pub struct EvalFail {
    pub span: Context,
    pub kind: EvalErrKind,
}

/// The message reported for each failure.
pub open spec fn eval_err_message(k: EvalErrKind) -> Seq<char> {
    match k {
        EvalErrKind::VariableNotFound => "variable not found"@,
        EvalErrKind::ExpectBooleanCond => "conditional term must be boolean"@,
        EvalErrKind::ExpectAbstraction => "expect abstraction"@,
        EvalErrKind::ExpectCompoundValue => "expect compound value"@,
        EvalErrKind::ExpectIntegerOperand => "expect integer operand"@,
        EvalErrKind::UnknownTerm => "unknown term"@,
    }
}

/// Whether the reported error is the spec-level failure: an evaluation
/// error whose message and rendered span are the failure's.
pub open spec fn eval_err_matches(e: Error, f: EvalFail) -> bool {
    e matches Error::EvaluateError { message, source } && message@ == eval_err_message(f.kind)
        && source@ == context_str(f.span)
}

/// One reduction step on a non-value term under the given store: the rules
/// of the small-step semantics, applied top-down, first match fires.
pub open spec fn step_spec(s: StoreV, t: TermCtxV) -> Result<
    (StoreV, TermCtxV),
    (EvalFail, StoreV),
>
    decreases t,
{
    let span = t.ctx;
    match t.term {
        TermV::Variable(x) => match extract_spec(s, x) {
            Some(p) => Ok((p.0, TermCtxV { ctx: span, term: p.1.term })),
            None => Err((EvalFail { span, kind: EvalErrKind::VariableNotFound }, s)),
        },
        TermV::Boolean(..) => alloc_spec(s, t),
        TermV::Integer(..) => alloc_spec(s, t),
        TermV::Abstraction(..) => alloc_spec(s, t),
        TermV::Compound(q, t1, t2) => {
            if (*t1).term is Variable && (*t2).term is Variable {
                alloc_spec(s, t)
            } else if (*t1).term is Variable {
                match step_spec(s, *t2) {
                    Ok(p) => Ok(
                        (
                            p.0,
                            TermCtxV {
                                ctx: span,
                                term: TermV::Compound(q, t1, Box::new(p.1)),
                            },
                        ),
                    ),
                    Err(f) => Err(f),
                }
            } else {
                match step_spec(s, *t1) {
                    Ok(p) => Ok(
                        (
                            p.0,
                            TermCtxV {
                                ctx: span,
                                term: TermV::Compound(q, Box::new(p.1), t2),
                            },
                        ),
                    ),
                    Err(f) => Err(f),
                }
            }
        }
        TermV::Conditional(t1, t2, t3) => {
            if (*t1).term is Variable {
                let x = (*t1).term->Variable_0;
                match extract_spec(s, x) {
                    Some(p) => match p.1.term {
                        TermV::Boolean(_, b) => Ok((p.0, if b { *t2 } else { *t3 })),
                        TermV::Fix(_) => Ok(
                            (
                                p.0,
                                TermCtxV {
                                    ctx: span,
                                    term: TermV::Conditional(Box::new(p.1), t2, t3),
                                },
                            ),
                        ),
                        _ => Err((EvalFail { span, kind: EvalErrKind::ExpectBooleanCond }, p.0)),
                    },
                    None => Err((EvalFail { span, kind: EvalErrKind::VariableNotFound }, s)),
                }
            } else {
                match step_spec(s, *t1) {
                    Ok(p) => Ok(
                        (
                            p.0,
                            TermCtxV {
                                ctx: span,
                                term: TermV::Conditional(Box::new(p.1), t2, t3),
                            },
                        ),
                    ),
                    Err(f) => Err(f),
                }
            }
        }
        TermV::Application(t1, t2) => {
            if (*t1).term is Variable && (*t2).term is Variable {
                let x1 = (*t1).term->Variable_0;
                let x2 = (*t2).term->Variable_0;
                match extract_spec(s, x1) {
                    Some(p) => match p.1.term {
                        TermV::Abstraction(_, x, _, body) => Ok(
                            (p.0, subst_var_spec(*body, x, x2)),
                        ),
                        TermV::Fix(_) => Ok(
                            (
                                p.0,
                                TermCtxV {
                                    ctx: span,
                                    term: TermV::Application(Box::new(p.1), t2),
                                },
                            ),
                        ),
                        _ => Err((EvalFail { span, kind: EvalErrKind::ExpectAbstraction }, p.0)),
                    },
                    None => Err((EvalFail { span, kind: EvalErrKind::VariableNotFound }, s)),
                }
            } else if (*t1).term is Variable {
                match step_spec(s, *t2) {
                    Ok(p) => Ok(
                        (
                            p.0,
                            TermCtxV { ctx: span, term: TermV::Application(t1, Box::new(p.1)) },
                        ),
                    ),
                    Err(f) => Err(f),
                }
            } else {
                match step_spec(s, *t1) {
                    Ok(p) => Ok(
                        (
                            p.0,
                            TermCtxV { ctx: span, term: TermV::Application(Box::new(p.1), t2) },
                        ),
                    ),
                    Err(f) => Err(f),
                }
            }
        }
        TermV::Let(x, t1, t2) => {
            if (*t1).term is Variable {
                let y = (*t1).term->Variable_0;
                Ok((s, subst_var_spec(*t2, x, y)))
            } else {
                match step_spec(s, *t1) {
                    Ok(p) => Ok(
                        (
                            p.0,
                            TermCtxV { ctx: span, term: TermV::Let(x, Box::new(p.1), t2) },
                        ),
                    ),
                    Err(f) => Err(f),
                }
            }
        }
        TermV::Letc(x1, x2, t1, t2) => {
            if (*t1).term is Variable {
                let x = (*t1).term->Variable_0;
                match extract_spec(s, x) {
                    Some(p) => match p.1.term {
                        TermV::Compound(_, a, b) => {
                            if (*a).term is Variable && (*b).term is Variable {
                                let y1 = (*a).term->Variable_0;
                                let y2 = (*b).term->Variable_0;
                                Ok(
                                    (
                                        p.0,
                                        subst_var_spec(subst_var_spec(*t2, x1, y1), x2, y2),
                                    ),
                                )
                            } else {
                                Err(
                                    (
                                        EvalFail { span, kind: EvalErrKind::ExpectCompoundValue },
                                        p.0,
                                    ),
                                )
                            }
                        }
                        _ => Err(
                            (EvalFail { span, kind: EvalErrKind::ExpectCompoundValue }, p.0),
                        ),
                    },
                    None => Err((EvalFail { span, kind: EvalErrKind::VariableNotFound }, s)),
                }
            } else {
                match step_spec(s, *t1) {
                    Ok(p) => Ok(
                        (
                            p.0,
                            TermCtxV {
                                ctx: span,
                                term: TermV::Letc(x1, x2, Box::new(p.1), t2),
                            },
                        ),
                    ),
                    Err(f) => Err(f),
                }
            }
        }
        TermV::Fix(t1) => {
            if (*t1).term is Abstraction {
                let q = (*t1).term->Abstraction_0;
                let f = (*t1).term->Abstraction_1;
                let ty = (*t1).term->Abstraction_2;
                let body = (*t1).term->Abstraction_3;
                match extract_spec(s, f) {
                    Some(p) => Ok((p.0, *body)),
                    None => {
                        let c1 = (s.counter + 1) as u128;
                        let c2 = (s.counter + 2) as u128;
                        let new_f = fresh_name("%f"@, c1);
                        let body_var = fresh_name("%f"@, c2);
                        let body_ctx = (*body).ctx;
                        let new_body = subst_var_spec(*body, f, new_f);
                        let s1 = StoreV {
                            bindings: s.bindings.insert(body_var, new_body),
                            counter: c2,
                        };
                        let new_body_ref = TermCtxV {
                            ctx: body_ctx,
                            term: TermV::Variable(body_var),
                        };
                        let fix_term = TermCtxV {
                            ctx: span,
                            term: TermV::Fix(
                                Box::new(
                                    TermCtxV {
                                        ctx: (*t1).ctx,
                                        term: TermV::Abstraction(
                                            q,
                                            new_f,
                                            ty,
                                            Box::new(new_body_ref),
                                        ),
                                    },
                                ),
                            ),
                        };
                        let s2 = StoreV {
                            bindings: s1.bindings.insert(new_f, fix_term),
                            counter: c2,
                        };
                        Ok((s2, new_body_ref))
                    }
                }
            } else {
                match step_spec(s, *t1) {
                    Ok(p) => Ok(
                        (p.0, TermCtxV { ctx: span, term: TermV::Fix(Box::new(p.1)) }),
                    ),
                    Err(f) => Err(f),
                }
            }
        }
        TermV::Arith1(q, op, t1) => match op {
            crate::syntax::ArithOp::IsZero => {
                if (*t1).term is Variable {
                    let x = (*t1).term->Variable_0;
                    match extract_spec(s, x) {
                        Some(p) => match p.1.term {
                            TermV::Integer(_, n) => Ok(
                                (
                                    p.0,
                                    TermCtxV { ctx: span, term: TermV::Boolean(q, n == 0) },
                                ),
                            ),
                            _ => Err(
                                (EvalFail { span, kind: EvalErrKind::ExpectIntegerOperand }, p.0),
                            ),
                        },
                        None => Err((EvalFail { span, kind: EvalErrKind::VariableNotFound }, s)),
                    }
                } else {
                    match step_spec(s, *t1) {
                        Ok(p) => Ok(
                            (
                                p.0,
                                TermCtxV { ctx: span, term: TermV::Arith1(q, op, Box::new(p.1)) },
                            ),
                        ),
                        Err(f) => Err(f),
                    }
                }
            }
            _ => Err((EvalFail { span, kind: EvalErrKind::UnknownTerm }, s)),
        },
        TermV::Arith2(q, op, t1, t2) => match op {
            crate::syntax::ArithOp::Diff => {
                if (*t1).term is Variable && (*t2).term is Variable {
                    let x1 = (*t1).term->Variable_0;
                    let x2 = (*t2).term->Variable_0;
                    match extract_spec(s, x1) {
                        Some(p1) => match p1.1.term {
                            TermV::Integer(_, n1) => match extract_spec(p1.0, x2) {
                                Some(p2) => match p2.1.term {
                                    TermV::Integer(_, n2) => Ok(
                                        (
                                            p2.0,
                                            TermCtxV {
                                                ctx: span,
                                                term: TermV::Integer(
                                                    q,
                                                    vstd::wrapping::i64_specs::wrapping_sub(
                                                        n1,
                                                        n2,
                                                    ),
                                                ),
                                            },
                                        ),
                                    ),
                                    _ => Err(
                                        (
                                            EvalFail {
                                                span,
                                                kind: EvalErrKind::ExpectIntegerOperand,
                                            },
                                            p2.0,
                                        ),
                                    ),
                                },
                                None => Err(
                                    (
                                        EvalFail { span, kind: EvalErrKind::VariableNotFound },
                                        p1.0,
                                    ),
                                ),
                            },
                            _ => Err(
                                (EvalFail { span, kind: EvalErrKind::ExpectIntegerOperand }, p1.0),
                            ),
                        },
                        None => Err((EvalFail { span, kind: EvalErrKind::VariableNotFound }, s)),
                    }
                } else if (*t1).term is Variable {
                    match step_spec(s, *t2) {
                        Ok(p) => Ok(
                            (
                                p.0,
                                TermCtxV {
                                    ctx: span,
                                    term: TermV::Arith2(q, op, t1, Box::new(p.1)),
                                },
                            ),
                        ),
                        Err(f) => Err(f),
                    }
                } else {
                    match step_spec(s, *t1) {
                        Ok(p) => Ok(
                            (
                                p.0,
                                TermCtxV {
                                    ctx: span,
                                    term: TermV::Arith2(q, op, Box::new(p.1), t2),
                                },
                            ),
                        ),
                        Err(f) => Err(f),
                    }
                }
            }
            _ => Err((EvalFail { span, kind: EvalErrKind::UnknownTerm }, s)),
        },
    }
}

/// Heap allocation of a value: mint a fresh `%x` name, store the value
/// under it, and stand a variable in its place.
pub open spec fn alloc_spec(s: StoreV, t: TermCtxV) -> Result<
    (StoreV, TermCtxV),
    (EvalFail, StoreV),
> {
    let c2 = (s.counter + 1) as u128;
    let name = fresh_name("%x"@, c2);
    Ok(
        (
            StoreV { bindings: s.bindings.insert(name, t), counter: c2 },
            TermCtxV { ctx: t.ctx, term: TermV::Variable(name) },
        ),
    )
}

} // verus!

verus! {

fn eval_err(span: Context, msg: &str) -> (e: Error)
    ensures
        e matches Error::EvaluateError { message, source } && message@ == msg@ && source@
            == context_str(span),
{
    Error::EvaluateError { message: msg.to_owned(), source: span.to_string() }
}

/// Performs one reduction step on a term that is not at top level a value,
/// updating the store in place: the executable form of `step_spec`, which
/// its contract holds it to, error for error.
pub fn one_step_eval_aux(store: &mut Store, term_ctx: TermCtx) -> (r: Result<TermCtx, Error>)
    requires
        old(store).wf(),
        old(store).counter <= u128::MAX - 2,
    ensures
        final(store).wf(),
        match step_spec(old(store)@, term_ctx@) {
            Ok(p) => r matches Ok(t) && t@ == p.1 && final(store)@ == p.0,
            Err(f) => r matches Err(e) && eval_err_matches(e, f.0) && final(store)@ == f.1,
        },
    decreases term_ctx, 1int,
{
    match &term_ctx.1 {
        Term::Variable(_) => step_variable(store, term_ctx),
        Term::Boolean(..) => step_alloc(store, term_ctx),
        Term::Integer(..) => step_alloc(store, term_ctx),
        Term::Abstraction(..) => step_alloc(store, term_ctx),
        Term::Compound(..) => step_compound(store, term_ctx),
        Term::Conditional(..) => step_conditional(store, term_ctx),
        Term::Application(..) => step_application(store, term_ctx),
        Term::Let(..) => step_let(store, term_ctx),
        Term::Letc(..) => step_letc(store, term_ctx),
        Term::Fix(..) => step_fix(store, term_ctx),
        Term::Arith1(..) => step_arith1(store, term_ctx),
        Term::Arith2(..) => step_arith2(store, term_ctx),
    }
}

fn step_variable(store: &mut Store, term_ctx: TermCtx) -> (r: Result<TermCtx, Error>)
    requires
        old(store).wf(),
        term_ctx.1 is Variable,
    ensures
        final(store).wf(),
        match step_spec(old(store)@, term_ctx@) {
            Ok(p) => r matches Ok(t) && t@ == p.1 && final(store)@ == p.0,
            Err(f) => r matches Err(e) && eval_err_matches(e, f.0) && final(store)@ == f.1,
        },
    decreases term_ctx, 0int,
{
    let TermCtx(span, term) = term_ctx;
    match term {
        Term::Variable(x) => match store.extract(x.as_str()) {
            None => Err(eval_err(span, "variable not found")),
            Some(v) => {
                let TermCtx(_, vterm) = v;
                Ok(TermCtx(span, vterm))
            }
        },
        _ => vstd::pervasive::unreached(),
    }
}

fn step_alloc(store: &mut Store, term_ctx: TermCtx) -> (r: Result<TermCtx, Error>)
    requires
        old(store).wf(),
        old(store).counter < u128::MAX,
        get_qualifier_spec(term_ctx@) is Some,
        step_spec(old(store)@, term_ctx@) == alloc_spec(old(store)@, term_ctx@),
    ensures
        final(store).wf(),
        match step_spec(old(store)@, term_ctx@) {
            Ok(p) => r matches Ok(t) && t@ == p.1 && final(store)@ == p.0,
            Err(f) => r matches Err(e) && eval_err_matches(e, f.0) && final(store)@ == f.1,
        },
{
    let TermCtx(ctx, term) = term_ctx;
    let var = store.fresh_variable("%x");
    store.push(var.clone(), TermCtx(ctx, term));
    Ok(TermCtx(ctx, Term::Variable(var)))
}

fn step_compound(store: &mut Store, term_ctx: TermCtx) -> (r: Result<TermCtx, Error>)
    requires
        old(store).wf(),
        old(store).counter <= u128::MAX - 2,
        term_ctx.1 is Compound,
    ensures
        final(store).wf(),
        match step_spec(old(store)@, term_ctx@) {
            Ok(p) => r matches Ok(t) && t@ == p.1 && final(store)@ == p.0,
            Err(f) => r matches Err(e) && eval_err_matches(e, f.0) && final(store)@ == f.1,
        },
    decreases term_ctx, 0int,
{
    let TermCtx(span, term) = term_ctx;
    match term {
        Term::Compound(q, t1, t2) => {
            let v1 = match &(*t1).1 {
                Term::Variable(_) => true,
                _ => false,
            };
            let v2 = match &(*t2).1 {
                Term::Variable(_) => true,
                _ => false,
            };
            proof {
                lemma_term_view_variant((*t1).1);
                lemma_term_view_variant((*t2).1);
            }
            if v1 && v2 {
                step_alloc(store, TermCtx(span, Term::Compound(q, t1, t2)))
            } else if v1 {
                match one_step_eval_aux(store, *t2) {
                    Ok(t2b) => Ok(TermCtx(span, Term::Compound(q, t1, Box::new(t2b)))),
                    Err(e) => Err(e),
                }
            } else {
                match one_step_eval_aux(store, *t1) {
                    Ok(t1b) => Ok(TermCtx(span, Term::Compound(q, Box::new(t1b), t2))),
                    Err(e) => Err(e),
                }
            }
        }
        _ => vstd::pervasive::unreached(),
    }
}

fn step_conditional(store: &mut Store, term_ctx: TermCtx) -> (r: Result<TermCtx, Error>)
    requires
        old(store).wf(),
        old(store).counter <= u128::MAX - 2,
        term_ctx.1 is Conditional,
    ensures
        final(store).wf(),
        match step_spec(old(store)@, term_ctx@) {
            Ok(p) => r matches Ok(t) && t@ == p.1 && final(store)@ == p.0,
            Err(f) => r matches Err(e) && eval_err_matches(e, f.0) && final(store)@ == f.1,
        },
    decreases term_ctx, 0int,
{
    let TermCtx(span, term) = term_ctx;
    match term {
        Term::Conditional(t1, t2, t3) => {
            let cond_is_var = match &(*t1).1 {
                Term::Variable(_) => true,
                _ => false,
            };
            proof {
                lemma_term_view_variant((*t1).1);
            }
            if cond_is_var {
                let x: String = match *t1 {
                    TermCtx(_, Term::Variable(x)) => x,
                    _ => vstd::pervasive::unreached(),
                };
                match store.extract(x.as_str()) {
                    None => Err(eval_err(span, "variable not found")),
                    Some(v) => {
                        proof {
                            lemma_term_view_variant(v.1);
                        }
                        match v {
                            TermCtx(_, Term::Boolean(_, b)) => Ok(if b {
                                *t2
                            } else {
                                *t3
                            }),
                            v2 @ TermCtx(_, Term::Fix(..)) => Ok(
                                TermCtx(span, Term::Conditional(Box::new(v2), t2, t3)),
                            ),
                            _ => Err(eval_err(span, "conditional term must be boolean")),
                        }
                    }
                }
            } else {
                match one_step_eval_aux(store, *t1) {
                    Ok(t1b) => Ok(TermCtx(span, Term::Conditional(Box::new(t1b), t2, t3))),
                    Err(e) => Err(e),
                }
            }
        }
        _ => vstd::pervasive::unreached(),
    }
}

fn step_application(store: &mut Store, term_ctx: TermCtx) -> (r: Result<TermCtx, Error>)
    requires
        old(store).wf(),
        old(store).counter <= u128::MAX - 2,
        term_ctx.1 is Application,
    ensures
        final(store).wf(),
        match step_spec(old(store)@, term_ctx@) {
            Ok(p) => r matches Ok(t) && t@ == p.1 && final(store)@ == p.0,
            Err(f) => r matches Err(e) && eval_err_matches(e, f.0) && final(store)@ == f.1,
        },
    decreases term_ctx, 0int,
{
    let TermCtx(span, term) = term_ctx;
    match term {
        Term::Application(t1, t2) => {
            let v1 = match &(*t1).1 {
                Term::Variable(_) => true,
                _ => false,
            };
            let v2 = match &(*t2).1 {
                Term::Variable(_) => true,
                _ => false,
            };
            proof {
                lemma_term_view_variant((*t1).1);
                lemma_term_view_variant((*t2).1);
            }
            if v1 && v2 {
                let x1: String = match &(*t1).1 {
                    Term::Variable(s) => s.clone(),
                    _ => vstd::pervasive::unreached(),
                };
                match store.extract(x1.as_str()) {
                    None => Err(eval_err(span, "variable not found")),
                    Some(v) => {
                        proof {
                            lemma_term_view_variant(v.1);
                        }
                        match v {
                            TermCtx(_, Term::Abstraction(_, x, _, body)) => {
                                let x2: String = match &(*t2).1 {
                                    Term::Variable(s) => s.clone(),
                                    _ => vstd::pervasive::unreached(),
                                };
                                Ok(*subst_var(body, x.as_str(), x2.as_str()))
                            }
                            vf @ TermCtx(_, Term::Fix(..)) => Ok(
                                TermCtx(span, Term::Application(Box::new(vf), t2)),
                            ),
                            _ => Err(eval_err(span, "expect abstraction")),
                        }
                    }
                }
            } else if v1 {
                match one_step_eval_aux(store, *t2) {
                    Ok(t2b) => Ok(TermCtx(span, Term::Application(t1, Box::new(t2b)))),
                    Err(e) => Err(e),
                }
            } else {
                match one_step_eval_aux(store, *t1) {
                    Ok(t1b) => Ok(TermCtx(span, Term::Application(Box::new(t1b), t2))),
                    Err(e) => Err(e),
                }
            }
        }
        _ => vstd::pervasive::unreached(),
    }
}

fn step_let(store: &mut Store, term_ctx: TermCtx) -> (r: Result<TermCtx, Error>)
    requires
        old(store).wf(),
        old(store).counter <= u128::MAX - 2,
        term_ctx.1 is Let,
    ensures
        final(store).wf(),
        match step_spec(old(store)@, term_ctx@) {
            Ok(p) => r matches Ok(t) && t@ == p.1 && final(store)@ == p.0,
            Err(f) => r matches Err(e) && eval_err_matches(e, f.0) && final(store)@ == f.1,
        },
    decreases term_ctx, 0int,
{
    let TermCtx(span, term) = term_ctx;
    match term {
        Term::Let(x, t1, t2) => {
            let v1 = match &(*t1).1 {
                Term::Variable(_) => true,
                _ => false,
            };
            proof {
                lemma_term_view_variant((*t1).1);
            }
            if v1 {
                let y: String = match *t1 {
                    TermCtx(_, Term::Variable(y)) => y,
                    _ => vstd::pervasive::unreached(),
                };
                Ok(*subst_var(t2, x.as_str(), y.as_str()))
            } else {
                match one_step_eval_aux(store, *t1) {
                    Ok(t1b) => Ok(TermCtx(span, Term::Let(x, Box::new(t1b), t2))),
                    Err(e) => Err(e),
                }
            }
        }
        _ => vstd::pervasive::unreached(),
    }
}

fn step_letc(store: &mut Store, term_ctx: TermCtx) -> (r: Result<TermCtx, Error>)
    requires
        old(store).wf(),
        old(store).counter <= u128::MAX - 2,
        term_ctx.1 is Letc,
    ensures
        final(store).wf(),
        match step_spec(old(store)@, term_ctx@) {
            Ok(p) => r matches Ok(t) && t@ == p.1 && final(store)@ == p.0,
            Err(f) => r matches Err(e) && eval_err_matches(e, f.0) && final(store)@ == f.1,
        },
    decreases term_ctx, 0int,
{
    let TermCtx(span, term) = term_ctx;
    match term {
        Term::Letc(x1, x2, t1, t2) => {
            let v1 = match &(*t1).1 {
                Term::Variable(_) => true,
                _ => false,
            };
            proof {
                lemma_term_view_variant((*t1).1);
            }
            if v1 {
                let x: String = match *t1 {
                    TermCtx(_, Term::Variable(x)) => x,
                    _ => vstd::pervasive::unreached(),
                };
                match store.extract(x.as_str()) {
                    None => Err(eval_err(span, "variable not found")),
                    Some(v) => {
                        proof {
                            lemma_term_view_variant(v.1);
                        }
                        match v {
                            TermCtx(_, Term::Compound(_, a, b)) => {
                                let av = match &(*a).1 {
                                    Term::Variable(_) => true,
                                    _ => false,
                                };
                                let bv = match &(*b).1 {
                                    Term::Variable(_) => true,
                                    _ => false,
                                };
                                proof {
                                    lemma_term_view_variant((*a).1);
                                    lemma_term_view_variant((*b).1);
                                }
                                if av && bv {
                                    let y1: String = match *a {
                                        TermCtx(_, Term::Variable(y)) => y,
                                        _ => vstd::pervasive::unreached(),
                                    };
                                    let y2: String = match *b {
                                        TermCtx(_, Term::Variable(y)) => y,
                                        _ => vstd::pervasive::unreached(),
                                    };
                                    let inner = subst_var(t2, x1.as_str(), y1.as_str());
                                    Ok(*subst_var(inner, x2.as_str(), y2.as_str()))
                                } else {
                                    Err(eval_err(span, "expect compound value"))
                                }
                            }
                            _ => Err(eval_err(span, "expect compound value")),
                        }
                    }
                }
            } else {
                match one_step_eval_aux(store, *t1) {
                    Ok(t1b) => Ok(TermCtx(span, Term::Letc(x1, x2, Box::new(t1b), t2))),
                    Err(e) => Err(e),
                }
            }
        }
        _ => vstd::pervasive::unreached(),
    }
}

#[verifier::rlimit(100)]
#[verifier::spinoff_prover]
fn step_fix(store: &mut Store, term_ctx: TermCtx) -> (r: Result<TermCtx, Error>)
    requires
        old(store).wf(),
        old(store).counter <= u128::MAX - 2,
        term_ctx.1 is Fix,
    ensures
        final(store).wf(),
        match step_spec(old(store)@, term_ctx@) {
            Ok(p) => r matches Ok(t) && t@ == p.1 && final(store)@ == p.0,
            Err(f) => r matches Err(e) && eval_err_matches(e, f.0) && final(store)@ == f.1,
        },
    decreases term_ctx, 0int,
{
    proof {
        reveal_with_fuel(term_view, 3);
        reveal_with_fuel(crate::syntax::term_ctx_view, 3);
    }
    let TermCtx(span, term) = term_ctx;
    match term {
        Term::Fix(t) => {
            let inner_is_abs = match &(*t).1 {
                Term::Abstraction(..) => true,
                _ => false,
            };
            proof {
                lemma_term_view_variant((*t).1);
            }
            if inner_is_abs {
                let (ctx1, q, f, ty, body) = match *t {
                    TermCtx(c, Term::Abstraction(q, f, ty, body)) => (c, q, f, ty, body),
                    _ => vstd::pervasive::unreached(),
                };
                match store.extract(f.as_str()) {
                    Some(_) => Ok(*body),
                    None => {
                        let new_f = store.fresh_variable("%f");
                        let body_var = store.fresh_variable("%f");
                        let body_ctx = (*body).0;
                        let new_body = subst_var(body, f.as_str(), new_f.as_str());
                        store.insert_binding(body_var.clone(), *new_body);
                        let new_body_ref = TermCtx(body_ctx, Term::Variable(body_var));
                        let fix_term = TermCtx(
                            span,
                            Term::Fix(
                                Box::new(
                                    TermCtx(
                                        ctx1,
                                        Term::Abstraction(
                                            q,
                                            new_f.clone(),
                                            ty,
                                            Box::new(new_body_ref.clone()),
                                        ),
                                    ),
                                ),
                            ),
                        );
                        store.insert_binding(new_f, fix_term);
                        Ok(new_body_ref)
                    }
                }
            } else {
                match one_step_eval_aux(store, *t) {
                    Ok(tb) => Ok(TermCtx(span, Term::Fix(Box::new(tb)))),
                    Err(e) => Err(e),
                }
            }
        }
        _ => vstd::pervasive::unreached(),
    }
}

fn step_arith1(store: &mut Store, term_ctx: TermCtx) -> (r: Result<TermCtx, Error>)
    requires
        old(store).wf(),
        old(store).counter <= u128::MAX - 2,
        term_ctx.1 is Arith1,
    ensures
        final(store).wf(),
        match step_spec(old(store)@, term_ctx@) {
            Ok(p) => r matches Ok(t) && t@ == p.1 && final(store)@ == p.0,
            Err(f) => r matches Err(e) && eval_err_matches(e, f.0) && final(store)@ == f.1,
        },
    decreases term_ctx, 0int,
{
    proof {
        reveal_with_fuel(term_view, 3);
        reveal_with_fuel(crate::syntax::term_ctx_view, 3);
    }
    let TermCtx(span, term) = term_ctx;
    match term {
        Term::Arith1(q, op, t1) => match op {
            crate::syntax::ArithOp::IsZero => {
                let v1 = match &(*t1).1 {
                    Term::Variable(_) => true,
                    _ => false,
                };
                proof {
                    lemma_term_view_variant((*t1).1);
                }
                if v1 {
                    let x: String = match *t1 {
                        TermCtx(_, Term::Variable(x)) => x,
                        _ => vstd::pervasive::unreached(),
                    };
                    match store.extract(x.as_str()) {
                        None => Err(eval_err(span, "variable not found")),
                        Some(v) => {
                            proof {
                                lemma_term_view_variant(v.1);
                            }
                            match v {
                                TermCtx(_, Term::Integer(_, n)) => Ok(
                                    TermCtx(span, Term::Boolean(q, n == 0)),
                                ),
                                _ => Err(eval_err(span, "expect integer operand")),
                            }
                        }
                    }
                } else {
                    match one_step_eval_aux(store, *t1) {
                        Ok(t1b) => Ok(TermCtx(span, Term::Arith1(q, op, Box::new(t1b)))),
                        Err(e) => Err(e),
                    }
                }
            }
            _ => Err(eval_err(span, "unknown term")),
        },
        _ => vstd::pervasive::unreached(),
    }
}

fn step_arith2(store: &mut Store, term_ctx: TermCtx) -> (r: Result<TermCtx, Error>)
    requires
        old(store).wf(),
        old(store).counter <= u128::MAX - 2,
        term_ctx.1 is Arith2,
    ensures
        final(store).wf(),
        match step_spec(old(store)@, term_ctx@) {
            Ok(p) => r matches Ok(t) && t@ == p.1 && final(store)@ == p.0,
            Err(f) => r matches Err(e) && eval_err_matches(e, f.0) && final(store)@ == f.1,
        },
    decreases term_ctx, 0int,
{
    proof {
        reveal_with_fuel(term_view, 3);
        reveal_with_fuel(crate::syntax::term_ctx_view, 3);
    }
    let TermCtx(span, term) = term_ctx;
    match term {
        Term::Arith2(q, op, t1, t2) => match op {
            crate::syntax::ArithOp::Diff => {
                let v1 = match &(*t1).1 {
                    Term::Variable(_) => true,
                    _ => false,
                };
                let v2 = match &(*t2).1 {
                    Term::Variable(_) => true,
                    _ => false,
                };
                proof {
                    lemma_term_view_variant((*t1).1);
                    lemma_term_view_variant((*t2).1);
                }
                if v1 && v2 {
                    let x1: String = match &(*t1).1 {
                        Term::Variable(s) => s.clone(),
                        _ => vstd::pervasive::unreached(),
                    };
                    let x2: String = match &(*t2).1 {
                        Term::Variable(s) => s.clone(),
                        _ => vstd::pervasive::unreached(),
                    };
                    let n1: i64 = match store.extract(x1.as_str()) {
                        None => {
                            return Err(eval_err(span, "variable not found"));
                        }
                        Some(v) => {
                            proof {
                                lemma_term_view_variant(v.1);
                            }
                            match v {
                                TermCtx(_, Term::Integer(_, n)) => n,
                                _ => {
                                    return Err(eval_err(span, "expect integer operand"));
                                }
                            }
                        }
                    };
                    let n2: i64 = match store.extract(x2.as_str()) {
                        None => {
                            return Err(eval_err(span, "variable not found"));
                        }
                        Some(v) => {
                            proof {
                                lemma_term_view_variant(v.1);
                            }
                            match v {
                                TermCtx(_, Term::Integer(_, n)) => n,
                                _ => {
                                    return Err(eval_err(span, "expect integer operand"));
                                }
                            }
                        }
                    };
                    Ok(TermCtx(span, Term::Integer(q, n1.wrapping_sub(n2))))
                } else if v1 {
                    match one_step_eval_aux(store, *t2) {
                        Ok(t2b) => Ok(TermCtx(span, Term::Arith2(q, op, t1, Box::new(t2b)))),
                        Err(e) => Err(e),
                    }
                } else {
                    match one_step_eval_aux(store, *t1) {
                        Ok(t1b) => Ok(TermCtx(span, Term::Arith2(q, op, Box::new(t1b), t2))),
                        Err(e) => Err(e),
                    }
                }
            }
            _ => Err(eval_err(span, "unknown term")),
        },
        _ => vstd::pervasive::unreached(),
    }
}

} // verus!

verus! {

/// An evaluator configuration: the store and the term under reduction.
#[derive(Debug)]
pub struct TermEval {
    pub store: Store,
    pub term: TermCtx,
}

impl vstd::std_specs::convert::FromSpecImpl<TermCtx> for TermEval {
    open spec fn obeys_from_spec() -> bool {
        false
    }

    open spec fn from_spec(v: TermCtx) -> TermEval {
        vstd::pervasive::arbitrary()
    }
}

impl From<TermCtx> for TermEval {
    /// A configuration that starts the term against an empty store.
    fn from(term: TermCtx) -> (r: TermEval)
        ensures
            r.store.wf(),
            r.store@.bindings == Map::<Seq<char>, TermCtxV>::empty(),
            r.store@.counter == 0,
            r.term@ == term@,
    {
        TermEval { store: Store::new_empty(), term }
    }
}

/// What one call of the evaluator yields: the configuration unchanged when
/// the term is already a value, else one reduction step.
pub open spec fn one_step_spec(s: StoreV, t: TermCtxV) -> Result<
    (StoreV, TermCtxV),
    (EvalFail, StoreV),
> {
    if is_value_spec(t) {
        Ok((s, t))
    } else {
        step_spec(s, t)
    }
}

/// Performs one reduction step on a configuration and returns the new one;
/// a configuration whose term is already a value is returned unchanged.
pub fn one_step_eval(term_eval: TermEval) -> (r: Result<TermEval, Error>)
    requires
        term_eval.store.wf(),
        term_eval.store.counter <= u128::MAX - 2,
    ensures
        match one_step_spec(term_eval.store@, term_eval.term@) {
            Ok(p) => r matches Ok(te) && te.term@ == p.1 && te.store@ == p.0 && te.store.wf(),
            Err(f) => r matches Err(e) && eval_err_matches(e, f.0),
        },
{
    let TermEval { mut store, term } = term_eval;
    if is_value(&term) {
        Ok(TermEval { store, term })
    } else {
        match one_step_eval_aux(&mut store, term) {
            Ok(term) => Ok(TermEval { store, term }),
            Err(e) => Err(e),
        }
    }
}

} // verus!
