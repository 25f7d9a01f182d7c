//! The term algebra: terms and types, each term node annotated with a source
//! span, together with the spec-level model of a term used by contracts.
use vstd::prelude::*;

use crate::digits::dec_str;

pub use crate::parser::parse_program;

verus! {

/// A half-open source interval `[start, end)`, measured in characters of the
/// source text. Spans are stamped onto every term node by the parser and are
/// the keys under which the type checker reports per-node types.
#[derive(Clone, Copy, Debug, PartialEq, Eq, Hash, Structural)]
pub struct Context {
    pub start: usize,
    pub end: usize,
}

/// The qualifier carried by every value and every type: `Nop` marks an
/// unrestricted value (copied and dropped freely), `Linear` a linear one
/// (used exactly once).
#[derive(Clone, Copy, Debug, PartialEq, Eq, Structural)]
pub enum Qualifier {
    Nop,
    Linear,
}

/// The primitive arithmetic operations.
#[derive(Clone, Copy, Debug, PartialEq, Eq, Structural)]
pub enum ArithOp {
    Diff,
    IsZero,
}

/// The shape of a type, ignoring its qualifier.
#[derive(Debug)]
pub enum Pretype {
    Boolean,
    Integer,
    Function(Box<Type>, Box<Type>),
    Compound(Box<Type>, Box<Type>),
}

/// A type: a qualifier paired with a pretype. Two types are equal exactly
/// when the qualifiers match and the pretypes match recursively.
#[derive(Debug)]
pub struct Type(pub Qualifier, pub Pretype);

/// A term of the language.
#[derive(Debug)]
pub enum Term {
    Variable(String),
    Boolean(Qualifier, bool),
    Integer(Qualifier, i64),
    Compound(Qualifier, Box<TermCtx>, Box<TermCtx>),
    Arith1(Qualifier, ArithOp, Box<TermCtx>),
    Arith2(Qualifier, ArithOp, Box<TermCtx>, Box<TermCtx>),
    Abstraction(Qualifier, String, Option<Box<Type>>, Box<TermCtx>),
    Application(Box<TermCtx>, Box<TermCtx>),
    Conditional(Box<TermCtx>, Box<TermCtx>, Box<TermCtx>),
    Fix(Box<TermCtx>),
    Let(String, Box<TermCtx>, Box<TermCtx>),
    Letc(String, String, Box<TermCtx>, Box<TermCtx>),
}

/// A term together with its source span.
#[derive(Debug)]
pub struct TermCtx(pub Context, pub Term);

/// The spec-level model of a term: names are character sequences.
pub enum TermV {
    Variable(Seq<char>),
    Boolean(Qualifier, bool),
    Integer(Qualifier, i64),
    Compound(Qualifier, Box<TermCtxV>, Box<TermCtxV>),
    Arith1(Qualifier, ArithOp, Box<TermCtxV>),
    Arith2(Qualifier, ArithOp, Box<TermCtxV>, Box<TermCtxV>),
    Abstraction(Qualifier, Seq<char>, Option<Type>, Box<TermCtxV>),
    Application(Box<TermCtxV>, Box<TermCtxV>),
    Conditional(Box<TermCtxV>, Box<TermCtxV>, Box<TermCtxV>),
    Fix(Box<TermCtxV>),
    Let(Seq<char>, Box<TermCtxV>, Box<TermCtxV>),
    Letc(Seq<char>, Seq<char>, Box<TermCtxV>, Box<TermCtxV>),
}

/// The spec-level model of a span-annotated term.
pub struct TermCtxV {
    pub ctx: Context,
    pub term: TermV,
}

pub open spec fn term_view(t: Term) -> TermV
    decreases t,
{
    match t {
        Term::Variable(x) => TermV::Variable(x@),
        Term::Boolean(q, v) => TermV::Boolean(q, v),
        Term::Integer(q, v) => TermV::Integer(q, v),
        Term::Compound(q, t1, t2) => TermV::Compound(
            q,
            Box::new(term_ctx_view(*t1)),
            Box::new(term_ctx_view(*t2)),
        ),
        Term::Arith1(q, op, t1) => TermV::Arith1(q, op, Box::new(term_ctx_view(*t1))),
        Term::Arith2(q, op, t1, t2) => TermV::Arith2(
            q,
            op,
            Box::new(term_ctx_view(*t1)),
            Box::new(term_ctx_view(*t2)),
        ),
        Term::Abstraction(q, x, ty, t1) => TermV::Abstraction(
            q,
            x@,
            match ty {
                Some(b) => Some(*b),
                None => None,
            },
            Box::new(term_ctx_view(*t1)),
        ),
        Term::Application(t1, t2) => TermV::Application(
            Box::new(term_ctx_view(*t1)),
            Box::new(term_ctx_view(*t2)),
        ),
        Term::Conditional(t1, t2, t3) => TermV::Conditional(
            Box::new(term_ctx_view(*t1)),
            Box::new(term_ctx_view(*t2)),
            Box::new(term_ctx_view(*t3)),
        ),
        Term::Fix(t1) => TermV::Fix(Box::new(term_ctx_view(*t1))),
        Term::Let(x, t1, t2) => TermV::Let(
            x@,
            Box::new(term_ctx_view(*t1)),
            Box::new(term_ctx_view(*t2)),
        ),
        Term::Letc(x1, x2, t1, t2) => TermV::Letc(
            x1@,
            x2@,
            Box::new(term_ctx_view(*t1)),
            Box::new(term_ctx_view(*t2)),
        ),
    }
}

pub open spec fn term_ctx_view(t: TermCtx) -> TermCtxV
    decreases t,
{
    TermCtxV { ctx: t.0, term: term_view(t.1) }
}

impl View for Term {
    type V = TermV;

    open spec fn view(&self) -> TermV {
        term_view(*self)
    }
}

impl View for TermCtx {
    type V = TermCtxV;

    open spec fn view(&self) -> TermCtxV {
        term_ctx_view(*self)
    }
}

impl Clone for Type {
    fn clone(&self) -> (r: Self)
        ensures
            r == *self,
    {
        clone_type(self)
    }
}

fn clone_pretype(p: &Pretype) -> (r: Pretype)
    ensures
        r == *p,
    decreases *p,
{
    match p {
        Pretype::Boolean => Pretype::Boolean,
        Pretype::Integer => Pretype::Integer,
        Pretype::Function(a, b) => Pretype::Function(
            Box::new(clone_type(a)),
            Box::new(clone_type(b)),
        ),
        Pretype::Compound(a, b) => Pretype::Compound(
            Box::new(clone_type(a)),
            Box::new(clone_type(b)),
        ),
    }
}

fn clone_type(t: &Type) -> (r: Type)
    ensures
        r == *t,
    decreases *t,
{
    let Type(q, p) = t;
    Type(*q, clone_pretype(p))
}

impl Clone for TermCtx {
    fn clone(&self) -> (r: Self)
        ensures
            r == *self,
    {
        clone_term_ctx(self)
    }
}

impl Clone for Term {
    fn clone(&self) -> (r: Self)
        ensures
            r == *self,
    {
        clone_term(self)
    }
}

fn clone_term(t: &Term) -> (r: Term)
    ensures
        r == *t,
    decreases *t,
{
    match t {
        Term::Variable(x) => Term::Variable(x.clone()),
        Term::Boolean(q, v) => Term::Boolean(*q, *v),
        Term::Integer(q, v) => Term::Integer(*q, *v),
        Term::Compound(q, t1, t2) => Term::Compound(
            *q,
            Box::new(clone_term_ctx(t1)),
            Box::new(clone_term_ctx(t2)),
        ),
        Term::Arith1(q, op, t1) => Term::Arith1(*q, *op, Box::new(clone_term_ctx(t1))),
        Term::Arith2(q, op, t1, t2) => Term::Arith2(
            *q,
            *op,
            Box::new(clone_term_ctx(t1)),
            Box::new(clone_term_ctx(t2)),
        ),
        Term::Abstraction(q, x, ty, t1) => Term::Abstraction(
            *q,
            x.clone(),
            match ty {
                Some(b) => Some(Box::new(clone_type(b))),
                None => None,
            },
            Box::new(clone_term_ctx(t1)),
        ),
        Term::Application(t1, t2) => Term::Application(
            Box::new(clone_term_ctx(t1)),
            Box::new(clone_term_ctx(t2)),
        ),
        Term::Conditional(t1, t2, t3) => Term::Conditional(
            Box::new(clone_term_ctx(t1)),
            Box::new(clone_term_ctx(t2)),
            Box::new(clone_term_ctx(t3)),
        ),
        Term::Fix(t1) => Term::Fix(Box::new(clone_term_ctx(t1))),
        Term::Let(x, t1, t2) => Term::Let(
            x.clone(),
            Box::new(clone_term_ctx(t1)),
            Box::new(clone_term_ctx(t2)),
        ),
        Term::Letc(x1, x2, t1, t2) => Term::Letc(
            x1.clone(),
            x2.clone(),
            Box::new(clone_term_ctx(t1)),
            Box::new(clone_term_ctx(t2)),
        ),
    }
}

fn clone_term_ctx(t: &TermCtx) -> (r: TermCtx)
    ensures
        r == *t,
    decreases *t,
{
    let TermCtx(ctx, term) = t;
    TermCtx(*ctx, clone_term(term))
}

/// Structural equality of two types: qualifiers and pretypes must match
/// recursively.
pub fn type_eq(a: &Type, b: &Type) -> (r: bool)
    ensures
        r == (*a == *b),
    decreases *a,
{
    let Type(q1, p1) = a;
    let Type(q2, p2) = b;
    *q1 == *q2 && pretype_eq(p1, p2)
}

/// Structural equality of two pretypes.
pub fn pretype_eq(a: &Pretype, b: &Pretype) -> (r: bool)
    ensures
        r == (*a == *b),
    decreases *a,
{
    match (a, b) {
        (Pretype::Boolean, Pretype::Boolean) => true,
        (Pretype::Integer, Pretype::Integer) => true,
        (Pretype::Function(a1, b1), Pretype::Function(a2, b2)) => {
            type_eq(a1, a2) && type_eq(b1, b2)
        }
        (Pretype::Compound(a1, b1), Pretype::Compound(a2, b2)) => {
            type_eq(a1, a2) && type_eq(b1, b2)
        }
        _ => false,
    }
}

impl PartialEq for Pretype {
    fn eq(&self, other: &Self) -> (r: bool) {
        pretype_eq(self, other)
    }
}

impl vstd::std_specs::cmp::PartialEqSpecImpl for Pretype {
    open spec fn obeys_eq_spec() -> bool {
        true
    }

    open spec fn eq_spec(&self, other: &Self) -> bool {
        *self == *other
    }
}

impl Eq for Pretype {}

impl PartialEq for Type {
    fn eq(&self, other: &Self) -> (r: bool) {
        type_eq(self, other)
    }
}

impl vstd::std_specs::cmp::PartialEqSpecImpl for Type {
    open spec fn obeys_eq_spec() -> bool {
        true
    }

    open spec fn eq_spec(&self, other: &Self) -> bool {
        *self == *other
    }
}

impl Eq for Type {}

/// The textual rendering of a span: `[start:end]`.
pub open spec fn context_str(c: Context) -> Seq<char> {
    seq!['['] + dec_str(c.start as nat) + seq![':'] + dec_str(c.end as nat) + seq![']']
}

impl Context {
    /// Renders the span as `[start:end]`.
    pub fn to_string(&self) -> (s: String)
        ensures
            s@ == context_str(*self),
    {
        let mut s = String::new();
        crate::strutil::push_char(&mut s, '[');
        let start = crate::digits::usize_to_string(self.start);
        s.append(start.as_str());
        crate::strutil::push_char(&mut s, ':');
        let end = crate::digits::usize_to_string(self.end);
        s.append(end.as_str());
        crate::strutil::push_char(&mut s, ']');
        proof {
            assert(s@ =~= context_str(*self));
        }
        s
    }
}

} // verus!
