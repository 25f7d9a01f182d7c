//! The linear type checker: a typing context that models resource
//! availability (linear entries are removed when consumed), a spec-level
//! description of the whole check, and the executable checker proved to
//! follow it.
use vstd::prelude::*;

use crate::assoc::assoc_map;
use crate::assoc::lemma_assoc_map_absent;
use crate::assoc::lemma_assoc_map_dom;
use crate::assoc::lemma_assoc_map_index;
use crate::assoc::lemma_assoc_map_len;
use crate::assoc::lemma_assoc_map_push;
use crate::assoc::lemma_assoc_map_remove;
use crate::assoc::unique_keys;
use crate::error::Error;
use crate::strutil::str_eq;
use crate::syntax::ArithOp;
use crate::syntax::Context;
use crate::syntax::Pretype;
use crate::syntax::Qualifier;
use crate::syntax::Term;
use crate::syntax::TermCtx;
use crate::syntax::TermCtxV;
use crate::syntax::TermV;
use crate::syntax::Type;
use crate::formatter::write_type_spec;
use crate::syntax::type_eq;

verus! {

/// The typing context: a mapping from in-scope names to their types,
/// updated in place as linear resources are consumed.
#[derive(Debug)]
pub struct TypeContext {
    pub entries: Vec<(String, Type)>,
}

impl TypeContext {
    pub open spec fn entry_seq(&self) -> Seq<(Seq<char>, Type)> {
        self.entries@.map_values(|p: (String, Type)| (p.0@, p.1))
    }

    /// Every name occurs at most once.
    pub open spec fn wf(&self) -> bool {
        unique_keys(self.entry_seq())
    }

    pub fn new() -> (r: TypeContext)
        ensures
            r.wf(),
            r@ == Map::<Seq<char>, Type>::empty(),
    {
        let r = TypeContext { entries: Vec::new() };
        proof {
            assert(r.entry_seq() =~= Seq::<(Seq<char>, Type)>::empty());
        }
        r
    }

    fn find_index(&self, name: &str) -> (r: Option<usize>)
        ensures
            match r {
                Some(i) => i < self.entries@.len() && self.entries@[i as int].0@ == name@,
                None => forall|i: int|
                    0 <= i < self.entries@.len() ==> self.entries@[i].0@ != name@,
            },
    {
        let n = self.entries.len();
        let mut i: usize = 0;
        while i < n
            invariant
                n == self.entries@.len(),
                i <= n,
                forall|j: int| 0 <= j < i ==> self.entries@[j].0@ != name@,
            decreases n - i,
        {
            if str_eq(self.entries[i].0.as_str(), name) {
                return Some(i);
            }
            i += 1;
        }
        None
    }

    /// Looks a name up; the context is unchanged.
    pub fn get(&self, name: &str) -> (r: Option<&Type>)
        requires
            self.wf(),
        ensures
            match r {
                Some(t) => self@.contains_key(name@) && *t == self@[name@],
                None => !self@.contains_key(name@),
            },
    {
        match self.find_index(name) {
            Some(i) => {
                proof {
                    lemma_assoc_map_index(self.entry_seq(), i as int);
                }
                Some(&self.entries[i].1)
            }
            None => {
                proof {
                    lemma_assoc_map_absent(self.entry_seq(), name@);
                }
                None
            }
        }
    }

    /// Whether a name is bound.
    pub fn contains_key(&self, name: &str) -> (r: bool)
        requires
            self.wf(),
        ensures
            r == self@.contains_key(name@),
    {
        match self.get(name) {
            Some(_) => true,
            None => false,
        }
    }

    /// Binds a name, replacing any earlier binding of the same name.
    pub fn insert(&mut self, name: String, ty: Type)
        requires
            old(self).wf(),
        ensures
            final(self).wf(),
            final(self)@ == old(self)@.insert(name@, ty),
    {
        let ghost pre = *self;
        match self.find_index(name.as_str()) {
            Some(i) => {
                proof {
                    lemma_assoc_map_remove(self.entry_seq(), i as int);
                }
                self.entries.remove(i);
                proof {
                    assert(self.entry_seq() =~= pre.entry_seq().remove(i as int));
                    lemma_assoc_map_push(self.entry_seq(), name@, ty);
                }
                let ghost mid = *self;
                self.entries.push((name, ty));
                proof {
                    assert(self.entry_seq() =~= mid.entry_seq().push((name@, ty)));
                    assert(forall|j: int|
                        0 <= j < mid.entry_seq().len() ==> mid.entry_seq()[j].0
                            != name@);
                    assert(final(self)@ =~= old(self)@.insert(name@, ty));
                }
            }
            None => {
                proof {
                    lemma_assoc_map_push(self.entry_seq(), name@, ty);
                }
                let ghost mid = *self;
                self.entries.push((name, ty));
                proof {
                    assert(self.entry_seq() =~= mid.entry_seq().push((name@, ty)));
                }
            }
        }
    }

    /// Unbinds a name; absent names are left alone.
    pub fn remove(&mut self, name: &str)
        requires
            old(self).wf(),
        ensures
            final(self).wf(),
            final(self)@ == old(self)@.remove(name@),
    {
        let ghost pre = *self;
        match self.find_index(name) {
            Some(i) => {
                proof {
                    lemma_assoc_map_remove(self.entry_seq(), i as int);
                }
                self.entries.remove(i);
                proof {
                    assert(self.entry_seq() =~= pre.entry_seq().remove(i as int));
                }
            }
            None => {
                proof {
                    lemma_assoc_map_absent(self.entry_seq(), name@);
                    assert(old(self)@.remove(name@) =~= old(self)@);
                }
            }
        }
    }
}

impl View for TypeContext {
    type V = Map<Seq<char>, Type>;

    open spec fn view(&self) -> Map<Seq<char>, Type> {
        assoc_map(self.entry_seq())
    }
}

impl Clone for TypeContext {
    fn clone(&self) -> (r: Self)
        ensures
            r.entry_seq() == self.entry_seq(),
            r@ == self@,
            r.wf() == self.wf(),
    {
        let n = self.entries.len();
        let mut entries: Vec<(String, Type)> = Vec::new();
        let mut i: usize = 0;
        while i < n
            invariant
                n == self.entries@.len(),
                i <= n,
                entries@.len() == i,
                forall|j: int|
                    0 <= j < i ==> entries@[j].0@ == self.entries@[j].0@ && entries@[j].1
                        == self.entries@[j].1,
            decreases n - i,
        {
            let (k, v) = (self.entries[i].0.clone(), self.entries[i].1.clone());
            entries.push((k, v));
            i += 1;
        }
        let r = TypeContext { entries };
        proof {
            assert(r.entry_seq() =~= self.entry_seq());
        }
        r
    }
}

/// Whether two typing contexts bind exactly the same names to exactly the
/// same types.
pub fn type_ctx_eq(a: &TypeContext, b: &TypeContext) -> (r: bool)
    requires
        a.wf(),
        b.wf(),
    ensures
        r == (a@ == b@),
{
    proof {
        lemma_assoc_map_len(a.entry_seq());
        lemma_assoc_map_len(b.entry_seq());
    }
    if a.entries.len() != b.entries.len() {
        proof {
            assert(a@.dom().len() != b@.dom().len());
        }
        return false;
    }
    let n = a.entries.len();
    let mut i: usize = 0;
    while i < n
        invariant
            a.wf(),
            b.wf(),
            n == a.entries@.len(),
            i <= n,
            a.entries@.len() == b.entries@.len(),
            a@.dom().finite(),
            b@.dom().finite(),
            a@.dom().len() == a.entries@.len(),
            b@.dom().len() == b.entries@.len(),
            forall|j: int|
                0 <= j < i ==> b@.contains_key(#[trigger] a.entry_seq()[j].0) && b@[a.entry_seq()[j].0]
                    == a.entry_seq()[j].1,
        decreases n - i,
    {
        proof {
            lemma_assoc_map_index(a.entry_seq(), i as int);
        }
        let key: &String = &a.entries[i].0;
        match b.get(key.as_str()) {
            Some(t) => {
                if !type_eq(t, &a.entries[i].1) {
                    proof {
                        assert(a@[key@] == a.entry_seq()[i as int].1);
                        assert(a@[key@] != b@[key@]);
                    }
                    return false;
                }
            }
            None => {
                proof {
                    assert(a@.contains_key(key@) && !b@.contains_key(key@));
                }
                return false;
            }
        }
        i += 1;
    }
    proof {
        assert forall|k: Seq<char>| a@.dom().contains(k) implies b@.dom().contains(k) by {
            lemma_assoc_map_dom(a.entry_seq());
            let j = choose|j: int| 0 <= j < a.entry_seq().len() && a.entry_seq()[j].0 == k;
            lemma_assoc_map_index(a.entry_seq(), j);
            assert(b@.contains_key(a.entry_seq()[j].0));
        }
        assert forall|k: Seq<char>| a@.dom().contains(k) implies a@[k] == b@[k] by {
            lemma_assoc_map_dom(a.entry_seq());
            let j = choose|j: int| 0 <= j < a.entry_seq().len() && a.entry_seq()[j].0 == k;
            lemma_assoc_map_index(a.entry_seq(), j);
            assert(b@[a.entry_seq()[j].0] == a.entry_seq()[j].1);
        }
        assert(a@.dom().subset_of(b@.dom()));
        vstd::set_lib::lemma_subset_equality(a@.dom(), b@.dom());
        assert(a@ =~= b@);
    }
    true
}

/// The entries with the given span taken out (at most one exists in a
/// well-formed table).
pub open spec fn table_remove(s: Seq<(Context, Type)>, span: Context) -> Seq<(Context, Type)>
    decreases s.len(),
{
    if s.len() == 0 {
        s
    } else if s.first().0 == span {
        s.drop_first()
    } else {
        seq![s.first()] + table_remove(s.drop_first(), span)
    }
}

/// Recording a span: any earlier entry for it is dropped and the new one
/// appended, as the executable table does.
pub open spec fn table_insert(s: Seq<(Context, Type)>, span: Context, ty: Type) -> Seq<
    (Context, Type),
> {
    table_remove(s, span).push((span, ty))
}

proof fn lemma_table_remove_absent(s: Seq<(Context, Type)>, span: Context)
    requires
        forall|i: int| 0 <= i < s.len() ==> (#[trigger] s[i]).0 != span,
    ensures
        table_remove(s, span) == s,
    decreases s.len(),
{
    if s.len() > 0 {
        assert(s[0].0 != span);
        lemma_table_remove_absent(s.drop_first(), span);
        assert(seq![s.first()] + s.drop_first() =~= s);
    }
}

proof fn lemma_table_remove_at(s: Seq<(Context, Type)>, span: Context, i: int)
    requires
        0 <= i < s.len(),
        s[i].0 == span,
        forall|j: int| 0 <= j < i ==> (#[trigger] s[j]).0 != span,
    ensures
        table_remove(s, span) == s.remove(i),
    decreases i,
{
    if i == 0 {
        assert(table_remove(s, span) =~= s.remove(0));
    } else {
        assert(s[0].0 != span);
        assert(s.drop_first()[i - 1] == s[i]);
        assert(forall|j: int| 0 <= j < i - 1 ==> (#[trigger] s.drop_first()[j]).0 != span);
        lemma_table_remove_at(s.drop_first(), span, i - 1);
        assert(seq![s.first()] + s.drop_first().remove(i - 1) =~= s.remove(i));
    }
}

/// The table of per-span types that a successful check reports.
#[derive(Debug)]
pub struct TypeMap {
    pub entries: Vec<(Context, Type)>,
}

impl TypeMap {
    pub open spec fn entry_seq(&self) -> Seq<(Context, Type)> {
        self.entries@
    }

    /// Every span occurs at most once.
    pub open spec fn wf(&self) -> bool {
        unique_keys(self.entry_seq())
    }

    pub fn new() -> (r: TypeMap)
        ensures
            r.wf(),
            r@ == Map::<Context, Type>::empty(),
            r.entry_seq().len() == 0,
    {
        let r = TypeMap { entries: Vec::new() };
        proof {
            assert(r.entry_seq() =~= Seq::<(Context, Type)>::empty());
        }
        r
    }

    fn find_index(&self, span: Context) -> (r: Option<usize>)
        ensures
            match r {
                Some(i) => i < self.entries@.len() && self.entries@[i as int].0 == span,
                None => forall|i: int| 0 <= i < self.entries@.len() ==> self.entries@[i].0 != span,
            },
    {
        let n = self.entries.len();
        let mut i: usize = 0;
        while i < n
            invariant
                n == self.entries@.len(),
                i <= n,
                forall|j: int| 0 <= j < i ==> self.entries@[j].0 != span,
            decreases n - i,
        {
            if self.entries[i].0.start == span.start && self.entries[i].0.end == span.end {
                return Some(i);
            }
            i += 1;
        }
        None
    }

    /// Records the type of a span, replacing any earlier record for it.
    pub fn insert(&mut self, span: Context, ty: Type)
        requires
            old(self).wf(),
        ensures
            final(self).wf(),
            final(self)@ == old(self)@.insert(span, ty),
            final(self).entry_seq() == table_insert(old(self).entry_seq(), span, ty),
    {
        match self.find_index(span) {
            Some(i) => {
                proof {
                    lemma_assoc_map_remove(self.entry_seq(), i as int);
                    assert(forall|j: int|
                        0 <= j < i ==> (#[trigger] self.entry_seq()[j]).0 != span);
                    lemma_table_remove_at(self.entry_seq(), span, i as int);
                }
                self.entries.remove(i);
                proof {
                    lemma_assoc_map_push(self.entry_seq(), span, ty);
                }
                self.entries.push((span, ty));
                proof {
                    assert(final(self)@ =~= old(self)@.insert(span, ty));
                }
            }
            None => {
                proof {
                    lemma_table_remove_absent(self.entry_seq(), span);
                    lemma_assoc_map_push(self.entry_seq(), span, ty);
                }
                self.entries.push((span, ty));
            }
        }
    }

    /// Looks the recorded type of a span up.
    pub fn get(&self, span: Context) -> (r: Option<&Type>)
        requires
            self.wf(),
        ensures
            match r {
                Some(t) => self@.contains_key(span) && *t == self@[span],
                None => !self@.contains_key(span),
            },
    {
        match self.find_index(span) {
            Some(i) => {
                proof {
                    lemma_assoc_map_index(self.entry_seq(), i as int);
                }
                Some(&self.entries[i].1)
            }
            None => {
                proof {
                    lemma_assoc_map_absent(self.entry_seq(), span);
                }
                None
            }
        }
    }

    /// The number of recorded spans.
    pub fn len(&self) -> (r: usize)
        requires
            self.wf(),
        ensures
            r == self.entry_seq().len(),
            r == self@.dom().len(),
    {
        proof {
            lemma_assoc_map_len(self.entry_seq());
        }
        self.entries.len()
    }

    /// The recorded spans and types, in the order the checker produced them.
    pub fn entry(&self, i: usize) -> (r: (Context, &Type))
        requires
            i < self.entry_seq().len(),
        ensures
            r.0 == self.entry_seq()[i as int].0,
            *r.1 == self.entry_seq()[i as int].1,
    {
        (self.entries[i].0, &self.entries[i].1)
    }
}

impl View for TypeMap {
    type V = Map<Context, Type>;

    open spec fn view(&self) -> Map<Context, Type> {
        assoc_map(self.entry_seq())
    }
}

} // verus!

verus! {

/// The reasons a check can fail, each tied below to one error message.
pub enum ErrKind {
    UnknownTerm,
    UndefinedVariable,
    BranchMismatch,
    ExpectBooleanCond,
    BranchTypeMismatch,
    LinearParamNotConsumed,
    UnrestrictedCapturesLinear,
    ArgumentTypeMismatch,
    ExpectFunction,
    LinearLetNotConsumed,
    FixExpectFunction,
    LinearRecursion,
    UnrestrictedPairCapturesLinear,
    SameIdentifier,
    ExpectCompound,
    ExpectIntegerOperand,
    ExpectIntegerOperands,
}

/// A spec-level check failure: the span it is pinned to and its reason.
pub struct CheckFail {
    pub span: Context,
    pub kind: ErrKind,
}

/// The message reported for each failure.
pub open spec fn err_message(k: ErrKind) -> Seq<char> {
    match k {
        ErrKind::UnknownTerm => "unknown term"@,
        ErrKind::UndefinedVariable => "undefined variable"@,
        ErrKind::BranchMismatch => "variables are consumed differently in different branches"@,
        ErrKind::ExpectBooleanCond => "expect Boolean condition"@,
        ErrKind::BranchTypeMismatch => "different branch types"@,
        ErrKind::LinearParamNotConsumed => "linear variable is not consumed in function body"@,
        ErrKind::UnrestrictedCapturesLinear => "free linear variable referenced in unrestricted closure"@,
        ErrKind::ArgumentTypeMismatch => "argument type mismatch"@,
        ErrKind::ExpectFunction => "expect function type"@,
        ErrKind::LinearLetNotConsumed => "linear variable is not consumed in let body"@,
        ErrKind::FixExpectFunction => "expect recursive function type"@,
        ErrKind::LinearRecursion => "linear term is not allowed for recursion"@,
        ErrKind::UnrestrictedPairCapturesLinear => "free linear variable referenced in unrestricted compound pair"@,
        ErrKind::SameIdentifier => "expect different identifiers"@,
        ErrKind::ExpectCompound => "expect compound type"@,
        ErrKind::ExpectIntegerOperand => "expect Integer operand"@,
        ErrKind::ExpectIntegerOperands => "expect Integer operands"@,
    }
}

/// Whether the reported error is the spec-level failure: a type error whose
/// message and span are the failure's.
pub open spec fn check_err_matches(e: Error, f: CheckFail) -> bool {
    e matches Error::TypeError { message, start, end } && message@ == err_message(f.kind)
        && start == f.span.start && end == f.span.end
}

/// What the checker computes on a term, given the typing context and the
/// span table so far: on success the term's type, the context after
/// consumption, and the extended span table; on failure the span and reason.
pub open spec fn check_spec(
    t: TermCtxV,
    ctx: Map<Seq<char>, Type>,
    tmap: Seq<(Context, Type)>,
) -> Result<
    (Type, Map<Seq<char>, Type>, Seq<(Context, Type)>),
    (CheckFail, Map<Seq<char>, Type>, Seq<(Context, Type)>),
>
    decreases t,
{
    let span = t.ctx;
    match t.term {
        TermV::Variable(x) => {
            if ctx.contains_key(x) {
                let ty = ctx[x];
                let ctx2 = if ty.0 == Qualifier::Linear {
                    ctx.remove(x)
                } else {
                    ctx
                };
                Ok((ty, ctx2, table_insert(tmap, span, ty)))
            } else {
                Err((CheckFail { span, kind: ErrKind::UndefinedVariable }, ctx, tmap))
            }
        }
        TermV::Boolean(q, _) => {
            let ty = Type(q, Pretype::Boolean);
            Ok((ty, ctx, table_insert(tmap, span, ty)))
        }
        TermV::Integer(q, _) => {
            let ty = Type(q, Pretype::Integer);
            Ok((ty, ctx, table_insert(tmap, span, ty)))
        }
        TermV::Conditional(c, th, el) => match check_spec(*c, ctx, tmap) {
            Ok((tc, ctx_c, m_c)) => match check_spec(*th, ctx_c, m_c) {
                Ok((tt, ctx_t, m_t)) => match check_spec(*el, ctx_c, m_t) {
                    Ok((te, ctx_e, m_e)) => {
                        if ctx_t != ctx_e {
                            Err((CheckFail { span, kind: ErrKind::BranchMismatch }, ctx_t, m_e))
                        } else if !(tc.1 is Boolean) {
                            Err(
                                (CheckFail { span, kind: ErrKind::ExpectBooleanCond }, ctx_t, m_e),
                            )
                        } else if tt != te {
                            Err(
                                (
                                    CheckFail { span, kind: ErrKind::BranchTypeMismatch },
                                    ctx_t,
                                    m_e,
                                ),
                            )
                        } else {
                            Ok((tt, ctx_t, table_insert(m_e, span, tt)))
                        }
                    }
                    // the alternative is checked on a copy of the context:
                    // its failure leaves the then-branch context in place
                    Err(f) => Err((f.0, ctx_t, f.2)),
                },
                Err(f) => Err(f),
            },
            Err(f) => Err(f),
        },
        TermV::Abstraction(q, x, oty, body) => match oty {
            Some(ty) => match check_spec(*body, ctx.insert(x, ty), tmap) {
                Ok((tb, ctx2, m2)) => {
                    if ty.0 == Qualifier::Linear && ctx2.contains_key(x) {
                        Err(
                            (
                                CheckFail { span, kind: ErrKind::LinearParamNotConsumed },
                                ctx2,
                                m2,
                            ),
                        )
                    } else {
                        let ctx3 = ctx2.remove(x);
                        if q == Qualifier::Nop && ctx3 != ctx {
                            Err(
                                (
                                    CheckFail { span, kind: ErrKind::UnrestrictedCapturesLinear },
                                    ctx3,
                                    m2,
                                ),
                            )
                        } else {
                            let tyr = Type(q, Pretype::Function(Box::new(ty), Box::new(tb)));
                            Ok((tyr, ctx3, table_insert(m2, span, tyr)))
                        }
                    }
                }
                Err(f) => Err(f),
            },
            None => Err((CheckFail { span, kind: ErrKind::UnknownTerm }, ctx, tmap)),
        },
        TermV::Application(f, a) => match check_spec(*f, ctx, tmap) {
            Ok((tf, ctx1, m1)) => match check_spec(*a, ctx1, m1) {
                Ok((ta, ctx2, m2)) => match tf.1 {
                    Pretype::Function(ty1, ty2) => {
                        if *ty1 != ta {
                            Err(
                                (
                                    CheckFail { span, kind: ErrKind::ArgumentTypeMismatch },
                                    ctx2,
                                    m2,
                                ),
                            )
                        } else {
                            Ok((*ty2, ctx2, m2))
                        }
                    }
                    _ => Err((CheckFail { span, kind: ErrKind::ExpectFunction }, ctx2, m2)),
                },
                Err(f2) => Err(f2),
            },
            Err(f2) => Err(f2),
        },
        TermV::Let(x, t1, t2) => match check_spec(*t1, ctx, tmap) {
            Ok((ty1, ctx1, m1)) => match check_spec(*t2, ctx1.insert(x, ty1), m1) {
                Ok((ty2, ctx2, m2)) => {
                    if ty1.0 == Qualifier::Linear && ctx2.contains_key(x) {
                        Err(
                            (CheckFail { span, kind: ErrKind::LinearLetNotConsumed }, ctx2, m2),
                        )
                    } else {
                        Ok((ty2, ctx2.remove(x), table_insert(m2, span, ty2)))
                    }
                }
                Err(f2) => Err(f2),
            },
            Err(f2) => Err(f2),
        },
        TermV::Fix(t1) => match check_spec(*t1, ctx, tmap) {
            Ok((tt, ctx1, m1)) => match tt.1 {
                Pretype::Function(ty1, ty2) => {
                    if *ty1 == *ty2 {
                        if tt.0 == Qualifier::Linear || (*ty1).0 == Qualifier::Linear {
                            Err((CheckFail { span, kind: ErrKind::LinearRecursion }, ctx1, m1))
                        } else {
                            Ok((*ty1, ctx1, table_insert(m1, span, *ty1)))
                        }
                    } else {
                        Err((CheckFail { span, kind: ErrKind::FixExpectFunction }, ctx1, m1))
                    }
                }
                _ => Err((CheckFail { span, kind: ErrKind::FixExpectFunction }, ctx1, m1)),
            },
            Err(f2) => Err(f2),
        },
        TermV::Compound(q, t1, t2) => match check_spec(*t1, ctx, tmap) {
            Ok((ty1, ctx1, m1)) => {
                if q == Qualifier::Nop && ctx1 != ctx {
                    Err(
                        (
                            CheckFail { span, kind: ErrKind::UnrestrictedPairCapturesLinear },
                            ctx1,
                            m1,
                        ),
                    )
                } else {
                    match check_spec(*t2, ctx1, m1) {
                        Ok((ty2, ctx2, m2)) => {
                            if q == Qualifier::Nop && ctx2 != ctx1 {
                                Err(
                                    (
                                        CheckFail {
                                            span,
                                            kind: ErrKind::UnrestrictedPairCapturesLinear,
                                        },
                                        ctx2,
                                        m2,
                                    ),
                                )
                            } else {
                                let tyr = Type(
                                    q,
                                    Pretype::Compound(Box::new(ty1), Box::new(ty2)),
                                );
                                Ok((tyr, ctx2, table_insert(m2, span, tyr)))
                            }
                        }
                        Err(f2) => Err(f2),
                    }
                }
            }
            Err(f2) => Err(f2),
        },
        TermV::Letc(x1, x2, t1, t2) => {
            if x1 == x2 {
                Err((CheckFail { span, kind: ErrKind::SameIdentifier }, ctx, tmap))
            } else {
                match check_spec(*t1, ctx, tmap) {
                    Ok((ty1, ctx1, m1)) => match ty1.1 {
                        Pretype::Compound(ta, tb) => {
                            let q1 = (*ta).0;
                            let q2 = (*tb).0;
                            match check_spec(*t2, ctx1.insert(x1, *ta).insert(x2, *tb), m1) {
                                Ok((ty2, ctx2, m2)) => {
                                    if q1 == Qualifier::Linear && ctx2.contains_key(x1) {
                                        Err(
                                            (
                                                CheckFail {
                                                    span,
                                                    kind: ErrKind::LinearLetNotConsumed,
                                                },
                                                ctx2,
                                                m2,
                                            ),
                                        )
                                    } else if q2 == Qualifier::Linear && ctx2.contains_key(x2) {
                                        Err(
                                            (
                                                CheckFail {
                                                    span,
                                                    kind: ErrKind::LinearLetNotConsumed,
                                                },
                                                ctx2,
                                                m2,
                                            ),
                                        )
                                    } else {
                                        Ok(
                                            (
                                                ty2,
                                                ctx2.remove(x1).remove(x2),
                                                table_insert(m2, span, ty2),
                                            ),
                                        )
                                    }
                                }
                                Err(f2) => Err(f2),
                            }
                        }
                        _ => Err((CheckFail { span, kind: ErrKind::ExpectCompound }, ctx1, m1)),
                    },
                    Err(f2) => Err(f2),
                }
            }
        }
        TermV::Arith1(q, op, t1) => match op {
            ArithOp::IsZero => match check_spec(*t1, ctx, tmap) {
                Ok((ty1, ctx1, m1)) => {
                    if ty1.1 is Integer {
                        let tyr = Type(q, Pretype::Boolean);
                        Ok((tyr, ctx1, table_insert(m1, span, tyr)))
                    } else {
                        Err(
                            (CheckFail { span, kind: ErrKind::ExpectIntegerOperand }, ctx1, m1),
                        )
                    }
                }
                Err(f2) => Err(f2),
            },
            _ => Err((CheckFail { span, kind: ErrKind::UnknownTerm }, ctx, tmap)),
        },
        TermV::Arith2(q, op, t1, t2) => match op {
            ArithOp::Diff => match check_spec(*t1, ctx, tmap) {
                Ok((ty1, ctx1, m1)) => match check_spec(*t2, ctx1, m1) {
                    Ok((ty2, ctx2, m2)) => {
                        if ty1.1 is Integer && ty2.1 is Integer {
                            let tyr = Type(q, Pretype::Integer);
                            Ok((tyr, ctx2, table_insert(m2, span, tyr)))
                        } else {
                            Err(
                                (
                                    CheckFail { span, kind: ErrKind::ExpectIntegerOperands },
                                    ctx2,
                                    m2,
                                ),
                            )
                        }
                    }
                    Err(f2) => Err(f2),
                },
                Err(f2) => Err(f2),
            },
            _ => Err((CheckFail { span, kind: ErrKind::UnknownTerm }, ctx, tmap)),
        },
    }
}

/// The checker's contract: the result, final context and final span table
/// are exactly what `check_spec` says.
pub open spec fn check_ensures(
    t: TermCtxV,
    ctx0: Map<Seq<char>, Type>,
    m0: Seq<(Context, Type)>,
    r: Result<Type, Error>,
    ctx1: Map<Seq<char>, Type>,
    m1: Seq<(Context, Type)>,
) -> bool {
    match check_spec(t, ctx0, m0) {
        Ok((ty, ctxs, ms)) => r matches Ok(tyr) && tyr == ty && ctx1 == ctxs && m1 == ms,
        Err(f) => r matches Err(e) && check_err_matches(e, f.0) && ctx1 == f.1 && m1 == f.2,
    }
}

fn type_err(span: Context, msg: &str) -> (e: Error)
    ensures
        e matches Error::TypeError { message, start, end } && message@ == msg@ && start
            == span.start && end == span.end,
{
    Error::TypeError { message: msg.to_owned(), start: span.start, end: span.end }
}

} // verus!


verus! {

/// Checks one term under the given context, recording per-span types as it
/// goes: the executable form of `check_spec`, which its contract holds it
/// to, error for error.
pub fn type_check_aux(
    term_ctx: &TermCtx,
    type_ctx: &mut TypeContext,
    type_map: &mut TypeMap,
) -> (r: Result<Type, Error>)
    requires
        old(type_ctx).wf(),
        old(type_map).wf(),
    ensures
        final(type_ctx).wf(),
        final(type_map).wf(),
        check_ensures(
            term_ctx@,
            old(type_ctx)@,
            old(type_map).entry_seq(),
            r,
            final(type_ctx)@,
            final(type_map).entry_seq(),
        ),
    decreases *term_ctx, 1int,
{
    let TermCtx(span, term) = term_ctx;
    let span = *span;
    match term {
        Term::Variable(id) => {
            let looked: Type = match type_ctx.get(id.as_str()) {
                None => {
                    return Err(type_err(span, "undefined variable"));
                }
                Some(t) => t.clone(),
            };
            if looked.0 == Qualifier::Linear {
                type_ctx.remove(id.as_str());
            }
            type_map.insert(span, looked.clone());
            Ok(looked)
        }
        Term::Boolean(q, _) => {
            let ty = Type(*q, Pretype::Boolean);
            type_map.insert(span, ty.clone());
            Ok(ty)
        }
        Term::Integer(q, _) => {
            let ty = Type(*q, Pretype::Integer);
            type_map.insert(span, ty.clone());
            Ok(ty)
        }
        Term::Conditional(..) => check_conditional(term_ctx, type_ctx, type_map),
        Term::Abstraction(..) => check_abstraction(term_ctx, type_ctx, type_map),
        Term::Application(..) => check_application(term_ctx, type_ctx, type_map),
        Term::Let(..) => check_let(term_ctx, type_ctx, type_map),
        Term::Fix(..) => check_fix(term_ctx, type_ctx, type_map),
        Term::Compound(..) => check_compound(term_ctx, type_ctx, type_map),
        Term::Letc(..) => check_letc(term_ctx, type_ctx, type_map),
        Term::Arith1(..) => check_arith1(term_ctx, type_ctx, type_map),
        Term::Arith2(..) => check_arith2(term_ctx, type_ctx, type_map),
    }
}

fn check_conditional(
    term_ctx: &TermCtx,
    type_ctx: &mut TypeContext,
    type_map: &mut TypeMap,
) -> (r: Result<Type, Error>)
    requires
        old(type_ctx).wf(),
        old(type_map).wf(),
        term_ctx.1 is Conditional,
    ensures
        final(type_ctx).wf(),
        final(type_map).wf(),
        check_ensures(
            term_ctx@,
            old(type_ctx)@,
            old(type_map).entry_seq(),
            r,
            final(type_ctx)@,
            final(type_map).entry_seq(),
        ),
    decreases *term_ctx, 0int,
{
    let TermCtx(span, term) = term_ctx;
    let span = *span;
    match term {
        Term::Conditional(cond, then, alter) => {
            let tc = match type_check_aux(&**cond, type_ctx, type_map) {
                Ok(t) => t,
                Err(e) => return Err(e),
            };
            let mut type_ctx1 = type_ctx.clone();
            let tt = match type_check_aux(&**then, type_ctx, type_map) {
                Ok(t) => t,
                Err(e) => return Err(e),
            };
            let te = match type_check_aux(&**alter, &mut type_ctx1, type_map) {
                Ok(t) => t,
                Err(e) => return Err(e),
            };
            if !type_ctx_eq(type_ctx, &type_ctx1) {
                return Err(
                    type_err(span, "variables are consumed differently in different branches"),
                );
            }
            let cond_is_bool = match tc.1 {
                Pretype::Boolean => true,
                _ => false,
            };
            if !cond_is_bool {
                return Err(type_err(span, "expect Boolean condition"));
            }
            if !type_eq(&tt, &te) {
                return Err(type_err(span, "different branch types"));
            }
            type_map.insert(span, tt.clone());
            Ok(tt)
        }
        _ => vstd::pervasive::unreached(),
    }
}

fn check_abstraction(
    term_ctx: &TermCtx,
    type_ctx: &mut TypeContext,
    type_map: &mut TypeMap,
) -> (r: Result<Type, Error>)
    requires
        old(type_ctx).wf(),
        old(type_map).wf(),
        term_ctx.1 is Abstraction,
    ensures
        final(type_ctx).wf(),
        final(type_map).wf(),
        check_ensures(
            term_ctx@,
            old(type_ctx)@,
            old(type_map).entry_seq(),
            r,
            final(type_ctx)@,
            final(type_map).entry_seq(),
        ),
    decreases *term_ctx, 0int,
{
    let TermCtx(span, term) = term_ctx;
    let span = *span;
    match term {
        Term::Abstraction(q, x, ty_opt, body) => match ty_opt {
            Some(ty_ann) => {
                let type_ctx0 = type_ctx.clone();
                let param_ty: Type = (**ty_ann).clone();
                type_ctx.insert(x.clone(), param_ty.clone());
                let tb = match type_check_aux(&**body, type_ctx, type_map) {
                    Ok(t) => t,
                    Err(e) => return Err(e),
                };
                if param_ty.0 == Qualifier::Linear && type_ctx.contains_key(x.as_str()) {
                    return Err(type_err(span, "linear variable is not consumed in function body"));
                }
                type_ctx.remove(x.as_str());
                if *q == Qualifier::Nop && !type_ctx_eq(type_ctx, &type_ctx0) {
                    return Err(
                        type_err(span, "free linear variable referenced in unrestricted closure"),
                    );
                }
                let ty = Type(*q, Pretype::Function(Box::new(param_ty), Box::new(tb)));
                type_map.insert(span, ty.clone());
                Ok(ty)
            }
            None => Err(type_err(span, "unknown term")),
        },
        _ => vstd::pervasive::unreached(),
    }
}

fn check_application(
    term_ctx: &TermCtx,
    type_ctx: &mut TypeContext,
    type_map: &mut TypeMap,
) -> (r: Result<Type, Error>)
    requires
        old(type_ctx).wf(),
        old(type_map).wf(),
        term_ctx.1 is Application,
    ensures
        final(type_ctx).wf(),
        final(type_map).wf(),
        check_ensures(
            term_ctx@,
            old(type_ctx)@,
            old(type_map).entry_seq(),
            r,
            final(type_ctx)@,
            final(type_map).entry_seq(),
        ),
    decreases *term_ctx, 0int,
{
    let TermCtx(span, term) = term_ctx;
    let span = *span;
    match term {
        Term::Application(fun, arg) => {
            let tf = match type_check_aux(&**fun, type_ctx, type_map) {
                Ok(t) => t,
                Err(e) => return Err(e),
            };
            let ta = match type_check_aux(&**arg, type_ctx, type_map) {
                Ok(t) => t,
                Err(e) => return Err(e),
            };
            match tf.1 {
                Pretype::Function(ty1, ty2) => {
                    if !type_eq(&*ty1, &ta) {
                        return Err(type_err(span, "argument type mismatch"));
                    }
                    Ok(*ty2)
                }
                _ => Err(type_err(span, "expect function type")),
            }
        }
        _ => vstd::pervasive::unreached(),
    }
}

fn check_let(
    term_ctx: &TermCtx,
    type_ctx: &mut TypeContext,
    type_map: &mut TypeMap,
) -> (r: Result<Type, Error>)
    requires
        old(type_ctx).wf(),
        old(type_map).wf(),
        term_ctx.1 is Let,
    ensures
        final(type_ctx).wf(),
        final(type_map).wf(),
        check_ensures(
            term_ctx@,
            old(type_ctx)@,
            old(type_map).entry_seq(),
            r,
            final(type_ctx)@,
            final(type_map).entry_seq(),
        ),
    decreases *term_ctx, 0int,
{
    let TermCtx(span, term) = term_ctx;
    let span = *span;
    match term {
        Term::Let(x, t1, t2) => {
            let ty1 = match type_check_aux(&**t1, type_ctx, type_map) {
                Ok(t) => t,
                Err(e) => return Err(e),
            };
            let q1 = ty1.0;
            type_ctx.insert(x.clone(), ty1);
            let ty2 = match type_check_aux(&**t2, type_ctx, type_map) {
                Ok(t) => t,
                Err(e) => return Err(e),
            };
            if q1 == Qualifier::Linear && type_ctx.contains_key(x.as_str()) {
                return Err(type_err(span, "linear variable is not consumed in let body"));
            }
            type_ctx.remove(x.as_str());
            type_map.insert(span, ty2.clone());
            Ok(ty2)
        }
        _ => vstd::pervasive::unreached(),
    }
}

fn check_fix(
    term_ctx: &TermCtx,
    type_ctx: &mut TypeContext,
    type_map: &mut TypeMap,
) -> (r: Result<Type, Error>)
    requires
        old(type_ctx).wf(),
        old(type_map).wf(),
        term_ctx.1 is Fix,
    ensures
        final(type_ctx).wf(),
        final(type_map).wf(),
        check_ensures(
            term_ctx@,
            old(type_ctx)@,
            old(type_map).entry_seq(),
            r,
            final(type_ctx)@,
            final(type_map).entry_seq(),
        ),
    decreases *term_ctx, 0int,
{
    let TermCtx(span, term) = term_ctx;
    let span = *span;
    match term {
        Term::Fix(t) => {
            let tt = match type_check_aux(&**t, type_ctx, type_map) {
                Ok(t2) => t2,
                Err(e) => return Err(e),
            };
            match tt {
                Type(qf, Pretype::Function(ty1, ty2)) => {
                    if type_eq(&*ty1, &*ty2) {
                        let q1 = (*ty1).0;
                        if qf == Qualifier::Linear || q1 == Qualifier::Linear {
                            return Err(type_err(span, "linear term is not allowed for recursion"));
                        }
                        type_map.insert(span, (*ty1).clone());
                        Ok(*ty1)
                    } else {
                        Err(type_err(span, "expect recursive function type"))
                    }
                }
                _ => Err(type_err(span, "expect recursive function type")),
            }
        }
        _ => vstd::pervasive::unreached(),
    }
}

fn check_compound(
    term_ctx: &TermCtx,
    type_ctx: &mut TypeContext,
    type_map: &mut TypeMap,
) -> (r: Result<Type, Error>)
    requires
        old(type_ctx).wf(),
        old(type_map).wf(),
        term_ctx.1 is Compound,
    ensures
        final(type_ctx).wf(),
        final(type_map).wf(),
        check_ensures(
            term_ctx@,
            old(type_ctx)@,
            old(type_map).entry_seq(),
            r,
            final(type_ctx)@,
            final(type_map).entry_seq(),
        ),
    decreases *term_ctx, 0int,
{
    let TermCtx(span, term) = term_ctx;
    let span = *span;
    match term {
        Term::Compound(q, t1, t2) => {
            let type_ctx0 = type_ctx.clone();
            let ty1 = match type_check_aux(&**t1, type_ctx, type_map) {
                Ok(t) => t,
                Err(e) => return Err(e),
            };
            if *q == Qualifier::Nop && !type_ctx_eq(type_ctx, &type_ctx0) {
                return Err(
                    type_err(span, "free linear variable referenced in unrestricted compound pair"),
                );
            }
            let type_ctx1 = type_ctx.clone();
            let ty2 = match type_check_aux(&**t2, type_ctx, type_map) {
                Ok(t) => t,
                Err(e) => return Err(e),
            };
            if *q == Qualifier::Nop && !type_ctx_eq(type_ctx, &type_ctx1) {
                return Err(
                    type_err(span, "free linear variable referenced in unrestricted compound pair"),
                );
            }
            let ty = Type(*q, Pretype::Compound(Box::new(ty1), Box::new(ty2)));
            type_map.insert(span, ty.clone());
            Ok(ty)
        }
        _ => vstd::pervasive::unreached(),
    }
}

fn check_letc(
    term_ctx: &TermCtx,
    type_ctx: &mut TypeContext,
    type_map: &mut TypeMap,
) -> (r: Result<Type, Error>)
    requires
        old(type_ctx).wf(),
        old(type_map).wf(),
        term_ctx.1 is Letc,
    ensures
        final(type_ctx).wf(),
        final(type_map).wf(),
        check_ensures(
            term_ctx@,
            old(type_ctx)@,
            old(type_map).entry_seq(),
            r,
            final(type_ctx)@,
            final(type_map).entry_seq(),
        ),
    decreases *term_ctx, 0int,
{
    let TermCtx(span, term) = term_ctx;
    let span = *span;
    match term {
        Term::Letc(x1, x2, t1, t2) => {
            if str_eq(x1.as_str(), x2.as_str()) {
                return Err(type_err(span, "expect different identifiers"));
            }
            let ty1 = match type_check_aux(&**t1, type_ctx, type_map) {
                Ok(t) => t,
                Err(e) => return Err(e),
            };
            match ty1 {
                Type(_, Pretype::Compound(ta, tb)) => {
                    let qa = (*ta).0;
                    let qb = (*tb).0;
                    type_ctx.insert(x1.clone(), *ta);
                    type_ctx.insert(x2.clone(), *tb);
                    let ty2 = match type_check_aux(&**t2, type_ctx, type_map) {
                        Ok(t) => t,
                        Err(e) => return Err(e),
                    };
                    if qa == Qualifier::Linear && type_ctx.contains_key(x1.as_str()) {
                        return Err(type_err(span, "linear variable is not consumed in let body"));
                    }
                    if qb == Qualifier::Linear && type_ctx.contains_key(x2.as_str()) {
                        return Err(type_err(span, "linear variable is not consumed in let body"));
                    }
                    type_ctx.remove(x1.as_str());
                    type_ctx.remove(x2.as_str());
                    type_map.insert(span, ty2.clone());
                    Ok(ty2)
                }
                _ => Err(type_err(span, "expect compound type")),
            }
        }
        _ => vstd::pervasive::unreached(),
    }
}

fn check_arith1(
    term_ctx: &TermCtx,
    type_ctx: &mut TypeContext,
    type_map: &mut TypeMap,
) -> (r: Result<Type, Error>)
    requires
        old(type_ctx).wf(),
        old(type_map).wf(),
        term_ctx.1 is Arith1,
    ensures
        final(type_ctx).wf(),
        final(type_map).wf(),
        check_ensures(
            term_ctx@,
            old(type_ctx)@,
            old(type_map).entry_seq(),
            r,
            final(type_ctx)@,
            final(type_map).entry_seq(),
        ),
    decreases *term_ctx, 0int,
{
    let TermCtx(span, term) = term_ctx;
    let span = *span;
    match term {
        Term::Arith1(q, op, t1) => match op {
            ArithOp::IsZero => {
                let ty1 = match type_check_aux(&**t1, type_ctx, type_map) {
                    Ok(t) => t,
                    Err(e) => return Err(e),
                };
                match ty1.1 {
                    Pretype::Integer => {
                        let ty = Type(*q, Pretype::Boolean);
                        type_map.insert(span, ty.clone());
                        Ok(ty)
                    }
                    _ => Err(type_err(span, "expect Integer operand")),
                }
            }
            _ => Err(type_err(span, "unknown term")),
        },
        _ => vstd::pervasive::unreached(),
    }
}

fn check_arith2(
    term_ctx: &TermCtx,
    type_ctx: &mut TypeContext,
    type_map: &mut TypeMap,
) -> (r: Result<Type, Error>)
    requires
        old(type_ctx).wf(),
        old(type_map).wf(),
        term_ctx.1 is Arith2,
    ensures
        final(type_ctx).wf(),
        final(type_map).wf(),
        check_ensures(
            term_ctx@,
            old(type_ctx)@,
            old(type_map).entry_seq(),
            r,
            final(type_ctx)@,
            final(type_map).entry_seq(),
        ),
    decreases *term_ctx, 0int,
{
    let TermCtx(span, term) = term_ctx;
    let span = *span;
    match term {
        Term::Arith2(q, op, t1, t2) => match op {
            ArithOp::Diff => {
                let ty1 = match type_check_aux(&**t1, type_ctx, type_map) {
                    Ok(t) => t,
                    Err(e) => return Err(e),
                };
                let ty2 = match type_check_aux(&**t2, type_ctx, type_map) {
                    Ok(t) => t,
                    Err(e) => return Err(e),
                };
                let ok1 = match ty1.1 {
                    Pretype::Integer => true,
                    _ => false,
                };
                let ok2 = match ty2.1 {
                    Pretype::Integer => true,
                    _ => false,
                };
                if ok1 && ok2 {
                    let ty = Type(*q, Pretype::Integer);
                    type_map.insert(span, ty.clone());
                    Ok(ty)
                } else {
                    Err(type_err(span, "expect Integer operands"))
                }
            }
            _ => Err(type_err(span, "unknown term")),
        },
        _ => vstd::pervasive::unreached(),
    }
}

} // verus!

verus! {

/// What the checker computes on a whole program: `check_spec` from the
/// empty context and the empty table.
pub open spec fn type_check_result(t: TermCtxV) -> Result<
    (Type, Map<Seq<char>, Type>, Seq<(Context, Type)>),
    (CheckFail, Map<Seq<char>, Type>, Seq<(Context, Type)>),
> {
    check_spec(t, Map::<Seq<char>, Type>::empty(), Seq::<(Context, Type)>::empty())
}

/// `m` is the table that `type_check` reports for `t`, entry for entry in
/// order: the success half of its contract.
pub open spec fn type_check_reports(t: TermCtxV, m: TypeMap) -> bool {
    type_check_result(t) matches Ok(res) && m.entry_seq() == res.2
}

/// Type-checks a whole program. On success, the table maps the span of
/// every type-bearing subexpression to its type (application nodes are
/// omitted by design); on failure, the first error, pinned to its span.
pub fn type_check(term_ctx: &TermCtx) -> (r: Result<TypeMap, Error>)
    ensures
        match type_check_result(term_ctx@) {
            Ok(res) => r matches Ok(m) && m.wf() && type_check_reports(term_ctx@, m),
            Err(f) => r matches Err(e) && check_err_matches(e, f.0),
        },
{
    let mut type_map = TypeMap::new();
    let mut type_ctx = TypeContext::new();
    proof {
        assert(type_map.entry_seq() =~= Seq::<(Context, Type)>::empty());
    }
    match type_check_aux(term_ctx, &mut type_ctx, &mut type_map) {
        Ok(_) => Ok(type_map),
        Err(e) => Err(e),
    }
}

/// Type-check determinism: any two tables that the checker can report for
/// the same tree are the same map, because the contract of `type_check`
/// pins both to the one spec-level result.
pub proof fn lemma_type_check_deterministic(t: TermCtxV, m1: TypeMap, m2: TypeMap)
    requires
        type_check_reports(t, m1),
        type_check_reports(t, m2),
    ensures
        m1.entry_seq() == m2.entry_seq(),
        m1@ == m2@,
{
}

/// Branch context equality: a conditional whose condition and branches all
/// check on their own, but whose two branches leave different typing
/// contexts behind (they consume different linear variables), is rejected,
/// with the mismatch reported at the conditional's span.
pub proof fn lemma_branch_mismatch_rejected(
    span: Context,
    c: TermCtxV,
    th: TermCtxV,
    el: TermCtxV,
    ctx: Map<Seq<char>, Type>,
    m: Seq<(Context, Type)>,
)
    requires
        check_spec(c, ctx, m) is Ok,
        ({
            let (tc, ctx_c, m_c) = check_spec(c, ctx, m)->Ok_0;
            &&& check_spec(th, ctx_c, m_c) is Ok
            &&& check_spec(el, ctx_c, check_spec(th, ctx_c, m_c)->Ok_0.2) is Ok
            &&& check_spec(th, ctx_c, m_c)->Ok_0.1 != check_spec(
                el,
                ctx_c,
                check_spec(th, ctx_c, m_c)->Ok_0.2,
            )->Ok_0.1
        }),
    ensures
        ({
            let r = check_spec(
                TermCtxV {
                    ctx: span,
                    term: TermV::Conditional(Box::new(c), Box::new(th), Box::new(el)),
                },
                ctx,
                m,
            );
            r matches Err(f) && f.0 == (CheckFail { span, kind: ErrKind::BranchMismatch })
        }),
{
}

} // verus!

verus! {

/// One run of source text together with the rendered type of the innermost
/// span enclosing it, if any encloses it.
#[derive(Debug)]
pub struct TypedTermStr {
    pub ty: Option<String>,
    pub s: String,
}

/// The source text that a tag sequence carries, in order.
pub open spec fn tags_text(tags: Seq<TypedTermStr>) -> Seq<char>
    decreases tags.len(),
{
    if tags.len() == 0 {
        Seq::empty()
    } else {
        tags_text(tags.drop_last()) + tags.last().s@
    }
}


/// The spec-level model of a tagged run.
pub struct TagV {
    pub ty: Option<Seq<char>>,
    pub s: Seq<char>,
}

pub open spec fn tag_view(t: TypedTermStr) -> TagV {
    TagV {
        ty: match t.ty {
            Some(s) => Some(s@),
            None => None,
        },
        s: t.s@,
    }
}

pub open spec fn tag_views(s: Seq<TypedTermStr>) -> Seq<TagV> {
    s.map_values(|t: TypedTermStr| tag_view(t))
}

/// The boundary events of the recorded spans, in table order: a start
/// event and an end event for each entry.
pub open spec fn events_of(entries: Seq<(Context, Type)>) -> Seq<(int, bool, Type)>
    decreases entries.len(),
{
    if entries.len() == 0 {
        Seq::empty()
    } else {
        events_of(entries.drop_last()) + seq![
            (entries.last().0.start as int, true, entries.last().1),
            (entries.last().0.end as int, false, entries.last().1),
        ]
    }
}

/// Whether event `a` sorts strictly before event `b`: by position, end
/// events before start events at the same position.
pub open spec fn event_lt_spec(a: (int, bool, Type), b: (int, bool, Type)) -> bool {
    a.0 < b.0 || (a.0 == b.0 && !a.1 && b.1)
}

/// Where the stable insertion places `e`: scanning down from `j`, before
/// every event it does not sort strictly after.
pub open spec fn insert_pos(sorted: Seq<(int, bool, Type)>, e: (int, bool, Type), j: int) -> int
    decreases j,
{
    if j > 0 && !event_lt_spec(sorted[j - 1], e) {
        insert_pos(sorted, e, j - 1)
    } else {
        j
    }
}

/// The stable insertion sort of the events, drawing from the back of
/// `rest` as the executable sort does.
pub open spec fn sort_events_spec(
    rest: Seq<(int, bool, Type)>,
    sorted: Seq<(int, bool, Type)>,
) -> Seq<(int, bool, Type)>
    decreases rest.len(),
{
    if rest.len() == 0 {
        sorted
    } else {
        let e = rest.last();
        sort_events_spec(
            rest.drop_last(),
            sorted.insert(insert_pos(sorted, e, sorted.len() as int), e),
        )
    }
}

/// Applies every event at position `i`: starts push their type, ends pop,
/// and the first event records the stack top as the type of the run that
/// just closed.
pub open spec fn apply_events(
    events: Seq<(int, bool, Type)>,
    ev_i: int,
    i: int,
    stack: Seq<Type>,
    changed_ty: Option<Type>,
    changed: bool,
) -> (int, Seq<Type>, bool, Option<Type>)
    decreases events.len() - ev_i,
{
    if 0 <= ev_i < events.len() && events[ev_i].0 == i {
        let changed_ty2 = if !changed {
            if stack.len() > 0 {
                Some(stack.last())
            } else {
                None
            }
        } else {
            changed_ty
        };
        let stack2 = if events[ev_i].1 {
            stack.push(events[ev_i].2)
        } else if stack.len() > 0 {
            stack.drop_last()
        } else {
            stack
        };
        apply_events(events, ev_i + 1, i, stack2, changed_ty2, true)
    } else {
        (ev_i, stack, changed, changed_ty)
    }
}

/// One pass over the source: runs are cut at span boundaries and line
/// ends, each carrying the rendered type of the enclosing span on top of
/// the stack at that point.
pub open spec fn sweep(
    chars: Seq<char>,
    events: Seq<(int, bool, Type)>,
    i: int,
    start: int,
    stack: Seq<Type>,
    ev_i: int,
    tags: Seq<TagV>,
) -> Seq<TagV>
    decreases chars.len() - i,
{
    if !(0 <= i < chars.len()) {
        if 0 <= start < chars.len() {
            tags.push(
                TagV {
                    ty: if stack.len() > 0 {
                        Some(write_type_spec(stack.last(), false))
                    } else {
                        None
                    },
                    s: chars.subrange(start, chars.len() as int),
                },
            )
        } else {
            tags
        }
    } else {
        let c = chars[i];
        let st = apply_events(events, ev_i, i, stack, None, false);
        let ev_i2 = st.0;
        let stack2 = st.1;
        let changed = st.2;
        let changed_ty = st.3;
        if changed && 0 <= start < i {
            let tags2 = tags.push(
                TagV {
                    ty: match changed_ty {
                        Some(t) => Some(write_type_spec(t, false)),
                        None => None,
                    },
                    s: chars.subrange(start, i),
                },
            );
            if c == '\n' {
                sweep(
                    chars,
                    events,
                    i + 1,
                    i + 1,
                    stack2,
                    ev_i2,
                    tags2.push(TagV { ty: None, s: chars.subrange(i, i + 1) }),
                )
            } else {
                sweep(chars, events, i + 1, i, stack2, ev_i2, tags2)
            }
        } else if c == '\n' {
            let tags2 = if 0 <= start < i {
                tags.push(
                    TagV {
                        ty: if stack2.len() > 0 {
                            Some(write_type_spec(stack2.last(), false))
                        } else {
                            None
                        },
                        s: chars.subrange(start, i),
                    },
                )
            } else {
                tags
            };
            sweep(
                chars,
                events,
                i + 1,
                i + 1,
                stack2,
                ev_i2,
                tags2.push(TagV { ty: None, s: chars.subrange(i, i + 1) }),
            )
        } else {
            sweep(chars, events, i + 1, start, stack2, ev_i2, tags)
        }
    }
}

/// What the tagging of a whole source yields.
pub open spec fn convert_spec(entries: Seq<(Context, Type)>, source: Seq<char>) -> Seq<TagV> {
    let events = sort_events_spec(events_of(entries), Seq::empty());
    sweep(source, events, 0, 0, Seq::empty(), 0, Seq::empty())
}

/// Whether event `a` sorts strictly before event `b`: by position, end
/// events before start events at the same position.
pub open spec fn event_view(e: (usize, bool, Type)) -> (int, bool, Type) {
    (e.0 as int, e.1, e.2)
}

pub open spec fn event_views(s: Seq<(usize, bool, Type)>) -> Seq<(int, bool, Type)> {
    s.map_values(|e: (usize, bool, Type)| event_view(e))
}

fn event_lt(a: &(usize, bool, Type), b: &(usize, bool, Type)) -> (r: bool)
    ensures
        r == event_lt_spec(event_view(*a), event_view(*b)),
{
    a.0 < b.0 || (a.0 == b.0 && !a.1 && b.1)
}

/// Stable insertion sort: events are drawn from the back and each is
/// placed before the run of events it equals, so events with equal keys
/// keep their original relative order.
fn sort_events(events: Vec<(usize, bool, Type)>) -> (r: Vec<(usize, bool, Type)>)
    ensures
        r@.len() == events@.len(),
        event_views(r@) == sort_events_spec(event_views(events@), Seq::empty()),
{
    let ghost n0 = events@.len();
    let ghost all = event_views(events@);
    let mut sorted: Vec<(usize, bool, Type)> = Vec::new();
    let mut rest = events;
    proof {
        assert(event_views(sorted@) =~= Seq::<(int, bool, Type)>::empty());
    }
    while rest.len() > 0
        invariant
            sorted@.len() + rest@.len() == n0,
            sort_events_spec(all, Seq::empty()) == sort_events_spec(
                event_views(rest@),
                event_views(sorted@),
            ),
        decreases rest@.len(),
    {
        let ghost rest_pre = rest@;
        let e = match rest.pop() {
            Some(e) => e,
            None => vstd::pervasive::unreached(),
        };
        proof {
            assert(event_views(rest@) =~= event_views(rest_pre).drop_last());
            assert(event_views(rest_pre).last() == event_view(e));
        }
        let mut j: usize = sorted.len();
        while j > 0 && !event_lt(&sorted[j - 1], &e)
            invariant
                j <= sorted@.len(),
                insert_pos(event_views(sorted@), event_view(e), sorted@.len() as int)
                    == insert_pos(event_views(sorted@), event_view(e), j as int),
            decreases j,
        {
            proof {
                assert(event_views(sorted@)[j - 1] == event_view(sorted@[j - 1]));
            }
            j -= 1;
        }
        proof {
            if j > 0 {
                assert(event_views(sorted@)[j - 1] == event_view(sorted@[j - 1]));
            }
            assert(insert_pos(event_views(sorted@), event_view(e), j as int) == j);
        }
        let ghost sorted_pre = sorted@;
        sorted.insert(j, e);
        proof {
            assert(event_views(sorted@) =~= event_views(sorted_pre).insert(
                j as int,
                event_view(e),
            ));
        }
    }
    proof {
        assert(event_views(rest@) =~= Seq::<(int, bool, Type)>::empty());
    }
    sorted
}

fn chars_substring(chars: &Vec<char>, from: usize, to: usize) -> (r: String)
    requires
        from <= to <= chars@.len(),
    ensures
        r@ == chars@.subrange(from as int, to as int),
{
    let mut s = String::new();
    let mut i = from;
    while i < to
        invariant
            from <= i <= to <= chars@.len(),
            s@ == chars@.subrange(from as int, i as int),
        decreases to - i,
    {
        crate::strutil::push_char(&mut s, chars[i]);
        i += 1;
        proof {
            assert(s@ =~= chars@.subrange(from as int, i as int));
        }
    }
    s
}

/// Splits the source into runs, each tagged with the rendered type of the
/// innermost recorded span that covers it, breaking runs at span boundaries
/// and at line ends. The runs carry the whole source: their concatenation
/// is the input text; no run is empty; a line break is always a run of its
/// own, carrying no type.
pub fn convert_hashmap_to_vec(type_map: &TypeMap, source: &str) -> (r: Vec<TypedTermStr>)
    ensures
        tag_views(r@) == convert_spec(type_map.entries@, source@),
        tags_text(r@) == source@,
        forall|j: int| 0 <= j < r@.len() ==> (#[trigger] r@[j]).s@.len() > 0,
        forall|j: int|
            0 <= j < r@.len() ==> ((#[trigger] r@[j]).s@.contains('\n') ==> r@[j].s@ == seq![
                '\n',
            ] && r@[j].ty is None),
{
    let chars = crate::parser::str_to_chars(source);
    let mut events: Vec<(usize, bool, Type)> = Vec::new();
    let n_entries = type_map.entries.len();
    let mut k: usize = 0;
    proof {
        assert(event_views(events@) =~= events_of(type_map.entries@.take(0)));
    }
    while k < n_entries
        invariant
            n_entries == type_map.entries@.len(),
            k <= n_entries,
            event_views(events@) == events_of(type_map.entries@.take(k as int)),
        decreases n_entries - k,
    {
        let span = type_map.entries[k].0;
        let ty = &type_map.entries[k].1;
        let ghost pre = events@;
        events.push((span.start, true, ty.clone()));
        events.push((span.end, false, ty.clone()));
        k += 1;
        proof {
            assert(type_map.entries@.take(k as int).drop_last() =~= type_map.entries@.take(
                k as int - 1,
            ));
            assert(type_map.entries@.take(k as int).last() == type_map.entries@[k as int - 1]);
            assert(event_views(events@) =~= events_of(type_map.entries@.take(k as int)));
        }
    }
    proof {
        assert(type_map.entries@.take(n_entries as int) =~= type_map.entries@);
    }
    let events = sort_events(events);
    let ghost evs = event_views(events@);
    let formatter = crate::formatter::TermFormatter::new(crate::formatter::DEFAULT_LINE_WIDTH);
    let mut tags: Vec<TypedTermStr> = Vec::new();
    let mut stack: Vec<Type> = Vec::new();
    let mut ev_i: usize = 0;
    let n = chars.len();
    let mut start: usize = 0;
    let mut i: usize = 0;
    proof {
        assert(tag_views(tags@) =~= Seq::<TagV>::empty());
        assert(stack@ =~= Seq::<Type>::empty());
    }
    while i < n
        invariant
            n == chars@.len(),
            chars@ == source@,
            start <= i <= n,
            ev_i <= events@.len(),
            evs == event_views(events@),
            sweep(chars@, evs, i as int, start as int, stack@, ev_i as int, tag_views(tags@))
                == convert_spec(type_map.entries@, source@),
            tags_text(tags@) == chars@.subrange(0, start as int),
            forall|k: int| start <= k < i ==> chars@[k] != '\n',
            forall|j: int| 0 <= j < tags@.len() ==> (#[trigger] tags@[j]).s@.len() > 0,
            forall|j: int|
                0 <= j < tags@.len() ==> ((#[trigger] tags@[j]).s@.contains('\n') ==> tags@[j].s@
                    == seq!['\n'] && tags@[j].ty is None),
        decreases n - i,
    {
        let c = chars[i];
        let mut is_changed = false;
        let mut is_changed_type: Option<Type> = None;
        let ghost ev_i0 = ev_i as int;
        let ghost stack0 = stack@;
        while ev_i < events.len() && events[ev_i].0 == i
            invariant
                ev_i0 <= ev_i as int <= events@.len(),
                evs == event_views(events@),
                apply_events(evs, ev_i0, i as int, stack0, None, false) == apply_events(
                    evs,
                    ev_i as int,
                    i as int,
                    stack@,
                    is_changed_type,
                    is_changed,
                ),
            decreases events@.len() - ev_i,
        {
            proof {
                assert(evs[ev_i as int] == event_view(events@[ev_i as int]));
            }
            if !is_changed {
                is_changed_type = if stack.len() > 0 {
                    Some(stack[stack.len() - 1].clone())
                } else {
                    None
                };
            }
            is_changed = true;
            if events[ev_i].1 {
                stack.push(events[ev_i].2.clone());
            } else {
                if stack.len() > 0 {
                    let ghost spre = stack@;
                    stack.pop();
                    proof {
                        assert(stack@ =~= spre.drop_last());
                    }
                }
            }
            ev_i += 1;
        }
        proof {
            if ev_i < events@.len() {
                assert(evs[ev_i as int] == event_view(events@[ev_i as int]));
            }
            assert(apply_events(evs, ev_i0, i as int, stack0, None, false) == (
                ev_i as int,
                stack@,
                is_changed,
                is_changed_type,
            ));
        }
        if is_changed && start < i {
            let seg = chars_substring(&chars, start, i);
            let ty = match is_changed_type {
                Some(t) => Some(formatter.format_type(&t)),
                None => None,
            };
            let ghost prev = tags@;
            tags.push(TypedTermStr { ty, s: seg });
            proof {
                assert(tags@.drop_last() =~= prev);
                assert(tag_views(tags@) =~= tag_views(prev).push(tag_view(tags@.last())));
                assert(tags_text(tags@) =~= chars@.subrange(0, i as int));
                assert(!seg@.contains('\n')) by {
                    if seg@.contains('\n') {
                        let w = choose|w: int| 0 <= w < seg@.len() && seg@[w] == '\n';
                        assert(chars@[start + w] == '\n');
                    }
                }
            }
            if c == '\n' {
                let nl = chars_substring(&chars, i, i + 1);
                let ghost prev2 = tags@;
                tags.push(TypedTermStr { ty: None, s: nl });
                start = i + 1;
                proof {
                    assert(tags@.drop_last() =~= prev2);
                    assert(tag_views(tags@) =~= tag_views(prev2).push(tag_view(tags@.last())));
                    assert(tags_text(tags@) =~= chars@.subrange(0, start as int));
                    assert(tags@.last().s@ =~= seq!['\n']);
                }
            } else {
                start = i;
            }
        } else if c == '\n' {
            if start < i {
                let seg = chars_substring(&chars, start, i);
                let ty = if stack.len() > 0 {
                    Some(formatter.format_type(&stack[stack.len() - 1]))
                } else {
                    None
                };
                let ghost prev = tags@;
                tags.push(TypedTermStr { ty, s: seg });
                proof {
                    assert(tags@.drop_last() =~= prev);
                    assert(tag_views(tags@) =~= tag_views(prev).push(tag_view(tags@.last())));
                    assert(tags_text(tags@) =~= chars@.subrange(0, i as int));
                    assert(!seg@.contains('\n')) by {
                        if seg@.contains('\n') {
                            let w = choose|w: int| 0 <= w < seg@.len() && seg@[w] == '\n';
                            assert(chars@[start + w] == '\n');
                        }
                    }
                }
            }
            let nl = chars_substring(&chars, i, i + 1);
            let ghost prev2 = tags@;
            tags.push(TypedTermStr { ty: None, s: nl });
            start = i + 1;
            proof {
                assert(tags@.drop_last() =~= prev2);
                assert(tag_views(tags@) =~= tag_views(prev2).push(tag_view(tags@.last())));
                assert(tags_text(tags@) =~= chars@.subrange(0, start as int));
                assert(tags@.last().s@ =~= seq!['\n']);
            }
        }
        i += 1;
    }
    if start < n {
        let seg = chars_substring(&chars, start, n);
        let ty = if stack.len() > 0 {
            Some(formatter.format_type(&stack[stack.len() - 1]))
        } else {
            None
        };
        let ghost prev = tags@;
        tags.push(TypedTermStr { ty, s: seg });
        proof {
            assert(tags@.drop_last() =~= prev);
            assert(tag_views(tags@) =~= tag_views(prev).push(tag_view(tags@.last())));
            assert(tags_text(tags@) =~= chars@.subrange(0, n as int));
            assert(!seg@.contains('\n')) by {
                if seg@.contains('\n') {
                    let w = choose|w: int| 0 <= w < seg@.len() && seg@[w] == '\n';
                    assert(chars@[start + w] == '\n');
                }
            }
        }
    }
    proof {
        assert(chars@.subrange(0, n as int) =~= chars@);
    }
    tags
}

} // verus!
