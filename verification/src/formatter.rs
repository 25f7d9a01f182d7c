//! The pretty-printer: canonical concrete syntax for terms and types, with
//! a spec-level description of every character it emits. Output longer than
//! the formatter's line width is broken over lines with four-space indents.
use vstd::prelude::*;

use crate::digits::int_str;
use crate::strutil::contains_char;
use crate::strutil::push_char;
use crate::syntax::ArithOp;
use crate::syntax::Pretype;
use crate::syntax::Qualifier;
use crate::syntax::Term;
use crate::syntax::TermCtx;
use crate::syntax::TermCtxV;
use crate::syntax::TermV;
use crate::syntax::Type;

verus! {

/// The line width used when none is chosen.
pub const DEFAULT_LINE_WIDTH: usize = 40;

/// The qualifier prefix: `$` for linear, nothing for unrestricted.
pub open spec fn qualifier_str(q: Qualifier) -> Seq<char> {
    match q {
        Qualifier::Nop => Seq::empty(),
        Qualifier::Linear => "$"@,
    }
}

/// The keyword of a boolean literal.
pub open spec fn bool_str(b: bool) -> Seq<char> {
    if b {
        "true"@
    } else {
        "false"@
    }
}

/// The keyword of a primitive operation.
pub open spec fn arith_op_str(op: ArithOp) -> Seq<char> {
    match op {
        ArithOp::Diff => "diff"@,
        ArithOp::IsZero => "iszero"@,
    }
}

/// `n` copies of the four-space indent unit.
pub open spec fn indent_str(n: nat) -> Seq<char>
    decreases n,
{
    if n == 0 {
        Seq::empty()
    } else {
        indent_str((n - 1) as nat) + "    "@
    }
}

/// One more level of indentation, saturating at the machine limit.
pub open spec fn inc_indent(i: usize) -> usize {
    if i < usize::MAX {
        (i + 1) as usize
    } else {
        i
    }
}

/// The canonical rendering of a type. A qualified function type is wrapped
/// in parentheses after its qualifier; `need_bracket` wraps the whole
/// rendering, and is set for an unqualified function type standing left of
/// an arrow, since the arrow is right-associative.
pub open spec fn write_type_spec(t: Type, need_bracket: bool) -> Seq<char>
    decreases t,
{
    let s = match t.1 {
        Pretype::Boolean => "bool"@,
        Pretype::Integer => "int"@,
        Pretype::Function(t1, t2) => {
            let left_is_arrow = (*t1).0 == Qualifier::Nop && (*t1).1 is Function;
            write_type_spec(*t1, left_is_arrow) + "->"@ + write_type_spec(*t2, false)
        }
        Pretype::Compound(t1, t2) => "<"@ + write_type_spec(*t1, false) + ", "@ + write_type_spec(
            *t2,
            false,
        ) + ">"@,
    };
    let qs = qualifier_str(t.0);
    let s2 = if qs.len() > 0 && t.1 is Function {
        "("@ + s + ")"@
    } else {
        s
    };
    let s3 = qs + s2;
    if need_bracket {
        "("@ + s3 + ")"@
    } else {
        s3
    }
}

/// The canonical rendering of a term at indentation level `ind` under line
/// width `width`; `nb` asks for parentheses around forms that would
/// otherwise swallow what follows them.
pub open spec fn write_term_spec(t: TermCtxV, ind: usize, width: usize, nb: bool) -> Seq<char>
    decreases t,
{
    match t.term {
        TermV::Variable(v) => v,
        TermV::Boolean(q, b) => qualifier_str(q) + bool_str(b),
        TermV::Integer(q, i) => qualifier_str(q) + int_str(i as int),
        TermV::Compound(q, t1, t2) => qualifier_str(q) + "<"@ + write_term_spec(
            *t1,
            ind,
            width,
            false,
        ) + ", "@ + write_term_spec(*t2, ind, width, false) + ">"@,
        TermV::Arith1(q, op, t1) => qualifier_str(q) + arith_op_str(op) + "("@ + write_term_spec(
            *t1,
            ind,
            width,
            false,
        ) + ")"@,
        TermV::Arith2(q, op, t1, t2) => qualifier_str(q) + arith_op_str(op) + "("@
            + write_term_spec(*t1, ind, width, false) + ", "@ + write_term_spec(
            *t2,
            ind,
            width,
            false,
        ) + ")"@,
        TermV::Application(t1, t2) => {
            let nb1 = (*t1).term is Abstraction || (*t1).term is Fix || (*t1).term is Let || (
            *t1).term is Letc;
            let s1 = write_term_spec(*t1, ind, width, nb1);
            let s2 = write_term_spec(*t2, ind, width, false);
            let oneline = s1 + " ("@ + s2 + ")"@;
            if s1.contains('\n') || s2.contains('\n') || oneline.len() > width {
                s1 + "\n"@ + indent_str(ind as nat) + "("@ + s2 + ")"@
            } else {
                oneline
            }
        }
        TermV::Conditional(t1, t2, t3) => {
            let ind1 = inc_indent(ind);
            let s1 = write_term_spec(*t1, ind1, width, false);
            let s2 = write_term_spec(*t2, ind1, width, false);
            let s3 = write_term_spec(*t3, ind1, width, false);
            let oneline = "if "@ + s1 + " { "@ + s2 + " } else { "@ + s3 + " }"@;
            if s1.contains('\n') || s2.contains('\n') || s3.contains('\n') || oneline.len()
                > width {
                "if "@ + s1 + " {\n"@ + indent_str(ind1 as nat) + s2 + "\n"@ + indent_str(
                    ind as nat,
                ) + "} else {\n"@ + indent_str(ind1 as nat) + s3 + "\n"@ + indent_str(ind as nat)
                    + "}"@
            } else {
                oneline
            }
        }
        TermV::Abstraction(q, x, ty, t1) => {
            let ind1 = inc_indent(ind);
            let s1 = write_term_spec(*t1, ind1, width, false);
            let ts = match ty {
                Some(ty0) => ": "@ + write_type_spec(ty0, false),
                None => Seq::<char>::empty(),
            };
            let head = qualifier_str(q) + "|"@ + x + ts;
            let oneline0 = head + "| "@ + s1;
            let oneline = if nb {
                "("@ + oneline0 + ")"@
            } else {
                oneline0
            };
            if s1.contains('\n') || oneline.len() > width {
                let multi = head + "|\n"@ + indent_str(ind1 as nat) + s1;
                if nb {
                    "("@ + multi + ")"@
                } else {
                    multi
                }
            } else {
                oneline
            }
        }
        TermV::Fix(t1) => "fix "@ + write_term_spec(*t1, ind, width, false),
        TermV::Let(x, t1, t2) => "let "@ + x + " = "@ + write_term_spec(*t1, ind, width, false)
            + " in "@ + write_term_spec(*t2, ind, width, false),
        TermV::Letc(x1, x2, t1, t2) => "let <"@ + x1 + ", "@ + x2 + "> = "@ + write_term_spec(
            *t1,
            ind,
            width,
            false,
        ) + " in "@ + write_term_spec(*t2, ind, width, false),
    }
}

/// Renders terms and types as canonical source text under a line width.
pub struct TermFormatter {
    pub line_width: usize,
}

/// Renders a term under the default line width.
pub fn format_termctx(t: &TermCtx) -> (r: String)
    ensures
        r@ == write_term_spec(t@, 0, DEFAULT_LINE_WIDTH, false),
{
    let formatter = TermFormatter::new(DEFAULT_LINE_WIDTH);
    formatter.format_termctx(t)
}

impl TermFormatter {
    pub fn new(line_width: usize) -> (r: Self)
        ensures
            r.line_width == line_width,
    {
        Self { line_width }
    }

    /// Renders a term as canonical source text.
    pub fn format_termctx(&self, t: &TermCtx) -> (r: String)
        ensures
            r@ == write_term_spec(t@, 0, self.line_width, false),
    {
        self.write_termctx(t, 0, false)
    }

    /// Renders a type as canonical source text.
    pub fn format_type(&self, t: &Type) -> (r: String)
        ensures
            r@ == write_type_spec(*t, false),
    {
        write_type(t, false)
    }

    fn write_qualifer(&self, q: &Qualifier) -> (r: String)
        ensures
            r@ == qualifier_str(*q),
    {
        qualifier_to_string(q)
    }

    fn write_indent(&self, n: usize) -> (r: String)
        ensures
            r@ == indent_str(n as nat),
    {
        let mut s = String::new();
        let mut i: usize = 0;
        while i < n
            invariant
                i <= n,
                s@ == indent_str(i as nat),
            decreases n - i,
        {
            s.append("    ");
            i += 1;
        }
        s
    }

    #[verifier::rlimit(100)]
    #[verifier::spinoff_prover]
    fn write_termctx(&self, t: &TermCtx, ind: usize, nb: bool) -> (r: String)
        ensures
            r@ == write_term_spec(t@, ind, self.line_width, nb),
        decreases *t,
    {
        let TermCtx(_, term) = t;
        match term {
            Term::Variable(v) => v.clone(),
            Term::Boolean(q, b) => {
                let mut s = self.write_qualifer(q);
                if *b {
                    s.append("true");
                } else {
                    s.append("false");
                }
                s
            }
            Term::Integer(q, i) => {
                let mut s = self.write_qualifer(q);
                let digits = crate::digits::i64_to_string(*i);
                s.append(digits.as_str());
                s
            }
            Term::Compound(q, t1, t2) => {
                let s1 = self.write_termctx(t1, ind, false);
                let s2 = self.write_termctx(t2, ind, false);
                let mut s = self.write_qualifer(q);
                s.append("<");
                s.append(s1.as_str());
                s.append(", ");
                s.append(s2.as_str());
                s.append(">");
                s
            }
            Term::Arith1(q, op, t1) => {
                let s1 = self.write_termctx(t1, ind, false);
                let mut s = self.write_qualifer(q);
                match op {
                    ArithOp::Diff => s.append("diff"),
                    ArithOp::IsZero => s.append("iszero"),
                }
                s.append("(");
                s.append(s1.as_str());
                s.append(")");
                s
            }
            Term::Arith2(q, op, t1, t2) => {
                let s1 = self.write_termctx(t1, ind, false);
                let s2 = self.write_termctx(t2, ind, false);
                let mut s = self.write_qualifer(q);
                match op {
                    ArithOp::Diff => s.append("diff"),
                    ArithOp::IsZero => s.append("iszero"),
                }
                s.append("(");
                s.append(s1.as_str());
                s.append(", ");
                s.append(s2.as_str());
                s.append(")");
                s
            }
            Term::Application(t1, t2) => {
                let nb1 = match &(**t1).1 {
                    Term::Abstraction(..) => true,
                    Term::Fix(..) => true,
                    Term::Let(..) => true,
                    Term::Letc(..) => true,
                    _ => false,
                };
                proof {
                    crate::eval::lemma_term_view_variant((**t1).1);
                }
                let s1 = self.write_termctx(t1, ind, nb1);
                let s2 = self.write_termctx(t2, ind, false);
                let mut oneline = s1.clone();
                oneline.append(" (");
                oneline.append(s2.as_str());
                oneline.append(")");
                if contains_char(s1.as_str(), '\n') || contains_char(s2.as_str(), '\n')
                    || oneline.as_str().unicode_len() > self.line_width {
                    let mut s = s1;
                    s.append("\n");
                    let pad = self.write_indent(ind);
                    s.append(pad.as_str());
                    s.append("(");
                    s.append(s2.as_str());
                    s.append(")");
                    s
                } else {
                    oneline
                }
            }
            Term::Conditional(t1, t2, t3) => {
                let ind1 = if ind < usize::MAX {
                    ind + 1
                } else {
                    ind
                };
                let s1 = self.write_termctx(t1, ind1, false);
                let s2 = self.write_termctx(t2, ind1, false);
                let s3 = self.write_termctx(t3, ind1, false);
                let mut oneline = String::new();
                oneline.append("if ");
                oneline.append(s1.as_str());
                oneline.append(" { ");
                oneline.append(s2.as_str());
                oneline.append(" } else { ");
                oneline.append(s3.as_str());
                oneline.append(" }");
                if contains_char(s1.as_str(), '\n') || contains_char(s2.as_str(), '\n')
                    || contains_char(s3.as_str(), '\n') || oneline.as_str().unicode_len()
                    > self.line_width {
                    let pad1 = self.write_indent(ind1);
                    let pad0 = self.write_indent(ind);
                    let mut s = String::new();
                    s.append("if ");
                    s.append(s1.as_str());
                    s.append(" {\n");
                    s.append(pad1.as_str());
                    s.append(s2.as_str());
                    s.append("\n");
                    s.append(pad0.as_str());
                    s.append("} else {\n");
                    s.append(pad1.as_str());
                    s.append(s3.as_str());
                    s.append("\n");
                    s.append(pad0.as_str());
                    s.append("}");
                    s
                } else {
                    oneline
                }
            }
            Term::Abstraction(q, x, ty, t1) => {
                let ind1 = if ind < usize::MAX {
                    ind + 1
                } else {
                    ind
                };
                let s1 = self.write_termctx(t1, ind1, false);
                let mut head = self.write_qualifer(q);
                head.append("|");
                head.append(x.as_str());
                match ty {
                    Some(ty0) => {
                        head.append(": ");
                        let ts = write_type(ty0, false);
                        head.append(ts.as_str());
                    }
                    None => {}
                }
                let mut oneline = head.clone();
                oneline.append("| ");
                oneline.append(s1.as_str());
                let oneline = if nb {
                    let mut b = String::new();
                    b.append("(");
                    b.append(oneline.as_str());
                    b.append(")");
                    b
                } else {
                    oneline
                };
                if contains_char(s1.as_str(), '\n') || oneline.as_str().unicode_len()
                    > self.line_width {
                    let pad1 = self.write_indent(ind1);
                    let mut multi = head;
                    multi.append("|\n");
                    multi.append(pad1.as_str());
                    multi.append(s1.as_str());
                    if nb {
                        let mut b = String::new();
                        b.append("(");
                        b.append(multi.as_str());
                        b.append(")");
                        b
                    } else {
                        multi
                    }
                } else {
                    oneline
                }
            }
            Term::Fix(t1) => {
                let s1 = self.write_termctx(t1, ind, false);
                let mut s = String::new();
                s.append("fix ");
                s.append(s1.as_str());
                s
            }
            Term::Let(x, t1, t2) => {
                let s1 = self.write_termctx(t1, ind, false);
                let s2 = self.write_termctx(t2, ind, false);
                let mut s = String::new();
                s.append("let ");
                s.append(x.as_str());
                s.append(" = ");
                s.append(s1.as_str());
                s.append(" in ");
                s.append(s2.as_str());
                s
            }
            Term::Letc(x1, x2, t1, t2) => {
                let s1 = self.write_termctx(t1, ind, false);
                let s2 = self.write_termctx(t2, ind, false);
                let mut s = String::new();
                s.append("let <");
                s.append(x1.as_str());
                s.append(", ");
                s.append(x2.as_str());
                s.append("> = ");
                s.append(s1.as_str());
                s.append(" in ");
                s.append(s2.as_str());
                s
            }
        }
    }
}

fn write_type(t: &Type, need_bracket: bool) -> (r: String)
    ensures
        r@ == write_type_spec(*t, need_bracket),
    decreases *t,
{
    let Type(q, pt) = t;
    let s: String = match pt {
        Pretype::Boolean => {
            let mut s = String::new();
            s.append("bool");
            s
        }
        Pretype::Integer => {
            let mut s = String::new();
            s.append("int");
            s
        }
        Pretype::Function(t1, t2) => {
            let left_is_arrow = match &**t1 {
                Type(Qualifier::Nop, Pretype::Function(..)) => true,
                _ => false,
            };
            let s1 = write_type(t1, left_is_arrow);
            let s2 = write_type(t2, false);
            let mut s = s1;
            s.append("->");
            s.append(s2.as_str());
            s
        }
        Pretype::Compound(t1, t2) => {
            let s1 = write_type(t1, false);
            let s2 = write_type(t2, false);
            let mut s = String::new();
            s.append("<");
            s.append(s1.as_str());
            s.append(", ");
            s.append(s2.as_str());
            s.append(">");
            s
        }
    };
    let qs = qualifier_to_string(q);
    let is_function = match pt {
        Pretype::Function(..) => true,
        _ => false,
    };
    let mut out = qs;
    if out.as_str().unicode_len() > 0 && is_function {
        let mut b = out;
        b.append("(");
        b.append(s.as_str());
        b.append(")");
        out = b;
    } else {
        out.append(s.as_str());
    }
    if need_bracket {
        let mut b = String::new();
        b.append("(");
        b.append(out.as_str());
        b.append(")");
        b
    } else {
        out
    }
}

fn qualifier_to_string(q: &Qualifier) -> (r: String)
    ensures
        r@ == qualifier_str(*q),
{
    match q {
        Qualifier::Nop => String::new(),
        Qualifier::Linear => {
            let mut s = String::new();
            s.append("$");
            s
        }
    }
}

} // verus!
