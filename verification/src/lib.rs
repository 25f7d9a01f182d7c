//! An interpreter playground for a small functional language with a linear
//! type discipline: a core lambda calculus with booleans, integers,
//! conditionals, pairs, a recursion combinator and two primitive operations,
//! where every value is either unrestricted (freely copied and dropped) or
//! linear (used exactly once).
//!
//! The crate offers four services: parsing source text into a span-annotated
//! term tree, type-checking that tree under the linear discipline,
//! single-step evaluation with an inspectable store, and pretty-printing a
//! tree back to canonical source text.
//!
//! Every source span in this crate is measured in characters of the source
//! text, not bytes: `Context { start, end }` is the half-open interval of
//! character positions, the keys of the checker's span table count
//! characters, and the tagged runs of the `typing` service partition the
//! characters of the reprinted source. On ASCII sources the two measures
//! coincide; a host that indexes by bytes must convert where the source
//! holds multi-byte text.
use vstd::prelude::*;

use crate::syntax::TermCtx;

pub mod assoc;
pub mod digits;
pub mod error;
pub mod eval;
pub mod formatter;
pub mod parser;
pub mod progress;
pub mod strutil;
pub mod syntax;
pub mod typing;

verus! {

/// Parses source text and returns it reformatted in the canonical layout:
/// exactly the canonical rendering of the tree the source parses to, or
/// exactly the parse failure.
pub fn term_lint(program: &str) -> (r: Result<String, error::Error>)
    ensures
        parser::parse_spec(program@) matches Ok(v) ==> r matches Ok(s) && s@
            == formatter::write_term_spec(v, 0, formatter::DEFAULT_LINE_WIDTH, false),
        parser::parse_spec(program@) matches Err(f) ==> r matches Err(e)
            && parser::parse_err_matches(e, f),
{
    match parser::parse_program(program) {
        Ok(tree) => Ok(formatter::format_termctx(&tree)),
        Err(e) => Err(e),
    }
}

/// Type-checks a tree, reprints it canonically, reparses and re-checks the
/// reprint, and tags each run of the reprinted source with its type. The
/// contract follows that pipeline case by case: the tree's own type error;
/// an internal error exactly when the reprint fails to reparse; the
/// reparsed tree's type error; else exactly the runs that sweeping the
/// reparsed tree's reported table over the reprint yields, which carry the
/// whole reprinted source in order.
pub fn typing(term: &TermCtx) -> (r: Result<Vec<typing::TypedTermStr>, error::Error>)
    ensures
        ({
            let reprint = formatter::write_term_spec(
                term@,
                0,
                formatter::DEFAULT_LINE_WIDTH,
                false,
            );
            match typing::type_check_result(term@) {
                Err(f) => r matches Err(e) && typing::check_err_matches(e, f.0),
                Ok(_) => match parser::parse_spec(reprint) {
                    Err(_) => r matches Err(e) && (e matches error::Error::InternalError {
                        message,
                    } && message@ == "reprinted program failed to parse"@),
                    Ok(v) => match typing::type_check_result(v) {
                        Err(f2) => r matches Err(e) && typing::check_err_matches(e, f2.0),
                        Ok(res2) => r matches Ok(tags) && typing::tags_text(tags@) == reprint
                            && typing::tag_views(tags@) == typing::convert_spec(res2.2, reprint),
                    },
                },
            }
        }),
{
    match typing::type_check(term) {
        Ok(_) => {}
        Err(e) => {
            return Err(e);
        }
    }
    let term_s = formatter::format_termctx(term);
    let term2 = match parser::parse_program(term_s.as_str()) {
        Ok(t) => t,
        Err(_) => {
            return Err(
                error::Error::InternalError {
                    message: "reprinted program failed to parse".to_owned(),
                },
            );
        }
    };
    let type_map = match typing::type_check(&term2) {
        Ok(m) => m,
        Err(e) => {
            return Err(e);
        }
    };
    Ok(typing::convert_hashmap_to_vec(&type_map, term_s.as_str()))
}

} // verus!
