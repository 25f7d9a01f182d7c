//! The failures an operation can report. Errors are plain data: a message
//! and, where one exists, the source range it concerns. They end the
//! operation that raised them; there is no recovery or chaining.
use vstd::prelude::*;

verus! {

/// One structured error per failed operation.
#[derive(Debug)]
pub enum Error {
    /// The source text does not follow the grammar.
    ParseError { message: String, start: usize, end: usize },
    /// A reduction step failed at run time; `source` renders the span of
    /// the offending subterm.
    EvaluateError { message: String, source: String },
    /// The tree breaks the typing rules or the linear discipline.
    TypeError { message: String, start: usize, end: usize },
    /// The input decoded under none of the accepted forms.
    InternalError { message: String },
}

} // verus!
