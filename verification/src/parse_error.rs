//! Errors of the parse and prepare stages, as delivered to the
//! embedder.

use vstd::prelude::*;

verus! {

/// Why a program could not be parsed or prepared.
#[derive(Clone, Debug)]
pub enum ParseError {
    /// A construct the implementation does not cover yet.
    Todo(String),
    /// The parser rejected the source text.
    Parsing(String),
    /// Evaluation ahead of time rejected the program.
    PreEval(String),
    /// An implementer bug in the parse or prepare stage.
    Internal(String),
}

/// The display text of a parse error.
pub open spec fn spec_parse_error_text(e: ParseError) -> Seq<char> {
    match e {
        ParseError::Todo(s) => "TODO: "@ + s@,
        ParseError::Parsing(s) => "Error parsing AST: "@ + s@,
        ParseError::PreEval(s) => "Pre eval error: "@ + s@,
        ParseError::Internal(s) => "Internal parsing error: "@ + s@,
    }
}

impl ParseError {
    /// Wraps a message from evaluation ahead of time.
    pub fn pre_eval(exception: String) -> (r: ParseError)
        ensures
            r matches ParseError::PreEval(s) && s@ == exception@,
    {
        ParseError::PreEval(exception)
    }

    /// The display text of the error.
    pub fn message(&self) -> (out: String)
        ensures
            out@ == spec_parse_error_text(*self),
    {
        let mut out = String::new();
        match self {
            ParseError::Todo(s) => {
                out.append("TODO: ");
                out.append(s.as_str());
            },
            ParseError::Parsing(s) => {
                out.append("Error parsing AST: ");
                out.append(s.as_str());
            },
            ParseError::PreEval(s) => {
                out.append("Pre eval error: ");
                out.append(s.as_str());
            },
            ParseError::Internal(s) => {
                out.append("Internal parsing error: ");
                out.append(s.as_str());
            },
        }
        out
    }
}

} // verus!
