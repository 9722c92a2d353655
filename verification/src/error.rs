//! Engine error type and its mapping to the response error taxonomy.

use vstd::prelude::*;

use crate::text::{owned, push_str};

verus! {

/// Errors produced by the flowchart engine.
#[derive(Debug)]
pub enum FlowError {
    NotFound(String),
    Duplicate(String),
    InvalidInput(String),
    Parse(String),
}

/// Error category: something referenced does not exist.
pub const NOT_FOUND: &'static str = "not_found";

/// Error category: an id is already taken.
pub const DUPLICATE: &'static str = "duplicate";

/// Error category: a parameter is malformed.
pub const INVALID_INPUT: &'static str = "invalid_input";

/// Error category: source text could not be parsed.
pub const PARSE_ERROR: &'static str = "parse_error";

/// Error category: reading or writing a file failed.
pub const IO_ERROR: &'static str = "io_error";

/// A structured error answer: category, human message, and a hint.
pub struct ErrorResponse {
    pub category: String,
    pub message: String,
    pub suggestion: String,
}

impl FlowError {
    /// The text carried by the error.
    pub open spec fn detail(self) -> Seq<char> {
        match self {
            FlowError::NotFound(s) => s@,
            FlowError::Duplicate(s) => s@,
            FlowError::InvalidInput(s) => s@,
            FlowError::Parse(s) => s@,
        }
    }

    /// The rendered message: a per-variant prefix followed by the detail.
    pub open spec fn message_spec(self) -> Seq<char> {
        match self {
            FlowError::NotFound(s) => "not found: "@ + s@,
            FlowError::Duplicate(s) => "already exists: "@ + s@,
            FlowError::InvalidInput(s) => "invalid input: "@ + s@,
            FlowError::Parse(s) => "parse error: "@ + s@,
        }
    }

    /// Category and suggestion for the error's variant.
    pub open spec fn classify_spec(self) -> (Seq<char>, Seq<char>) {
        match self {
            FlowError::NotFound(_) => (NOT_FOUND@, "Check the node id, edge index, or handle."@),
            FlowError::Duplicate(_) => (DUPLICATE@, "Use a unique id or update the existing item."@),
            FlowError::InvalidInput(_) => (INVALID_INPUT@, "Check the tool parameters."@),
            FlowError::Parse(_) => (PARSE_ERROR@, "Check the source diagram syntax."@),
        }
    }

    /// The rendered message (`"not found: node 'a'"`, ...).
    pub fn message(&self) -> (r: String)
        ensures
            r@ == self.message_spec(),
    {
        let (prefix, s) = match self {
            FlowError::NotFound(s) => ("not found: ", s),
            FlowError::Duplicate(s) => ("already exists: ", s),
            FlowError::InvalidInput(s) => ("invalid input: ", s),
            FlowError::Parse(s) => ("parse error: ", s),
        };
        let mut out = owned(prefix);
        push_str(&mut out, s.as_str());
        out
    }
}

/// Category and suggestion for an engine error.
pub fn classify(e: &FlowError) -> (r: (&'static str, &'static str))
    ensures
        (r.0@, r.1@) == e.classify_spec(),
{
    match e {
        FlowError::NotFound(_) => (NOT_FOUND, "Check the node id, edge index, or handle."),
        FlowError::Duplicate(_) => (DUPLICATE, "Use a unique id or update the existing item."),
        FlowError::InvalidInput(_) => (INVALID_INPUT, "Check the tool parameters."),
        FlowError::Parse(_) => (PARSE_ERROR, "Check the source diagram syntax."),
    }
}

/// An error answer built from its three parts.
pub fn error_response(category: &str, message: String, suggestion: &str) -> (r: ErrorResponse)
    ensures
        r.category@ == category@,
        r.message@ == message@,
        r.suggestion@ == suggestion@,
{
    ErrorResponse { category: owned(category), message, suggestion: owned(suggestion) }
}

/// Render an engine error as a structured error answer.
pub fn engine_error(e: FlowError) -> (r: ErrorResponse)
    ensures
        r.category@ == e.classify_spec().0,
        r.suggestion@ == e.classify_spec().1,
        r.message@ == e.message_spec(),
{
    let (cat, suggestion) = classify(&e);
    let message = e.message();
    error_response(cat, message, suggestion)
}

/// A `not_found` error answer for an unknown flowchart handle.
pub fn unknown_handle(handle: &str) -> (r: ErrorResponse)
    ensures
        r.category@ == NOT_FOUND@,
        r.message@ == "No flowchart for handle '"@ + handle@ + "'"@,
        r.suggestion@ == "Call create_flowchart or import_mermaid first."@,
{
    let mut message = owned("No flowchart for handle '");
    push_str(&mut message, handle);
    push_str(&mut message, "'");
    error_response(NOT_FOUND, message, "Call create_flowchart or import_mermaid first.")
}

/// `<kind> '<id>'`, the detail of most engine errors.
pub open spec fn quoted(kind: Seq<char>, id: Seq<char>) -> Seq<char> {
    kind + " '"@ + id + "'"@
}

/// Build `<kind> '<id>'`.
pub fn quoted_name(kind: &str, id: &str) -> (r: String)
    ensures
        r@ == quoted(kind@, id@),
{
    let mut s = owned(kind);
    push_str(&mut s, " '");
    push_str(&mut s, id);
    push_str(&mut s, "'");
    s
}

} // verus!

verus! {

/// `r` failed with `NotFound` carrying detail `m`.
pub open spec fn is_not_found<T>(r: Result<T, FlowError>, m: Seq<char>) -> bool {
    match r {
        Err(FlowError::NotFound(s)) => s@ == m,
        _ => false,
    }
}

/// `r` failed with `Duplicate` carrying detail `m`.
pub open spec fn is_duplicate<T>(r: Result<T, FlowError>, m: Seq<char>) -> bool {
    match r {
        Err(FlowError::Duplicate(s)) => s@ == m,
        _ => false,
    }
}

/// `r` failed with `InvalidInput` carrying detail `m`.
pub open spec fn is_invalid<T>(r: Result<T, FlowError>, m: Seq<char>) -> bool {
    match r {
        Err(FlowError::InvalidInput(s)) => s@ == m,
        _ => false,
    }
}

/// `r` failed with `Parse` carrying detail `m`.
pub open spec fn is_parse_error<T>(r: Result<T, FlowError>, m: Seq<char>) -> bool {
    match r {
        Err(FlowError::Parse(s)) => s@ == m,
        _ => false,
    }
}

} // verus!
