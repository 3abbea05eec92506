//! Structured parse errors, mirroring the shape of the generic SQL grammar's
//! error type: a tokenizer error, a parser error, or a recursion-limit
//! failure, each rendered as `sql parser error: <message>`.
use vstd::prelude::*;

verus! {

#[derive(Debug)]
pub enum ParseError {
    TokenizerError(String),
    ParseError(String),
    RecursionLimitExceeded,
}

/// The message text carried by an error.
pub open spec fn spec_error_message(e: &ParseError) -> Seq<char> {
    match e {
        ParseError::TokenizerError(s) => s@,
        ParseError::ParseError(s) => s@,
        ParseError::RecursionLimitExceeded => "recursion limit exceeded"@,
    }
}

/// The rendered form of an error.
pub open spec fn spec_error_string(e: &ParseError) -> Seq<char> {
    "sql parser error: "@ + spec_error_message(e)
}

impl ParseError {
    /// The error's message, without the `sql parser error: ` prefix.
    pub fn message(&self) -> (r: String)
        ensures
            r@ == spec_error_message(self),
    {
        match self {
            ParseError::TokenizerError(s) => s.clone(),
            ParseError::ParseError(s) => s.clone(),
            ParseError::RecursionLimitExceeded => {
                let r = String::from_str("recursion limit exceeded");
                r
            },
        }
    }

    /// The rendered error, in the form `sql parser error: <message>`.
    pub fn to_error_string(&self) -> (r: String)
        ensures
            r@ == spec_error_string(self),
    {
        let mut out = String::from_str("sql parser error: ");
        let msg = self.message();
        out.append(msg.as_str());
        out
    }
}

} // verus!
