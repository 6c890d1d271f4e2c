//! Syntax errors: a message and the position of the token it is about.
use vstd::prelude::*;
use crate::text::{string_of, usize_to_string, decimal};

verus! {

/// A syntax error with the position of the offending token.
#[derive(Debug)]
pub struct SyntaxError {
    pub message: String,
    pub line: usize,
    pub column: usize,
}

/// A syntax error as a value.
pub struct SyntaxErrorV {
    pub message: Seq<char>,
    pub line: nat,
    pub column: nat,
}

impl View for SyntaxError {
    type V = SyntaxErrorV;

    open spec fn view(&self) -> SyntaxErrorV {
        SyntaxErrorV { message: self.message@, line: self.line as nat, column: self.column as nat }
    }
}

/// The display form of a syntax error: `SyntaxError at L:C: message`.
pub open spec fn syntax_error_display(e: SyntaxErrorV) -> Seq<char> {
    "SyntaxError at "@ + decimal(e.line) + ":"@ + decimal(e.column) + ": "@ + e.message
}

impl SyntaxError {
    /// An error with the given message at a position.
    pub fn new(message: String, line: usize, column: usize) -> (r: SyntaxError)
        ensures
            r@ == (SyntaxErrorV { message: message@, line: line as nat, column: column as nat }),
    {
        SyntaxError { message, line, column }
    }

    /// The display form of this error.
    pub fn to_string(&self) -> (r: String)
        ensures
            r@ == syntax_error_display(self@),
    {
        let mut s = string_of("SyntaxError at ");
        let l = usize_to_string(self.line);
        s.append(l.as_str());
        s.append(":");
        let c = usize_to_string(self.column);
        s.append(c.as_str());
        s.append(": ");
        s.append(self.message.as_str());
        s
    }
}

} // verus!
