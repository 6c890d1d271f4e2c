//! The recursive descent parser: its state and the token-level helpers
//! that the readers of each syntactic category share.
use vstd::prelude::*;
use crate::lexer::token_types::{Token, TokenType};
use crate::parser::error::{SyntaxError, SyntaxErrorV};
use crate::parser::grammar::{check, check_kw, consume, consume_kw, error_at, peek, rem, sp_program, tokens_ok};
use crate::parser::parse_tree::{Program, ProgramHeader};
use crate::text::{lowercase_of, str_eq, string_of, to_lowercase};

verus! {

/// A parser over a token sequence that ends with `Eof`, and the position
/// of the next token to read.
pub struct PascalParser {
    pub tokens: Vec<Token>,
    pub current: usize,
}

/// A token read or an error, as a value.
pub open spec fn token_result(r: Result<Token, SyntaxError>) -> Result<Token, SyntaxErrorV> {
    match r {
        Ok(t) => Ok(t),
        Err(e) => Err(e@),
    }
}

/// A tree read or an error, as a value.
pub open spec fn tree_result<X: View>(r: Result<X, SyntaxError>) -> Result<X::V, SyntaxErrorV> {
    match r {
        Ok(x) => Ok(x@),
        Err(e) => Err(e@),
    }
}

impl PascalParser {
    /// A parser at the first of `tokens`.
    pub fn new(tokens: Vec<Token>) -> (r: PascalParser)
        ensures
            r.tokens == tokens,
            r.current == 0,
    {
        PascalParser { tokens, current: 0 }
    }

    /// The tokens end with `Eof` and the position is one of them.
    pub open spec fn wf(&self) -> bool {
        &&& tokens_ok(self.tokens@)
        &&& self.current < self.tokens@.len()
    }

    /// The tokens as a sequence.
    pub open spec fn toks(&self) -> Seq<Token> {
        self.tokens@
    }

    /// The parser moved on from `old` without changing its tokens.
    pub open spec fn moved_from(&self, old: &PascalParser) -> bool {
        &&& self.wf()
        &&& self.tokens == old.tokens
        &&& old.current <= self.current
    }

    /// The next token.
    pub fn peek(&self) -> (r: &Token)
        requires
            self.wf(),
        ensures
            *r == peek(self.toks(), self.current as int),
            *r == self.toks()[self.current as int],
    {
        &self.tokens[self.current]
    }

    /// Whether the next token is the final `Eof`.
    pub fn is_at_end(&self) -> (r: bool)
        requires
            self.wf(),
        ensures
            r == (self.toks()[self.current as int].token_type == TokenType::Eof),
    {
        self.peek().token_type == TokenType::Eof
    }

    /// Moves past the next token and gives it; at an `Eof` it stays there
    /// and gives the token before it.
    pub fn advance(&mut self) -> (r: Token)
        requires
            old(self).wf(),
            old(self).toks()[old(self).current as int].token_type != TokenType::Eof || old(self).current > 0,
        ensures
            final(self).wf(),
            final(self).tokens == old(self).tokens,
            old(self).toks()[old(self).current as int].token_type != TokenType::Eof ==> {
                &&& final(self).current == old(self).current + 1
                &&& r == old(self).toks()[old(self).current as int]
            },
            old(self).toks()[old(self).current as int].token_type == TokenType::Eof ==> {
                &&& final(self).current == old(self).current
                &&& r == old(self).toks()[old(self).current - 1]
            },
    {
        proof { assert(self.tokens.len() == self.tokens@.len()); }
        if !self.is_at_end() {
            self.current += 1;
        }
        self.tokens[self.current - 1].duplicate()
    }

    /// Whether the next token is of kind `token_type` (never at the end).
    pub fn check(&self, token_type: TokenType) -> (r: bool)
        requires
            self.wf(),
        ensures
            r == check(self.toks(), self.current as int, token_type),
    {
        if self.is_at_end() {
            return false;
        }
        self.peek().token_type == token_type
    }

    /// Reads the next token if it is of one of the kinds, in order.
    pub fn match_token(&mut self, types: &[TokenType]) -> (r: bool)
        requires
            old(self).wf(),
        ensures
            final(self).tokens == old(self).tokens,
            final(self).wf(),
            r == (exists|i: int| 0 <= i < types@.len() && #[trigger] check(old(self).toks(), old(self).current as int, types@[i])),
            final(self).current == if r { old(self).current + 1 } else { old(self).current as int },
    {
        let mut i: usize = 0;
        while i < types.len()
            invariant
                self.wf(),
                self.tokens == old(self).tokens,
                self.current == old(self).current,
                i <= types@.len(),
                forall|j: int| 0 <= j < i ==> !check(old(self).toks(), old(self).current as int, #[trigger] types@[j]),
            decreases types@.len() - i,
        {
            if self.check(types[i]) {
                self.advance();
                return true;
            }
            i += 1;
        }
        false
    }

    /// An error with `message` at the next token.
    pub fn error(&self, message: &str) -> (r: SyntaxError)
        requires
            self.wf(),
        ensures
            r@ == error_at(self.toks(), self.current as int, message@),
    {
        let token = self.peek();
        SyntaxError::new(string_of(message), token.line, token.column)
    }

    /// Whether the next token is the keyword `value` (`value` in lower case).
    pub fn check_keyword(&self, value: &str) -> (r: bool)
        requires
            self.wf(),
        ensures
            r == check_kw(self.toks(), self.current as int, value@),
    {
        if !self.check(TokenType::Keyword) {
            return false;
        }
        let lower = to_lowercase(self.peek().value.as_str());
        str_eq(lower.as_str(), value)
    }

    /// Reads the next token if it is one of the keywords, in order.
    pub fn match_keyword(&mut self, values: &[&str]) -> (r: bool)
        requires
            old(self).wf(),
        ensures
            final(self).tokens == old(self).tokens,
            final(self).wf(),
            r == (exists|i: int| 0 <= i < values@.len() && #[trigger] check_kw(old(self).toks(), old(self).current as int, values@[i]@)),
            final(self).current == if r { old(self).current + 1 } else { old(self).current as int },
    {
        let mut i: usize = 0;
        while i < values.len()
            invariant
                self.wf(),
                self.tokens == old(self).tokens,
                self.current == old(self).current,
                i <= values@.len(),
                forall|j: int| 0 <= j < i ==> !check_kw(old(self).toks(), old(self).current as int, #[trigger] values@[j]@),
            decreases values@.len() - i,
        {
            if self.check_keyword(values[i]) {
                self.advance();
                return true;
            }
            i += 1;
        }
        false
    }

    /// Reads the keyword `value`, or fails with `message`.
    pub fn consume_keyword(&mut self, value: &str, message: &str) -> (r: Result<Token, SyntaxError>)
        requires
            old(self).wf(),
        ensures
            final(self).moved_from(old(self)),
            (final(self).current as int, token_result(r)) == consume_kw(old(self).toks(), old(self).current as int, value@, message@),
    {
        if self.check_keyword(value) {
            Ok(self.advance())
        } else {
            Err(self.error(message))
        }
    }

    /// Reads a token of kind `token_type`, or fails with `message`.
    pub fn consume_token(&mut self, token_type: TokenType, message: &str) -> (r: Result<Token, SyntaxError>)
        requires
            old(self).wf(),
        ensures
            final(self).moved_from(old(self)),
            (final(self).current as int, token_result(r)) == consume(old(self).toks(), old(self).current as int, token_type, message@),
    {
        if self.check(token_type) {
            Ok(self.advance())
        } else {
            Err(self.error(message))
        }
    }
}

impl PascalParser {
    /// Reads a whole program from the first token: exactly the reading
    /// that the grammar gives from the current position.
    pub fn parse(&mut self) -> (r: Result<Program, SyntaxError>)
        requires
            tokens_ok(old(self).toks()),
            old(self).current < old(self).toks().len(),
        ensures
            final(self).moved_from(old(self)),
            (final(self).current as int, tree_result(r)) == sp_program(old(self).toks(), old(self).current as int),
    {
        self.parse_program()
    }

    /// `program ID ; declarations compound .`
    #[verifier::spinoff_prover]
    #[verifier::rlimit(50)]
    fn parse_program(&mut self) -> (r: Result<Program, SyntaxError>)
        requires
            old(self).wf(),
        ensures
            final(self).moved_from(old(self)),
            (final(self).current as int, tree_result(r)) == sp_program(old(self).toks(), old(self).current as int),
    {
        let program_kw = match self.consume_keyword("program", "Mengharapkan keyword 'program'.") {
            Ok(t) => t,
            Err(e) => return Err(e),
        };
        let name = match self.consume_token(TokenType::Identifier, "Mengharapkan nama program.") {
            Ok(t) => t,
            Err(e) => return Err(e),
        };
        let semicolon = match self.consume_token(TokenType::Semicolon, "Mengharapkan ';' setelah nama program.") {
            Ok(t) => t,
            Err(e) => return Err(e),
        };
        let declarations = match self.parse_declaration_part() {
            Ok(d) => d,
            Err(e) => return Err(e),
        };
        let body = match self.parse_compound_statement() {
            Ok(b) => b,
            Err(e) => return Err(e),
        };
        let dot = match self.consume_token(TokenType::Dot, "Mengharapkan '.' di akhir program.") {
            Ok(t) => t,
            Err(e) => return Err(e),
        };
        Ok(Program { header: ProgramHeader { program_kw, name, semicolon }, declarations, body, dot })
    }
}

} // verus!
