//! Token kinds and tokens produced by the lexer.
use vstd::prelude::*;
use crate::text::{str_eq, string_of};

verus! {

/// The kind of a lexical token.
#[derive(Debug, Clone, Copy, PartialEq, Eq, Structural)]
pub enum TokenType {
    Keyword,
    Identifier,
    ArithmeticOperator,
    RelationalOperator,
    LogicalOperator,
    AssignOperator,
    RangeOperator,
    Number,
    CharLiteral,
    StringLiteral,
    IntegerLiteral,
    RealLiteral,
    Semicolon,
    Comma,
    Colon,
    Dot,
    LParenthesis,
    RParenthesis,
    LBracket,
    RBracket,
    CommentStart,
    CommentEnd,
    Eof,
    Unknown,
}

/// The token kind that a DFA configuration names by `s`; names that are
/// not kinds of the configuration give `Unknown`.
pub open spec fn token_type_named(s: Seq<char>) -> TokenType {
    if s == "Identifier"@ {
        TokenType::Identifier
    } else if s == "IntegerLiteral"@ {
        TokenType::IntegerLiteral
    } else if s == "RealLiteral"@ {
        TokenType::RealLiteral
    } else if s == "StringLiteral"@ {
        TokenType::StringLiteral
    } else if s == "CharLiteral"@ {
        TokenType::CharLiteral
    } else if s == "Semicolon"@ {
        TokenType::Semicolon
    } else if s == "Comma"@ {
        TokenType::Comma
    } else if s == "LParenthesis"@ {
        TokenType::LParenthesis
    } else if s == "RParenthesis"@ {
        TokenType::RParenthesis
    } else if s == "LBracket"@ {
        TokenType::LBracket
    } else if s == "RBracket"@ {
        TokenType::RBracket
    } else if s == "ArithmeticOperator"@ {
        TokenType::ArithmeticOperator
    } else if s == "RelationalOperator"@ {
        TokenType::RelationalOperator
    } else if s == "LogicalOperator"@ {
        TokenType::LogicalOperator
    } else if s == "AssignOperator"@ {
        TokenType::AssignOperator
    } else if s == "RangeOperator"@ {
        TokenType::RangeOperator
    } else if s == "Colon"@ {
        TokenType::Colon
    } else if s == "Dot"@ {
        TokenType::Dot
    } else if s == "Keyword"@ {
        TokenType::Keyword
    } else if s == "CommentStart"@ {
        TokenType::CommentStart
    } else if s == "CommentEnd"@ {
        TokenType::CommentEnd
    } else {
        TokenType::Unknown
    }
}


/// The name of a token kind as written in a DFA configuration: the
/// variant's own name.
pub open spec fn token_type_name(t: TokenType) -> Seq<char> {
    match t {
        TokenType::Keyword => "Keyword"@,
        TokenType::Identifier => "Identifier"@,
        TokenType::ArithmeticOperator => "ArithmeticOperator"@,
        TokenType::RelationalOperator => "RelationalOperator"@,
        TokenType::LogicalOperator => "LogicalOperator"@,
        TokenType::AssignOperator => "AssignOperator"@,
        TokenType::RangeOperator => "RangeOperator"@,
        TokenType::Number => "Number"@,
        TokenType::CharLiteral => "CharLiteral"@,
        TokenType::StringLiteral => "StringLiteral"@,
        TokenType::IntegerLiteral => "IntegerLiteral"@,
        TokenType::RealLiteral => "RealLiteral"@,
        TokenType::Semicolon => "Semicolon"@,
        TokenType::Comma => "Comma"@,
        TokenType::Colon => "Colon"@,
        TokenType::Dot => "Dot"@,
        TokenType::LParenthesis => "LParenthesis"@,
        TokenType::RParenthesis => "RParenthesis"@,
        TokenType::LBracket => "LBracket"@,
        TokenType::RBracket => "RBracket"@,
        TokenType::CommentStart => "CommentStart"@,
        TokenType::CommentEnd => "CommentEnd"@,
        TokenType::Eof => "Eof"@,
        TokenType::Unknown => "Unknown"@,
    }
}

/// Every kind but `Number` and `Eof` is read back from its own name
/// (`Unknown` through the fallback).
#[verifier::spinoff_prover]
#[verifier::rlimit(50)]
pub proof fn law_token_type_name_round_trip(t: TokenType)
    requires
        t != TokenType::Number,
        t != TokenType::Eof,
    ensures
        token_type_named(token_type_name(t)) == t,
{
    reveal_strlit("Keyword");
    reveal_strlit("Identifier");
    reveal_strlit("ArithmeticOperator");
    reveal_strlit("RelationalOperator");
    reveal_strlit("LogicalOperator");
    reveal_strlit("AssignOperator");
    reveal_strlit("RangeOperator");
    reveal_strlit("Number");
    reveal_strlit("CharLiteral");
    reveal_strlit("StringLiteral");
    reveal_strlit("IntegerLiteral");
    reveal_strlit("RealLiteral");
    reveal_strlit("Semicolon");
    reveal_strlit("Comma");
    reveal_strlit("Colon");
    reveal_strlit("Dot");
    reveal_strlit("LParenthesis");
    reveal_strlit("RParenthesis");
    reveal_strlit("LBracket");
    reveal_strlit("RBracket");
    reveal_strlit("CommentStart");
    reveal_strlit("CommentEnd");
    reveal_strlit("Eof");
    reveal_strlit("Unknown");
    match t {
        TokenType::Keyword => {
            assert(token_type_name(t) =~= seq!['K', 'e', 'y', 'w', 'o', 'r', 'd']);
        },
        TokenType::Identifier => {
            assert(token_type_name(t) =~= seq!['I', 'd', 'e', 'n', 't', 'i', 'f', 'i', 'e', 'r']);
        },
        TokenType::ArithmeticOperator => {
            assert(token_type_name(t) =~= seq!['A', 'r', 'i', 't', 'h', 'm', 'e', 't', 'i', 'c', 'O', 'p', 'e', 'r', 'a', 't', 'o', 'r']);
        },
        TokenType::RelationalOperator => {
            assert(token_type_name(t) =~= seq!['R', 'e', 'l', 'a', 't', 'i', 'o', 'n', 'a', 'l', 'O', 'p', 'e', 'r', 'a', 't', 'o', 'r']);
        },
        TokenType::LogicalOperator => {
            assert(token_type_name(t) =~= seq!['L', 'o', 'g', 'i', 'c', 'a', 'l', 'O', 'p', 'e', 'r', 'a', 't', 'o', 'r']);
        },
        TokenType::AssignOperator => {
            assert(token_type_name(t) =~= seq!['A', 's', 's', 'i', 'g', 'n', 'O', 'p', 'e', 'r', 'a', 't', 'o', 'r']);
        },
        TokenType::RangeOperator => {
            assert(token_type_name(t) =~= seq!['R', 'a', 'n', 'g', 'e', 'O', 'p', 'e', 'r', 'a', 't', 'o', 'r']);
        },
        TokenType::Number => {},
        TokenType::CharLiteral => {
            assert(token_type_name(t) =~= seq!['C', 'h', 'a', 'r', 'L', 'i', 't', 'e', 'r', 'a', 'l']);
        },
        TokenType::StringLiteral => {
            assert(token_type_name(t) =~= seq!['S', 't', 'r', 'i', 'n', 'g', 'L', 'i', 't', 'e', 'r', 'a', 'l']);
        },
        TokenType::IntegerLiteral => {
            assert(token_type_name(t) =~= seq!['I', 'n', 't', 'e', 'g', 'e', 'r', 'L', 'i', 't', 'e', 'r', 'a', 'l']);
        },
        TokenType::RealLiteral => {
            assert(token_type_name(t) =~= seq!['R', 'e', 'a', 'l', 'L', 'i', 't', 'e', 'r', 'a', 'l']);
        },
        TokenType::Semicolon => {
            assert(token_type_name(t) =~= seq!['S', 'e', 'm', 'i', 'c', 'o', 'l', 'o', 'n']);
        },
        TokenType::Comma => {
            assert(token_type_name(t) =~= seq!['C', 'o', 'm', 'm', 'a']);
        },
        TokenType::Colon => {
            assert(token_type_name(t) =~= seq!['C', 'o', 'l', 'o', 'n']);
        },
        TokenType::Dot => {
            assert(token_type_name(t) =~= seq!['D', 'o', 't']);
        },
        TokenType::LParenthesis => {
            assert(token_type_name(t) =~= seq!['L', 'P', 'a', 'r', 'e', 'n', 't', 'h', 'e', 's', 'i', 's']);
        },
        TokenType::RParenthesis => {
            assert(token_type_name(t) =~= seq!['R', 'P', 'a', 'r', 'e', 'n', 't', 'h', 'e', 's', 'i', 's']);
        },
        TokenType::LBracket => {
            assert(token_type_name(t) =~= seq!['L', 'B', 'r', 'a', 'c', 'k', 'e', 't']);
        },
        TokenType::RBracket => {
            assert(token_type_name(t) =~= seq!['R', 'B', 'r', 'a', 'c', 'k', 'e', 't']);
        },
        TokenType::CommentStart => {
            assert(token_type_name(t) =~= seq!['C', 'o', 'm', 'm', 'e', 'n', 't', 'S', 't', 'a', 'r', 't']);
        },
        TokenType::CommentEnd => {
            assert(token_type_name(t) =~= seq!['C', 'o', 'm', 'm', 'e', 'n', 't', 'E', 'n', 'd']);
        },
        TokenType::Eof => {},
        TokenType::Unknown => {
            assert(token_type_name(t) =~= seq!['U', 'n', 'k', 'n', 'o', 'w', 'n']);
        },
    }
}

/// The upper-case display name of a token kind.
pub open spec fn token_type_display(t: TokenType) -> Seq<char> {
    match t {
        TokenType::Keyword => "KEYWORD"@,
        TokenType::Identifier => "IDENTIFIER"@,
        TokenType::ArithmeticOperator => "ARITHMETIC_OPERATOR"@,
        TokenType::RelationalOperator => "RELATIONAL_OPERATOR"@,
        TokenType::LogicalOperator => "LOGICAL_OPERATOR"@,
        TokenType::AssignOperator => "ASSIGN_OPERATOR"@,
        TokenType::RangeOperator => "RANGE_OPERATOR"@,
        TokenType::Number => "NUMBER"@,
        TokenType::CharLiteral => "CHAR_LITERAL"@,
        TokenType::StringLiteral => "STRING_LITERAL"@,
        TokenType::IntegerLiteral => "INT_LITERAL"@,
        TokenType::RealLiteral => "REAL_LITERAL"@,
        TokenType::Semicolon => "SEMICOLON"@,
        TokenType::Comma => "COMMA"@,
        TokenType::Colon => "COLON"@,
        TokenType::Dot => "DOT"@,
        TokenType::LParenthesis => "LPARENTHESIS"@,
        TokenType::RParenthesis => "RPARENTHESIS"@,
        TokenType::LBracket => "LBRACKET"@,
        TokenType::RBracket => "RBRACKET"@,
        TokenType::CommentStart => "COMMENT_START"@,
        TokenType::CommentEnd => "COMMENT_END"@,
        TokenType::Eof => "EOF"@,
        TokenType::Unknown => "UNKNOWN"@,
    }
}

impl TokenType {
    /// Maps a token-kind name of the DFA configuration to its kind.
    pub fn from_string(s: &str) -> (r: TokenType)
        ensures
            r == token_type_named(s@),
    {
        if str_eq(s, "Identifier") {
            TokenType::Identifier
        } else if str_eq(s, "IntegerLiteral") {
            TokenType::IntegerLiteral
        } else if str_eq(s, "RealLiteral") {
            TokenType::RealLiteral
        } else if str_eq(s, "StringLiteral") {
            TokenType::StringLiteral
        } else if str_eq(s, "CharLiteral") {
            TokenType::CharLiteral
        } else if str_eq(s, "Semicolon") {
            TokenType::Semicolon
        } else if str_eq(s, "Comma") {
            TokenType::Comma
        } else if str_eq(s, "LParenthesis") {
            TokenType::LParenthesis
        } else if str_eq(s, "RParenthesis") {
            TokenType::RParenthesis
        } else if str_eq(s, "LBracket") {
            TokenType::LBracket
        } else if str_eq(s, "RBracket") {
            TokenType::RBracket
        } else if str_eq(s, "ArithmeticOperator") {
            TokenType::ArithmeticOperator
        } else if str_eq(s, "RelationalOperator") {
            TokenType::RelationalOperator
        } else if str_eq(s, "LogicalOperator") {
            TokenType::LogicalOperator
        } else if str_eq(s, "AssignOperator") {
            TokenType::AssignOperator
        } else if str_eq(s, "RangeOperator") {
            TokenType::RangeOperator
        } else if str_eq(s, "Colon") {
            TokenType::Colon
        } else if str_eq(s, "Dot") {
            TokenType::Dot
        } else if str_eq(s, "Keyword") {
            TokenType::Keyword
        } else if str_eq(s, "CommentStart") {
            TokenType::CommentStart
        } else if str_eq(s, "CommentEnd") {
            TokenType::CommentEnd
        } else {
            TokenType::Unknown
        }
    }

    /// The display name of this kind, such as `KEYWORD` or `INT_LITERAL`.
    pub fn to_string(&self) -> (r: String)
        ensures
            r@ == token_type_display(*self),
    {
        match self {
            TokenType::Keyword => string_of("KEYWORD"),
            TokenType::Identifier => string_of("IDENTIFIER"),
            TokenType::ArithmeticOperator => string_of("ARITHMETIC_OPERATOR"),
            TokenType::RelationalOperator => string_of("RELATIONAL_OPERATOR"),
            TokenType::LogicalOperator => string_of("LOGICAL_OPERATOR"),
            TokenType::AssignOperator => string_of("ASSIGN_OPERATOR"),
            TokenType::RangeOperator => string_of("RANGE_OPERATOR"),
            TokenType::Number => string_of("NUMBER"),
            TokenType::CharLiteral => string_of("CHAR_LITERAL"),
            TokenType::StringLiteral => string_of("STRING_LITERAL"),
            TokenType::IntegerLiteral => string_of("INT_LITERAL"),
            TokenType::RealLiteral => string_of("REAL_LITERAL"),
            TokenType::Semicolon => string_of("SEMICOLON"),
            TokenType::Comma => string_of("COMMA"),
            TokenType::Colon => string_of("COLON"),
            TokenType::Dot => string_of("DOT"),
            TokenType::LParenthesis => string_of("LPARENTHESIS"),
            TokenType::RParenthesis => string_of("RPARENTHESIS"),
            TokenType::LBracket => string_of("LBRACKET"),
            TokenType::RBracket => string_of("RBRACKET"),
            TokenType::CommentStart => string_of("COMMENT_START"),
            TokenType::CommentEnd => string_of("COMMENT_END"),
            TokenType::Eof => string_of("EOF"),
            TokenType::Unknown => string_of("UNKNOWN"),
        }
    }
}

/// A token with its text and the line and column where it starts.
#[derive(Debug, Clone, PartialEq)]
pub struct Token {
    pub token_type: TokenType,
    pub value: String,
    pub line: usize,
    pub column: usize,
}

/// The mathematical value of a token: its kind, its text as characters,
/// and its starting line and column.
pub struct TokenView {
    pub token_type: TokenType,
    pub value: Seq<char>,
    pub line: nat,
    pub column: nat,
}

impl View for Token {
    type V = TokenView;

    open spec fn view(&self) -> TokenView {
        TokenView {
            token_type: self.token_type,
            value: self.value@,
            line: self.line as nat,
            column: self.column as nat,
        }
    }
}

/// The display form of a token: its kind's name, then its text in
/// parentheses, as in `IDENTIFIER(main)`.
pub open spec fn token_display(t: Token) -> Seq<char> {
    token_type_display(t.token_type) + "("@ + t.value@ + ")"@
}

impl Token {
    pub fn new(token_type: TokenType, value: String, line: usize, column: usize) -> (r: Token)
        ensures
            r == (Token { token_type, value, line, column }),
    {
        Token { token_type, value, line, column }
    }

    /// A copy of this token, equal to it field by field.
    pub fn duplicate(&self) -> (r: Token)
        ensures
            r == *self,
    {
        Token {
            token_type: self.token_type,
            value: self.value.clone(),
            line: self.line,
            column: self.column,
        }
    }

    /// The display form `KIND(text)`.
    pub fn to_string(&self) -> (r: String)
        ensures
            r@ == token_display(*self),
    {
        let mut s = self.token_type.to_string();
        s.append("(");
        s.append(self.value.as_str());
        s.append(")");
        s
    }
}

} // verus!
