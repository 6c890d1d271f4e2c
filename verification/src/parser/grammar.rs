//! The Pascal-S grammar as the parser reads it: for each syntactic
//! category, the position reached and the tree built (or the error met)
//! when reading it from a position of a token sequence. The parser's
//! functions are proved to compute exactly these.
//!
//! Positions that a sub-reading gives back are taken no lower than the
//! position it is known to reach on success (`from`); the parser never
//! moves backwards, so this changes nothing and keeps every reading
//! finite.
use vstd::prelude::*;
use crate::lexer::token_types::{Token, TokenType};
use crate::parser::error::SyntaxErrorV;
use crate::parser::parse_tree::{
    ArrayTypeV, ConstantDeclarationV, ConstantDefinitionV, DeclarationPartV, FormalParameterGroupV, FormalParameterListV,
    FunctionDeclarationV, IdentifierListV, ProcedureDeclarationV, ProgramHeaderV, ProgramV, RangeV, SubprogramDeclarationV,
    TypeDeclarationV, TypeDefinitionV, TypeV, VariableDeclarationV, VariableGroupV,
    AssignmentStatementV, CaseBranchV, CaseElseClauseV, CaseLabelListV, CaseStatementV, CompoundStatementV, ElseClauseV,
    ForStatementV, IfStatementV, ProcedureCallStatementV, RepeatStatementV, StatementListV, StatementV, WhileStatementV,
    ActualParameterListV, ArithmeticUnaryFactorV, ArrayAccessV, ExpressionV, FactorV, FunctionCallNodeV, LiteralValueV,
    NotFactorV, ParenthesizedExpressionV, SimpleExpressionV, TermV,
};
use crate::text::lowercase_of;

verus! {

/// A token sequence the parser can read: it ends with `Eof`.
pub open spec fn tokens_ok(t: Seq<Token>) -> bool {
    t.len() > 0 && t.last().token_type == TokenType::Eof
}

/// How many tokens are left from `pos`.
pub open spec fn rem(t: Seq<Token>, pos: int) -> nat {
    if pos >= t.len() {
        0
    } else if pos < 0 {
        t.len()
    } else {
        (t.len() - pos) as nat
    }
}

/// `p`, or `lo` if `p` is below it.
pub open spec fn from(p: int, lo: int) -> int {
    if p < lo { lo } else { p }
}

/// The token at `pos`; past the end, the last one.
pub open spec fn peek(t: Seq<Token>, pos: int) -> Token {
    if 0 <= pos < t.len() { t[pos] } else { t[t.len() - 1] }
}

/// The token at `pos` is of kind `tt` and is not the final `Eof`.
pub open spec fn check(t: Seq<Token>, pos: int, tt: TokenType) -> bool {
    0 <= pos && pos + 1 < t.len() && t[pos].token_type == tt && tt != TokenType::Eof
}

/// The token at `pos` is the keyword `v`, in any case.
pub open spec fn check_kw(t: Seq<Token>, pos: int, v: Seq<char>) -> bool {
    check(t, pos, TokenType::Keyword) && lowercase_of(t[pos].value@) == v
}

/// An error with message `msg` at the token at `pos`.
pub open spec fn error_at(t: Seq<Token>, pos: int, msg: Seq<char>) -> SyntaxErrorV {
    SyntaxErrorV { message: msg, line: peek(t, pos).line as nat, column: peek(t, pos).column as nat }
}

/// Reading a token of kind `tt`.
pub open spec fn consume(t: Seq<Token>, pos: int, tt: TokenType, msg: Seq<char>) -> (int, Result<Token, SyntaxErrorV>) {
    if check(t, pos, tt) { (pos + 1, Ok(t[pos])) } else { (pos, Err(error_at(t, pos, msg))) }
}

/// Reading the keyword `v`.
pub open spec fn consume_kw(t: Seq<Token>, pos: int, v: Seq<char>, msg: Seq<char>) -> (int, Result<Token, SyntaxErrorV>) {
    if check_kw(t, pos, v) { (pos + 1, Ok(t[pos])) } else { (pos, Err(error_at(t, pos, msg))) }
}

/// The factor wrapped as an expression with no operators.
pub open spec fn factor_to_expression(f: FactorV) -> ExpressionV {
    ExpressionV {
        initial_simple_expr: Box::new(SimpleExpressionV {
            initial_term: Box::new(TermV { initial_factor: Box::new(f), rest: Seq::empty() }),
            rest: Seq::empty(),
        }),
        rest: Seq::empty(),
    }
}

// ---------------------------------------------------------------- expressions

/// `simple (relop simple)*`
pub open spec fn sp_expression(t: Seq<Token>, pos: int) -> (int, Result<ExpressionV, SyntaxErrorV>)
    decreases rem(t, pos), 10int,
{
    let (p1, r1) = sp_simple(t, pos);
    match r1 {
        Err(e) => (p1, Err(e)),
        Ok(s) => {
            let (p2, r2) = sp_expr_rest(t, from(p1, pos));
            match r2 {
                Err(e) => (p2, Err(e)),
                Ok(rest) => (p2, Ok(ExpressionV { initial_simple_expr: Box::new(s), rest })),
            }
        },
    }
}

/// `(relop simple)*`
pub open spec fn sp_expr_rest(t: Seq<Token>, pos: int) -> (int, Result<Seq<(Token, Box<SimpleExpressionV>)>, SyntaxErrorV>)
    decreases rem(t, pos), 9int,
{
    if check(t, pos, TokenType::RelationalOperator) {
        let (p1, r1) = sp_simple(t, pos + 1);
        match r1 {
            Err(e) => (p1, Err(e)),
            Ok(s) => {
                let (p2, r2) = sp_expr_rest(t, from(p1, pos + 1));
                match r2 {
                    Err(e) => (p2, Err(e)),
                    Ok(rest) => (p2, Ok(seq![(t[pos], Box::new(s))] + rest)),
                }
            },
        }
    } else {
        (pos, Ok(Seq::empty()))
    }
}

/// An additive operator: `+`, `-` or `atau`.
pub open spec fn is_additive(t: Seq<Token>, pos: int) -> bool {
    (check(t, pos, TokenType::ArithmeticOperator) && (t[pos].value@ == "+"@ || t[pos].value@ == "-"@))
        || (check(t, pos, TokenType::LogicalOperator) && lowercase_of(t[pos].value@) == "atau"@)
}

/// A multiplicative operator: `*`, `/`, `bagi`, `mod` or `dan`.
pub open spec fn is_multiplicative(t: Seq<Token>, pos: int) -> bool {
    (check(t, pos, TokenType::ArithmeticOperator) && (t[pos].value@ == "*"@ || t[pos].value@ == "/"@
        || t[pos].value@ == "bagi"@ || t[pos].value@ == "mod"@))
        || (check(t, pos, TokenType::LogicalOperator) && lowercase_of(t[pos].value@) == "dan"@)
}

/// `dan` joins factors and `atau` joins terms, as `*`, `/`, `bagi`, `mod`
/// and `+`, `-` do; no operator is both, and a relational operator is
/// neither.
pub proof fn law_operator_classes(t: Seq<Token>, pos: int)
    ensures
        check(t, pos, TokenType::LogicalOperator) && lowercase_of(t[pos].value@) == "dan"@
            ==> is_multiplicative(t, pos) && !is_additive(t, pos),
        check(t, pos, TokenType::LogicalOperator) && lowercase_of(t[pos].value@) == "atau"@
            ==> is_additive(t, pos) && !is_multiplicative(t, pos),
        check(t, pos, TokenType::ArithmeticOperator) && (t[pos].value@ == "+"@ || t[pos].value@ == "-"@)
            ==> is_additive(t, pos) && !is_multiplicative(t, pos),
        check(t, pos, TokenType::ArithmeticOperator) && (t[pos].value@ == "*"@ || t[pos].value@ == "/"@
            || t[pos].value@ == "bagi"@ || t[pos].value@ == "mod"@) ==> is_multiplicative(t, pos) && !is_additive(t, pos),
        check(t, pos, TokenType::RelationalOperator) ==> !is_additive(t, pos) && !is_multiplicative(t, pos),
{
    if check(t, pos, TokenType::LogicalOperator) {
        let v = lowercase_of(t[pos].value@);
        reveal_strlit("dan");
        reveal_strlit("atau");
        if v == "dan"@ {
            assert(v.len() != "atau"@.len());
        }
    }
    if check(t, pos, TokenType::ArithmeticOperator) {
        let v = t[pos].value@;
        reveal_strlit("+");
        reveal_strlit("-");
        reveal_strlit("*");
        reveal_strlit("/");
        reveal_strlit("bagi");
        reveal_strlit("mod");
        if v == "*"@ || v == "/"@ {
            assert(v[0] != "+"@[0] && v[0] != "-"@[0]);
        }
        if v == "bagi"@ || v == "mod"@ {
            assert(v.len() != "+"@.len());
        }
    }
}

/// A multiplicative operator after a factor continues the term: when the
/// factor after it can be read, the rest of the term starts with that
/// operator and that factor.
pub proof fn law_term_takes_its_operator(t: Seq<Token>, pos: int)
    requires
        is_multiplicative(t, pos),
        sp_factor(t, pos + 1).1 is Ok,
    ensures
        sp_term_rest(t, pos).1 matches Ok(rest) ==> rest.len() >= 1 && rest[0] == (t[pos], Box::new(
            sp_factor(t, pos + 1).1->Ok_0,
        )),
{
}

/// An additive operator after a term continues the simple expression: when
/// the term after it can be read, the rest starts with that operator and
/// that term.
pub proof fn law_simple_takes_its_operator(t: Seq<Token>, pos: int)
    requires
        is_additive(t, pos),
        sp_term(t, pos + 1).1 is Ok,
    ensures
        sp_simple_rest(t, pos).1 matches Ok(rest) ==> rest.len() >= 1 && rest[0] == (t[pos], Box::new(
            sp_term(t, pos + 1).1->Ok_0,
        )),
{
}

/// `term (addop term)*`
pub open spec fn sp_simple(t: Seq<Token>, pos: int) -> (int, Result<SimpleExpressionV, SyntaxErrorV>)
    decreases rem(t, pos), 9int,
{
    let (p1, r1) = sp_term(t, pos);
    match r1 {
        Err(e) => (p1, Err(e)),
        Ok(x) => {
            let (p2, r2) = sp_simple_rest(t, from(p1, pos));
            match r2 {
                Err(e) => (p2, Err(e)),
                Ok(rest) => (p2, Ok(SimpleExpressionV { initial_term: Box::new(x), rest })),
            }
        },
    }
}

/// `(addop term)*`
pub open spec fn sp_simple_rest(t: Seq<Token>, pos: int) -> (int, Result<Seq<(Token, Box<TermV>)>, SyntaxErrorV>)
    decreases rem(t, pos), 8int,
{
    if is_additive(t, pos) {
        let (p1, r1) = sp_term(t, pos + 1);
        match r1 {
            Err(e) => (p1, Err(e)),
            Ok(x) => {
                let (p2, r2) = sp_simple_rest(t, from(p1, pos + 1));
                match r2 {
                    Err(e) => (p2, Err(e)),
                    Ok(rest) => (p2, Ok(seq![(t[pos], Box::new(x))] + rest)),
                }
            },
        }
    } else {
        (pos, Ok(Seq::empty()))
    }
}

/// `factor (mulop factor)*`
pub open spec fn sp_term(t: Seq<Token>, pos: int) -> (int, Result<TermV, SyntaxErrorV>)
    decreases rem(t, pos), 8int,
{
    let (p1, r1) = sp_factor(t, pos);
    match r1 {
        Err(e) => (p1, Err(e)),
        Ok(f) => {
            let (p2, r2) = sp_term_rest(t, from(p1, pos));
            match r2 {
                Err(e) => (p2, Err(e)),
                Ok(rest) => (p2, Ok(TermV { initial_factor: Box::new(f), rest })),
            }
        },
    }
}

/// `(mulop factor)*`
pub open spec fn sp_term_rest(t: Seq<Token>, pos: int) -> (int, Result<Seq<(Token, Box<FactorV>)>, SyntaxErrorV>)
    decreases rem(t, pos), 7int,
{
    if is_multiplicative(t, pos) {
        let (p1, r1) = sp_factor(t, pos + 1);
        match r1 {
            Err(e) => (p1, Err(e)),
            Ok(f) => {
                let (p2, r2) = sp_term_rest(t, from(p1, pos + 1));
                match r2 {
                    Err(e) => (p2, Err(e)),
                    Ok(rest) => (p2, Ok(seq![(t[pos], Box::new(f))] + rest)),
                }
            },
        }
    } else {
        (pos, Ok(Seq::empty()))
    }
}

/// `primary ( [ expression ] | ( arguments ) )*`
pub open spec fn sp_factor(t: Seq<Token>, pos: int) -> (int, Result<FactorV, SyntaxErrorV>)
    decreases rem(t, pos), 7int,
{
    let (p1, r1) = sp_primary(t, pos);
    match r1 {
        Err(e) => (p1, Err(e)),
        Ok(f) => sp_postfix(t, from(p1, pos), f),
    }
}

/// The index accesses and calls after a factor `f`.
pub open spec fn sp_postfix(t: Seq<Token>, pos: int, f: FactorV) -> (int, Result<FactorV, SyntaxErrorV>)
    decreases rem(t, pos), 6int,
{
    if check(t, pos, TokenType::LBracket) {
        let (p1, r1) = sp_expression(t, pos + 1);
        match r1 {
            Err(e) => (p1, Err(e)),
            Ok(index) => {
                let (p2, r2) = consume(t, p1, TokenType::RBracket, "Mengharapkan ']' setelah indeks array."@);
                match r2 {
                    Err(e) => (p2, Err(e)),
                    Ok(rb) => sp_postfix(
                        t,
                        from(p2, pos + 1),
                        FactorV::ArrayAccess(ArrayAccessV {
                            array: Box::new(factor_to_expression(f)),
                            l_bracket: t[pos],
                            index: Box::new(index),
                            r_bracket: rb,
                        }),
                    ),
                }
            },
        }
    } else if check(t, pos, TokenType::LParenthesis) {
        match f {
            FactorV::Identifier(name) => {
                let (p1, r1) = sp_arguments(t, pos);
                match r1 {
                    Err(e) => (p1, Err(e)),
                    Ok(a) => sp_postfix(
                        t,
                        from(p1, pos + 1),
                        FactorV::FunctionCall(FunctionCallNodeV { function_name: name, l_paren: a.0, arguments: a.1, r_paren: a.2 }),
                    ),
                }
            },
            _ => (pos, Err(error_at(t, pos, "Mengharapkan nama fungsi sebelum '('."@))),
        }
    } else {
        (pos, Ok(f))
    }
}

/// `( [argument (, argument)*] )`
pub open spec fn sp_arguments(t: Seq<Token>, pos: int)
    -> (int, Result<(Token, Option<ActualParameterListV>, Token), SyntaxErrorV>)
    decreases rem(t, pos), 5int,
{
    let (p1, r1) = consume(t, pos, TokenType::LParenthesis, "Mengharapkan '(' untuk pemanggilan fungsi/prosedur."@);
    match r1 {
        Err(e) => (p1, Err(e)),
        Ok(lp) => {
            let (p2, r2): (int, Result<Option<ActualParameterListV>, SyntaxErrorV>) = if !check(t, p1, TokenType::RParenthesis) {
                let (q, r) = sp_actual_params(t, p1);
                (q, match r {
                    Ok(a) => Ok(Some(a)),
                    Err(e) => Err(e),
                })
            } else {
                (p1, Ok(None))
            };
            match r2 {
                Err(e) => (p2, Err(e)),
                Ok(args) => {
                    let (p3, r3) = consume(t, p2, TokenType::RParenthesis, "Mengharapkan ')' setelah daftar argumen."@);
                    match r3 {
                        Err(e) => (p3, Err(e)),
                        Ok(rp) => (p3, Ok((lp, args, rp))),
                    }
                },
            }
        },
    }
}

/// `argument (, argument)*`
pub open spec fn sp_actual_params(t: Seq<Token>, pos: int) -> (int, Result<ActualParameterListV, SyntaxErrorV>)
    decreases rem(t, pos), 11int,
{
    let (p1, r1) = sp_expression(t, pos);
    match r1 {
        Err(e) => (p1, Err(e)),
        Ok(a) => {
            let (p2, r2) = sp_actual_rest(t, from(p1, pos));
            match r2 {
                Err(e) => (p2, Err(e)),
                Ok(rest) => (p2, Ok(ActualParameterListV { initial_arg: Box::new(a), rest })),
            }
        },
    }
}

/// `(, argument)*`; a `)` right after a comma is an error.
pub open spec fn sp_actual_rest(t: Seq<Token>, pos: int) -> (int, Result<Seq<(Token, Box<ExpressionV>)>, SyntaxErrorV>)
    decreases rem(t, pos), 10int,
{
    if check(t, pos, TokenType::Comma) {
        if check(t, pos + 1, TokenType::RParenthesis) {
            (pos + 1, Err(error_at(t, pos + 1, "Mengharapkan ekspresi setelah ','."@)))
        } else {
            let (p1, r1) = sp_expression(t, pos + 1);
            match r1 {
                Err(e) => (p1, Err(e)),
                Ok(a) => {
                    let (p2, r2) = sp_actual_rest(t, from(p1, pos + 1));
                    match r2 {
                        Err(e) => (p2, Err(e)),
                        Ok(rest) => (p2, Ok(seq![(t[pos], Box::new(a))] + rest)),
                    }
                },
            }
        }
    } else {
        (pos, Ok(Seq::empty()))
    }
}

/// A literal token: a number, string or character, `benar` or `salah`.
pub open spec fn is_literal(t: Seq<Token>, pos: int) -> bool {
    check(t, pos, TokenType::IntegerLiteral) || check(t, pos, TokenType::RealLiteral) || check(t, pos, TokenType::StringLiteral)
        || check(t, pos, TokenType::CharLiteral) || check_kw(t, pos, "benar"@) || check_kw(t, pos, "salah"@)
}

/// A literal value.
pub open spec fn sp_literal(t: Seq<Token>, pos: int) -> (int, Result<LiteralValueV, SyntaxErrorV>) {
    if is_literal(t, pos) {
        (pos + 1, Ok(LiteralValueV { token: t[pos] }))
    } else {
        (pos, Err(error_at(t, pos, "Mengharapkan literal (angka, string, char, atau boolean)."@)))
    }
}

/// A signed factor, a literal, `tidak factor`, `( expression )` or an
/// identifier.
pub open spec fn sp_primary(t: Seq<Token>, pos: int) -> (int, Result<FactorV, SyntaxErrorV>)
    decreases rem(t, pos), 6int,
{
    if check(t, pos, TokenType::ArithmeticOperator) && (t[pos].value@ == "+"@ || t[pos].value@ == "-"@) {
        let (p1, r1) = sp_factor(t, pos + 1);
        match r1 {
            Err(e) => (p1, Err(e)),
            Ok(f) => (p1, Ok(FactorV::ArithmeticUnary(ArithmeticUnaryFactorV { op: t[pos], factor: Box::new(f) }))),
        }
    } else if is_literal(t, pos) {
        (pos + 1, Ok(FactorV::Literal(LiteralValueV { token: t[pos] })))
    } else if check(t, pos, TokenType::LogicalOperator) && lowercase_of(t[pos].value@) == "tidak"@ {
        let (p1, r1) = sp_factor(t, pos + 1);
        match r1 {
            Err(e) => (p1, Err(e)),
            Ok(f) => (p1, Ok(FactorV::Not(NotFactorV { not_token: t[pos], factor: Box::new(f) }))),
        }
    } else if check(t, pos, TokenType::LParenthesis) {
        let (p1, r1) = sp_expression(t, pos + 1);
        match r1 {
            Err(e) => (p1, Err(e)),
            Ok(x) => {
                let (p2, r2) = consume(t, p1, TokenType::RParenthesis, "Mengharapkan ')' setelah ekspresi."@);
                match r2 {
                    Err(e) => (p2, Err(e)),
                    Ok(rp) => (p2, Ok(FactorV::Parenthesized(ParenthesizedExpressionV { l_paren: t[pos], expr: Box::new(x), r_paren: rp }))),
                }
            },
        }
    } else if check(t, pos, TokenType::Identifier) {
        (pos + 1, Ok(FactorV::Identifier(t[pos])))
    } else {
        (pos, Err(error_at(t, pos, "Mengharapkan ekspresi (factor)."@)))
    }
}

// ---------------------------------------------------------------- statements

/// A statement, chosen by its first token.
#[verifier::opaque]
pub open spec fn sp_statement(t: Seq<Token>, pos: int) -> (int, Result<StatementV, SyntaxErrorV>)
    decreases rem(t, pos), 20int,
{
    if check_kw(t, pos, "mulai"@) {
        let (p, r) = sp_compound(t, pos);
        (p, match r { Ok(x) => Ok(StatementV::Compound(x)), Err(e) => Err(e) })
    } else if check_kw(t, pos, "jika"@) {
        let (p, r) = sp_if(t, pos);
        (p, match r { Ok(x) => Ok(StatementV::If(x)), Err(e) => Err(e) })
    } else if check_kw(t, pos, "selama"@) {
        let (p, r) = sp_while(t, pos);
        (p, match r { Ok(x) => Ok(StatementV::While(x)), Err(e) => Err(e) })
    } else if check_kw(t, pos, "untuk"@) {
        let (p, r) = sp_for(t, pos);
        (p, match r { Ok(x) => Ok(StatementV::For(x)), Err(e) => Err(e) })
    } else if check_kw(t, pos, "ulangi"@) {
        let (p, r) = sp_repeat(t, pos);
        (p, match r { Ok(x) => Ok(StatementV::Repeat(x)), Err(e) => Err(e) })
    } else if check_kw(t, pos, "kasus"@) {
        let (p, r) = sp_case(t, pos);
        (p, match r { Ok(x) => Ok(StatementV::Case(x)), Err(e) => Err(e) })
    } else if check(t, pos, TokenType::Identifier) {
        sp_assign_or_call(t, pos)
    } else {
        (pos, Err(error_at(t, pos, "Mengharapkan sebuah statement."@)))
    }
}

/// Statements separated by semicolons, up to the keyword `term`.
pub open spec fn sp_statement_list(t: Seq<Token>, pos: int, term: Seq<char>) -> (int, Result<StatementListV, SyntaxErrorV>)
    decreases rem(t, pos), 21int,
{
    if check_kw(t, pos, term) {
        (pos, Ok(StatementListV { initial_stmt: None, rest: Seq::empty(), trailing_semicolon: None }))
    } else {
        let (p1, r1) = sp_statement(t, pos);
        match r1 {
            Err(e) => (p1, Err(e)),
            Ok(s) => {
                let (p2, r2) = sp_list_rest(t, from(p1, pos), term);
                match r2 {
                    Err(e) => (p2, Err(e)),
                    Ok(rt) => (p2, Ok(StatementListV { initial_stmt: Some(Box::new(s)), rest: rt.0, trailing_semicolon: rt.1 })),
                }
            },
        }
    }
}

/// `(; statement)*`, and the semicolon before `term` if there is one.
pub open spec fn sp_list_rest(t: Seq<Token>, pos: int, term: Seq<char>)
    -> (int, Result<(Seq<(Token, Box<StatementV>)>, Option<Token>), SyntaxErrorV>)
    decreases rem(t, pos), 20int,
{
    if check(t, pos, TokenType::Semicolon) {
        if check_kw(t, pos + 1, term) {
            (pos + 1, Ok((Seq::empty(), Some(t[pos]))))
        } else {
            let (p1, r1) = sp_statement(t, pos + 1);
            match r1 {
                Err(e) => (p1, Err(e)),
                Ok(s) => {
                    let (p2, r2) = sp_list_rest(t, from(p1, pos + 1), term);
                    match r2 {
                        Err(e) => (p2, Err(e)),
                        Ok(rt) => (p2, Ok((seq![(t[pos], Box::new(s))] + rt.0, rt.1))),
                    }
                },
            }
        }
    } else {
        (pos, Ok((Seq::empty(), None)))
    }
}

/// `mulai statements selesai`
pub open spec fn sp_compound(t: Seq<Token>, pos: int) -> (int, Result<CompoundStatementV, SyntaxErrorV>)
    decreases rem(t, pos), 15int,
{
    let (p1, r1) = consume_kw(t, pos, "mulai"@, "Mengharapkan keyword 'mulai'."@);
    match r1 {
        Err(e) => (p1, Err(e)),
        Ok(b) => {
            let (p2, r2) = sp_statement_list(t, p1, "selesai"@);
            match r2 {
                Err(e) => (p2, Err(e)),
                Ok(l) => {
                    let (p3, r3) = consume_kw(t, p2, "selesai"@, "Mengharapkan keyword 'selesai'."@);
                    match r3 {
                        Err(e) => (p3, Err(e)),
                        Ok(en) => (p3, Ok(CompoundStatementV { begin_kw: b, statement_list: l, end_kw: en })),
                    }
                },
            }
        },
    }
}

/// `jika condition maka statement [selain-itu statement]`
pub open spec fn sp_if(t: Seq<Token>, pos: int) -> (int, Result<IfStatementV, SyntaxErrorV>)
    decreases rem(t, pos), 15int,
{
    let (p1, r1) = consume_kw(t, pos, "jika"@, "Mengharapkan keyword 'jika'."@);
    match r1 {
        Err(e) => (p1, Err(e)),
        Ok(k) => {
            let (p2, r2) = sp_expression(t, p1);
            match r2 {
                Err(e) => (p2, Err(e)),
                Ok(c) => {
                    let (p3, r3) = consume_kw(t, p2, "maka"@, "Mengharapkan keyword 'maka'."@);
                    match r3 {
                        Err(e) => (p3, Err(e)),
                        Ok(m) => {
                            let (p4, r4) = sp_statement(t, from(p3, pos + 1));
                            match r4 {
                                Err(e) => (p4, Err(e)),
                                Ok(s) => {
                                    let (p5, r5) = sp_else_clause(t, from(p4, pos + 1));
                                    match r5 {
                                        Err(e) => (p5, Err(e)),
                                        Ok(el) => (p5, Ok(IfStatementV {
                                            if_kw: k,
                                            condition: c,
                                            then_kw: m,
                                            then_branch: Box::new(s),
                                            else_clause: el,
                                        })),
                                    }
                                },
                            }
                        },
                    }
                },
            }
        },
    }
}

/// `[selain-itu statement]`
pub open spec fn sp_else_clause(t: Seq<Token>, pos: int) -> (int, Result<Option<ElseClauseV>, SyntaxErrorV>)
    decreases rem(t, pos), 14int,
{
    if check_kw(t, pos, "selain-itu"@) {
        let (p1, r1) = sp_statement(t, pos + 1);
        match r1 {
            Err(e) => (p1, Err(e)),
            Ok(s) => (p1, Ok(Some(ElseClauseV { else_kw: t[pos], statement: Box::new(s) }))),
        }
    } else {
        (pos, Ok(None))
    }
}

/// A `selain-itu` after the then-statement is always read: it gives an
/// else part or an error, never an `if` without one.
pub proof fn law_else_keyword_is_read(t: Seq<Token>, pos: int)
    requires
        check_kw(t, pos, "selain-itu"@),
    ensures
        sp_else_clause(t, pos).1 != Ok::<Option<ElseClauseV>, SyntaxErrorV>(None),
        sp_else_clause(t, pos).1 matches Ok(Some(e)) ==> e.else_kw == t[pos],
{
}

/// A statement is chosen by its first keyword: a statement read from
/// `mulai`, `jika`, `selama`, `untuk`, `ulangi` or `kasus` is a block, a
/// conditional, a `selama` loop, an `untuk` loop, an `ulangi` loop or a
/// `kasus` statement.
pub proof fn law_statement_kind_follows_keyword(t: Seq<Token>, pos: int)
    ensures
        check_kw(t, pos, "mulai"@) && sp_statement(t, pos).1 is Ok ==> sp_statement(t, pos).1->Ok_0 is Compound,
        check_kw(t, pos, "jika"@) && sp_statement(t, pos).1 is Ok ==> sp_statement(t, pos).1->Ok_0 is If,
        check_kw(t, pos, "selama"@) && sp_statement(t, pos).1 is Ok ==> sp_statement(t, pos).1->Ok_0 is While,
        check_kw(t, pos, "untuk"@) && sp_statement(t, pos).1 is Ok ==> sp_statement(t, pos).1->Ok_0 is For,
        check_kw(t, pos, "ulangi"@) && sp_statement(t, pos).1 is Ok ==> sp_statement(t, pos).1->Ok_0 is Repeat,
        check_kw(t, pos, "kasus"@) && sp_statement(t, pos).1 is Ok ==> sp_statement(t, pos).1->Ok_0 is Case,
{
    reveal(sp_statement);
    reveal_strlit("mulai");
    reveal_strlit("jika");
    reveal_strlit("selama");
    reveal_strlit("untuk");
    reveal_strlit("ulangi");
    reveal_strlit("kasus");
    if check(t, pos, TokenType::Keyword) {
        let v = lowercase_of(t[pos].value@);
        if v == "jika"@ {
            assert(v.len() != "mulai"@.len());
        }
        if v == "selama"@ {
            assert(v.len() != "mulai"@.len() && v.len() != "jika"@.len());
        }
        if v == "untuk"@ {
            assert(v[0] != "mulai"@[0] && v.len() != "jika"@.len() && v.len() != "selama"@.len());
        }
        if v == "ulangi"@ {
            assert(v.len() != "mulai"@.len() && v.len() != "jika"@.len() && v[0] != "selama"@[0] && v.len()
                != "untuk"@.len());
        }
        if v == "kasus"@ {
            assert(v[0] != "mulai"@[0] && v.len() != "jika"@.len() && v.len() != "selama"@.len() && v[0]
                != "untuk"@[0] && v.len() != "ulangi"@.len());
        }
    }
}

/// `selama condition lakukan statement`
pub open spec fn sp_while(t: Seq<Token>, pos: int) -> (int, Result<WhileStatementV, SyntaxErrorV>)
    decreases rem(t, pos), 15int,
{
    let (p1, r1) = consume_kw(t, pos, "selama"@, "Mengharapkan keyword 'selama'."@);
    match r1 {
        Err(e) => (p1, Err(e)),
        Ok(k) => {
            let (p2, r2) = sp_expression(t, p1);
            match r2 {
                Err(e) => (p2, Err(e)),
                Ok(c) => {
                    let (p3, r3) = consume_kw(t, p2, "lakukan"@, "Mengharapkan keyword 'lakukan'."@);
                    match r3 {
                        Err(e) => (p3, Err(e)),
                        Ok(d) => {
                            let (p4, r4) = sp_statement(t, from(p3, pos + 1));
                            match r4 {
                                Err(e) => (p4, Err(e)),
                                Ok(s) => (p4, Ok(WhileStatementV { while_kw: k, condition: c, do_kw: d, body: Box::new(s) })),
                            }
                        },
                    }
                },
            }
        },
    }
}

/// The direction of a for loop: `ke` or `turun-ke`.
pub open spec fn sp_direction(t: Seq<Token>, pos: int) -> (int, Result<Token, SyntaxErrorV>) {
    if check_kw(t, pos, "ke"@) || check_kw(t, pos, "turun-ke"@) {
        (pos + 1, Ok(t[pos]))
    } else {
        (pos, Err(error_at(t, pos, "Mengharapkan keyword 'ke' atau 'turun-ke'."@)))
    }
}

/// `untuk i := start (ke | turun-ke) end lakukan statement`
pub open spec fn sp_for(t: Seq<Token>, pos: int) -> (int, Result<ForStatementV, SyntaxErrorV>)
    decreases rem(t, pos), 15int,
{
    let (p1, r1) = consume_kw(t, pos, "untuk"@, "Mengharapkan keyword 'untuk'."@);
    match r1 {
        Err(e) => (p1, Err(e)),
        Ok(k) => {
            let (p2, r2) = consume(t, p1, TokenType::Identifier, "Mengharapkan nama variabel counter."@);
            match r2 {
                Err(e) => (p2, Err(e)),
                Ok(v) => {
                    let (p3, r3) = consume(t, p2, TokenType::AssignOperator, "Mengharapkan ':=' pada statement untuk."@);
                    match r3 {
                        Err(e) => (p3, Err(e)),
                        Ok(a) => {
                            let (p4, r4) = sp_expression(t, p3);
                            match r4 {
                                Err(e) => (p4, Err(e)),
                                Ok(st) => {
                                    let (p5, r5) = sp_direction(t, p4);
                                    match r5 {
                                        Err(e) => (p5, Err(e)),
                                        Ok(dir) => {
                                            let (p6, r6) = sp_expression(t, p5);
                                            match r6 {
                                                Err(e) => (p6, Err(e)),
                                                Ok(en) => {
                                                    let (p7, r7) = consume_kw(t, p6, "lakukan"@, "Mengharapkan keyword 'lakukan'."@);
                                                    match r7 {
                                                        Err(e) => (p7, Err(e)),
                                                        Ok(d) => {
                                                            let (p8, r8) = sp_statement(t, from(p7, pos + 1));
                                                            match r8 {
                                                                Err(e) => (p8, Err(e)),
                                                                Ok(b) => (p8, Ok(ForStatementV {
                                                                    for_kw: k,
                                                                    counter_variable: v,
                                                                    assign_op: a,
                                                                    start_value: st,
                                                                    direction_kw: dir,
                                                                    end_value: en,
                                                                    do_kw: d,
                                                                    body: Box::new(b),
                                                                })),
                                                            }
                                                        },
                                                    }
                                                },
                                            }
                                        },
                                    }
                                },
                            }
                        },
                    }
                },
            }
        },
    }
}

/// `ulangi statements sampai condition`
pub open spec fn sp_repeat(t: Seq<Token>, pos: int) -> (int, Result<RepeatStatementV, SyntaxErrorV>)
    decreases rem(t, pos), 15int,
{
    let (p1, r1) = consume_kw(t, pos, "ulangi"@, "Mengharapkan keyword 'ulangi'."@);
    match r1 {
        Err(e) => (p1, Err(e)),
        Ok(k) => {
            let (p2, r2) = sp_statement_list(t, p1, "sampai"@);
            match r2 {
                Err(e) => (p2, Err(e)),
                Ok(l) => {
                    let (p3, r3) = consume_kw(t, p2, "sampai"@, "Mengharapkan keyword 'sampai'."@);
                    match r3 {
                        Err(e) => (p3, Err(e)),
                        Ok(u) => {
                            let (p4, r4) = sp_expression(t, p3);
                            match r4 {
                                Err(e) => (p4, Err(e)),
                                Ok(c) => (p4, Ok(RepeatStatementV { repeat_kw: k, statement_list: l, until_kw: u, condition: c })),
                            }
                        },
                    }
                },
            }
        },
    }
}

/// `kasus expression dari branches [selain-itu statements] selesai`
pub open spec fn sp_case(t: Seq<Token>, pos: int) -> (int, Result<CaseStatementV, SyntaxErrorV>)
    decreases rem(t, pos), 15int,
{
    let (p1, r1) = consume_kw(t, pos, "kasus"@, "Mengharapkan keyword 'kasus'."@);
    match r1 {
        Err(e) => (p1, Err(e)),
        Ok(k) => {
            let (p2, r2) = sp_expression(t, p1);
            match r2 {
                Err(e) => (p2, Err(e)),
                Ok(x) => {
                    let (p3, r3) = consume_kw(t, p2, "dari"@, "Mengharapkan keyword 'dari' setelah ekspresi kasus."@);
                    match r3 {
                        Err(e) => (p3, Err(e)),
                        Ok(o) => {
                            let (p4, r4) = sp_case_branches(t, from(p3, pos + 1));
                            match r4 {
                                Err(e) => (p4, Err(e)),
                                Ok(bs) => {
                                    let (p5, r5) = sp_case_else(t, from(p4, pos + 1));
                                    match r5 {
                                        Err(e) => (p5, Err(e)),
                                        Ok(el) => {
                                            let (p6, r6) = consume_kw(t, p5, "selesai"@, "Mengharapkan keyword 'selesai'."@);
                                            match r6 {
                                                Err(e) => (p6, Err(e)),
                                                Ok(en) => (p6, Ok(CaseStatementV {
                                                    case_kw: k,
                                                    expression: x,
                                                    of_kw: o,
                                                    branches: bs,
                                                    else_clause: el,
                                                    end_kw: en,
                                                })),
                                            }
                                        },
                                    }
                                },
                            }
                        },
                    }
                },
            }
        },
    }
}

/// Case branches up to `selain-itu` or `selesai`.
pub open spec fn sp_case_branches(t: Seq<Token>, pos: int) -> (int, Result<Seq<CaseBranchV>, SyntaxErrorV>)
    decreases rem(t, pos), 14int,
{
    if !check_kw(t, pos, "selain-itu"@) && !check_kw(t, pos, "selesai"@) {
        let (p1, r1) = sp_case_branch(t, pos);
        match r1 {
            Err(e) => (p1, Err(e)),
            Ok(b) => if 0 <= pos && pos + 1 < t.len() {
                let (p2, r2) = sp_case_branches(t, from(p1, pos + 1));
                match r2 {
                    Err(e) => (p2, Err(e)),
                    Ok(rest) => (p2, Ok(seq![b] + rest)),
                }
            } else {
                (p1, Ok(seq![b]))
            },
        }
    } else {
        (pos, Ok(Seq::empty()))
    }
}

/// `labels : statement ;`
pub open spec fn sp_case_branch(t: Seq<Token>, pos: int) -> (int, Result<CaseBranchV, SyntaxErrorV>)
    decreases rem(t, pos), 13int,
{
    let (p1, r1) = sp_case_labels(t, pos);
    match r1 {
        Err(e) => (p1, Err(e)),
        Ok(l) => if !(0 <= pos && pos + 1 < t.len()) {
            (p1, Err(error_at(t, p1, "Mengharapkan ':' setelah label kasus."@)))
        } else {
            let (p2, r2) = consume(t, p1, TokenType::Colon, "Mengharapkan ':' setelah label kasus."@);
            match r2 {
                Err(e) => (p2, Err(e)),
                Ok(c) => {
                    let (p3, r3) = sp_statement(t, from(p2, pos + 1));
                    match r3 {
                        Err(e) => (p3, Err(e)),
                        Ok(s) => {
                            let (p4, r4) = consume(t, p3, TokenType::Semicolon, "Mengharapkan ';' setelah cabang kasus."@);
                            match r4 {
                                Err(e) => (p4, Err(e)),
                                Ok(semi) => (p4, Ok(CaseBranchV { labels: l, colon: c, statement: Box::new(s), semicolon: semi })),
                            }
                        },
                    }
                },
            }
        },
    }
}

/// `label (, label)*`
pub open spec fn sp_case_labels(t: Seq<Token>, pos: int) -> (int, Result<CaseLabelListV, SyntaxErrorV>) {
    let (p1, r1) = sp_expression(t, pos);
    match r1 {
        Err(e) => (p1, Err(e)),
        Ok(x) => {
            let (p2, r2) = sp_label_rest(t, p1);
            match r2 {
                Err(e) => (p2, Err(e)),
                Ok(rest) => (p2, Ok(CaseLabelListV { initial_label: x, rest })),
            }
        },
    }
}

/// `(, label)*`
pub open spec fn sp_label_rest(t: Seq<Token>, pos: int) -> (int, Result<Seq<(Token, ExpressionV)>, SyntaxErrorV>)
    decreases rem(t, pos),
{
    if check(t, pos, TokenType::Comma) {
        let (p1, r1) = sp_expression(t, pos + 1);
        match r1 {
            Err(e) => (p1, Err(e)),
            Ok(x) => {
                let (p2, r2) = sp_label_rest(t, from(p1, pos + 1));
                match r2 {
                    Err(e) => (p2, Err(e)),
                    Ok(rest) => (p2, Ok(seq![(t[pos], x)] + rest)),
                }
            },
        }
    } else {
        (pos, Ok(Seq::empty()))
    }
}

/// `[selain-itu statements]` before the `selesai` of a case statement.
pub open spec fn sp_case_else(t: Seq<Token>, pos: int) -> (int, Result<Option<CaseElseClauseV>, SyntaxErrorV>)
    decreases rem(t, pos), 14int,
{
    if check_kw(t, pos, "selain-itu"@) {
        let (p1, r1) = sp_statement_list(t, pos + 1, "selesai"@);
        match r1 {
            Err(e) => (p1, Err(e)),
            Ok(l) => (p1, Ok(Some(CaseElseClauseV { else_kw: t[pos], statement_list: l }))),
        }
    } else {
        (pos, Ok(None))
    }
}

/// The call that an expression is, when it is a call and nothing more.
pub open spec fn expr_as_call(x: ExpressionV) -> Option<ProcedureCallStatementV> {
    if x.rest.len() == 0 && x.initial_simple_expr.rest.len() == 0 && x.initial_simple_expr.initial_term.rest.len() == 0 {
        match *x.initial_simple_expr.initial_term.initial_factor {
            FactorV::FunctionCall(call) => Some(ProcedureCallStatementV { call }),
            _ => None,
        }
    } else {
        None
    }
}

/// `target := expression`, or a procedure call.
pub open spec fn sp_assign_or_call(t: Seq<Token>, pos: int) -> (int, Result<StatementV, SyntaxErrorV>)
    decreases rem(t, pos), 15int,
{
    let (p1, r1) = sp_expression(t, pos);
    match r1 {
        Err(e) => (p1, Err(e)),
        Ok(left) => if check(t, p1, TokenType::AssignOperator) {
            let (p2, r2) = sp_expression(t, p1 + 1);
            match r2 {
                Err(e) => (p2, Err(e)),
                Ok(right) => (p2, Ok(StatementV::Assignment(AssignmentStatementV { variable: left, assign_op: t[p1], expression: right }))),
            }
        } else {
            match expr_as_call(left) {
                Some(c) => (p1, Ok(StatementV::ProcedureCall(c))),
                None => (p1, Err(SyntaxErrorV {
                    message: "Statement tidak valid. Mengharapkan ':=' atau pemanggilan prosedur."@,
                    line: 0,
                    column: 0,
                })),
            }
        },
    }
}

// ---------------------------------------------------------------- declarations

/// `ID (, ID)*`
pub open spec fn sp_identifier_list(t: Seq<Token>, pos: int) -> (int, Result<IdentifierListV, SyntaxErrorV>) {
    let (p1, r1) = consume(t, pos, TokenType::Identifier, "Mengharapkan identifier."@);
    match r1 {
        Err(e) => (p1, Err(e)),
        Ok(id) => {
            let (p2, r2) = sp_id_rest(t, p1);
            match r2 {
                Err(e) => (p2, Err(e)),
                Ok(rest) => (p2, Ok(IdentifierListV { initial_id: id, rest })),
            }
        },
    }
}

/// `(, ID)*`
pub open spec fn sp_id_rest(t: Seq<Token>, pos: int) -> (int, Result<Seq<(Token, Token)>, SyntaxErrorV>)
    decreases rem(t, pos),
{
    if check(t, pos, TokenType::Comma) {
        let (p1, r1) = consume(t, pos + 1, TokenType::Identifier, "Mengharapkan identifier setelah ','."@);
        match r1 {
            Err(e) => (p1, Err(e)),
            Ok(id) => {
                let (p2, r2) = sp_id_rest(t, pos + 2);
                match r2 {
                    Err(e) => (p2, Err(e)),
                    Ok(rest) => (p2, Ok(seq![(t[pos], id)] + rest)),
                }
            },
        }
    } else {
        (pos, Ok(Seq::empty()))
    }
}

/// A type: a predefined type keyword, an array type, a type name, or a
/// subrange.
#[verifier::opaque]
pub open spec fn sp_type_spec(t: Seq<Token>, pos: int) -> (int, Result<TypeV, SyntaxErrorV>)
    decreases rem(t, pos), 13int,
{
    if check_kw(t, pos, "integer"@) {
        (pos + 1, Ok(TypeV::Integer(t[pos])))
    } else if check_kw(t, pos, "real"@) {
        (pos + 1, Ok(TypeV::Real(t[pos])))
    } else if check_kw(t, pos, "boolean"@) {
        (pos + 1, Ok(TypeV::Boolean(t[pos])))
    } else if check_kw(t, pos, "string"@) {
        (pos + 1, Ok(TypeV::String(t[pos])))
    } else if check_kw(t, pos, "char"@) {
        (pos + 1, Ok(TypeV::Char(t[pos])))
    } else if check_kw(t, pos, "larik"@) {
        sp_array_type(t, pos)
    } else if check(t, pos, TokenType::Identifier) {
        (pos + 1, Ok(TypeV::TypeIdentifier(t[pos])))
    } else {
        let (p, r) = sp_range(t, pos);
        (p, match r {
            Ok(x) => Ok(TypeV::Subrange(x)),
            Err(e) => Err(e),
        })
    }
}

/// `larik [ type ] dari type`
pub open spec fn sp_array_type(t: Seq<Token>, pos: int) -> (int, Result<TypeV, SyntaxErrorV>)
    decreases rem(t, pos), 12int,
{
    let (p1, r1) = consume_kw(t, pos, "larik"@, "Mengharapkan keyword 'larik'."@);
    match r1 {
        Err(e) => (p1, Err(e)),
        Ok(k) => {
            let (p2, r2) = consume(t, p1, TokenType::LBracket, "Mengharapkan '[' setelah 'larik'."@);
            match r2 {
                Err(e) => (p2, Err(e)),
                Ok(lb) => {
                    let (p3, r3) = sp_type_spec(t, p2);
                    match r3 {
                        Err(e) => (p3, Err(e)),
                        Ok(index) => {
                            let (p4, r4) = consume(t, p3, TokenType::RBracket, "Mengharapkan ']' setelah range larik."@);
                            match r4 {
                                Err(e) => (p4, Err(e)),
                                Ok(rb) => {
                                    let (p5, r5) = consume_kw(t, p4, "dari"@, "Mengharapkan keyword 'dari' setelah ']' pada deklarasi larik."@);
                                    match r5 {
                                        Err(e) => (p5, Err(e)),
                                        Ok(d) => {
                                            let (p6, r6) = sp_type_spec(t, from(p5, pos + 1));
                                            match r6 {
                                                Err(e) => (p6, Err(e)),
                                                Ok(base) => (p6, Ok(TypeV::Array(ArrayTypeV {
                                                    larik_kw: k,
                                                    l_bracket: lb,
                                                    index_type: Box::new(index),
                                                    r_bracket: rb,
                                                    dari_kw: d,
                                                    base_type: Box::new(base),
                                                }))),
                                            }
                                        },
                                    }
                                },
                            }
                        },
                    }
                },
            }
        },
    }
}

/// `expression .. expression`
pub open spec fn sp_range(t: Seq<Token>, pos: int) -> (int, Result<RangeV, SyntaxErrorV>) {
    let (p1, r1) = sp_expression(t, pos);
    match r1 {
        Err(e) => (p1, Err(e)),
        Ok(a) => {
            let (p2, r2) = consume(t, p1, TokenType::RangeOperator, "Mengharapkan '..' untuk range."@);
            match r2 {
                Err(e) => (p2, Err(e)),
                Ok(op) => {
                    let (p3, r3) = sp_expression(t, p2);
                    match r3 {
                        Err(e) => (p3, Err(e)),
                        Ok(b) => (p3, Ok(RangeV { start: Box::new(a), range_op: op, end: Box::new(b) })),
                    }
                },
            }
        },
    }
}

/// `ID = expression ;`
pub open spec fn sp_const_def(t: Seq<Token>, pos: int) -> (int, Result<ConstantDefinitionV, SyntaxErrorV>) {
    let (p1, r1) = consume(t, pos, TokenType::Identifier, "Mengharapkan nama konstanta."@);
    match r1 {
        Err(e) => (p1, Err(e)),
        Ok(name) => {
            let (p2, r2) = consume(t, p1, TokenType::RelationalOperator, "Mengharapkan '='."@);
            match r2 {
                Err(e) => (p2, Err(e)),
                Ok(eq) => if eq.value@ != "="@ {
                    (p2, Err(error_at(t, p2, "Mengharapkan '=' untuk definisi konstanta, ditemukan '"@ + eq.value@ + "'"@)))
                } else {
                    let (p3, r3) = sp_expression(t, p2);
                    match r3 {
                        Err(e) => (p3, Err(e)),
                        Ok(v) => {
                            let (p4, r4) = consume(t, p3, TokenType::Semicolon, "Mengharapkan ';' setelah definisi konstanta."@);
                            match r4 {
                                Err(e) => (p4, Err(e)),
                                Ok(semi) => (p4, Ok(ConstantDefinitionV { name, equals_op: eq, value: v, semicolon: semi })),
                            }
                        },
                    }
                },
            }
        },
    }
}

/// Constant definitions while the next token is an identifier.
pub open spec fn sp_const_defs(t: Seq<Token>, pos: int) -> (int, Result<Seq<ConstantDefinitionV>, SyntaxErrorV>)
    decreases rem(t, pos),
{
    if check(t, pos, TokenType::Identifier) {
        let (p1, r1) = sp_const_def(t, pos);
        match r1 {
            Err(e) => (p1, Err(e)),
            Ok(d) => {
                let (p2, r2) = sp_const_defs(t, from(p1, pos + 1));
                match r2 {
                    Err(e) => (p2, Err(e)),
                    Ok(rest) => (p2, Ok(seq![d] + rest)),
                }
            },
        }
    } else {
        (pos, Ok(Seq::empty()))
    }
}

/// `konstanta (ID = expression ;)*`
pub open spec fn sp_const_decl(t: Seq<Token>, pos: int) -> (int, Result<ConstantDeclarationV, SyntaxErrorV>) {
    let (p1, r1) = consume_kw(t, pos, "konstanta"@, "Mengharapkan keyword 'konstanta'."@);
    match r1 {
        Err(e) => (p1, Err(e)),
        Ok(k) => {
            let (p2, r2) = sp_const_defs(t, p1);
            match r2 {
                Err(e) => (p2, Err(e)),
                Ok(cs) => (p2, Ok(ConstantDeclarationV { const_kw: k, constants: cs })),
            }
        },
    }
}

/// Constant sections while the next token is `konstanta`.
pub open spec fn sp_const_loop(t: Seq<Token>, pos: int) -> (int, Result<Seq<ConstantDeclarationV>, SyntaxErrorV>)
    decreases rem(t, pos),
{
    if check_kw(t, pos, "konstanta"@) {
        let (p1, r1) = sp_const_decl(t, pos);
        match r1 {
            Err(e) => (p1, Err(e)),
            Ok(d) => {
                let (p2, r2) = sp_const_loop(t, from(p1, pos + 1));
                match r2 {
                    Err(e) => (p2, Err(e)),
                    Ok(rest) => (p2, Ok(seq![d] + rest)),
                }
            },
        }
    } else {
        (pos, Ok(Seq::empty()))
    }
}

/// `ID = type ;`
pub open spec fn sp_type_def(t: Seq<Token>, pos: int) -> (int, Result<TypeDefinitionV, SyntaxErrorV>) {
    let (p1, r1) = consume(t, pos, TokenType::Identifier, "Mengharapkan nama tipe."@);
    match r1 {
        Err(e) => (p1, Err(e)),
        Ok(name) => {
            let (p2, r2) = consume(t, p1, TokenType::RelationalOperator, "Mengharapkan '='."@);
            match r2 {
                Err(e) => (p2, Err(e)),
                Ok(eq) => if eq.value@ != "="@ {
                    (p2, Err(error_at(t, p2, "Mengharapkan '=' untuk definisi tipe, ditemukan '"@ + eq.value@ + "'"@)))
                } else {
                    let (p3, r3) = sp_type_spec(t, p2);
                    match r3 {
                        Err(e) => (p3, Err(e)),
                        Ok(ty) => {
                            let (p4, r4) = consume(t, p3, TokenType::Semicolon, "Mengharapkan ';' setelah definisi tipe."@);
                            match r4 {
                                Err(e) => (p4, Err(e)),
                                Ok(semi) => (p4, Ok(TypeDefinitionV { name, equals_op: eq, type_def: ty, semicolon: semi })),
                            }
                        },
                    }
                },
            }
        },
    }
}

/// Type definitions while the next token is an identifier.
pub open spec fn sp_type_defs(t: Seq<Token>, pos: int) -> (int, Result<Seq<TypeDefinitionV>, SyntaxErrorV>)
    decreases rem(t, pos),
{
    if check(t, pos, TokenType::Identifier) {
        let (p1, r1) = sp_type_def(t, pos);
        match r1 {
            Err(e) => (p1, Err(e)),
            Ok(d) => {
                let (p2, r2) = sp_type_defs(t, from(p1, pos + 1));
                match r2 {
                    Err(e) => (p2, Err(e)),
                    Ok(rest) => (p2, Ok(seq![d] + rest)),
                }
            },
        }
    } else {
        (pos, Ok(Seq::empty()))
    }
}

/// `tipe (ID = type ;)*`
pub open spec fn sp_type_decl(t: Seq<Token>, pos: int) -> (int, Result<TypeDeclarationV, SyntaxErrorV>) {
    let (p1, r1) = consume_kw(t, pos, "tipe"@, "Mengharapkan keyword 'tipe'."@);
    match r1 {
        Err(e) => (p1, Err(e)),
        Ok(k) => {
            let (p2, r2) = sp_type_defs(t, p1);
            match r2 {
                Err(e) => (p2, Err(e)),
                Ok(ds) => (p2, Ok(TypeDeclarationV { type_kw: k, definitions: ds })),
            }
        },
    }
}

/// Type sections while the next token is `tipe`.
pub open spec fn sp_type_loop(t: Seq<Token>, pos: int) -> (int, Result<Seq<TypeDeclarationV>, SyntaxErrorV>)
    decreases rem(t, pos),
{
    if check_kw(t, pos, "tipe"@) {
        let (p1, r1) = sp_type_decl(t, pos);
        match r1 {
            Err(e) => (p1, Err(e)),
            Ok(d) => {
                let (p2, r2) = sp_type_loop(t, from(p1, pos + 1));
                match r2 {
                    Err(e) => (p2, Err(e)),
                    Ok(rest) => (p2, Ok(seq![d] + rest)),
                }
            },
        }
    } else {
        (pos, Ok(Seq::empty()))
    }
}

/// `ID (, ID)* : type ;`
pub open spec fn sp_var_group(t: Seq<Token>, pos: int) -> (int, Result<VariableGroupV, SyntaxErrorV>) {
    let (p1, r1) = sp_identifier_list(t, pos);
    match r1 {
        Err(e) => (p1, Err(e)),
        Ok(ids) => {
            let (p2, r2) = consume(t, p1, TokenType::Colon, "Mengharapkan ':' setelah daftar identifier."@);
            match r2 {
                Err(e) => (p2, Err(e)),
                Ok(c) => {
                    let (p3, r3) = sp_type_spec(t, p2);
                    match r3 {
                        Err(e) => (p3, Err(e)),
                        Ok(ty) => {
                            let (p4, r4) = consume(t, p3, TokenType::Semicolon, "Mengharapkan ';' setelah deklarasi variabel."@);
                            match r4 {
                                Err(e) => (p4, Err(e)),
                                Ok(semi) => (p4, Ok(VariableGroupV { identifiers: ids, colon: c, var_type: ty, semicolon: semi })),
                            }
                        },
                    }
                },
            }
        },
    }
}

/// Variable groups while the next token is an identifier.
pub open spec fn sp_var_groups(t: Seq<Token>, pos: int) -> (int, Result<Seq<VariableGroupV>, SyntaxErrorV>)
    decreases rem(t, pos),
{
    if check(t, pos, TokenType::Identifier) {
        let (p1, r1) = sp_var_group(t, pos);
        match r1 {
            Err(e) => (p1, Err(e)),
            Ok(g) => {
                let (p2, r2) = sp_var_groups(t, from(p1, pos + 1));
                match r2 {
                    Err(e) => (p2, Err(e)),
                    Ok(rest) => (p2, Ok(seq![g] + rest)),
                }
            },
        }
    } else {
        (pos, Ok(Seq::empty()))
    }
}

/// `variabel (ID (, ID)* : type ;)*`
pub open spec fn sp_var_decl(t: Seq<Token>, pos: int) -> (int, Result<VariableDeclarationV, SyntaxErrorV>) {
    let (p1, r1) = consume_kw(t, pos, "variabel"@, "Mengharapkan keyword 'variabel'."@);
    match r1 {
        Err(e) => (p1, Err(e)),
        Ok(k) => {
            let (p2, r2) = sp_var_groups(t, p1);
            match r2 {
                Err(e) => (p2, Err(e)),
                Ok(gs) => (p2, Ok(VariableDeclarationV { var_kw: k, groups: gs })),
            }
        },
    }
}

/// Variable sections while the next token is `variabel`.
pub open spec fn sp_var_loop(t: Seq<Token>, pos: int) -> (int, Result<Seq<VariableDeclarationV>, SyntaxErrorV>)
    decreases rem(t, pos),
{
    if check_kw(t, pos, "variabel"@) {
        let (p1, r1) = sp_var_decl(t, pos);
        match r1 {
            Err(e) => (p1, Err(e)),
            Ok(d) => {
                let (p2, r2) = sp_var_loop(t, from(p1, pos + 1));
                match r2 {
                    Err(e) => (p2, Err(e)),
                    Ok(rest) => (p2, Ok(seq![d] + rest)),
                }
            },
        }
    } else {
        (pos, Ok(Seq::empty()))
    }
}

/// `[var] ID (, ID)* : type`
pub open spec fn sp_param_group(t: Seq<Token>, pos: int) -> (int, Result<FormalParameterGroupV, SyntaxErrorV>) {
    let (p0, var_kw): (int, Option<Token>) = if check_kw(t, pos, "var"@) { (pos + 1, Some(t[pos])) } else { (pos, None) };
    let (p1, r1) = sp_identifier_list(t, p0);
    match r1 {
        Err(e) => (p1, Err(e)),
        Ok(ids) => {
            let (p2, r2) = consume(t, p1, TokenType::Colon, "Mengharapkan ':' setelah daftar identifier parameter."@);
            match r2 {
                Err(e) => (p2, Err(e)),
                Ok(c) => {
                    let (p3, r3) = sp_type_spec(t, p2);
                    match r3 {
                        Err(e) => (p3, Err(e)),
                        Ok(ty) => (p3, Ok(FormalParameterGroupV { var_kw, identifiers: ids, colon: c, var_type: ty })),
                    }
                },
            }
        },
    }
}

/// `(; group)*`
pub open spec fn sp_param_rest(t: Seq<Token>, pos: int) -> (int, Result<Seq<(Token, FormalParameterGroupV)>, SyntaxErrorV>)
    decreases rem(t, pos),
{
    if check(t, pos, TokenType::Semicolon) {
        let (p1, r1) = sp_param_group(t, pos + 1);
        match r1 {
            Err(e) => (p1, Err(e)),
            Ok(g) => {
                let (p2, r2) = sp_param_rest(t, from(p1, pos + 1));
                match r2 {
                    Err(e) => (p2, Err(e)),
                    Ok(rest) => (p2, Ok(seq![(t[pos], g)] + rest)),
                }
            },
        }
    } else {
        (pos, Ok(Seq::empty()))
    }
}

/// `( [group (; group)*] )`
pub open spec fn sp_params(t: Seq<Token>, pos: int) -> (int, Result<FormalParameterListV, SyntaxErrorV>) {
    let (p1, r1) = consume(t, pos, TokenType::LParenthesis, "Mengharapkan '(' untuk daftar parameter."@);
    match r1 {
        Err(e) => (p1, Err(e)),
        Ok(lp) => {
            let (p2, r2): (int, Result<(Option<FormalParameterGroupV>, Seq<(Token, FormalParameterGroupV)>), SyntaxErrorV>) =
                if !check(t, p1, TokenType::RParenthesis) {
                let (q1, g) = sp_param_group(t, p1);
                match g {
                    Err(e) => (q1, Err(e)),
                    Ok(g) => {
                        let (q2, rest) = sp_param_rest(t, q1);
                        match rest {
                            Err(e) => (q2, Err(e)),
                            Ok(rest) => (q2, Ok((Some(g), rest))),
                        }
                    },
                }
            } else {
                (p1, Ok((None, Seq::empty())))
            };
            match r2 {
                Err(e) => (p2, Err(e)),
                Ok(gr) => {
                    let (p3, r3) = consume(t, p2, TokenType::RParenthesis, "Mengharapkan ')' setelah daftar parameter."@);
                    match r3 {
                        Err(e) => (p3, Err(e)),
                        Ok(rp) => (p3, Ok(FormalParameterListV { l_paren: lp, initial_param: gr.0, rest: gr.1, r_paren: rp })),
                    }
                },
            }
        },
    }
}

/// The declarations of a block: constant, type and variable sections,
/// then subprograms.
pub open spec fn sp_decl_part(t: Seq<Token>, pos: int) -> (int, Result<DeclarationPartV, SyntaxErrorV>)
    decreases rem(t, pos), 30int,
{
    let (p1, r1) = sp_const_loop(t, pos);
    match r1 {
        Err(e) => (p1, Err(e)),
        Ok(cs) => {
            let (p2, r2) = sp_type_loop(t, p1);
            match r2 {
                Err(e) => (p2, Err(e)),
                Ok(ts) => {
                    let (p3, r3) = sp_var_loop(t, p2);
                    match r3 {
                        Err(e) => (p3, Err(e)),
                        Ok(vs) => {
                            let (p4, r4) = sp_sub_loop(t, from(p3, pos));
                            match r4 {
                                Err(e) => (p4, Err(e)),
                                Ok(ss) => (p4, Ok(DeclarationPartV {
                                    const_declarations: cs,
                                    type_declarations: ts,
                                    var_declarations: vs,
                                    subprogram_declarations: ss,
                                })),
                            }
                        },
                    }
                },
            }
        },
    }
}

/// Subprograms while the next token is `prosedur` or `fungsi`.
pub open spec fn sp_sub_loop(t: Seq<Token>, pos: int) -> (int, Result<Seq<SubprogramDeclarationV>, SyntaxErrorV>)
    decreases rem(t, pos), 25int,
{
    if check_kw(t, pos, "prosedur"@) || check_kw(t, pos, "fungsi"@) {
        let (p1, r1) = sp_subprogram(t, pos);
        match r1 {
            Err(e) => (p1, Err(e)),
            Ok(d) => {
                let (p2, r2) = sp_sub_loop(t, from(p1, pos + 1));
                match r2 {
                    Err(e) => (p2, Err(e)),
                    Ok(rest) => (p2, Ok(seq![d] + rest)),
                }
            },
        }
    } else {
        (pos, Ok(Seq::empty()))
    }
}

/// A procedure or function declaration.
#[verifier::opaque]
pub open spec fn sp_subprogram(t: Seq<Token>, pos: int) -> (int, Result<SubprogramDeclarationV, SyntaxErrorV>)
    decreases rem(t, pos), 24int,
{
    if check_kw(t, pos, "prosedur"@) {
        sp_procedure(t, pos)
    } else if check_kw(t, pos, "fungsi"@) {
        sp_function(t, pos)
    } else {
        (pos, Err(error_at(t, pos, "Mengharapkan 'prosedur' atau 'fungsi'."@)))
    }
}

/// `prosedur ID (params) ; declarations compound ;`
pub open spec fn sp_procedure(t: Seq<Token>, pos: int) -> (int, Result<SubprogramDeclarationV, SyntaxErrorV>)
    decreases rem(t, pos), 23int,
{
    let (p1, r1) = consume_kw(t, pos, "prosedur"@, "Mengharapkan keyword 'prosedur'."@);
    match r1 {
        Err(e) => (p1, Err(e)),
        Ok(k) => {
            let (p2, r2) = consume(t, p1, TokenType::Identifier, "Mengharapkan nama prosedur."@);
            match r2 {
                Err(e) => (p2, Err(e)),
                Ok(name) => {
                    let (p3, r3) = sp_params(t, p2);
                    match r3 {
                        Err(e) => (p3, Err(e)),
                        Ok(ps) => {
                            let (p4, r4) = consume(t, p3, TokenType::Semicolon, "Mengharapkan ';' setelah header prosedur."@);
                            match r4 {
                                Err(e) => (p4, Err(e)),
                                Ok(hs) => {
                                    let (p5, r5) = sp_decl_part(t, from(p4, pos + 1));
                                    match r5 {
                                        Err(e) => (p5, Err(e)),
                                        Ok(ds) => {
                                            let (p6, r6) = sp_compound(t, p5);
                                            match r6 {
                                                Err(e) => (p6, Err(e)),
                                                Ok(body) => {
                                                    let (p7, r7) = consume(t, p6, TokenType::Semicolon, "Mengharapkan ';' setelah blok prosedur."@);
                                                    match r7 {
                                                        Err(e) => (p7, Err(e)),
                                                        Ok(bs) => (p7, Ok(SubprogramDeclarationV::Procedure(ProcedureDeclarationV {
                                                            proc_kw: k,
                                                            name,
                                                            parameters: ps,
                                                            header_semicolon: hs,
                                                            declarations: ds,
                                                            body,
                                                            block_semicolon: bs,
                                                        }))),
                                                    }
                                                },
                                            }
                                        },
                                    }
                                },
                            }
                        },
                    }
                },
            }
        },
    }
}

/// `fungsi ID (params) : type ; declarations compound ;`
pub open spec fn sp_function(t: Seq<Token>, pos: int) -> (int, Result<SubprogramDeclarationV, SyntaxErrorV>)
    decreases rem(t, pos), 23int,
{
    let (p1, r1) = consume_kw(t, pos, "fungsi"@, "Mengharapkan keyword 'fungsi'."@);
    match r1 {
        Err(e) => (p1, Err(e)),
        Ok(k) => {
            let (p2, r2) = consume(t, p1, TokenType::Identifier, "Mengharapkan nama fungsi."@);
            match r2 {
                Err(e) => (p2, Err(e)),
                Ok(name) => {
                    let (p3, r3) = sp_params(t, p2);
                    match r3 {
                        Err(e) => (p3, Err(e)),
                        Ok(ps) => {
                            let (p4, r4) = consume(t, p3, TokenType::Colon, "Mengharapkan ':' untuk tipe return fungsi."@);
                            match r4 {
                                Err(e) => (p4, Err(e)),
                                Ok(c) => {
                                    let (p5, r5) = sp_type_spec(t, p4);
                                    match r5 {
                                        Err(e) => (p5, Err(e)),
                                        Ok(rt) => {
                                            let (p6, r6) = consume(t, p5, TokenType::Semicolon, "Mengharapkan ';' setelah header fungsi."@);
                                            match r6 {
                                                Err(e) => (p6, Err(e)),
                                                Ok(hs) => {
                                                    let (p7, r7) = sp_decl_part(t, from(p6, pos + 1));
                                                    match r7 {
                                                        Err(e) => (p7, Err(e)),
                                                        Ok(ds) => {
                                                            let (p8, r8) = sp_compound(t, p7);
                                                            match r8 {
                                                                Err(e) => (p8, Err(e)),
                                                                Ok(body) => {
                                                                    let (p9, r9) = consume(t, p8, TokenType::Semicolon, "Mengharapkan ';' setelah blok fungsi."@);
                                                                    match r9 {
                                                                        Err(e) => (p9, Err(e)),
                                                                        Ok(bs) => (p9, Ok(SubprogramDeclarationV::Function(FunctionDeclarationV {
                                                                            func_kw: k,
                                                                            name,
                                                                            parameters: ps,
                                                                            colon: c,
                                                                            return_type: rt,
                                                                            header_semicolon: hs,
                                                                            declarations: ds,
                                                                            body,
                                                                            block_semicolon: bs,
                                                                        }))),
                                                                    }
                                                                },
                                                            }
                                                        },
                                                    }
                                                },
                                            }
                                        },
                                    }
                                },
                            }
                        },
                    }
                },
            }
        },
    }
}

/// `program ID ; declarations compound .`
pub open spec fn sp_program(t: Seq<Token>, pos: int) -> (int, Result<ProgramV, SyntaxErrorV>) {
    let (p1, r1) = consume_kw(t, pos, "program"@, "Mengharapkan keyword 'program'."@);
    match r1 {
        Err(e) => (p1, Err(e)),
        Ok(k) => {
            let (p2, r2) = consume(t, p1, TokenType::Identifier, "Mengharapkan nama program."@);
            match r2 {
                Err(e) => (p2, Err(e)),
                Ok(name) => {
                    let (p3, r3) = consume(t, p2, TokenType::Semicolon, "Mengharapkan ';' setelah nama program."@);
                    match r3 {
                        Err(e) => (p3, Err(e)),
                        Ok(semi) => {
                            let (p4, r4) = sp_decl_part(t, p3);
                            match r4 {
                                Err(e) => (p4, Err(e)),
                                Ok(ds) => {
                                    let (p5, r5) = sp_compound(t, p4);
                                    match r5 {
                                        Err(e) => (p5, Err(e)),
                                        Ok(body) => {
                                            let (p6, r6) = consume(t, p5, TokenType::Dot, "Mengharapkan '.' di akhir program."@);
                                            match r6 {
                                                Err(e) => (p6, Err(e)),
                                                Ok(dot) => (p6, Ok(ProgramV {
                                                    header: ProgramHeaderV { program_kw: k, name, semicolon: semi },
                                                    declarations: ds,
                                                    body,
                                                    dot,
                                                })),
                                            }
                                        },
                                    }
                                },
                            }
                        },
                    }
                },
            }
        },
    }
}

} // verus!
