//! Building the abstract syntax tree from the concrete one: operators
//! become left-nested binary expressions, literals become values, and
//! each declaration and statement keeps the position of its first token.
use vstd::prelude::*;
use crate::lexer::token_types::{Token, TokenType};
use crate::parser::parse_tree as cst;
use crate::parser::parse_tree::{
    lemma_seq_view_constant_declaration, lemma_seq_view_constant_definition, lemma_seq_view_subprogram_declaration,
    lemma_seq_view_token_formal_parameter_group, lemma_seq_view_token_token, lemma_seq_view_type_declaration,
    lemma_seq_view_type_definition, lemma_seq_view_variable_declaration, lemma_seq_view_variable_group,
    seq_view_constant_declaration, seq_view_constant_definition, seq_view_subprogram_declaration,
    seq_view_token_formal_parameter_group, seq_view_type_declaration, seq_view_type_definition,
    seq_view_variable_declaration, seq_view_variable_group,
    lemma_seq_view_case_branch, lemma_seq_view_token_boxed_statement, lemma_seq_view_token_expression,
    seq_view_case_branch, seq_view_token_boxed_statement, seq_view_token_expression,
    lemma_seq_view_token_boxed_expression, lemma_seq_view_token_boxed_factor, lemma_seq_view_token_boxed_simple_expression,
    lemma_seq_view_token_boxed_term, seq_view_token_boxed_expression, seq_view_token_boxed_factor,
    seq_view_token_boxed_simple_expression, seq_view_token_boxed_term,
};
use crate::semantic_analyzer::ast::ast::{
    BinOp, BlockStmt, CaseBranch, CaseBranchV, Decl, DeclV, Expr, ExprKind, ExprKindV, ExprV, ForDirection, Param, ParamV, ProgramAST, ProgramV,
    names_view, param_view,
    SemanticDataV, Stmt, StmtV, TypeKind, TypeKindV, UnOp, branches_view, decls_view, exprs_view, params_view,
    stmts_view, lemma_branches_view_concat, lemma_decls_view_concat, lemma_exprs_view_concat, lemma_stmts_view_concat,
    lemma_branches_view, lemma_decls_view, lemma_exprs_view, lemma_stmts_view,
};
use crate::semantic_analyzer::error::{ErrorKindView, SemanticError, SemanticErrorKind, SemanticErrorView};
use crate::text::{drop_leading, drop_trailing, i32_of, lowercase_of, parse_i32, str_eq, string_of, to_lowercase, trim_char, trim_matches_char};

verus! {

/// The builder of abstract syntax trees.
pub struct ASTBuilder;

/// An expression of form `kind` at a position, not yet annotated.
pub open spec fn expr_at(kind: ExprKindV, line: nat, col: nat) -> ExprV {
    ExprV { kind, annotation: SemanticDataV { type_kind: None, tab_index: None, is_const: false }, line, column: col }
}

/// A generic error at a token.
pub open spec fn error_at_token(msg: Seq<char>, tok: Token) -> SemanticErrorView {
    SemanticErrorView { kind: ErrorKindView::GenericError(msg), line: tok.line as nat, column: tok.column as nat }
}

/// The binary operator a token stands for, by its lower-case spelling.
pub open spec fn bin_op_of(tok: Token) -> Result<BinOp, SemanticErrorView> {
    let v = lowercase_of(tok.value@);
    if v == "+"@ {
        Ok(BinOp::Add)
    } else if v == "-"@ {
        Ok(BinOp::Sub)
    } else if v == "*"@ {
        Ok(BinOp::Mul)
    } else if v == "/"@ {
        Ok(BinOp::DivReal)
    } else if v == "div"@ || v == "bagi"@ {
        Ok(BinOp::DivInt)
    } else if v == "mod"@ {
        Ok(BinOp::Mod)
    } else if v == "and"@ || v == "dan"@ {
        Ok(BinOp::And)
    } else if v == "or"@ || v == "atau"@ {
        Ok(BinOp::Or)
    } else if v == "="@ {
        Ok(BinOp::Eq)
    } else if v == "<>"@ {
        Ok(BinOp::Neq)
    } else if v == "<"@ {
        Ok(BinOp::Lt)
    } else if v == "<="@ {
        Ok(BinOp::Lte)
    } else if v == ">"@ {
        Ok(BinOp::Gt)
    } else if v == ">="@ {
        Ok(BinOp::Gte)
    } else {
        Err(error_at_token("Unknown binary operator: "@ + tok.value@, tok))
    }
}

/// The value of a literal token: an integer (zero when it does not fit),
/// a real kept as written, a string or character without its quotes
/// (`'\0'` for an empty one), or `benar`/`salah` as written in lower case.
pub open spec fn literal_of(tok: Token) -> Result<ExprKindV, SemanticErrorView> {
    if tok.token_type == TokenType::IntegerLiteral {
        Ok(ExprKindV::LiteralInt(match i32_of(tok.value@) {
            Some(v) => v,
            None => 0,
        }))
    } else if tok.token_type == TokenType::RealLiteral {
        Ok(ExprKindV::LiteralReal(tok.value@))
    } else if tok.token_type == TokenType::StringLiteral {
        Ok(ExprKindV::LiteralString(trim_char(tok.value@, '\'')))
    } else if tok.token_type == TokenType::CharLiteral {
        let s = trim_char(tok.value@, '\'');
        Ok(ExprKindV::LiteralChar(if s.len() > 0 { s[0] } else { '\0' }))
    } else if tok.token_type == TokenType::Keyword && tok.value@ == "benar"@ {
        Ok(ExprKindV::LiteralBool(true))
    } else if tok.token_type == TokenType::Keyword && tok.value@ == "salah"@ {
        Ok(ExprKindV::LiteralBool(false))
    } else {
        Err(error_at_token("Unknown literal type: "@ + tok.value@, tok))
    }
}

/// Operators of one level group from the left: `a - b - c` is
/// `(a - b) - c`. The root of the folded tree is the last operator, with the
/// last operand on its right, and the tree keeps the position of its
/// leftmost operand.
pub proof fn law_terms_group_from_the_left(left: ExprV, rest: Seq<(Token, Box<cst::TermV>)>, i: int)
    requires
        0 <= i < rest.len(),
    ensures
        fold_simple(left, rest, i) matches Ok(e) ==> {
            &&& e.line == left.line
            &&& e.column == left.column
            &&& e.kind matches ExprKindV::Binary { op, right, .. }
            &&& bin_op_of(rest.last().0) == Ok::<BinOp, SemanticErrorView>(op)
            &&& bd_term(*rest.last().1) == Ok::<ExprV, SemanticErrorView>(*right)
        },
    decreases rest.len() - i,
{
    match bd_term(*rest[i].1) {
        Err(_) => {},
        Ok(r) => match bin_op_of(rest[i].0) {
            Err(_) => {},
            Ok(op) => {
                if i + 1 < rest.len() {
                    law_terms_group_from_the_left(binary_at(left, op, r), rest, i + 1);
                } else {
                    assert(rest.last() == rest[i]);
                    assert(fold_simple(binary_at(left, op, r), rest, i + 1) == Ok::<ExprV, SemanticErrorView>(
                        binary_at(left, op, r),
                    ));
                }
            },
        },
    }
}

/// Multiplicative operators group from the left: `a / b * c` is
/// `(a / b) * c`, placed at its leftmost operand.
pub proof fn law_factors_group_from_the_left(left: ExprV, rest: Seq<(Token, Box<cst::FactorV>)>, i: int)
    requires
        0 <= i < rest.len(),
    ensures
        fold_term(left, rest, i) matches Ok(e) ==> {
            &&& e.line == left.line
            &&& e.column == left.column
            &&& e.kind matches ExprKindV::Binary { op, right, .. }
            &&& bin_op_of(rest.last().0) == Ok::<BinOp, SemanticErrorView>(op)
            &&& bd_factor(*rest.last().1) == Ok::<ExprV, SemanticErrorView>(*right)
        },
    decreases rest.len() - i,
{
    match bd_factor(*rest[i].1) {
        Err(_) => {},
        Ok(r) => match bin_op_of(rest[i].0) {
            Err(_) => {},
            Ok(op) => {
                if i + 1 < rest.len() {
                    law_factors_group_from_the_left(binary_at(left, op, r), rest, i + 1);
                } else {
                    assert(rest.last() == rest[i]);
                    assert(fold_term(binary_at(left, op, r), rest, i + 1) == Ok::<ExprV, SemanticErrorView>(
                        binary_at(left, op, r),
                    ));
                }
            },
        },
    }
}

/// Relational operators group from the left, placed at the leftmost
/// operand.
pub proof fn law_comparisons_group_from_the_left(left: ExprV, rest: Seq<(Token, Box<cst::SimpleExpressionV>)>, i: int)
    requires
        0 <= i < rest.len(),
    ensures
        fold_expr(left, rest, i) matches Ok(e) ==> {
            &&& e.line == left.line
            &&& e.column == left.column
            &&& e.kind matches ExprKindV::Binary { op, right, .. }
            &&& bin_op_of(rest.last().0) == Ok::<BinOp, SemanticErrorView>(op)
            &&& bd_simple(*rest.last().1) == Ok::<ExprV, SemanticErrorView>(*right)
        },
    decreases rest.len() - i,
{
    match bd_simple(*rest[i].1) {
        Err(_) => {},
        Ok(r) => match bin_op_of(rest[i].0) {
            Err(_) => {},
            Ok(op) => {
                if i + 1 < rest.len() {
                    law_comparisons_group_from_the_left(binary_at(left, op, r), rest, i + 1);
                } else {
                    assert(rest.last() == rest[i]);
                    assert(fold_expr(binary_at(left, op, r), rest, i + 1) == Ok::<ExprV, SemanticErrorView>(
                        binary_at(left, op, r),
                    ));
                }
            },
        },
    }
}

/// The keyword `benar` is the literal true and `salah` the literal false.
pub proof fn law_boolean_literals(tok: Token)
    requires
        tok.token_type == TokenType::Keyword,
    ensures
        tok.value@ == "benar"@ ==> literal_of(tok) == Ok::<ExprKindV, SemanticErrorView>(ExprKindV::LiteralBool(true)),
        tok.value@ == "salah"@ ==> literal_of(tok) == Ok::<ExprKindV, SemanticErrorView>(ExprKindV::LiteralBool(false)),
{
    reveal_strlit("benar");
    reveal_strlit("salah");
}

/// A number literal has the value it spells; a string or character literal
/// is what stands between its quotes.
pub proof fn law_literal_values(tok: Token, inner: Seq<char>)
    ensures
        tok.token_type == TokenType::IntegerLiteral && i32_of(tok.value@) is Some ==> literal_of(tok)
            == Ok::<ExprKindV, SemanticErrorView>(ExprKindV::LiteralInt(i32_of(tok.value@)->Some_0)),
        tok.token_type == TokenType::RealLiteral ==> literal_of(tok)
            == Ok::<ExprKindV, SemanticErrorView>(ExprKindV::LiteralReal(tok.value@)),
        tok.token_type == TokenType::StringLiteral && tok.value@ == seq!['\''] + inner + seq!['\''] && (inner.len() == 0
            || (inner[0] != '\'' && inner.last() != '\'')) ==> literal_of(tok)
            == Ok::<ExprKindV, SemanticErrorView>(ExprKindV::LiteralString(inner)),
        tok.token_type == TokenType::CharLiteral && inner.len() == 1 && inner[0] != '\'' && tok.value@ == seq!['\'']
            + inner + seq!['\''] ==> literal_of(tok)
            == Ok::<ExprKindV, SemanticErrorView>(ExprKindV::LiteralChar(inner[0])),
{
    lemma_trim_quotes(inner);
}

/// Trimming the quotes around a text that neither starts nor ends with a
/// quote gives back the text.
pub proof fn lemma_trim_quotes(inner: Seq<char>)
    ensures
        inner.len() == 0 || (inner[0] != '\'' && inner.last() != '\'') ==> trim_char(
            seq!['\''] + inner + seq!['\''],
            '\'',
        ) == inner,
{
    let q = '\'';
    let w = seq![q] + inner + seq![q];
    if inner.len() == 0 || (inner[0] != q && inner.last() != q) {
        assert(w.drop_first() =~= inner + seq![q]);
        if inner.len() == 0 {
            assert(seq![q].drop_first() =~= Seq::<char>::empty());
            assert(drop_leading(inner + seq![q], q) == drop_leading(seq![q].drop_first(), q));
            assert(drop_leading(w, q) =~= Seq::<char>::empty());
        } else {
            assert((inner + seq![q])[0] == inner[0]);
            assert(drop_leading(inner + seq![q], q) == inner + seq![q]);
            assert(w[0] == q);
            assert(drop_leading(w, q) == inner + seq![q]);
            assert((inner + seq![q]).drop_last() =~= inner);
            assert(drop_trailing(inner + seq![q], q) == drop_trailing(inner, q));
        }
    }
}

/// The spelling of an operator token, in any case, names its operator.
pub proof fn law_operator_spellings(tok: Token)
    ensures
        lowercase_of(tok.value@) == "+"@ ==> bin_op_of(tok) == Ok::<BinOp, SemanticErrorView>(BinOp::Add),
        lowercase_of(tok.value@) == "-"@ ==> bin_op_of(tok) == Ok::<BinOp, SemanticErrorView>(BinOp::Sub),
        lowercase_of(tok.value@) == "*"@ ==> bin_op_of(tok) == Ok::<BinOp, SemanticErrorView>(BinOp::Mul),
        lowercase_of(tok.value@) == "/"@ ==> bin_op_of(tok) == Ok::<BinOp, SemanticErrorView>(BinOp::DivReal),
        lowercase_of(tok.value@) == "bagi"@ ==> bin_op_of(tok) == Ok::<BinOp, SemanticErrorView>(BinOp::DivInt),
        lowercase_of(tok.value@) == "div"@ ==> bin_op_of(tok) == Ok::<BinOp, SemanticErrorView>(BinOp::DivInt),
        lowercase_of(tok.value@) == "mod"@ ==> bin_op_of(tok) == Ok::<BinOp, SemanticErrorView>(BinOp::Mod),
        lowercase_of(tok.value@) == "dan"@ ==> bin_op_of(tok) == Ok::<BinOp, SemanticErrorView>(BinOp::And),
        lowercase_of(tok.value@) == "and"@ ==> bin_op_of(tok) == Ok::<BinOp, SemanticErrorView>(BinOp::And),
        lowercase_of(tok.value@) == "atau"@ ==> bin_op_of(tok) == Ok::<BinOp, SemanticErrorView>(BinOp::Or),
        lowercase_of(tok.value@) == "or"@ ==> bin_op_of(tok) == Ok::<BinOp, SemanticErrorView>(BinOp::Or),
        lowercase_of(tok.value@) == "="@ ==> bin_op_of(tok) == Ok::<BinOp, SemanticErrorView>(BinOp::Eq),
        lowercase_of(tok.value@) == "<>"@ ==> bin_op_of(tok) == Ok::<BinOp, SemanticErrorView>(BinOp::Neq),
        lowercase_of(tok.value@) == "<"@ ==> bin_op_of(tok) == Ok::<BinOp, SemanticErrorView>(BinOp::Lt),
        lowercase_of(tok.value@) == "<="@ ==> bin_op_of(tok) == Ok::<BinOp, SemanticErrorView>(BinOp::Lte),
        lowercase_of(tok.value@) == ">"@ ==> bin_op_of(tok) == Ok::<BinOp, SemanticErrorView>(BinOp::Gt),
        lowercase_of(tok.value@) == ">="@ ==> bin_op_of(tok) == Ok::<BinOp, SemanticErrorView>(BinOp::Gte),
{
    let v = lowercase_of(tok.value@);
    if v == "+"@ {
        reveal_strlit("+");
    }
    if v == "-"@ {
        reveal_strlit("-");
        reveal_strlit("+");
        assert(v[0] != "+"@[0]);
    }
    if v == "*"@ {
        reveal_strlit("*");
        reveal_strlit("+");
        assert(v[0] != "+"@[0]);
        reveal_strlit("-");
        assert(v[0] != "-"@[0]);
    }
    if v == "/"@ {
        reveal_strlit("/");
        reveal_strlit("+");
        assert(v[0] != "+"@[0]);
        reveal_strlit("-");
        assert(v[0] != "-"@[0]);
        reveal_strlit("*");
        assert(v[0] != "*"@[0]);
    }
    if v == "div"@ {
        reveal_strlit("div");
        reveal_strlit("+");
        assert(v.len() != "+"@.len());
        reveal_strlit("-");
        assert(v.len() != "-"@.len());
        reveal_strlit("*");
        assert(v.len() != "*"@.len());
        reveal_strlit("/");
        assert(v.len() != "/"@.len());
    }
    if v == "bagi"@ {
        reveal_strlit("bagi");
        reveal_strlit("+");
        assert(v.len() != "+"@.len());
        reveal_strlit("-");
        assert(v.len() != "-"@.len());
        reveal_strlit("*");
        assert(v.len() != "*"@.len());
        reveal_strlit("/");
        assert(v.len() != "/"@.len());
        reveal_strlit("div");
        assert(v.len() != "div"@.len());
    }
    if v == "mod"@ {
        reveal_strlit("mod");
        reveal_strlit("+");
        assert(v.len() != "+"@.len());
        reveal_strlit("-");
        assert(v.len() != "-"@.len());
        reveal_strlit("*");
        assert(v.len() != "*"@.len());
        reveal_strlit("/");
        assert(v.len() != "/"@.len());
        reveal_strlit("div");
        assert(v[0] != "div"@[0]);
        reveal_strlit("bagi");
        assert(v.len() != "bagi"@.len());
    }
    if v == "and"@ {
        reveal_strlit("and");
        reveal_strlit("+");
        assert(v.len() != "+"@.len());
        reveal_strlit("-");
        assert(v.len() != "-"@.len());
        reveal_strlit("*");
        assert(v.len() != "*"@.len());
        reveal_strlit("/");
        assert(v.len() != "/"@.len());
        reveal_strlit("div");
        assert(v[0] != "div"@[0]);
        reveal_strlit("bagi");
        assert(v.len() != "bagi"@.len());
        reveal_strlit("mod");
        assert(v[0] != "mod"@[0]);
    }
    if v == "dan"@ {
        reveal_strlit("dan");
        reveal_strlit("+");
        assert(v.len() != "+"@.len());
        reveal_strlit("-");
        assert(v.len() != "-"@.len());
        reveal_strlit("*");
        assert(v.len() != "*"@.len());
        reveal_strlit("/");
        assert(v.len() != "/"@.len());
        reveal_strlit("div");
        assert(v[1] != "div"@[1]);
        reveal_strlit("bagi");
        assert(v.len() != "bagi"@.len());
        reveal_strlit("mod");
        assert(v[0] != "mod"@[0]);
        reveal_strlit("and");
        assert(v[0] != "and"@[0]);
    }
    if v == "or"@ {
        reveal_strlit("or");
        reveal_strlit("+");
        assert(v.len() != "+"@.len());
        reveal_strlit("-");
        assert(v.len() != "-"@.len());
        reveal_strlit("*");
        assert(v.len() != "*"@.len());
        reveal_strlit("/");
        assert(v.len() != "/"@.len());
        reveal_strlit("div");
        assert(v.len() != "div"@.len());
        reveal_strlit("bagi");
        assert(v.len() != "bagi"@.len());
        reveal_strlit("mod");
        assert(v.len() != "mod"@.len());
        reveal_strlit("and");
        assert(v.len() != "and"@.len());
        reveal_strlit("dan");
        assert(v.len() != "dan"@.len());
    }
    if v == "atau"@ {
        reveal_strlit("atau");
        reveal_strlit("+");
        assert(v.len() != "+"@.len());
        reveal_strlit("-");
        assert(v.len() != "-"@.len());
        reveal_strlit("*");
        assert(v.len() != "*"@.len());
        reveal_strlit("/");
        assert(v.len() != "/"@.len());
        reveal_strlit("div");
        assert(v.len() != "div"@.len());
        reveal_strlit("bagi");
        assert(v[0] != "bagi"@[0]);
        reveal_strlit("mod");
        assert(v.len() != "mod"@.len());
        reveal_strlit("and");
        assert(v.len() != "and"@.len());
        reveal_strlit("dan");
        assert(v.len() != "dan"@.len());
        reveal_strlit("or");
        assert(v.len() != "or"@.len());
    }
    if v == "="@ {
        reveal_strlit("=");
        reveal_strlit("+");
        assert(v[0] != "+"@[0]);
        reveal_strlit("-");
        assert(v[0] != "-"@[0]);
        reveal_strlit("*");
        assert(v[0] != "*"@[0]);
        reveal_strlit("/");
        assert(v[0] != "/"@[0]);
        reveal_strlit("div");
        assert(v.len() != "div"@.len());
        reveal_strlit("bagi");
        assert(v.len() != "bagi"@.len());
        reveal_strlit("mod");
        assert(v.len() != "mod"@.len());
        reveal_strlit("and");
        assert(v.len() != "and"@.len());
        reveal_strlit("dan");
        assert(v.len() != "dan"@.len());
        reveal_strlit("or");
        assert(v.len() != "or"@.len());
        reveal_strlit("atau");
        assert(v.len() != "atau"@.len());
    }
    if v == "<>"@ {
        reveal_strlit("<>");
        reveal_strlit("+");
        assert(v.len() != "+"@.len());
        reveal_strlit("-");
        assert(v.len() != "-"@.len());
        reveal_strlit("*");
        assert(v.len() != "*"@.len());
        reveal_strlit("/");
        assert(v.len() != "/"@.len());
        reveal_strlit("div");
        assert(v.len() != "div"@.len());
        reveal_strlit("bagi");
        assert(v.len() != "bagi"@.len());
        reveal_strlit("mod");
        assert(v.len() != "mod"@.len());
        reveal_strlit("and");
        assert(v.len() != "and"@.len());
        reveal_strlit("dan");
        assert(v.len() != "dan"@.len());
        reveal_strlit("or");
        assert(v[0] != "or"@[0]);
        reveal_strlit("atau");
        assert(v.len() != "atau"@.len());
        reveal_strlit("=");
        assert(v.len() != "="@.len());
    }
    if v == "<"@ {
        reveal_strlit("<");
        reveal_strlit("+");
        assert(v[0] != "+"@[0]);
        reveal_strlit("-");
        assert(v[0] != "-"@[0]);
        reveal_strlit("*");
        assert(v[0] != "*"@[0]);
        reveal_strlit("/");
        assert(v[0] != "/"@[0]);
        reveal_strlit("div");
        assert(v.len() != "div"@.len());
        reveal_strlit("bagi");
        assert(v.len() != "bagi"@.len());
        reveal_strlit("mod");
        assert(v.len() != "mod"@.len());
        reveal_strlit("and");
        assert(v.len() != "and"@.len());
        reveal_strlit("dan");
        assert(v.len() != "dan"@.len());
        reveal_strlit("or");
        assert(v.len() != "or"@.len());
        reveal_strlit("atau");
        assert(v.len() != "atau"@.len());
        reveal_strlit("=");
        assert(v[0] != "="@[0]);
        reveal_strlit("<>");
        assert(v.len() != "<>"@.len());
    }
    if v == "<="@ {
        reveal_strlit("<=");
        reveal_strlit("+");
        assert(v.len() != "+"@.len());
        reveal_strlit("-");
        assert(v.len() != "-"@.len());
        reveal_strlit("*");
        assert(v.len() != "*"@.len());
        reveal_strlit("/");
        assert(v.len() != "/"@.len());
        reveal_strlit("div");
        assert(v.len() != "div"@.len());
        reveal_strlit("bagi");
        assert(v.len() != "bagi"@.len());
        reveal_strlit("mod");
        assert(v.len() != "mod"@.len());
        reveal_strlit("and");
        assert(v.len() != "and"@.len());
        reveal_strlit("dan");
        assert(v.len() != "dan"@.len());
        reveal_strlit("or");
        assert(v[0] != "or"@[0]);
        reveal_strlit("atau");
        assert(v.len() != "atau"@.len());
        reveal_strlit("=");
        assert(v.len() != "="@.len());
        reveal_strlit("<>");
        assert(v[1] != "<>"@[1]);
        reveal_strlit("<");
        assert(v.len() != "<"@.len());
    }
    if v == ">"@ {
        reveal_strlit(">");
        reveal_strlit("+");
        assert(v[0] != "+"@[0]);
        reveal_strlit("-");
        assert(v[0] != "-"@[0]);
        reveal_strlit("*");
        assert(v[0] != "*"@[0]);
        reveal_strlit("/");
        assert(v[0] != "/"@[0]);
        reveal_strlit("div");
        assert(v.len() != "div"@.len());
        reveal_strlit("bagi");
        assert(v.len() != "bagi"@.len());
        reveal_strlit("mod");
        assert(v.len() != "mod"@.len());
        reveal_strlit("and");
        assert(v.len() != "and"@.len());
        reveal_strlit("dan");
        assert(v.len() != "dan"@.len());
        reveal_strlit("or");
        assert(v.len() != "or"@.len());
        reveal_strlit("atau");
        assert(v.len() != "atau"@.len());
        reveal_strlit("=");
        assert(v[0] != "="@[0]);
        reveal_strlit("<>");
        assert(v.len() != "<>"@.len());
        reveal_strlit("<");
        assert(v[0] != "<"@[0]);
        reveal_strlit("<=");
        assert(v.len() != "<="@.len());
    }
    if v == ">="@ {
        reveal_strlit(">=");
        reveal_strlit("+");
        assert(v.len() != "+"@.len());
        reveal_strlit("-");
        assert(v.len() != "-"@.len());
        reveal_strlit("*");
        assert(v.len() != "*"@.len());
        reveal_strlit("/");
        assert(v.len() != "/"@.len());
        reveal_strlit("div");
        assert(v.len() != "div"@.len());
        reveal_strlit("bagi");
        assert(v.len() != "bagi"@.len());
        reveal_strlit("mod");
        assert(v.len() != "mod"@.len());
        reveal_strlit("and");
        assert(v.len() != "and"@.len());
        reveal_strlit("dan");
        assert(v.len() != "dan"@.len());
        reveal_strlit("or");
        assert(v[0] != "or"@[0]);
        reveal_strlit("atau");
        assert(v.len() != "atau"@.len());
        reveal_strlit("=");
        assert(v.len() != "="@.len());
        reveal_strlit("<>");
        assert(v[0] != "<>"@[0]);
        reveal_strlit("<");
        assert(v.len() != "<"@.len());
        reveal_strlit("<=");
        assert(v[0] != "<="@[0]);
        reveal_strlit(">");
        assert(v.len() != ">"@.len());
    }
}

/// `left op right`, at the position of `left`.
pub open spec fn binary_at(left: ExprV, op: BinOp, right: ExprV) -> ExprV {
    expr_at(ExprKindV::Binary { left: Box::new(left), op, right: Box::new(right) }, left.line, left.column)
}

/// An expression: its simple expressions folded from the left.
pub open spec fn bd_expr(x: cst::ExpressionV) -> Result<ExprV, SemanticErrorView>
    decreases x, 0int,
{
    match bd_simple(*x.initial_simple_expr) {
        Err(e) => Err(e),
        Ok(l) => fold_expr(l, x.rest, 0),
    }
}

/// Folding `left` with the operators and operands from `rest[i]` on.
pub open spec fn fold_expr(left: ExprV, rest: Seq<(Token, Box<cst::SimpleExpressionV>)>, i: int) -> Result<ExprV, SemanticErrorView>
    decreases rest, rest.len() - i,
{
    if i < 0 || i >= rest.len() {
        Ok(left)
    } else {
        match bd_simple(*rest[i].1) {
            Err(e) => Err(e),
            Ok(r) => match bin_op_of(rest[i].0) {
                Err(e) => Err(e),
                Ok(op) => fold_expr(binary_at(left, op, r), rest, i + 1),
            },
        }
    }
}

/// A simple expression: its terms folded from the left.
pub open spec fn bd_simple(x: cst::SimpleExpressionV) -> Result<ExprV, SemanticErrorView>
    decreases x, 0int,
{
    match bd_term(*x.initial_term) {
        Err(e) => Err(e),
        Ok(l) => fold_simple(l, x.rest, 0),
    }
}

/// Folding `left` with the operators and terms from `rest[i]` on.
pub open spec fn fold_simple(left: ExprV, rest: Seq<(Token, Box<cst::TermV>)>, i: int) -> Result<ExprV, SemanticErrorView>
    decreases rest, rest.len() - i,
{
    if i < 0 || i >= rest.len() {
        Ok(left)
    } else {
        match bd_term(*rest[i].1) {
            Err(e) => Err(e),
            Ok(r) => match bin_op_of(rest[i].0) {
                Err(e) => Err(e),
                Ok(op) => fold_simple(binary_at(left, op, r), rest, i + 1),
            },
        }
    }
}

/// A term: its factors folded from the left.
pub open spec fn bd_term(x: cst::TermV) -> Result<ExprV, SemanticErrorView>
    decreases x, 0int,
{
    match bd_factor(*x.initial_factor) {
        Err(e) => Err(e),
        Ok(l) => fold_term(l, x.rest, 0),
    }
}

/// Folding `left` with the operators and factors from `rest[i]` on.
pub open spec fn fold_term(left: ExprV, rest: Seq<(Token, Box<cst::FactorV>)>, i: int) -> Result<ExprV, SemanticErrorView>
    decreases rest, rest.len() - i,
{
    if i < 0 || i >= rest.len() {
        Ok(left)
    } else {
        match bd_factor(*rest[i].1) {
            Err(e) => Err(e),
            Ok(r) => match bin_op_of(rest[i].0) {
                Err(e) => Err(e),
                Ok(op) => fold_term(binary_at(left, op, r), rest, i + 1),
            },
        }
    }
}

/// A factor.
pub open spec fn bd_factor(f: cst::FactorV) -> Result<ExprV, SemanticErrorView>
    decreases f, 0int,
{
    match f {
        cst::FactorV::Literal(lit) => match literal_of(lit.token) {
            Err(e) => Err(e),
            Ok(k) => Ok(expr_at(k, lit.token.line as nat, lit.token.column as nat)),
        },
        cst::FactorV::Identifier(tok) => Ok(expr_at(ExprKindV::Variable(tok.value@), tok.line as nat, tok.column as nat)),
        cst::FactorV::Parenthesized(p) => bd_expr(*p.expr),
        cst::FactorV::Not(n) => match bd_factor(*n.factor) {
            Err(e) => Err(e),
            Ok(inner) => Ok(expr_at(
                ExprKindV::Unary { op: UnOp::Not, operand: Box::new(inner) },
                n.not_token.line as nat,
                n.not_token.column as nat,
            )),
        },
        cst::FactorV::ArithmeticUnary(u) => match bd_factor(*u.factor) {
            Err(e) => Err(e),
            Ok(inner) => Ok(expr_at(
                ExprKindV::Unary { op: if u.op.value@ == "+"@ { UnOp::Plus } else { UnOp::Neg }, operand: Box::new(inner) },
                u.op.line as nat,
                u.op.column as nat,
            )),
        },
        cst::FactorV::FunctionCall(c) => {
            let args: Result<Seq<ExprV>, SemanticErrorView> = match c.arguments {
                Some(a) => bd_args(a),
                None => Ok(Seq::empty()),
            };
            match args {
                Err(e) => Err(e),
                Ok(args) => Ok(expr_at(
                    ExprKindV::FunctionCall { name: c.function_name.value@, args },
                    c.function_name.line as nat,
                    c.function_name.column as nat,
                )),
            }
        },
        cst::FactorV::ArrayAccess(a) => match bd_expr(*a.array) {
            Err(e) => Err(e),
            Ok(arr) => match bd_expr(*a.index) {
                Err(e) => Err(e),
                Ok(idx) => Ok(expr_at(ExprKindV::ArrayAccess { array: Box::new(arr), index: Box::new(idx) }, arr.line, arr.column)),
            },
        },
    }
}

/// The arguments of a call, in order.
pub open spec fn bd_args(a: cst::ActualParameterListV) -> Result<Seq<ExprV>, SemanticErrorView>
    decreases a, 0int,
{
    match bd_expr(*a.initial_arg) {
        Err(e) => Err(e),
        Ok(first) => match args_from(a.rest, 0) {
            Err(e) => Err(e),
            Ok(tail) => Ok(seq![first] + tail),
        },
    }
}

/// The arguments from `rest[i]` on.
pub open spec fn args_from(rest: Seq<(Token, Box<cst::ExpressionV>)>, i: int) -> Result<Seq<ExprV>, SemanticErrorView>
    decreases rest, rest.len() - i,
{
    if i < 0 || i >= rest.len() {
        Ok(Seq::empty())
    } else {
        match bd_expr(*rest[i].1) {
            Err(e) => Err(e),
            Ok(x) => match args_from(rest, i + 1) {
                Err(e) => Err(e),
                Ok(tail) => Ok(seq![x] + tail),
            },
        }
    }
}

/// A type as written.
pub open spec fn bd_type(t: cst::TypeV) -> Result<TypeKindV, SemanticErrorView>
    decreases t,
{
    match t {
        cst::TypeV::Integer(_) => Ok(TypeKindV::Integer),
        cst::TypeV::Real(_) => Ok(TypeKindV::Real),
        cst::TypeV::Boolean(_) => Ok(TypeKindV::Boolean),
        cst::TypeV::Char(_) => Ok(TypeKindV::Char),
        cst::TypeV::String(_) => Ok(TypeKindV::String),
        cst::TypeV::TypeIdentifier(tok) => Ok(TypeKindV::Custom(tok.value@)),
        cst::TypeV::Subrange(r) => match bd_expr(*r.start) {
            Err(e) => Err(e),
            Ok(a) => match bd_expr(*r.end) {
                Err(e) => Err(e),
                Ok(b) => Ok(TypeKindV::Subrange(Box::new(a), Box::new(b))),
            },
        },
        cst::TypeV::Array(arr) => match bd_type(*arr.index_type) {
            Err(e) => Err(e),
            Ok(i) => match bd_type(*arr.base_type) {
                Err(e) => Err(e),
                Ok(b) => Ok(TypeKindV::Array { index_range: Box::new(i), element_type: Box::new(b) }),
            },
        },
    }
}

/// The expressions from `rest[i]` on of a label list.
pub open spec fn labels_from(rest: Seq<(Token, cst::ExpressionV)>, i: int) -> Result<Seq<ExprV>, SemanticErrorView>
    decreases rest.len() - i,
{
    if i < 0 || i >= rest.len() {
        Ok(Seq::empty())
    } else {
        match bd_expr(rest[i].1) {
            Err(e) => Err(e),
            Ok(x) => match labels_from(rest, i + 1) {
                Err(e) => Err(e),
                Ok(tail) => Ok(seq![x] + tail),
            },
        }
    }
}

/// The labels of a case branch, in order.
pub open spec fn bd_labels(l: cst::CaseLabelListV) -> Result<Seq<ExprV>, SemanticErrorView> {
    match bd_expr(l.initial_label) {
        Err(e) => Err(e),
        Ok(first) => match labels_from(l.rest, 0) {
            Err(e) => Err(e),
            Ok(tail) => Ok(seq![first] + tail),
        },
    }
}

/// A statement.
#[verifier::opaque]
pub open spec fn bd_stmt(s: cst::StatementV) -> Result<StmtV, SemanticErrorView>
    decreases s, 0int,
{
    match s {
        cst::StatementV::Assignment(a) => match bd_expr(a.variable) {
            Err(e) => Err(e),
            Ok(target) => match bd_expr(a.expression) {
                Err(e) => Err(e),
                Ok(value) => Ok(StmtV::Assignment {
                    target,
                    value,
                    line: a.assign_op.line as nat,
                    column: a.assign_op.column as nat,
                }),
            },
        },
        cst::StatementV::Compound(b) => match bd_block(b) {
            Err(e) => Err(e),
            Ok(ss) => Ok(StmtV::Compound(ss)),
        },
        cst::StatementV::If(i) => match bd_expr(i.condition) {
            Err(e) => Err(e),
            Ok(c) => match bd_stmt(*i.then_branch) {
                Err(e) => Err(e),
                Ok(t) => {
                    let el: Result<Option<Box<StmtV>>, SemanticErrorView> = match i.else_clause {
                        Some(ec) => match bd_stmt(*ec.statement) {
                            Err(e) => Err(e),
                            Ok(x) => Ok(Some(Box::new(x))),
                        },
                        None => Ok(None),
                    };
                    match el {
                        Err(e) => Err(e),
                        Ok(el) => Ok(StmtV::If {
                            condition: c,
                            then_branch: Box::new(t),
                            else_branch: el,
                            line: i.if_kw.line as nat,
                            column: i.if_kw.column as nat,
                        }),
                    }
                },
            },
        },
        cst::StatementV::While(w) => match bd_expr(w.condition) {
            Err(e) => Err(e),
            Ok(c) => match bd_stmt(*w.body) {
                Err(e) => Err(e),
                Ok(b) => Ok(StmtV::While {
                    condition: c,
                    body: Box::new(b),
                    line: w.while_kw.line as nat,
                    column: w.while_kw.column as nat,
                }),
            },
        },
        cst::StatementV::For(f) => match bd_expr(f.start_value) {
            Err(e) => Err(e),
            Ok(st) => match bd_expr(f.end_value) {
                Err(e) => Err(e),
                Ok(en) => match bd_stmt(*f.body) {
                    Err(e) => Err(e),
                    Ok(b) => Ok(StmtV::For {
                        iterator: f.counter_variable.value@,
                        start: st,
                        end: en,
                        direction: if lowercase_of(f.direction_kw.value@) == "ke"@ {
                            ForDirection::To
                        } else {
                            ForDirection::Downto
                        },
                        body: Box::new(b),
                        line: f.for_kw.line as nat,
                        column: f.for_kw.column as nat,
                    }),
                },
            },
        },
        cst::StatementV::ProcedureCall(pc) => {
            let args: Result<Seq<ExprV>, SemanticErrorView> = match pc.call.arguments {
                Some(a) => bd_args(a),
                None => Ok(Seq::empty()),
            };
            match args {
                Err(e) => Err(e),
                Ok(args) => Ok(StmtV::ProcedureCall {
                    name: pc.call.function_name.value@,
                    args,
                    line: pc.call.function_name.line as nat,
                    column: pc.call.function_name.column as nat,
                }),
            }
        },
        cst::StatementV::Repeat(r) => match bd_list(r.statement_list) {
            Err(e) => Err(e),
            Ok(body) => match bd_expr(r.condition) {
                Err(e) => Err(e),
                Ok(c) => Ok(StmtV::Repeat {
                    body,
                    condition: c,
                    line: r.repeat_kw.line as nat,
                    column: r.repeat_kw.column as nat,
                }),
            },
        },
        cst::StatementV::Case(c) => match bd_branches(c.branches, 0) {
            Err(e) => Err(e),
            Ok(bs) => {
                let el: Result<Option<Seq<StmtV>>, SemanticErrorView> = match c.else_clause {
                    Some(ec) => match bd_list(ec.statement_list) {
                        Err(e) => Err(e),
                        Ok(x) => Ok(Some(x)),
                    },
                    None => Ok(None),
                };
                match el {
                    Err(e) => Err(e),
                    Ok(el) => match bd_expr(c.expression) {
                        Err(e) => Err(e),
                        Ok(op) => Ok(StmtV::Case {
                            operand: op,
                            branches: bs,
                            else_branch: el,
                            line: c.case_kw.line as nat,
                            column: c.case_kw.column as nat,
                        }),
                    },
                }
            },
        },
    }
}

/// The statements of a compound statement.
pub open spec fn bd_block(c: cst::CompoundStatementV) -> Result<Seq<StmtV>, SemanticErrorView>
    decreases c, 0int,
{
    bd_list(c.statement_list)
}

/// The statements of a statement list, in order.
pub open spec fn bd_list(l: cst::StatementListV) -> Result<Seq<StmtV>, SemanticErrorView>
    decreases l, 0int,
{
    let first: Result<Seq<StmtV>, SemanticErrorView> = match l.initial_stmt {
        Some(s) => match bd_stmt(*s) {
            Err(e) => Err(e),
            Ok(x) => Ok(seq![x]),
        },
        None => Ok(Seq::empty()),
    };
    match first {
        Err(e) => Err(e),
        Ok(first) => match list_from(l.rest, 0) {
            Err(e) => Err(e),
            Ok(tail) => Ok(first + tail),
        },
    }
}

/// The statements from `rest[i]` on.
pub open spec fn list_from(rest: Seq<(Token, Box<cst::StatementV>)>, i: int) -> Result<Seq<StmtV>, SemanticErrorView>
    decreases rest, rest.len() - i,
{
    if i < 0 || i >= rest.len() {
        Ok(Seq::empty())
    } else {
        match bd_stmt(*rest[i].1) {
            Err(e) => Err(e),
            Ok(x) => match list_from(rest, i + 1) {
                Err(e) => Err(e),
                Ok(tail) => Ok(seq![x] + tail),
            },
        }
    }
}

/// The branches from `bs[i]` on: the labels of each, then its statement.
pub open spec fn bd_branches(bs: Seq<cst::CaseBranchV>, i: int) -> Result<Seq<CaseBranchV>, SemanticErrorView>
    decreases bs, bs.len() - i,
{
    if i < 0 || i >= bs.len() {
        Ok(Seq::empty())
    } else {
        match bd_labels(bs[i].labels) {
            Err(e) => Err(e),
            Ok(labels) => match bd_stmt(*bs[i].statement) {
                Err(e) => Err(e),
                Ok(st) => match bd_branches(bs, i + 1) {
                    Err(e) => Err(e),
                    Ok(tail) => Ok(seq![CaseBranchV { labels, stmt: st }] + tail),
                },
            },
        }
    }
}

/// The names of an identifier list, in order.
pub open spec fn id_names(il: cst::IdentifierListV) -> Seq<Seq<char>> {
    seq![il.initial_id.value@] + il.rest.map_values(|p: (Token, Token)| p.1.value@)
}

/// A parameter group.
pub open spec fn bd_param(g: cst::FormalParameterGroupV) -> Result<ParamV, SemanticErrorView> {
    match bd_type(g.var_type) {
        Err(e) => Err(e),
        Ok(t) => Ok(ParamV { names: id_names(g.identifiers), type_kind: t, is_var: g.var_kw is Some }),
    }
}

/// The parameter groups from `rest[i]` on.
pub open spec fn params_from(rest: Seq<(Token, cst::FormalParameterGroupV)>, i: int) -> Result<Seq<ParamV>, SemanticErrorView>
    decreases rest.len() - i,
{
    if i < 0 || i >= rest.len() {
        Ok(Seq::empty())
    } else {
        match bd_param(rest[i].1) {
            Err(e) => Err(e),
            Ok(p) => match params_from(rest, i + 1) {
                Err(e) => Err(e),
                Ok(tail) => Ok(seq![p] + tail),
            },
        }
    }
}

/// The parameter groups of a parameter list, in order.
pub open spec fn bd_params(fp: cst::FormalParameterListV) -> Result<Seq<ParamV>, SemanticErrorView> {
    let first: Result<Seq<ParamV>, SemanticErrorView> = match fp.initial_param {
        Some(g) => match bd_param(g) {
            Err(e) => Err(e),
            Ok(p) => Ok(seq![p]),
        },
        None => Ok(Seq::empty()),
    };
    match first {
        Err(e) => Err(e),
        Ok(first) => match params_from(fp.rest, 0) {
            Err(e) => Err(e),
            Ok(tail) => Ok(first + tail),
        },
    }
}

/// The constants defined from `cs[j]` on.
pub open spec fn const_defs_from(cs: Seq<cst::ConstantDefinitionV>, j: int) -> Result<Seq<DeclV>, SemanticErrorView>
    decreases cs.len() - j,
{
    if j < 0 || j >= cs.len() {
        Ok(Seq::empty())
    } else {
        match bd_expr(cs[j].value) {
            Err(e) => Err(e),
            Ok(v) => match const_defs_from(cs, j + 1) {
                Err(e) => Err(e),
                Ok(tail) => Ok(seq![DeclV::Constant {
                    name: cs[j].name.value@,
                    value: v,
                    line: cs[j].name.line as nat,
                    column: cs[j].name.column as nat,
                }] + tail),
            },
        }
    }
}

/// The constants of the constant sections from `secs[i]` on.
pub open spec fn consts_from(secs: Seq<cst::ConstantDeclarationV>, i: int) -> Result<Seq<DeclV>, SemanticErrorView>
    decreases secs.len() - i,
{
    if i < 0 || i >= secs.len() {
        Ok(Seq::empty())
    } else {
        match const_defs_from(secs[i].constants, 0) {
            Err(e) => Err(e),
            Ok(a) => match consts_from(secs, i + 1) {
                Err(e) => Err(e),
                Ok(b) => Ok(a + b),
            },
        }
    }
}

/// The types defined from `ds[j]` on.
pub open spec fn type_defs_from(ds: Seq<cst::TypeDefinitionV>, j: int) -> Result<Seq<DeclV>, SemanticErrorView>
    decreases ds.len() - j,
{
    if j < 0 || j >= ds.len() {
        Ok(Seq::empty())
    } else {
        match bd_type(ds[j].type_def) {
            Err(e) => Err(e),
            Ok(t) => match type_defs_from(ds, j + 1) {
                Err(e) => Err(e),
                Ok(tail) => Ok(seq![DeclV::Type {
                    name: ds[j].name.value@,
                    wrapped_type: t,
                    line: ds[j].name.line as nat,
                    column: ds[j].name.column as nat,
                }] + tail),
            },
        }
    }
}

/// The types of the type sections from `secs[i]` on.
pub open spec fn types_from(secs: Seq<cst::TypeDeclarationV>, i: int) -> Result<Seq<DeclV>, SemanticErrorView>
    decreases secs.len() - i,
{
    if i < 0 || i >= secs.len() {
        Ok(Seq::empty())
    } else {
        match type_defs_from(secs[i].definitions, 0) {
            Err(e) => Err(e),
            Ok(a) => match types_from(secs, i + 1) {
                Err(e) => Err(e),
                Ok(b) => Ok(a + b),
            },
        }
    }
}

/// The variable groups from `gs[j]` on.
pub open spec fn var_groups_from(gs: Seq<cst::VariableGroupV>, j: int) -> Result<Seq<DeclV>, SemanticErrorView>
    decreases gs.len() - j,
{
    if j < 0 || j >= gs.len() {
        Ok(Seq::empty())
    } else {
        match bd_type(gs[j].var_type) {
            Err(e) => Err(e),
            Ok(t) => match var_groups_from(gs, j + 1) {
                Err(e) => Err(e),
                Ok(tail) => Ok(seq![DeclV::Variable {
                    name: id_names(gs[j].identifiers),
                    type_kind: t,
                    line: gs[j].identifiers.initial_id.line as nat,
                    column: gs[j].identifiers.initial_id.column as nat,
                }] + tail),
            },
        }
    }
}

/// The variables of the variable sections from `secs[i]` on.
pub open spec fn vars_from(secs: Seq<cst::VariableDeclarationV>, i: int) -> Result<Seq<DeclV>, SemanticErrorView>
    decreases secs.len() - i,
{
    if i < 0 || i >= secs.len() {
        Ok(Seq::empty())
    } else {
        match var_groups_from(secs[i].groups, 0) {
            Err(e) => Err(e),
            Ok(a) => match vars_from(secs, i + 1) {
                Err(e) => Err(e),
                Ok(b) => Ok(a + b),
            },
        }
    }
}

/// The declarations of a block: constants, types, variables, then
/// subprograms, each in order.
#[verifier::opaque]
pub open spec fn bd_decls(d: cst::DeclarationPartV) -> Result<Seq<DeclV>, SemanticErrorView>
    decreases d, 0int,
{
    match consts_from(d.const_declarations, 0) {
        Err(e) => Err(e),
        Ok(cs) => match types_from(d.type_declarations, 0) {
            Err(e) => Err(e),
            Ok(ts) => match vars_from(d.var_declarations, 0) {
                Err(e) => Err(e),
                Ok(vs) => match subs_from(d.subprogram_declarations, 0) {
                    Err(e) => Err(e),
                    Ok(ss) => Ok(cs + ts + vs + ss),
                },
            },
        },
    }
}

/// The subprograms from `subs[i]` on.
pub open spec fn subs_from(subs: Seq<cst::SubprogramDeclarationV>, i: int) -> Result<Seq<DeclV>, SemanticErrorView>
    decreases subs, subs.len() - i,
{
    if i < 0 || i >= subs.len() {
        Ok(Seq::empty())
    } else {
        match bd_subprogram(subs[i]) {
            Err(e) => Err(e),
            Ok(d) => match subs_from(subs, i + 1) {
                Err(e) => Err(e),
                Ok(tail) => Ok(seq![d] + tail),
            },
        }
    }
}

/// A procedure or function, at the position of its keyword.
#[verifier::opaque]
pub open spec fn bd_subprogram(sp: cst::SubprogramDeclarationV) -> Result<DeclV, SemanticErrorView>
    decreases sp, 0int,
{
    match sp {
        cst::SubprogramDeclarationV::Procedure(p) => match bd_params(p.parameters) {
            Err(e) => Err(e),
            Ok(ps) => match bd_decls(p.declarations) {
                Err(e) => Err(e),
                Ok(ds) => match bd_block(p.body) {
                    Err(e) => Err(e),
                    Ok(body) => Ok(DeclV::Procedure {
                        name: p.name.value@,
                        params: ps,
                        local_decls: ds,
                        body,
                        line: p.proc_kw.line as nat,
                        column: p.proc_kw.column as nat,
                    }),
                },
            },
        },
        cst::SubprogramDeclarationV::Function(f) => match bd_params(f.parameters) {
            Err(e) => Err(e),
            Ok(ps) => match bd_type(f.return_type) {
                Err(e) => Err(e),
                Ok(rt) => match bd_decls(f.declarations) {
                    Err(e) => Err(e),
                    Ok(ds) => match bd_block(f.body) {
                        Err(e) => Err(e),
                        Ok(body) => Ok(DeclV::Function {
                            name: f.name.value@,
                            params: ps,
                            return_type: rt,
                            local_decls: ds,
                            body,
                            line: f.func_kw.line as nat,
                            column: f.func_kw.column as nat,
                        }),
                    },
                },
            },
        },
    }
}

/// A whole program: its name, declarations and main body.
pub open spec fn bd_program(p: cst::ProgramV) -> Result<ProgramV, SemanticErrorView> {
    match bd_decls(p.declarations) {
        Err(e) => Err(e),
        Ok(ds) => match bd_block(p.body) {
            Err(e) => Err(e),
            Ok(body) => Ok(ProgramV { name: p.header.name.value@, declarations: ds, main_body: body }),
        },
    }
}

/// A built tree or an error, as a value.
pub open spec fn built<X: View>(r: Result<X, SemanticError>) -> Result<X::V, SemanticErrorView> {
    match r {
        Ok(x) => Ok(x@),
        Err(e) => Err(e@),
    }
}

/// Built expressions or an error, as values.
pub open spec fn built_exprs(r: Result<Vec<Expr>, SemanticError>) -> Result<Seq<ExprV>, SemanticErrorView> {
    match r {
        Ok(x) => Ok(exprs_view(x@)),
        Err(e) => Err(e@),
    }
}

/// Built statements or an error, as values.
pub open spec fn built_stmts(r: Result<Vec<Stmt>, SemanticError>) -> Result<Seq<StmtV>, SemanticErrorView> {
    match r {
        Ok(x) => Ok(stmts_view(x@)),
        Err(e) => Err(e@),
    }
}

/// Built declarations or an error, as values.
pub open spec fn built_decls(r: Result<Vec<Decl>, SemanticError>) -> Result<Seq<DeclV>, SemanticErrorView> {
    match r {
        Ok(x) => Ok(decls_view(x@)),
        Err(e) => Err(e@),
    }
}

/// Built parameter groups or an error, as values.
pub open spec fn built_params(r: Result<Vec<Param>, SemanticError>) -> Result<Seq<ParamV>, SemanticErrorView> {
    match r {
        Ok(x) => Ok(params_view(x@)),
        Err(e) => Err(e@),
    }
}

/// Built case branches or an error, as values.
pub open spec fn built_branches(r: Result<Vec<CaseBranch>, SemanticError>) -> Result<Seq<CaseBranchV>, SemanticErrorView> {
    match r {
        Ok(x) => Ok(branches_view(x@)),
        Err(e) => Err(e@),
    }
}

/// An expression in front of a list: its value in front of the values.
pub proof fn lemma_exprs_cons(x: Expr, s: Seq<Expr>)
    ensures
        exprs_view(seq![x] + s) == seq![x@] + exprs_view(s),
{
    lemma_exprs_view_concat(seq![x], s);
    lemma_exprs_view(seq![x]);
    assert(exprs_view(seq![x]) =~= seq![x@]);
}

/// A statement in front of a list: its value in front of the values.
pub proof fn lemma_stmts_cons(x: Stmt, s: Seq<Stmt>)
    ensures
        stmts_view(seq![x] + s) == seq![x@] + stmts_view(s),
{
    lemma_stmts_view_concat(seq![x], s);
    lemma_stmts_view(seq![x]);
    assert(stmts_view(seq![x]) =~= seq![x@]);
}

/// A declaration in front of a list: its value in front of the values.
pub proof fn lemma_decls_cons(x: Decl, s: Seq<Decl>)
    ensures
        decls_view(seq![x] + s) == seq![x@] + decls_view(s),
{
    lemma_decls_view_concat(seq![x], s);
    lemma_decls_view(seq![x]);
    assert(decls_view(seq![x]) =~= seq![x@]);
}

/// A branch in front of a list: its value in front of the values.
pub proof fn lemma_branches_cons(x: CaseBranch, s: Seq<CaseBranch>)
    ensures
        branches_view(seq![x] + s) == seq![CaseBranchV { labels: exprs_view(x.labels@), stmt: x.stmt@ }] + branches_view(s),
{
    lemma_branches_view_concat(seq![x], s);
    lemma_branches_view(seq![x]);
    assert(branches_view(seq![x]) =~= seq![CaseBranchV { labels: exprs_view(x.labels@), stmt: x.stmt@ }]);
}

impl ASTBuilder {
    /// The binary operator a token stands for.
    fn map_bin_op(token: &Token) -> (r: Result<BinOp, SemanticError>)
        ensures
            match r {
                Ok(op) => bin_op_of(*token) == Ok::<BinOp, SemanticErrorView>(op),
                Err(e) => bin_op_of(*token) == Err::<BinOp, SemanticErrorView>(e@),
            },
    {
        let lower = to_lowercase(token.value.as_str());
        let v = lower.as_str();
        if str_eq(v, "+") {
            Ok(BinOp::Add)
        } else if str_eq(v, "-") {
            Ok(BinOp::Sub)
        } else if str_eq(v, "*") {
            Ok(BinOp::Mul)
        } else if str_eq(v, "/") {
            Ok(BinOp::DivReal)
        } else if str_eq(v, "div") || str_eq(v, "bagi") {
            Ok(BinOp::DivInt)
        } else if str_eq(v, "mod") {
            Ok(BinOp::Mod)
        } else if str_eq(v, "and") || str_eq(v, "dan") {
            Ok(BinOp::And)
        } else if str_eq(v, "or") || str_eq(v, "atau") {
            Ok(BinOp::Or)
        } else if str_eq(v, "=") {
            Ok(BinOp::Eq)
        } else if str_eq(v, "<>") {
            Ok(BinOp::Neq)
        } else if str_eq(v, "<") {
            Ok(BinOp::Lt)
        } else if str_eq(v, "<=") {
            Ok(BinOp::Lte)
        } else if str_eq(v, ">") {
            Ok(BinOp::Gt)
        } else if str_eq(v, ">=") {
            Ok(BinOp::Gte)
        } else {
            let mut msg = string_of("Unknown binary operator: ");
            msg.append(token.value.as_str());
            Err(SemanticError::new(SemanticErrorKind::GenericError(msg), token.line, token.column))
        }
    }

    /// The expression form of a literal token.
    fn literal_kind(tok: &Token) -> (r: Result<ExprKind, SemanticError>)
        ensures
            built(r) == literal_of(*tok),
    {
        if tok.token_type == TokenType::IntegerLiteral {
            let v = match parse_i32(tok.value.as_str()) {
                Some(v) => v,
                None => 0,
            };
            Ok(ExprKind::LiteralInt(v))
        } else if tok.token_type == TokenType::RealLiteral {
            Ok(ExprKind::LiteralReal(tok.value.clone()))
        } else if tok.token_type == TokenType::StringLiteral {
            Ok(ExprKind::LiteralString(trim_matches_char(tok.value.as_str(), '\'')))
        } else if tok.token_type == TokenType::CharLiteral {
            let s = trim_matches_char(tok.value.as_str(), '\'');
            let c = if s.as_str().unicode_len() > 0 {
                s.as_str().get_char(0)
            } else {
                '\0'
            };
            Ok(ExprKind::LiteralChar(c))
        } else if tok.token_type == TokenType::Keyword && str_eq(tok.value.as_str(), "benar") {
            Ok(ExprKind::LiteralBool(true))
        } else if tok.token_type == TokenType::Keyword && str_eq(tok.value.as_str(), "salah") {
            Ok(ExprKind::LiteralBool(false))
        } else {
            let mut msg = string_of("Unknown literal type: ");
            msg.append(tok.value.as_str());
            Err(SemanticError::new(SemanticErrorKind::GenericError(msg), tok.line, tok.column))
        }
    }

    /// Builds an expression of this level, folding its operators from the left.
    #[verifier::spinoff_prover]
    fn build_expr(x: &cst::Expression) -> (r: Result<Expr, SemanticError>)
        ensures
            built(r) == bd_expr(x@),
        decreases x, 0int,
    {
        let left = match Self::build_simple_expr(&x.initial_simple_expr) {
            Ok(l) => l,
            Err(e) => return Err(e),
        };
        Self::fold_expr(left, &x.rest, 0)
    }

    /// Folds `left` with the operators and operands from `rest[i]` on.
    #[verifier::spinoff_prover]
    fn fold_expr(left: Expr, rest: &Vec<(Token, Box<cst::SimpleExpression>)>, i: usize) -> (r: Result<Expr, SemanticError>)
        requires
            i <= rest@.len(),
        ensures
            built(r) == fold_expr(left@, seq_view_token_boxed_simple_expression(rest@), i as int),
        decreases rest, rest@.len() - i,
    {
        proof { lemma_seq_view_token_boxed_simple_expression(rest@); }
        if i >= rest.len() {
            return Ok(left);
        }
        proof {
            vstd::std_specs::vec::axiom_vec_index_decreases(*rest, i as int);
        }
        let right = match Self::build_simple_expr(&rest[i].1) {
            Ok(x) => x,
            Err(e) => return Err(e),
        };
        let line = left.line;
        let col = left.column;
        let op = match Self::map_bin_op(&rest[i].0) {
            Ok(op) => op,
            Err(e) => return Err(e),
        };
        let kind = ExprKind::Binary { left: Box::new(left), op, right: Box::new(right) };
        Self::fold_expr(Expr::new(kind, line, col), rest, i + 1)
    }

    /// Builds an expression of this level, folding its operators from the left.
    #[verifier::spinoff_prover]
    fn build_simple_expr(x: &cst::SimpleExpression) -> (r: Result<Expr, SemanticError>)
        ensures
            built(r) == bd_simple(x@),
        decreases x, 0int,
    {
        let left = match Self::build_term(&x.initial_term) {
            Ok(l) => l,
            Err(e) => return Err(e),
        };
        Self::fold_simple(left, &x.rest, 0)
    }

    /// Folds `left` with the operators and operands from `rest[i]` on.
    #[verifier::spinoff_prover]
    fn fold_simple(left: Expr, rest: &Vec<(Token, Box<cst::Term>)>, i: usize) -> (r: Result<Expr, SemanticError>)
        requires
            i <= rest@.len(),
        ensures
            built(r) == fold_simple(left@, seq_view_token_boxed_term(rest@), i as int),
        decreases rest, rest@.len() - i,
    {
        proof { lemma_seq_view_token_boxed_term(rest@); }
        if i >= rest.len() {
            return Ok(left);
        }
        proof {
            vstd::std_specs::vec::axiom_vec_index_decreases(*rest, i as int);
        }
        let right = match Self::build_term(&rest[i].1) {
            Ok(x) => x,
            Err(e) => return Err(e),
        };
        let line = left.line;
        let col = left.column;
        let op = match Self::map_bin_op(&rest[i].0) {
            Ok(op) => op,
            Err(e) => return Err(e),
        };
        let kind = ExprKind::Binary { left: Box::new(left), op, right: Box::new(right) };
        Self::fold_simple(Expr::new(kind, line, col), rest, i + 1)
    }

    /// Builds an expression of this level, folding its operators from the left.
    #[verifier::spinoff_prover]
    fn build_term(x: &cst::Term) -> (r: Result<Expr, SemanticError>)
        ensures
            built(r) == bd_term(x@),
        decreases x, 0int,
    {
        let left = match Self::build_factor(&x.initial_factor) {
            Ok(l) => l,
            Err(e) => return Err(e),
        };
        Self::fold_term(left, &x.rest, 0)
    }

    /// Folds `left` with the operators and operands from `rest[i]` on.
    #[verifier::spinoff_prover]
    fn fold_term(left: Expr, rest: &Vec<(Token, Box<cst::Factor>)>, i: usize) -> (r: Result<Expr, SemanticError>)
        requires
            i <= rest@.len(),
        ensures
            built(r) == fold_term(left@, seq_view_token_boxed_factor(rest@), i as int),
        decreases rest, rest@.len() - i,
    {
        proof { lemma_seq_view_token_boxed_factor(rest@); }
        if i >= rest.len() {
            return Ok(left);
        }
        proof {
            vstd::std_specs::vec::axiom_vec_index_decreases(*rest, i as int);
        }
        let right = match Self::build_factor(&rest[i].1) {
            Ok(x) => x,
            Err(e) => return Err(e),
        };
        let line = left.line;
        let col = left.column;
        let op = match Self::map_bin_op(&rest[i].0) {
            Ok(op) => op,
            Err(e) => return Err(e),
        };
        let kind = ExprKind::Binary { left: Box::new(left), op, right: Box::new(right) };
        Self::fold_term(Expr::new(kind, line, col), rest, i + 1)
    }

    /// Builds a factor.
    #[verifier::spinoff_prover]
    #[verifier::rlimit(50)]
    fn build_factor(factor: &cst::Factor) -> (r: Result<Expr, SemanticError>)
        ensures
            built(r) == bd_factor(factor@),
        decreases factor, 0int,
    {
        match factor {
            cst::Factor::Literal(lit) => {
                let k = match Self::literal_kind(&lit.token) {
                    Ok(k) => k,
                    Err(e) => return Err(e),
                };
                Ok(Expr::new(k, lit.token.line, lit.token.column))
            },
            cst::Factor::Identifier(tok) => Ok(Expr::new(ExprKind::Variable(tok.value.clone()), tok.line, tok.column)),
            cst::Factor::Parenthesized(paren) => Self::build_expr(&paren.expr),
            cst::Factor::Not(not_factor) => {
                let inner = match Self::build_factor(&not_factor.factor) {
                    Ok(x) => x,
                    Err(e) => return Err(e),
                };
                Ok(Expr::new(
                    ExprKind::Unary { op: UnOp::Not, operand: Box::new(inner) },
                    not_factor.not_token.line,
                    not_factor.not_token.column,
                ))
            },
            cst::Factor::ArithmeticUnary(unary) => {
                let op = if str_eq(unary.op.value.as_str(), "+") {
                    UnOp::Plus
                } else {
                    UnOp::Neg
                };
                let inner = match Self::build_factor(&unary.factor) {
                    Ok(x) => x,
                    Err(e) => return Err(e),
                };
                Ok(Expr::new(ExprKind::Unary { op, operand: Box::new(inner) }, unary.op.line, unary.op.column))
            },
            cst::Factor::FunctionCall(call_node) => {
                let args = match &call_node.arguments {
                    Some(arg_list) => match Self::build_arg_list(arg_list) {
                        Ok(a) => a,
                        Err(e) => return Err(e),
                    },
                    None => Vec::new(),
                };
                proof { assert(exprs_view(Seq::<Expr>::empty()) =~= Seq::empty()); }
                Ok(Expr::new(
                    ExprKind::FunctionCall { name: call_node.function_name.value.clone(), args },
                    call_node.function_name.line,
                    call_node.function_name.column,
                ))
            },
            cst::Factor::ArrayAccess(access) => {
                let array_expr = match Self::build_expr(&access.array) {
                    Ok(x) => x,
                    Err(e) => return Err(e),
                };
                let l = array_expr.line;
                let c = array_expr.column;
                let index = match Self::build_expr(&access.index) {
                    Ok(x) => x,
                    Err(e) => return Err(e),
                };
                Ok(Expr::new(ExprKind::ArrayAccess { array: Box::new(array_expr), index: Box::new(index) }, l, c))
            },
        }
    }

    /// Builds the arguments of a call, in order.
    #[verifier::spinoff_prover]
    fn build_arg_list(list: &cst::ActualParameterList) -> (r: Result<Vec<Expr>, SemanticError>)
        ensures
            built_exprs(r) == bd_args(list@),
        decreases list, 0int,
    {
        let first = match Self::build_expr(&list.initial_arg) {
            Ok(x) => x,
            Err(e) => return Err(e),
        };
        let mut tail = match Self::args_from(&list.rest, 0) {
            Ok(t) => t,
            Err(e) => return Err(e),
        };
        proof { lemma_exprs_cons(first, tail@); }
        let ghost t0 = tail@;
        tail.insert(0, first);
        proof { assert(tail@ =~= seq![first] + t0); }
        Ok(tail)
    }

    /// Builds the arguments from `rest[i]` on.
    #[verifier::spinoff_prover]
    fn args_from(rest: &Vec<(Token, Box<cst::Expression>)>, i: usize) -> (r: Result<Vec<Expr>, SemanticError>)
        requires
            i <= rest@.len(),
        ensures
            built_exprs(r) == args_from(seq_view_token_boxed_expression(rest@), i as int),
        decreases rest, rest@.len() - i,
    {
        proof { lemma_seq_view_token_boxed_expression(rest@); }
        if i >= rest.len() {
            proof { assert(exprs_view(Seq::<Expr>::empty()) =~= Seq::empty()); }
            return Ok(Vec::new());
        }
        proof {
            vstd::std_specs::vec::axiom_vec_index_decreases(*rest, i as int);
        }
        let x = match Self::build_expr(&rest[i].1) {
            Ok(x) => x,
            Err(e) => return Err(e),
        };
        let mut tail = match Self::args_from(rest, i + 1) {
            Ok(t) => t,
            Err(e) => return Err(e),
        };
        proof { lemma_exprs_cons(x, tail@); }
        let ghost t0 = tail@;
        tail.insert(0, x);
        proof { assert(tail@ =~= seq![x] + t0); }
        Ok(tail)
    }

    /// Builds a type.
    #[verifier::spinoff_prover]
    fn build_type(cst_type: &cst::Type) -> (r: Result<TypeKind, SemanticError>)
        ensures
            built(r) == bd_type(cst_type@),
        decreases cst_type,
    {
        proof { reveal(cst::type_view); }
        match cst_type {
            cst::Type::Integer(_) => Ok(TypeKind::Integer),
            cst::Type::Real(_) => Ok(TypeKind::Real),
            cst::Type::Boolean(_) => Ok(TypeKind::Boolean),
            cst::Type::Char(_) => Ok(TypeKind::Char),
            cst::Type::String(_) => Ok(TypeKind::String),
            cst::Type::TypeIdentifier(tok) => Ok(TypeKind::Custom(tok.value.clone())),
            cst::Type::Subrange(range) => {
                let a = match Self::build_expr(&range.start) {
                    Ok(x) => x,
                    Err(e) => return Err(e),
                };
                let b = match Self::build_expr(&range.end) {
                    Ok(x) => x,
                    Err(e) => return Err(e),
                };
                Ok(TypeKind::Subrange(Box::new(a), Box::new(b)))
            },
            cst::Type::Array(arr) => {
                let i = match Self::build_type(&arr.index_type) {
                    Ok(x) => x,
                    Err(e) => return Err(e),
                };
                let b = match Self::build_type(&arr.base_type) {
                    Ok(x) => x,
                    Err(e) => return Err(e),
                };
                Ok(TypeKind::Array { index_range: Box::new(i), element_type: Box::new(b) })
            },
        }
    }
}

impl ASTBuilder {
    /// Builds a statement.
    #[verifier::spinoff_prover]
    fn build_stmt(stmt: &cst::Statement) -> (r: Result<Stmt, SemanticError>)
        ensures
            built(r) == bd_stmt(stmt@),
        decreases stmt, 0int,
    {
        proof { reveal(cst::statement_view); }
        match stmt {
            cst::Statement::Assignment(x) => Self::build_assignment_stmt(x),
            cst::Statement::Compound(x) => Self::build_compound_stmt(x),
            cst::Statement::If(x) => Self::build_if_stmt(x),
            cst::Statement::While(x) => Self::build_while_stmt(x),
            cst::Statement::For(x) => Self::build_for_stmt(x),
            cst::Statement::ProcedureCall(x) => Self::build_procedure_call_stmt(x),
            cst::Statement::Repeat(x) => Self::build_repeat_stmt(x),
            cst::Statement::Case(x) => Self::build_case_stmt(x),
        }
    }

    /// Builds a statement of this form.
    #[verifier::spinoff_prover]
    #[verifier::rlimit(80)]
    fn build_assignment_stmt(assign: &cst::AssignmentStatement) -> (r: Result<Stmt, SemanticError>)
        ensures
            built(r) == bd_stmt(cst::StatementV::Assignment(assign@)),
        decreases assign, 0int,
    {
        proof { reveal(bd_stmt); }
        let target = match Self::build_expr(&assign.variable) {
            Ok(x) => x,
            Err(e) => return Err(e),
        };
        let value = match Self::build_expr(&assign.expression) {
            Ok(x) => x,
            Err(e) => return Err(e),
        };
        Ok(Stmt::Assignment { target, value, line: assign.assign_op.line, column: assign.assign_op.column })
    }

    /// Builds a statement of this form.
    #[verifier::spinoff_prover]
    #[verifier::rlimit(80)]
    fn build_compound_stmt(block: &cst::CompoundStatement) -> (r: Result<Stmt, SemanticError>)
        ensures
            built(r) == bd_stmt(cst::StatementV::Compound(block@)),
        decreases block, 1int,
    {
        proof { reveal(bd_stmt); }
        let b = match Self::build_block(block) {
            Ok(b) => b,
            Err(e) => return Err(e),
        };
        Ok(Stmt::Compound(b))
    }

    /// Builds a statement of this form.
    #[verifier::spinoff_prover]
    #[verifier::rlimit(80)]
    fn build_if_stmt(if_stmt: &cst::IfStatement) -> (r: Result<Stmt, SemanticError>)
        ensures
            built(r) == bd_stmt(cst::StatementV::If(if_stmt@)),
        decreases if_stmt, 0int,
    {
        proof { reveal(bd_stmt); }
        let condition = match Self::build_expr(&if_stmt.condition) {
            Ok(x) => x,
            Err(e) => return Err(e),
        };
        let then_branch = match Self::build_stmt(&if_stmt.then_branch) {
            Ok(x) => x,
            Err(e) => return Err(e),
        };
        let else_branch = match &if_stmt.else_clause {
            Some(else_clause) => match Self::build_stmt(&else_clause.statement) {
                Ok(x) => Some(Box::new(x)),
                Err(e) => return Err(e),
            },
            None => None,
        };
        Ok(Stmt::If {
            condition,
            then_branch: Box::new(then_branch),
            else_branch,
            line: if_stmt.if_kw.line,
            column: if_stmt.if_kw.column,
        })
    }

    /// Builds a statement of this form.
    #[verifier::spinoff_prover]
    #[verifier::rlimit(80)]
    fn build_while_stmt(while_stmt: &cst::WhileStatement) -> (r: Result<Stmt, SemanticError>)
        ensures
            built(r) == bd_stmt(cst::StatementV::While(while_stmt@)),
        decreases while_stmt, 0int,
    {
        proof { reveal(bd_stmt); }
        let condition = match Self::build_expr(&while_stmt.condition) {
            Ok(x) => x,
            Err(e) => return Err(e),
        };
        let body = match Self::build_stmt(&while_stmt.body) {
            Ok(x) => x,
            Err(e) => return Err(e),
        };
        Ok(Stmt::While { condition, body: Box::new(body), line: while_stmt.while_kw.line, column: while_stmt.while_kw.column })
    }

    /// Builds a statement of this form.
    #[verifier::spinoff_prover]
    #[verifier::rlimit(80)]
    fn build_for_stmt(for_stmt: &cst::ForStatement) -> (r: Result<Stmt, SemanticError>)
        ensures
            built(r) == bd_stmt(cst::StatementV::For(for_stmt@)),
        decreases for_stmt, 0int,
    {
        proof { reveal(bd_stmt); }
        let lower = to_lowercase(for_stmt.direction_kw.value.as_str());
        let direction = if str_eq(lower.as_str(), "ke") {
            ForDirection::To
        } else {
            ForDirection::Downto
        };
        let start = match Self::build_expr(&for_stmt.start_value) {
            Ok(x) => x,
            Err(e) => return Err(e),
        };
        let end = match Self::build_expr(&for_stmt.end_value) {
            Ok(x) => x,
            Err(e) => return Err(e),
        };
        let body = match Self::build_stmt(&for_stmt.body) {
            Ok(x) => x,
            Err(e) => return Err(e),
        };
        Ok(Stmt::For {
            iterator: for_stmt.counter_variable.value.clone(),
            start,
            end,
            direction,
            body: Box::new(body),
            line: for_stmt.for_kw.line,
            column: for_stmt.for_kw.column,
        })
    }

    /// Builds a statement of this form.
    #[verifier::spinoff_prover]
    #[verifier::rlimit(80)]
    fn build_procedure_call_stmt(call_stmt: &cst::ProcedureCallStatement) -> (r: Result<Stmt, SemanticError>)
        ensures
            built(r) == bd_stmt(cst::StatementV::ProcedureCall(call_stmt@)),
        decreases call_stmt, 0int,
    {
        proof { reveal(bd_stmt); }
        let args = match &call_stmt.call.arguments {
            Some(arg_list) => match Self::build_arg_list(arg_list) {
                Ok(a) => a,
                Err(e) => return Err(e),
            },
            None => Vec::new(),
        };
        proof { assert(exprs_view(Seq::<Expr>::empty()) =~= Seq::empty()); }
        Ok(Stmt::ProcedureCall {
            name: call_stmt.call.function_name.value.clone(),
            args,
            line: call_stmt.call.function_name.line,
            column: call_stmt.call.function_name.column,
        })
    }

    /// Builds a statement of this form.
    #[verifier::spinoff_prover]
    #[verifier::rlimit(80)]
    fn build_repeat_stmt(repeat_stmt: &cst::RepeatStatement) -> (r: Result<Stmt, SemanticError>)
        ensures
            built(r) == bd_stmt(cst::StatementV::Repeat(repeat_stmt@)),
        decreases repeat_stmt, 0int,
    {
        proof { reveal(bd_stmt); }
        let body = match Self::build_list(&repeat_stmt.statement_list) {
            Ok(x) => x,
            Err(e) => return Err(e),
        };
        let condition = match Self::build_expr(&repeat_stmt.condition) {
            Ok(x) => x,
            Err(e) => return Err(e),
        };
        Ok(Stmt::Repeat { body, condition, line: repeat_stmt.repeat_kw.line, column: repeat_stmt.repeat_kw.column })
    }

    /// Builds a statement of this form.
    #[verifier::spinoff_prover]
    #[verifier::rlimit(80)]
    fn build_case_stmt(case_stmt: &cst::CaseStatement) -> (r: Result<Stmt, SemanticError>)
        ensures
            built(r) == bd_stmt(cst::StatementV::Case(case_stmt@)),
        decreases case_stmt, 0int,
    {
        proof { reveal(bd_stmt); }
        let branches = match Self::build_branches(&case_stmt.branches, 0) {
            Ok(x) => x,
            Err(e) => return Err(e),
        };
        let else_branch = match &case_stmt.else_clause {
            Some(ec) => match Self::build_list(&ec.statement_list) {
                Ok(x) => Some(x),
                Err(e) => return Err(e),
            },
            None => None,
        };
        let operand = match Self::build_expr(&case_stmt.expression) {
            Ok(x) => x,
            Err(e) => return Err(e),
        };
        Ok(Stmt::Case { operand, branches, else_branch, line: case_stmt.case_kw.line, column: case_stmt.case_kw.column })
    }

    /// Builds the statements of a compound statement.
    #[verifier::spinoff_prover]
    fn build_block(compound: &cst::CompoundStatement) -> (r: Result<BlockStmt, SemanticError>)
        ensures
            bd_block(compound@) == match r {
                Ok(b) => Ok(stmts_view(b.statements@)),
                Err(e) => Err(e@),
            },
        decreases compound, 0int,
    {
        match Self::build_list(&compound.statement_list) {
            Ok(statements) => Ok(BlockStmt { statements }),
            Err(e) => Err(e),
        }
    }

    /// Builds the statements of a statement list, in order.
    #[verifier::spinoff_prover]
    fn build_list(list: &cst::StatementList) -> (r: Result<Vec<Stmt>, SemanticError>)
        ensures
            built_stmts(r) == bd_list(list@),
        decreases list, 0int,
    {
        let mut stmts: Vec<Stmt> = Vec::new();
        if let Some(initial) = &list.initial_stmt {
            let s = match Self::build_stmt(initial) {
                Ok(x) => x,
                Err(e) => return Err(e),
            };
            stmts.push(s);
            proof { lemma_stmts_view(stmts@); assert(stmts_view(stmts@) =~= seq![s@]); }
        } else {
            proof { assert(stmts_view(stmts@) =~= Seq::empty()); }
        }
        let mut tail = match Self::list_from(&list.rest, 0) {
            Ok(t) => t,
            Err(e) => return Err(e),
        };
        proof { lemma_stmts_view_concat(stmts@, tail@); }
        stmts.append(&mut tail);
        Ok(stmts)
    }

    /// Builds the statements from `rest[i]` on.
    #[verifier::spinoff_prover]
    #[verifier::rlimit(100)]
    fn list_from(rest: &Vec<(Token, Box<cst::Statement>)>, i: usize) -> (r: Result<Vec<Stmt>, SemanticError>)
        requires
            i <= rest@.len(),
        ensures
            built_stmts(r) == list_from(seq_view_token_boxed_statement(rest@), i as int),
        decreases rest, rest@.len() - i,
    {
        proof { lemma_seq_view_token_boxed_statement(rest@); }
        if i >= rest.len() {
            proof { assert(stmts_view(Seq::<Stmt>::empty()) =~= Seq::empty()); }
            return Ok(Vec::new());
        }
        proof {
            vstd::std_specs::vec::axiom_vec_index_decreases(*rest, i as int);
        }
        let x = match Self::build_stmt(&rest[i].1) {
            Ok(x) => x,
            Err(e) => return Err(e),
        };
        let mut tail = match Self::list_from(rest, i + 1) {
            Ok(t) => t,
            Err(e) => return Err(e),
        };
        proof { lemma_stmts_cons(x, tail@); }
        let ghost t0 = tail@;
        tail.insert(0, x);
        proof { assert(tail@ =~= seq![x] + t0); }
        Ok(tail)
    }

    /// Builds the labels of a case branch, in order.
    #[verifier::spinoff_prover]
    fn build_labels(labels: &cst::CaseLabelList) -> (r: Result<Vec<Expr>, SemanticError>)
        ensures
            built_exprs(r) == bd_labels(labels@),
    {
        let first = match Self::build_expr(&labels.initial_label) {
            Ok(x) => x,
            Err(e) => return Err(e),
        };
        let mut tail = match Self::labels_from(&labels.rest, 0) {
            Ok(t) => t,
            Err(e) => return Err(e),
        };
        proof { lemma_exprs_cons(first, tail@); }
        let ghost t0 = tail@;
        tail.insert(0, first);
        proof { assert(tail@ =~= seq![first] + t0); }
        Ok(tail)
    }

    /// Builds the labels from `rest[i]` on.
    #[verifier::spinoff_prover]
    fn labels_from(rest: &Vec<(Token, cst::Expression)>, i: usize) -> (r: Result<Vec<Expr>, SemanticError>)
        requires
            i <= rest@.len(),
        ensures
            built_exprs(r) == labels_from(seq_view_token_expression(rest@), i as int),
        decreases rest@.len() - i,
    {
        proof { lemma_seq_view_token_expression(rest@); }
        if i >= rest.len() {
            proof { assert(exprs_view(Seq::<Expr>::empty()) =~= Seq::empty()); }
            return Ok(Vec::new());
        }
        let x = match Self::build_expr(&rest[i].1) {
            Ok(x) => x,
            Err(e) => return Err(e),
        };
        let mut tail = match Self::labels_from(rest, i + 1) {
            Ok(t) => t,
            Err(e) => return Err(e),
        };
        proof { lemma_exprs_cons(x, tail@); }
        let ghost t0 = tail@;
        tail.insert(0, x);
        proof { assert(tail@ =~= seq![x] + t0); }
        Ok(tail)
    }

    /// Builds the case branches from `bs[i]` on.
    #[verifier::spinoff_prover]
    #[verifier::rlimit(100)]
    fn build_branches(bs: &Vec<cst::CaseBranch>, i: usize) -> (r: Result<Vec<CaseBranch>, SemanticError>)
        requires
            i <= bs@.len(),
        ensures
            built_branches(r) == bd_branches(seq_view_case_branch(bs@), i as int),
        decreases bs, bs@.len() - i,
    {
        proof { lemma_seq_view_case_branch(bs@); }
        if i >= bs.len() {
            proof { assert(branches_view(Seq::<CaseBranch>::empty()) =~= Seq::empty()); }
            return Ok(Vec::new());
        }
        proof {
            vstd::std_specs::vec::axiom_vec_index_decreases(*bs, i as int);
        }
        let labels = match Self::build_labels(&bs[i].labels) {
            Ok(x) => x,
            Err(e) => return Err(e),
        };
        let st = match Self::build_stmt(&bs[i].statement) {
            Ok(x) => x,
            Err(e) => return Err(e),
        };
        let mut tail = match Self::build_branches(bs, i + 1) {
            Ok(t) => t,
            Err(e) => return Err(e),
        };
        let b = CaseBranch { labels, stmt: st };
        proof { lemma_branches_cons(b, tail@); }
        let ghost t0 = tail@;
        tail.insert(0, b);
        proof { assert(tail@ =~= seq![b] + t0); }
        Ok(tail)
    }
}

/// A built parameter group or an error, as a value.
pub open spec fn built_param(r: Result<Param, SemanticError>) -> Result<ParamV, SemanticErrorView> {
    match r {
        Ok(p) => Ok(param_view(p)),
        Err(e) => Err(e@),
    }
}

impl ASTBuilder {
    /// The names of an identifier list, in order.
    fn names_of(il: &cst::IdentifierList) -> (r: Vec<String>)
        ensures
            names_view(r@) == id_names(il@),
    {
        proof { lemma_seq_view_token_token(il.rest@); }
        let mut names: Vec<String> = Vec::new();
        names.push(il.initial_id.value.clone());
        let mut i: usize = 0;
        while i < il.rest.len()
            invariant
                i <= il.rest@.len(),
                names@.len() == i + 1,
                names@[0]@ == il.initial_id.value@,
                forall|k: int| 0 <= k < i ==> #[trigger] names@[k + 1]@ == il.rest@[k].1.value@,
            decreases il.rest@.len() - i,
        {
            names.push(il.rest[i].1.value.clone());
            i += 1;
        }
        proof {
            assert(names_view(names@) =~= id_names(il@)) by {
                assert forall|k: int| 0 <= k < names@.len() implies #[trigger] names_view(names@)[k] == id_names(il@)[k] by {
                    if k > 0 {
                        assert(names@[(k - 1) + 1]@ == il.rest@[k - 1].1.value@);
                    }
                }
            }
        }
        names
    }

    /// Builds a parameter group: its names, then its type.
    #[verifier::spinoff_prover]
    fn build_param(group: &cst::FormalParameterGroup) -> (r: Result<Param, SemanticError>)
        ensures
            built_param(r) == bd_param(group@),
    {
        let is_var = group.var_kw.is_some();
        let names = Self::names_of(&group.identifiers);
        let type_kind = match Self::build_type(&group.var_type) {
            Ok(t) => t,
            Err(e) => return Err(e),
        };
        Ok(Param { names, type_kind, is_var })
    }

    /// Builds the parameter groups from `rest[i]` on.
    #[verifier::spinoff_prover]
    fn params_from(rest: &Vec<(Token, cst::FormalParameterGroup)>, i: usize) -> (r: Result<Vec<Param>, SemanticError>)
        requires
            i <= rest@.len(),
        ensures
            built_params(r) == params_from(seq_view_token_formal_parameter_group(rest@), i as int),
        decreases rest@.len() - i,
    {
        proof { lemma_seq_view_token_formal_parameter_group(rest@); }
        if i >= rest.len() {
            proof { assert(params_view(Seq::<Param>::empty()) =~= Seq::empty()); }
            return Ok(Vec::new());
        }
        let p = match Self::build_param(&rest[i].1) {
            Ok(p) => p,
            Err(e) => return Err(e),
        };
        let mut tail = match Self::params_from(rest, i + 1) {
            Ok(t) => t,
            Err(e) => return Err(e),
        };
        let ghost t0 = tail@;
        tail.insert(0, p);
        proof { assert(params_view(tail@) =~= seq![param_view(p)] + params_view(t0)); }
        Ok(tail)
    }

    /// Builds the parameter groups of a parameter list, in order.
    #[verifier::spinoff_prover]
    fn build_params(params: &cst::FormalParameterList) -> (r: Result<Vec<Param>, SemanticError>)
        ensures
            built_params(r) == bd_params(params@),
    {
        let mut out: Vec<Param> = Vec::new();
        if let Some(initial) = &params.initial_param {
            let p = match Self::build_param(initial) {
                Ok(p) => p,
                Err(e) => return Err(e),
            };
            out.push(p);
            proof { assert(params_view(out@) =~= seq![param_view(p)]); }
        } else {
            proof { assert(params_view(out@) =~= Seq::empty()); }
        }
        let mut tail = match Self::params_from(&params.rest, 0) {
            Ok(t) => t,
            Err(e) => return Err(e),
        };
        let ghost o0 = out@;
        let ghost t0 = tail@;
        out.append(&mut tail);
        proof { assert(params_view(out@) =~= params_view(o0) + params_view(t0)); }
        Ok(out)
    }

    /// Builds the constants defined from `v[i]` on.
    #[verifier::spinoff_prover]
    #[verifier::rlimit(80)]
    fn const_defs_from(v: &Vec<cst::ConstantDefinition>, i: usize) -> (r: Result<Vec<Decl>, SemanticError>)
        requires
            i <= v@.len(),
        ensures
            built_decls(r) == const_defs_from(seq_view_constant_definition(v@), i as int),
        decreases v@.len() - i,
    {
        proof { lemma_seq_view_constant_definition(v@); }
        if i >= v.len() {
            proof { assert(decls_view(Seq::<Decl>::empty()) =~= Seq::empty()); }
            return Ok(Vec::new());
        }
        let value = match Self::build_expr(&v[i].value) {
            Ok(x) => x,
            Err(e) => return Err(e),
        };
        let d = Decl::Constant { name: v[i].name.value.clone(), value, line: v[i].name.line, column: v[i].name.column };
        let mut tail = match Self::const_defs_from(v, i + 1) {
            Ok(t) => t,
            Err(e) => return Err(e),
        };
        proof { lemma_decls_cons(d, tail@); }
        let ghost t0 = tail@;
        tail.insert(0, d);
        proof { assert(tail@ =~= seq![d] + t0); }
        Ok(tail)
    }

    /// Builds the constants of the sections from `v[i]` on.
    #[verifier::spinoff_prover]
    #[verifier::rlimit(80)]
    fn consts_from(v: &Vec<cst::ConstantDeclaration>, i: usize) -> (r: Result<Vec<Decl>, SemanticError>)
        requires
            i <= v@.len(),
        ensures
            built_decls(r) == consts_from(seq_view_constant_declaration(v@), i as int),
        decreases v@.len() - i,
    {
        proof { lemma_seq_view_constant_declaration(v@); }
        if i >= v.len() {
            proof { assert(decls_view(Seq::<Decl>::empty()) =~= Seq::empty()); }
            return Ok(Vec::new());
        }
        let a = match Self::const_defs_from(&v[i].constants, 0) {
            Ok(x) => x,
            Err(e) => return Err(e),
        };
        let mut tail = match Self::consts_from(v, i + 1) {
            Ok(t) => t,
            Err(e) => return Err(e),
        };
        proof { lemma_decls_view_concat(a@, tail@); }
        let mut a = a;
        a.append(&mut tail);
        Ok(a)
    }

    /// Builds the types defined from `v[i]` on.
    #[verifier::spinoff_prover]
    #[verifier::rlimit(80)]
    fn type_defs_from(v: &Vec<cst::TypeDefinition>, i: usize) -> (r: Result<Vec<Decl>, SemanticError>)
        requires
            i <= v@.len(),
        ensures
            built_decls(r) == type_defs_from(seq_view_type_definition(v@), i as int),
        decreases v@.len() - i,
    {
        proof { lemma_seq_view_type_definition(v@); }
        if i >= v.len() {
            proof { assert(decls_view(Seq::<Decl>::empty()) =~= Seq::empty()); }
            return Ok(Vec::new());
        }
        let t = match Self::build_type(&v[i].type_def) {
            Ok(x) => x,
            Err(e) => return Err(e),
        };
        let d = Decl::Type { name: v[i].name.value.clone(), wrapped_type: t, line: v[i].name.line, column: v[i].name.column };
        let mut tail = match Self::type_defs_from(v, i + 1) {
            Ok(t) => t,
            Err(e) => return Err(e),
        };
        proof { lemma_decls_cons(d, tail@); }
        let ghost t0 = tail@;
        tail.insert(0, d);
        proof { assert(tail@ =~= seq![d] + t0); }
        Ok(tail)
    }

    /// Builds the types of the sections from `v[i]` on.
    #[verifier::spinoff_prover]
    #[verifier::rlimit(80)]
    fn types_from(v: &Vec<cst::TypeDeclaration>, i: usize) -> (r: Result<Vec<Decl>, SemanticError>)
        requires
            i <= v@.len(),
        ensures
            built_decls(r) == types_from(seq_view_type_declaration(v@), i as int),
        decreases v@.len() - i,
    {
        proof { lemma_seq_view_type_declaration(v@); }
        if i >= v.len() {
            proof { assert(decls_view(Seq::<Decl>::empty()) =~= Seq::empty()); }
            return Ok(Vec::new());
        }
        let a = match Self::type_defs_from(&v[i].definitions, 0) {
            Ok(x) => x,
            Err(e) => return Err(e),
        };
        let mut tail = match Self::types_from(v, i + 1) {
            Ok(t) => t,
            Err(e) => return Err(e),
        };
        proof { lemma_decls_view_concat(a@, tail@); }
        let mut a = a;
        a.append(&mut tail);
        Ok(a)
    }

    /// Builds the variable groups from `v[i]` on.
    #[verifier::spinoff_prover]
    #[verifier::rlimit(80)]
    fn var_groups_from(v: &Vec<cst::VariableGroup>, i: usize) -> (r: Result<Vec<Decl>, SemanticError>)
        requires
            i <= v@.len(),
        ensures
            built_decls(r) == var_groups_from(seq_view_variable_group(v@), i as int),
        decreases v@.len() - i,
    {
        proof { lemma_seq_view_variable_group(v@); }
        if i >= v.len() {
            proof { assert(decls_view(Seq::<Decl>::empty()) =~= Seq::empty()); }
            return Ok(Vec::new());
        }
        let t = match Self::build_type(&v[i].var_type) {
            Ok(x) => x,
            Err(e) => return Err(e),
        };
        let names = Self::names_of(&v[i].identifiers);
        let d = Decl::Variable {
            name: names,
            type_kind: t,
            line: v[i].identifiers.initial_id.line,
            column: v[i].identifiers.initial_id.column,
        };
        let mut tail = match Self::var_groups_from(v, i + 1) {
            Ok(t) => t,
            Err(e) => return Err(e),
        };
        proof { lemma_decls_cons(d, tail@); }
        let ghost t0 = tail@;
        tail.insert(0, d);
        proof { assert(tail@ =~= seq![d] + t0); }
        Ok(tail)
    }

    /// Builds the variables of the sections from `v[i]` on.
    #[verifier::spinoff_prover]
    #[verifier::rlimit(80)]
    fn vars_from(v: &Vec<cst::VariableDeclaration>, i: usize) -> (r: Result<Vec<Decl>, SemanticError>)
        requires
            i <= v@.len(),
        ensures
            built_decls(r) == vars_from(seq_view_variable_declaration(v@), i as int),
        decreases v@.len() - i,
    {
        proof { lemma_seq_view_variable_declaration(v@); }
        if i >= v.len() {
            proof { assert(decls_view(Seq::<Decl>::empty()) =~= Seq::empty()); }
            return Ok(Vec::new());
        }
        let a = match Self::var_groups_from(&v[i].groups, 0) {
            Ok(x) => x,
            Err(e) => return Err(e),
        };
        let mut tail = match Self::vars_from(v, i + 1) {
            Ok(t) => t,
            Err(e) => return Err(e),
        };
        proof { lemma_decls_view_concat(a@, tail@); }
        let mut a = a;
        a.append(&mut tail);
        Ok(a)
    }

    /// Builds the subprograms from `v[i]` on.
    #[verifier::spinoff_prover]
    #[verifier::rlimit(80)]
    fn subs_from(v: &Vec<cst::SubprogramDeclaration>, i: usize) -> (r: Result<Vec<Decl>, SemanticError>)
        requires
            i <= v@.len(),
        ensures
            built_decls(r) == subs_from(seq_view_subprogram_declaration(v@), i as int),
        decreases v, v@.len() - i,
    {
        proof { lemma_seq_view_subprogram_declaration(v@); }
        if i >= v.len() {
            proof { assert(decls_view(Seq::<Decl>::empty()) =~= Seq::empty()); }
            return Ok(Vec::new());
        }
        proof {
            vstd::std_specs::vec::axiom_vec_index_decreases(*v, i as int);
        }
        let d = match Self::build_subprogram(&v[i]) {
            Ok(x) => x,
            Err(e) => return Err(e),
        };
        let mut tail = match Self::subs_from(v, i + 1) {
            Ok(t) => t,
            Err(e) => return Err(e),
        };
        proof { lemma_decls_cons(d, tail@); }
        let ghost t0 = tail@;
        tail.insert(0, d);
        proof { assert(tail@ =~= seq![d] + t0); }
        Ok(tail)
    }

    /// Builds the declarations of a block: constants, types, variables,
    /// then subprograms.
    #[verifier::spinoff_prover]
    #[verifier::rlimit(80)]
    fn build_declarations(decls: &cst::DeclarationPart) -> (r: Result<Vec<Decl>, SemanticError>)
        ensures
            built_decls(r) == bd_decls(decls@),
        decreases decls, 0int,
    {
        proof { reveal(bd_decls); }
        let mut cs = match Self::consts_from(&decls.const_declarations, 0) {
            Ok(x) => x,
            Err(e) => return Err(e),
        };
        let mut ts = match Self::types_from(&decls.type_declarations, 0) {
            Ok(x) => x,
            Err(e) => return Err(e),
        };
        let mut vs = match Self::vars_from(&decls.var_declarations, 0) {
            Ok(x) => x,
            Err(e) => return Err(e),
        };
        let mut ss = match Self::subs_from(&decls.subprogram_declarations, 0) {
            Ok(x) => x,
            Err(e) => return Err(e),
        };
        proof {
            lemma_decls_view_concat(cs@, ts@);
            lemma_decls_view_concat(cs@ + ts@, vs@);
            lemma_decls_view_concat(cs@ + ts@ + vs@, ss@);
        }
        cs.append(&mut ts);
        cs.append(&mut vs);
        cs.append(&mut ss);
        Ok(cs)
    }

    /// Builds a procedure or function.
    #[verifier::spinoff_prover]
    fn build_subprogram(sub: &cst::SubprogramDeclaration) -> (r: Result<Decl, SemanticError>)
        ensures
            built(r) == bd_subprogram(sub@),
        decreases sub, 1int,
    {
        proof { reveal(cst::subprogram_declaration_view); }
        match sub {
            cst::SubprogramDeclaration::Procedure(proc) => Self::build_procedure(proc),
            cst::SubprogramDeclaration::Function(func) => Self::build_function(func),
        }
    }

    /// Builds a procedure: its parameters, local declarations and body.
    #[verifier::spinoff_prover]
    #[verifier::rlimit(80)]
    fn build_procedure(proc: &cst::ProcedureDeclaration) -> (r: Result<Decl, SemanticError>)
        ensures
            built(r) == bd_subprogram(cst::SubprogramDeclarationV::Procedure(proc@)),
        decreases proc, 0int,
    {
        proof { reveal(bd_subprogram); }
        let params = match Self::build_params(&proc.parameters) {
            Ok(x) => x,
            Err(e) => return Err(e),
        };
        let local_decls = match Self::build_declarations(&proc.declarations) {
            Ok(x) => x,
            Err(e) => return Err(e),
        };
        let body = match Self::build_block(&proc.body) {
            Ok(x) => x,
            Err(e) => return Err(e),
        };
        Ok(Decl::Procedure {
            name: proc.name.value.clone(),
            params,
            local_decls,
            body,
            line: proc.proc_kw.line,
            column: proc.proc_kw.column,
        })
    }

    /// Builds a function: its parameters, result type, local declarations
    /// and body.
    #[verifier::spinoff_prover]
    #[verifier::rlimit(80)]
    fn build_function(func: &cst::FunctionDeclaration) -> (r: Result<Decl, SemanticError>)
        ensures
            built(r) == bd_subprogram(cst::SubprogramDeclarationV::Function(func@)),
        decreases func, 0int,
    {
        proof { reveal(bd_subprogram); }
        let params = match Self::build_params(&func.parameters) {
            Ok(x) => x,
            Err(e) => return Err(e),
        };
        let return_type = match Self::build_type(&func.return_type) {
            Ok(x) => x,
            Err(e) => return Err(e),
        };
        let local_decls = match Self::build_declarations(&func.declarations) {
            Ok(x) => x,
            Err(e) => return Err(e),
        };
        let body = match Self::build_block(&func.body) {
            Ok(x) => x,
            Err(e) => return Err(e),
        };
        Ok(Decl::Function {
            name: func.name.value.clone(),
            params,
            return_type,
            local_decls,
            body,
            line: func.func_kw.line,
            column: func.func_kw.column,
        })
    }

    /// Builds the abstract syntax tree of a whole program: exactly the tree
    /// that `bd_program` describes, or the first error met.
    pub fn build(program: &cst::Program) -> (r: Result<ProgramAST, SemanticError>)
        ensures
            built(r) == bd_program(program@),
    {
        let declarations = match Self::build_declarations(&program.declarations) {
            Ok(x) => x,
            Err(e) => return Err(e),
        };
        let main_body = match Self::build_block(&program.body) {
            Ok(x) => x,
            Err(e) => return Err(e),
        };
        Ok(ProgramAST { name: program.header.name.value.clone(), declarations, main_body })
    }
}

} // verus!
