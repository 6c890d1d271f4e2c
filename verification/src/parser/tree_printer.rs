//! The tree-style text of a parse tree: one line per node, drawn with
//! `├── `, `└── ` and `│   ` connectors, non-terminals as `<name>` and
//! tokens as `KIND(text)`; and the one-line source form of an expression.
use vstd::prelude::*;
use crate::lexer::token_types::{Token, token_display};
use crate::parser::parse_tree::{
    ConstantDeclaration, ConstantDefinition, DeclarationPart, FormalParameterGroup, FormalParameterList,
    FunctionDeclaration, IdentifierList, ProcedureDeclaration, Program, ProgramHeader, SubprogramDeclaration,
    TypeDeclaration, TypeDefinition, VariableDeclaration, VariableGroup, constant_declaration_view,
    constant_definition_view, formal_parameter_group_view, subprogram_declaration_view, type_declaration_view,
    type_definition_view, variable_declaration_view, variable_group_view, seq_view_constant_declaration,
    seq_view_constant_definition, seq_view_subprogram_declaration, seq_view_type_declaration, seq_view_type_definition,
    seq_view_variable_declaration, seq_view_variable_group, lemma_seq_view_constant_declaration,
    lemma_seq_view_constant_definition, lemma_seq_view_subprogram_declaration, lemma_seq_view_token_formal_parameter_group,
    lemma_seq_view_token_token, lemma_seq_view_type_declaration, lemma_seq_view_type_definition,
    lemma_seq_view_variable_declaration, lemma_seq_view_variable_group,
    ArrayType, AssignmentStatement, CaseBranch, CaseElseClause, CaseElseClauseV, CaseLabelList, CaseStatement, CompoundStatement, ElseClause, ForStatement,
    IfStatement, ProcedureCallStatement, Range, RepeatStatement, Statement, StatementList, Type, WhileStatement,
    case_branch_view, seq_view_case_branch, statement_view, type_view, lemma_seq_view_case_branch, lemma_seq_view_token_boxed_statement,
    lemma_seq_view_token_expression,
    ArrayTypeV, AssignmentStatementV, CaseBranchV, CaseLabelListV, CaseStatementV, CompoundStatementV, ConstantDeclarationV,
    ConstantDefinitionV, DeclarationPartV, ForStatementV, FormalParameterGroupV, FormalParameterListV, FunctionDeclarationV,
    IdentifierListV, IfStatementV, ProcedureCallStatementV, ProcedureDeclarationV, ProgramHeaderV, ProgramV, RangeV,
    RepeatStatementV, StatementListV, StatementV, SubprogramDeclarationV, TypeDeclarationV, TypeDefinitionV, TypeV,
    VariableDeclarationV, VariableGroupV, WhileStatementV,
    ActualParameterList, ActualParameterListV, ArithmeticUnaryFactor, ArithmeticUnaryFactorV, ArrayAccess, ArrayAccessV,
    Expression, ExpressionV, Factor, FactorV, FunctionCallNode, FunctionCallNodeV, LiteralValue, NotFactor, NotFactorV,
    ParenthesizedExpression, ParenthesizedExpressionV, SimpleExpression, SimpleExpressionV, Term, TermV,
    expression_view, factor_view, simple_expression_view, term_view, lemma_seq_view_token_boxed_expression,
    lemma_seq_view_token_boxed_factor, lemma_seq_view_token_boxed_simple_expression, lemma_seq_view_token_boxed_term,
};

verus! {

// ---------------------------------------------------------------- layout

/// The columns drawn for the ancestors of a node: blank where the ancestor
/// was the last child, a bar where more siblings follow.
pub open spec fn bars(stack: Seq<bool>) -> Seq<char>
    decreases stack.len(),
{
    if stack.len() == 0 {
        Seq::empty()
    } else {
        bars(stack.drop_last()) + (if stack.last() { "    "@ } else { "│   "@ })
    }
}

/// The connector of a node: `└── ` for a last child, `├── ` otherwise.
pub open spec fn connector(is_last: bool) -> Seq<char> {
    if is_last { "└── "@ } else { "├── "@ }
}

/// The text in front of a node's label at depth `level` with the ancestor
/// flags `stack`: nothing at the root.
pub open spec fn tree_prefix(stack: Seq<bool>, level: nat, is_last: bool) -> Seq<char> {
    if level == 0 { Seq::empty() } else { bars(stack) + connector(is_last) }
}

/// One line below the root: prefix, label, line break.
pub open spec fn tline(s: Seq<bool>, last: bool, label: Seq<char>) -> Seq<char> {
    bars(s) + connector(last) + label + "\n"@
}

/// The line of a token.
pub open spec fn ttok(s: Seq<bool>, last: bool, t: Token) -> Seq<char> {
    tline(s, last, token_display(t))
}

// ----------------------------------------------------------- expressions

/// An expression: its simple expressions and the operators between them.
pub open spec fn pt_expression(x: ExpressionV, s: Seq<bool>, last: bool) -> Seq<char>
    decreases x, 1int,
{
    let c = s.push(last);
    tline(s, last, "<expression>"@) + pt_simple(*x.initial_simple_expr, c, x.rest.len() == 0)
        + pt_simple_rest(x.rest, c, x.rest.len() as int)
}

/// The first `n` operator and operand pairs of an expression.
pub open spec fn pt_simple_rest(v: Seq<(Token, Box<SimpleExpressionV>)>, s: Seq<bool>, n: int) -> Seq<char>
    decreases v, n,
{
    if n <= 0 || n > v.len() {
        Seq::empty()
    } else {
        pt_simple_rest(v, s, n - 1) + ttok(s, false, v[n - 1].0) + pt_simple(*v[n - 1].1, s, n - 1 == v.len() - 1)
    }
}

/// A simple expression: its terms and the operators between them.
pub open spec fn pt_simple(x: SimpleExpressionV, s: Seq<bool>, last: bool) -> Seq<char>
    decreases x, 1int,
{
    let c = s.push(last);
    tline(s, last, "<simple-expression>"@) + pt_term(*x.initial_term, c, x.rest.len() == 0)
        + pt_term_rest(x.rest, c, x.rest.len() as int)
}

/// The first `n` operator and term pairs of a simple expression.
pub open spec fn pt_term_rest(v: Seq<(Token, Box<TermV>)>, s: Seq<bool>, n: int) -> Seq<char>
    decreases v, n,
{
    if n <= 0 || n > v.len() {
        Seq::empty()
    } else {
        pt_term_rest(v, s, n - 1) + ttok(s, false, v[n - 1].0) + pt_term(*v[n - 1].1, s, n - 1 == v.len() - 1)
    }
}

/// A term: its factors and the operators between them.
pub open spec fn pt_term(x: TermV, s: Seq<bool>, last: bool) -> Seq<char>
    decreases x, 1int,
{
    let c = s.push(last);
    tline(s, last, "<term>"@) + pt_factor(*x.initial_factor, c, x.rest.len() == 0)
        + pt_factor_rest(x.rest, c, x.rest.len() as int)
}

/// The first `n` operator and factor pairs of a term.
pub open spec fn pt_factor_rest(v: Seq<(Token, Box<FactorV>)>, s: Seq<bool>, n: int) -> Seq<char>
    decreases v, n,
{
    if n <= 0 || n > v.len() {
        Seq::empty()
    } else {
        pt_factor_rest(v, s, n - 1) + ttok(s, false, v[n - 1].0) + pt_factor(*v[n - 1].1, s, n - 1 == v.len() - 1)
    }
}

/// A factor: a `<factor>` line over its one child.
pub open spec fn pt_factor(x: FactorV, s: Seq<bool>, last: bool) -> Seq<char>
    decreases x, 1int,
{
    let c = s.push(last);
    tline(s, last, "<factor>"@) + match x {
        FactorV::Literal(l) => ttok(c, true, l.token),
        FactorV::Identifier(t) => ttok(c, true, t),
        FactorV::FunctionCall(f) => pt_call(f, c, true),
        FactorV::ArrayAccess(a) => pt_access(a, c, true),
        FactorV::Parenthesized(p) => pt_paren(p, c, true),
        FactorV::Not(n) => pt_not(n, c, true),
        FactorV::ArithmeticUnary(u) => pt_unary(u, c, true),
    }
}

/// An element access, its parts on the same level.
pub open spec fn pt_access(x: ArrayAccessV, s: Seq<bool>, last: bool) -> Seq<char>
    decreases x, 1int,
{
    pt_expression(*x.array, s, false) + ttok(s, false, x.l_bracket) + pt_expression(*x.index, s, false)
        + ttok(s, last, x.r_bracket)
}

/// A parenthesized expression, its parts on the same level.
pub open spec fn pt_paren(x: ParenthesizedExpressionV, s: Seq<bool>, last: bool) -> Seq<char>
    decreases x, 1int,
{
    ttok(s, false, x.l_paren) + pt_expression(*x.expr, s, false) + ttok(s, last, x.r_paren)
}

/// A negation, its parts on the same level.
pub open spec fn pt_not(x: NotFactorV, s: Seq<bool>, last: bool) -> Seq<char>
    decreases x, 1int,
{
    ttok(s, false, x.not_token) + pt_factor(*x.factor, s, last)
}

/// A signed factor, its parts on the same level.
pub open spec fn pt_unary(x: ArithmeticUnaryFactorV, s: Seq<bool>, last: bool) -> Seq<char>
    decreases x, 1int,
{
    ttok(s, false, x.op) + pt_factor(*x.factor, s, last)
}

/// A function call: name, parentheses and the arguments, if any.
pub open spec fn pt_call(x: FunctionCallNodeV, s: Seq<bool>, last: bool) -> Seq<char>
    decreases x, 1int,
{
    let c = s.push(last);
    tline(s, last, "<function-call>"@) + ttok(c, false, x.function_name) + ttok(c, x.arguments is None, x.l_paren)
        + match x.arguments {
            Some(a) => pt_args(a, c, false),
            None => Seq::empty(),
        } + ttok(c, true, x.r_paren)
}

/// An argument list.
pub open spec fn pt_args(x: ActualParameterListV, s: Seq<bool>, last: bool) -> Seq<char>
    decreases x, 1int,
{
    let c = s.push(last);
    tline(s, last, "<parameter-list>"@) + pt_expression(*x.initial_arg, c, x.rest.len() == 0)
        + pt_arg_rest(x.rest, c, x.rest.len() as int)
}

/// The first `n` comma and argument pairs.
pub open spec fn pt_arg_rest(v: Seq<(Token, Box<ExpressionV>)>, s: Seq<bool>, n: int) -> Seq<char>
    decreases v, n,
{
    if n <= 0 || n > v.len() {
        Seq::empty()
    } else {
        pt_arg_rest(v, s, n - 1) + ttok(s, false, v[n - 1].0) + pt_expression(*v[n - 1].1, s, n - 1 == v.len() - 1)
    }
}

// ----------------------------------------------------------------- types

/// A type: a `<type>` line over its one child.
pub open spec fn pt_type(x: TypeV, s: Seq<bool>, last: bool) -> Seq<char>
    decreases x, 1int,
{
    let c = s.push(last);
    tline(s, last, "<type>"@) + match x {
        TypeV::Integer(t) => ttok(c, true, t),
        TypeV::Real(t) => ttok(c, true, t),
        TypeV::Boolean(t) => ttok(c, true, t),
        TypeV::String(t) => ttok(c, true, t),
        TypeV::Char(t) => ttok(c, true, t),
        TypeV::Array(a) => pt_array(a, c, true),
        TypeV::Subrange(r) => pt_range(r, c, true),
        TypeV::TypeIdentifier(t) => ttok(c, true, t),
    }
}

/// An array type.
pub open spec fn pt_array(x: ArrayTypeV, s: Seq<bool>, last: bool) -> Seq<char>
    decreases x, 1int,
{
    let c = s.push(last);
    tline(s, last, "<array-type>"@) + ttok(c, false, x.larik_kw) + ttok(c, false, x.l_bracket)
        + pt_type(*x.index_type, c, false) + ttok(c, false, x.r_bracket) + ttok(c, false, x.dari_kw)
        + pt_type(*x.base_type, c, true)
}

/// A subrange.
pub open spec fn pt_range(x: RangeV, s: Seq<bool>, last: bool) -> Seq<char>
    decreases x, 1int,
{
    let c = s.push(last);
    tline(s, last, "<range>"@) + pt_expression(*x.start, c, false) + ttok(c, false, x.range_op)
        + pt_expression(*x.end, c, true)
}

// ------------------------------------------------------------ statements

/// A statement, by its form.
pub open spec fn pt_statement(x: StatementV, s: Seq<bool>, last: bool) -> Seq<char>
    decreases x, 1int,
{
    match x {
        StatementV::Compound(y) => pt_compound(y, s, last),
        StatementV::Assignment(y) => pt_assignment(y, s, last),
        StatementV::If(y) => pt_if(y, s, last),
        StatementV::While(y) => pt_while(y, s, last),
        StatementV::For(y) => pt_for(y, s, last),
        StatementV::ProcedureCall(y) => pt_procedure_call(y, s, last),
        StatementV::Repeat(y) => pt_repeat(y, s, last),
        StatementV::Case(y) => pt_case(y, s, last),
    }
}

/// A statement list: nothing at all when it has no first statement.
pub open spec fn pt_statement_list(x: StatementListV, s: Seq<bool>, last: bool) -> Seq<char>
    decreases x, 1int,
{
    let c = s.push(last);
    match x.initial_stmt {
        None => Seq::empty(),
        Some(first) => tline(s, last, "<statement-list>"@)
            + pt_statement(*first, c, x.rest.len() == 0 && x.trailing_semicolon is None)
            + pt_statement_rest(x.rest, c, x.rest.len() as int, x.trailing_semicolon is Some)
            + match x.trailing_semicolon {
                Some(t) => ttok(c, true, t),
                None => Seq::empty(),
            },
    }
}

/// The first `n` semicolon and statement pairs of a list.
pub open spec fn pt_statement_rest(v: Seq<(Token, Box<StatementV>)>, s: Seq<bool>, n: int, trailing: bool) -> Seq<char>
    decreases v, n,
{
    if n <= 0 || n > v.len() {
        Seq::empty()
    } else {
        pt_statement_rest(v, s, n - 1, trailing) + ttok(s, false, v[n - 1].0)
            + pt_statement(*v[n - 1].1, s, n - 1 == v.len() - 1 && !trailing)
    }
}

/// `mulai ... selesai`.
pub open spec fn pt_compound(x: CompoundStatementV, s: Seq<bool>, last: bool) -> Seq<char>
    decreases x, 1int,
{
    let c = s.push(last);
    tline(s, last, "<compound-statement>"@) + ttok(c, false, x.begin_kw) + pt_statement_list(x.statement_list, c, false)
        + ttok(c, true, x.end_kw)
}

/// An assignment.
pub open spec fn pt_assignment(x: AssignmentStatementV, s: Seq<bool>, last: bool) -> Seq<char>
    decreases x, 1int,
{
    let c = s.push(last);
    tline(s, last, "<assignment-statement>"@) + pt_expression(x.variable, c, false) + ttok(c, false, x.assign_op)
        + pt_expression(x.expression, c, true)
}

/// A conditional, with its `selain-itu` part if any.
pub open spec fn pt_if(x: IfStatementV, s: Seq<bool>, last: bool) -> Seq<char>
    decreases x, 1int,
{
    let c = s.push(last);
    tline(s, last, "<if-statement>"@) + ttok(c, false, x.if_kw) + pt_expression(x.condition, c, false)
        + ttok(c, false, x.then_kw) + pt_statement(*x.then_branch, c, x.else_clause is None)
        + match x.else_clause {
            Some(e) => ttok(c, false, e.else_kw) + pt_statement(*e.statement, c, true),
            None => Seq::empty(),
        }
}

/// A `selama` loop.
pub open spec fn pt_while(x: WhileStatementV, s: Seq<bool>, last: bool) -> Seq<char>
    decreases x, 1int,
{
    let c = s.push(last);
    tline(s, last, "<while-statement>"@) + ttok(c, false, x.while_kw) + pt_expression(x.condition, c, false)
        + ttok(c, false, x.do_kw) + pt_statement(*x.body, c, true)
}

/// An `untuk` loop.
pub open spec fn pt_for(x: ForStatementV, s: Seq<bool>, last: bool) -> Seq<char>
    decreases x, 1int,
{
    let c = s.push(last);
    tline(s, last, "<for-statement>"@) + ttok(c, false, x.for_kw) + ttok(c, false, x.counter_variable)
        + ttok(c, false, x.assign_op) + pt_expression(x.start_value, c, false) + ttok(c, false, x.direction_kw)
        + pt_expression(x.end_value, c, false) + ttok(c, false, x.do_kw) + pt_statement(*x.body, c, true)
}

/// A procedure call statement.
pub open spec fn pt_procedure_call(x: ProcedureCallStatementV, s: Seq<bool>, last: bool) -> Seq<char>
    decreases x, 1int,
{
    let c = s.push(last);
    tline(s, last, "<procedure-call>"@) + ttok(c, false, x.call.function_name) + ttok(c, false, x.call.l_paren)
        + match x.call.arguments {
            Some(a) => pt_args(a, c, false),
            None => Seq::empty(),
        } + ttok(c, true, x.call.r_paren)
}

/// An `ulangi ... sampai` loop.
pub open spec fn pt_repeat(x: RepeatStatementV, s: Seq<bool>, last: bool) -> Seq<char>
    decreases x, 1int,
{
    let c = s.push(last);
    tline(s, last, "<repeat-statement>"@) + ttok(c, false, x.repeat_kw) + pt_statement_list(x.statement_list, c, false)
        + ttok(c, false, x.until_kw) + pt_expression(x.condition, c, true)
}

/// A `kasus` statement: every branch is drawn as a middle child.
pub open spec fn pt_case(x: CaseStatementV, s: Seq<bool>, last: bool) -> Seq<char>
    decreases x, 1int,
{
    let c = s.push(last);
    tline(s, last, "<case-statement>"@) + ttok(c, false, x.case_kw) + pt_expression(x.expression, c, false)
        + ttok(c, false, x.of_kw) + pt_branches(x.branches, c, x.branches.len() as int)
        + match x.else_clause {
            Some(e) => pt_case_else(e, c, false),
            None => Seq::empty(),
        } + ttok(c, true, x.end_kw)
}

/// The `selain-itu` part of a `kasus` statement, on the level of its parts.
pub open spec fn pt_case_else(x: CaseElseClauseV, s: Seq<bool>, last: bool) -> Seq<char>
    decreases x, 1int,
{
    ttok(s, false, x.else_kw) + pt_statement_list(x.statement_list, s, last)
}

/// The first `n` branches of a `kasus` statement.
pub open spec fn pt_branches(v: Seq<CaseBranchV>, s: Seq<bool>, n: int) -> Seq<char>
    decreases v, n,
{
    if n <= 0 || n > v.len() {
        Seq::empty()
    } else {
        pt_branches(v, s, n - 1) + pt_case_branch(v[n - 1], s, false)
    }
}

/// A branch: its labels, colon, statement and semicolon on one level.
pub open spec fn pt_case_branch(x: CaseBranchV, s: Seq<bool>, last: bool) -> Seq<char>
    decreases x, 1int,
{
    pt_labels(x.labels, s, false) + ttok(s, false, x.colon) + pt_statement(*x.statement, s, false)
        + ttok(s, last, x.semicolon)
}

/// The labels of a branch.
pub open spec fn pt_labels(x: CaseLabelListV, s: Seq<bool>, last: bool) -> Seq<char>
    decreases x, 1int,
{
    let c = s.push(last);
    tline(s, last, "<case-label-list>"@) + pt_expression(x.initial_label, c, x.rest.len() == 0)
        + pt_label_rest(x.rest, c, x.rest.len() as int)
}

/// The first `n` comma and label pairs.
pub open spec fn pt_label_rest(v: Seq<(Token, ExpressionV)>, s: Seq<bool>, n: int) -> Seq<char>
    decreases v, n,
{
    if n <= 0 || n > v.len() {
        Seq::empty()
    } else {
        pt_label_rest(v, s, n - 1) + ttok(s, false, v[n - 1].0) + pt_expression(v[n - 1].1, s, n - 1 == v.len() - 1)
    }
}

// ---------------------------------------------------------- declarations

/// The declarations of a block. Only the last entry of the last non-empty
/// section is drawn as a last child.
pub open spec fn pt_declaration_part(x: DeclarationPartV, s: Seq<bool>, last: bool) -> Seq<char>
    decreases x, 1int,
{
    let c = s.push(last);
    let sub_last = x.subprogram_declarations.len() > 0;
    let var_last = x.var_declarations.len() > 0 && !sub_last;
    let type_last = x.type_declarations.len() > 0 && !var_last && !sub_last;
    let const_last = x.const_declarations.len() > 0 && !type_last && !var_last && !sub_last;
    tline(s, last, "<declaration-part>"@)
        + pt_const_decls(x.const_declarations, c, const_last, x.const_declarations.len() as int)
        + pt_type_decls(x.type_declarations, c, type_last, x.type_declarations.len() as int)
        + pt_var_decls(x.var_declarations, c, var_last, x.var_declarations.len() as int)
        + pt_sub_decls(x.subprogram_declarations, c, sub_last, x.subprogram_declarations.len() as int)
}

/// The first `n` constant sections.
pub open spec fn pt_const_decls(v: Seq<ConstantDeclarationV>, s: Seq<bool>, group_last: bool, n: int) -> Seq<char>
    decreases v, n,
{
    if n <= 0 || n > v.len() {
        Seq::empty()
    } else {
        pt_const_decls(v, s, group_last, n - 1) + pt_const_decl(v[n - 1], s, group_last && n - 1 == v.len() - 1)
    }
}

/// The first `n` type sections.
pub open spec fn pt_type_decls(v: Seq<TypeDeclarationV>, s: Seq<bool>, group_last: bool, n: int) -> Seq<char>
    decreases v, n,
{
    if n <= 0 || n > v.len() {
        Seq::empty()
    } else {
        pt_type_decls(v, s, group_last, n - 1) + pt_type_decl(v[n - 1], s, group_last && n - 1 == v.len() - 1)
    }
}

/// The first `n` variable sections.
pub open spec fn pt_var_decls(v: Seq<VariableDeclarationV>, s: Seq<bool>, group_last: bool, n: int) -> Seq<char>
    decreases v, n,
{
    if n <= 0 || n > v.len() {
        Seq::empty()
    } else {
        pt_var_decls(v, s, group_last, n - 1) + pt_var_decl(v[n - 1], s, group_last && n - 1 == v.len() - 1)
    }
}

/// The first `n` subprograms.
pub open spec fn pt_sub_decls(v: Seq<SubprogramDeclarationV>, s: Seq<bool>, group_last: bool, n: int) -> Seq<char>
    decreases v, n,
{
    if n <= 0 || n > v.len() {
        Seq::empty()
    } else {
        pt_sub_decls(v, s, group_last, n - 1) + pt_subprogram(v[n - 1], s, group_last && n - 1 == v.len() - 1)
    }
}

/// `konstanta` and its definitions.
pub open spec fn pt_const_decl(x: ConstantDeclarationV, s: Seq<bool>, last: bool) -> Seq<char>
    decreases x, 1int,
{
    let c = s.push(last);
    tline(s, last, "<const-declaration>"@) + ttok(c, x.constants.len() == 0, x.const_kw)
        + pt_const_defs(x.constants, c, x.constants.len() as int)
}

/// The first `n` constant definitions.
pub open spec fn pt_const_defs(v: Seq<ConstantDefinitionV>, s: Seq<bool>, n: int) -> Seq<char>
    decreases v, n,
{
    if n <= 0 || n > v.len() {
        Seq::empty()
    } else {
        let d = v[n - 1];
        pt_const_defs(v, s, n - 1) + ttok(s, false, d.name) + ttok(s, false, d.equals_op)
            + pt_expression(d.value, s, false) + ttok(s, n - 1 == v.len() - 1, d.semicolon)
    }
}

/// `tipe` and its definitions.
pub open spec fn pt_type_decl(x: TypeDeclarationV, s: Seq<bool>, last: bool) -> Seq<char>
    decreases x, 1int,
{
    let c = s.push(last);
    tline(s, last, "<type-declaration>"@) + ttok(c, x.definitions.len() == 0, x.type_kw)
        + pt_type_defs(x.definitions, c, x.definitions.len() as int)
}

/// The first `n` type definitions.
pub open spec fn pt_type_defs(v: Seq<TypeDefinitionV>, s: Seq<bool>, n: int) -> Seq<char>
    decreases v, n,
{
    if n <= 0 || n > v.len() {
        Seq::empty()
    } else {
        let d = v[n - 1];
        pt_type_defs(v, s, n - 1) + ttok(s, false, d.name) + ttok(s, false, d.equals_op)
            + pt_type(d.type_def, s, false) + ttok(s, n - 1 == v.len() - 1, d.semicolon)
    }
}

/// `variabel` and its groups.
pub open spec fn pt_var_decl(x: VariableDeclarationV, s: Seq<bool>, last: bool) -> Seq<char>
    decreases x, 1int,
{
    let c = s.push(last);
    tline(s, last, "<var-declaration>"@) + ttok(c, x.groups.len() == 0, x.var_kw)
        + pt_var_groups(x.groups, c, x.groups.len() as int)
}

/// The first `n` variable groups.
pub open spec fn pt_var_groups(v: Seq<VariableGroupV>, s: Seq<bool>, n: int) -> Seq<char>
    decreases v, n,
{
    if n <= 0 || n > v.len() {
        Seq::empty()
    } else {
        let g = v[n - 1];
        pt_var_groups(v, s, n - 1) + pt_identifier_list(g.identifiers, s, false) + ttok(s, false, g.colon)
            + pt_type(g.var_type, s, false) + ttok(s, n - 1 == v.len() - 1, g.semicolon)
    }
}

/// An identifier list.
pub open spec fn pt_identifier_list(x: IdentifierListV, s: Seq<bool>, last: bool) -> Seq<char> {
    let c = s.push(last);
    tline(s, last, "<identifier-list>"@) + ttok(c, x.rest.len() == 0, x.initial_id)
        + pt_id_rest(x.rest, c, x.rest.len() as int)
}

/// The first `n` comma and identifier pairs.
pub open spec fn pt_id_rest(v: Seq<(Token, Token)>, s: Seq<bool>, n: int) -> Seq<char>
    decreases n,
{
    if n <= 0 || n > v.len() {
        Seq::empty()
    } else {
        pt_id_rest(v, s, n - 1) + ttok(s, false, v[n - 1].0) + ttok(s, n - 1 == v.len() - 1, v[n - 1].1)
    }
}

/// A procedure or function.
pub open spec fn pt_subprogram(x: SubprogramDeclarationV, s: Seq<bool>, last: bool) -> Seq<char>
    decreases x, 1int,
{
    match x {
        SubprogramDeclarationV::Procedure(p) => pt_procedure(p, s, last),
        SubprogramDeclarationV::Function(f) => pt_function(f, s, last),
    }
}

/// A procedure declaration.
pub open spec fn pt_procedure(x: ProcedureDeclarationV, s: Seq<bool>, last: bool) -> Seq<char>
    decreases x, 1int,
{
    let c = s.push(last);
    tline(s, last, "<procedure-declaration>"@) + ttok(c, false, x.proc_kw) + ttok(c, false, x.name)
        + pt_params(x.parameters, c, false) + ttok(c, false, x.header_semicolon)
        + pt_declaration_part(x.declarations, c, false) + pt_compound(x.body, c, false)
        + ttok(c, true, x.block_semicolon)
}

/// A function declaration.
pub open spec fn pt_function(x: FunctionDeclarationV, s: Seq<bool>, last: bool) -> Seq<char>
    decreases x, 1int,
{
    let c = s.push(last);
    tline(s, last, "<function-declaration>"@) + ttok(c, false, x.func_kw) + ttok(c, false, x.name)
        + pt_params(x.parameters, c, false) + ttok(c, false, x.colon) + pt_type(x.return_type, c, false)
        + ttok(c, false, x.header_semicolon) + pt_declaration_part(x.declarations, c, false)
        + pt_compound(x.body, c, false) + ttok(c, true, x.block_semicolon)
}

/// A parameter list in parentheses.
pub open spec fn pt_params(x: FormalParameterListV, s: Seq<bool>, last: bool) -> Seq<char> {
    let c = s.push(last);
    tline(s, last, "<formal-parameter-list>"@) + ttok(c, x.initial_param is None, x.l_paren)
        + match x.initial_param {
            Some(g) => pt_param_group(g, c, x.rest.len() == 0),
            None => Seq::empty(),
        } + pt_param_rest(x.rest, c, x.rest.len() as int) + ttok(c, true, x.r_paren)
}

/// The first `n` semicolon and group pairs.
pub open spec fn pt_param_rest(v: Seq<(Token, FormalParameterGroupV)>, s: Seq<bool>, n: int) -> Seq<char>
    decreases n,
{
    if n <= 0 || n > v.len() {
        Seq::empty()
    } else {
        pt_param_rest(v, s, n - 1) + ttok(s, false, v[n - 1].0) + pt_param_group(v[n - 1].1, s, n - 1 == v.len() - 1)
    }
}

/// A parameter group: `variabel` if given, the names, colon and type.
pub open spec fn pt_param_group(x: FormalParameterGroupV, s: Seq<bool>, last: bool) -> Seq<char> {
    let kw = match x.var_kw {
        Some(t) => ttok(s, false, t),
        None => Seq::empty(),
    };
    kw + pt_identifier_list(x.identifiers, s, false) + ttok(s, false, x.colon) + pt_type(x.var_type, s, last)
}

/// The program header.
pub open spec fn pt_program_header(x: ProgramHeaderV, s: Seq<bool>, last: bool) -> Seq<char> {
    let c = s.push(last);
    tline(s, last, "<program-header>"@) + ttok(c, false, x.program_kw) + ttok(c, false, x.name) + ttok(c, true, x.semicolon)
}

/// The whole tree: the `<program>` root, then the header, declarations,
/// body and final dot as its children.
pub open spec fn parse_tree_text(p: ProgramV) -> Seq<char> {
    let c = Seq::<bool>::empty();
    "<program>\n"@ + pt_program_header(p.header, c, false) + pt_declaration_part(p.declarations, c, false)
        + pt_compound(p.body, c, false) + ttok(c, true, p.dot)
}

// ------------------------------------------------------- one-line forms

/// The source form of an expression on one line: operands as written,
/// binary operators between spaces, as in `arr[5]` or `a + b * 2`.
pub open spec fn expression_flat(x: ExpressionV) -> Seq<char>
    decreases x, 1int,
{
    simple_flat(*x.initial_simple_expr) + simple_rest_flat(x.rest, x.rest.len() as int)
}

/// The first `n` operator and operand pairs of an expression, on one line.
pub open spec fn simple_rest_flat(v: Seq<(Token, Box<SimpleExpressionV>)>, n: int) -> Seq<char>
    decreases v, n,
{
    if n <= 0 || n > v.len() {
        Seq::empty()
    } else {
        simple_rest_flat(v, n - 1) + " "@ + v[n - 1].0.value@ + " "@ + simple_flat(*v[n - 1].1)
    }
}

/// A simple expression on one line.
pub open spec fn simple_flat(x: SimpleExpressionV) -> Seq<char>
    decreases x, 1int,
{
    term_flat(*x.initial_term) + term_rest_flat(x.rest, x.rest.len() as int)
}

/// The first `n` operator and term pairs, on one line.
pub open spec fn term_rest_flat(v: Seq<(Token, Box<TermV>)>, n: int) -> Seq<char>
    decreases v, n,
{
    if n <= 0 || n > v.len() {
        Seq::empty()
    } else {
        term_rest_flat(v, n - 1) + " "@ + v[n - 1].0.value@ + " "@ + term_flat(*v[n - 1].1)
    }
}

/// A term on one line.
pub open spec fn term_flat(x: TermV) -> Seq<char>
    decreases x, 1int,
{
    factor_flat(*x.initial_factor) + factor_rest_flat(x.rest, x.rest.len() as int)
}

/// The first `n` operator and factor pairs, on one line.
pub open spec fn factor_rest_flat(v: Seq<(Token, Box<FactorV>)>, n: int) -> Seq<char>
    decreases v, n,
{
    if n <= 0 || n > v.len() {
        Seq::empty()
    } else {
        factor_rest_flat(v, n - 1) + " "@ + v[n - 1].0.value@ + " "@ + factor_flat(*v[n - 1].1)
    }
}

/// A factor on one line: a call as `f(a, b)`, an element as `a[i]`, a
/// negation as `tidak x`, a sign written against its operand.
pub open spec fn factor_flat(x: FactorV) -> Seq<char>
    decreases x, 1int,
{
    match x {
        FactorV::Literal(l) => l.token.value@,
        FactorV::Identifier(t) => t.value@,
        FactorV::FunctionCall(f) => f.function_name.value@ + "("@ + match f.arguments {
            Some(a) => expression_flat(*a.initial_arg) + arg_rest_flat(a.rest, a.rest.len() as int),
            None => Seq::empty(),
        } + ")"@,
        FactorV::ArrayAccess(a) => expression_flat(*a.array) + "["@ + expression_flat(*a.index) + "]"@,
        FactorV::Parenthesized(p) => "("@ + expression_flat(*p.expr) + ")"@,
        FactorV::Not(n) => n.not_token.value@ + " "@ + factor_flat(*n.factor),
        FactorV::ArithmeticUnary(u) => u.op.value@ + factor_flat(*u.factor),
    }
}

/// The first `n` further arguments, each after `, `.
pub open spec fn arg_rest_flat(v: Seq<(Token, Box<ExpressionV>)>, n: int) -> Seq<char>
    decreases v, n,
{
    if n <= 0 || n > v.len() {
        Seq::empty()
    } else {
        arg_rest_flat(v, n - 1) + ", "@ + expression_flat(*v[n - 1].1)
    }
}


// ------------------------------------------------------------------ laws

/// `part` stands somewhere in `text`, as one piece.
pub open spec fn shows(text: Seq<char>, part: Seq<char>) -> bool {
    exists|i: int| 0 <= i && i + part.len() <= text.len() && #[trigger] text.subrange(i, i + part.len()) == part
}

/// `text` begins with `head`.
pub open spec fn starts_with(text: Seq<char>, head: Seq<char>) -> bool {
    head.len() <= text.len() && text.subrange(0, head.len() as int) == head
}

/// `text` ends with `tail`.
pub open spec fn ends_with(text: Seq<char>, tail: Seq<char>) -> bool {
    tail.len() <= text.len() && text.subrange(text.len() - tail.len(), text.len() as int) == tail
}

/// A part found at a position of a text is shown in it.
pub proof fn lemma_shown_at(t: Seq<char>, part: Seq<char>, i: int)
    requires
        0 <= i,
        i + part.len() <= t.len(),
        t.subrange(i, i + part.len()) =~= part,
    ensures
        shows(t, part),
{
}

/// A text made of four parts starts with the first, shows each, and ends
/// with the last.
pub proof fn lemma_four_parts(p0: Seq<char>, p1: Seq<char>, p2: Seq<char>, p3: Seq<char>)
    ensures
        starts_with(p0 + p1 + p2 + p3, p0),
        shows(p0 + p1 + p2 + p3, p1),
        shows(p0 + p1 + p2 + p3, p2),
        shows(p0 + p1 + p2 + p3, p3),
        ends_with(p0 + p1 + p2 + p3, p3),
        ends_with(p0 + p1 + p2 + p3, p2 + p3),
{
    let t = p0 + p1 + p2 + p3;
    assert(t.subrange(0, p0.len() as int) =~= p0);
    assert(t.subrange((p0.len()) as int, (p0.len() + p1.len()) as int) =~= p1);
    lemma_shown_at(t, p1, (p0.len()) as int);
    assert(t.subrange((p0.len() + p1.len()) as int, (p0.len() + p1.len() + p2.len()) as int) =~= p2);
    lemma_shown_at(t, p2, (p0.len() + p1.len()) as int);
    assert(t.subrange((p0.len() + p1.len() + p2.len()) as int, (p0.len() + p1.len() + p2.len() + p3.len()) as int) =~= p3);
    lemma_shown_at(t, p3, (p0.len() + p1.len() + p2.len()) as int);
    assert(t.subrange(t.len() - p3.len(), t.len() as int) =~= p3);
    assert(t.subrange(t.len() - (p2 + p3).len(), t.len() as int) =~= p2 + p3);
}

/// A text made of five parts starts with the first, shows each, and ends
/// with the last.
pub proof fn lemma_five_parts(p0: Seq<char>, p1: Seq<char>, p2: Seq<char>, p3: Seq<char>, p4: Seq<char>)
    ensures
        starts_with(p0 + p1 + p2 + p3 + p4, p0),
        shows(p0 + p1 + p2 + p3 + p4, p1),
        shows(p0 + p1 + p2 + p3 + p4, p2),
        shows(p0 + p1 + p2 + p3 + p4, p3),
        shows(p0 + p1 + p2 + p3 + p4, p4),
        ends_with(p0 + p1 + p2 + p3 + p4, p4),
        ends_with(p0 + p1 + p2 + p3 + p4, p3 + p4),
{
    let t = p0 + p1 + p2 + p3 + p4;
    assert(t.subrange(0, p0.len() as int) =~= p0);
    assert(t.subrange((p0.len()) as int, (p0.len() + p1.len()) as int) =~= p1);
    lemma_shown_at(t, p1, (p0.len()) as int);
    assert(t.subrange((p0.len() + p1.len()) as int, (p0.len() + p1.len() + p2.len()) as int) =~= p2);
    lemma_shown_at(t, p2, (p0.len() + p1.len()) as int);
    assert(t.subrange((p0.len() + p1.len() + p2.len()) as int, (p0.len() + p1.len() + p2.len() + p3.len()) as int) =~= p3);
    lemma_shown_at(t, p3, (p0.len() + p1.len() + p2.len()) as int);
    assert(t.subrange((p0.len() + p1.len() + p2.len() + p3.len()) as int, (p0.len() + p1.len() + p2.len() + p3.len() + p4.len()) as int) =~= p4);
    lemma_shown_at(t, p4, (p0.len() + p1.len() + p2.len() + p3.len()) as int);
    assert(t.subrange(t.len() - p4.len(), t.len() as int) =~= p4);
    assert(t.subrange(t.len() - (p3 + p4).len(), t.len() as int) =~= p3 + p4);
}

/// A text made of six parts starts with the first, shows each, and ends
/// with the last.
pub proof fn lemma_six_parts(p0: Seq<char>, p1: Seq<char>, p2: Seq<char>, p3: Seq<char>, p4: Seq<char>, p5: Seq<char>)
    ensures
        starts_with(p0 + p1 + p2 + p3 + p4 + p5, p0),
        shows(p0 + p1 + p2 + p3 + p4 + p5, p1),
        shows(p0 + p1 + p2 + p3 + p4 + p5, p2),
        shows(p0 + p1 + p2 + p3 + p4 + p5, p3),
        shows(p0 + p1 + p2 + p3 + p4 + p5, p4),
        shows(p0 + p1 + p2 + p3 + p4 + p5, p5),
        ends_with(p0 + p1 + p2 + p3 + p4 + p5, p5),
        ends_with(p0 + p1 + p2 + p3 + p4 + p5, p4 + p5),
{
    let t = p0 + p1 + p2 + p3 + p4 + p5;
    assert(t.subrange(0, p0.len() as int) =~= p0);
    assert(t.subrange((p0.len()) as int, (p0.len() + p1.len()) as int) =~= p1);
    lemma_shown_at(t, p1, (p0.len()) as int);
    assert(t.subrange((p0.len() + p1.len()) as int, (p0.len() + p1.len() + p2.len()) as int) =~= p2);
    lemma_shown_at(t, p2, (p0.len() + p1.len()) as int);
    assert(t.subrange((p0.len() + p1.len() + p2.len()) as int, (p0.len() + p1.len() + p2.len() + p3.len()) as int) =~= p3);
    lemma_shown_at(t, p3, (p0.len() + p1.len() + p2.len()) as int);
    assert(t.subrange((p0.len() + p1.len() + p2.len() + p3.len()) as int, (p0.len() + p1.len() + p2.len() + p3.len() + p4.len()) as int) =~= p4);
    lemma_shown_at(t, p4, (p0.len() + p1.len() + p2.len() + p3.len()) as int);
    assert(t.subrange((p0.len() + p1.len() + p2.len() + p3.len() + p4.len()) as int, (p0.len() + p1.len() + p2.len() + p3.len() + p4.len() + p5.len()) as int) =~= p5);
    lemma_shown_at(t, p5, (p0.len() + p1.len() + p2.len() + p3.len() + p4.len()) as int);
    assert(t.subrange(t.len() - p5.len(), t.len() as int) =~= p5);
    assert(t.subrange(t.len() - (p4 + p5).len(), t.len() as int) =~= p4 + p5);
}

/// A text made of nine parts starts with the first, shows each, and ends
/// with the last.
pub proof fn lemma_nine_parts(p0: Seq<char>, p1: Seq<char>, p2: Seq<char>, p3: Seq<char>, p4: Seq<char>, p5: Seq<char>, p6: Seq<char>, p7: Seq<char>, p8: Seq<char>)
    ensures
        starts_with(p0 + p1 + p2 + p3 + p4 + p5 + p6 + p7 + p8, p0),
        shows(p0 + p1 + p2 + p3 + p4 + p5 + p6 + p7 + p8, p1),
        shows(p0 + p1 + p2 + p3 + p4 + p5 + p6 + p7 + p8, p2),
        shows(p0 + p1 + p2 + p3 + p4 + p5 + p6 + p7 + p8, p3),
        shows(p0 + p1 + p2 + p3 + p4 + p5 + p6 + p7 + p8, p4),
        shows(p0 + p1 + p2 + p3 + p4 + p5 + p6 + p7 + p8, p5),
        shows(p0 + p1 + p2 + p3 + p4 + p5 + p6 + p7 + p8, p6),
        shows(p0 + p1 + p2 + p3 + p4 + p5 + p6 + p7 + p8, p7),
        shows(p0 + p1 + p2 + p3 + p4 + p5 + p6 + p7 + p8, p8),
        ends_with(p0 + p1 + p2 + p3 + p4 + p5 + p6 + p7 + p8, p8),
        ends_with(p0 + p1 + p2 + p3 + p4 + p5 + p6 + p7 + p8, p7 + p8),
{
    let t = p0 + p1 + p2 + p3 + p4 + p5 + p6 + p7 + p8;
    assert(t.subrange(0, p0.len() as int) =~= p0);
    assert(t.subrange((p0.len()) as int, (p0.len() + p1.len()) as int) =~= p1);
    lemma_shown_at(t, p1, (p0.len()) as int);
    assert(t.subrange((p0.len() + p1.len()) as int, (p0.len() + p1.len() + p2.len()) as int) =~= p2);
    lemma_shown_at(t, p2, (p0.len() + p1.len()) as int);
    assert(t.subrange((p0.len() + p1.len() + p2.len()) as int, (p0.len() + p1.len() + p2.len() + p3.len()) as int) =~= p3);
    lemma_shown_at(t, p3, (p0.len() + p1.len() + p2.len()) as int);
    assert(t.subrange((p0.len() + p1.len() + p2.len() + p3.len()) as int, (p0.len() + p1.len() + p2.len() + p3.len() + p4.len()) as int) =~= p4);
    lemma_shown_at(t, p4, (p0.len() + p1.len() + p2.len() + p3.len()) as int);
    assert(t.subrange((p0.len() + p1.len() + p2.len() + p3.len() + p4.len()) as int, (p0.len() + p1.len() + p2.len() + p3.len() + p4.len() + p5.len()) as int) =~= p5);
    lemma_shown_at(t, p5, (p0.len() + p1.len() + p2.len() + p3.len() + p4.len()) as int);
    assert(t.subrange((p0.len() + p1.len() + p2.len() + p3.len() + p4.len() + p5.len()) as int, (p0.len() + p1.len() + p2.len() + p3.len() + p4.len() + p5.len() + p6.len()) as int) =~= p6);
    lemma_shown_at(t, p6, (p0.len() + p1.len() + p2.len() + p3.len() + p4.len() + p5.len()) as int);
    assert(t.subrange((p0.len() + p1.len() + p2.len() + p3.len() + p4.len() + p5.len() + p6.len()) as int, (p0.len() + p1.len() + p2.len() + p3.len() + p4.len() + p5.len() + p6.len() + p7.len()) as int) =~= p7);
    lemma_shown_at(t, p7, (p0.len() + p1.len() + p2.len() + p3.len() + p4.len() + p5.len() + p6.len()) as int);
    assert(t.subrange((p0.len() + p1.len() + p2.len() + p3.len() + p4.len() + p5.len() + p6.len() + p7.len()) as int, (p0.len() + p1.len() + p2.len() + p3.len() + p4.len() + p5.len() + p6.len() + p7.len() + p8.len()) as int) =~= p8);
    lemma_shown_at(t, p8, (p0.len() + p1.len() + p2.len() + p3.len() + p4.len() + p5.len() + p6.len() + p7.len()) as int);
    assert(t.subrange(t.len() - p8.len(), t.len() as int) =~= p8);
    assert(t.subrange(t.len() - (p7 + p8).len(), t.len() as int) =~= p7 + p8);
}

/// The text of a conditional shows its node line first, then its `jika`,
/// its condition, its `maka` and its then-statement; with a `selain-itu`
/// part it ends with that keyword and the else-statement drawn as the last
/// child, and without one it ends with the then-statement as the last
/// child.
#[verifier::spinoff_prover]
pub proof fn law_if_text_shows_every_part(x: IfStatementV, s: Seq<bool>, last: bool)
    ensures
        ({
            let c = s.push(last);
            let text = pt_if(x, s, last);
            &&& starts_with(text, tline(s, last, "<if-statement>"@))
            &&& shows(text, ttok(c, false, x.if_kw))
            &&& shows(text, pt_expression(x.condition, c, false))
            &&& shows(text, ttok(c, false, x.then_kw))
            &&& shows(text, pt_statement(*x.then_branch, c, x.else_clause is None))
            &&& (x.else_clause matches Some(e) ==> ends_with(
                text,
                ttok(c, false, e.else_kw) + pt_statement(*e.statement, c, true),
            ))
            &&& (x.else_clause is None ==> ends_with(text, pt_statement(*x.then_branch, c, true)))
        }),
{
    let c = s.push(last);
    let f = match x.else_clause {
        Some(el) => ttok(c, false, el.else_kw) + pt_statement(*el.statement, c, true),
        None => Seq::empty(),
    };
    let h = tline(s, last, "<if-statement>"@);
    let a = ttok(c, false, x.if_kw);
    let b = pt_expression(x.condition, c, false);
    let d = ttok(c, false, x.then_kw);
    let e = pt_statement(*x.then_branch, c, x.else_clause is None);
    lemma_six_parts(h, a, b, d, e, f);
    if x.else_clause is None {
        lemma_five_parts(h, a, b, d, e);
        assert(h + a + b + d + e + f =~= h + a + b + d + e);
    }
}

/// The text of a `selama` loop shows its node line, its keyword, its
/// condition and its `lakukan`, and ends with its body as the last child.
#[verifier::spinoff_prover]
pub proof fn law_while_text_shows_every_part(x: WhileStatementV, s: Seq<bool>, last: bool)
    ensures
        ({
            let c = s.push(last);
            let text = pt_while(x, s, last);
            &&& starts_with(text, tline(s, last, "<while-statement>"@))
            &&& shows(text, ttok(c, false, x.while_kw))
            &&& shows(text, pt_expression(x.condition, c, false))
            &&& shows(text, ttok(c, false, x.do_kw))
            &&& ends_with(text, pt_statement(*x.body, c, true))
        }),
{
    let c = s.push(last);
    lemma_five_parts(
        tline(s, last, "<while-statement>"@),
        ttok(c, false, x.while_kw),
        pt_expression(x.condition, c, false),
        ttok(c, false, x.do_kw),
        pt_statement(*x.body, c, true),
    );
}

/// The text of an `untuk` loop shows its node line, its keyword, counter,
/// `:=`, start value, direction, end value and `lakukan`, and ends with its
/// body as the last child.
#[verifier::spinoff_prover]
pub proof fn law_for_text_shows_every_part(x: ForStatementV, s: Seq<bool>, last: bool)
    ensures
        ({
            let c = s.push(last);
            let text = pt_for(x, s, last);
            &&& starts_with(text, tline(s, last, "<for-statement>"@))
            &&& shows(text, ttok(c, false, x.for_kw))
            &&& shows(text, ttok(c, false, x.counter_variable))
            &&& shows(text, ttok(c, false, x.assign_op))
            &&& shows(text, pt_expression(x.start_value, c, false))
            &&& shows(text, ttok(c, false, x.direction_kw))
            &&& shows(text, pt_expression(x.end_value, c, false))
            &&& shows(text, ttok(c, false, x.do_kw))
            &&& ends_with(text, pt_statement(*x.body, c, true))
        }),
{
    let c = s.push(last);
    lemma_nine_parts(
        tline(s, last, "<for-statement>"@),
        ttok(c, false, x.for_kw),
        ttok(c, false, x.counter_variable),
        ttok(c, false, x.assign_op),
        pt_expression(x.start_value, c, false),
        ttok(c, false, x.direction_kw),
        pt_expression(x.end_value, c, false),
        ttok(c, false, x.do_kw),
        pt_statement(*x.body, c, true),
    );
}

/// The text of an `ulangi` loop shows its node line, its keyword, its
/// statements and its `sampai`, and ends with its condition as the last
/// child.
#[verifier::spinoff_prover]
pub proof fn law_repeat_text_shows_every_part(x: RepeatStatementV, s: Seq<bool>, last: bool)
    ensures
        ({
            let c = s.push(last);
            let text = pt_repeat(x, s, last);
            &&& starts_with(text, tline(s, last, "<repeat-statement>"@))
            &&& shows(text, ttok(c, false, x.repeat_kw))
            &&& shows(text, pt_statement_list(x.statement_list, c, false))
            &&& shows(text, ttok(c, false, x.until_kw))
            &&& ends_with(text, pt_expression(x.condition, c, true))
        }),
{
    let c = s.push(last);
    lemma_five_parts(
        tline(s, last, "<repeat-statement>"@),
        ttok(c, false, x.repeat_kw),
        pt_statement_list(x.statement_list, c, false),
        ttok(c, false, x.until_kw),
        pt_expression(x.condition, c, true),
    );
}

/// The text of an assignment shows its node line and its target and `:=`,
/// and ends with the assigned expression as the last child.
#[verifier::spinoff_prover]
pub proof fn law_assignment_text_shows_every_part(x: AssignmentStatementV, s: Seq<bool>, last: bool)
    ensures
        ({
            let c = s.push(last);
            let text = pt_assignment(x, s, last);
            &&& starts_with(text, tline(s, last, "<assignment-statement>"@))
            &&& shows(text, pt_expression(x.variable, c, false))
            &&& shows(text, ttok(c, false, x.assign_op))
            &&& ends_with(text, pt_expression(x.expression, c, true))
        }),
{
    let c = s.push(last);
    lemma_four_parts(
        tline(s, last, "<assignment-statement>"@),
        pt_expression(x.variable, c, false),
        ttok(c, false, x.assign_op),
        pt_expression(x.expression, c, true),
    );
}

/// The text of a procedure call shows its node line, the procedure's name,
/// `(` and the arguments, if any, and ends with `)` as the last child.
#[verifier::spinoff_prover]
pub proof fn law_procedure_call_text_shows_every_part(x: ProcedureCallStatementV, s: Seq<bool>, last: bool)
    ensures
        ({
            let c = s.push(last);
            let text = pt_procedure_call(x, s, last);
            &&& starts_with(text, tline(s, last, "<procedure-call>"@))
            &&& shows(text, ttok(c, false, x.call.function_name))
            &&& shows(text, ttok(c, false, x.call.l_paren))
            &&& (x.call.arguments matches Some(a) ==> shows(text, pt_args(a, c, false)))
            &&& ends_with(text, ttok(c, true, x.call.r_paren))
        }),
{
    let c = s.push(last);
    lemma_five_parts(
        tline(s, last, "<procedure-call>"@),
        ttok(c, false, x.call.function_name),
        ttok(c, false, x.call.l_paren),
        match x.call.arguments {
            Some(a) => pt_args(a, c, false),
            None => Seq::empty(),
        },
        ttok(c, true, x.call.r_paren),
    );
}

/// The text of a `mulai ... selesai` block shows its node line, `mulai`
/// and its statements, and ends with `selesai` as the last child.
#[verifier::spinoff_prover]
pub proof fn law_compound_text_shows_every_part(x: CompoundStatementV, s: Seq<bool>, last: bool)
    ensures
        ({
            let c = s.push(last);
            let text = pt_compound(x, s, last);
            &&& starts_with(text, tline(s, last, "<compound-statement>"@))
            &&& shows(text, ttok(c, false, x.begin_kw))
            &&& shows(text, pt_statement_list(x.statement_list, c, false))
            &&& ends_with(text, ttok(c, true, x.end_kw))
        }),
{
    let c = s.push(last);
    lemma_four_parts(
        tline(s, last, "<compound-statement>"@),
        ttok(c, false, x.begin_kw),
        pt_statement_list(x.statement_list, c, false),
        ttok(c, true, x.end_kw),
    );
}

/// A one-line form made of a first operand and operator pairs starts with
/// the first operand and ends with the last operator between spaces and
/// the last operand.
pub proof fn lemma_operator_tail(first: Seq<char>, middle: Seq<char>, op: Seq<char>, last: Seq<char>)
    ensures
        starts_with(first + (middle + " "@ + op + " "@ + last), first),
        ends_with(first + (middle + " "@ + op + " "@ + last), " "@ + op + " "@ + last),
{
    let t = first + (middle + " "@ + op + " "@ + last);
    let tail = " "@ + op + " "@ + last;
    assert(t =~= first + middle + tail);
    assert(t.subrange(0, first.len() as int) =~= first);
    assert(t.subrange(t.len() - tail.len(), t.len() as int) =~= tail);
}

/// The one-line form of a comparison starts with its first operand and ends
/// with its last operator, between spaces, and its last operand.
pub proof fn law_flat_expression_shows_its_operators(x: ExpressionV)
    requires
        x.rest.len() > 0,
    ensures
        starts_with(expression_flat(x), simple_flat(*x.initial_simple_expr)),
        ends_with(expression_flat(x), " "@ + x.rest.last().0.value@ + " "@ + simple_flat(*x.rest.last().1)),
{
    let n = x.rest.len() as int;
    assert(x.rest.last() == x.rest[n - 1]);
    lemma_operator_tail(simple_flat(*x.initial_simple_expr), simple_rest_flat(x.rest, n - 1), x.rest[n - 1].0.value@, simple_flat(*x.rest[n - 1].1));
}

/// The one-line form of a sum starts with its first term and ends with its
/// last operator, between spaces, and its last term.
pub proof fn law_flat_simple_shows_its_operators(x: SimpleExpressionV)
    requires
        x.rest.len() > 0,
    ensures
        starts_with(simple_flat(x), term_flat(*x.initial_term)),
        ends_with(simple_flat(x), " "@ + x.rest.last().0.value@ + " "@ + term_flat(*x.rest.last().1)),
{
    let n = x.rest.len() as int;
    assert(x.rest.last() == x.rest[n - 1]);
    lemma_operator_tail(term_flat(*x.initial_term), term_rest_flat(x.rest, n - 1), x.rest[n - 1].0.value@, term_flat(*x.rest[n - 1].1));
}

/// The one-line form of a product starts with its first factor and ends
/// with its last operator, between spaces, and its last factor.
pub proof fn law_flat_term_shows_its_operators(x: TermV)
    requires
        x.rest.len() > 0,
    ensures
        starts_with(term_flat(x), factor_flat(*x.initial_factor)),
        ends_with(term_flat(x), " "@ + x.rest.last().0.value@ + " "@ + factor_flat(*x.rest.last().1)),
{
    let n = x.rest.len() as int;
    assert(x.rest.last() == x.rest[n - 1]);
    lemma_operator_tail(factor_flat(*x.initial_factor), factor_rest_flat(x.rest, n - 1), x.rest[n - 1].0.value@, factor_flat(*x.rest[n - 1].1));
}

// ------------------------------------------------------------- printer

/// The printer's state: how deep the node being printed is, and for each
/// ancestor below the root whether it was the last child.
pub struct ParseTreePrinter {
    pub indent_level: usize,
    pub prefix_stack: Vec<bool>,
}

impl ParseTreePrinter {
    /// The printer's state is what it was before.
    pub open spec fn kept(&self, old: &ParseTreePrinter) -> bool {
        &&& self.indent_level == old.indent_level
        &&& self.prefix_stack@ == old.prefix_stack@
    }

    /// A printer at the root.
    pub fn new() -> (r: ParseTreePrinter)
        ensures
            r.indent_level == 0,
            r.prefix_stack@.len() == 0,
    {
        ParseTreePrinter { indent_level: 0, prefix_stack: Vec::new() }
    }

    /// The text in front of a node's label.
    fn get_prefix(&self, is_last: bool) -> (r: String)
        ensures
            r@ == tree_prefix(self.prefix_stack@, self.indent_level as nat, is_last),
    {
        let mut out = String::new();
        if self.indent_level == 0 {
            proof { assert(out@ =~= Seq::<char>::empty()); }
            return out;
        }
        let ghost st = self.prefix_stack@;
        let mut k: usize = 0;
        proof { assert(out@ =~= bars(st.take(0))); }
        while k < self.prefix_stack.len()
            invariant
                k <= st.len(),
                st == self.prefix_stack@,
                out@ == bars(st.take(k as int)),
            decreases st.len() - k,
        {
            if self.prefix_stack[k] {
                out.append("    ");
            } else {
                out.append("│   ");
            }
            proof { assert(st.take(k + 1).drop_last() =~= st.take(k as int)); }
            k = k + 1;
        }
        proof { assert(st.take(k as int) =~= st); }
        if is_last {
            out.append("└── ");
        } else {
            out.append("├── ");
        }
        out
    }

    /// One line: prefix, label, line break.
    #[verifier::spinoff_prover]
    #[verifier::rlimit(50)]
    fn print_node(&self, label: &str, is_last: bool) -> (r: String)
        requires
            self.indent_level > 0,
        ensures
            r@ == tline(self.prefix_stack@, is_last, label@),
    {
        let mut out = self.get_prefix(is_last);
        out.append(label);
        out.append("\n");
        out
    }

    /// The line of a token, `KIND(text)`.
    #[verifier::spinoff_prover]
    #[verifier::rlimit(50)]
    fn print_terminal_token(&self, token: &Token, is_last: bool) -> (r: String)
        requires
            self.indent_level > 0,
        ensures
            r@ == ttok(self.prefix_stack@, is_last, *token),
    {
        let mut out = self.get_prefix(is_last);
        let label = token.to_string();
        out.append(label.as_str());
        out.append("\n");
        out
    }

    /// Goes one level down below a node; gives the depth to come back to.
    fn indent(&mut self, is_last: bool) -> (saved: usize)
        ensures
            saved == old(self).indent_level,
            final(self).indent_level > 0,
            final(self).prefix_stack@ == if saved > 0 { old(self).prefix_stack@.push(is_last) } else {
                old(self).prefix_stack@
            },
    {
        let saved = self.indent_level;
        if saved > 0 {
            self.prefix_stack.push(is_last);
        }
        self.indent_level = if saved < usize::MAX { saved + 1 } else { saved };
        saved
    }

    /// Comes back up to depth `saved`, undoing `indent`.
    fn dedent(&mut self, saved: usize)
        requires
            saved > 0 ==> old(self).prefix_stack@.len() > 0,
        ensures
            final(self).indent_level == saved,
            final(self).prefix_stack@ == if saved > 0 { old(self).prefix_stack@.drop_last() } else {
                old(self).prefix_stack@
            },
    {
        self.indent_level = saved;
        if saved > 0 {
            self.prefix_stack.pop();
        }
    }

    /// An expression: its simple expressions and operators.
    #[verifier::spinoff_prover]
    #[verifier::rlimit(50)]
    fn print_expression(&mut self, x: &Expression, is_last: bool) -> (r: String)
        requires
            old(self).indent_level > 0,
        ensures
            final(self).kept(old(self)),
            r@ == pt_expression(x@, old(self).prefix_stack@, is_last),
        decreases x,
    {
        let ghost s = self.prefix_stack@;
        let mut out = self.print_node("<expression>", is_last);
        let saved = self.indent(is_last);
        let ghost c = self.prefix_stack@;
        let ghost v = x@.rest;
        proof { lemma_seq_view_token_boxed_simple_expression(x.rest@); }
        let n = x.rest.len();
        let first = self.print_simple_expression(&x.initial_simple_expr, n == 0);
        out.append(first.as_str());
        let ghost start = out@;
        let mut i: usize = 0;
        while i < n
            invariant
                i <= n,
                n == x.rest@.len(),
                v.len() == n,
                v == x@.rest,
                forall|j: int| 0 <= j < n ==> #[trigger] v[j] == (x.rest@[j].0, Box::new(simple_expression_view(*x.rest@[j].1))),
                self.indent_level > 0,
                self.prefix_stack@ == c,
                out@ == start + pt_simple_rest(v, c, i as int),
            decreases n - i,
        {
                proof { vstd::std_specs::vec::axiom_vec_index_decreases(x.rest, i as int); }
            let t = self.print_terminal_token(&x.rest[i].0, false);
            out.append(t.as_str());
            let e = self.print_simple_expression(&x.rest[i].1, i + 1 == n);
            out.append(e.as_str());
            proof { assert(v[i as int] == (x.rest@[i as int].0, Box::new(simple_expression_view(*x.rest@[i as int].1)))); }
            i = i + 1;
        }
        proof { assert(c == s.push(is_last)); assert(s.push(is_last).drop_last() =~= s); }
        self.dedent(saved);
        out
    }

    /// A simple expression: its terms and operators.
    #[verifier::spinoff_prover]
    #[verifier::rlimit(50)]
    fn print_simple_expression(&mut self, x: &SimpleExpression, is_last: bool) -> (r: String)
        requires
            old(self).indent_level > 0,
        ensures
            final(self).kept(old(self)),
            r@ == pt_simple(x@, old(self).prefix_stack@, is_last),
        decreases x,
    {
        let ghost s = self.prefix_stack@;
        let mut out = self.print_node("<simple-expression>", is_last);
        let saved = self.indent(is_last);
        let ghost c = self.prefix_stack@;
        let ghost v = x@.rest;
        proof { lemma_seq_view_token_boxed_term(x.rest@); }
        let n = x.rest.len();
        let first = self.print_term(&x.initial_term, n == 0);
        out.append(first.as_str());
        let ghost start = out@;
        let mut i: usize = 0;
        while i < n
            invariant
                i <= n,
                n == x.rest@.len(),
                v.len() == n,
                v == x@.rest,
                forall|j: int| 0 <= j < n ==> #[trigger] v[j] == (x.rest@[j].0, Box::new(term_view(*x.rest@[j].1))),
                self.indent_level > 0,
                self.prefix_stack@ == c,
                out@ == start + pt_term_rest(v, c, i as int),
            decreases n - i,
        {
                proof { vstd::std_specs::vec::axiom_vec_index_decreases(x.rest, i as int); }
            let t = self.print_terminal_token(&x.rest[i].0, false);
            out.append(t.as_str());
            let e = self.print_term(&x.rest[i].1, i + 1 == n);
            out.append(e.as_str());
            proof { assert(v[i as int] == (x.rest@[i as int].0, Box::new(term_view(*x.rest@[i as int].1)))); }
            i = i + 1;
        }
        proof { assert(c == s.push(is_last)); assert(s.push(is_last).drop_last() =~= s); }
        self.dedent(saved);
        out
    }

    /// A term: its factors and operators.
    #[verifier::spinoff_prover]
    #[verifier::rlimit(50)]
    fn print_term(&mut self, x: &Term, is_last: bool) -> (r: String)
        requires
            old(self).indent_level > 0,
        ensures
            final(self).kept(old(self)),
            r@ == pt_term(x@, old(self).prefix_stack@, is_last),
        decreases x,
    {
        let ghost s = self.prefix_stack@;
        let mut out = self.print_node("<term>", is_last);
        let saved = self.indent(is_last);
        let ghost c = self.prefix_stack@;
        let ghost v = x@.rest;
        proof { lemma_seq_view_token_boxed_factor(x.rest@); }
        let n = x.rest.len();
        let first = self.print_factor(&x.initial_factor, n == 0);
        out.append(first.as_str());
        let ghost start = out@;
        let mut i: usize = 0;
        while i < n
            invariant
                i <= n,
                n == x.rest@.len(),
                v.len() == n,
                v == x@.rest,
                forall|j: int| 0 <= j < n ==> #[trigger] v[j] == (x.rest@[j].0, Box::new(factor_view(*x.rest@[j].1))),
                self.indent_level > 0,
                self.prefix_stack@ == c,
                out@ == start + pt_factor_rest(v, c, i as int),
            decreases n - i,
        {
                proof { vstd::std_specs::vec::axiom_vec_index_decreases(x.rest, i as int); }
            let t = self.print_terminal_token(&x.rest[i].0, false);
            out.append(t.as_str());
            let e = self.print_factor(&x.rest[i].1, i + 1 == n);
            out.append(e.as_str());
            proof { assert(v[i as int] == (x.rest@[i as int].0, Box::new(factor_view(*x.rest@[i as int].1)))); }
            i = i + 1;
        }
        proof { assert(c == s.push(is_last)); assert(s.push(is_last).drop_last() =~= s); }
        self.dedent(saved);
        out
    }

    /// An argument list.
    #[verifier::spinoff_prover]
    #[verifier::rlimit(50)]
    fn print_actual_parameter_list(&mut self, x: &ActualParameterList, is_last: bool) -> (r: String)
        requires
            old(self).indent_level > 0,
        ensures
            final(self).kept(old(self)),
            r@ == pt_args(x@, old(self).prefix_stack@, is_last),
        decreases x,
    {
        let ghost s = self.prefix_stack@;
        let mut out = self.print_node("<parameter-list>", is_last);
        let saved = self.indent(is_last);
        let ghost c = self.prefix_stack@;
        let ghost v = x@.rest;
        proof { lemma_seq_view_token_boxed_expression(x.rest@); }
        let n = x.rest.len();
        let first = self.print_expression(&x.initial_arg, n == 0);
        out.append(first.as_str());
        let ghost start = out@;
        let mut i: usize = 0;
        while i < n
            invariant
                i <= n,
                n == x.rest@.len(),
                v.len() == n,
                v == x@.rest,
                forall|j: int| 0 <= j < n ==> #[trigger] v[j] == (x.rest@[j].0, Box::new(expression_view(*x.rest@[j].1))),
                self.indent_level > 0,
                self.prefix_stack@ == c,
                out@ == start + pt_arg_rest(v, c, i as int),
            decreases n - i,
        {
                proof { vstd::std_specs::vec::axiom_vec_index_decreases(x.rest, i as int); }
            let t = self.print_terminal_token(&x.rest[i].0, false);
            out.append(t.as_str());
            let e = self.print_expression(&x.rest[i].1, i + 1 == n);
            out.append(e.as_str());
            proof { assert(v[i as int] == (x.rest@[i as int].0, Box::new(expression_view(*x.rest@[i as int].1)))); }
            i = i + 1;
        }
        proof { assert(c == s.push(is_last)); assert(s.push(is_last).drop_last() =~= s); }
        self.dedent(saved);
        out
    }

    /// A factor: a `<factor>` line over its one child.
    #[verifier::spinoff_prover]
    #[verifier::rlimit(50)]
    fn print_factor(&mut self, x: &Factor, is_last: bool) -> (r: String)
        requires
            old(self).indent_level > 0,
        ensures
            final(self).kept(old(self)),
            r@ == pt_factor(x@, old(self).prefix_stack@, is_last),
        decreases x,
    {
        let ghost s = self.prefix_stack@;
        let mut out = self.print_node("<factor>", is_last);
        let saved = self.indent(is_last);
        let body = match x {
            Factor::Literal(l) => self.print_literal_value(l, true),
            Factor::Identifier(t) => self.print_terminal_token(t, true),
            Factor::FunctionCall(f) => self.print_function_call_node(f, true),
            Factor::ArrayAccess(a) => self.print_array_access(a, true),
            Factor::Parenthesized(p) => self.print_parenthesized_expression(p, true),
            Factor::Not(n) => self.print_not_factor(n, true),
            Factor::ArithmeticUnary(u) => self.print_arithmetic_unary_factor(u, true),
        };
        out.append(body.as_str());
        proof { assert(s.push(is_last).drop_last() =~= s); }
        self.dedent(saved);
        out
    }

    /// A literal: the line of its token.
    #[verifier::spinoff_prover]
    #[verifier::rlimit(50)]
    fn print_literal_value(&self, x: &LiteralValue, is_last: bool) -> (r: String)
        requires
            self.indent_level > 0,
        ensures
            r@ == ttok(self.prefix_stack@, is_last, x.token),
    {
        self.print_terminal_token(&x.token, is_last)
    }

    /// A signed factor: the sign, then the factor.
    #[verifier::spinoff_prover]
    #[verifier::rlimit(50)]
    fn print_arithmetic_unary_factor(&mut self, x: &ArithmeticUnaryFactor, is_last: bool) -> (r: String)
        requires
            old(self).indent_level > 0,
        ensures
            final(self).kept(old(self)),
            r@ == pt_unary(x@, old(self).prefix_stack@, is_last),
        decreases x,
    {
        let mut out = self.print_terminal_token(&x.op, false);
        let f = self.print_factor(&x.factor, is_last);
        out.append(f.as_str());
        out
    }

    /// A negation: the operator, then the factor.
    #[verifier::spinoff_prover]
    #[verifier::rlimit(50)]
    fn print_not_factor(&mut self, x: &NotFactor, is_last: bool) -> (r: String)
        requires
            old(self).indent_level > 0,
        ensures
            final(self).kept(old(self)),
            r@ == pt_not(x@, old(self).prefix_stack@, is_last),
        decreases x,
    {
        let mut out = self.print_terminal_token(&x.not_token, false);
        let f = self.print_factor(&x.factor, is_last);
        out.append(f.as_str());
        out
    }

    /// An element access: array, brackets and index.
    #[verifier::spinoff_prover]
    #[verifier::rlimit(50)]
    fn print_array_access(&mut self, x: &ArrayAccess, is_last: bool) -> (r: String)
        requires
            old(self).indent_level > 0,
        ensures
            final(self).kept(old(self)),
            r@ == pt_access(x@, old(self).prefix_stack@, is_last),
        decreases x,
    {
        let mut out = self.print_expression(&x.array, false);
        let t = self.print_terminal_token(&x.l_bracket, false);
        out.append(t.as_str());
        let e = self.print_expression(&x.index, false);
        out.append(e.as_str());
        let t2 = self.print_terminal_token(&x.r_bracket, is_last);
        out.append(t2.as_str());
        out
    }

    /// A parenthesized expression.
    #[verifier::spinoff_prover]
    #[verifier::rlimit(50)]
    fn print_parenthesized_expression(&mut self, x: &ParenthesizedExpression, is_last: bool) -> (r: String)
        requires
            old(self).indent_level > 0,
        ensures
            final(self).kept(old(self)),
            r@ == pt_paren(x@, old(self).prefix_stack@, is_last),
        decreases x,
    {
        let mut out = self.print_terminal_token(&x.l_paren, false);
        let e = self.print_expression(&x.expr, false);
        out.append(e.as_str());
        let t = self.print_terminal_token(&x.r_paren, is_last);
        out.append(t.as_str());
        out
    }

    /// A function call: name, parentheses and the arguments, if any.
    #[verifier::spinoff_prover]
    #[verifier::rlimit(50)]
    fn print_function_call_node(&mut self, x: &FunctionCallNode, is_last: bool) -> (r: String)
        requires
            old(self).indent_level > 0,
        ensures
            final(self).kept(old(self)),
            r@ == pt_call(x@, old(self).prefix_stack@, is_last),
        decreases x,
    {
        let ghost s = self.prefix_stack@;
        let mut out = self.print_node("<function-call>", is_last);
        let saved = self.indent(is_last);
        let t = self.print_terminal_token(&x.function_name, false);
        out.append(t.as_str());
        let t = self.print_terminal_token(&x.l_paren, x.arguments.is_none());
        out.append(t.as_str());
        match &x.arguments {
            Some(a) => {
                let e = self.print_actual_parameter_list(a, false);
                out.append(e.as_str());
            },
            None => {},
        }
        let t = self.print_terminal_token(&x.r_paren, true);
        out.append(t.as_str());
        proof { assert(s.push(is_last).drop_last() =~= s); }
        self.dedent(saved);
        out
    }
    /// A type: a `<type>` line over its one child.
    #[verifier::spinoff_prover]
    #[verifier::rlimit(50)]
    fn print_type(&mut self, x: &Type, is_last: bool) -> (r: String)
        requires
            old(self).indent_level > 0,
        ensures
            final(self).kept(old(self)),
            r@ == pt_type(x@, old(self).prefix_stack@, is_last),
        decreases x,
    {
        proof { reveal(type_view); }
        let ghost s = self.prefix_stack@;
        let mut out = self.print_node("<type>", is_last);
        let saved = self.indent(is_last);
        let ghost c = self.prefix_stack@;
        let body = match x {
            Type::Integer(t) => self.print_terminal_token(t, true),
            Type::Real(t) => self.print_terminal_token(t, true),
            Type::Boolean(t) => self.print_terminal_token(t, true),
            Type::String(t) => self.print_terminal_token(t, true),
            Type::Char(t) => self.print_terminal_token(t, true),
            Type::Array(a) => self.print_array_type(a, true),
            Type::Subrange(r) => self.print_range(r, true),
            Type::TypeIdentifier(t) => self.print_terminal_token(t, true),
        };
        out.append(body.as_str());
        proof { assert(s.push(is_last).drop_last() =~= s); }
        self.dedent(saved);
        out
    }

    /// An array type.
    #[verifier::spinoff_prover]
    #[verifier::rlimit(50)]
    fn print_array_type(&mut self, x: &ArrayType, is_last: bool) -> (r: String)
        requires
            old(self).indent_level > 0,
        ensures
            final(self).kept(old(self)),
            r@ == pt_array(x@, old(self).prefix_stack@, is_last),
        decreases x,
    {
        let ghost s = self.prefix_stack@;
        let mut out = self.print_node("<array-type>", is_last);
        let saved = self.indent(is_last);
        let ghost c = self.prefix_stack@;
        let t = self.print_terminal_token(&x.larik_kw, false);
        out.append(t.as_str());
        let t = self.print_terminal_token(&x.l_bracket, false);
        out.append(t.as_str());
        let t = self.print_type(&x.index_type, false);
        out.append(t.as_str());
        let t = self.print_terminal_token(&x.r_bracket, false);
        out.append(t.as_str());
        let t = self.print_terminal_token(&x.dari_kw, false);
        out.append(t.as_str());
        let t = self.print_type(&x.base_type, true);
        out.append(t.as_str());
        proof { assert(s.push(is_last).drop_last() =~= s); }
        self.dedent(saved);
        out
    }

    /// A subrange.
    #[verifier::spinoff_prover]
    #[verifier::rlimit(50)]
    fn print_range(&mut self, x: &Range, is_last: bool) -> (r: String)
        requires
            old(self).indent_level > 0,
        ensures
            final(self).kept(old(self)),
            r@ == pt_range(x@, old(self).prefix_stack@, is_last),
        decreases x,
    {
        let ghost s = self.prefix_stack@;
        let mut out = self.print_node("<range>", is_last);
        let saved = self.indent(is_last);
        let ghost c = self.prefix_stack@;
        let t = self.print_expression(&x.start, false);
        out.append(t.as_str());
        let t = self.print_terminal_token(&x.range_op, false);
        out.append(t.as_str());
        let t = self.print_expression(&x.end, true);
        out.append(t.as_str());
        proof { assert(s.push(is_last).drop_last() =~= s); }
        self.dedent(saved);
        out
    }

    /// A statement, by its form.
    #[verifier::spinoff_prover]
    #[verifier::rlimit(100)]
    fn print_statement(&mut self, x: &Statement, is_last: bool) -> (r: String)
        requires
            old(self).indent_level > 0,
        ensures
            final(self).kept(old(self)),
            r@ == pt_statement(x@, old(self).prefix_stack@, is_last),
        decreases x,
    {
        let ghost s = self.prefix_stack@;
        match x {
            Statement::Compound(y) => {
                proof { assert(x@ == StatementV::Compound(y@)) by { reveal(statement_view); } }
                self.print_compound_statement(y, is_last)
            },
            Statement::Assignment(y) => {
                proof { assert(x@ == StatementV::Assignment(y@)) by { reveal(statement_view); } }
                self.print_assignment_statement(y, is_last)
            },
            Statement::If(y) => {
                proof { assert(x@ == StatementV::If(y@)) by { reveal(statement_view); } }
                self.print_if_statement(y, is_last)
            },
            Statement::While(y) => {
                proof { assert(x@ == StatementV::While(y@)) by { reveal(statement_view); } }
                self.print_while_statement(y, is_last)
            },
            Statement::For(y) => {
                proof { assert(x@ == StatementV::For(y@)) by { reveal(statement_view); } }
                self.print_for_statement(y, is_last)
            },
            Statement::ProcedureCall(y) => {
                proof { assert(x@ == StatementV::ProcedureCall(y@)) by { reveal(statement_view); } }
                self.print_procedure_call_statement(y, is_last)
            },
            Statement::Repeat(y) => {
                proof { assert(x@ == StatementV::Repeat(y@)) by { reveal(statement_view); } }
                self.print_repeat_statement(y, is_last)
            },
            Statement::Case(y) => {
                proof { assert(x@ == StatementV::Case(y@)) by { reveal(statement_view); } }
                self.print_case_statement(y, is_last)
            },
        }
    }

    /// A statement list: nothing at all when it has no first statement.
    #[verifier::spinoff_prover]
    #[verifier::rlimit(50)]
    fn print_statement_list(&mut self, x: &StatementList, is_last: bool) -> (r: String)
        requires
            old(self).indent_level > 0,
        ensures
            final(self).kept(old(self)),
            r@ == pt_statement_list(x@, old(self).prefix_stack@, is_last),
        decreases x,
    {
        let ghost s = self.prefix_stack@;
        let first = match &x.initial_stmt {
            None => {
                return String::new();
            },
            Some(f) => f,
        };
        let mut out = self.print_node("<statement-list>", is_last);
        let saved = self.indent(is_last);
        let ghost c = self.prefix_stack@;
        let trailing = x.trailing_semicolon.is_some();
        let t = self.print_statement(first, x.rest.len() == 0 && !trailing);
        out.append(t.as_str());
        let ghost v = x@.rest;
        proof { lemma_seq_view_token_boxed_statement(x.rest@); }
        let n = x.rest.len();
        let ghost start = out@;
        let mut i: usize = 0;
        while i < n
            invariant
                i <= n,
                n == x.rest@.len(),
                v.len() == n,
                v == x@.rest,
                forall|j: int| 0 <= j < n ==> #[trigger] v[j] == (x.rest@[j].0, Box::new(statement_view(*x.rest@[j].1))),
                self.indent_level > 0,
                self.prefix_stack@ == c,
                trailing == (x.trailing_semicolon is Some),
                out@ == start + pt_statement_rest(v, c, i as int, trailing),
            decreases n - i,
        {
            proof { vstd::std_specs::vec::axiom_vec_index_decreases(x.rest, i as int); }
            let t = self.print_terminal_token(&x.rest[i].0, false);
            out.append(t.as_str());
            let e = self.print_statement(&x.rest[i].1, i + 1 == n && !trailing);
            out.append(e.as_str());
            proof { assert(v[i as int] == (x.rest@[i as int].0, Box::new(statement_view(*x.rest@[i as int].1)))); }
            i = i + 1;
        }
        match &x.trailing_semicolon {
            Some(t) => {
                let e = self.print_terminal_token(t, true);
                out.append(e.as_str());
            },
            None => {},
        }
        proof { assert(s.push(is_last).drop_last() =~= s); }
        self.dedent(saved);
        out
    }

    /// `mulai ... selesai`.
    #[verifier::spinoff_prover]
    #[verifier::rlimit(50)]
    fn print_compound_statement(&mut self, x: &CompoundStatement, is_last: bool) -> (r: String)
        requires
            old(self).indent_level > 0,
        ensures
            final(self).kept(old(self)),
            r@ == pt_compound(x@, old(self).prefix_stack@, is_last),
            r@ == pt_statement(StatementV::Compound(x@), old(self).prefix_stack@, is_last),
        decreases x,
    {
        let ghost s = self.prefix_stack@;
        let mut out = self.print_node("<compound-statement>", is_last);
        let saved = self.indent(is_last);
        let ghost c = self.prefix_stack@;
        let t = self.print_terminal_token(&x.begin_kw, false);
        out.append(t.as_str());
        let t = self.print_statement_list(&x.statement_list, false);
        out.append(t.as_str());
        let t = self.print_terminal_token(&x.end_kw, true);
        out.append(t.as_str());
        proof { assert(s.push(is_last).drop_last() =~= s); }
        self.dedent(saved);
        out
    }

    /// An assignment.
    #[verifier::spinoff_prover]
    #[verifier::rlimit(50)]
    fn print_assignment_statement(&mut self, x: &AssignmentStatement, is_last: bool) -> (r: String)
        requires
            old(self).indent_level > 0,
        ensures
            final(self).kept(old(self)),
            r@ == pt_assignment(x@, old(self).prefix_stack@, is_last),
            r@ == pt_statement(StatementV::Assignment(x@), old(self).prefix_stack@, is_last),
        decreases x,
    {
        let ghost s = self.prefix_stack@;
        let mut out = self.print_node("<assignment-statement>", is_last);
        let saved = self.indent(is_last);
        let ghost c = self.prefix_stack@;
        let t = self.print_expression(&x.variable, false);
        out.append(t.as_str());
        let t = self.print_terminal_token(&x.assign_op, false);
        out.append(t.as_str());
        let t = self.print_expression(&x.expression, true);
        out.append(t.as_str());
        proof { assert(s.push(is_last).drop_last() =~= s); }
        self.dedent(saved);
        out
    }

    /// A conditional, with its `selain-itu` part if any.
    #[verifier::spinoff_prover]
    #[verifier::rlimit(50)]
    fn print_if_statement(&mut self, x: &IfStatement, is_last: bool) -> (r: String)
        requires
            old(self).indent_level > 0,
        ensures
            final(self).kept(old(self)),
            r@ == pt_if(x@, old(self).prefix_stack@, is_last),
            r@ == pt_statement(StatementV::If(x@), old(self).prefix_stack@, is_last),
        decreases x,
    {
        let ghost s = self.prefix_stack@;
        let mut out = self.print_node("<if-statement>", is_last);
        let saved = self.indent(is_last);
        let ghost c = self.prefix_stack@;
        let t = self.print_terminal_token(&x.if_kw, false);
        out.append(t.as_str());
        let t = self.print_expression(&x.condition, false);
        out.append(t.as_str());
        let t = self.print_terminal_token(&x.then_kw, false);
        out.append(t.as_str());
        let t = self.print_statement(&x.then_branch, x.else_clause.is_none());
        out.append(t.as_str());
        match &x.else_clause {
            Some(e) => {
                let t = self.print_else_clause(e, true);
                out.append(t.as_str());
            },
            None => {},
        }
        proof { assert(s.push(is_last).drop_last() =~= s); }
        self.dedent(saved);
        out
    }

    /// The `selain-itu` part of a conditional.
    #[verifier::spinoff_prover]
    fn print_else_clause(&mut self, x: &ElseClause, is_last: bool) -> (r: String)
        requires
            old(self).indent_level > 0,
        ensures
            final(self).kept(old(self)),
            r@ == ttok(old(self).prefix_stack@, false, x@.else_kw) + pt_statement(*x@.statement, old(self).prefix_stack@, is_last),
        decreases x,
    {
        let mut out = self.print_terminal_token(&x.else_kw, false);
        let t = self.print_statement(&x.statement, is_last);
        out.append(t.as_str());
        out
    }

    /// A `selama` loop.
    #[verifier::spinoff_prover]
    #[verifier::rlimit(50)]
    fn print_while_statement(&mut self, x: &WhileStatement, is_last: bool) -> (r: String)
        requires
            old(self).indent_level > 0,
        ensures
            final(self).kept(old(self)),
            r@ == pt_while(x@, old(self).prefix_stack@, is_last),
            r@ == pt_statement(StatementV::While(x@), old(self).prefix_stack@, is_last),
        decreases x,
    {
        let ghost s = self.prefix_stack@;
        let mut out = self.print_node("<while-statement>", is_last);
        let saved = self.indent(is_last);
        let ghost c = self.prefix_stack@;
        let t = self.print_terminal_token(&x.while_kw, false);
        out.append(t.as_str());
        let t = self.print_expression(&x.condition, false);
        out.append(t.as_str());
        let t = self.print_terminal_token(&x.do_kw, false);
        out.append(t.as_str());
        let t = self.print_statement(&x.body, true);
        out.append(t.as_str());
        proof { assert(s.push(is_last).drop_last() =~= s); }
        self.dedent(saved);
        out
    }

    /// An `untuk` loop.
    #[verifier::spinoff_prover]
    #[verifier::rlimit(50)]
    fn print_for_statement(&mut self, x: &ForStatement, is_last: bool) -> (r: String)
        requires
            old(self).indent_level > 0,
        ensures
            final(self).kept(old(self)),
            r@ == pt_for(x@, old(self).prefix_stack@, is_last),
            r@ == pt_statement(StatementV::For(x@), old(self).prefix_stack@, is_last),
        decreases x,
    {
        let ghost s = self.prefix_stack@;
        let mut out = self.print_node("<for-statement>", is_last);
        let saved = self.indent(is_last);
        let ghost c = self.prefix_stack@;
        let t = self.print_terminal_token(&x.for_kw, false);
        out.append(t.as_str());
        let t = self.print_terminal_token(&x.counter_variable, false);
        out.append(t.as_str());
        let t = self.print_terminal_token(&x.assign_op, false);
        out.append(t.as_str());
        let t = self.print_expression(&x.start_value, false);
        out.append(t.as_str());
        let t = self.print_terminal_token(&x.direction_kw, false);
        out.append(t.as_str());
        let t = self.print_expression(&x.end_value, false);
        out.append(t.as_str());
        let t = self.print_terminal_token(&x.do_kw, false);
        out.append(t.as_str());
        let t = self.print_statement(&x.body, true);
        out.append(t.as_str());
        proof { assert(s.push(is_last).drop_last() =~= s); }
        self.dedent(saved);
        out
    }

    /// A procedure call statement.
    #[verifier::spinoff_prover]
    #[verifier::rlimit(50)]
    fn print_procedure_call_statement(&mut self, x: &ProcedureCallStatement, is_last: bool) -> (r: String)
        requires
            old(self).indent_level > 0,
        ensures
            final(self).kept(old(self)),
            r@ == pt_procedure_call(x@, old(self).prefix_stack@, is_last),
            r@ == pt_statement(StatementV::ProcedureCall(x@), old(self).prefix_stack@, is_last),
        decreases x,
    {
        let ghost s = self.prefix_stack@;
        let mut out = self.print_node("<procedure-call>", is_last);
        let saved = self.indent(is_last);
        let ghost c = self.prefix_stack@;
        let t = self.print_terminal_token(&x.call.function_name, false);
        out.append(t.as_str());
        let t = self.print_terminal_token(&x.call.l_paren, false);
        out.append(t.as_str());
        match &x.call.arguments {
            Some(a) => {
                let t = self.print_actual_parameter_list(a, false);
                out.append(t.as_str());
            },
            None => {},
        }
        let t = self.print_terminal_token(&x.call.r_paren, true);
        out.append(t.as_str());
        proof { assert(s.push(is_last).drop_last() =~= s); }
        self.dedent(saved);
        out
    }

    /// An `ulangi ... sampai` loop.
    #[verifier::spinoff_prover]
    #[verifier::rlimit(50)]
    fn print_repeat_statement(&mut self, x: &RepeatStatement, is_last: bool) -> (r: String)
        requires
            old(self).indent_level > 0,
        ensures
            final(self).kept(old(self)),
            r@ == pt_repeat(x@, old(self).prefix_stack@, is_last),
            r@ == pt_statement(StatementV::Repeat(x@), old(self).prefix_stack@, is_last),
        decreases x,
    {
        let ghost s = self.prefix_stack@;
        let mut out = self.print_node("<repeat-statement>", is_last);
        let saved = self.indent(is_last);
        let ghost c = self.prefix_stack@;
        let t = self.print_terminal_token(&x.repeat_kw, false);
        out.append(t.as_str());
        let t = self.print_statement_list(&x.statement_list, false);
        out.append(t.as_str());
        let t = self.print_terminal_token(&x.until_kw, false);
        out.append(t.as_str());
        let t = self.print_expression(&x.condition, true);
        out.append(t.as_str());
        proof { assert(s.push(is_last).drop_last() =~= s); }
        self.dedent(saved);
        out
    }

    /// A `kasus` statement: every branch is drawn as a middle child.
    #[verifier::spinoff_prover]
    #[verifier::rlimit(100)]
    fn print_case_statement(&mut self, x: &CaseStatement, is_last: bool) -> (r: String)
        requires
            old(self).indent_level > 0,
        ensures
            final(self).kept(old(self)),
            r@ == pt_case(x@, old(self).prefix_stack@, is_last),
            r@ == pt_statement(StatementV::Case(x@), old(self).prefix_stack@, is_last),
        decreases x,
    {
        let ghost s = self.prefix_stack@;
        let mut out = self.print_node("<case-statement>", is_last);
        let saved = self.indent(is_last);
        let ghost c = self.prefix_stack@;
        let t = self.print_terminal_token(&x.case_kw, false);
        out.append(t.as_str());
        let t = self.print_expression(&x.expression, false);
        out.append(t.as_str());
        let t = self.print_terminal_token(&x.of_kw, false);
        out.append(t.as_str());
        proof { lemma_seq_view_case_branch(x.branches@); }
        let bs = self.print_case_branches(&x.branches);
        out.append(bs.as_str());
        match &x.else_clause {
            Some(e) => {
                let t = self.print_case_else_clause(e, false);
                out.append(t.as_str());
            },
            None => {},
        }
        let t = self.print_terminal_token(&x.end_kw, true);
        out.append(t.as_str());
        proof { assert(s.push(is_last).drop_last() =~= s); }
        self.dedent(saved);
        out
    }

    /// The branches of a `kasus` statement, each as a middle child.
    #[verifier::spinoff_prover]
    #[verifier::rlimit(50)]
    fn print_case_branches(&mut self, bs: &Vec<CaseBranch>) -> (r: String)
        requires
            old(self).indent_level > 0,
        ensures
            final(self).kept(old(self)),
            r@ == pt_branches(seq_view_case_branch(bs@), old(self).prefix_stack@, bs@.len() as int),
        decreases bs,
    {
        let ghost c = self.prefix_stack@;
        let ghost lvl = self.indent_level;
        let ghost v = seq_view_case_branch(bs@);
        proof { lemma_seq_view_case_branch(bs@); }
        let n = bs.len();
        let mut out = String::new();
        proof { assert(out@ =~= pt_branches(v, c, 0)); }
        let mut i: usize = 0;
        while i < n
            invariant
                i <= n,
                n == bs@.len(),
                v.len() == n,
                v == seq_view_case_branch(bs@),
                forall|j: int| 0 <= j < n ==> #[trigger] v[j] == case_branch_view(bs@[j]),
                self.indent_level == lvl,
                lvl > 0,
                self.prefix_stack@ == c,
                out@ == pt_branches(v, c, i as int),
            decreases n - i,
        {
            proof { vstd::std_specs::vec::axiom_vec_index_decreases(*bs, i as int); }
            let e = self.print_case_branch(&bs[i], false);
            out.append(e.as_str());
            proof { assert(v[i as int] == case_branch_view(bs@[i as int])); }
            i = i + 1;
        }
        out
    }

    /// The `selain-itu` part of a `kasus` statement.
    #[verifier::spinoff_prover]
    fn print_case_else_clause(&mut self, x: &CaseElseClause, is_last: bool) -> (r: String)
        requires
            old(self).indent_level > 0,
        ensures
            final(self).kept(old(self)),
            r@ == pt_case_else(x@, old(self).prefix_stack@, is_last),
        decreases x,
    {
        let mut out = self.print_terminal_token(&x.else_kw, false);
        let t = self.print_statement_list(&x.statement_list, is_last);
        out.append(t.as_str());
        out
    }

    /// A branch of a `kasus` statement, its parts on one level.
    #[verifier::spinoff_prover]
    #[verifier::rlimit(50)]
    fn print_case_branch(&mut self, x: &CaseBranch, is_last: bool) -> (r: String)
        requires
            old(self).indent_level > 0,
        ensures
            final(self).kept(old(self)),
            r@ == pt_case_branch(x@, old(self).prefix_stack@, is_last),
        decreases x,
    {
        let mut out = self.print_case_label_list(&x.labels, false);
        let t = self.print_terminal_token(&x.colon, false);
        out.append(t.as_str());
        let t = self.print_statement(&x.statement, false);
        out.append(t.as_str());
        let t = self.print_terminal_token(&x.semicolon, is_last);
        out.append(t.as_str());
        out
    }

    /// The labels of a branch.
    #[verifier::spinoff_prover]
    #[verifier::rlimit(100)]
    fn print_case_label_list(&mut self, x: &CaseLabelList, is_last: bool) -> (r: String)
        requires
            old(self).indent_level > 0,
        ensures
            final(self).kept(old(self)),
            r@ == pt_labels(x@, old(self).prefix_stack@, is_last),
        decreases x,
    {
        let ghost s = self.prefix_stack@;
        let mut out = self.print_node("<case-label-list>", is_last);
        let saved = self.indent(is_last);
        let ghost c = self.prefix_stack@;
        let t = self.print_expression(&x.initial_label, x.rest.len() == 0);
        out.append(t.as_str());
        let ghost v = x@.rest;
        proof { lemma_seq_view_token_expression(x.rest@); }
        let n = x.rest.len();
        let ghost start = out@;
        let mut i: usize = 0;
        while i < n
            invariant
                i <= n,
                n == x.rest@.len(),
                v.len() == n,
                v == x@.rest,
                forall|j: int| 0 <= j < n ==> #[trigger] v[j] == (x.rest@[j].0, expression_view(x.rest@[j].1)),
                self.indent_level > 0,
                self.prefix_stack@ == c,
                out@ == start + pt_label_rest(v, c, i as int),
            decreases n - i,
        {
            proof { vstd::std_specs::vec::axiom_vec_index_decreases(x.rest, i as int); }
            let t = self.print_terminal_token(&x.rest[i].0, false);
            out.append(t.as_str());
            let e = self.print_expression(&x.rest[i].1, i + 1 == n);
            out.append(e.as_str());
            proof {
                assert(v[i as int] == (x.rest@[i as int].0, expression_view(x.rest@[i as int].1)));
                assert(pt_label_rest(v, c, i + 1) == pt_label_rest(v, c, i as int) + ttok(c, false, v[i as int].0)
                    + pt_expression(v[i as int].1, c, i + 1 == n));
            }
            i = i + 1;
        }
        proof { assert(s.push(is_last).drop_last() =~= s); }
        self.dedent(saved);
        out
    }
    /// Constant sections. Only the last one of a section that ends the part is a last child.
    #[verifier::spinoff_prover]
    #[verifier::rlimit(50)]
    fn print_const_decls(&mut self, v: &Vec<ConstantDeclaration>, group_last: bool) -> (r: String)
        requires
            old(self).indent_level > 0,
        ensures
            final(self).kept(old(self)),
            r@ == pt_const_decls(seq_view_constant_declaration(v@), old(self).prefix_stack@, group_last, v@.len() as int),
        decreases v,
    {
        let ghost c = self.prefix_stack@;
        let ghost lvl = self.indent_level;
        let ghost sv = seq_view_constant_declaration(v@);
        proof { lemma_seq_view_constant_declaration(v@); }
        let n = v.len();
        let mut out = String::new();
        proof { assert(out@ =~= pt_const_decls(sv, c, group_last, 0)); }
        let mut i: usize = 0;
        while i < n
            invariant
                i <= n,
                n == v@.len(),
                sv.len() == n,
                sv == seq_view_constant_declaration(v@),
                forall|j: int| 0 <= j < n ==> #[trigger] sv[j] == constant_declaration_view(v@[j]),
                self.indent_level == lvl,
                lvl > 0,
                self.prefix_stack@ == c,
                out@ == pt_const_decls(sv, c, group_last, i as int),
            decreases n - i,
        {
            proof { vstd::std_specs::vec::axiom_vec_index_decreases(*v, i as int); }
            let e = self.print_constant_declaration(&v[i], group_last && i + 1 == n);
            out.append(e.as_str());
            proof { assert(sv[i as int] == constant_declaration_view(v@[i as int])); }
            i = i + 1;
        }
        out
    }

    /// Type sections. Only the last one of a section that ends the part is a last child.
    #[verifier::spinoff_prover]
    #[verifier::rlimit(50)]
    fn print_type_decls(&mut self, v: &Vec<TypeDeclaration>, group_last: bool) -> (r: String)
        requires
            old(self).indent_level > 0,
        ensures
            final(self).kept(old(self)),
            r@ == pt_type_decls(seq_view_type_declaration(v@), old(self).prefix_stack@, group_last, v@.len() as int),
        decreases v,
    {
        let ghost c = self.prefix_stack@;
        let ghost lvl = self.indent_level;
        let ghost sv = seq_view_type_declaration(v@);
        proof { lemma_seq_view_type_declaration(v@); }
        let n = v.len();
        let mut out = String::new();
        proof { assert(out@ =~= pt_type_decls(sv, c, group_last, 0)); }
        let mut i: usize = 0;
        while i < n
            invariant
                i <= n,
                n == v@.len(),
                sv.len() == n,
                sv == seq_view_type_declaration(v@),
                forall|j: int| 0 <= j < n ==> #[trigger] sv[j] == type_declaration_view(v@[j]),
                self.indent_level == lvl,
                lvl > 0,
                self.prefix_stack@ == c,
                out@ == pt_type_decls(sv, c, group_last, i as int),
            decreases n - i,
        {
            proof { vstd::std_specs::vec::axiom_vec_index_decreases(*v, i as int); }
            let e = self.print_type_declaration(&v[i], group_last && i + 1 == n);
            out.append(e.as_str());
            proof { assert(sv[i as int] == type_declaration_view(v@[i as int])); }
            i = i + 1;
        }
        out
    }

    /// Variable sections. Only the last one of a section that ends the part is a last child.
    #[verifier::spinoff_prover]
    #[verifier::rlimit(50)]
    fn print_var_decls(&mut self, v: &Vec<VariableDeclaration>, group_last: bool) -> (r: String)
        requires
            old(self).indent_level > 0,
        ensures
            final(self).kept(old(self)),
            r@ == pt_var_decls(seq_view_variable_declaration(v@), old(self).prefix_stack@, group_last, v@.len() as int),
        decreases v,
    {
        let ghost c = self.prefix_stack@;
        let ghost lvl = self.indent_level;
        let ghost sv = seq_view_variable_declaration(v@);
        proof { lemma_seq_view_variable_declaration(v@); }
        let n = v.len();
        let mut out = String::new();
        proof { assert(out@ =~= pt_var_decls(sv, c, group_last, 0)); }
        let mut i: usize = 0;
        while i < n
            invariant
                i <= n,
                n == v@.len(),
                sv.len() == n,
                sv == seq_view_variable_declaration(v@),
                forall|j: int| 0 <= j < n ==> #[trigger] sv[j] == variable_declaration_view(v@[j]),
                self.indent_level == lvl,
                lvl > 0,
                self.prefix_stack@ == c,
                out@ == pt_var_decls(sv, c, group_last, i as int),
            decreases n - i,
        {
            proof { vstd::std_specs::vec::axiom_vec_index_decreases(*v, i as int); }
            let e = self.print_variable_declaration(&v[i], group_last && i + 1 == n);
            out.append(e.as_str());
            proof { assert(sv[i as int] == variable_declaration_view(v@[i as int])); }
            i = i + 1;
        }
        out
    }

    /// Subprograms. Only the last one of a section that ends the part is a last child.
    #[verifier::spinoff_prover]
    #[verifier::rlimit(50)]
    fn print_sub_decls(&mut self, v: &Vec<SubprogramDeclaration>, group_last: bool) -> (r: String)
        requires
            old(self).indent_level > 0,
        ensures
            final(self).kept(old(self)),
            r@ == pt_sub_decls(seq_view_subprogram_declaration(v@), old(self).prefix_stack@, group_last, v@.len() as int),
        decreases v,
    {
        let ghost c = self.prefix_stack@;
        let ghost lvl = self.indent_level;
        let ghost sv = seq_view_subprogram_declaration(v@);
        proof { lemma_seq_view_subprogram_declaration(v@); }
        let n = v.len();
        let mut out = String::new();
        proof { assert(out@ =~= pt_sub_decls(sv, c, group_last, 0)); }
        let mut i: usize = 0;
        while i < n
            invariant
                i <= n,
                n == v@.len(),
                sv.len() == n,
                sv == seq_view_subprogram_declaration(v@),
                forall|j: int| 0 <= j < n ==> #[trigger] sv[j] == subprogram_declaration_view(v@[j]),
                self.indent_level == lvl,
                lvl > 0,
                self.prefix_stack@ == c,
                out@ == pt_sub_decls(sv, c, group_last, i as int),
            decreases n - i,
        {
            proof { vstd::std_specs::vec::axiom_vec_index_decreases(*v, i as int); }
            let e = self.print_subprogram_declaration(&v[i], group_last && i + 1 == n);
            out.append(e.as_str());
            proof { assert(sv[i as int] == subprogram_declaration_view(v@[i as int])); }
            i = i + 1;
        }
        out
    }

    /// Constant definitions.
    #[verifier::spinoff_prover]
    #[verifier::rlimit(50)]
    fn print_const_defs(&mut self, v: &Vec<ConstantDefinition>) -> (r: String)
        requires
            old(self).indent_level > 0,
        ensures
            final(self).kept(old(self)),
            r@ == pt_const_defs(seq_view_constant_definition(v@), old(self).prefix_stack@, v@.len() as int),
        decreases v,
    {
        let ghost c = self.prefix_stack@;
        let ghost lvl = self.indent_level;
        let ghost sv = seq_view_constant_definition(v@);
        proof { lemma_seq_view_constant_definition(v@); }
        let n = v.len();
        let mut out = String::new();
        proof { assert(out@ =~= pt_const_defs(sv, c, 0)); }
        let mut i: usize = 0;
        while i < n
            invariant
                i <= n,
                n == v@.len(),
                sv.len() == n,
                sv == seq_view_constant_definition(v@),
                forall|j: int| 0 <= j < n ==> #[trigger] sv[j] == constant_definition_view(v@[j]),
                self.indent_level == lvl,
                lvl > 0,
                self.prefix_stack@ == c,
                out@ == pt_const_defs(sv, c, i as int),
            decreases n - i,
        {
            proof { vstd::std_specs::vec::axiom_vec_index_decreases(*v, i as int); }
            let e = self.print_constant_definition(&v[i], i + 1 == n);
            out.append(e.as_str());
            proof {
                assert(sv[i as int] == constant_definition_view(v@[i as int]));
                let d = sv[i as int];
                assert(pt_const_defs(sv, c, i + 1) == pt_const_defs(sv, c, i as int) + ttok(c, false, d.name)
                    + ttok(c, false, d.equals_op) + pt_expression(d.value, c, false) + ttok(c, i + 1 == n, d.semicolon));
            }
            i = i + 1;
        }
        out
    }

    /// Type definitions.
    #[verifier::spinoff_prover]
    #[verifier::rlimit(50)]
    fn print_type_defs(&mut self, v: &Vec<TypeDefinition>) -> (r: String)
        requires
            old(self).indent_level > 0,
        ensures
            final(self).kept(old(self)),
            r@ == pt_type_defs(seq_view_type_definition(v@), old(self).prefix_stack@, v@.len() as int),
        decreases v,
    {
        let ghost c = self.prefix_stack@;
        let ghost lvl = self.indent_level;
        let ghost sv = seq_view_type_definition(v@);
        proof { lemma_seq_view_type_definition(v@); }
        let n = v.len();
        let mut out = String::new();
        proof { assert(out@ =~= pt_type_defs(sv, c, 0)); }
        let mut i: usize = 0;
        while i < n
            invariant
                i <= n,
                n == v@.len(),
                sv.len() == n,
                sv == seq_view_type_definition(v@),
                forall|j: int| 0 <= j < n ==> #[trigger] sv[j] == type_definition_view(v@[j]),
                self.indent_level == lvl,
                lvl > 0,
                self.prefix_stack@ == c,
                out@ == pt_type_defs(sv, c, i as int),
            decreases n - i,
        {
            proof { vstd::std_specs::vec::axiom_vec_index_decreases(*v, i as int); }
            let e = self.print_type_definition(&v[i], i + 1 == n);
            out.append(e.as_str());
            proof { assert(sv[i as int] == type_definition_view(v@[i as int])); }
            i = i + 1;
        }
        out
    }

    /// Variable groups.
    #[verifier::spinoff_prover]
    #[verifier::rlimit(50)]
    fn print_var_groups(&mut self, v: &Vec<VariableGroup>) -> (r: String)
        requires
            old(self).indent_level > 0,
        ensures
            final(self).kept(old(self)),
            r@ == pt_var_groups(seq_view_variable_group(v@), old(self).prefix_stack@, v@.len() as int),
        decreases v,
    {
        let ghost c = self.prefix_stack@;
        let ghost lvl = self.indent_level;
        let ghost sv = seq_view_variable_group(v@);
        proof { lemma_seq_view_variable_group(v@); }
        let n = v.len();
        let mut out = String::new();
        proof { assert(out@ =~= pt_var_groups(sv, c, 0)); }
        let mut i: usize = 0;
        while i < n
            invariant
                i <= n,
                n == v@.len(),
                sv.len() == n,
                sv == seq_view_variable_group(v@),
                forall|j: int| 0 <= j < n ==> #[trigger] sv[j] == variable_group_view(v@[j]),
                self.indent_level == lvl,
                lvl > 0,
                self.prefix_stack@ == c,
                out@ == pt_var_groups(sv, c, i as int),
            decreases n - i,
        {
            proof { vstd::std_specs::vec::axiom_vec_index_decreases(*v, i as int); }
            let e = self.print_variable_group(&v[i], i + 1 == n);
            out.append(e.as_str());
            proof { assert(sv[i as int] == variable_group_view(v@[i as int])); }
            i = i + 1;
        }
        out
    }

    /// A constant definition, its parts on the level of its section.
    #[verifier::spinoff_prover]
    #[verifier::rlimit(50)]
    fn print_constant_definition(&mut self, x: &ConstantDefinition, is_last: bool) -> (r: String)
        requires
            old(self).indent_level > 0,
        ensures
            final(self).kept(old(self)),
            r@ == ttok(old(self).prefix_stack@, false, x@.name) + ttok(old(self).prefix_stack@, false, x@.equals_op) + pt_expression(x@.value, old(self).prefix_stack@, false) + ttok(old(self).prefix_stack@, is_last, x@.semicolon),
        decreases x,
    {
        let mut out = self.print_terminal_token(&x.name, false);
        let t = self.print_terminal_token(&x.equals_op, false);
        out.append(t.as_str());
        let t = self.print_expression(&x.value, false);
        out.append(t.as_str());
        let t = self.print_terminal_token(&x.semicolon, is_last);
        out.append(t.as_str());
        out
    }

    /// A type definition, its parts on the level of its section.
    #[verifier::spinoff_prover]
    #[verifier::rlimit(50)]
    fn print_type_definition(&mut self, x: &TypeDefinition, is_last: bool) -> (r: String)
        requires
            old(self).indent_level > 0,
        ensures
            final(self).kept(old(self)),
            r@ == ttok(old(self).prefix_stack@, false, x@.name) + ttok(old(self).prefix_stack@, false, x@.equals_op) + pt_type(x@.type_def, old(self).prefix_stack@, false) + ttok(old(self).prefix_stack@, is_last, x@.semicolon),
        decreases x,
    {
        let mut out = self.print_terminal_token(&x.name, false);
        let t = self.print_terminal_token(&x.equals_op, false);
        out.append(t.as_str());
        let t = self.print_type(&x.type_def, false);
        out.append(t.as_str());
        let t = self.print_terminal_token(&x.semicolon, is_last);
        out.append(t.as_str());
        out
    }

    /// A variable group, its parts on the level of its section.
    #[verifier::spinoff_prover]
    #[verifier::rlimit(50)]
    fn print_variable_group(&mut self, x: &VariableGroup, is_last: bool) -> (r: String)
        requires
            old(self).indent_level > 0,
        ensures
            final(self).kept(old(self)),
            r@ == pt_identifier_list(x@.identifiers, old(self).prefix_stack@, false) + ttok(old(self).prefix_stack@, false, x@.colon) + pt_type(x@.var_type, old(self).prefix_stack@, false) + ttok(old(self).prefix_stack@, is_last, x@.semicolon),
        decreases x,
    {
        let mut out = self.print_identifier_list(&x.identifiers, false);
        let t = self.print_terminal_token(&x.colon, false);
        out.append(t.as_str());
        let t = self.print_type(&x.var_type, false);
        out.append(t.as_str());
        let t = self.print_terminal_token(&x.semicolon, is_last);
        out.append(t.as_str());
        out
    }

    /// `konstanta` and its definitions.
    #[verifier::spinoff_prover]
    #[verifier::rlimit(50)]
    fn print_constant_declaration(&mut self, x: &ConstantDeclaration, is_last: bool) -> (r: String)
        requires
            old(self).indent_level > 0,
        ensures
            final(self).kept(old(self)),
            r@ == pt_const_decl(x@, old(self).prefix_stack@, is_last),
        decreases x,
    {
        let ghost s = self.prefix_stack@;
        let mut out = self.print_node("<const-declaration>", is_last);
        let saved = self.indent(is_last);
        let ghost c = self.prefix_stack@;
        let t = self.print_terminal_token(&x.const_kw, x.constants.len() == 0);
        out.append(t.as_str());
        proof { lemma_seq_view_constant_definition(x.constants@); }
        let t = self.print_const_defs(&x.constants);
        out.append(t.as_str());
        proof { assert(s.push(is_last).drop_last() =~= s); }
        self.dedent(saved);
        out
    }

    /// `tipe` and its definitions.
    #[verifier::spinoff_prover]
    #[verifier::rlimit(50)]
    fn print_type_declaration(&mut self, x: &TypeDeclaration, is_last: bool) -> (r: String)
        requires
            old(self).indent_level > 0,
        ensures
            final(self).kept(old(self)),
            r@ == pt_type_decl(x@, old(self).prefix_stack@, is_last),
        decreases x,
    {
        let ghost s = self.prefix_stack@;
        let mut out = self.print_node("<type-declaration>", is_last);
        let saved = self.indent(is_last);
        let ghost c = self.prefix_stack@;
        let t = self.print_terminal_token(&x.type_kw, x.definitions.len() == 0);
        out.append(t.as_str());
        proof { lemma_seq_view_type_definition(x.definitions@); }
        let t = self.print_type_defs(&x.definitions);
        out.append(t.as_str());
        proof { assert(s.push(is_last).drop_last() =~= s); }
        self.dedent(saved);
        out
    }

    /// `variabel` and its groups.
    #[verifier::spinoff_prover]
    #[verifier::rlimit(50)]
    fn print_variable_declaration(&mut self, x: &VariableDeclaration, is_last: bool) -> (r: String)
        requires
            old(self).indent_level > 0,
        ensures
            final(self).kept(old(self)),
            r@ == pt_var_decl(x@, old(self).prefix_stack@, is_last),
        decreases x,
    {
        let ghost s = self.prefix_stack@;
        let mut out = self.print_node("<var-declaration>", is_last);
        let saved = self.indent(is_last);
        let ghost c = self.prefix_stack@;
        let t = self.print_terminal_token(&x.var_kw, x.groups.len() == 0);
        out.append(t.as_str());
        proof { lemma_seq_view_variable_group(x.groups@); }
        let t = self.print_var_groups(&x.groups);
        out.append(t.as_str());
        proof { assert(s.push(is_last).drop_last() =~= s); }
        self.dedent(saved);
        out
    }

    /// The declarations of a block.
    #[verifier::spinoff_prover]
    #[verifier::rlimit(50)]
    fn print_declaration_part(&mut self, x: &DeclarationPart, is_last: bool) -> (r: String)
        requires
            old(self).indent_level > 0,
        ensures
            final(self).kept(old(self)),
            r@ == pt_declaration_part(x@, old(self).prefix_stack@, is_last),
        decreases x,
    {
        let ghost s = self.prefix_stack@;
        let mut out = self.print_node("<declaration-part>", is_last);
        let saved = self.indent(is_last);
        let ghost c = self.prefix_stack@;
        let sub_last = x.subprogram_declarations.len() > 0;
        let var_last = x.var_declarations.len() > 0 && !sub_last;
        let type_last = x.type_declarations.len() > 0 && !var_last && !sub_last;
        let const_last = x.const_declarations.len() > 0 && !type_last && !var_last && !sub_last;
        proof {
            lemma_seq_view_constant_declaration(x.const_declarations@);
            lemma_seq_view_type_declaration(x.type_declarations@);
            lemma_seq_view_variable_declaration(x.var_declarations@);
            lemma_seq_view_subprogram_declaration(x.subprogram_declarations@);
        }
        let t = self.print_const_decls(&x.const_declarations, const_last);
        out.append(t.as_str());
        let t = self.print_type_decls(&x.type_declarations, type_last);
        out.append(t.as_str());
        let t = self.print_var_decls(&x.var_declarations, var_last);
        out.append(t.as_str());
        let t = self.print_sub_decls(&x.subprogram_declarations, sub_last);
        out.append(t.as_str());
        proof { assert(s.push(is_last).drop_last() =~= s); }
        self.dedent(saved);
        out
    }

    /// An identifier list.
    #[verifier::spinoff_prover]
    #[verifier::rlimit(50)]
    fn print_identifier_list(&mut self, x: &IdentifierList, is_last: bool) -> (r: String)
        requires
            old(self).indent_level > 0,
        ensures
            final(self).kept(old(self)),
            r@ == pt_identifier_list(x@, old(self).prefix_stack@, is_last),
        decreases x,
    {
        let ghost s = self.prefix_stack@;
        let mut out = self.print_node("<identifier-list>", is_last);
        let saved = self.indent(is_last);
        let ghost c = self.prefix_stack@;
        let t = self.print_terminal_token(&x.initial_id, x.rest.len() == 0);
        out.append(t.as_str());
        let ghost v = x@.rest;
        proof { lemma_seq_view_token_token(x.rest@); }
        let n = x.rest.len();
        let ghost start = out@;
        let mut i: usize = 0;
        while i < n
            invariant
                i <= n,
                n == x.rest@.len(),
                v.len() == n,
                v == x@.rest,
                forall|j: int| 0 <= j < n ==> #[trigger] v[j] == (x.rest@[j].0, x.rest@[j].1),
                self.indent_level > 0,
                self.prefix_stack@ == c,
                out@ == start + pt_id_rest(v, c, i as int),
            decreases n - i,
        {
            proof { vstd::std_specs::vec::axiom_vec_index_decreases(x.rest, i as int); }
            let t = self.print_terminal_token(&x.rest[i].0, false);
            out.append(t.as_str());
            let e = self.print_terminal_token(&x.rest[i].1, i + 1 == n);
            out.append(e.as_str());
            proof { assert(v[i as int] == (x.rest@[i as int].0, x.rest@[i as int].1)); }
            i = i + 1;
        }
        proof { assert(s.push(is_last).drop_last() =~= s); }
        self.dedent(saved);
        out
    }

    /// A procedure or function.
    #[verifier::spinoff_prover]
    #[verifier::rlimit(50)]
    fn print_subprogram_declaration(&mut self, x: &SubprogramDeclaration, is_last: bool) -> (r: String)
        requires
            old(self).indent_level > 0,
        ensures
            final(self).kept(old(self)),
            r@ == pt_subprogram(x@, old(self).prefix_stack@, is_last),
        decreases x,
    {
        let ghost s = self.prefix_stack@;
        match x {
            SubprogramDeclaration::Procedure(p) => {
                proof { assert(x@ == SubprogramDeclarationV::Procedure(p@)) by { reveal(subprogram_declaration_view); } }
                self.print_procedure_declaration(p, is_last)
            },
            SubprogramDeclaration::Function(f) => {
                proof { assert(x@ == SubprogramDeclarationV::Function(f@)) by { reveal(subprogram_declaration_view); } }
                self.print_function_declaration(f, is_last)
            },
        }
    }

    /// A procedure declaration.
    #[verifier::spinoff_prover]
    #[verifier::rlimit(50)]
    fn print_procedure_declaration(&mut self, x: &ProcedureDeclaration, is_last: bool) -> (r: String)
        requires
            old(self).indent_level > 0,
        ensures
            final(self).kept(old(self)),
            r@ == pt_procedure(x@, old(self).prefix_stack@, is_last),
            r@ == pt_subprogram(SubprogramDeclarationV::Procedure(x@), old(self).prefix_stack@, is_last),
        decreases x,
    {
        let ghost s = self.prefix_stack@;
        let mut out = self.print_node("<procedure-declaration>", is_last);
        let saved = self.indent(is_last);
        let ghost c = self.prefix_stack@;
        let t = self.print_terminal_token(&x.proc_kw, false);
        out.append(t.as_str());
        let t = self.print_terminal_token(&x.name, false);
        out.append(t.as_str());
        let t = self.print_formal_parameter_list(&x.parameters, false);
        out.append(t.as_str());
        let t = self.print_terminal_token(&x.header_semicolon, false);
        out.append(t.as_str());
        let t = self.print_declaration_part(&x.declarations, false);
        out.append(t.as_str());
        let t = self.print_compound_statement(&x.body, false);
        out.append(t.as_str());
        let t = self.print_terminal_token(&x.block_semicolon, true);
        out.append(t.as_str());
        proof { assert(s.push(is_last).drop_last() =~= s); }
        self.dedent(saved);
        out
    }

    /// A function declaration.
    #[verifier::spinoff_prover]
    #[verifier::rlimit(50)]
    fn print_function_declaration(&mut self, x: &FunctionDeclaration, is_last: bool) -> (r: String)
        requires
            old(self).indent_level > 0,
        ensures
            final(self).kept(old(self)),
            r@ == pt_function(x@, old(self).prefix_stack@, is_last),
            r@ == pt_subprogram(SubprogramDeclarationV::Function(x@), old(self).prefix_stack@, is_last),
        decreases x,
    {
        let ghost s = self.prefix_stack@;
        let mut out = self.print_node("<function-declaration>", is_last);
        let saved = self.indent(is_last);
        let ghost c = self.prefix_stack@;
        let t = self.print_terminal_token(&x.func_kw, false);
        out.append(t.as_str());
        let t = self.print_terminal_token(&x.name, false);
        out.append(t.as_str());
        let t = self.print_formal_parameter_list(&x.parameters, false);
        out.append(t.as_str());
        let t = self.print_terminal_token(&x.colon, false);
        out.append(t.as_str());
        let t = self.print_type(&x.return_type, false);
        out.append(t.as_str());
        let t = self.print_terminal_token(&x.header_semicolon, false);
        out.append(t.as_str());
        let t = self.print_declaration_part(&x.declarations, false);
        out.append(t.as_str());
        let t = self.print_compound_statement(&x.body, false);
        out.append(t.as_str());
        let t = self.print_terminal_token(&x.block_semicolon, true);
        out.append(t.as_str());
        proof { assert(s.push(is_last).drop_last() =~= s); }
        self.dedent(saved);
        out
    }

    /// A parameter list in parentheses.
    #[verifier::spinoff_prover]
    #[verifier::rlimit(50)]
    fn print_formal_parameter_list(&mut self, x: &FormalParameterList, is_last: bool) -> (r: String)
        requires
            old(self).indent_level > 0,
        ensures
            final(self).kept(old(self)),
            r@ == pt_params(x@, old(self).prefix_stack@, is_last),
        decreases x,
    {
        let ghost s = self.prefix_stack@;
        let mut out = self.print_node("<formal-parameter-list>", is_last);
        let saved = self.indent(is_last);
        let ghost c = self.prefix_stack@;
        let t = self.print_terminal_token(&x.l_paren, x.initial_param.is_none());
        out.append(t.as_str());
        match &x.initial_param {
            Some(g) => {
                let t = self.print_formal_parameter_group(g, x.rest.len() == 0);
                out.append(t.as_str());
            },
            None => {},
        }
        let ghost v = x@.rest;
        proof { lemma_seq_view_token_formal_parameter_group(x.rest@); }
        let n = x.rest.len();
        let ghost start = out@;
        let mut i: usize = 0;
        while i < n
            invariant
                i <= n,
                n == x.rest@.len(),
                v.len() == n,
                v == x@.rest,
                forall|j: int| 0 <= j < n ==> #[trigger] v[j] == (x.rest@[j].0, formal_parameter_group_view(x.rest@[j].1)),
                self.indent_level > 0,
                self.prefix_stack@ == c,
                out@ == start + pt_param_rest(v, c, i as int),
            decreases n - i,
        {
            proof { vstd::std_specs::vec::axiom_vec_index_decreases(x.rest, i as int); }
            let t = self.print_terminal_token(&x.rest[i].0, false);
            out.append(t.as_str());
            let e = self.print_formal_parameter_group(&x.rest[i].1, i + 1 == n);
            out.append(e.as_str());
            proof { assert(v[i as int] == (x.rest@[i as int].0, formal_parameter_group_view(x.rest@[i as int].1))); }
            i = i + 1;
        }
        let t = self.print_terminal_token(&x.r_paren, true);
        out.append(t.as_str());
        proof { assert(s.push(is_last).drop_last() =~= s); }
        self.dedent(saved);
        out
    }

    /// A parameter group, its parts on the level of its list.
    #[verifier::spinoff_prover]
    #[verifier::rlimit(50)]
    fn print_formal_parameter_group(&mut self, x: &FormalParameterGroup, is_last: bool) -> (r: String)
        requires
            old(self).indent_level > 0,
        ensures
            final(self).kept(old(self)),
            r@ == pt_param_group(x@, old(self).prefix_stack@, is_last),
        decreases x,
    {
        let mut out = String::new();
        match &x.var_kw {
            Some(t) => {
                let e = self.print_terminal_token(t, false);
                out.append(e.as_str());
            },
            None => {},
        }
        let t = self.print_identifier_list(&x.identifiers, false);
        out.append(t.as_str());
        let t = self.print_terminal_token(&x.colon, false);
        out.append(t.as_str());
        let t = self.print_type(&x.var_type, is_last);
        out.append(t.as_str());
        out
    }

    /// The program header.
    #[verifier::spinoff_prover]
    #[verifier::rlimit(50)]
    fn print_program_header(&mut self, x: &ProgramHeader, is_last: bool) -> (r: String)
        requires
            old(self).indent_level > 0,
        ensures
            final(self).kept(old(self)),
            r@ == pt_program_header(x@, old(self).prefix_stack@, is_last),
        decreases x,
    {
        let ghost s = self.prefix_stack@;
        let mut out = self.print_node("<program-header>", is_last);
        let saved = self.indent(is_last);
        let ghost c = self.prefix_stack@;
        let t = self.print_terminal_token(&x.program_kw, false);
        out.append(t.as_str());
        let t = self.print_terminal_token(&x.name, false);
        out.append(t.as_str());
        let t = self.print_terminal_token(&x.semicolon, true);
        out.append(t.as_str());
        proof { assert(s.push(is_last).drop_last() =~= s); }
        self.dedent(saved);
        out
    }

    /// The tree-style text of a whole program: the `<program>` root, then
    /// the header, declarations, body and final dot.
    pub fn print_program(&mut self, program: &Program) -> (r: String)
        requires
            old(self).indent_level == 0,
            old(self).prefix_stack@.len() == 0,
        ensures
            r@ == parse_tree_text(program@),
            final(self).indent_level == 0,
            final(self).prefix_stack@.len() == 0,
    {
        let mut out = self.get_prefix(true);
        out.append("<program>\n");
        let saved = self.indent(true);
        proof { assert(self.prefix_stack@ =~= Seq::<bool>::empty()); }
        let t = self.print_program_header(&program.header, false);
        out.append(t.as_str());
        let t = self.print_declaration_part(&program.declarations, false);
        out.append(t.as_str());
        let t = self.print_compound_statement(&program.body, false);
        out.append(t.as_str());
        let t = self.print_terminal_token(&program.dot, true);
        out.append(t.as_str());
        self.dedent(saved);
        proof { assert(out@ =~= parse_tree_text(program@)); }
        out
    }
    /// The one-line source form of an expression, as in `arr[5]` or `a + b * 2`.
    #[verifier::spinoff_prover]
    #[verifier::rlimit(50)]
    pub fn print_expression_flat(x: &Expression) -> (r: String)
        ensures
            r@ == expression_flat(x@),
        decreases x,
    {
        let mut out = Self::print_simple_flat(&x.initial_simple_expr);
        let ghost start = out@;
        let ghost v = x@.rest;
        proof { lemma_seq_view_token_boxed_simple_expression(x.rest@); }
        let n = x.rest.len();
        let mut i: usize = 0;
        while i < n
            invariant
                i <= n,
                n == x.rest@.len(),
                v.len() == n,
                v == x@.rest,
                forall|j: int| 0 <= j < n ==> #[trigger] v[j] == (x.rest@[j].0, Box::new(simple_expression_view(*x.rest@[j].1))),
                out@ == start + simple_rest_flat(v, i as int),
            decreases n - i,
        {
            proof { vstd::std_specs::vec::axiom_vec_index_decreases(x.rest, i as int); }
            out.append(" ");
            out.append(x.rest[i].0.value.as_str());
            out.append(" ");
            let e = Self::print_simple_flat(&x.rest[i].1);
            out.append(e.as_str());
            proof { assert(v[i as int] == (x.rest@[i as int].0, Box::new(simple_expression_view(*x.rest@[i as int].1)))); }
            i = i + 1;
        }
        out
    }

    /// A simple expression on one line.
    #[verifier::spinoff_prover]
    #[verifier::rlimit(50)]
    pub fn print_simple_flat(x: &SimpleExpression) -> (r: String)
        ensures
            r@ == simple_flat(x@),
        decreases x,
    {
        let mut out = Self::print_term_flat(&x.initial_term);
        let ghost start = out@;
        let ghost v = x@.rest;
        proof { lemma_seq_view_token_boxed_term(x.rest@); }
        let n = x.rest.len();
        let mut i: usize = 0;
        while i < n
            invariant
                i <= n,
                n == x.rest@.len(),
                v.len() == n,
                v == x@.rest,
                forall|j: int| 0 <= j < n ==> #[trigger] v[j] == (x.rest@[j].0, Box::new(term_view(*x.rest@[j].1))),
                out@ == start + term_rest_flat(v, i as int),
            decreases n - i,
        {
            proof { vstd::std_specs::vec::axiom_vec_index_decreases(x.rest, i as int); }
            out.append(" ");
            out.append(x.rest[i].0.value.as_str());
            out.append(" ");
            let e = Self::print_term_flat(&x.rest[i].1);
            out.append(e.as_str());
            proof { assert(v[i as int] == (x.rest@[i as int].0, Box::new(term_view(*x.rest@[i as int].1)))); }
            i = i + 1;
        }
        out
    }

    /// A term on one line.
    #[verifier::spinoff_prover]
    #[verifier::rlimit(50)]
    pub fn print_term_flat(x: &Term) -> (r: String)
        ensures
            r@ == term_flat(x@),
        decreases x,
    {
        let mut out = Self::print_factor_flat(&x.initial_factor);
        let ghost start = out@;
        let ghost v = x@.rest;
        proof { lemma_seq_view_token_boxed_factor(x.rest@); }
        let n = x.rest.len();
        let mut i: usize = 0;
        while i < n
            invariant
                i <= n,
                n == x.rest@.len(),
                v.len() == n,
                v == x@.rest,
                forall|j: int| 0 <= j < n ==> #[trigger] v[j] == (x.rest@[j].0, Box::new(factor_view(*x.rest@[j].1))),
                out@ == start + factor_rest_flat(v, i as int),
            decreases n - i,
        {
            proof { vstd::std_specs::vec::axiom_vec_index_decreases(x.rest, i as int); }
            out.append(" ");
            out.append(x.rest[i].0.value.as_str());
            out.append(" ");
            let e = Self::print_factor_flat(&x.rest[i].1);
            out.append(e.as_str());
            proof { assert(v[i as int] == (x.rest@[i as int].0, Box::new(factor_view(*x.rest@[i as int].1)))); }
            i = i + 1;
        }
        out
    }

    /// A factor on one line.
    #[verifier::spinoff_prover]
    #[verifier::rlimit(50)]
    pub fn print_factor_flat(x: &Factor) -> (r: String)
        ensures
            r@ == factor_flat(x@),
        decreases x,
    {
        match x {
            Factor::Literal(l) => l.token.value.clone(),
            Factor::Identifier(t) => t.value.clone(),
            Factor::FunctionCall(f) => {
                let mut out = f.function_name.value.clone();
                out.append("(");
                match &f.arguments {
                    Some(a) => {
                        let e = Self::print_args_flat(a);
                        out.append(e.as_str());
                    },
                    None => {},
                }
                out.append(")");
                out
            },
            Factor::ArrayAccess(a) => {
                let mut out = Self::print_expression_flat(&a.array);
                out.append("[");
                let e = Self::print_expression_flat(&a.index);
                out.append(e.as_str());
                out.append("]");
                out
            },
            Factor::Parenthesized(p) => {
                let mut out = String::new();
                out.append("(");
                let e = Self::print_expression_flat(&p.expr);
                out.append(e.as_str());
                out.append(")");
                out
            },
            Factor::Not(n) => {
                let mut out = n.not_token.value.clone();
                out.append(" ");
                let e = Self::print_factor_flat(&n.factor);
                out.append(e.as_str());
                out
            },
            Factor::ArithmeticUnary(u) => {
                let mut out = u.op.value.clone();
                let e = Self::print_factor_flat(&u.factor);
                out.append(e.as_str());
                out
            },
        }
    }

    /// The arguments of a call on one line, separated by `, `.
    #[verifier::spinoff_prover]
    #[verifier::rlimit(50)]
    fn print_args_flat(x: &ActualParameterList) -> (r: String)
        ensures
            r@ == expression_flat(*x@.initial_arg) + arg_rest_flat(x@.rest, x@.rest.len() as int),
        decreases x,
    {
        let mut out = Self::print_expression_flat(&x.initial_arg);
        let ghost start = out@;
        let ghost v = x@.rest;
        proof { lemma_seq_view_token_boxed_expression(x.rest@); }
        let n = x.rest.len();
        let mut i: usize = 0;
        while i < n
            invariant
                i <= n,
                n == x.rest@.len(),
                v.len() == n,
                v == x@.rest,
                forall|j: int| 0 <= j < n ==> #[trigger] v[j] == (x.rest@[j].0, Box::new(expression_view(*x.rest@[j].1))),
                out@ == start + arg_rest_flat(v, i as int),
            decreases n - i,
        {
            proof { vstd::std_specs::vec::axiom_vec_index_decreases(x.rest, i as int); }
            out.append(", ");
            let e = Self::print_expression_flat(&x.rest[i].1);
            out.append(e.as_str());
            proof { assert(v[i as int] == (x.rest@[i as int].0, Box::new(expression_view(*x.rest@[i as int].1)))); }
            i = i + 1;
        }
        out
    }
}

} // verus!
