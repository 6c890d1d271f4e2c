//! The concrete syntax tree that the parser builds: every token it
//! consumes is kept, in the order of the source. Each node type has a
//! value form, in which lists are sequences.
use vstd::prelude::*;
use crate::lexer::token_types::Token;

verus! {

/// A whole program: header, declarations, body and the final dot.
#[derive(Debug)]
pub struct Program {
    pub header: ProgramHeader,
    pub declarations: DeclarationPart,
    pub body: CompoundStatement,
    pub dot: Token,
}

/// `program NAME ;`
#[derive(Debug)]
pub struct ProgramHeader {
    pub program_kw: Token,
    pub name: Token,
    pub semicolon: Token,
}

/// The declarations of a block, by kind, in the order they are parsed.
#[derive(Debug)]
pub struct DeclarationPart {
    pub const_declarations: Vec<ConstantDeclaration>,
    pub type_declarations: Vec<TypeDeclaration>,
    pub var_declarations: Vec<VariableDeclaration>,
    pub subprogram_declarations: Vec<SubprogramDeclaration>,
}

/// A constant section and its definitions.
#[derive(Debug)]
pub struct ConstantDeclaration {
    pub const_kw: Token,
    pub constants: Vec<ConstantDefinition>,
}

/// `NAME = expression ;`
#[derive(Debug)]
pub struct ConstantDefinition {
    pub name: Token,
    pub equals_op: Token,
    pub value: Expression,
    pub semicolon: Token,
}

/// A type section and its definitions.
#[derive(Debug)]
pub struct TypeDeclaration {
    pub type_kw: Token,
    pub definitions: Vec<TypeDefinition>,
}

/// `NAME = type ;`
#[derive(Debug)]
pub struct TypeDefinition {
    pub name: Token,
    pub equals_op: Token,
    pub type_def: Type,
    pub semicolon: Token,
}

/// A variable section and its groups.
#[derive(Debug)]
pub struct VariableDeclaration {
    pub var_kw: Token,
    pub groups: Vec<VariableGroup>,
}

/// `a, b : type ;`
#[derive(Debug)]
pub struct VariableGroup {
    pub identifiers: IdentifierList,
    pub colon: Token,
    pub var_type: Type,
    pub semicolon: Token,
}

/// `a , b , c`
#[derive(Debug)]
pub struct IdentifierList {
    pub initial_id: Token,
    pub rest: Vec<(Token, Token)>,
}

/// A procedure: header, declarations, body.
#[derive(Debug)]
pub struct ProcedureDeclaration {
    pub proc_kw: Token,
    pub name: Token,
    pub parameters: FormalParameterList,
    pub header_semicolon: Token,
    pub declarations: DeclarationPart,
    pub body: CompoundStatement,
    pub block_semicolon: Token,
}

/// A function: header with return type, declarations, body.
#[derive(Debug)]
pub struct FunctionDeclaration {
    pub func_kw: Token,
    pub name: Token,
    pub parameters: FormalParameterList,
    pub colon: Token,
    pub return_type: Type,
    pub header_semicolon: Token,
    pub declarations: DeclarationPart,
    pub body: CompoundStatement,
    pub block_semicolon: Token,
}

/// `( group ; group )`, possibly empty.
#[derive(Debug)]
pub struct FormalParameterList {
    pub l_paren: Token,
    pub initial_param: Option<FormalParameterGroup>,
    pub rest: Vec<(Token, FormalParameterGroup)>,
    pub r_paren: Token,
}

/// `var a, b : type`, the `var` optional.
#[derive(Debug)]
pub struct FormalParameterGroup {
    pub var_kw: Option<Token>,
    pub identifiers: IdentifierList,
    pub colon: Token,
    pub var_type: Type,
}

/// `larik [ index ] dari base`
#[derive(Debug)]
pub struct ArrayType {
    pub larik_kw: Token,
    pub l_bracket: Token,
    pub index_type: Box<Type>,
    pub r_bracket: Token,
    pub dari_kw: Token,
    pub base_type: Box<Type>,
}

/// `start .. end`
#[derive(Debug)]
pub struct Range {
    pub start: Box<Expression>,
    pub range_op: Token,
    pub end: Box<Expression>,
}

/// Statements separated by semicolons, with a trailing semicolon when there is one.
#[derive(Debug)]
pub struct StatementList {
    pub initial_stmt: Option<Box<Statement>>,
    pub rest: Vec<(Token, Box<Statement>)>,
    pub trailing_semicolon: Option<Token>,
}

/// `mulai statements selesai`
#[derive(Debug)]
pub struct CompoundStatement {
    pub begin_kw: Token,
    pub statement_list: StatementList,
    pub end_kw: Token,
}

/// `target := expression`
#[derive(Debug)]
pub struct AssignmentStatement {
    pub variable: Expression,
    pub assign_op: Token,
    pub expression: Expression,
}

/// `jika condition maka statement`, with an optional else clause.
#[derive(Debug)]
pub struct IfStatement {
    pub if_kw: Token,
    pub condition: Expression,
    pub then_kw: Token,
    pub then_branch: Box<Statement>,
    pub else_clause: Option<ElseClause>,
}

/// `selain-itu statement`
#[derive(Debug)]
pub struct ElseClause {
    pub else_kw: Token,
    pub statement: Box<Statement>,
}

/// `selama condition lakukan statement`
#[derive(Debug)]
pub struct WhileStatement {
    pub while_kw: Token,
    pub condition: Expression,
    pub do_kw: Token,
    pub body: Box<Statement>,
}

/// `untuk i := start ke end lakukan statement`
#[derive(Debug)]
pub struct ForStatement {
    pub for_kw: Token,
    pub counter_variable: Token,
    pub assign_op: Token,
    pub start_value: Expression,
    pub direction_kw: Token,
    pub end_value: Expression,
    pub do_kw: Token,
    pub body: Box<Statement>,
}

/// A call used as a statement.
#[derive(Debug)]
pub struct ProcedureCallStatement {
    pub call: FunctionCallNode,
}

/// `ulangi statements sampai condition`
#[derive(Debug)]
pub struct RepeatStatement {
    pub repeat_kw: Token,
    pub statement_list: StatementList,
    pub until_kw: Token,
    pub condition: Expression,
}

/// `kasus expression dari branches selesai`, with an optional else clause.
#[derive(Debug)]
pub struct CaseStatement {
    pub case_kw: Token,
    pub expression: Expression,
    pub of_kw: Token,
    pub branches: Vec<CaseBranch>,
    pub else_clause: Option<CaseElseClause>,
    pub end_kw: Token,
}

/// `labels : statement ;`
#[derive(Debug)]
pub struct CaseBranch {
    pub labels: CaseLabelList,
    pub colon: Token,
    pub statement: Box<Statement>,
    pub semicolon: Token,
}

/// `label , label`
#[derive(Debug)]
pub struct CaseLabelList {
    pub initial_label: Expression,
    pub rest: Vec<(Token, Expression)>,
}

/// `selain-itu statements`
#[derive(Debug)]
pub struct CaseElseClause {
    pub else_kw: Token,
    pub statement_list: StatementList,
}

/// Simple expressions joined by relational operators.
#[derive(Debug)]
pub struct Expression {
    pub initial_simple_expr: Box<SimpleExpression>,
    pub rest: Vec<(Token, Box<SimpleExpression>)>,
}

/// Terms joined by `+`, `-` or `atau`.
#[derive(Debug)]
pub struct SimpleExpression {
    pub initial_term: Box<Term>,
    pub rest: Vec<(Token, Box<Term>)>,
}

/// Factors joined by `*`, `/`, `bagi`, `mod` or `dan`.
#[derive(Debug)]
pub struct Term {
    pub initial_factor: Box<Factor>,
    pub rest: Vec<(Token, Box<Factor>)>,
}

/// A factor with a sign.
#[derive(Debug)]
pub struct ArithmeticUnaryFactor {
    pub op: Token,
    pub factor: Box<Factor>,
}

/// A literal token.
#[derive(Debug)]
pub struct LiteralValue {
    pub token: Token,
}

/// `name ( arguments )`
#[derive(Debug)]
pub struct FunctionCallNode {
    pub function_name: Token,
    pub l_paren: Token,
    pub arguments: Option<ActualParameterList>,
    pub r_paren: Token,
}

/// `argument , argument`
#[derive(Debug)]
pub struct ActualParameterList {
    pub initial_arg: Box<Expression>,
    pub rest: Vec<(Token, Box<Expression>)>,
}

/// `array [ index ]`
#[derive(Debug)]
pub struct ArrayAccess {
    pub array: Box<Expression>,
    pub l_bracket: Token,
    pub index: Box<Expression>,
    pub r_bracket: Token,
}

/// `( expression )`
#[derive(Debug)]
pub struct ParenthesizedExpression {
    pub l_paren: Token,
    pub expr: Box<Expression>,
    pub r_paren: Token,
}

/// `tidak factor`
#[derive(Debug)]
pub struct NotFactor {
    pub not_token: Token,
    pub factor: Box<Factor>,
}

/// A procedure or function declaration.
#[derive(Debug)]
pub enum SubprogramDeclaration {
    Procedure(ProcedureDeclaration),
    Function(FunctionDeclaration),
}

/// A type as written.
#[derive(Debug)]
pub enum Type {
    Integer(Token),
    Real(Token),
    Boolean(Token),
    String(Token),
    Char(Token),
    Array(ArrayType),
    Subrange(Range),
    TypeIdentifier(Token),
}

/// A statement.
#[derive(Debug)]
pub enum Statement {
    Compound(CompoundStatement),
    Assignment(AssignmentStatement),
    If(IfStatement),
    While(WhileStatement),
    For(ForStatement),
    Repeat(RepeatStatement),
    Case(CaseStatement),
    ProcedureCall(ProcedureCallStatement),
}

/// A factor of a term.
#[derive(Debug)]
pub enum Factor {
    Literal(LiteralValue),
    Identifier(Token),
    FunctionCall(FunctionCallNode),
    ArrayAccess(ArrayAccess),
    Parenthesized(ParenthesizedExpression),
    Not(NotFactor),
    ArithmeticUnary(ArithmeticUnaryFactor),
}

/// The value of a `Program`.
pub struct ProgramV {
    pub header: ProgramHeaderV,
    pub declarations: DeclarationPartV,
    pub body: CompoundStatementV,
    pub dot: Token,
}

/// The value of a `ProgramHeader`.
pub struct ProgramHeaderV {
    pub program_kw: Token,
    pub name: Token,
    pub semicolon: Token,
}

/// The value of a `DeclarationPart`.
pub struct DeclarationPartV {
    pub const_declarations: Seq<ConstantDeclarationV>,
    pub type_declarations: Seq<TypeDeclarationV>,
    pub var_declarations: Seq<VariableDeclarationV>,
    pub subprogram_declarations: Seq<SubprogramDeclarationV>,
}

/// The value of a `ConstantDeclaration`.
pub struct ConstantDeclarationV {
    pub const_kw: Token,
    pub constants: Seq<ConstantDefinitionV>,
}

/// The value of a `ConstantDefinition`.
pub struct ConstantDefinitionV {
    pub name: Token,
    pub equals_op: Token,
    pub value: ExpressionV,
    pub semicolon: Token,
}

/// The value of a `TypeDeclaration`.
pub struct TypeDeclarationV {
    pub type_kw: Token,
    pub definitions: Seq<TypeDefinitionV>,
}

/// The value of a `TypeDefinition`.
pub struct TypeDefinitionV {
    pub name: Token,
    pub equals_op: Token,
    pub type_def: TypeV,
    pub semicolon: Token,
}

/// The value of a `VariableDeclaration`.
pub struct VariableDeclarationV {
    pub var_kw: Token,
    pub groups: Seq<VariableGroupV>,
}

/// The value of a `VariableGroup`.
pub struct VariableGroupV {
    pub identifiers: IdentifierListV,
    pub colon: Token,
    pub var_type: TypeV,
    pub semicolon: Token,
}

/// The value of a `IdentifierList`.
pub struct IdentifierListV {
    pub initial_id: Token,
    pub rest: Seq<(Token, Token)>,
}

/// The value of a `ProcedureDeclaration`.
pub struct ProcedureDeclarationV {
    pub proc_kw: Token,
    pub name: Token,
    pub parameters: FormalParameterListV,
    pub header_semicolon: Token,
    pub declarations: DeclarationPartV,
    pub body: CompoundStatementV,
    pub block_semicolon: Token,
}

/// The value of a `FunctionDeclaration`.
pub struct FunctionDeclarationV {
    pub func_kw: Token,
    pub name: Token,
    pub parameters: FormalParameterListV,
    pub colon: Token,
    pub return_type: TypeV,
    pub header_semicolon: Token,
    pub declarations: DeclarationPartV,
    pub body: CompoundStatementV,
    pub block_semicolon: Token,
}

/// The value of a `FormalParameterList`.
pub struct FormalParameterListV {
    pub l_paren: Token,
    pub initial_param: Option<FormalParameterGroupV>,
    pub rest: Seq<(Token, FormalParameterGroupV)>,
    pub r_paren: Token,
}

/// The value of a `FormalParameterGroup`.
pub struct FormalParameterGroupV {
    pub var_kw: Option<Token>,
    pub identifiers: IdentifierListV,
    pub colon: Token,
    pub var_type: TypeV,
}

/// The value of a `ArrayType`.
pub struct ArrayTypeV {
    pub larik_kw: Token,
    pub l_bracket: Token,
    pub index_type: Box<TypeV>,
    pub r_bracket: Token,
    pub dari_kw: Token,
    pub base_type: Box<TypeV>,
}

/// The value of a `Range`.
pub struct RangeV {
    pub start: Box<ExpressionV>,
    pub range_op: Token,
    pub end: Box<ExpressionV>,
}

/// The value of a `StatementList`.
pub struct StatementListV {
    pub initial_stmt: Option<Box<StatementV>>,
    pub rest: Seq<(Token, Box<StatementV>)>,
    pub trailing_semicolon: Option<Token>,
}

/// The value of a `CompoundStatement`.
pub struct CompoundStatementV {
    pub begin_kw: Token,
    pub statement_list: StatementListV,
    pub end_kw: Token,
}

/// The value of a `AssignmentStatement`.
pub struct AssignmentStatementV {
    pub variable: ExpressionV,
    pub assign_op: Token,
    pub expression: ExpressionV,
}

/// The value of a `IfStatement`.
pub struct IfStatementV {
    pub if_kw: Token,
    pub condition: ExpressionV,
    pub then_kw: Token,
    pub then_branch: Box<StatementV>,
    pub else_clause: Option<ElseClauseV>,
}

/// The value of a `ElseClause`.
pub struct ElseClauseV {
    pub else_kw: Token,
    pub statement: Box<StatementV>,
}

/// The value of a `WhileStatement`.
pub struct WhileStatementV {
    pub while_kw: Token,
    pub condition: ExpressionV,
    pub do_kw: Token,
    pub body: Box<StatementV>,
}

/// The value of a `ForStatement`.
pub struct ForStatementV {
    pub for_kw: Token,
    pub counter_variable: Token,
    pub assign_op: Token,
    pub start_value: ExpressionV,
    pub direction_kw: Token,
    pub end_value: ExpressionV,
    pub do_kw: Token,
    pub body: Box<StatementV>,
}

/// The value of a `ProcedureCallStatement`.
pub struct ProcedureCallStatementV {
    pub call: FunctionCallNodeV,
}

/// The value of a `RepeatStatement`.
pub struct RepeatStatementV {
    pub repeat_kw: Token,
    pub statement_list: StatementListV,
    pub until_kw: Token,
    pub condition: ExpressionV,
}

/// The value of a `CaseStatement`.
pub struct CaseStatementV {
    pub case_kw: Token,
    pub expression: ExpressionV,
    pub of_kw: Token,
    pub branches: Seq<CaseBranchV>,
    pub else_clause: Option<CaseElseClauseV>,
    pub end_kw: Token,
}

/// The value of a `CaseBranch`.
pub struct CaseBranchV {
    pub labels: CaseLabelListV,
    pub colon: Token,
    pub statement: Box<StatementV>,
    pub semicolon: Token,
}

/// The value of a `CaseLabelList`.
pub struct CaseLabelListV {
    pub initial_label: ExpressionV,
    pub rest: Seq<(Token, ExpressionV)>,
}

/// The value of a `CaseElseClause`.
pub struct CaseElseClauseV {
    pub else_kw: Token,
    pub statement_list: StatementListV,
}

/// The value of a `Expression`.
pub struct ExpressionV {
    pub initial_simple_expr: Box<SimpleExpressionV>,
    pub rest: Seq<(Token, Box<SimpleExpressionV>)>,
}

/// The value of a `SimpleExpression`.
pub struct SimpleExpressionV {
    pub initial_term: Box<TermV>,
    pub rest: Seq<(Token, Box<TermV>)>,
}

/// The value of a `Term`.
pub struct TermV {
    pub initial_factor: Box<FactorV>,
    pub rest: Seq<(Token, Box<FactorV>)>,
}

/// The value of a `ArithmeticUnaryFactor`.
pub struct ArithmeticUnaryFactorV {
    pub op: Token,
    pub factor: Box<FactorV>,
}

/// The value of a `LiteralValue`.
pub struct LiteralValueV {
    pub token: Token,
}

/// The value of a `FunctionCallNode`.
pub struct FunctionCallNodeV {
    pub function_name: Token,
    pub l_paren: Token,
    pub arguments: Option<ActualParameterListV>,
    pub r_paren: Token,
}

/// The value of a `ActualParameterList`.
pub struct ActualParameterListV {
    pub initial_arg: Box<ExpressionV>,
    pub rest: Seq<(Token, Box<ExpressionV>)>,
}

/// The value of a `ArrayAccess`.
pub struct ArrayAccessV {
    pub array: Box<ExpressionV>,
    pub l_bracket: Token,
    pub index: Box<ExpressionV>,
    pub r_bracket: Token,
}

/// The value of a `ParenthesizedExpression`.
pub struct ParenthesizedExpressionV {
    pub l_paren: Token,
    pub expr: Box<ExpressionV>,
    pub r_paren: Token,
}

/// The value of a `NotFactor`.
pub struct NotFactorV {
    pub not_token: Token,
    pub factor: Box<FactorV>,
}

/// The value of a `SubprogramDeclaration`.
pub enum SubprogramDeclarationV {
    Procedure(ProcedureDeclarationV),
    Function(FunctionDeclarationV),
}

/// The value of a `Type`.
pub enum TypeV {
    Integer(Token),
    Real(Token),
    Boolean(Token),
    String(Token),
    Char(Token),
    Array(ArrayTypeV),
    Subrange(RangeV),
    TypeIdentifier(Token),
}

/// The value of a `Statement`.
pub enum StatementV {
    Compound(CompoundStatementV),
    Assignment(AssignmentStatementV),
    If(IfStatementV),
    While(WhileStatementV),
    For(ForStatementV),
    Repeat(RepeatStatementV),
    Case(CaseStatementV),
    ProcedureCall(ProcedureCallStatementV),
}

/// The value of a `Factor`.
pub enum FactorV {
    Literal(LiteralValueV),
    Identifier(Token),
    FunctionCall(FunctionCallNodeV),
    ArrayAccess(ArrayAccessV),
    Parenthesized(ParenthesizedExpressionV),
    Not(NotFactorV),
    ArithmeticUnary(ArithmeticUnaryFactorV),
}

/// The value of a `Program`.
pub open spec fn program_view(x: Program) -> ProgramV
    decreases x,
{
    ProgramV {
        header: program_header_view(x.header),
        declarations: declaration_part_view(x.declarations),
        body: compound_statement_view(x.body),
        dot: x.dot,
    }
}

/// The value of a `ProgramHeader`.
pub open spec fn program_header_view(x: ProgramHeader) -> ProgramHeaderV
    decreases x,
{
    ProgramHeaderV {
        program_kw: x.program_kw,
        name: x.name,
        semicolon: x.semicolon,
    }
}

/// The value of a `DeclarationPart`.
pub open spec fn declaration_part_view(x: DeclarationPart) -> DeclarationPartV
    decreases x,
{
    DeclarationPartV {
        const_declarations: seq_view_constant_declaration(x.const_declarations@),
        type_declarations: seq_view_type_declaration(x.type_declarations@),
        var_declarations: seq_view_variable_declaration(x.var_declarations@),
        subprogram_declarations: seq_view_subprogram_declaration(x.subprogram_declarations@),
    }
}

/// The value of a `ConstantDeclaration`.
pub open spec fn constant_declaration_view(x: ConstantDeclaration) -> ConstantDeclarationV
    decreases x,
{
    ConstantDeclarationV {
        const_kw: x.const_kw,
        constants: seq_view_constant_definition(x.constants@),
    }
}

/// The value of a `ConstantDefinition`.
pub open spec fn constant_definition_view(x: ConstantDefinition) -> ConstantDefinitionV
    decreases x,
{
    ConstantDefinitionV {
        name: x.name,
        equals_op: x.equals_op,
        value: expression_view(x.value),
        semicolon: x.semicolon,
    }
}

/// The value of a `TypeDeclaration`.
pub open spec fn type_declaration_view(x: TypeDeclaration) -> TypeDeclarationV
    decreases x,
{
    TypeDeclarationV {
        type_kw: x.type_kw,
        definitions: seq_view_type_definition(x.definitions@),
    }
}

/// The value of a `TypeDefinition`.
pub open spec fn type_definition_view(x: TypeDefinition) -> TypeDefinitionV
    decreases x,
{
    TypeDefinitionV {
        name: x.name,
        equals_op: x.equals_op,
        type_def: type_view(x.type_def),
        semicolon: x.semicolon,
    }
}

/// The value of a `VariableDeclaration`.
pub open spec fn variable_declaration_view(x: VariableDeclaration) -> VariableDeclarationV
    decreases x,
{
    VariableDeclarationV {
        var_kw: x.var_kw,
        groups: seq_view_variable_group(x.groups@),
    }
}

/// The value of a `VariableGroup`.
pub open spec fn variable_group_view(x: VariableGroup) -> VariableGroupV
    decreases x,
{
    VariableGroupV {
        identifiers: identifier_list_view(x.identifiers),
        colon: x.colon,
        var_type: type_view(x.var_type),
        semicolon: x.semicolon,
    }
}

/// The value of a `IdentifierList`.
pub open spec fn identifier_list_view(x: IdentifierList) -> IdentifierListV
    decreases x,
{
    IdentifierListV {
        initial_id: x.initial_id,
        rest: seq_view_token_token(x.rest@),
    }
}

/// The value of a `ProcedureDeclaration`.
pub open spec fn procedure_declaration_view(x: ProcedureDeclaration) -> ProcedureDeclarationV
    decreases x,
{
    ProcedureDeclarationV {
        proc_kw: x.proc_kw,
        name: x.name,
        parameters: formal_parameter_list_view(x.parameters),
        header_semicolon: x.header_semicolon,
        declarations: declaration_part_view(x.declarations),
        body: compound_statement_view(x.body),
        block_semicolon: x.block_semicolon,
    }
}

/// The value of a `FunctionDeclaration`.
pub open spec fn function_declaration_view(x: FunctionDeclaration) -> FunctionDeclarationV
    decreases x,
{
    FunctionDeclarationV {
        func_kw: x.func_kw,
        name: x.name,
        parameters: formal_parameter_list_view(x.parameters),
        colon: x.colon,
        return_type: type_view(x.return_type),
        header_semicolon: x.header_semicolon,
        declarations: declaration_part_view(x.declarations),
        body: compound_statement_view(x.body),
        block_semicolon: x.block_semicolon,
    }
}

/// The value of a `FormalParameterList`.
pub open spec fn formal_parameter_list_view(x: FormalParameterList) -> FormalParameterListV
    decreases x,
{
    FormalParameterListV {
        l_paren: x.l_paren,
        initial_param: match x.initial_param { Some(x) => Some(formal_parameter_group_view(x)), None => None },
        rest: seq_view_token_formal_parameter_group(x.rest@),
        r_paren: x.r_paren,
    }
}

/// The value of a `FormalParameterGroup`.
pub open spec fn formal_parameter_group_view(x: FormalParameterGroup) -> FormalParameterGroupV
    decreases x,
{
    FormalParameterGroupV {
        var_kw: match x.var_kw { Some(x) => Some(x), None => None },
        identifiers: identifier_list_view(x.identifiers),
        colon: x.colon,
        var_type: type_view(x.var_type),
    }
}

/// The value of a `ArrayType`.
pub open spec fn array_type_view(x: ArrayType) -> ArrayTypeV
    decreases x,
{
    ArrayTypeV {
        larik_kw: x.larik_kw,
        l_bracket: x.l_bracket,
        index_type: Box::new(type_view(*x.index_type)),
        r_bracket: x.r_bracket,
        dari_kw: x.dari_kw,
        base_type: Box::new(type_view(*x.base_type)),
    }
}

/// The value of a `Range`.
pub open spec fn range_view(x: Range) -> RangeV
    decreases x,
{
    RangeV {
        start: Box::new(expression_view(*x.start)),
        range_op: x.range_op,
        end: Box::new(expression_view(*x.end)),
    }
}

/// The value of a `StatementList`.
pub open spec fn statement_list_view(x: StatementList) -> StatementListV
    decreases x,
{
    StatementListV {
        initial_stmt: match x.initial_stmt { Some(x) => Some(Box::new(statement_view(*x))), None => None },
        rest: seq_view_token_boxed_statement(x.rest@),
        trailing_semicolon: match x.trailing_semicolon { Some(x) => Some(x), None => None },
    }
}

/// The value of a `CompoundStatement`.
pub open spec fn compound_statement_view(x: CompoundStatement) -> CompoundStatementV
    decreases x,
{
    CompoundStatementV {
        begin_kw: x.begin_kw,
        statement_list: statement_list_view(x.statement_list),
        end_kw: x.end_kw,
    }
}

/// The value of a `AssignmentStatement`.
pub open spec fn assignment_statement_view(x: AssignmentStatement) -> AssignmentStatementV
    decreases x,
{
    AssignmentStatementV {
        variable: expression_view(x.variable),
        assign_op: x.assign_op,
        expression: expression_view(x.expression),
    }
}

/// The value of a `IfStatement`.
pub open spec fn if_statement_view(x: IfStatement) -> IfStatementV
    decreases x,
{
    IfStatementV {
        if_kw: x.if_kw,
        condition: expression_view(x.condition),
        then_kw: x.then_kw,
        then_branch: Box::new(statement_view(*x.then_branch)),
        else_clause: match x.else_clause { Some(x) => Some(else_clause_view(x)), None => None },
    }
}

/// The value of a `ElseClause`.
pub open spec fn else_clause_view(x: ElseClause) -> ElseClauseV
    decreases x,
{
    ElseClauseV {
        else_kw: x.else_kw,
        statement: Box::new(statement_view(*x.statement)),
    }
}

/// The value of a `WhileStatement`.
pub open spec fn while_statement_view(x: WhileStatement) -> WhileStatementV
    decreases x,
{
    WhileStatementV {
        while_kw: x.while_kw,
        condition: expression_view(x.condition),
        do_kw: x.do_kw,
        body: Box::new(statement_view(*x.body)),
    }
}

/// The value of a `ForStatement`.
pub open spec fn for_statement_view(x: ForStatement) -> ForStatementV
    decreases x,
{
    ForStatementV {
        for_kw: x.for_kw,
        counter_variable: x.counter_variable,
        assign_op: x.assign_op,
        start_value: expression_view(x.start_value),
        direction_kw: x.direction_kw,
        end_value: expression_view(x.end_value),
        do_kw: x.do_kw,
        body: Box::new(statement_view(*x.body)),
    }
}

/// The value of a `ProcedureCallStatement`.
pub open spec fn procedure_call_statement_view(x: ProcedureCallStatement) -> ProcedureCallStatementV
    decreases x,
{
    ProcedureCallStatementV {
        call: function_call_node_view(x.call),
    }
}

/// The value of a `RepeatStatement`.
pub open spec fn repeat_statement_view(x: RepeatStatement) -> RepeatStatementV
    decreases x,
{
    RepeatStatementV {
        repeat_kw: x.repeat_kw,
        statement_list: statement_list_view(x.statement_list),
        until_kw: x.until_kw,
        condition: expression_view(x.condition),
    }
}

/// The value of a `CaseStatement`.
pub open spec fn case_statement_view(x: CaseStatement) -> CaseStatementV
    decreases x,
{
    CaseStatementV {
        case_kw: x.case_kw,
        expression: expression_view(x.expression),
        of_kw: x.of_kw,
        branches: seq_view_case_branch(x.branches@),
        else_clause: match x.else_clause { Some(x) => Some(case_else_clause_view(x)), None => None },
        end_kw: x.end_kw,
    }
}

/// The value of a `CaseBranch`.
pub open spec fn case_branch_view(x: CaseBranch) -> CaseBranchV
    decreases x,
{
    CaseBranchV {
        labels: case_label_list_view(x.labels),
        colon: x.colon,
        statement: Box::new(statement_view(*x.statement)),
        semicolon: x.semicolon,
    }
}

/// The value of a `CaseLabelList`.
pub open spec fn case_label_list_view(x: CaseLabelList) -> CaseLabelListV
    decreases x,
{
    CaseLabelListV {
        initial_label: expression_view(x.initial_label),
        rest: seq_view_token_expression(x.rest@),
    }
}

/// The value of a `CaseElseClause`.
pub open spec fn case_else_clause_view(x: CaseElseClause) -> CaseElseClauseV
    decreases x,
{
    CaseElseClauseV {
        else_kw: x.else_kw,
        statement_list: statement_list_view(x.statement_list),
    }
}

/// The value of a `Expression`.
pub open spec fn expression_view(x: Expression) -> ExpressionV
    decreases x,
{
    ExpressionV {
        initial_simple_expr: Box::new(simple_expression_view(*x.initial_simple_expr)),
        rest: seq_view_token_boxed_simple_expression(x.rest@),
    }
}

/// The value of a `SimpleExpression`.
pub open spec fn simple_expression_view(x: SimpleExpression) -> SimpleExpressionV
    decreases x,
{
    SimpleExpressionV {
        initial_term: Box::new(term_view(*x.initial_term)),
        rest: seq_view_token_boxed_term(x.rest@),
    }
}

/// The value of a `Term`.
pub open spec fn term_view(x: Term) -> TermV
    decreases x,
{
    TermV {
        initial_factor: Box::new(factor_view(*x.initial_factor)),
        rest: seq_view_token_boxed_factor(x.rest@),
    }
}

/// The value of a `ArithmeticUnaryFactor`.
pub open spec fn arithmetic_unary_factor_view(x: ArithmeticUnaryFactor) -> ArithmeticUnaryFactorV
    decreases x,
{
    ArithmeticUnaryFactorV {
        op: x.op,
        factor: Box::new(factor_view(*x.factor)),
    }
}

/// The value of a `LiteralValue`.
pub open spec fn literal_value_view(x: LiteralValue) -> LiteralValueV
    decreases x,
{
    LiteralValueV {
        token: x.token,
    }
}

/// The value of a `FunctionCallNode`.
pub open spec fn function_call_node_view(x: FunctionCallNode) -> FunctionCallNodeV
    decreases x,
{
    FunctionCallNodeV {
        function_name: x.function_name,
        l_paren: x.l_paren,
        arguments: match x.arguments { Some(x) => Some(actual_parameter_list_view(x)), None => None },
        r_paren: x.r_paren,
    }
}

/// The value of a `ActualParameterList`.
pub open spec fn actual_parameter_list_view(x: ActualParameterList) -> ActualParameterListV
    decreases x,
{
    ActualParameterListV {
        initial_arg: Box::new(expression_view(*x.initial_arg)),
        rest: seq_view_token_boxed_expression(x.rest@),
    }
}

/// The value of a `ArrayAccess`.
pub open spec fn array_access_view(x: ArrayAccess) -> ArrayAccessV
    decreases x,
{
    ArrayAccessV {
        array: Box::new(expression_view(*x.array)),
        l_bracket: x.l_bracket,
        index: Box::new(expression_view(*x.index)),
        r_bracket: x.r_bracket,
    }
}

/// The value of a `ParenthesizedExpression`.
pub open spec fn parenthesized_expression_view(x: ParenthesizedExpression) -> ParenthesizedExpressionV
    decreases x,
{
    ParenthesizedExpressionV {
        l_paren: x.l_paren,
        expr: Box::new(expression_view(*x.expr)),
        r_paren: x.r_paren,
    }
}

/// The value of a `NotFactor`.
pub open spec fn not_factor_view(x: NotFactor) -> NotFactorV
    decreases x,
{
    NotFactorV {
        not_token: x.not_token,
        factor: Box::new(factor_view(*x.factor)),
    }
}

/// The value of a `SubprogramDeclaration`.
#[verifier::opaque]
pub open spec fn subprogram_declaration_view(x: SubprogramDeclaration) -> SubprogramDeclarationV
    decreases x,
{
    match x {
        SubprogramDeclaration::Procedure(y) => SubprogramDeclarationV::Procedure(procedure_declaration_view(y)),
        SubprogramDeclaration::Function(y) => SubprogramDeclarationV::Function(function_declaration_view(y)),
    }
}

/// The value of a `Type`.
#[verifier::opaque]
pub open spec fn type_view(x: Type) -> TypeV
    decreases x,
{
    match x {
        Type::Integer(y) => TypeV::Integer(y),
        Type::Real(y) => TypeV::Real(y),
        Type::Boolean(y) => TypeV::Boolean(y),
        Type::String(y) => TypeV::String(y),
        Type::Char(y) => TypeV::Char(y),
        Type::Array(y) => TypeV::Array(array_type_view(y)),
        Type::Subrange(y) => TypeV::Subrange(range_view(y)),
        Type::TypeIdentifier(y) => TypeV::TypeIdentifier(y),
    }
}

/// The value of a `Statement`.
#[verifier::opaque]
pub open spec fn statement_view(x: Statement) -> StatementV
    decreases x,
{
    match x {
        Statement::Compound(y) => StatementV::Compound(compound_statement_view(y)),
        Statement::Assignment(y) => StatementV::Assignment(assignment_statement_view(y)),
        Statement::If(y) => StatementV::If(if_statement_view(y)),
        Statement::While(y) => StatementV::While(while_statement_view(y)),
        Statement::For(y) => StatementV::For(for_statement_view(y)),
        Statement::Repeat(y) => StatementV::Repeat(repeat_statement_view(y)),
        Statement::Case(y) => StatementV::Case(case_statement_view(y)),
        Statement::ProcedureCall(y) => StatementV::ProcedureCall(procedure_call_statement_view(y)),
    }
}

/// The value of a `Factor`.
pub open spec fn factor_view(x: Factor) -> FactorV
    decreases x,
{
    match x {
        Factor::Literal(y) => FactorV::Literal(literal_value_view(y)),
        Factor::Identifier(y) => FactorV::Identifier(y),
        Factor::FunctionCall(y) => FactorV::FunctionCall(function_call_node_view(y)),
        Factor::ArrayAccess(y) => FactorV::ArrayAccess(array_access_view(y)),
        Factor::Parenthesized(y) => FactorV::Parenthesized(parenthesized_expression_view(y)),
        Factor::Not(y) => FactorV::Not(not_factor_view(y)),
        Factor::ArithmeticUnary(y) => FactorV::ArithmeticUnary(arithmetic_unary_factor_view(y)),
    }
}

/// The values of a list of `ConstantDeclaration`.
pub open spec fn seq_view_constant_declaration(s: Seq<ConstantDeclaration>) -> Seq<ConstantDeclarationV>
    decreases s,
{
    if s.len() == 0 {
        Seq::empty()
    } else {
        seq_view_constant_declaration(s.drop_last()).push(constant_declaration_view(s.last()))
    }
}

/// The list of values is as long as the list, one value per element.
pub proof fn lemma_seq_view_constant_declaration(s: Seq<ConstantDeclaration>)
    ensures
        seq_view_constant_declaration(s).len() == s.len(),
        forall|i: int| 0 <= i < s.len() ==> #[trigger] seq_view_constant_declaration(s)[i] == constant_declaration_view(s[i]),
    decreases s.len(),
{
    if s.len() > 0 {
        lemma_seq_view_constant_declaration(s.drop_last());
        assert forall|i: int| 0 <= i < s.len() implies #[trigger] seq_view_constant_declaration(s)[i] == constant_declaration_view(s[i]) by {
            if i < s.len() - 1 {
                assert(s.drop_last()[i] == s[i]);
            }
        }
    }
}

/// An element in front of a list: its value in front of the values.
#[verifier::spinoff_prover]
pub proof fn lemma_seq_view_constant_declaration_cons(x: ConstantDeclaration, s: Seq<ConstantDeclaration>)
    ensures
        seq_view_constant_declaration(seq![x] + s) == seq![constant_declaration_view(x)] + seq_view_constant_declaration(s),
{
    lemma_seq_view_constant_declaration(s);
    lemma_seq_view_constant_declaration(seq![x] + s);
    assert(seq_view_constant_declaration(seq![x] + s) =~= seq![constant_declaration_view(x)] + seq_view_constant_declaration(s)) by {
        assert forall|i: int| 0 <= i < s.len() implies (seq![x] + s)[i + 1] == s[i] by {}
    }
}


/// The values of a list of `TypeDeclaration`.
pub open spec fn seq_view_type_declaration(s: Seq<TypeDeclaration>) -> Seq<TypeDeclarationV>
    decreases s,
{
    if s.len() == 0 {
        Seq::empty()
    } else {
        seq_view_type_declaration(s.drop_last()).push(type_declaration_view(s.last()))
    }
}

/// The list of values is as long as the list, one value per element.
pub proof fn lemma_seq_view_type_declaration(s: Seq<TypeDeclaration>)
    ensures
        seq_view_type_declaration(s).len() == s.len(),
        forall|i: int| 0 <= i < s.len() ==> #[trigger] seq_view_type_declaration(s)[i] == type_declaration_view(s[i]),
    decreases s.len(),
{
    if s.len() > 0 {
        lemma_seq_view_type_declaration(s.drop_last());
        assert forall|i: int| 0 <= i < s.len() implies #[trigger] seq_view_type_declaration(s)[i] == type_declaration_view(s[i]) by {
            if i < s.len() - 1 {
                assert(s.drop_last()[i] == s[i]);
            }
        }
    }
}

/// An element in front of a list: its value in front of the values.
#[verifier::spinoff_prover]
pub proof fn lemma_seq_view_type_declaration_cons(x: TypeDeclaration, s: Seq<TypeDeclaration>)
    ensures
        seq_view_type_declaration(seq![x] + s) == seq![type_declaration_view(x)] + seq_view_type_declaration(s),
{
    lemma_seq_view_type_declaration(s);
    lemma_seq_view_type_declaration(seq![x] + s);
    assert(seq_view_type_declaration(seq![x] + s) =~= seq![type_declaration_view(x)] + seq_view_type_declaration(s)) by {
        assert forall|i: int| 0 <= i < s.len() implies (seq![x] + s)[i + 1] == s[i] by {}
    }
}


/// The values of a list of `VariableDeclaration`.
pub open spec fn seq_view_variable_declaration(s: Seq<VariableDeclaration>) -> Seq<VariableDeclarationV>
    decreases s,
{
    if s.len() == 0 {
        Seq::empty()
    } else {
        seq_view_variable_declaration(s.drop_last()).push(variable_declaration_view(s.last()))
    }
}

/// The list of values is as long as the list, one value per element.
pub proof fn lemma_seq_view_variable_declaration(s: Seq<VariableDeclaration>)
    ensures
        seq_view_variable_declaration(s).len() == s.len(),
        forall|i: int| 0 <= i < s.len() ==> #[trigger] seq_view_variable_declaration(s)[i] == variable_declaration_view(s[i]),
    decreases s.len(),
{
    if s.len() > 0 {
        lemma_seq_view_variable_declaration(s.drop_last());
        assert forall|i: int| 0 <= i < s.len() implies #[trigger] seq_view_variable_declaration(s)[i] == variable_declaration_view(s[i]) by {
            if i < s.len() - 1 {
                assert(s.drop_last()[i] == s[i]);
            }
        }
    }
}

/// An element in front of a list: its value in front of the values.
#[verifier::spinoff_prover]
pub proof fn lemma_seq_view_variable_declaration_cons(x: VariableDeclaration, s: Seq<VariableDeclaration>)
    ensures
        seq_view_variable_declaration(seq![x] + s) == seq![variable_declaration_view(x)] + seq_view_variable_declaration(s),
{
    lemma_seq_view_variable_declaration(s);
    lemma_seq_view_variable_declaration(seq![x] + s);
    assert(seq_view_variable_declaration(seq![x] + s) =~= seq![variable_declaration_view(x)] + seq_view_variable_declaration(s)) by {
        assert forall|i: int| 0 <= i < s.len() implies (seq![x] + s)[i + 1] == s[i] by {}
    }
}


/// The values of a list of `SubprogramDeclaration`.
pub open spec fn seq_view_subprogram_declaration(s: Seq<SubprogramDeclaration>) -> Seq<SubprogramDeclarationV>
    decreases s,
{
    if s.len() == 0 {
        Seq::empty()
    } else {
        seq_view_subprogram_declaration(s.drop_last()).push(subprogram_declaration_view(s.last()))
    }
}

/// The list of values is as long as the list, one value per element.
pub proof fn lemma_seq_view_subprogram_declaration(s: Seq<SubprogramDeclaration>)
    ensures
        seq_view_subprogram_declaration(s).len() == s.len(),
        forall|i: int| 0 <= i < s.len() ==> #[trigger] seq_view_subprogram_declaration(s)[i] == subprogram_declaration_view(s[i]),
    decreases s.len(),
{
    reveal(subprogram_declaration_view);
    if s.len() > 0 {
        lemma_seq_view_subprogram_declaration(s.drop_last());
        assert forall|i: int| 0 <= i < s.len() implies #[trigger] seq_view_subprogram_declaration(s)[i] == subprogram_declaration_view(s[i]) by {
            if i < s.len() - 1 {
                assert(s.drop_last()[i] == s[i]);
            }
        }
    }
}

/// An element in front of a list: its value in front of the values.
#[verifier::spinoff_prover]
pub proof fn lemma_seq_view_subprogram_declaration_cons(x: SubprogramDeclaration, s: Seq<SubprogramDeclaration>)
    ensures
        seq_view_subprogram_declaration(seq![x] + s) == seq![subprogram_declaration_view(x)] + seq_view_subprogram_declaration(s),
{
    lemma_seq_view_subprogram_declaration(s);
    lemma_seq_view_subprogram_declaration(seq![x] + s);
    assert(seq_view_subprogram_declaration(seq![x] + s) =~= seq![subprogram_declaration_view(x)] + seq_view_subprogram_declaration(s)) by {
        assert forall|i: int| 0 <= i < s.len() implies (seq![x] + s)[i + 1] == s[i] by {}
    }
}


/// The values of a list of `ConstantDefinition`.
pub open spec fn seq_view_constant_definition(s: Seq<ConstantDefinition>) -> Seq<ConstantDefinitionV>
    decreases s,
{
    if s.len() == 0 {
        Seq::empty()
    } else {
        seq_view_constant_definition(s.drop_last()).push(constant_definition_view(s.last()))
    }
}

/// The list of values is as long as the list, one value per element.
pub proof fn lemma_seq_view_constant_definition(s: Seq<ConstantDefinition>)
    ensures
        seq_view_constant_definition(s).len() == s.len(),
        forall|i: int| 0 <= i < s.len() ==> #[trigger] seq_view_constant_definition(s)[i] == constant_definition_view(s[i]),
    decreases s.len(),
{
    if s.len() > 0 {
        lemma_seq_view_constant_definition(s.drop_last());
        assert forall|i: int| 0 <= i < s.len() implies #[trigger] seq_view_constant_definition(s)[i] == constant_definition_view(s[i]) by {
            if i < s.len() - 1 {
                assert(s.drop_last()[i] == s[i]);
            }
        }
    }
}

/// An element in front of a list: its value in front of the values.
#[verifier::spinoff_prover]
pub proof fn lemma_seq_view_constant_definition_cons(x: ConstantDefinition, s: Seq<ConstantDefinition>)
    ensures
        seq_view_constant_definition(seq![x] + s) == seq![constant_definition_view(x)] + seq_view_constant_definition(s),
{
    lemma_seq_view_constant_definition(s);
    lemma_seq_view_constant_definition(seq![x] + s);
    assert(seq_view_constant_definition(seq![x] + s) =~= seq![constant_definition_view(x)] + seq_view_constant_definition(s)) by {
        assert forall|i: int| 0 <= i < s.len() implies (seq![x] + s)[i + 1] == s[i] by {}
    }
}


/// The values of a list of `TypeDefinition`.
pub open spec fn seq_view_type_definition(s: Seq<TypeDefinition>) -> Seq<TypeDefinitionV>
    decreases s,
{
    if s.len() == 0 {
        Seq::empty()
    } else {
        seq_view_type_definition(s.drop_last()).push(type_definition_view(s.last()))
    }
}

/// The list of values is as long as the list, one value per element.
pub proof fn lemma_seq_view_type_definition(s: Seq<TypeDefinition>)
    ensures
        seq_view_type_definition(s).len() == s.len(),
        forall|i: int| 0 <= i < s.len() ==> #[trigger] seq_view_type_definition(s)[i] == type_definition_view(s[i]),
    decreases s.len(),
{
    if s.len() > 0 {
        lemma_seq_view_type_definition(s.drop_last());
        assert forall|i: int| 0 <= i < s.len() implies #[trigger] seq_view_type_definition(s)[i] == type_definition_view(s[i]) by {
            if i < s.len() - 1 {
                assert(s.drop_last()[i] == s[i]);
            }
        }
    }
}

/// An element in front of a list: its value in front of the values.
#[verifier::spinoff_prover]
pub proof fn lemma_seq_view_type_definition_cons(x: TypeDefinition, s: Seq<TypeDefinition>)
    ensures
        seq_view_type_definition(seq![x] + s) == seq![type_definition_view(x)] + seq_view_type_definition(s),
{
    lemma_seq_view_type_definition(s);
    lemma_seq_view_type_definition(seq![x] + s);
    assert(seq_view_type_definition(seq![x] + s) =~= seq![type_definition_view(x)] + seq_view_type_definition(s)) by {
        assert forall|i: int| 0 <= i < s.len() implies (seq![x] + s)[i + 1] == s[i] by {}
    }
}


/// The values of a list of `VariableGroup`.
pub open spec fn seq_view_variable_group(s: Seq<VariableGroup>) -> Seq<VariableGroupV>
    decreases s,
{
    if s.len() == 0 {
        Seq::empty()
    } else {
        seq_view_variable_group(s.drop_last()).push(variable_group_view(s.last()))
    }
}

/// The list of values is as long as the list, one value per element.
pub proof fn lemma_seq_view_variable_group(s: Seq<VariableGroup>)
    ensures
        seq_view_variable_group(s).len() == s.len(),
        forall|i: int| 0 <= i < s.len() ==> #[trigger] seq_view_variable_group(s)[i] == variable_group_view(s[i]),
    decreases s.len(),
{
    if s.len() > 0 {
        lemma_seq_view_variable_group(s.drop_last());
        assert forall|i: int| 0 <= i < s.len() implies #[trigger] seq_view_variable_group(s)[i] == variable_group_view(s[i]) by {
            if i < s.len() - 1 {
                assert(s.drop_last()[i] == s[i]);
            }
        }
    }
}

/// An element in front of a list: its value in front of the values.
#[verifier::spinoff_prover]
pub proof fn lemma_seq_view_variable_group_cons(x: VariableGroup, s: Seq<VariableGroup>)
    ensures
        seq_view_variable_group(seq![x] + s) == seq![variable_group_view(x)] + seq_view_variable_group(s),
{
    lemma_seq_view_variable_group(s);
    lemma_seq_view_variable_group(seq![x] + s);
    assert(seq_view_variable_group(seq![x] + s) =~= seq![variable_group_view(x)] + seq_view_variable_group(s)) by {
        assert forall|i: int| 0 <= i < s.len() implies (seq![x] + s)[i + 1] == s[i] by {}
    }
}


/// The values of a list of `(Token, Token)`.
pub open spec fn seq_view_token_token(s: Seq<(Token, Token)>) -> Seq<(Token, Token)>
    decreases s,
{
    if s.len() == 0 {
        Seq::empty()
    } else {
        seq_view_token_token(s.drop_last()).push((s.last().0, s.last().1))
    }
}

/// The list of values is as long as the list, one value per element.
pub proof fn lemma_seq_view_token_token(s: Seq<(Token, Token)>)
    ensures
        seq_view_token_token(s).len() == s.len(),
        forall|i: int| 0 <= i < s.len() ==> #[trigger] seq_view_token_token(s)[i] == (s[i].0, s[i].1),
    decreases s.len(),
{
    if s.len() > 0 {
        lemma_seq_view_token_token(s.drop_last());
        assert forall|i: int| 0 <= i < s.len() implies #[trigger] seq_view_token_token(s)[i] == (s[i].0, s[i].1) by {
            if i < s.len() - 1 {
                assert(s.drop_last()[i] == s[i]);
            }
        }
    }
}

/// An element in front of a list: its value in front of the values.
#[verifier::spinoff_prover]
pub proof fn lemma_seq_view_token_token_cons(x: (Token, Token), s: Seq<(Token, Token)>)
    ensures
        seq_view_token_token(seq![x] + s) == seq![(x.0, x.1)] + seq_view_token_token(s),
{
    lemma_seq_view_token_token(s);
    lemma_seq_view_token_token(seq![x] + s);
    assert(seq_view_token_token(seq![x] + s) =~= seq![(x.0, x.1)] + seq_view_token_token(s)) by {
        assert forall|i: int| 0 <= i < s.len() implies (seq![x] + s)[i + 1] == s[i] by {}
    }
}


/// The values of a list of `(Token, FormalParameterGroup)`.
pub open spec fn seq_view_token_formal_parameter_group(s: Seq<(Token, FormalParameterGroup)>) -> Seq<(Token, FormalParameterGroupV)>
    decreases s,
{
    if s.len() == 0 {
        Seq::empty()
    } else {
        seq_view_token_formal_parameter_group(s.drop_last()).push((s.last().0, formal_parameter_group_view(s.last().1)))
    }
}

/// The list of values is as long as the list, one value per element.
pub proof fn lemma_seq_view_token_formal_parameter_group(s: Seq<(Token, FormalParameterGroup)>)
    ensures
        seq_view_token_formal_parameter_group(s).len() == s.len(),
        forall|i: int| 0 <= i < s.len() ==> #[trigger] seq_view_token_formal_parameter_group(s)[i] == (s[i].0, formal_parameter_group_view(s[i].1)),
    decreases s.len(),
{
    if s.len() > 0 {
        lemma_seq_view_token_formal_parameter_group(s.drop_last());
        assert forall|i: int| 0 <= i < s.len() implies #[trigger] seq_view_token_formal_parameter_group(s)[i] == (s[i].0, formal_parameter_group_view(s[i].1)) by {
            if i < s.len() - 1 {
                assert(s.drop_last()[i] == s[i]);
            }
        }
    }
}

/// An element in front of a list: its value in front of the values.
#[verifier::spinoff_prover]
pub proof fn lemma_seq_view_token_formal_parameter_group_cons(x: (Token, FormalParameterGroup), s: Seq<(Token, FormalParameterGroup)>)
    ensures
        seq_view_token_formal_parameter_group(seq![x] + s) == seq![(x.0, formal_parameter_group_view(x.1))] + seq_view_token_formal_parameter_group(s),
{
    lemma_seq_view_token_formal_parameter_group(s);
    lemma_seq_view_token_formal_parameter_group(seq![x] + s);
    assert(seq_view_token_formal_parameter_group(seq![x] + s) =~= seq![(x.0, formal_parameter_group_view(x.1))] + seq_view_token_formal_parameter_group(s)) by {
        assert forall|i: int| 0 <= i < s.len() implies (seq![x] + s)[i + 1] == s[i] by {}
    }
}


/// The values of a list of `(Token, Box<Statement>)`.
pub open spec fn seq_view_token_boxed_statement(s: Seq<(Token, Box<Statement>)>) -> Seq<(Token, Box<StatementV>)>
    decreases s,
{
    if s.len() == 0 {
        Seq::empty()
    } else {
        seq_view_token_boxed_statement(s.drop_last()).push((s.last().0, Box::new(statement_view(*s.last().1))))
    }
}

/// The list of values is as long as the list, one value per element.
pub proof fn lemma_seq_view_token_boxed_statement(s: Seq<(Token, Box<Statement>)>)
    ensures
        seq_view_token_boxed_statement(s).len() == s.len(),
        forall|i: int| 0 <= i < s.len() ==> #[trigger] seq_view_token_boxed_statement(s)[i] == (s[i].0, Box::new(statement_view(*s[i].1))),
    decreases s.len(),
{
    reveal(statement_view);
    if s.len() > 0 {
        lemma_seq_view_token_boxed_statement(s.drop_last());
        assert forall|i: int| 0 <= i < s.len() implies #[trigger] seq_view_token_boxed_statement(s)[i] == (s[i].0, Box::new(statement_view(*s[i].1))) by {
            if i < s.len() - 1 {
                assert(s.drop_last()[i] == s[i]);
            }
        }
    }
}

/// An element in front of a list: its value in front of the values.
#[verifier::spinoff_prover]
pub proof fn lemma_seq_view_token_boxed_statement_cons(x: (Token, Box<Statement>), s: Seq<(Token, Box<Statement>)>)
    ensures
        seq_view_token_boxed_statement(seq![x] + s) == seq![(x.0, Box::new(statement_view(*x.1)))] + seq_view_token_boxed_statement(s),
{
    lemma_seq_view_token_boxed_statement(s);
    lemma_seq_view_token_boxed_statement(seq![x] + s);
    assert(seq_view_token_boxed_statement(seq![x] + s) =~= seq![(x.0, Box::new(statement_view(*x.1)))] + seq_view_token_boxed_statement(s)) by {
        assert forall|i: int| 0 <= i < s.len() implies (seq![x] + s)[i + 1] == s[i] by {}
    }
}


/// The values of a list of `CaseBranch`.
pub open spec fn seq_view_case_branch(s: Seq<CaseBranch>) -> Seq<CaseBranchV>
    decreases s,
{
    if s.len() == 0 {
        Seq::empty()
    } else {
        seq_view_case_branch(s.drop_last()).push(case_branch_view(s.last()))
    }
}

/// The list of values is as long as the list, one value per element.
pub proof fn lemma_seq_view_case_branch(s: Seq<CaseBranch>)
    ensures
        seq_view_case_branch(s).len() == s.len(),
        forall|i: int| 0 <= i < s.len() ==> #[trigger] seq_view_case_branch(s)[i] == case_branch_view(s[i]),
    decreases s.len(),
{
    if s.len() > 0 {
        lemma_seq_view_case_branch(s.drop_last());
        assert forall|i: int| 0 <= i < s.len() implies #[trigger] seq_view_case_branch(s)[i] == case_branch_view(s[i]) by {
            if i < s.len() - 1 {
                assert(s.drop_last()[i] == s[i]);
            }
        }
    }
}

/// An element in front of a list: its value in front of the values.
#[verifier::spinoff_prover]
pub proof fn lemma_seq_view_case_branch_cons(x: CaseBranch, s: Seq<CaseBranch>)
    ensures
        seq_view_case_branch(seq![x] + s) == seq![case_branch_view(x)] + seq_view_case_branch(s),
{
    lemma_seq_view_case_branch(s);
    lemma_seq_view_case_branch(seq![x] + s);
    assert(seq_view_case_branch(seq![x] + s) =~= seq![case_branch_view(x)] + seq_view_case_branch(s)) by {
        assert forall|i: int| 0 <= i < s.len() implies (seq![x] + s)[i + 1] == s[i] by {}
    }
}


/// The values of a list of `(Token, Expression)`.
pub open spec fn seq_view_token_expression(s: Seq<(Token, Expression)>) -> Seq<(Token, ExpressionV)>
    decreases s,
{
    if s.len() == 0 {
        Seq::empty()
    } else {
        seq_view_token_expression(s.drop_last()).push((s.last().0, expression_view(s.last().1)))
    }
}

/// The list of values is as long as the list, one value per element.
pub proof fn lemma_seq_view_token_expression(s: Seq<(Token, Expression)>)
    ensures
        seq_view_token_expression(s).len() == s.len(),
        forall|i: int| 0 <= i < s.len() ==> #[trigger] seq_view_token_expression(s)[i] == (s[i].0, expression_view(s[i].1)),
    decreases s.len(),
{
    if s.len() > 0 {
        lemma_seq_view_token_expression(s.drop_last());
        assert forall|i: int| 0 <= i < s.len() implies #[trigger] seq_view_token_expression(s)[i] == (s[i].0, expression_view(s[i].1)) by {
            if i < s.len() - 1 {
                assert(s.drop_last()[i] == s[i]);
            }
        }
    }
}

/// An element in front of a list: its value in front of the values.
#[verifier::spinoff_prover]
pub proof fn lemma_seq_view_token_expression_cons(x: (Token, Expression), s: Seq<(Token, Expression)>)
    ensures
        seq_view_token_expression(seq![x] + s) == seq![(x.0, expression_view(x.1))] + seq_view_token_expression(s),
{
    lemma_seq_view_token_expression(s);
    lemma_seq_view_token_expression(seq![x] + s);
    assert(seq_view_token_expression(seq![x] + s) =~= seq![(x.0, expression_view(x.1))] + seq_view_token_expression(s)) by {
        assert forall|i: int| 0 <= i < s.len() implies (seq![x] + s)[i + 1] == s[i] by {}
    }
}


/// The values of a list of `(Token, Box<SimpleExpression>)`.
pub open spec fn seq_view_token_boxed_simple_expression(s: Seq<(Token, Box<SimpleExpression>)>) -> Seq<(Token, Box<SimpleExpressionV>)>
    decreases s,
{
    if s.len() == 0 {
        Seq::empty()
    } else {
        seq_view_token_boxed_simple_expression(s.drop_last()).push((s.last().0, Box::new(simple_expression_view(*s.last().1))))
    }
}

/// The list of values is as long as the list, one value per element.
pub proof fn lemma_seq_view_token_boxed_simple_expression(s: Seq<(Token, Box<SimpleExpression>)>)
    ensures
        seq_view_token_boxed_simple_expression(s).len() == s.len(),
        forall|i: int| 0 <= i < s.len() ==> #[trigger] seq_view_token_boxed_simple_expression(s)[i] == (s[i].0, Box::new(simple_expression_view(*s[i].1))),
    decreases s.len(),
{
    if s.len() > 0 {
        lemma_seq_view_token_boxed_simple_expression(s.drop_last());
        assert forall|i: int| 0 <= i < s.len() implies #[trigger] seq_view_token_boxed_simple_expression(s)[i] == (s[i].0, Box::new(simple_expression_view(*s[i].1))) by {
            if i < s.len() - 1 {
                assert(s.drop_last()[i] == s[i]);
            }
        }
    }
}

/// An element in front of a list: its value in front of the values.
#[verifier::spinoff_prover]
pub proof fn lemma_seq_view_token_boxed_simple_expression_cons(x: (Token, Box<SimpleExpression>), s: Seq<(Token, Box<SimpleExpression>)>)
    ensures
        seq_view_token_boxed_simple_expression(seq![x] + s) == seq![(x.0, Box::new(simple_expression_view(*x.1)))] + seq_view_token_boxed_simple_expression(s),
{
    lemma_seq_view_token_boxed_simple_expression(s);
    lemma_seq_view_token_boxed_simple_expression(seq![x] + s);
    assert(seq_view_token_boxed_simple_expression(seq![x] + s) =~= seq![(x.0, Box::new(simple_expression_view(*x.1)))] + seq_view_token_boxed_simple_expression(s)) by {
        assert forall|i: int| 0 <= i < s.len() implies (seq![x] + s)[i + 1] == s[i] by {}
    }
}


/// The values of a list of `(Token, Box<Term>)`.
pub open spec fn seq_view_token_boxed_term(s: Seq<(Token, Box<Term>)>) -> Seq<(Token, Box<TermV>)>
    decreases s,
{
    if s.len() == 0 {
        Seq::empty()
    } else {
        seq_view_token_boxed_term(s.drop_last()).push((s.last().0, Box::new(term_view(*s.last().1))))
    }
}

/// The list of values is as long as the list, one value per element.
pub proof fn lemma_seq_view_token_boxed_term(s: Seq<(Token, Box<Term>)>)
    ensures
        seq_view_token_boxed_term(s).len() == s.len(),
        forall|i: int| 0 <= i < s.len() ==> #[trigger] seq_view_token_boxed_term(s)[i] == (s[i].0, Box::new(term_view(*s[i].1))),
    decreases s.len(),
{
    if s.len() > 0 {
        lemma_seq_view_token_boxed_term(s.drop_last());
        assert forall|i: int| 0 <= i < s.len() implies #[trigger] seq_view_token_boxed_term(s)[i] == (s[i].0, Box::new(term_view(*s[i].1))) by {
            if i < s.len() - 1 {
                assert(s.drop_last()[i] == s[i]);
            }
        }
    }
}

/// An element in front of a list: its value in front of the values.
#[verifier::spinoff_prover]
pub proof fn lemma_seq_view_token_boxed_term_cons(x: (Token, Box<Term>), s: Seq<(Token, Box<Term>)>)
    ensures
        seq_view_token_boxed_term(seq![x] + s) == seq![(x.0, Box::new(term_view(*x.1)))] + seq_view_token_boxed_term(s),
{
    lemma_seq_view_token_boxed_term(s);
    lemma_seq_view_token_boxed_term(seq![x] + s);
    assert(seq_view_token_boxed_term(seq![x] + s) =~= seq![(x.0, Box::new(term_view(*x.1)))] + seq_view_token_boxed_term(s)) by {
        assert forall|i: int| 0 <= i < s.len() implies (seq![x] + s)[i + 1] == s[i] by {}
    }
}


/// The values of a list of `(Token, Box<Factor>)`.
pub open spec fn seq_view_token_boxed_factor(s: Seq<(Token, Box<Factor>)>) -> Seq<(Token, Box<FactorV>)>
    decreases s,
{
    if s.len() == 0 {
        Seq::empty()
    } else {
        seq_view_token_boxed_factor(s.drop_last()).push((s.last().0, Box::new(factor_view(*s.last().1))))
    }
}

/// The list of values is as long as the list, one value per element.
pub proof fn lemma_seq_view_token_boxed_factor(s: Seq<(Token, Box<Factor>)>)
    ensures
        seq_view_token_boxed_factor(s).len() == s.len(),
        forall|i: int| 0 <= i < s.len() ==> #[trigger] seq_view_token_boxed_factor(s)[i] == (s[i].0, Box::new(factor_view(*s[i].1))),
    decreases s.len(),
{
    if s.len() > 0 {
        lemma_seq_view_token_boxed_factor(s.drop_last());
        assert forall|i: int| 0 <= i < s.len() implies #[trigger] seq_view_token_boxed_factor(s)[i] == (s[i].0, Box::new(factor_view(*s[i].1))) by {
            if i < s.len() - 1 {
                assert(s.drop_last()[i] == s[i]);
            }
        }
    }
}

/// An element in front of a list: its value in front of the values.
#[verifier::spinoff_prover]
pub proof fn lemma_seq_view_token_boxed_factor_cons(x: (Token, Box<Factor>), s: Seq<(Token, Box<Factor>)>)
    ensures
        seq_view_token_boxed_factor(seq![x] + s) == seq![(x.0, Box::new(factor_view(*x.1)))] + seq_view_token_boxed_factor(s),
{
    lemma_seq_view_token_boxed_factor(s);
    lemma_seq_view_token_boxed_factor(seq![x] + s);
    assert(seq_view_token_boxed_factor(seq![x] + s) =~= seq![(x.0, Box::new(factor_view(*x.1)))] + seq_view_token_boxed_factor(s)) by {
        assert forall|i: int| 0 <= i < s.len() implies (seq![x] + s)[i + 1] == s[i] by {}
    }
}


/// The values of a list of `(Token, Box<Expression>)`.
pub open spec fn seq_view_token_boxed_expression(s: Seq<(Token, Box<Expression>)>) -> Seq<(Token, Box<ExpressionV>)>
    decreases s,
{
    if s.len() == 0 {
        Seq::empty()
    } else {
        seq_view_token_boxed_expression(s.drop_last()).push((s.last().0, Box::new(expression_view(*s.last().1))))
    }
}

/// The list of values is as long as the list, one value per element.
pub proof fn lemma_seq_view_token_boxed_expression(s: Seq<(Token, Box<Expression>)>)
    ensures
        seq_view_token_boxed_expression(s).len() == s.len(),
        forall|i: int| 0 <= i < s.len() ==> #[trigger] seq_view_token_boxed_expression(s)[i] == (s[i].0, Box::new(expression_view(*s[i].1))),
    decreases s.len(),
{
    if s.len() > 0 {
        lemma_seq_view_token_boxed_expression(s.drop_last());
        assert forall|i: int| 0 <= i < s.len() implies #[trigger] seq_view_token_boxed_expression(s)[i] == (s[i].0, Box::new(expression_view(*s[i].1))) by {
            if i < s.len() - 1 {
                assert(s.drop_last()[i] == s[i]);
            }
        }
    }
}

/// An element in front of a list: its value in front of the values.
#[verifier::spinoff_prover]
pub proof fn lemma_seq_view_token_boxed_expression_cons(x: (Token, Box<Expression>), s: Seq<(Token, Box<Expression>)>)
    ensures
        seq_view_token_boxed_expression(seq![x] + s) == seq![(x.0, Box::new(expression_view(*x.1)))] + seq_view_token_boxed_expression(s),
{
    lemma_seq_view_token_boxed_expression(s);
    lemma_seq_view_token_boxed_expression(seq![x] + s);
    assert(seq_view_token_boxed_expression(seq![x] + s) =~= seq![(x.0, Box::new(expression_view(*x.1)))] + seq_view_token_boxed_expression(s)) by {
        assert forall|i: int| 0 <= i < s.len() implies (seq![x] + s)[i + 1] == s[i] by {}
    }
}


impl View for Program {
    type V = ProgramV;

    open spec fn view(&self) -> ProgramV {
        program_view(*self)
    }
}

impl View for ProgramHeader {
    type V = ProgramHeaderV;

    open spec fn view(&self) -> ProgramHeaderV {
        program_header_view(*self)
    }
}

impl View for DeclarationPart {
    type V = DeclarationPartV;

    open spec fn view(&self) -> DeclarationPartV {
        declaration_part_view(*self)
    }
}

impl View for ConstantDeclaration {
    type V = ConstantDeclarationV;

    open spec fn view(&self) -> ConstantDeclarationV {
        constant_declaration_view(*self)
    }
}

impl View for ConstantDefinition {
    type V = ConstantDefinitionV;

    open spec fn view(&self) -> ConstantDefinitionV {
        constant_definition_view(*self)
    }
}

impl View for TypeDeclaration {
    type V = TypeDeclarationV;

    open spec fn view(&self) -> TypeDeclarationV {
        type_declaration_view(*self)
    }
}

impl View for TypeDefinition {
    type V = TypeDefinitionV;

    open spec fn view(&self) -> TypeDefinitionV {
        type_definition_view(*self)
    }
}

impl View for VariableDeclaration {
    type V = VariableDeclarationV;

    open spec fn view(&self) -> VariableDeclarationV {
        variable_declaration_view(*self)
    }
}

impl View for VariableGroup {
    type V = VariableGroupV;

    open spec fn view(&self) -> VariableGroupV {
        variable_group_view(*self)
    }
}

impl View for IdentifierList {
    type V = IdentifierListV;

    open spec fn view(&self) -> IdentifierListV {
        identifier_list_view(*self)
    }
}

impl View for ProcedureDeclaration {
    type V = ProcedureDeclarationV;

    open spec fn view(&self) -> ProcedureDeclarationV {
        procedure_declaration_view(*self)
    }
}

impl View for FunctionDeclaration {
    type V = FunctionDeclarationV;

    open spec fn view(&self) -> FunctionDeclarationV {
        function_declaration_view(*self)
    }
}

impl View for FormalParameterList {
    type V = FormalParameterListV;

    open spec fn view(&self) -> FormalParameterListV {
        formal_parameter_list_view(*self)
    }
}

impl View for FormalParameterGroup {
    type V = FormalParameterGroupV;

    open spec fn view(&self) -> FormalParameterGroupV {
        formal_parameter_group_view(*self)
    }
}

impl View for ArrayType {
    type V = ArrayTypeV;

    open spec fn view(&self) -> ArrayTypeV {
        array_type_view(*self)
    }
}

impl View for Range {
    type V = RangeV;

    open spec fn view(&self) -> RangeV {
        range_view(*self)
    }
}

impl View for StatementList {
    type V = StatementListV;

    open spec fn view(&self) -> StatementListV {
        statement_list_view(*self)
    }
}

impl View for CompoundStatement {
    type V = CompoundStatementV;

    open spec fn view(&self) -> CompoundStatementV {
        compound_statement_view(*self)
    }
}

impl View for AssignmentStatement {
    type V = AssignmentStatementV;

    open spec fn view(&self) -> AssignmentStatementV {
        assignment_statement_view(*self)
    }
}

impl View for IfStatement {
    type V = IfStatementV;

    open spec fn view(&self) -> IfStatementV {
        if_statement_view(*self)
    }
}

impl View for ElseClause {
    type V = ElseClauseV;

    open spec fn view(&self) -> ElseClauseV {
        else_clause_view(*self)
    }
}

impl View for WhileStatement {
    type V = WhileStatementV;

    open spec fn view(&self) -> WhileStatementV {
        while_statement_view(*self)
    }
}

impl View for ForStatement {
    type V = ForStatementV;

    open spec fn view(&self) -> ForStatementV {
        for_statement_view(*self)
    }
}

impl View for ProcedureCallStatement {
    type V = ProcedureCallStatementV;

    open spec fn view(&self) -> ProcedureCallStatementV {
        procedure_call_statement_view(*self)
    }
}

impl View for RepeatStatement {
    type V = RepeatStatementV;

    open spec fn view(&self) -> RepeatStatementV {
        repeat_statement_view(*self)
    }
}

impl View for CaseStatement {
    type V = CaseStatementV;

    open spec fn view(&self) -> CaseStatementV {
        case_statement_view(*self)
    }
}

impl View for CaseBranch {
    type V = CaseBranchV;

    open spec fn view(&self) -> CaseBranchV {
        case_branch_view(*self)
    }
}

impl View for CaseLabelList {
    type V = CaseLabelListV;

    open spec fn view(&self) -> CaseLabelListV {
        case_label_list_view(*self)
    }
}

impl View for CaseElseClause {
    type V = CaseElseClauseV;

    open spec fn view(&self) -> CaseElseClauseV {
        case_else_clause_view(*self)
    }
}

impl View for Expression {
    type V = ExpressionV;

    open spec fn view(&self) -> ExpressionV {
        expression_view(*self)
    }
}

impl View for SimpleExpression {
    type V = SimpleExpressionV;

    open spec fn view(&self) -> SimpleExpressionV {
        simple_expression_view(*self)
    }
}

impl View for Term {
    type V = TermV;

    open spec fn view(&self) -> TermV {
        term_view(*self)
    }
}

impl View for ArithmeticUnaryFactor {
    type V = ArithmeticUnaryFactorV;

    open spec fn view(&self) -> ArithmeticUnaryFactorV {
        arithmetic_unary_factor_view(*self)
    }
}

impl View for LiteralValue {
    type V = LiteralValueV;

    open spec fn view(&self) -> LiteralValueV {
        literal_value_view(*self)
    }
}

impl View for FunctionCallNode {
    type V = FunctionCallNodeV;

    open spec fn view(&self) -> FunctionCallNodeV {
        function_call_node_view(*self)
    }
}

impl View for ActualParameterList {
    type V = ActualParameterListV;

    open spec fn view(&self) -> ActualParameterListV {
        actual_parameter_list_view(*self)
    }
}

impl View for ArrayAccess {
    type V = ArrayAccessV;

    open spec fn view(&self) -> ArrayAccessV {
        array_access_view(*self)
    }
}

impl View for ParenthesizedExpression {
    type V = ParenthesizedExpressionV;

    open spec fn view(&self) -> ParenthesizedExpressionV {
        parenthesized_expression_view(*self)
    }
}

impl View for NotFactor {
    type V = NotFactorV;

    open spec fn view(&self) -> NotFactorV {
        not_factor_view(*self)
    }
}

impl View for SubprogramDeclaration {
    type V = SubprogramDeclarationV;

    open spec fn view(&self) -> SubprogramDeclarationV {
        subprogram_declaration_view(*self)
    }
}

impl View for Type {
    type V = TypeV;

    open spec fn view(&self) -> TypeV {
        type_view(*self)
    }
}

impl View for Statement {
    type V = StatementV;

    open spec fn view(&self) -> StatementV {
        statement_view(*self)
    }
}

impl View for Factor {
    type V = FactorV;

    open spec fn view(&self) -> FactorV {
        factor_view(*self)
    }
}

} // verus!
