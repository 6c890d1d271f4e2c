//! The abstract syntax tree that the analyzer checks and annotates.
use vstd::prelude::*;
use crate::text::{str_eq, string_of};

verus! {

/// What the analyzer learns about an expression: its type, the identifier
/// it names, and whether it is constant.
#[derive(Debug)]
pub struct SemanticData {
    pub type_kind: Option<TypeKind>,
    pub tab_index: Option<usize>,
    pub is_const: bool,
}

impl SemanticData {
    /// Nothing known yet.
    pub fn new() -> (r: SemanticData)
        ensures
            r == (SemanticData { type_kind: None, tab_index: None, is_const: false }),
    {
        SemanticData { type_kind: None, tab_index: None, is_const: false }
    }
}

/// A whole program.
#[derive(Debug)]
pub struct ProgramAST {
    pub name: String,
    pub declarations: Vec<Decl>,
    pub main_body: BlockStmt,
}

/// A declaration, with the position it was declared at.
#[derive(Debug)]
pub enum Decl {
    Constant { name: String, value: Expr, line: usize, column: usize },
    Type { name: String, wrapped_type: TypeKind, line: usize, column: usize },
    Variable { name: Vec<String>, type_kind: TypeKind, line: usize, column: usize },
    Procedure { name: String, params: Vec<Param>, local_decls: Vec<Decl>, body: BlockStmt, line: usize, column: usize },
    Function {
        name: String,
        params: Vec<Param>,
        return_type: TypeKind,
        local_decls: Vec<Decl>,
        body: BlockStmt,
        line: usize,
        column: usize,
    },
}

/// A group of formal parameters of one type; `is_var` marks parameters
/// passed by reference.
#[derive(Debug)]
pub struct Param {
    pub names: Vec<String>,
    pub type_kind: TypeKind,
    pub is_var: bool,
}

/// A type as written or as the analyzer computes it.
#[derive(Debug)]
pub enum TypeKind {
    Integer,
    Real,
    Boolean,
    Char,
    String,
    Void,
    Custom(String),
    Subrange(Box<Expr>, Box<Expr>),
    Array { index_range: Box<TypeKind>, element_type: Box<TypeKind> },
}

/// A statement, with the position of the token that starts it.
#[derive(Debug)]
pub enum Stmt {
    Assignment { target: Expr, value: Expr, line: usize, column: usize },
    ProcedureCall { name: String, args: Vec<Expr>, line: usize, column: usize },
    If { condition: Expr, then_branch: Box<Stmt>, else_branch: Option<Box<Stmt>>, line: usize, column: usize },
    While { condition: Expr, body: Box<Stmt>, line: usize, column: usize },
    For {
        iterator: String,
        start: Expr,
        end: Expr,
        direction: ForDirection,
        body: Box<Stmt>,
        line: usize,
        column: usize,
    },
    Repeat { body: Vec<Stmt>, condition: Expr, line: usize, column: usize },
    Case { operand: Expr, branches: Vec<CaseBranch>, else_branch: Option<Vec<Stmt>>, line: usize, column: usize },
    Compound(BlockStmt),
}

/// A sequence of statements.
#[derive(Debug)]
pub struct BlockStmt {
    pub statements: Vec<Stmt>,
}

/// One branch of a case statement.
#[derive(Debug)]
pub struct CaseBranch {
    pub labels: Vec<Expr>,
    pub stmt: Stmt,
}

/// The direction of a for loop.
#[derive(Debug, Clone, Copy, PartialEq, Eq, Structural)]
pub enum ForDirection {
    To,
    Downto,
}

/// An expression with its annotation and position.
#[derive(Debug)]
pub struct Expr {
    pub kind: ExprKind,
    pub annotation: SemanticData,
    pub line: usize,
    pub column: usize,
}

/// The forms of expressions. A real literal keeps the text it was written
/// with.
#[derive(Debug)]
pub enum ExprKind {
    Binary { left: Box<Expr>, op: BinOp, right: Box<Expr> },
    Unary { op: UnOp, operand: Box<Expr> },
    LiteralInt(i32),
    LiteralReal(String),
    LiteralString(String),
    LiteralChar(char),
    LiteralBool(bool),
    Variable(String),
    ArrayAccess { array: Box<Expr>, index: Box<Expr> },
    FunctionCall { name: String, args: Vec<Expr> },
}

impl Expr {
    /// An expression of form `kind` at a position, not yet annotated.
    pub fn new(kind: ExprKind, line: usize, column: usize) -> (r: Expr)
        ensures
            r == (Expr { kind, annotation: SemanticData { type_kind: None, tab_index: None, is_const: false }, line, column }),
    {
        Expr { kind, annotation: SemanticData::new(), line, column }
    }
}

/// Binary operators.
#[derive(Debug, Clone, Copy, PartialEq, Eq, Structural)]
pub enum BinOp {
    Add,
    Sub,
    Mul,
    DivReal,
    DivInt,
    Mod,
    And,
    Or,
    Eq,
    Neq,
    Lt,
    Gt,
    Lte,
    Gte,
}

/// Unary operators.
#[derive(Debug, Clone, Copy, PartialEq, Eq, Structural)]
pub enum UnOp {
    Plus,
    Neg,
    Not,
}

/// The name of a binary operator, as its `Debug` form writes it.
pub open spec fn bin_op_name(op: BinOp) -> Seq<char> {
    match op {
        BinOp::Add => "Add"@,
        BinOp::Sub => "Sub"@,
        BinOp::Mul => "Mul"@,
        BinOp::DivReal => "DivReal"@,
        BinOp::DivInt => "DivInt"@,
        BinOp::Mod => "Mod"@,
        BinOp::And => "And"@,
        BinOp::Or => "Or"@,
        BinOp::Eq => "Eq"@,
        BinOp::Neq => "Neq"@,
        BinOp::Lt => "Lt"@,
        BinOp::Gt => "Gt"@,
        BinOp::Lte => "Lte"@,
        BinOp::Gte => "Gte"@,
    }
}

/// The name of a unary operator, as its `Debug` form writes it.
pub open spec fn un_op_name(op: UnOp) -> Seq<char> {
    match op {
        UnOp::Plus => "Plus"@,
        UnOp::Neg => "Neg"@,
        UnOp::Not => "Not"@,
    }
}

impl BinOp {
    /// The operator's name, as its `Debug` form writes it.
    pub fn name(&self) -> (r: String)
        ensures
            r@ == bin_op_name(*self),
    {
        match self {
            BinOp::Add => string_of("Add"),
            BinOp::Sub => string_of("Sub"),
            BinOp::Mul => string_of("Mul"),
            BinOp::DivReal => string_of("DivReal"),
            BinOp::DivInt => string_of("DivInt"),
            BinOp::Mod => string_of("Mod"),
            BinOp::And => string_of("And"),
            BinOp::Or => string_of("Or"),
            BinOp::Eq => string_of("Eq"),
            BinOp::Neq => string_of("Neq"),
            BinOp::Lt => string_of("Lt"),
            BinOp::Gt => string_of("Gt"),
            BinOp::Lte => string_of("Lte"),
            BinOp::Gte => string_of("Gte"),
        }
    }
}

impl UnOp {
    /// The operator's name, as its `Debug` form writes it.
    pub fn name(&self) -> (r: String)
        ensures
            r@ == un_op_name(*self),
    {
        match self {
            UnOp::Plus => string_of("Plus"),
            UnOp::Neg => string_of("Neg"),
            UnOp::Not => string_of("Not"),
        }
    }
}

/// The display form of a type: `Integer`, `Custom(T)`, `Array of Integer`
/// and so on.
pub open spec fn type_display(t: TypeKindV) -> Seq<char>
    decreases t,
{
    match t {
        TypeKindV::Integer => "Integer"@,
        TypeKindV::Real => "Real"@,
        TypeKindV::Boolean => "Boolean"@,
        TypeKindV::Char => "Char"@,
        TypeKindV::String => "String"@,
        TypeKindV::Void => "Void"@,
        TypeKindV::Custom(s) => "Custom("@ + s + ")"@,
        TypeKindV::Subrange(_, _) => "Subrange"@,
        TypeKindV::Array { element_type, .. } => "Array of "@ + type_display(*element_type),
    }
}

impl TypeKind {
    /// The display form of this type.
    pub fn to_string(&self) -> (r: String)
        ensures
            r@ == type_display(self@),
        decreases self,
    {
        match self {
            TypeKind::Integer => string_of("Integer"),
            TypeKind::Real => string_of("Real"),
            TypeKind::Boolean => string_of("Boolean"),
            TypeKind::Char => string_of("Char"),
            TypeKind::String => string_of("String"),
            TypeKind::Void => string_of("Void"),
            TypeKind::Custom(s) => {
                let mut r = string_of("Custom(");
                r.append(s.as_str());
                r.append(")");
                r
            },
            TypeKind::Subrange(_, _) => string_of("Subrange"),
            TypeKind::Array { element_type, .. } => {
                let mut r = string_of("Array of ");
                let inner = element_type.to_string();
                r.append(inner.as_str());
                r
            },
        }
    }
}

/// A type as a value: texts as character sequences.
pub enum TypeKindV {
    Integer,
    Real,
    Boolean,
    Char,
    String,
    Void,
    Custom(Seq<char>),
    Subrange(Box<ExprV>, Box<ExprV>),
    Array { index_range: Box<TypeKindV>, element_type: Box<TypeKindV> },
}

/// An annotation as a value.
pub struct SemanticDataV {
    pub type_kind: Option<TypeKindV>,
    pub tab_index: Option<usize>,
    pub is_const: bool,
}

/// An expression as a value.
pub struct ExprV {
    pub kind: ExprKindV,
    pub annotation: SemanticDataV,
    pub line: nat,
    pub column: nat,
}

/// An expression form as a value.
pub enum ExprKindV {
    Binary { left: Box<ExprV>, op: BinOp, right: Box<ExprV> },
    Unary { op: UnOp, operand: Box<ExprV> },
    LiteralInt(i32),
    LiteralReal(Seq<char>),
    LiteralString(Seq<char>),
    LiteralChar(char),
    LiteralBool(bool),
    Variable(Seq<char>),
    ArrayAccess { array: Box<ExprV>, index: Box<ExprV> },
    FunctionCall { name: Seq<char>, args: Seq<ExprV> },
}

/// The values of a list of expressions.
pub open spec fn exprs_view(s: Seq<Expr>) -> Seq<ExprV>
    decreases s,
{
    if s.len() == 0 {
        Seq::empty()
    } else {
        exprs_view(s.drop_last()).push(expr_view(s.last()))
    }
}

/// The value of a type.
pub open spec fn type_view(t: TypeKind) -> TypeKindV
    decreases t,
{
    match t {
        TypeKind::Integer => TypeKindV::Integer,
        TypeKind::Real => TypeKindV::Real,
        TypeKind::Boolean => TypeKindV::Boolean,
        TypeKind::Char => TypeKindV::Char,
        TypeKind::String => TypeKindV::String,
        TypeKind::Void => TypeKindV::Void,
        TypeKind::Custom(s) => TypeKindV::Custom(s@),
        TypeKind::Subrange(l, h) => TypeKindV::Subrange(Box::new(expr_view(*l)), Box::new(expr_view(*h))),
        TypeKind::Array { index_range, element_type } => TypeKindV::Array {
            index_range: Box::new(type_view(*index_range)),
            element_type: Box::new(type_view(*element_type)),
        },
    }
}

/// The value of an annotation.
pub open spec fn data_view(d: SemanticData) -> SemanticDataV
    decreases d,
{
    SemanticDataV {
        type_kind: match d.type_kind {
            Some(t) => Some(type_view(t)),
            None => None,
        },
        tab_index: d.tab_index,
        is_const: d.is_const,
    }
}

/// The value of an expression.
pub open spec fn expr_view(e: Expr) -> ExprV
    decreases e,
{
    ExprV { kind: kind_view(e.kind), annotation: data_view(e.annotation), line: e.line as nat, column: e.column as nat }
}

/// The value of an expression form.
pub open spec fn kind_view(k: ExprKind) -> ExprKindV
    decreases k,
{
    match k {
        ExprKind::Binary { left, op, right } => ExprKindV::Binary {
            left: Box::new(expr_view(*left)),
            op,
            right: Box::new(expr_view(*right)),
        },
        ExprKind::Unary { op, operand } => ExprKindV::Unary { op, operand: Box::new(expr_view(*operand)) },
        ExprKind::LiteralInt(v) => ExprKindV::LiteralInt(v),
        ExprKind::LiteralReal(s) => ExprKindV::LiteralReal(s@),
        ExprKind::LiteralString(s) => ExprKindV::LiteralString(s@),
        ExprKind::LiteralChar(c) => ExprKindV::LiteralChar(c),
        ExprKind::LiteralBool(b) => ExprKindV::LiteralBool(b),
        ExprKind::Variable(s) => ExprKindV::Variable(s@),
        ExprKind::ArrayAccess { array, index } => ExprKindV::ArrayAccess {
            array: Box::new(expr_view(*array)),
            index: Box::new(expr_view(*index)),
        },
        ExprKind::FunctionCall { name, args } => ExprKindV::FunctionCall { name: name@, args: exprs_view(args@) },
    }
}

impl View for TypeKind {
    type V = TypeKindV;

    open spec fn view(&self) -> TypeKindV {
        type_view(*self)
    }
}

impl View for SemanticData {
    type V = SemanticDataV;

    open spec fn view(&self) -> SemanticDataV {
        data_view(*self)
    }
}

impl View for Expr {
    type V = ExprV;

    open spec fn view(&self) -> ExprV {
        expr_view(*self)
    }
}

impl View for ExprKind {
    type V = ExprKindV;

    open spec fn view(&self) -> ExprKindV {
        kind_view(*self)
    }
}

/// The list of views is as long as the list.
pub proof fn lemma_exprs_view(s: Seq<Expr>)
    ensures
        exprs_view(s).len() == s.len(),
        forall|i: int| 0 <= i < s.len() ==> #[trigger] exprs_view(s)[i] == expr_view(s[i]),
    decreases s.len(),
{
    if s.len() > 0 {
        lemma_exprs_view(s.drop_last());
        assert forall|i: int| 0 <= i < s.len() implies #[trigger] exprs_view(s)[i] == expr_view(s[i]) by {
            if i < s.len() - 1 {
                assert(s.drop_last()[i] == s[i]);
            }
        }
    }
}

impl SemanticData {
    /// A copy of this annotation.
    pub fn duplicate(&self) -> (r: SemanticData)
        ensures
            r@ == self@,
        decreases self,
    {
        let type_kind = match &self.type_kind {
            Some(t) => Some(t.duplicate()),
            None => None,
        };
        SemanticData { type_kind, tab_index: self.tab_index, is_const: self.is_const }
    }
}

impl TypeKind {
    /// A copy of this type.
    pub fn duplicate(&self) -> (r: TypeKind)
        ensures
            r@ == self@,
        decreases self,
    {
        match self {
            TypeKind::Integer => TypeKind::Integer,
            TypeKind::Real => TypeKind::Real,
            TypeKind::Boolean => TypeKind::Boolean,
            TypeKind::Char => TypeKind::Char,
            TypeKind::String => TypeKind::String,
            TypeKind::Void => TypeKind::Void,
            TypeKind::Custom(s) => TypeKind::Custom(s.clone()),
            TypeKind::Subrange(l, h) => TypeKind::Subrange(Box::new(l.duplicate()), Box::new(h.duplicate())),
            TypeKind::Array { index_range, element_type } => TypeKind::Array {
                index_range: Box::new(index_range.duplicate()),
                element_type: Box::new(element_type.duplicate()),
            },
        }
    }
}

impl Expr {
    /// A copy of this expression.
    pub fn duplicate(&self) -> (r: Expr)
        ensures
            r@ == self@,
        decreases self,
    {
        Expr { kind: self.kind.duplicate(), annotation: self.annotation.duplicate(), line: self.line, column: self.column }
    }
}

/// A copy of a list of expressions.
pub fn duplicate_exprs(v: &Vec<Expr>) -> (r: Vec<Expr>)
    ensures
        exprs_view(r@) == exprs_view(v@),
    decreases v,
{
    let mut out: Vec<Expr> = Vec::new();
    let mut i: usize = 0;
    while i < v.len()
        invariant
            i <= v@.len(),
            exprs_view(out@) == exprs_view(v@.take(i as int)),
            out@.len() == i,
        decreases v@.len() - i,
    {
        proof { broadcast use vstd::std_specs::vec::axiom_vec_index_decreases; }
        let e = v[i].duplicate();
        let ghost old_out = out@;
        out.push(e);
        proof {
            assert(out@.drop_last() =~= old_out);
            assert(v@.take(i + 1).drop_last() =~= v@.take(i as int));
        }
        i += 1;
    }
    proof { assert(v@.take(v@.len() as int) =~= v@); }
    out
}

impl ExprKind {
    /// A copy of this expression form.
    pub fn duplicate(&self) -> (r: ExprKind)
        ensures
            r@ == self@,
        decreases self,
    {
        match self {
            ExprKind::Binary { left, op, right } => ExprKind::Binary {
                left: Box::new(left.duplicate()),
                op: *op,
                right: Box::new(right.duplicate()),
            },
            ExprKind::Unary { op, operand } => ExprKind::Unary { op: *op, operand: Box::new(operand.duplicate()) },
            ExprKind::LiteralInt(v) => ExprKind::LiteralInt(*v),
            ExprKind::LiteralReal(s) => ExprKind::LiteralReal(s.clone()),
            ExprKind::LiteralString(s) => ExprKind::LiteralString(s.clone()),
            ExprKind::LiteralChar(c) => ExprKind::LiteralChar(*c),
            ExprKind::LiteralBool(b) => ExprKind::LiteralBool(*b),
            ExprKind::Variable(s) => ExprKind::Variable(s.clone()),
            ExprKind::ArrayAccess { array, index } => ExprKind::ArrayAccess {
                array: Box::new(array.duplicate()),
                index: Box::new(index.duplicate()),
            },
            ExprKind::FunctionCall { name, args } => ExprKind::FunctionCall { name: name.clone(), args: duplicate_exprs(args) },
        }
    }
}

/// Whether two types are equal, as their derived `==` decides.
pub fn type_kind_eq(a: &TypeKind, b: &TypeKind) -> (r: bool)
    ensures
        r == (a@ == b@),
    decreases a,
{
    match (a, b) {
        (TypeKind::Integer, TypeKind::Integer) => true,
        (TypeKind::Real, TypeKind::Real) => true,
        (TypeKind::Boolean, TypeKind::Boolean) => true,
        (TypeKind::Char, TypeKind::Char) => true,
        (TypeKind::String, TypeKind::String) => true,
        (TypeKind::Void, TypeKind::Void) => true,
        (TypeKind::Custom(x), TypeKind::Custom(y)) => str_eq(x.as_str(), y.as_str()),
        (TypeKind::Subrange(l1, h1), TypeKind::Subrange(l2, h2)) => expr_equal(l1, l2) && expr_equal(h1, h2),
        (TypeKind::Array { index_range: i1, element_type: e1 }, TypeKind::Array { index_range: i2, element_type: e2 }) =>
            type_kind_eq(i1, i2) && type_kind_eq(e1, e2),
        _ => false,
    }
}

/// Whether two expressions are equal, as their derived `==` decides.
pub fn expr_equal(a: &Expr, b: &Expr) -> (r: bool)
    ensures
        r == (a@ == b@),
    decreases a,
{
    expr_kind_equal(&a.kind, &b.kind) && data_equal(&a.annotation, &b.annotation) && a.line == b.line
        && a.column == b.column
}

/// Whether two annotations are equal.
pub fn data_equal(a: &SemanticData, b: &SemanticData) -> (r: bool)
    ensures
        r == (a@ == b@),
    decreases a,
{
    let t = match (&a.type_kind, &b.type_kind) {
        (Some(x), Some(y)) => type_kind_eq(x, y),
        (None, None) => true,
        _ => false,
    };
    t && a.tab_index == b.tab_index && a.is_const == b.is_const
}

/// Whether two lists of expressions are equal.
pub fn exprs_equal(a: &Vec<Expr>, b: &Vec<Expr>) -> (r: bool)
    ensures
        r == (exprs_view(a@) == exprs_view(b@)),
    decreases a,
{
    proof {
        lemma_exprs_view(a@);
        lemma_exprs_view(b@);
    }
    if a.len() != b.len() {
        return false;
    }
    let mut i: usize = 0;
    while i < a.len()
        invariant
            i <= a@.len(),
            a@.len() == b@.len(),
            exprs_view(a@).len() == a@.len(),
            exprs_view(b@).len() == b@.len(),
            forall|j: int| 0 <= j < a@.len() ==> #[trigger] exprs_view(a@)[j] == expr_view(a@[j]),
            forall|j: int| 0 <= j < b@.len() ==> #[trigger] exprs_view(b@)[j] == expr_view(b@[j]),
            forall|j: int| 0 <= j < i ==> expr_view(a@[j]) == expr_view(b@[j]),
        decreases a@.len() - i,
    {
        proof { broadcast use vstd::std_specs::vec::axiom_vec_index_decreases; }
        if !expr_equal(&a[i], &b[i]) {
            proof { assert(exprs_view(a@)[i as int] != exprs_view(b@)[i as int]); }
            return false;
        }
        i += 1;
    }
    proof { assert(exprs_view(a@) =~= exprs_view(b@)); }
    true
}

/// Whether two expression forms are equal.
pub fn expr_kind_equal(a: &ExprKind, b: &ExprKind) -> (r: bool)
    ensures
        r == (a@ == b@),
    decreases a,
{
    match (a, b) {
        (ExprKind::Binary { left: l1, op: o1, right: r1 }, ExprKind::Binary { left: l2, op: o2, right: r2 }) =>
            *o1 == *o2 && expr_equal(l1, l2) && expr_equal(r1, r2),
        (ExprKind::Unary { op: o1, operand: x1 }, ExprKind::Unary { op: o2, operand: x2 }) =>
            *o1 == *o2 && expr_equal(x1, x2),
        (ExprKind::LiteralInt(x), ExprKind::LiteralInt(y)) => *x == *y,
        (ExprKind::LiteralReal(x), ExprKind::LiteralReal(y)) => str_eq(x.as_str(), y.as_str()),
        (ExprKind::LiteralString(x), ExprKind::LiteralString(y)) => str_eq(x.as_str(), y.as_str()),
        (ExprKind::LiteralChar(x), ExprKind::LiteralChar(y)) => *x == *y,
        (ExprKind::LiteralBool(x), ExprKind::LiteralBool(y)) => *x == *y,
        (ExprKind::Variable(x), ExprKind::Variable(y)) => str_eq(x.as_str(), y.as_str()),
        (ExprKind::ArrayAccess { array: a1, index: i1 }, ExprKind::ArrayAccess { array: a2, index: i2 }) =>
            expr_equal(a1, a2) && expr_equal(i1, i2),
        (ExprKind::FunctionCall { name: n1, args: x1 }, ExprKind::FunctionCall { name: n2, args: x2 }) =>
            str_eq(n1.as_str(), n2.as_str()) && exprs_equal(x1, x2),
        _ => false,
    }
}

/// A statement as a value.
pub enum StmtV {
    Assignment { target: ExprV, value: ExprV, line: nat, column: nat },
    ProcedureCall { name: Seq<char>, args: Seq<ExprV>, line: nat, column: nat },
    If { condition: ExprV, then_branch: Box<StmtV>, else_branch: Option<Box<StmtV>>, line: nat, column: nat },
    While { condition: ExprV, body: Box<StmtV>, line: nat, column: nat },
    For {
        iterator: Seq<char>,
        start: ExprV,
        end: ExprV,
        direction: ForDirection,
        body: Box<StmtV>,
        line: nat,
        column: nat,
    },
    Repeat { body: Seq<StmtV>, condition: ExprV, line: nat, column: nat },
    Case { operand: ExprV, branches: Seq<CaseBranchV>, else_branch: Option<Seq<StmtV>>, line: nat, column: nat },
    Compound(Seq<StmtV>),
}

/// A case branch as a value.
pub struct CaseBranchV {
    pub labels: Seq<ExprV>,
    pub stmt: StmtV,
}

/// The value of a statement.
pub open spec fn stmt_view(s: Stmt) -> StmtV
    decreases s,
{
    match s {
        Stmt::Assignment { target, value, line, column } => StmtV::Assignment {
            target: expr_view(target),
            value: expr_view(value),
            line: line as nat,
            column: column as nat,
        },
        Stmt::ProcedureCall { name, args, line, column } => StmtV::ProcedureCall {
            name: name@,
            args: exprs_view(args@),
            line: line as nat,
            column: column as nat,
        },
        Stmt::If { condition, then_branch, else_branch, line, column } => StmtV::If {
            condition: expr_view(condition),
            then_branch: Box::new(stmt_view(*then_branch)),
            else_branch: match else_branch {
                Some(b) => Some(Box::new(stmt_view(*b))),
                None => None,
            },
            line: line as nat,
            column: column as nat,
        },
        Stmt::While { condition, body, line, column } => StmtV::While {
            condition: expr_view(condition),
            body: Box::new(stmt_view(*body)),
            line: line as nat,
            column: column as nat,
        },
        Stmt::For { iterator, start, end, direction, body, line, column } => StmtV::For {
            iterator: iterator@,
            start: expr_view(start),
            end: expr_view(end),
            direction,
            body: Box::new(stmt_view(*body)),
            line: line as nat,
            column: column as nat,
        },
        Stmt::Repeat { body, condition, line, column } => StmtV::Repeat {
            body: stmts_view(body@),
            condition: expr_view(condition),
            line: line as nat,
            column: column as nat,
        },
        Stmt::Case { operand, branches, else_branch, line, column } => StmtV::Case {
            operand: expr_view(operand),
            branches: branches_view(branches@),
            else_branch: match else_branch {
                Some(v) => Some(stmts_view(v@)),
                None => None,
            },
            line: line as nat,
            column: column as nat,
        },
        Stmt::Compound(b) => StmtV::Compound(stmts_view(b.statements@)),
    }
}

/// The values of a list of statements.
pub open spec fn stmts_view(s: Seq<Stmt>) -> Seq<StmtV>
    decreases s,
{
    if s.len() == 0 {
        Seq::empty()
    } else {
        stmts_view(s.drop_last()).push(stmt_view(s.last()))
    }
}

/// The values of a list of case branches.
pub open spec fn branches_view(s: Seq<CaseBranch>) -> Seq<CaseBranchV>
    decreases s,
{
    if s.len() == 0 {
        Seq::empty()
    } else {
        let b = s.last();
        branches_view(s.drop_last()).push(CaseBranchV { labels: exprs_view(b.labels@), stmt: stmt_view(b.stmt) })
    }
}

impl View for Stmt {
    type V = StmtV;

    open spec fn view(&self) -> StmtV {
        stmt_view(*self)
    }
}

/// The list of statement values is as long as the list.
pub proof fn lemma_stmts_view(s: Seq<Stmt>)
    ensures
        stmts_view(s).len() == s.len(),
        forall|i: int| 0 <= i < s.len() ==> #[trigger] stmts_view(s)[i] == stmt_view(s[i]),
    decreases s.len(),
{
    if s.len() > 0 {
        lemma_stmts_view(s.drop_last());
        assert forall|i: int| 0 <= i < s.len() implies #[trigger] stmts_view(s)[i] == stmt_view(s[i]) by {
            if i < s.len() - 1 {
                assert(s.drop_last()[i] == s[i]);
            }
        }
    }
}

/// The list of branch values is as long as the list.
pub proof fn lemma_branches_view(s: Seq<CaseBranch>)
    ensures
        branches_view(s).len() == s.len(),
        forall|i: int| 0 <= i < s.len() ==> #[trigger] branches_view(s)[i]
            == (CaseBranchV { labels: exprs_view(s[i].labels@), stmt: stmt_view(s[i].stmt) }),
    decreases s.len(),
{
    if s.len() > 0 {
        lemma_branches_view(s.drop_last());
        assert forall|i: int| 0 <= i < s.len() implies #[trigger] branches_view(s)[i]
            == (CaseBranchV { labels: exprs_view(s[i].labels@), stmt: stmt_view(s[i].stmt) }) by {
            if i < s.len() - 1 {
                assert(s.drop_last()[i] == s[i]);
            }
        }
    }
}

/// Taking the first expression off a list takes its value off the values.
pub proof fn lemma_exprs_view_drop_first(s: Seq<Expr>)
    requires
        s.len() > 0,
    ensures
        exprs_view(s.drop_first()) == exprs_view(s).drop_first(),
        exprs_view(s)[0] == expr_view(s[0]),
{
    lemma_exprs_view(s);
    lemma_exprs_view(s.drop_first());
    assert(exprs_view(s.drop_first()) =~= exprs_view(s).drop_first());
}

/// The values of two lists one after the other.
pub proof fn lemma_exprs_view_concat(a: Seq<Expr>, b: Seq<Expr>)
    ensures
        exprs_view(a + b) == exprs_view(a) + exprs_view(b),
{
    lemma_exprs_view(a);
    lemma_exprs_view(b);
    lemma_exprs_view(a + b);
    assert(exprs_view(a + b) =~= exprs_view(a) + exprs_view(b));
}

/// Taking the first statement off a list takes its value off the values.
pub proof fn lemma_stmts_view_drop_first(s: Seq<Stmt>)
    requires
        s.len() > 0,
    ensures
        stmts_view(s.drop_first()) == stmts_view(s).drop_first(),
        stmts_view(s)[0] == stmt_view(s[0]),
{
    lemma_stmts_view(s);
    lemma_stmts_view(s.drop_first());
    assert(stmts_view(s.drop_first()) =~= stmts_view(s).drop_first());
}

/// The values of two statement lists one after the other.
pub proof fn lemma_stmts_view_concat(a: Seq<Stmt>, b: Seq<Stmt>)
    ensures
        stmts_view(a + b) == stmts_view(a) + stmts_view(b),
{
    lemma_stmts_view(a);
    lemma_stmts_view(b);
    lemma_stmts_view(a + b);
    assert(stmts_view(a + b) =~= stmts_view(a) + stmts_view(b));
}

/// Taking the first branch off a list takes its value off the values.
pub proof fn lemma_branches_view_drop_first(s: Seq<CaseBranch>)
    requires
        s.len() > 0,
    ensures
        branches_view(s.drop_first()) == branches_view(s).drop_first(),
        branches_view(s)[0] == (CaseBranchV { labels: exprs_view(s[0].labels@), stmt: stmt_view(s[0].stmt) }),
{
    lemma_branches_view(s);
    lemma_branches_view(s.drop_first());
    assert(branches_view(s.drop_first()) =~= branches_view(s).drop_first());
}

/// The values of two branch lists one after the other.
pub proof fn lemma_branches_view_concat(a: Seq<CaseBranch>, b: Seq<CaseBranch>)
    ensures
        branches_view(a + b) == branches_view(a) + branches_view(b),
{
    lemma_branches_view(a);
    lemma_branches_view(b);
    lemma_branches_view(a + b);
    assert(branches_view(a + b) =~= branches_view(a) + branches_view(b));
}

/// A formal parameter group as a value.
pub struct ParamV {
    pub names: Seq<Seq<char>>,
    pub type_kind: TypeKindV,
    pub is_var: bool,
}

/// A declaration as a value.
pub enum DeclV {
    Constant { name: Seq<char>, value: ExprV, line: nat, column: nat },
    Type { name: Seq<char>, wrapped_type: TypeKindV, line: nat, column: nat },
    Variable { name: Seq<Seq<char>>, type_kind: TypeKindV, line: nat, column: nat },
    Procedure { name: Seq<char>, params: Seq<ParamV>, local_decls: Seq<DeclV>, body: Seq<StmtV>, line: nat, column: nat },
    Function {
        name: Seq<char>,
        params: Seq<ParamV>,
        return_type: TypeKindV,
        local_decls: Seq<DeclV>,
        body: Seq<StmtV>,
        line: nat,
        column: nat,
    },
}

/// A whole program as a value.
pub struct ProgramV {
    pub name: Seq<char>,
    pub declarations: Seq<DeclV>,
    pub main_body: Seq<StmtV>,
}

/// The texts of a list of strings.
pub open spec fn names_view(v: Seq<String>) -> Seq<Seq<char>> {
    v.map_values(|s: String| s@)
}

/// The value of a parameter group.
pub open spec fn param_view(p: Param) -> ParamV {
    ParamV { names: names_view(p.names@), type_kind: p.type_kind@, is_var: p.is_var }
}

/// The values of a list of parameter groups.
pub open spec fn params_view(v: Seq<Param>) -> Seq<ParamV> {
    v.map_values(|p: Param| param_view(p))
}

/// The value of a declaration.
pub open spec fn decl_view(d: Decl) -> DeclV
    decreases d,
{
    match d {
        Decl::Constant { name, value, line, column } => DeclV::Constant {
            name: name@,
            value: expr_view(value),
            line: line as nat,
            column: column as nat,
        },
        Decl::Type { name, wrapped_type, line, column } => DeclV::Type {
            name: name@,
            wrapped_type: type_view(wrapped_type),
            line: line as nat,
            column: column as nat,
        },
        Decl::Variable { name, type_kind, line, column } => DeclV::Variable {
            name: names_view(name@),
            type_kind: type_view(type_kind),
            line: line as nat,
            column: column as nat,
        },
        Decl::Procedure { name, params, local_decls, body, line, column } => DeclV::Procedure {
            name: name@,
            params: params_view(params@),
            local_decls: decls_view(local_decls@),
            body: stmts_view(body.statements@),
            line: line as nat,
            column: column as nat,
        },
        Decl::Function { name, params, return_type, local_decls, body, line, column } => DeclV::Function {
            name: name@,
            params: params_view(params@),
            return_type: type_view(return_type),
            local_decls: decls_view(local_decls@),
            body: stmts_view(body.statements@),
            line: line as nat,
            column: column as nat,
        },
    }
}

/// The values of a list of declarations.
pub open spec fn decls_view(s: Seq<Decl>) -> Seq<DeclV>
    decreases s,
{
    if s.len() == 0 {
        Seq::empty()
    } else {
        decls_view(s.drop_last()).push(decl_view(s.last()))
    }
}

impl View for Decl {
    type V = DeclV;

    open spec fn view(&self) -> DeclV {
        decl_view(*self)
    }
}

impl View for ProgramAST {
    type V = ProgramV;

    open spec fn view(&self) -> ProgramV {
        ProgramV {
            name: self.name@,
            declarations: decls_view(self.declarations@),
            main_body: stmts_view(self.main_body.statements@),
        }
    }
}

/// The list of declaration values is as long as the list.
pub proof fn lemma_decls_view(s: Seq<Decl>)
    ensures
        decls_view(s).len() == s.len(),
        forall|i: int| 0 <= i < s.len() ==> #[trigger] decls_view(s)[i] == decl_view(s[i]),
    decreases s.len(),
{
    if s.len() > 0 {
        lemma_decls_view(s.drop_last());
        assert forall|i: int| 0 <= i < s.len() implies #[trigger] decls_view(s)[i] == decl_view(s[i]) by {
            if i < s.len() - 1 {
                assert(s.drop_last()[i] == s[i]);
            }
        }
    }
}

/// Taking the first declaration off a list takes its value off the values.
pub proof fn lemma_decls_view_drop_first(s: Seq<Decl>)
    requires
        s.len() > 0,
    ensures
        decls_view(s.drop_first()) == decls_view(s).drop_first(),
        decls_view(s)[0] == decl_view(s[0]),
{
    lemma_decls_view(s);
    lemma_decls_view(s.drop_first());
    assert(decls_view(s.drop_first()) =~= decls_view(s).drop_first());
}

/// The values of two declaration lists one after the other.
pub proof fn lemma_decls_view_concat(a: Seq<Decl>, b: Seq<Decl>)
    ensures
        decls_view(a + b) == decls_view(a) + decls_view(b),
{
    lemma_decls_view(a);
    lemma_decls_view(b);
    lemma_decls_view(a + b);
    assert(decls_view(a + b) =~= decls_view(a) + decls_view(b));
}

} // verus!
