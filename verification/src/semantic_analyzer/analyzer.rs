//! The semantic analyzer: fills the symbol tables from the declarations,
//! checks the types of expressions and statements, annotates expressions
//! with their types and identifiers, and collects errors.
use vstd::prelude::*;
use vstd::pervasive::VecAdditionalExecFns;
use crate::semantic_analyzer::ast::ast::{
    BinOp, BlockStmt, CaseBranch, Decl, DeclV, Param, ParamV, ProgramAST, ProgramV, decls_view, params_view, param_view,
    names_view, lemma_decls_view, lemma_decls_view_drop_first, lemma_decls_view_concat, CaseBranchV, Expr, ExprKind, ExprKindV, ExprV, SemanticData, SemanticDataV, Stmt, StmtV, TypeKind,
    TypeKindV, UnOp, bin_op_name, branches_view, stmts_view, lemma_stmts_view, lemma_stmts_view_drop_first,
    lemma_stmts_view_concat, lemma_branches_view, lemma_branches_view_drop_first, lemma_branches_view_concat,
    type_display, type_kind_eq, exprs_view, lemma_exprs_view, lemma_exprs_view_drop_first, lemma_exprs_view_concat,
};
use crate::semantic_analyzer::error::{ErrorKindView, SemanticError, SemanticErrorKind, SemanticErrorView};
use crate::semantic_analyzer::tab::{
    BTabEntry, ObjectKind, SymbolTable, TabEntry, entry_is, initial_tables, law_enter_finds_the_new_name, reserved_words, system_entries, SymbolTableV, TabEntryV, TYP_BOOL, TYP_CHAR, TYP_INT, TYP_NOTYPE, TYP_REAL, TYP_STRING,
};
use crate::text::{decimal, join3, string_of, str_eq, usize_to_string};

verus! {

/// The analyzer: the symbol tables, the errors found so far, and how many
/// errors end the analysis early.
pub struct SemanticAnalyzer {
    pub symbol_table: SymbolTable,
    pub errors: Vec<SemanticError>,
    pub max_errors: usize,
}

/// Array types in `tab` refer to element types declared before them.
pub open spec fn types_acyclic(st: SymbolTableV) -> bool {
    forall|i: int|
        0 <= i < st.tab.len() && (#[trigger] st.tab[i]).obj == ObjectKind::Type && st.tab[i].ref_idx > 0
            && st.tab[i].ref_idx - 1 < st.atab.len() ==> (st.atab[st.tab[i].ref_idx - 1].etyp as int) < i
}

/// Type entries name valid types: the predefined type indices exist, and
/// each type entry's type index and array row exist.
pub open spec fn types_valid(st: SymbolTableV) -> bool {
    &&& st.tab.len() > TYP_STRING
    &&& forall|i: int|
        0 <= i < st.tab.len() && (#[trigger] st.tab[i]).obj == ObjectKind::Type ==> st.tab[i].typ < st.tab.len()
            && (st.tab[i].ref_idx > 0 ==> st.tab[i].ref_idx - 1 < st.atab.len())
}

/// The tables as the analyzer keeps them.
pub open spec fn tables_ok(st: SymbolTableV) -> bool {
    &&& st.wf()
    &&& types_acyclic(st)
    &&& types_valid(st)
}

/// An integer literal at position zero with no annotation.
pub open spec fn int_literal(v: i32) -> ExprV {
    ExprV {
        kind: ExprKindV::LiteralInt(v),
        annotation: SemanticDataV { type_kind: None, tab_index: None, is_const: false },
        line: 0,
        column: 0,
    }
}

/// The type that the type index `idx` stands for: an array type for an
/// array entry (index range as integer literals), else a primitive type,
/// else `Void`.
pub open spec fn typ_kind(st: SymbolTableV, idx: usize) -> TypeKindV
    decreases idx,
{
    if idx < st.tab.len() && st.tab[idx as int].obj == ObjectKind::Type && st.tab[idx as int].ref_idx > 0
        && st.tab[idx as int].ref_idx - 1 < st.atab.len()
        && st.atab[st.tab[idx as int].ref_idx - 1].etyp < idx {
        let a = st.atab[st.tab[idx as int].ref_idx - 1];
        TypeKindV::Array {
            index_range: Box::new(TypeKindV::Subrange(Box::new(int_literal(a.low)), Box::new(int_literal(a.high)))),
            element_type: Box::new(typ_kind(st, a.etyp)),
        }
    } else if idx == TYP_INT {
        TypeKindV::Integer
    } else if idx == TYP_REAL {
        TypeKindV::Real
    } else if idx == TYP_BOOL {
        TypeKindV::Boolean
    } else if idx == TYP_CHAR {
        TypeKindV::Char
    } else if idx == TYP_STRING {
        TypeKindV::String
    } else {
        TypeKindV::Void
    }
}

/// An error value.
pub open spec fn err_at(kind: ErrorKindView, line: nat, column: nat) -> SemanticErrorView {
    SemanticErrorView { kind, line, column }
}

/// A type mismatch error value.
pub open spec fn mismatch(expected: Seq<char>, found: Seq<char>, line: nat, column: nat) -> SemanticErrorView {
    err_at(ErrorKindView::TypeMismatch { expected, found }, line, column)
}

/// `a and b`, for messages about two types.
pub open spec fn two_types(a: TypeKindV, b: TypeKindV) -> Seq<char> {
    type_display(a) + " and "@ + type_display(b)
}

/// A numeric type.
pub open spec fn numeric(t: TypeKindV) -> bool {
    t == TypeKindV::Integer || t == TypeKindV::Real
}

/// The type of `left op right`, or the error reported for it.
pub open spec fn binary_check(op: BinOp, left: TypeKindV, right: TypeKindV, line: nat, col: nat) -> Result<TypeKindV, SemanticErrorView> {
    match op {
        BinOp::Add | BinOp::Sub | BinOp::Mul => {
            if left == TypeKindV::Integer && right == TypeKindV::Integer {
                Ok(TypeKindV::Integer)
            } else if numeric(left) && numeric(right) {
                Ok(TypeKindV::Real)
            } else if op == BinOp::Add && ((left == TypeKindV::String && right == TypeKindV::String)
                || (left == TypeKindV::String && right == TypeKindV::Char)
                || (left == TypeKindV::Char && right == TypeKindV::String)) {
                Ok(TypeKindV::String)
            } else {
                Err(err_at(ErrorKindView::InvalidOperation {
                    op: bin_op_name(op),
                    left_type: type_display(left),
                    right_type: type_display(right),
                }, line, col))
            }
        },
        BinOp::DivReal => {
            if numeric(left) && numeric(right) {
                Ok(TypeKindV::Real)
            } else {
                Err(mismatch("Numeric"@, two_types(left, right), line, col))
            }
        },
        BinOp::DivInt | BinOp::Mod => {
            if left == TypeKindV::Integer && right == TypeKindV::Integer {
                Ok(TypeKindV::Integer)
            } else {
                Err(mismatch("Integer"@, two_types(left, right), line, col))
            }
        },
        BinOp::Eq | BinOp::Neq => {
            if left == right || (numeric(left) && numeric(right)) {
                Ok(TypeKindV::Boolean)
            } else {
                Err(mismatch(type_display(left), type_display(right), line, col))
            }
        },
        BinOp::Lt | BinOp::Lte | BinOp::Gt | BinOp::Gte => {
            if (numeric(left) && numeric(right)) || (left == TypeKindV::Char && right == TypeKindV::Char)
                || (left == TypeKindV::String && right == TypeKindV::String) {
                Ok(TypeKindV::Boolean)
            } else {
                Err(mismatch("Comparable types"@, two_types(left, right), line, col))
            }
        },
        BinOp::And | BinOp::Or => {
            if left == TypeKindV::Boolean && right == TypeKindV::Boolean {
                Ok(TypeKindV::Boolean)
            } else {
                Err(mismatch("Boolean"@, two_types(left, right), line, col))
            }
        },
    }
}

/// A binary operator accepts its operands in either order, and then gives
/// the same type; comparisons and logical operators give `Boolean`.
pub proof fn law_binary_check_symmetric(op: BinOp, left: TypeKindV, right: TypeKindV, line: nat, col: nat)
    ensures
        (binary_check(op, left, right, line, col) is Ok) == (binary_check(op, right, left, line, col) is Ok),
        binary_check(op, left, right, line, col) is Ok ==> binary_check(op, left, right, line, col)
            == binary_check(op, right, left, line, col),
        binary_check(op, left, right, line, col) is Ok && (op == BinOp::Eq || op == BinOp::Neq || op == BinOp::Lt
            || op == BinOp::Lte || op == BinOp::Gt || op == BinOp::Gte || op == BinOp::And || op == BinOp::Or)
            ==> binary_check(op, left, right, line, col) == Ok::<TypeKindV, SemanticErrorView>(TypeKindV::Boolean),
{
}

/// Arithmetic on integers stays integer: `+`, `-`, `*`, `div` and `mod` of
/// two `Integer` operands have type `Integer`, while `/` gives `Real`.
pub proof fn law_integer_arithmetic(op: BinOp, line: nat, col: nat)
    ensures
        op == BinOp::Add || op == BinOp::Sub || op == BinOp::Mul || op == BinOp::DivInt || op == BinOp::Mod
            ==> binary_check(op, TypeKindV::Integer, TypeKindV::Integer, line, col)
            == Ok::<TypeKindV, SemanticErrorView>(TypeKindV::Integer),
        binary_check(BinOp::DivReal, TypeKindV::Integer, TypeKindV::Integer, line, col)
            == Ok::<TypeKindV, SemanticErrorView>(TypeKindV::Real),
{
}

/// Arithmetic with a `Real` operand and another number gives `Real`; `div`
/// and `mod` take integers only, and no arithmetic takes a `Boolean`.
pub proof fn law_real_arithmetic(op: BinOp, left: TypeKindV, right: TypeKindV, line: nat, col: nat)
    requires
        op == BinOp::Add || op == BinOp::Sub || op == BinOp::Mul || op == BinOp::DivReal || op == BinOp::DivInt
            || op == BinOp::Mod,
    ensures
        (left == TypeKindV::Integer || left == TypeKindV::Real) && (right == TypeKindV::Integer
            || right == TypeKindV::Real) && (left == TypeKindV::Real || right == TypeKindV::Real) && op != BinOp::DivInt
            && op != BinOp::Mod ==> binary_check(op, left, right, line, col)
            == Ok::<TypeKindV, SemanticErrorView>(TypeKindV::Real),
        (op == BinOp::DivInt || op == BinOp::Mod) && (left != TypeKindV::Integer || right != TypeKindV::Integer)
            ==> binary_check(op, left, right, line, col) is Err,
        left == TypeKindV::Boolean || right == TypeKindV::Boolean ==> binary_check(op, left, right, line, col) is Err,
{
}

/// Comparing two numbers, two characters or two strings gives `Boolean`;
/// `=` and `<>` also compare any two values of one type; `dan` and `atau`
/// take exactly two `Boolean` operands.
pub proof fn law_comparison_and_logic(op: BinOp, left: TypeKindV, right: TypeKindV, line: nat, col: nat)
    ensures
        (op == BinOp::Lt || op == BinOp::Lte || op == BinOp::Gt || op == BinOp::Gte || op == BinOp::Eq
            || op == BinOp::Neq) && (((left == TypeKindV::Integer || left == TypeKindV::Real) && (right
            == TypeKindV::Integer || right == TypeKindV::Real)) || (left == TypeKindV::Char && right == TypeKindV::Char)
            || (left == TypeKindV::String && right == TypeKindV::String))
            ==> binary_check(op, left, right, line, col) == Ok::<TypeKindV, SemanticErrorView>(TypeKindV::Boolean),
        (op == BinOp::Eq || op == BinOp::Neq) && left == right
            ==> binary_check(op, left, right, line, col) == Ok::<TypeKindV, SemanticErrorView>(TypeKindV::Boolean),
        op == BinOp::And || op == BinOp::Or ==> (binary_check(op, left, right, line, col) is Ok <==> (left
            == TypeKindV::Boolean && right == TypeKindV::Boolean)),
        op == BinOp::And || op == BinOp::Or ==> (binary_check(op, left, right, line, col) is Ok
            ==> binary_check(op, left, right, line, col) == Ok::<TypeKindV, SemanticErrorView>(TypeKindV::Boolean)),
{
}

/// A rejected operation is reported at the position it was checked at.
pub proof fn law_binary_error_position(op: BinOp, left: TypeKindV, right: TypeKindV, line: nat, col: nat)
    ensures
        binary_check(op, left, right, line, col) matches Err(e) ==> e.line == line && e.column == col,
{
}

/// The type of `op operand`, or the error reported for it.
pub open spec fn unary_check(op: UnOp, t: TypeKindV, line: nat, col: nat) -> Result<TypeKindV, SemanticErrorView> {
    match op {
        UnOp::Not => if t == TypeKindV::Boolean {
            Ok(TypeKindV::Boolean)
        } else {
            Err(mismatch("Boolean"@, type_display(t), line, col))
        },
        UnOp::Neg | UnOp::Plus => if t == TypeKindV::Integer {
            Ok(TypeKindV::Integer)
        } else if t == TypeKindV::Real {
            Ok(TypeKindV::Real)
        } else {
            Err(mismatch("Numeric"@, type_display(t), line, col))
        },
    }
}

/// `tidak` takes and gives a `Boolean`; a sign keeps the type of a number
/// and takes nothing else.
pub proof fn law_unary_types(op: UnOp, t: TypeKindV, line: nat, col: nat)
    ensures
        op == UnOp::Not ==> (unary_check(op, t, line, col) is Ok <==> t == TypeKindV::Boolean),
        op == UnOp::Not && t == TypeKindV::Boolean ==> unary_check(op, t, line, col)
            == Ok::<TypeKindV, SemanticErrorView>(TypeKindV::Boolean),
        op != UnOp::Not ==> (unary_check(op, t, line, col) is Ok <==> (t == TypeKindV::Integer || t
            == TypeKindV::Real)),
        op != UnOp::Not && (t == TypeKindV::Integer || t == TypeKindV::Real) ==> unary_check(op, t, line, col)
            == Ok::<TypeKindV, SemanticErrorView>(t),
        unary_check(op, t, line, col) matches Err(e) ==> e.line == line && e.column == col,
{
}

/// The integer value of a constant expression built from integer literals
/// with `+`, `-`, `*`, `div`, `mod` and signs; `None` for anything else,
/// for division by zero and for a quotient or remainder that overflows.
/// Sums, differences, products and negations wrap, as in the release
/// build.
pub open spec fn const_value(e: ExprV) -> Option<i32>
    decreases e,
{
    match e.kind {
        ExprKindV::LiteralInt(v) => Some(v),
        ExprKindV::Unary { op: UnOp::Neg, operand } => match const_value(*operand) {
            Some(v) => Some(0i32.wrapping_sub(v)),
            None => None,
        },
        ExprKindV::Unary { op: UnOp::Plus, operand } => const_value(*operand),
        ExprKindV::Binary { left, op, right } => match (const_value(*left), const_value(*right)) {
            (Some(l), Some(r)) => match op {
                BinOp::Add => Some(l.wrapping_add(r)),
                BinOp::Sub => Some(l.wrapping_sub(r)),
                BinOp::Mul => Some(l.wrapping_mul(r)),
                BinOp::DivInt => l.checked_div(r),
                BinOp::Mod => l.checked_rem(r),
                _ => None,
            },
            _ => None,
        },
        _ => None,
    }
}

/// The result of a checked operation as a value.
pub open spec fn result_view(r: Result<TypeKind, SemanticError>) -> Result<TypeKindV, SemanticErrorView> {
    match r {
        Ok(t) => Ok(t@),
        Err(e) => Err(e@),
    }
}

impl SemanticAnalyzer {
    /// The analyzer's state hangs together.
    pub open spec fn wf(&self) -> bool {
        tables_ok(self.symbol_table@)
    }

    /// The type that a type index stands for.
    fn typ_idx_to_kind(&self, idx: usize) -> (r: TypeKind)
        requires
            self.wf(),
        ensures
            r@ == typ_kind(self.symbol_table@, idx),
        decreases idx,
    {
        let st = &self.symbol_table;
        if idx < st.tab.len() {
            let entry = &st.tab[idx];
            proof { assert(st@.tab[idx as int] == entry@); }
            if entry.obj == ObjectKind::Type && entry.ref_idx > 0 {
                let atab_idx = entry.ref_idx - 1;
                if atab_idx < st.atab.len() {
                    let arr_info = &st.atab[atab_idx];
                    proof {
                        assert(st@.tab[idx as int].obj == ObjectKind::Type);
                        assert((arr_info.etyp as int) < idx);
                    }
                    let element_kind = self.typ_idx_to_kind(arr_info.etyp);
                    let lo = Expr::new(ExprKind::LiteralInt(arr_info.low), 0, 0);
                    let hi = Expr::new(ExprKind::LiteralInt(arr_info.high), 0, 0);
                    proof {
                        assert(lo@ == int_literal(arr_info.low));
                        assert(hi@ == int_literal(arr_info.high));
                    }
                    let range_kind = TypeKind::Subrange(Box::new(lo), Box::new(hi));
                    proof {
                        assert(range_kind@ == TypeKindV::Subrange(Box::new(int_literal(arr_info.low)), Box::new(int_literal(arr_info.high))));
                    }
                    let r = TypeKind::Array { index_range: Box::new(range_kind), element_type: Box::new(element_kind) };
                    proof {
                        assert(*arr_info == st@.atab[st@.tab[idx as int].ref_idx - 1]);
                        assert(element_kind@ == typ_kind(st@, arr_info.etyp));
                        assert(r@ == TypeKindV::Array { index_range: Box::new(range_kind@), element_type: Box::new(element_kind@) });
                        assert(r@ == typ_kind(st@, idx));
                    }
                    return r;
                }
            }
        }
        if idx == TYP_INT {
            TypeKind::Integer
        } else if idx == TYP_REAL {
            TypeKind::Real
        } else if idx == TYP_BOOL {
            TypeKind::Boolean
        } else if idx == TYP_CHAR {
            TypeKind::Char
        } else if idx == TYP_STRING {
            TypeKind::String
        } else {
            TypeKind::Void
        }
    }

    /// Whether a type is `Integer` or `Real`.
    fn is_numeric(&self, t: &TypeKind) -> (r: bool)
        ensures
            r == numeric(t@),
    {
        match t {
            TypeKind::Integer | TypeKind::Real => true,
            _ => false,
        }
    }

    /// Whether a type is ordinal: `Integer`, `Char` or `Boolean`.
    fn is_ordinal_type(&self, t: &TypeKind) -> (r: bool)
        ensures
            r == (t@ == TypeKindV::Integer || t@ == TypeKindV::Char || t@ == TypeKindV::Boolean),
    {
        match t {
            TypeKind::Integer | TypeKind::Char | TypeKind::Boolean => true,
            _ => false,
        }
    }

    /// Whether a value of type `value` may be given where `target` is
    /// wanted: equal types, an integer for a real, or a char for a string.
    fn is_type_compatible(&self, target: &TypeKind, value: &TypeKind) -> (r: bool)
        ensures
            r == type_compatible(target@, value@),
    {
        if type_kind_eq(target, value) {
            return true;
        }
        if matches!(target, TypeKind::Real) && matches!(value, TypeKind::Integer) {
            return true;
        }
        if matches!(target, TypeKind::String) && matches!(value, TypeKind::Char) {
            return true;
        }
        false
    }

    /// The type of `left op right`, or the error for it.
    pub fn check_binary_op(&self, op: BinOp, left: &TypeKind, right: &TypeKind, line: usize, col: usize) -> (r: Result<TypeKind, SemanticError>)
        ensures
            result_view(r) == binary_check(op, left@, right@, line as nat, col as nat),
    {
        let li = matches!(left, TypeKind::Integer);
        let ri = matches!(right, TypeKind::Integer);
        let ln = self.is_numeric(left);
        let rn = self.is_numeric(right);
        match op {
            BinOp::Add | BinOp::Sub | BinOp::Mul => {
                if li && ri {
                    Ok(TypeKind::Integer)
                } else if ln && rn {
                    Ok(TypeKind::Real)
                } else if op == BinOp::Add && ((matches!(left, TypeKind::String) && matches!(right, TypeKind::String))
                    || (matches!(left, TypeKind::String) && matches!(right, TypeKind::Char))
                    || (matches!(left, TypeKind::Char) && matches!(right, TypeKind::String))) {
                    Ok(TypeKind::String)
                } else {
                    Err(SemanticError::new(SemanticErrorKind::InvalidOperation {
                        op: op.name(),
                        left_type: left.to_string(),
                        right_type: right.to_string(),
                    }, line, col))
                }
            },
            BinOp::DivReal => {
                if ln && rn {
                    Ok(TypeKind::Real)
                } else {
                    Err(SemanticError::type_mismatch(string_of("Numeric"), Self::two_types(left, right), line, col))
                }
            },
            BinOp::DivInt | BinOp::Mod => {
                if li && ri {
                    Ok(TypeKind::Integer)
                } else {
                    Err(SemanticError::type_mismatch(string_of("Integer"), Self::two_types(left, right), line, col))
                }
            },
            BinOp::Eq | BinOp::Neq => {
                if type_kind_eq(left, right) {
                    Ok(TypeKind::Boolean)
                } else if ln && rn {
                    Ok(TypeKind::Boolean)
                } else {
                    Err(SemanticError::type_mismatch(left.to_string(), right.to_string(), line, col))
                }
            },
            BinOp::Lt | BinOp::Lte | BinOp::Gt | BinOp::Gte => {
                if (ln && rn) || (matches!(left, TypeKind::Char) && matches!(right, TypeKind::Char))
                    || (matches!(left, TypeKind::String) && matches!(right, TypeKind::String)) {
                    Ok(TypeKind::Boolean)
                } else {
                    Err(SemanticError::type_mismatch(string_of("Comparable types"), Self::two_types(left, right), line, col))
                }
            },
            BinOp::And | BinOp::Or => {
                if matches!(left, TypeKind::Boolean) && matches!(right, TypeKind::Boolean) {
                    Ok(TypeKind::Boolean)
                } else {
                    Err(SemanticError::type_mismatch(string_of("Boolean"), Self::two_types(left, right), line, col))
                }
            },
        }
    }

    /// `a and b` for two types.
    fn two_types(a: &TypeKind, b: &TypeKind) -> (r: String)
        ensures
            r@ == two_types(a@, b@),
    {
        let mut s = a.to_string();
        s.append(" and ");
        let t = b.to_string();
        s.append(t.as_str());
        s
    }

    /// The type of `op operand`, or the error for it.
    fn check_unary_op(&self, op: UnOp, operand_type: &TypeKind, line: usize, col: usize) -> (r: Result<TypeKind, SemanticError>)
        ensures
            result_view(r) == unary_check(op, operand_type@, line as nat, col as nat),
    {
        match op {
            UnOp::Not => {
                if matches!(operand_type, TypeKind::Boolean) {
                    Ok(TypeKind::Boolean)
                } else {
                    Err(SemanticError::type_mismatch(string_of("Boolean"), operand_type.to_string(), line, col))
                }
            },
            UnOp::Neg | UnOp::Plus => match operand_type {
                TypeKind::Integer => Ok(TypeKind::Integer),
                TypeKind::Real => Ok(TypeKind::Real),
                _ => Err(SemanticError::type_mismatch(string_of("Numeric"), operand_type.to_string(), line, col)),
            },
        }
    }

    /// The value of a constant integer expression.
    fn eval_const_expr(&self, expr: &Expr) -> (r: Option<i32>)
        ensures
            r == const_value(expr@),
        decreases expr,
    {
        match &expr.kind {
            ExprKind::LiteralInt(val) => Some(*val),
            ExprKind::Unary { op: UnOp::Neg, operand } => match self.eval_const_expr(operand) {
                Some(v) => Some(0i32.wrapping_sub(v)),
                None => None,
            },
            ExprKind::Unary { op: UnOp::Plus, operand } => self.eval_const_expr(operand),
            ExprKind::Binary { left, op, right } => {
                let l = match self.eval_const_expr(left) {
                    Some(l) => l,
                    None => return None,
                };
                let r = match self.eval_const_expr(right) {
                    Some(r) => r,
                    None => return None,
                };
                match op {
                    BinOp::Add => Some(l.wrapping_add(r)),
                    BinOp::Sub => Some(l.wrapping_sub(r)),
                    BinOp::Mul => Some(l.wrapping_mul(r)),
                    BinOp::DivInt => l.checked_div(r),
                    BinOp::Mod => l.checked_rem(r),
                    _ => None,
                }
            },
            ExprKind::Variable(_) => None,
            _ => None,
        }
    }
}

/// A value of type `value` may be given where `target` is wanted.
pub open spec fn type_compatible(target: TypeKindV, value: TypeKindV) -> bool {
    target == value || (target == TypeKindV::Real && value == TypeKindV::Integer)
        || (target == TypeKindV::String && value == TypeKindV::Char)
}


/// Every type takes values of its own type; a `Real` also takes an
/// `Integer` and a `String` a `Char`, but not the other way round, and
/// nothing else mixes.
pub proof fn law_type_compatible(target: TypeKindV, value: TypeKindV)
    ensures
        type_compatible(target, target),
        type_compatible(TypeKindV::Real, TypeKindV::Integer),
        type_compatible(TypeKindV::String, TypeKindV::Char),
        !type_compatible(TypeKindV::Integer, TypeKindV::Real),
        !type_compatible(TypeKindV::Char, TypeKindV::String),
        target != value && !(target == TypeKindV::Real && value == TypeKindV::Integer) && !(target
            == TypeKindV::String && value == TypeKindV::Char) ==> !type_compatible(target, value),
{
}

/// A literal has the type of its kind, and checking it records that type.
pub proof fn law_literal_types(st: SymbolTableV, e: ExprV)
    ensures
        e.kind is LiteralInt ==> check_expr(st, e).0 == Ok::<TypeKindV, SemanticErrorView>(TypeKindV::Integer),
        e.kind is LiteralReal ==> check_expr(st, e).0 == Ok::<TypeKindV, SemanticErrorView>(TypeKindV::Real),
        e.kind is LiteralString ==> check_expr(st, e).0 == Ok::<TypeKindV, SemanticErrorView>(TypeKindV::String),
        e.kind is LiteralChar ==> check_expr(st, e).0 == Ok::<TypeKindV, SemanticErrorView>(TypeKindV::Char),
        e.kind is LiteralBool ==> check_expr(st, e).0 == Ok::<TypeKindV, SemanticErrorView>(TypeKindV::Boolean),
        check_expr(st, e).0 matches Ok(t) ==> check_expr(st, e).1.annotation.type_kind == Some(t),
{
}

/// The parameters of a block, in declaration order: the chain that ends
/// at `start`, oldest first.
pub open spec fn param_chain(tab: Seq<TabEntryV>, start: int) -> Seq<usize>
    decreases start,
{
    if start <= 0 || start >= tab.len() || tab[start].link as int >= start {
        Seq::empty()
    } else {
        param_chain(tab, tab[start].link as int).push(start as usize)
    }
}

/// The parameters of block `b`; none for a block that does not exist.
pub open spec fn params_of(st: SymbolTableV, b: usize) -> Seq<usize> {
    if b >= st.btab.len() {
        Seq::empty()
    } else {
        param_chain(st.tab, st.btab[b as int].lpar as int)
    }
}

/// An expression with `t` recorded as its type.
pub open spec fn with_type(e: ExprV, t: TypeKindV) -> ExprV {
    ExprV { annotation: SemanticDataV { type_kind: Some(t), ..e.annotation }, ..e }
}

/// A generic error value.
pub open spec fn generic(msg: Seq<char>, line: nat, col: nat) -> SemanticErrorView {
    err_at(ErrorKindView::GenericError(msg), line, col)
}

/// Checking an expression: its type or the first error, and the
/// expression with the annotations the check records. Both operands of a
/// binary operator are checked before either error is reported; the first
/// error is the left one. A variable records the identifier it names.
pub open spec fn check_expr(st: SymbolTableV, e: ExprV) -> (Result<TypeKindV, SemanticErrorView>, ExprV)
    decreases e, 0int,
{
    let line = e.line;
    let col = e.column;
    let (res, e2): (Result<TypeKindV, SemanticErrorView>, ExprV) = match e.kind {
        ExprKindV::Binary { left, op, right } => {
            let (rl, l2) = check_expr(st, *left);
            let (rr, r2) = check_expr(st, *right);
            let e2 = ExprV { kind: ExprKindV::Binary { left: Box::new(l2), op, right: Box::new(r2) }, ..e };
            match rl {
                Err(x) => (Err(x), e2),
                Ok(lt) => match rr {
                    Err(x) => (Err(x), e2),
                    Ok(rt) => (binary_check(op, lt, rt, line, col), e2),
                },
            }
        },
        ExprKindV::Unary { op, operand } => {
            let (r, o2) = check_expr(st, *operand);
            let e2 = ExprV { kind: ExprKindV::Unary { op, operand: Box::new(o2) }, ..e };
            match r {
                Err(x) => (Err(x), e2),
                Ok(t) => (unary_check(op, t, line, col), e2),
            }
        },
        ExprKindV::LiteralInt(_) => (Ok(TypeKindV::Integer), e),
        ExprKindV::LiteralReal(_) => (Ok(TypeKindV::Real), e),
        ExprKindV::LiteralString(_) => (Ok(TypeKindV::String), e),
        ExprKindV::LiteralChar(_) => (Ok(TypeKindV::Char), e),
        ExprKindV::LiteralBool(_) => (Ok(TypeKindV::Boolean), e),
        ExprKindV::Variable(name) => match st.spec_find(name) {
            Some(i) => {
                let entry = st.tab[i];
                if entry.obj == ObjectKind::Program {
                    (Err(generic("Cannot use program name '"@ + name + "' as expression"@, line, col)), e)
                } else if entry.obj == ObjectKind::Procedure {
                    (Err(generic("Cannot use procedure '"@ + name + "' as expression (use function instead)"@, line, col)), e)
                } else if entry.obj == ObjectKind::Type {
                    (Err(generic("Cannot use type '"@ + name + "' as expression"@, line, col)), e)
                } else {
                    (Ok(typ_kind(st, entry.typ)),
                        ExprV { annotation: SemanticDataV { tab_index: Some(i as usize), ..e.annotation }, ..e })
                }
            },
            None => (Err(err_at(ErrorKindView::UndefinedIdentifier(name), line, col)), e),
        },
        ExprKindV::ArrayAccess { array, index } => {
            let (ra, a2) = check_expr(st, *array);
            match ra {
                Err(x) => (Err(x), ExprV { kind: ExprKindV::ArrayAccess { array: Box::new(a2), index }, ..e }),
                Ok(at) => match at {
                    TypeKindV::Array { element_type, index_range } => {
                        let (ri, i2) = check_expr(st, *index);
                        let e2 = ExprV { kind: ExprKindV::ArrayAccess { array: Box::new(a2), index: Box::new(i2) }, ..e };
                        match ri {
                            Err(x) => (Err(x), e2),
                            Ok(it) => if it != TypeKindV::Integer {
                                (Err(err_at(ErrorKindView::IndexTypeMismatch(type_display(it)), line, col)), e2)
                            } else {
                                match (const_value(i2), *index_range) {
                                    (Some(v), TypeKindV::Subrange(lo, hi)) => match (const_value(*lo), const_value(*hi)) {
                                        (Some(low), Some(high)) => if v < low || v > high {
                                            (Err(err_at(ErrorKindView::IndexOutOfBounds {
                                                index: v as int,
                                                low: low as int,
                                                high: high as int,
                                            }, line, col)), e2)
                                        } else {
                                            (Ok(*element_type), e2)
                                        },
                                        _ => (Ok(*element_type), e2),
                                    },
                                    _ => (Ok(*element_type), e2),
                                }
                            },
                        }
                    },
                    TypeKindV::String => {
                        let (ri, i2) = check_expr(st, *index);
                        let e2 = ExprV { kind: ExprKindV::ArrayAccess { array: Box::new(a2), index: Box::new(i2) }, ..e };
                        match ri {
                            Err(x) => (Err(x), e2),
                            Ok(it) => if it != TypeKindV::Integer {
                                (Err(err_at(ErrorKindView::IndexTypeMismatch(type_display(it)), line, col)), e2)
                            } else {
                                (Ok(TypeKindV::Char), e2)
                            },
                        }
                    },
                    _ => (Err(err_at(ErrorKindView::NotArray(type_display(at)), line, col)),
                        ExprV { kind: ExprKindV::ArrayAccess { array: Box::new(a2), index }, ..e }),
                },
            }
        },
        ExprKindV::FunctionCall { name, args } => {
            let (r, args2) = check_call(st, name, args, line, col);
            (r, ExprV { kind: ExprKindV::FunctionCall { name, args: args2 }, ..e })
        },
    };
    match res {
        Ok(t) => (Ok(t), with_type(e2, t)),
        Err(x) => (Err(x), e2),
    }
}

/// Checking a call of function `name`: its result type or the first
/// error, and the arguments as checked.
pub open spec fn check_call(st: SymbolTableV, name: Seq<char>, args: Seq<ExprV>, line: nat, col: nat)
    -> (Result<TypeKindV, SemanticErrorView>, Seq<ExprV>)
    decreases args, 3int,
{
    match st.spec_find(name) {
        None => (Err(err_at(ErrorKindView::UndefinedIdentifier(name), line, col)), args),
        Some(fi) => {
            let fe = st.tab[fi];
            if fe.obj != ObjectKind::Function {
                (Err(err_at(ErrorKindView::NotCallable(name), line, col)), args)
            } else if fe.ref_idx == 0 {
                (Ok(typ_kind(st, fe.typ)), check_all(st, args))
            } else {
                let (r, args2) = validate(st, args, params_of(st, fe.ref_idx), line, col);
                match r {
                    Ok(_) => (Ok(typ_kind(st, fe.typ)), args2),
                    Err(x) => (Err(x), args2),
                }
            }
        },
    }
}

/// Checking the arguments of a call against the parameters: their number
/// first, then each in order.
pub open spec fn validate(st: SymbolTableV, args: Seq<ExprV>, params: Seq<usize>, line: nat, col: nat)
    -> (Result<(), SemanticErrorView>, Seq<ExprV>)
    decreases args, 2int,
{
    if params.len() != args.len() {
        (Err(err_at(ErrorKindView::ArgumentCountMismatch { expected: params.len(), found: args.len() }, line, col)), args)
    } else {
        check_args(st, args, params, 0)
    }
}

/// Every argument checked, errors ignored.
pub open spec fn check_all(st: SymbolTableV, args: Seq<ExprV>) -> Seq<ExprV>
    decreases args, 1int,
{
    if args.len() == 0 {
        Seq::empty()
    } else {
        seq![check_expr(st, args[0]).1] + check_all(st, args.drop_first())
    }
}

/// Checking arguments against parameters in order, `k` of them already
/// checked before: stops at the first argument whose check fails, whose
/// type does not fit the parameter, or that is no variable while the
/// parameter is passed by reference.
pub open spec fn check_args(st: SymbolTableV, args: Seq<ExprV>, params: Seq<usize>, k: nat)
    -> (Result<(), SemanticErrorView>, Seq<ExprV>)
    decreases args, 1int,
{
    if args.len() == 0 || params.len() == 0 {
        (Ok(()), args)
    } else {
        let (rt, e2) = check_expr(st, args[0]);
        let rest = args.drop_first();
        match rt {
            Err(x) => (Err(x), seq![e2] + rest),
            Ok(t) => {
                let pe = st.tab[params[0] as int];
                let pt = typ_kind(st, pe.typ);
                if !type_compatible(pt, t) {
                    (Err(mismatch(type_display(pt), type_display(t), e2.line, e2.column)), seq![e2] + rest)
                } else if !pe.normal && e2.annotation.tab_index is None {
                    (Err(generic("Argument "@ + decimal(k + 1) + " must be a variable"@, e2.line, e2.column)), seq![e2] + rest)
                } else {
                    let (r, rest2) = check_args(st, rest, params.drop_first(), k + 1);
                    (r, seq![e2] + rest2)
                }
            },
        }
    }
}
/// The outcome of a check that yields nothing, as a value.
pub open spec fn unit_view(r: Result<(), SemanticError>) -> Result<(), SemanticErrorView> {
    match r {
        Ok(_) => Ok(()),
        Err(e) => Err(e@),
    }
}

/// The errors as values.
pub open spec fn errs_view(v: Seq<SemanticError>) -> Seq<SemanticErrorView> {
    v.map_values(|e: SemanticError| e@)
}

/// Checking an expression that must have type `want` (named `name` in the
/// message): the errors after it, and the expression as checked.
pub open spec fn typed_errors(st: SymbolTableV, errs: Seq<SemanticErrorView>, c: ExprV, want: TypeKindV, name: Seq<char>)
    -> (Seq<SemanticErrorView>, ExprV) {
    let (r, c2) = check_expr(st, c);
    match r {
        Ok(t) => if t != want {
            (errs.push(mismatch(name, type_display(t), c2.line, c2.column)), c2)
        } else {
            (errs, c2)
        },
        Err(x) => (errs.push(x), c2),
    }
}

/// Checking a call of procedure `name`: the first error if any, and the
/// arguments as checked.
pub open spec fn check_proc_call(st: SymbolTableV, name: Seq<char>, args: Seq<ExprV>, line: nat, col: nat)
    -> (Result<(), SemanticErrorView>, Seq<ExprV>) {
    match st.spec_find(name) {
        None => (Err(err_at(ErrorKindView::UndefinedIdentifier(name), line, col)), args),
        Some(pi) => {
            let pe = st.tab[pi];
            if pe.obj != ObjectKind::Procedure {
                (Err(err_at(ErrorKindView::NotCallable(name), line, col)), args)
            } else if pe.ref_idx == 0 {
                (Ok(()), check_all(st, args))
            } else {
                validate(st, args, params_of(st, pe.ref_idx), line, col)
            }
        },
    }
}

/// The errors after an assignment whose two sides have been checked.
pub open spec fn assignment_errors(
    st: SymbolTableV,
    errs: Seq<SemanticErrorView>,
    rt: Result<TypeKindV, SemanticErrorView>,
    t2: ExprV,
    rv: Result<TypeKindV, SemanticErrorView>,
    line: nat,
    col: nat,
) -> Seq<SemanticErrorView> {
    match (rt, rv) {
        (Ok(tt), Ok(vt)) => {
            if t2.annotation.tab_index is Some && (t2.annotation.tab_index->0 as int) < st.tab.len()
                && st.tab[t2.annotation.tab_index->0 as int].obj == ObjectKind::Constant {
                errs.push(err_at(ErrorKindView::AssignmentToConstant(st.tab[t2.annotation.tab_index->0 as int].name), line, col))
            } else if tt != vt && !(tt == TypeKindV::Real && vt == TypeKindV::Integer) {
                errs.push(mismatch(type_display(tt), type_display(vt), line, col))
            } else {
                errs
            }
        },
        (Err(e), Ok(_)) => errs.push(e),
        (Ok(_), Err(e)) => errs.push(e),
        (Err(e1), Err(e2)) => errs.push(e1).push(e2),
    }
}

/// The errors after looking up the iterator of a for loop.
pub open spec fn iterator_errors(st: SymbolTableV, errs: Seq<SemanticErrorView>, it: Seq<char>, line: nat, col: nat)
    -> Seq<SemanticErrorView> {
    match st.spec_find(it) {
        Some(i) => if typ_kind(st, st.tab[i].typ) != TypeKindV::Integer {
            errs.push(err_at(ErrorKindView::InvalidIterator(it), line, col))
        } else {
            errs
        },
        None => errs.push(err_at(ErrorKindView::UndefinedIdentifier(it), line, col)),
    }
}

/// Checking the labels of a case branch against the type of the operand,
/// when it has one; a label of another type is reported at the position
/// of the case statement.
pub open spec fn check_labels(
    st: SymbolTableV,
    errs: Seq<SemanticErrorView>,
    op_type: Option<TypeKindV>,
    labels: Seq<ExprV>,
    line: nat,
    col: nat,
) -> (Seq<SemanticErrorView>, Seq<ExprV>)
    decreases labels.len(),
{
    if labels.len() == 0 {
        (errs, labels)
    } else {
        let (r, l2) = check_expr(st, labels[0]);
        let e1 = match r {
            Ok(lt) => match op_type {
                Some(expected) => if lt != expected {
                    errs.push(mismatch(type_display(expected), type_display(lt), line, col))
                } else {
                    errs
                },
                None => errs,
            },
            Err(x) => errs.push(x),
        };
        let (e2, rest) = check_labels(st, e1, op_type, labels.drop_first(), line, col);
        (e2, seq![l2] + rest)
    }
}

/// Checking a statement: the errors after it (reported ones appended to
/// `errs`), and the statement with its expressions annotated.
pub open spec fn check_stmt(st: SymbolTableV, max: nat, errs: Seq<SemanticErrorView>, s: StmtV)
    -> (Seq<SemanticErrorView>, StmtV)
    decreases s, 0int,
{
    match s {
        StmtV::Assignment { target, value, line, column } => {
            let (rt, t2) = check_expr(st, target);
            let (rv, v2) = check_expr(st, value);
            (assignment_errors(st, errs, rt, t2, rv, line, column),
                StmtV::Assignment { target: t2, value: v2, line, column })
        },
        StmtV::ProcedureCall { name, args, line, column } => {
            let (r, args2) = check_proc_call(st, name, args, line, column);
            let e1 = match r {
                Ok(_) => errs,
                Err(x) => errs.push(x),
            };
            (e1, StmtV::ProcedureCall { name, args: args2, line, column })
        },
        StmtV::If { condition, then_branch, else_branch, line, column } => {
            let (e1, c2) = typed_errors(st, errs, condition, TypeKindV::Boolean, "Boolean"@);
            let (e2, t2) = check_stmt(st, max, e1, *then_branch);
            match else_branch {
                Some(b) => {
                    let (e3, b2) = check_stmt(st, max, e2, *b);
                    (e3, StmtV::If { condition: c2, then_branch: Box::new(t2), else_branch: Some(Box::new(b2)), line, column })
                },
                None => (e2, StmtV::If { condition: c2, then_branch: Box::new(t2), else_branch: None, line, column }),
            }
        },
        StmtV::While { condition, body, line, column } => {
            let (e1, c2) = typed_errors(st, errs, condition, TypeKindV::Boolean, "Boolean"@);
            let (e2, b2) = check_stmt(st, max, e1, *body);
            (e2, StmtV::While { condition: c2, body: Box::new(b2), line, column })
        },
        StmtV::For { iterator, start, end, direction, body, line, column } => {
            let e1 = iterator_errors(st, errs, iterator, line, column);
            let (e2, s2) = typed_errors(st, e1, start, TypeKindV::Integer, "Integer"@);
            let (e3, n2) = typed_errors(st, e2, end, TypeKindV::Integer, "Integer"@);
            let (e4, b2) = check_stmt(st, max, e3, *body);
            (e4, StmtV::For { iterator, start: s2, end: n2, direction, body: Box::new(b2), line, column })
        },
        StmtV::Repeat { body, condition, line, column } => {
            let (e1, body2) = check_stmts(st, max, errs, body);
            let (e2, c2) = typed_errors(st, e1, condition, TypeKindV::Boolean, "Boolean"@);
            (e2, StmtV::Repeat { body: body2, condition: c2, line, column })
        },
        StmtV::Case { operand, branches, else_branch, line, column } => {
            let (r, o2) = check_expr(st, operand);
            let (e1, op_type): (Seq<SemanticErrorView>, Option<TypeKindV>) = match r {
                Ok(t) => (errs, Some(t)),
                Err(x) => (errs.push(x), None),
            };
            let (e2, bs2) = check_branches(st, max, e1, op_type, branches, line, column);
            match else_branch {
                Some(v) => {
                    let (e3, v2) = check_stmts(st, max, e2, v);
                    (e3, StmtV::Case { operand: o2, branches: bs2, else_branch: Some(v2), line, column })
                },
                None => (e2, StmtV::Case { operand: o2, branches: bs2, else_branch: None, line, column }),
            }
        },
        StmtV::Compound(ss) => {
            let (e1, ss2) = check_stmts(st, max, errs, ss);
            (e1, StmtV::Compound(ss2))
        },
    }
}

/// Checking statements in order until `max` errors have been reported;
/// the statements after that are left as they are.
pub open spec fn check_stmts(st: SymbolTableV, max: nat, errs: Seq<SemanticErrorView>, ss: Seq<StmtV>)
    -> (Seq<SemanticErrorView>, Seq<StmtV>)
    decreases ss, 1int,
{
    if ss.len() == 0 || errs.len() >= max {
        (errs, ss)
    } else {
        let (e1, s2) = check_stmt(st, max, errs, ss[0]);
        let (e2, rest) = check_stmts(st, max, e1, ss.drop_first());
        (e2, seq![s2] + rest)
    }
}

/// Checking the branches of a case statement: the labels of each, then
/// its statement.
pub open spec fn check_branches(
    st: SymbolTableV,
    max: nat,
    errs: Seq<SemanticErrorView>,
    op_type: Option<TypeKindV>,
    bs: Seq<CaseBranchV>,
    line: nat,
    col: nat,
) -> (Seq<SemanticErrorView>, Seq<CaseBranchV>)
    decreases bs, 1int,
{
    if bs.len() == 0 {
        (errs, bs)
    } else {
        let (e1, labels2) = check_labels(st, errs, op_type, bs[0].labels, line, col);
        let (e2, s2) = check_stmt(st, max, e1, bs[0].stmt);
        let (e3, rest) = check_branches(st, max, e2, op_type, bs.drop_first(), line, col);
        (e3, seq![CaseBranchV { labels: labels2, stmt: s2 }] + rest)
    }
}

/// `longer` begins with all of `shorter`, unchanged.
pub open spec fn extends(longer: Seq<SemanticErrorView>, shorter: Seq<SemanticErrorView>) -> bool {
    &&& shorter.len() <= longer.len()
    &&& forall|i: int| 0 <= i < shorter.len() ==> longer[i] == shorter[i]
}

/// Checking labels keeps the errors reported before.
pub proof fn lemma_labels_errors_grow(
    st: SymbolTableV,
    errs: Seq<SemanticErrorView>,
    op_type: Option<TypeKindV>,
    labels: Seq<ExprV>,
    line: nat,
    col: nat,
)
    ensures
        extends(check_labels(st, errs, op_type, labels, line, col).0, errs),
    decreases labels.len(),
{
    if labels.len() > 0 {
        let (r, l2) = check_expr(st, labels[0]);
        let e1 = match r {
            Ok(lt) => match op_type {
                Some(expected) => if lt != expected {
                    errs.push(mismatch(type_display(expected), type_display(lt), line, col))
                } else {
                    errs
                },
                None => errs,
            },
            Err(x) => errs.push(x),
        };
        assert(extends(e1, errs));
        lemma_labels_errors_grow(st, e1, op_type, labels.drop_first(), line, col);
    }
}

/// Checking a statement never drops or changes an error reported before
/// it: the errors after it begin with the errors before it.
pub proof fn law_statement_errors_are_only_added(st: SymbolTableV, max: nat, errs: Seq<SemanticErrorView>, s: StmtV)
    ensures
        extends(check_stmt(st, max, errs, s).0, errs),
    decreases s, 0int,
{
    match s {
        StmtV::Assignment { target, value, line, column } => {},
        StmtV::ProcedureCall { .. } => {},
        StmtV::If { condition, then_branch, else_branch, .. } => {
            let (e1, c2) = typed_errors(st, errs, condition, TypeKindV::Boolean, "Boolean"@);
            law_statement_errors_are_only_added(st, max, e1, *then_branch);
            let (e2, t2) = check_stmt(st, max, e1, *then_branch);
            match else_branch {
                Some(b) => {
                    law_statement_errors_are_only_added(st, max, e2, *b);
                },
                None => {},
            }
        },
        StmtV::While { condition, body, .. } => {
            let (e1, c2) = typed_errors(st, errs, condition, TypeKindV::Boolean, "Boolean"@);
            law_statement_errors_are_only_added(st, max, e1, *body);
        },
        StmtV::For { iterator, start, end, body, line, column, .. } => {
            let e1 = iterator_errors(st, errs, iterator, line, column);
            let (e2, s2) = typed_errors(st, e1, start, TypeKindV::Integer, "Integer"@);
            let (e3, n2) = typed_errors(st, e2, end, TypeKindV::Integer, "Integer"@);
            law_statement_errors_are_only_added(st, max, e3, *body);
        },
        StmtV::Repeat { body, condition, .. } => {
            law_statements_errors_are_only_added(st, max, errs, body);
        },
        StmtV::Case { operand, branches, else_branch, line, column } => {
            let (r, o2) = check_expr(st, operand);
            let (e1, op_type): (Seq<SemanticErrorView>, Option<TypeKindV>) = match r {
                Ok(t) => (errs, Some(t)),
                Err(x) => (errs.push(x), None),
            };
            lemma_branches_errors_grow(st, max, e1, op_type, branches, line, column);
            let (e2, bs2) = check_branches(st, max, e1, op_type, branches, line, column);
            match else_branch {
                Some(v) => {
                    law_statements_errors_are_only_added(st, max, e2, v);
                },
                None => {},
            }
        },
        StmtV::Compound(ss) => {
            law_statements_errors_are_only_added(st, max, errs, ss);
        },
    }
}

/// Checking a list of statements never drops or changes an error reported
/// before it.
pub proof fn law_statements_errors_are_only_added(st: SymbolTableV, max: nat, errs: Seq<SemanticErrorView>, ss: Seq<StmtV>)
    ensures
        extends(check_stmts(st, max, errs, ss).0, errs),
    decreases ss, 1int,
{
    if ss.len() > 0 && errs.len() < max {
        law_statement_errors_are_only_added(st, max, errs, ss[0]);
        let (e1, s2) = check_stmt(st, max, errs, ss[0]);
        law_statements_errors_are_only_added(st, max, e1, ss.drop_first());
    }
}

/// Checking case branches keeps the errors reported before.
pub proof fn lemma_branches_errors_grow(
    st: SymbolTableV,
    max: nat,
    errs: Seq<SemanticErrorView>,
    op_type: Option<TypeKindV>,
    bs: Seq<CaseBranchV>,
    line: nat,
    col: nat,
)
    ensures
        extends(check_branches(st, max, errs, op_type, bs, line, col).0, errs),
    decreases bs, 1int,
{
    if bs.len() > 0 {
        lemma_labels_errors_grow(st, errs, op_type, bs[0].labels, line, col);
        let (e1, labels2) = check_labels(st, errs, op_type, bs[0].labels, line, col);
        law_statement_errors_are_only_added(st, max, e1, bs[0].stmt);
        let (e2, s2) = check_stmt(st, max, e1, bs[0].stmt);
        lemma_branches_errors_grow(st, max, e2, op_type, bs.drop_first(), line, col);
    }
}

/// An assignment of a value of the target's own type, or of an integer to
/// a real, adds no error; any other pair of types adds exactly one type
/// mismatch that names the target's type as expected and the value's type
/// as found. A target that is a constant is reported as such instead.
pub proof fn law_assignment_types(
    st: SymbolTableV,
    max: nat,
    errs: Seq<SemanticErrorView>,
    target: ExprV,
    value: ExprV,
    line: nat,
    col: nat,
    tt: TypeKindV,
    vt: TypeKindV,
)
    requires
        check_expr(st, target).0 == Ok::<TypeKindV, SemanticErrorView>(tt),
        check_expr(st, value).0 == Ok::<TypeKindV, SemanticErrorView>(vt),
    ensures
        ({
            let out = check_stmt(st, max, errs, StmtV::Assignment { target, value, line, column: col }).0;
            let a = check_expr(st, target).1.annotation;
            let constant = a.tab_index is Some && (a.tab_index->0 as int) < st.tab.len()
                && st.tab[a.tab_index->0 as int].obj == ObjectKind::Constant;
            &&& constant ==> out == errs.push(err_at(
                ErrorKindView::AssignmentToConstant(st.tab[a.tab_index->0 as int].name),
                line,
                col,
            ))
            &&& !constant && (tt == vt || (tt == TypeKindV::Real && vt == TypeKindV::Integer)) ==> out == errs
            &&& !constant && tt != vt && !(tt == TypeKindV::Real && vt == TypeKindV::Integer) ==> out == errs.push(
                err_at(ErrorKindView::TypeMismatch { expected: type_display(tt), found: type_display(vt) }, line, col),
            )
        }),
{
}

/// The condition of a `jika`, `selama` or `ulangi` must be a `Boolean`: a
/// condition of another type adds a type mismatch that expects `Boolean`
/// at the condition, before anything the body reports.
pub proof fn law_conditions_are_boolean(
    st: SymbolTableV,
    max: nat,
    errs: Seq<SemanticErrorView>,
    condition: ExprV,
    t: TypeKindV,
    body: StmtV,
    line: nat,
    col: nat,
)
    requires
        check_expr(st, condition).0 == Ok::<TypeKindV, SemanticErrorView>(t),
    ensures
        ({
            let c2 = check_expr(st, condition).1;
            let wrong = mismatch("Boolean"@, type_display(t), c2.line, c2.column);
            let w = check_stmt(st, max, errs, StmtV::While { condition, body: Box::new(body), line, column: col }).0;
            let i = check_stmt(
                st,
                max,
                errs,
                StmtV::If { condition, then_branch: Box::new(body), else_branch: None, line, column: col },
            ).0;
            &&& t != TypeKindV::Boolean ==> extends(w, errs.push(wrong)) && extends(i, errs.push(wrong))
            &&& t == TypeKindV::Boolean ==> extends(w, errs) && extends(i, errs)
        }),
{
    let c2 = check_expr(st, condition).1;
    let wrong = mismatch("Boolean"@, type_display(t), c2.line, c2.column);
    let (e1, cc) = typed_errors(st, errs, condition, TypeKindV::Boolean, "Boolean"@);
    law_statement_errors_are_only_added(st, max, e1, body);
}

/// Declaring an integer variable under a new name makes the name found as
/// a new integer variable, with no error; declaring it again in the same
/// scope reports a redeclaration and leaves the tables alone.
pub proof fn law_variable_declaration(
    st: SymbolTableV,
    max: nat,
    errs: Seq<SemanticErrorView>,
    n: Seq<char>,
    line: nat,
    column: nat,
)
    requires
        st.wf(),
        st.tab.len() < usize::MAX,
    ensures
        ({
            let (st2, e2, _d) = check_decl(
                st,
                max,
                errs,
                DeclV::Variable { name: seq![n], type_kind: TypeKindV::Integer, line, column },
            );
            let i = st.tab.len() as int;
            &&& st.spec_find_in_current_scope(n) is None ==> {
                &&& e2 == errs
                &&& st2.spec_find(n) == Some(i)
                &&& st2.tab[i].obj == ObjectKind::Variable
                &&& st2.tab[i].typ == TYP_INT
            }
            &&& st.spec_find_in_current_scope(n) is Some ==> {
                &&& e2 == errs.push(err_at(ErrorKindView::RedeclaredIdentifier(n), line, column))
                &&& st2 == st
            }
        }),
{
    let names = seq![n];
    assert(names.drop_first() =~= Seq::<Seq<char>>::empty());
    assert(kind_to_typ(st, TypeKindV::Integer) == (st, TYP_INT));
    if st.spec_find_in_current_scope(n) is None {
        let s1 = st.entered(n, ObjectKind::Variable, TYP_INT, 0, true);
        assert(enter_names(st, errs, names, TYP_INT, line, column) == enter_names(s1, errs, names.drop_first(), TYP_INT, line, column));
        law_enter_finds_the_new_name(st, n, ObjectKind::Variable, TYP_INT, 0, true, n);
    } else {
        let e1 = errs.push(err_at(ErrorKindView::RedeclaredIdentifier(n), line, column));
        assert(enter_names(st, errs, names, TYP_INT, line, column) == enter_names(st, e1, names.drop_first(), TYP_INT, line, column));
    }
}

/// Whether an expression is a compile-time constant: literals, constants,
/// and operators applied to them.
pub open spec fn is_const_expr(st: SymbolTableV, e: ExprV) -> bool
    decreases e,
{
    match e.kind {
        ExprKindV::LiteralInt(_) | ExprKindV::LiteralReal(_) | ExprKindV::LiteralString(_)
        | ExprKindV::LiteralChar(_) | ExprKindV::LiteralBool(_) => true,
        ExprKindV::Unary { operand, .. } => is_const_expr(st, *operand),
        ExprKindV::Binary { left, right, .. } => is_const_expr(st, *left) && is_const_expr(st, *right),
        ExprKindV::Variable(name) => match st.spec_find(name) {
            Some(i) => st.tab[i].obj == ObjectKind::Constant,
            None => false,
        },
        _ => false,
    }
}

/// The value of a constant bound, zero when it is not constant.
pub open spec fn const_or_zero(e: ExprV) -> i32 {
    match const_value(e) {
        Some(v) => v,
        None => 0,
    }
}

/// The tables with entry `last` completed as an array type described by
/// `atab` row `a`, of total size `size`.
pub open spec fn as_array_type(st: SymbolTableV, last: int, a: int, size: usize) -> SymbolTableV {
    SymbolTableV {
        tab: st.tab.update(last, TabEntryV { ref_idx: (a + 1) as usize, typ: last as usize, adr: size, ..st.tab[last] }),
        ..st
    }
}

/// The type index for a type, and the tables after recording it: an
/// array type gets a new `atab` row and a new anonymous type entry; a
/// named type gives the type of its declaration.
pub open spec fn kind_to_typ(st: SymbolTableV, k: TypeKindV) -> (SymbolTableV, usize)
    decreases k,
{
    match k {
        TypeKindV::Integer => (st, TYP_INT),
        TypeKindV::Real => (st, TYP_REAL),
        TypeKindV::Boolean => (st, TYP_BOOL),
        TypeKindV::Char => (st, TYP_CHAR),
        TypeKindV::String => (st, TYP_STRING),
        TypeKindV::Array { index_range, element_type } => {
            let (st1, el) = kind_to_typ(st, *element_type);
            let (low, high): (i32, i32) = match *index_range {
                TypeKindV::Subrange(lo, hi) => (const_or_zero(*lo), const_or_zero(*hi)),
                _ => (0, 0),
            };
            let st2 = st1.with_array(TYP_INT, el, 0, low, high, st1.tab[el as int].adr);
            let st3 = st2.entered(Seq::empty(), ObjectKind::Type, TYP_NOTYPE, 0, true);
            let a = st1.atab.len() as int;
            let last = st2.tab.len() as int;
            (as_array_type(st3, last, a, st2.atab[a].size), last as usize)
        },
        TypeKindV::Subrange(_, _) => (st, TYP_INT),
        TypeKindV::Custom(name) => match st.spec_find(name) {
            Some(i) => if st.tab[i].obj == ObjectKind::Type {
                (st, st.tab[i].typ)
            } else {
                (st, TYP_NOTYPE)
            },
            None => (st, TYP_NOTYPE),
        },
        TypeKindV::Void => (st, TYP_NOTYPE),
    }
}

/// Entering variables of type `ti`, reporting those already declared in
/// the current scope.
pub open spec fn enter_names(
    st: SymbolTableV,
    errs: Seq<SemanticErrorView>,
    names: Seq<Seq<char>>,
    ti: usize,
    line: nat,
    col: nat,
) -> (SymbolTableV, Seq<SemanticErrorView>)
    decreases names.len(),
{
    if names.len() == 0 {
        (st, errs)
    } else {
        let n = names[0];
        if st.spec_find_in_current_scope(n) is Some {
            enter_names(st, errs.push(err_at(ErrorKindView::RedeclaredIdentifier(n), line, col)), names.drop_first(), ti, line, col)
        } else {
            enter_names(st.entered(n, ObjectKind::Variable, ti, 0, true), errs, names.drop_first(), ti, line, col)
        }
    }
}

/// Entering the names of a parameter group.
pub open spec fn enter_param_names(st: SymbolTableV, names: Seq<Seq<char>>, ti: usize, normal: bool) -> SymbolTableV
    decreases names.len(),
{
    if names.len() == 0 {
        st
    } else {
        enter_param_names(st.entered(names[0], ObjectKind::Variable, ti, 0, normal), names.drop_first(), ti, normal)
    }
}

/// Entering one parameter group: its type, then its names.
pub open spec fn enter_param(st: SymbolTableV, p: ParamV) -> SymbolTableV {
    let (st1, ti) = kind_to_typ(st, p.type_kind);
    enter_param_names(st1, p.names, ti, !p.is_var)
}

/// Entering parameter groups in order.
pub open spec fn enter_params(st: SymbolTableV, ps: Seq<ParamV>) -> SymbolTableV
    decreases ps.len(),
{
    if ps.len() == 0 {
        st
    } else {
        enter_params(enter_param(st, ps[0]), ps.drop_first())
    }
}

/// The tables after the newest identifier of the current block is
/// recorded as its last parameter.
pub open spec fn set_lpar(st: SymbolTableV) -> SymbolTableV {
    let cur = st.display[st.level as int] as int;
    SymbolTableV { btab: st.btab.update(cur, BTabEntry { lpar: st.btab[cur].last, ..st.btab[cur] }), ..st }
}

/// Checking a declaration: the tables and errors after it, and the
/// declaration with its expressions and statements annotated. A procedure
/// or function is entered under its kind with a reference to the block of
/// its scope, which holds its parameters; a function's block then also
/// holds a variable of its name for the result.
pub open spec fn check_decl(st: SymbolTableV, max: nat, errs: Seq<SemanticErrorView>, d: DeclV)
    -> (SymbolTableV, Seq<SemanticErrorView>, DeclV)
    decreases d, 0int,
{
    match d {
        DeclV::Constant { name, value, line, column } => {
            let (r, v2) = check_expr(st, value);
            let d2 = DeclV::Constant { name, value: v2, line, column };
            match r {
                Ok(t) => {
                    let e1 = if !is_const_expr(st, v2) {
                        errs.push(generic("Constant '"@ + name + "' must be initialized with a constant expression"@, line, column))
                    } else {
                        errs
                    };
                    let (st1, ti) = kind_to_typ(st, t);
                    (st1.entered(name, ObjectKind::Constant, ti, 0, true), e1, d2)
                },
                Err(x) => (st.entered(name, ObjectKind::Constant, TYP_NOTYPE, 0, true), errs.push(x), d2),
            }
        },
        DeclV::Type { name, wrapped_type, line, column } => {
            if st.spec_find_in_current_scope(name) is Some {
                (st, errs.push(err_at(ErrorKindView::RedeclaredIdentifier(name), line, column)), d)
            } else {
                let (st1, ti) = kind_to_typ(st, wrapped_type);
                (st1.entered(name, ObjectKind::Type, ti, 0, true), errs, d)
            }
        },
        DeclV::Variable { name, type_kind, line, column } => {
            if type_kind == TypeKindV::Void {
                (st, errs.push(mismatch("Valid Type"@, "Void"@, line, column)), d)
            } else {
                let (st1, ti) = kind_to_typ(st, type_kind);
                let (st2, e2) = enter_names(st1, errs, name, ti, line, column);
                (st2, e2, d)
            }
        },
        DeclV::Procedure { name, params, local_decls, body, line, column } => {
            if st.spec_find_in_current_scope(name) is Some {
                (st, errs.push(err_at(ErrorKindView::RedeclaredIdentifier(name), line, column)), d)
            } else {
                let b = st.btab.len() as usize;
                let st1 = st.entered(name, ObjectKind::Procedure, TYP_NOTYPE, 0, true).with_ref(st.tab.len() as int, b)
                    .scope_entered();
                let st2 = set_lpar(enter_params(st1, params));
                let (st3, e1, ds2) = check_decls(st2, max, errs, local_decls);
                let (e2, body2) = check_stmts(st3, max, e1, body);
                (st3.scope_exited(), e2, DeclV::Procedure { name, params, local_decls: ds2, body: body2, line, column })
            }
        },
        DeclV::Function { name, params, return_type, local_decls, body, line, column } => {
            if st.spec_find_in_current_scope(name) is Some {
                (st, errs.push(err_at(ErrorKindView::RedeclaredIdentifier(name), line, column)), d)
            } else {
                let e0 = if return_type == TypeKindV::Void {
                    errs.push(mismatch("Valid Return Type"@, "Void"@, line, column))
                } else {
                    errs
                };
                let (st1, ri) = kind_to_typ(st, return_type);
                let b = st1.btab.len() as usize;
                let st2 = st1.entered(name, ObjectKind::Function, ri, 0, true).with_ref(st1.tab.len() as int, b)
                    .scope_entered();
                let st3 = set_lpar(enter_params(st2, params)).entered(name, ObjectKind::Variable, ri, 0, true);
                let (st4, e1, ds2) = check_decls(st3, max, e0, local_decls);
                let (e2, body2) = check_stmts(st4, max, e1, body);
                (st4.scope_exited(), e2, DeclV::Function { name, params, return_type, local_decls: ds2, body: body2, line, column })
            }
        },
    }
}

/// Checking declarations in order until `max` errors have been reported.
pub open spec fn check_decls(st: SymbolTableV, max: nat, errs: Seq<SemanticErrorView>, ds: Seq<DeclV>)
    -> (SymbolTableV, Seq<SemanticErrorView>, Seq<DeclV>)
    decreases ds, 1int,
{
    if ds.len() == 0 || errs.len() >= max {
        (st, errs, ds)
    } else {
        let (st1, e1, d2) = check_decl(st, max, errs, ds[0]);
        let (st2, e2, rest) = check_decls(st1, max, e1, ds.drop_first());
        (st2, e2, seq![d2] + rest)
    }
}

/// Checking a program: its name goes into the global scope, its
/// declarations and body into a scope of their own.
pub open spec fn check_program(st: SymbolTableV, max: nat, errs: Seq<SemanticErrorView>, p: ProgramV)
    -> (SymbolTableV, Seq<SemanticErrorView>, ProgramV) {
    let st1 = st.entered(p.name, ObjectKind::Program, TYP_NOTYPE, 0, true).scope_entered();
    let (st2, e1, ds2) = check_decls(st1, max, errs, p.declarations);
    let (e2, body2) = check_stmts(st2, max, e1, p.main_body);
    (st2.scope_exited(), e2, ProgramV { name: p.name, declarations: ds2, main_body: body2 })
}

impl SemanticAnalyzer {
    /// Checks an expression and records in it what the check finds: its
    /// type, and for a variable the identifier it names.
    fn visit_expr(&self, expr: Expr) -> (out: (Result<TypeKind, SemanticError>, Expr))
        requires
            self.wf(),
        ensures
            (result_view(out.0), out.1@) == check_expr(self.symbol_table@, expr@),
        decreases expr, 0int,
    {
        let ghost st = self.symbol_table@;
        let ghost e0 = expr@;
        let Expr { kind, annotation, line, column } = expr;
        let mut annotation = annotation;
        let (res, kind2): (Result<TypeKind, SemanticError>, ExprKind) = match kind {
            ExprKind::Binary { left, op, right } => {
                let (rl, l2) = self.visit_expr(*left);
                let (rr, r2) = self.visit_expr(*right);
                let r = match rl {
                    Err(x) => Err(x),
                    Ok(lt) => match rr {
                        Err(x) => Err(x),
                        Ok(rt) => self.check_binary_op(op, &lt, &rt, line, column),
                    },
                };
                (r, ExprKind::Binary { left: Box::new(l2), op, right: Box::new(r2) })
            },
            ExprKind::Unary { op, operand } => {
                let (r0, o2) = self.visit_expr(*operand);
                let r = match r0 {
                    Err(x) => Err(x),
                    Ok(t) => self.check_unary_op(op, &t, line, column),
                };
                (r, ExprKind::Unary { op, operand: Box::new(o2) })
            },
            ExprKind::LiteralInt(v) => (Ok(TypeKind::Integer), ExprKind::LiteralInt(v)),
            ExprKind::LiteralReal(v) => (Ok(TypeKind::Real), ExprKind::LiteralReal(v)),
            ExprKind::LiteralString(v) => (Ok(TypeKind::String), ExprKind::LiteralString(v)),
            ExprKind::LiteralChar(v) => (Ok(TypeKind::Char), ExprKind::LiteralChar(v)),
            ExprKind::LiteralBool(v) => (Ok(TypeKind::Boolean), ExprKind::LiteralBool(v)),
            ExprKind::Variable(name) => {
                let r = self.visit_variable(&name, &mut annotation, line, column);
                (r, ExprKind::Variable(name))
            },
            ExprKind::ArrayAccess { array, index } => {
                let (ra, a2) = self.visit_expr(*array);
                match ra {
                    Err(x) => (Err(x), ExprKind::ArrayAccess { array: Box::new(a2), index }),
                    Ok(at) => match at {
                        TypeKind::Array { element_type, index_range } => {
                            let (ri, i2) = self.visit_expr(*index);
                            let r = match ri {
                                Err(x) => Err(x),
                                Ok(it) => if !matches!(it, TypeKind::Integer) {
                                    Err(SemanticError::new(SemanticErrorKind::IndexTypeMismatch(it.to_string()), line, column))
                                } else {
                                    self.check_bounds(&i2, *index_range, *element_type, line, column)
                                },
                            };
                            (r, ExprKind::ArrayAccess { array: Box::new(a2), index: Box::new(i2) })
                        },
                        TypeKind::String => {
                            let (ri, i2) = self.visit_expr(*index);
                            let r = match ri {
                                Err(x) => Err(x),
                                Ok(it) => if !matches!(it, TypeKind::Integer) {
                                    Err(SemanticError::new(SemanticErrorKind::IndexTypeMismatch(it.to_string()), line, column))
                                } else {
                                    Ok(TypeKind::Char)
                                },
                            };
                            (r, ExprKind::ArrayAccess { array: Box::new(a2), index: Box::new(i2) })
                        },
                        _ => (Err(SemanticError::new(SemanticErrorKind::NotArray(at.to_string()), line, column)),
                            ExprKind::ArrayAccess { array: Box::new(a2), index }),
                    },
                }
            },
            ExprKind::FunctionCall { name, args } => {
                let (r, args2) = self.visit_function_call(&name, args, line, column);
                (r, ExprKind::FunctionCall { name, args: args2 })
            },
        };
        match res {
            Ok(t) => {
                let ann = SemanticData { type_kind: Some(t.duplicate()), tab_index: annotation.tab_index, is_const: annotation.is_const };
                (Ok(t), Expr { kind: kind2, annotation: ann, line, column })
            },
            Err(x) => (Err(x), Expr { kind: kind2, annotation, line, column }),
        }
    }

    /// The element type of an array access whose index has been checked,
    /// unless a constant index lies outside a constant range.
    fn check_bounds(&self, index: &Expr, index_range: TypeKind, element_type: TypeKind, line: usize, col: usize)
        -> (r: Result<TypeKind, SemanticError>)
        ensures
            result_view(r) == (match (const_value(index@), index_range@) {
                (Some(v), TypeKindV::Subrange(lo, hi)) => match (const_value(*lo), const_value(*hi)) {
                    (Some(low), Some(high)) => if v < low || v > high {
                        Err(err_at(ErrorKindView::IndexOutOfBounds { index: v as int, low: low as int, high: high as int },
                            line as nat, col as nat))
                    } else {
                        Ok(element_type@)
                    },
                    _ => Ok(element_type@),
                },
                _ => Ok(element_type@),
            }),
    {
        if let Some(idx_val) = self.eval_const_expr(index) {
            if let TypeKind::Subrange(low_expr, high_expr) = index_range {
                let lo = self.eval_const_expr(&low_expr);
                let hi = self.eval_const_expr(&high_expr);
                if let (Some(low), Some(high)) = (lo, hi) {
                    if idx_val < low || idx_val > high {
                        return Err(SemanticError::new(
                            SemanticErrorKind::IndexOutOfBounds { index: idx_val, low, high },
                            line,
                            col,
                        ));
                    }
                }
            }
        }
        Ok(element_type)
    }

    /// The type of a variable, recording the identifier it names.
    fn visit_variable(&self, name: &String, annotation: &mut SemanticData, line: usize, col: usize)
        -> (r: Result<TypeKind, SemanticError>)
        requires
            self.wf(),
        ensures
            ({
                let st = self.symbol_table@;
                match st.spec_find(name@) {
                    Some(i) => {
                        let entry = st.tab[i];
                        if entry.obj == ObjectKind::Program {
                            &&& result_view(r) == Err::<TypeKindV, SemanticErrorView>(generic("Cannot use program name '"@ + name@ + "' as expression"@, line as nat, col as nat))
                            &&& *final(annotation) == *old(annotation)
                        } else if entry.obj == ObjectKind::Procedure {
                            &&& result_view(r) == Err::<TypeKindV, SemanticErrorView>(generic("Cannot use procedure '"@ + name@ + "' as expression (use function instead)"@, line as nat, col as nat))
                            &&& *final(annotation) == *old(annotation)
                        } else if entry.obj == ObjectKind::Type {
                            &&& result_view(r) == Err::<TypeKindV, SemanticErrorView>(generic("Cannot use type '"@ + name@ + "' as expression"@, line as nat, col as nat))
                            &&& *final(annotation) == *old(annotation)
                        } else {
                            &&& result_view(r) == Ok::<TypeKindV, SemanticErrorView>(typ_kind(st, entry.typ))
                            &&& final(annotation)@ == (SemanticDataV { tab_index: Some(i as usize), ..old(annotation)@ })
                        }
                    },
                    None => {
                        &&& result_view(r) == Err::<TypeKindV, SemanticErrorView>(err_at(ErrorKindView::UndefinedIdentifier(name@), line as nat, col as nat))
                        &&& *final(annotation) == *old(annotation)
                    },
                }
            }),
    {
        match self.symbol_table.find(name.as_str()) {
            Some(idx) => {
                let entry = &self.symbol_table.tab[idx];
                proof { assert(self.symbol_table@.tab[idx as int] == entry@); }
                if entry.obj == ObjectKind::Program {
                    Err(SemanticError::new(
                        SemanticErrorKind::GenericError(join3("Cannot use program name '", name.as_str(), "' as expression")),
                        line,
                        col,
                    ))
                } else if entry.obj == ObjectKind::Procedure {
                    Err(SemanticError::new(
                        SemanticErrorKind::GenericError(
                            join3("Cannot use procedure '", name.as_str(), "' as expression (use function instead)"),
                        ),
                        line,
                        col,
                    ))
                } else if entry.obj == ObjectKind::Type {
                    Err(SemanticError::new(
                        SemanticErrorKind::GenericError(join3("Cannot use type '", name.as_str(), "' as expression")),
                        line,
                        col,
                    ))
                } else {
                    let type_kind = self.typ_idx_to_kind(entry.typ);
                    annotation.tab_index = Some(idx);
                    Ok(type_kind)
                }
            },
            None => Err(SemanticError::new(SemanticErrorKind::UndefinedIdentifier(name.clone()), line, col)),
        }
    }

    /// Checks a call of function `name` and its arguments.
    fn visit_function_call(&self, name: &String, args: Vec<Expr>, line: usize, col: usize)
        -> (out: (Result<TypeKind, SemanticError>, Vec<Expr>))
        requires
            self.wf(),
        ensures
            (result_view(out.0), exprs_view(out.1@)) == check_call(self.symbol_table@, name@, exprs_view(args@), line as nat, col as nat),
        decreases args, 3int,
    {
        let func_idx = match self.symbol_table.find(name.as_str()) {
            Some(i) => i,
            None => return (Err(SemanticError::new(SemanticErrorKind::UndefinedIdentifier(name.clone()), line, col)), args),
        };
        let func_entry = &self.symbol_table.tab[func_idx];
        proof { assert(self.symbol_table@.tab[func_idx as int] == func_entry@); }
        if func_entry.obj != ObjectKind::Function {
            return (Err(SemanticError::new(SemanticErrorKind::NotCallable(name.clone()), line, col)), args);
        }
        let ret_type = self.typ_idx_to_kind(func_entry.typ);
        let btab_idx = func_entry.ref_idx;
        if btab_idx == 0 {
            let args2 = self.visit_all_args(args);
            return (Ok(ret_type), args2);
        }
        let params_idx = self.get_parameters_from_btab(btab_idx);
        let (r, args2) = self.validate_args(args, &params_idx, line, col);
        match r {
            Ok(_) => (Ok(ret_type), args2),
            Err(x) => (Err(x), args2),
        }
    }

    /// Checks every argument, ignoring their errors.
    fn visit_all_args(&self, args: Vec<Expr>) -> (out: Vec<Expr>)
        requires
            self.wf(),
        ensures
            exprs_view(out@) == check_all(self.symbol_table@, exprs_view(args@)),
        decreases args, 1int,
    {
        let ghost st = self.symbol_table@;
        let ghost a0 = args;
        let mut rest = args;
        let mut out: Vec<Expr> = Vec::new();
        let ghost mut i: int = 0;
        while rest.len() > 0
            invariant
                self.wf(),
                st == self.symbol_table@,
                a0 == args,
                0 <= i <= a0@.len(),
                rest@ == a0@.skip(i),
                exprs_view(out@) + check_all(st, exprs_view(rest@)) == check_all(st, exprs_view(a0@)),
            decreases rest@.len(),
        {
            proof {
                lemma_exprs_view_drop_first(rest@);
                broadcast use vstd::std_specs::vec::axiom_vec_index_decreases;
            }
            let ghost r0 = rest@;
            let a = rest.remove(0);
            proof {
                assert(a == a0@[i]);
                assert(rest@ == r0.drop_first());
            }
            proof {
                vstd::std_specs::vec::axiom_vec_index_decreases(a0, i);
                assert(decreases_to!(a0 => a0@[i]));
            }
            let (_, a2) = self.visit_expr(a);
            let ghost o0 = exprs_view(out@);
            let ghost ov = out@;
            out.push(a2);
            proof {
                assert(out@.drop_last() =~= ov);
                assert(exprs_view(out@) == o0.push(a2@));
                assert(o0.push(a2@) + check_all(st, exprs_view(rest@)) =~= o0 + check_all(st, exprs_view(r0)));
                i = i + 1;
                assert(a0@.skip(i) =~= rest@);
            }
        }
        proof { assert(check_all(st, exprs_view(rest@)) =~= Seq::empty()); assert(exprs_view(out@) + Seq::<ExprV>::empty() =~= exprs_view(out@)); }
        out
    }
}

/// A checked prefix in front of the outcome of checking the rest.
pub open spec fn prepend(o: Seq<ExprV>, r: (Result<(), SemanticErrorView>, Seq<ExprV>))
    -> (Result<(), SemanticErrorView>, Seq<ExprV>) {
    (r.0, o + r.1)
}

impl SemanticAnalyzer {
    /// The parameters of block `btab_idx`, in declaration order.
    pub fn get_parameters_from_btab(&self, btab_idx: usize) -> (r: Vec<usize>)
        requires
            self.wf(),
        ensures
            r@ == params_of(self.symbol_table@, btab_idx),
            forall|j: int| 0 <= j < r@.len() ==> 0 < #[trigger] r@[j] < self.symbol_table@.tab.len(),
    {
        let ghost st = self.symbol_table@;
        if btab_idx >= self.symbol_table.btab.len() {
            return Vec::new();
        }
        let mut params: Vec<usize> = Vec::new();
        let mut curr = self.symbol_table.btab[btab_idx].lpar;
        let ghost start = curr as int;
        while curr != 0
            invariant
                self.wf(),
                st == self.symbol_table@,
                curr < st.tab.len(),
                param_chain(st.tab, start) == param_chain(st.tab, curr as int) + params@,
                forall|j: int| 0 <= j < params@.len() ==> 0 < #[trigger] params@[j] < st.tab.len(),
            decreases curr,
        {
            let ghost p0 = params@;
            let next = self.symbol_table.tab[curr].link;
            proof {
                assert(st.tab[curr as int].link == next);
                assert(param_chain(st.tab, curr as int) == param_chain(st.tab, next as int).push(curr));
            }
            params.insert(0, curr);
            proof {
                assert(param_chain(st.tab, next as int).push(curr) + p0 =~= param_chain(st.tab, next as int) + params@);
            }
            curr = next;
        }
        proof { assert(param_chain(st.tab, 0) + params@ =~= params@); }
        params
    }

    /// Checks the arguments of a call against the parameters: their number
    /// first, then each argument in order, up to the first that fails.
    fn validate_args(&self, args: Vec<Expr>, params_idx: &Vec<usize>, line: usize, col: usize)
        -> (out: (Result<(), SemanticError>, Vec<Expr>))
        requires
            self.wf(),
            forall|j: int| 0 <= j < params_idx@.len() ==> #[trigger] params_idx@[j] < self.symbol_table@.tab.len(),
        ensures
            (unit_view(out.0), exprs_view(out.1@)) == validate(self.symbol_table@, exprs_view(args@), params_idx@, line as nat, col as nat),
        decreases args, 2int,
    {
        let ghost st = self.symbol_table@;
        let ghost a0 = args;
        proof { lemma_exprs_view(args@); }
        if params_idx.len() != args.len() {
            return (Err(SemanticError::new(
                SemanticErrorKind::ArgumentCountMismatch { expected: params_idx.len(), found: args.len() },
                line,
                col,
            )), args);
        }
        let mut rest = args;
        let mut out: Vec<Expr> = Vec::new();
        let mut i: usize = 0;
        proof {
            assert(params_idx@.skip(0) =~= params_idx@);
            assert(a0@.skip(0) =~= a0@);
            let r = check_args(st, exprs_view(a0@), params_idx@, 0);
            assert(Seq::<ExprV>::empty() + r.1 =~= r.1);
        }
        while rest.len() > 0
            invariant
                self.wf(),
                st == self.symbol_table@,
                forall|j: int| 0 <= j < params_idx@.len() ==> #[trigger] params_idx@[j] < st.tab.len(),
                params_idx@.len() == a0@.len(),
                exprs_view(a0@).len() == a0@.len(),
                a0@.len() <= usize::MAX,
                a0 == args,
                0 <= i <= a0@.len(),
                rest@ == a0@.skip(i as int),
                check_args(st, exprs_view(a0@), params_idx@, 0) == prepend(
                    exprs_view(out@),
                    check_args(st, exprs_view(rest@), params_idx@.skip(i as int), i as nat),
                ),
            decreases rest@.len(),
        {
            proof {
                lemma_exprs_view_drop_first(rest@);
                broadcast use vstd::std_specs::vec::axiom_vec_index_decreases;
            }
            let ghost r0 = rest@;
            let ghost o0 = exprs_view(out@);
            let a = rest.remove(0);
            proof {
                assert(a == a0@[i as int]);
                assert(rest@ == r0.drop_first());
                assert(params_idx@.skip(i as int)[0] == params_idx@[i as int]);
                assert(params_idx@.skip(i as int).drop_first() =~= params_idx@.skip(i + 1));
            }
            proof {
                vstd::std_specs::vec::axiom_vec_index_decreases(a0, i as int);
                assert(decreases_to!(a0 => a0@[i as int]));
            }
            let (ra, a2) = self.visit_expr(a);
            proof {
                lemma_exprs_view_concat(out@.push(a2), rest@);
                assert(out@.push(a2).drop_last() =~= out@);
            }
            match ra {
                Err(x) => {
                    proof {
                        let rv = exprs_view(r0);
                        assert(rv[0] == a@);
                        assert(rv.drop_first() == exprs_view(rest@));
                        assert(check_args(st, rv, params_idx@.skip(i as int), i as nat) == (Err::<(), SemanticErrorView>(x@), seq![a2@] + exprs_view(rest@)));
                    }
                    out.push(a2);
                    proof { assert(o0 + (seq![a2@] + exprs_view(rest@)) =~= o0.push(a2@) + exprs_view(rest@)); }
                    out.append(&mut rest);
                    return (Err(x), out);
                },
                Ok(at) => {
                    let pidx = params_idx[i];
                    let pe = &self.symbol_table.tab[pidx];
                    proof { assert(st.tab[pidx as int] == pe@); }
                    let pt = self.typ_idx_to_kind(pe.typ);
                    if !self.is_type_compatible(&pt, &at) {
                        let err = SemanticError::type_mismatch(pt.to_string(), at.to_string(), a2.line, a2.column);
                        proof {
                            let rv = exprs_view(r0);
                            assert(rv[0] == a@);
                            assert(rv.drop_first() == exprs_view(rest@));
                            assert(check_args(st, rv, params_idx@.skip(i as int), i as nat) == (Err::<(), SemanticErrorView>(err@), seq![a2@] + exprs_view(rest@)));
                        }
                        out.push(a2);
                        proof { assert(o0 + (seq![a2@] + exprs_view(rest@)) =~= o0.push(a2@) + exprs_view(rest@)); }
                        out.append(&mut rest);
                        return (Err(err), out);
                    }
                    if !pe.normal && a2.annotation.tab_index.is_none() {
                        let num = usize_to_string(i + 1);
                        let err = SemanticError::new(
                            SemanticErrorKind::GenericError(join3("Argument ", num.as_str(), " must be a variable")),
                            a2.line,
                            a2.column,
                        );
                        out.push(a2);
                        proof { assert(o0 + (seq![a2@] + exprs_view(rest@)) =~= o0.push(a2@) + exprs_view(rest@)); }
                        out.append(&mut rest);
                        return (Err(err), out);
                    }
                    out.push(a2);
                    proof {
                        let tail = check_args(st, exprs_view(rest@), params_idx@.skip(i + 1), (i + 1) as nat);
                        assert(o0 + (seq![a2@] + tail.1) =~= o0.push(a2@) + tail.1);
                        assert(rest@ =~= a0@.skip(i + 1));
                    }
                    i += 1;
                },
            }
        }
        proof {
            assert(exprs_view(rest@) =~= Seq::<ExprV>::empty());
            assert(exprs_view(out@) + Seq::<ExprV>::empty() =~= exprs_view(out@));
        }
        (Ok(()), out)
    }
}

/// Every error as a value, after one more is recorded.
pub proof fn lemma_errs_push(v: Seq<SemanticError>, e: SemanticError)
    ensures
        errs_view(v.push(e)) == errs_view(v).push(e@),
        errs_view(v.push(e)).len() == v.len() + 1,
{
    assert(errs_view(v.push(e)) =~= errs_view(v).push(e@));
}

/// A checked prefix of statements in front of the outcome of the rest.
pub open spec fn prepend_stmts(o: Seq<StmtV>, r: (Seq<SemanticErrorView>, Seq<StmtV>))
    -> (Seq<SemanticErrorView>, Seq<StmtV>) {
    (r.0, o + r.1)
}

/// A checked prefix of branches in front of the outcome of the rest.
pub open spec fn prepend_branches(o: Seq<CaseBranchV>, r: (Seq<SemanticErrorView>, Seq<CaseBranchV>))
    -> (Seq<SemanticErrorView>, Seq<CaseBranchV>) {
    (r.0, o + r.1)
}

/// A checked prefix of labels in front of the outcome of the rest.
pub open spec fn prepend_labels(o: Seq<ExprV>, r: (Seq<SemanticErrorView>, Seq<ExprV>))
    -> (Seq<SemanticErrorView>, Seq<ExprV>) {
    (r.0, o + r.1)
}

/// The value of an optional type.
pub open spec fn opt_type_view(t: Option<TypeKind>) -> Option<TypeKindV> {
    match t {
        Some(x) => Some(x@),
        None => None,
    }
}

impl SemanticAnalyzer {
    /// The analyzer after `next` differs from this one in its errors at
    /// most.
    pub open spec fn same_tables(&self, next: &SemanticAnalyzer) -> bool {
        &&& next.symbol_table == self.symbol_table
        &&& next.max_errors == self.max_errors
    }

    /// Whether enough errors have been reported to stop.
    fn should_bail(&self) -> (r: bool)
        ensures
            r == (self.errors@.len() >= self.max_errors),
    {
        self.errors.len() >= self.max_errors
    }

    /// Records an error; says whether enough have been reported to stop.
    fn report_error(&mut self, error: SemanticError) -> (r: bool)
        ensures
            old(self).same_tables(final(self)),
            final(self).errors@ == old(self).errors@.push(error),
            errs_view(final(self).errors@) == errs_view(old(self).errors@).push(error@),
            r == (final(self).errors@.len() >= final(self).max_errors),
    {
        proof { lemma_errs_push(self.errors@, error); }
        self.errors.push(error);
        self.should_bail()
    }

    /// Checks an expression that must have type `want`.
    fn visit_typed(&mut self, c: Expr, want: TypeKind, name: &str) -> (r: Expr)
        requires
            old(self).wf(),
        ensures
            old(self).same_tables(final(self)),
            (errs_view(final(self).errors@), r@)
                == typed_errors(old(self).symbol_table@, errs_view(old(self).errors@), c@, want@, name@),
    {
        let (res, c2) = self.visit_expr(c);
        match res {
            Ok(t) => {
                if !type_kind_eq(&t, &want) {
                    self.report_error(SemanticError::type_mismatch(string_of(name), t.to_string(), c2.line, c2.column));
                }
            },
            Err(x) => {
                self.report_error(x);
            },
        }
        c2
    }

    /// Reports what an assignment whose sides have been checked gets wrong.
    fn assignment_errors(
        &mut self,
        rt: Result<TypeKind, SemanticError>,
        t2: &Expr,
        rv: Result<TypeKind, SemanticError>,
        line: usize,
        col: usize,
    )
        requires
            old(self).wf(),
        ensures
            old(self).same_tables(final(self)),
            errs_view(final(self).errors@) == assignment_errors(
                old(self).symbol_table@,
                errs_view(old(self).errors@),
                result_view(rt),
                t2@,
                result_view(rv),
                line as nat,
                col as nat,
            ),
    {
        match (rt, rv) {
            (Ok(tt), Ok(vt)) => {
                if let Some(idx) = t2.annotation.tab_index {
                    if idx < self.symbol_table.tab.len() {
                        proof { assert(self.symbol_table@.tab[idx as int] == self.symbol_table.tab@[idx as int]@); }
                        if self.symbol_table.tab[idx].obj == ObjectKind::Constant {
                            let n = self.symbol_table.tab[idx].name.clone();
                            self.report_error(SemanticError::new(SemanticErrorKind::AssignmentToConstant(n), line, col));
                            return;
                        }
                    }
                }
                if !type_kind_eq(&tt, &vt) && !(matches!(tt, TypeKind::Real) && matches!(vt, TypeKind::Integer)) {
                    self.report_error(SemanticError::type_mismatch(tt.to_string(), vt.to_string(), line, col));
                }
            },
            (Err(e), Ok(_)) => {
                self.report_error(e);
            },
            (Ok(_), Err(e)) => {
                self.report_error(e);
            },
            (Err(e1), Err(e2)) => {
                self.report_error(e1);
                self.report_error(e2);
            },
        }
    }

    /// Reports a for loop's iterator that is undeclared or not an integer.
    fn iterator_errors(&mut self, iterator: &String, line: usize, col: usize)
        requires
            old(self).wf(),
        ensures
            old(self).same_tables(final(self)),
            errs_view(final(self).errors@) == iterator_errors(
                old(self).symbol_table@,
                errs_view(old(self).errors@),
                iterator@,
                line as nat,
                col as nat,
            ),
    {
        match self.symbol_table.find(iterator.as_str()) {
            Some(idx) => {
                proof { assert(self.symbol_table@.tab[idx as int] == self.symbol_table.tab@[idx as int]@); }
                let iter_type = self.typ_idx_to_kind(self.symbol_table.tab[idx].typ);
                if !matches!(iter_type, TypeKind::Integer) {
                    self.report_error(SemanticError::new(SemanticErrorKind::InvalidIterator(iterator.clone()), line, col));
                }
            },
            None => {
                self.report_error(SemanticError::new(SemanticErrorKind::UndefinedIdentifier(iterator.clone()), line, col));
            },
        }
    }

    /// Checks a call of procedure `name` and its arguments.
    fn visit_proc_call(&self, name: &String, args: Vec<Expr>, line: usize, col: usize)
        -> (out: (Result<(), SemanticError>, Vec<Expr>))
        requires
            self.wf(),
        ensures
            (unit_view(out.0), exprs_view(out.1@)) == check_proc_call(self.symbol_table@, name@, exprs_view(args@), line as nat, col as nat),
    {
        let proc_idx = match self.symbol_table.find(name.as_str()) {
            Some(i) => i,
            None => return (Err(SemanticError::new(SemanticErrorKind::UndefinedIdentifier(name.clone()), line, col)), args),
        };
        let proc_entry = &self.symbol_table.tab[proc_idx];
        proof { assert(self.symbol_table@.tab[proc_idx as int] == proc_entry@); }
        if proc_entry.obj != ObjectKind::Procedure {
            return (Err(SemanticError::new(SemanticErrorKind::NotCallable(name.clone()), line, col)), args);
        }
        let btab_idx = proc_entry.ref_idx;
        if btab_idx == 0 {
            let args2 = self.visit_all_args(args);
            return (Ok(()), args2);
        }
        let params_idx = self.get_parameters_from_btab(btab_idx);
        self.validate_args(args, &params_idx, line, col)
    }

    /// Checks the labels of a case branch against the operand's type.
    fn visit_labels(&mut self, labels: Vec<Expr>, op_type: &Option<TypeKind>, line: usize, col: usize) -> (r: Vec<Expr>)
        requires
            old(self).wf(),
        ensures
            old(self).same_tables(final(self)),
            (errs_view(final(self).errors@), exprs_view(r@)) == check_labels(
                old(self).symbol_table@,
                errs_view(old(self).errors@),
                opt_type_view(*op_type),
                exprs_view(labels@),
                line as nat,
                col as nat,
            ),
    {
        let ghost st = self.symbol_table@;
        let ghost l0 = labels;
        let ghost old_self = *self;
        let mut rest = labels;
        let mut out: Vec<Expr> = Vec::new();
        proof {
            let r = check_labels(st, errs_view(self.errors@), opt_type_view(*op_type), exprs_view(l0@), line as nat, col as nat);
            assert(Seq::<ExprV>::empty() + r.1 =~= r.1);
        }
        while rest.len() > 0
            invariant
                self.wf(),
                old_self.same_tables(self),
                st == self.symbol_table@,
                check_labels(st, errs_view(old_self.errors@), opt_type_view(*op_type), exprs_view(l0@), line as nat, col as nat)
                    == prepend_labels(exprs_view(out@),
                        check_labels(st, errs_view(self.errors@), opt_type_view(*op_type), exprs_view(rest@), line as nat, col as nat)),
            decreases rest@.len(),
        {
            proof { lemma_exprs_view_drop_first(rest@); lemma_exprs_view(rest@); }
            let ghost r0 = rest@;
            let ghost o0 = exprs_view(out@);
            let ghost ov = out@;
            let l = rest.remove(0);
            let (res, l2) = self.visit_expr(l);
            match res {
                Ok(lt) => {
                    match op_type {
                        Some(expected) => {
                            if !type_kind_eq(&lt, expected) {
                                self.report_error(SemanticError::type_mismatch(expected.to_string(), lt.to_string(), line, col));
                            }
                        },
                        None => {},
                    }
                },
                Err(x) => {
                    self.report_error(x);
                },
            }
            out.push(l2);
            proof {
                assert(out@.drop_last() =~= ov);
                assert(rest@ == r0.drop_first());
                let tail = check_labels(st, errs_view(self.errors@), opt_type_view(*op_type), exprs_view(rest@), line as nat, col as nat);
                assert(o0 + (seq![l2@] + tail.1) =~= o0.push(l2@) + tail.1);
            }
        }
        proof { assert(exprs_view(out@) + exprs_view(rest@) =~= exprs_view(out@)); }
        out
    }
}

impl SemanticAnalyzer {
    /// Checks a statement: reports what is wrong with it, and annotates
    /// its expressions.
    #[verifier::spinoff_prover]
    #[verifier::rlimit(50)]
    fn visit_stmt(&mut self, stmt: Stmt) -> (r: Stmt)
        requires
            old(self).wf(),
        ensures
            old(self).same_tables(final(self)),
            (errs_view(final(self).errors@), r@)
                == check_stmt(old(self).symbol_table@, old(self).max_errors as nat, errs_view(old(self).errors@), stmt@),
        decreases stmt, 0int,
    {
        let ghost st = self.symbol_table@;
        match stmt {
            Stmt::Assignment { target, value, line, column } => {
                let (rt, t2) = self.visit_expr(target);
                let (rv, v2) = self.visit_expr(value);
                self.assignment_errors(rt, &t2, rv, line, column);
                Stmt::Assignment { target: t2, value: v2, line, column }
            },
            Stmt::ProcedureCall { name, args, line, column } => {
                let (res, args2) = self.visit_proc_call(&name, args, line, column);
                match res {
                    Err(e) => {
                        self.report_error(e);
                    },
                    Ok(_) => {},
                }
                Stmt::ProcedureCall { name, args: args2, line, column }
            },
            Stmt::If { condition, then_branch, else_branch, line, column } => {
                let c2 = self.visit_typed(condition, TypeKind::Boolean, "Boolean");
                let t2 = self.visit_stmt(*then_branch);
                let e2 = match else_branch {
                    Some(b) => Some(Box::new(self.visit_stmt(*b))),
                    None => None,
                };
                Stmt::If { condition: c2, then_branch: Box::new(t2), else_branch: e2, line, column }
            },
            Stmt::While { condition, body, line, column } => {
                let c2 = self.visit_typed(condition, TypeKind::Boolean, "Boolean");
                let b2 = self.visit_stmt(*body);
                Stmt::While { condition: c2, body: Box::new(b2), line, column }
            },
            Stmt::For { iterator, start, end, direction, body, line, column } => {
                self.iterator_errors(&iterator, line, column);
                let s2 = self.visit_typed(start, TypeKind::Integer, "Integer");
                let n2 = self.visit_typed(end, TypeKind::Integer, "Integer");
                let b2 = self.visit_stmt(*body);
                Stmt::For { iterator, start: s2, end: n2, direction, body: Box::new(b2), line, column }
            },
            Stmt::Repeat { body, condition, line, column } => {
                let body2 = self.visit_stmts(body);
                let c2 = self.visit_typed(condition, TypeKind::Boolean, "Boolean");
                Stmt::Repeat { body: body2, condition: c2, line, column }
            },
            Stmt::Case { operand, branches, else_branch, line, column } => {
                let (res, o2) = self.visit_expr(operand);
                let op_type = match res {
                    Ok(t) => Some(t),
                    Err(e) => {
                        self.report_error(e);
                        None
                    },
                };
                let bs2 = self.visit_branches(branches, &op_type, line, column);
                let e2 = match else_branch {
                    Some(v) => Some(self.visit_stmts(v)),
                    None => None,
                };
                Stmt::Case { operand: o2, branches: bs2, else_branch: e2, line, column }
            },
            Stmt::Compound(block) => {
                let ss2 = self.visit_stmts(block.statements);
                Stmt::Compound(BlockStmt { statements: ss2 })
            },
        }
    }

    /// Checks statements in order, stopping once enough errors have been
    /// reported; the statements after that are kept as they are.
    fn visit_stmts(&mut self, ss: Vec<Stmt>) -> (r: Vec<Stmt>)
        requires
            old(self).wf(),
        ensures
            old(self).same_tables(final(self)),
            (errs_view(final(self).errors@), stmts_view(r@))
                == check_stmts(old(self).symbol_table@, old(self).max_errors as nat, errs_view(old(self).errors@), stmts_view(ss@)),
        decreases ss, 1int,
    {
        let ghost st = self.symbol_table@;
        let ghost max = self.max_errors as nat;
        let ghost s0 = ss;
        let ghost old_self = *self;
        let mut rest = ss;
        let mut out: Vec<Stmt> = Vec::new();
        let ghost mut i: int = 0;
        proof {
            let r = check_stmts(st, max, errs_view(self.errors@), stmts_view(s0@));
            assert(Seq::<StmtV>::empty() + r.1 =~= r.1);
            assert(s0@.skip(0) =~= s0@);
        }
        while rest.len() > 0
            invariant
                self.wf(),
                old_self.same_tables(self),
                st == self.symbol_table@,
                max == self.max_errors as nat,
                s0 == ss,
                0 <= i <= s0@.len(),
                rest@ == s0@.skip(i),
                check_stmts(st, max, errs_view(old_self.errors@), stmts_view(s0@))
                    == prepend_stmts(stmts_view(out@), check_stmts(st, max, errs_view(self.errors@), stmts_view(rest@))),
            ensures
                rest@.len() == 0 || self.errors@.len() >= self.max_errors,
                check_stmts(st, max, errs_view(old_self.errors@), stmts_view(s0@))
                    == prepend_stmts(stmts_view(out@), check_stmts(st, max, errs_view(self.errors@), stmts_view(rest@))),
                self.wf(),
                old_self.same_tables(self),
            decreases rest@.len(),
        {
            if self.should_bail() {
                break;
            }
            proof {
                lemma_stmts_view_drop_first(rest@);
                lemma_stmts_view(rest@);
                lemma_errs_len(self.errors@);
            }
            let ghost r0 = rest@;
            let ghost o0 = stmts_view(out@);
            let ghost ov = out@;
            let s = rest.remove(0);
            proof {
                assert(s == s0@[i]);
                vstd::std_specs::vec::axiom_vec_index_decreases(s0, i);
                assert(decreases_to!(s0 => s0@[i]));
            }
            let s2 = self.visit_stmt(s);
            out.push(s2);
            proof {
                assert(out@.drop_last() =~= ov);
                assert(rest@ == r0.drop_first());
                let tail = check_stmts(st, max, errs_view(self.errors@), stmts_view(rest@));
                assert(o0 + (seq![s2@] + tail.1) =~= o0.push(s2@) + tail.1);
                i = i + 1;
                assert(s0@.skip(i) =~= rest@);
            }
        }
        proof {
            lemma_stmts_view_concat(out@, rest@);
            lemma_errs_len(self.errors@);
        }
        out.append(&mut rest);
        out
    }

    /// Checks the branches of a case statement.
    fn visit_branches(&mut self, bs: Vec<CaseBranch>, op_type: &Option<TypeKind>, line: usize, col: usize)
        -> (r: Vec<CaseBranch>)
        requires
            old(self).wf(),
        ensures
            old(self).same_tables(final(self)),
            (errs_view(final(self).errors@), branches_view(r@)) == check_branches(
                old(self).symbol_table@,
                old(self).max_errors as nat,
                errs_view(old(self).errors@),
                opt_type_view(*op_type),
                branches_view(bs@),
                line as nat,
                col as nat,
            ),
        decreases bs, 1int,
    {
        let ghost st = self.symbol_table@;
        let ghost max = self.max_errors as nat;
        let ghost b0 = bs;
        let ghost old_self = *self;
        let ghost ot = opt_type_view(*op_type);
        let mut rest = bs;
        let mut out: Vec<CaseBranch> = Vec::new();
        let ghost mut i: int = 0;
        proof {
            let r = check_branches(st, max, errs_view(self.errors@), ot, branches_view(b0@), line as nat, col as nat);
            assert(Seq::<CaseBranchV>::empty() + r.1 =~= r.1);
            assert(b0@.skip(0) =~= b0@);
        }
        while rest.len() > 0
            invariant
                self.wf(),
                old_self.same_tables(self),
                st == self.symbol_table@,
                max == self.max_errors as nat,
                ot == opt_type_view(*op_type),
                b0 == bs,
                0 <= i <= b0@.len(),
                rest@ == b0@.skip(i),
                check_branches(st, max, errs_view(old_self.errors@), ot, branches_view(b0@), line as nat, col as nat)
                    == prepend_branches(branches_view(out@),
                        check_branches(st, max, errs_view(self.errors@), ot, branches_view(rest@), line as nat, col as nat)),
            decreases rest@.len(),
        {
            proof {
                lemma_branches_view_drop_first(rest@);
                lemma_branches_view(rest@);
            }
            let ghost r0 = rest@;
            let ghost o0 = branches_view(out@);
            let ghost ov = out@;
            let b = rest.remove(0);
            proof {
                assert(b == b0@[i]);
                vstd::std_specs::vec::axiom_vec_index_decreases(b0, i);
                assert(decreases_to!(b0 => b0@[i]));
                assert(decreases_to!(b0@[i] => b0@[i].stmt));
            }
            let CaseBranch { labels, stmt } = b;
            let labels2 = self.visit_labels(labels, op_type, line, col);
            let s2 = self.visit_stmt(stmt);
            let nb = CaseBranch { labels: labels2, stmt: s2 };
            out.push(nb);
            proof {
                assert(out@.drop_last() =~= ov);
                assert(rest@ == r0.drop_first());
                let tail = check_branches(st, max, errs_view(self.errors@), ot, branches_view(rest@), line as nat, col as nat);
                let nbv = CaseBranchV { labels: exprs_view(labels2@), stmt: s2@ };
                assert(branches_view(out@) == o0.push(nbv));
                assert(o0 + (seq![nbv] + tail.1) =~= o0.push(nbv) + tail.1);
                i = i + 1;
                assert(b0@.skip(i) =~= rest@);
            }
        }
        proof { assert(branches_view(out@) + branches_view(rest@) =~= branches_view(out@)); }
        out
    }
}

/// Recording errors keeps one value per error.
pub proof fn lemma_errs_len(v: Seq<SemanticError>)
    ensures
        errs_view(v).len() == v.len(),
{
}

/// Entering an identifier keeps the tables as the analyzer keeps them,
/// when a type entry names a type that exists.
pub proof fn lemma_entered_ok(st: SymbolTableV, name: Seq<char>, obj: ObjectKind, typ: usize, adr: usize, normal: bool)
    requires
        tables_ok(st),
        obj == ObjectKind::Type ==> typ <= st.tab.len(),
    ensures
        tables_ok(st.entered(name, obj, typ, adr, normal)),
{
    let st2 = st.entered(name, obj, typ, adr, normal);
    assert forall|i: int| 0 <= i < st2.tab.len() && (#[trigger] st2.tab[i]).obj == ObjectKind::Type && st2.tab[i].ref_idx > 0
        && st2.tab[i].ref_idx - 1 < st2.atab.len() implies (st2.atab[st2.tab[i].ref_idx - 1].etyp as int) < i by {
        if i < st.tab.len() {
            assert(st2.tab[i] == st.tab[i]);
        }
    }
    assert forall|i: int| 0 <= i < st2.tab.len() && (#[trigger] st2.tab[i]).obj == ObjectKind::Type implies st2.tab[i].typ
        < st2.tab.len() && (st2.tab[i].ref_idx > 0 ==> st2.tab[i].ref_idx - 1 < st2.atab.len()) by {
        if i < st.tab.len() {
            assert(st2.tab[i] == st.tab[i]);
        }
    }
}

impl SemanticAnalyzer {
    /// Whether an expression is a compile-time constant.
    fn is_constant_expr(&self, expr: &Expr) -> (r: bool)
        requires
            self.wf(),
        ensures
            r == is_const_expr(self.symbol_table@, expr@),
        decreases expr,
    {
        match &expr.kind {
            ExprKind::LiteralInt(_) | ExprKind::LiteralReal(_) | ExprKind::LiteralString(_) | ExprKind::LiteralChar(_)
            | ExprKind::LiteralBool(_) => true,
            ExprKind::Unary { operand, .. } => self.is_constant_expr(operand),
            ExprKind::Binary { left, right, .. } => self.is_constant_expr(left) && self.is_constant_expr(right),
            ExprKind::Variable(name) => {
                match self.symbol_table.find(name.as_str()) {
                    Some(idx) => {
                        proof { assert(self.symbol_table@.tab[idx as int] == self.symbol_table.tab@[idx as int]@); }
                        self.symbol_table.tab[idx].obj == ObjectKind::Constant
                    },
                    None => false,
                }
            },
            _ => false,
        }
    }

    /// The value of a constant bound, zero when it is not constant.
    fn const_or_zero(&self, e: &Expr) -> (r: i32)
        ensures
            r == const_or_zero(e@),
    {
        match self.eval_const_expr(e) {
            Some(v) => v,
            None => 0,
        }
    }

    /// The type index for a type, recording array types in the tables.
    pub fn kind_to_typ_idx(&mut self, kind: &TypeKind) -> (r: usize)
        requires
            old(self).wf(),
        ensures
            final(self).wf(),
            old(self).errors == final(self).errors,
            old(self).max_errors == final(self).max_errors,
            (final(self).symbol_table@, r) == kind_to_typ(old(self).symbol_table@, kind@),
            r < final(self).symbol_table@.tab.len(),
        decreases kind,
    {
        let ghost st0 = self.symbol_table@;
        match kind {
            TypeKind::Integer => TYP_INT,
            TypeKind::Real => TYP_REAL,
            TypeKind::Boolean => TYP_BOOL,
            TypeKind::Char => TYP_CHAR,
            TypeKind::String => TYP_STRING,
            TypeKind::Array { index_range, element_type } => {
                let el_idx = self.kind_to_typ_idx(element_type);
                let ghost st1 = self.symbol_table@;
                let (low, high): (i32, i32) = match &**index_range {
                    TypeKind::Subrange(start, end) => (self.const_or_zero(start), self.const_or_zero(end)),
                    _ => (0, 0),
                };
                proof { assert(st1.tab[el_idx as int] == self.symbol_table.tab@[el_idx as int]@); }
                let el_size = self.symbol_table.tab[el_idx].adr;
                let atab_idx = self.symbol_table.make_array(TYP_INT, el_idx, 0, low, high, el_size);
                proof { assert(self.symbol_table.atab.len() == self.symbol_table.atab@.len()); }
                let ghost st2 = self.symbol_table@;
                proof {
                    assert forall|i: int| 0 <= i < st2.tab.len() && (#[trigger] st2.tab[i]).obj == ObjectKind::Type
                        && st2.tab[i].ref_idx > 0 && st2.tab[i].ref_idx - 1 < st2.atab.len()
                        implies (st2.atab[st2.tab[i].ref_idx - 1].etyp as int) < i by {
                        assert(st2.tab[i] == st1.tab[i]);
                        assert(st1.tab[i].ref_idx - 1 < st1.atab.len());
                        assert(st2.atab[st2.tab[i].ref_idx - 1] == st1.atab[st1.tab[i].ref_idx - 1]);
                    }
                    assert(tables_ok(st2));
                    lemma_entered_ok(st2, Seq::empty(), ObjectKind::Type, TYP_NOTYPE, 0, true);
                }
                let _ = self.symbol_table.enter(String::new(), ObjectKind::Type, TYP_NOTYPE, 0, true);
                let ghost st3 = self.symbol_table@;
                let total_size = self.symbol_table.atab[atab_idx].size;
                let last = self.symbol_table.tab.len() - 1;
                proof { assert(st3.tab[last as int] == self.symbol_table.tab@[last as int]@); }
                let link = self.symbol_table.tab[last].link;
                let level = self.symbol_table.tab[last].level;
                let entry = TabEntry {
                    name: String::new(),
                    link,
                    obj: ObjectKind::Type,
                    typ: last,
                    ref_idx: atab_idx + 1,
                    normal: true,
                    level,
                    adr: total_size,
                };
                self.symbol_table.tab.set(last, entry);
                proof {
                    let st4 = self.symbol_table@;
                    assert(st4.tab =~= st3.tab.update(last as int, entry@));
                    assert(st4 == as_array_type(st3, last as int, atab_idx as int, total_size));
                    let lh: (i32, i32) = match *Box::new(index_range@) {
                        TypeKindV::Subrange(lo, hi) => (const_or_zero(*lo), const_or_zero(*hi)),
                        _ => (0, 0),
                    };
                    assert(lh == (low, high));
                    assert(kind_to_typ(st0, element_type@) == (st1, el_idx));
                    assert(st2 == st1.with_array(TYP_INT, el_idx, 0, low, high, st1.tab[el_idx as int].adr));
                    assert(st3 == st2.entered(Seq::empty(), ObjectKind::Type, TYP_NOTYPE, 0, true));
                    assert(atab_idx == st1.atab.len());
                    assert(last == st2.tab.len());
                    assert(total_size == st2.atab[atab_idx as int].size);
                    assert forall|i: int| 0 <= i < st4.tab.len() implies (#[trigger] st4.tab[i]).link < (if i == 0 { 1 } else { i }) by {
                        if i != last { assert(st4.tab[i] == st3.tab[i]); }
                    }
                    assert forall|i: int| 0 <= i < st4.tab.len() && (#[trigger] st4.tab[i]).obj == ObjectKind::Type
                        && st4.tab[i].ref_idx > 0 && st4.tab[i].ref_idx - 1 < st4.atab.len()
                        implies (st4.atab[st4.tab[i].ref_idx - 1].etyp as int) < i by {
                        if i != last { assert(st4.tab[i] == st3.tab[i]); }
                    }
                    assert forall|i: int| 0 <= i < st4.tab.len() && (#[trigger] st4.tab[i]).obj == ObjectKind::Type
                        implies st4.tab[i].typ < st4.tab.len() && (st4.tab[i].ref_idx > 0 ==> st4.tab[i].ref_idx - 1 < st4.atab.len()) by {
                        if i != last { assert(st4.tab[i] == st3.tab[i]); }
                    }
                }
                last
            },
            TypeKind::Subrange(_, _) => TYP_INT,
            TypeKind::Custom(name) => {
                match self.symbol_table.find(name.as_str()) {
                    Some(idx) => {
                        proof { assert(self.symbol_table@.tab[idx as int] == self.symbol_table.tab@[idx as int]@); }
                        if self.symbol_table.tab[idx].obj == ObjectKind::Type {
                            self.symbol_table.tab[idx].typ
                        } else {
                            TYP_NOTYPE
                        }
                    },
                    None => TYP_NOTYPE,
                }
            },
            TypeKind::Void => TYP_NOTYPE,
        }
    }
}

/// A checked prefix of declarations in front of the outcome of the rest.
pub open spec fn prepend_decls(o: Seq<DeclV>, r: (SymbolTableV, Seq<SemanticErrorView>, Seq<DeclV>))
    -> (SymbolTableV, Seq<SemanticErrorView>, Seq<DeclV>) {
    (r.0, r.1, o + r.2)
}

/// The tables after `set_lpar` are kept as the analyzer keeps them.
pub proof fn lemma_set_lpar_ok(st: SymbolTableV)
    requires
        tables_ok(st),
    ensures
        tables_ok(set_lpar(st)),
{
    let st2 = set_lpar(st);
    assert forall|b: int| 0 <= b < st2.btab.len() implies (#[trigger] st2.btab[b]).last < st2.tab.len()
        && st2.btab[b].lpar < st2.tab.len() by {
        assert(st.btab[b].last < st.tab.len());
    }
}

impl SemanticAnalyzer {
    /// Reports `name` if it is already declared in the current scope.
    fn check_redeclaration(&mut self, name: &String, line: usize, col: usize) -> (r: bool)
        requires
            old(self).wf(),
        ensures
            old(self).same_tables(final(self)),
            r == (old(self).symbol_table@.spec_find_in_current_scope(name@) is Some),
            errs_view(final(self).errors@) == if r {
                errs_view(old(self).errors@).push(err_at(ErrorKindView::RedeclaredIdentifier(name@), line as nat, col as nat))
            } else {
                errs_view(old(self).errors@)
            },
    {
        if let Some(_) = self.symbol_table.find_in_current_scope(name.as_str()) {
            self.report_error(SemanticError::new(SemanticErrorKind::RedeclaredIdentifier(name.clone()), line, col));
            true
        } else {
            false
        }
    }

    /// Enters variables of type `ti`, reporting those declared before in
    /// the current scope.
    fn enter_variables(&mut self, names: &Vec<String>, ti: usize, line: usize, col: usize)
        requires
            old(self).wf(),
        ensures
            final(self).wf(),
            final(self).max_errors == old(self).max_errors,
            (final(self).symbol_table@, errs_view(final(self).errors@))
                == enter_names(old(self).symbol_table@, errs_view(old(self).errors@), names_view(names@), ti, line as nat, col as nat),
    {
        let ghost st0 = self.symbol_table@;
        let ghost e0 = errs_view(self.errors@);
        let ghost nv = names_view(names@);
        let mut i: usize = 0;
        proof { assert(nv.skip(0) =~= nv); }
        while i < names.len()
            invariant
                self.wf(),
                self.max_errors == old(self).max_errors,
                nv == names_view(names@),
                nv.len() == names@.len(),
                i <= names@.len(),
                enter_names(st0, e0, nv, ti, line as nat, col as nat)
                    == enter_names(self.symbol_table@, errs_view(self.errors@), nv.skip(i as int), ti, line as nat, col as nat),
            decreases names@.len() - i,
        {
            proof { assert(nv.skip(i as int).drop_first() =~= nv.skip(i + 1)); assert(nv[i as int] == names@[i as int]@); }
            if !self.check_redeclaration(&names[i], line, col) {
                proof { lemma_entered_ok(self.symbol_table@, names@[i as int]@, ObjectKind::Variable, ti, 0, true); }
                self.symbol_table.enter(names[i].clone(), ObjectKind::Variable, ti, 0, true);
            }
            i += 1;
        }
    }

    /// Enters a parameter group: its type, then its names.
    fn visit_param(&mut self, param: &Param)
        requires
            old(self).wf(),
        ensures
            final(self).wf(),
            final(self).errors == old(self).errors,
            final(self).max_errors == old(self).max_errors,
            final(self).symbol_table@ == enter_param(old(self).symbol_table@, param_view(*param)),
    {
        let type_idx = self.kind_to_typ_idx(&param.type_kind);
        let ghost st1 = self.symbol_table@;
        let is_normal = !param.is_var;
        let ghost nv = names_view(param.names@);
        let mut i: usize = 0;
        proof { assert(nv.skip(0) =~= nv); }
        while i < param.names.len()
            invariant
                self.wf(),
                self.errors == old(self).errors,
                self.max_errors == old(self).max_errors,
                nv == names_view(param.names@),
                nv.len() == param.names@.len(),
                i <= param.names@.len(),
                enter_param_names(st1, nv, type_idx, is_normal)
                    == enter_param_names(self.symbol_table@, nv.skip(i as int), type_idx, is_normal),
            decreases param.names@.len() - i,
        {
            proof {
                assert(nv.skip(i as int).drop_first() =~= nv.skip(i + 1));
                assert(nv[i as int] == param.names@[i as int]@);
                lemma_entered_ok(self.symbol_table@, param.names@[i as int]@, ObjectKind::Variable, type_idx, 0, is_normal);
            }
            self.symbol_table.enter(param.names[i].clone(), ObjectKind::Variable, type_idx, 0, is_normal);
            i += 1;
        }
    }

    /// Enters parameter groups in order.
    fn visit_params(&mut self, params: &Vec<Param>)
        requires
            old(self).wf(),
        ensures
            final(self).wf(),
            final(self).errors == old(self).errors,
            final(self).max_errors == old(self).max_errors,
            final(self).symbol_table@ == enter_params(old(self).symbol_table@, params_view(params@)),
    {
        let ghost st0 = self.symbol_table@;
        let ghost pv = params_view(params@);
        let mut i: usize = 0;
        proof { assert(pv.skip(0) =~= pv); }
        while i < params.len()
            invariant
                self.wf(),
                self.errors == old(self).errors,
                self.max_errors == old(self).max_errors,
                pv == params_view(params@),
                pv.len() == params@.len(),
                i <= params@.len(),
                enter_params(st0, pv) == enter_params(self.symbol_table@, pv.skip(i as int)),
            decreases params@.len() - i,
        {
            proof { assert(pv.skip(i as int).drop_first() =~= pv.skip(i + 1)); assert(pv[i as int] == param_view(params@[i as int])); }
            self.visit_param(&params[i]);
            i += 1;
        }
    }

    /// Records the newest identifier of the current block as its last
    /// parameter.
    fn set_lpar(&mut self)
        requires
            old(self).wf(),
        ensures
            final(self).wf(),
            final(self).errors == old(self).errors,
            final(self).max_errors == old(self).max_errors,
            final(self).symbol_table@ == set_lpar(old(self).symbol_table@),
    {
        let cur = self.symbol_table.display[self.symbol_table.level];
        let mut b = self.symbol_table.btab[cur];
        b.lpar = b.last;
        self.symbol_table.btab.set(cur, b);
        proof {
            assert(self.symbol_table@ =~= set_lpar(old(self).symbol_table@));
            lemma_set_lpar_ok(old(self).symbol_table@);
        }
    }
}

/// Tables with the same identifiers and arrays as tables the analyzer
/// keeps are kept as it keeps them, if they hang together.
pub proof fn lemma_same_entries_ok(st: SymbolTableV, st2: SymbolTableV)
    requires
        tables_ok(st),
        st2.wf(),
        st2.tab == st.tab,
        st2.atab == st.atab,
    ensures
        tables_ok(st2),
{
}

/// Pointing an entry that is not a type at a block keeps the tables as
/// the analyzer keeps them.
pub proof fn lemma_with_ref_ok(st: SymbolTableV, i: int, r: usize)
    requires
        tables_ok(st),
        0 <= i < st.tab.len(),
        st.tab[i].obj != ObjectKind::Type,
    ensures
        tables_ok(st.with_ref(i, r)),
{
    let st2 = st.with_ref(i, r);
    assert forall|j: int| 0 <= j < st2.tab.len() implies (#[trigger] st2.tab[j]).link < (if j == 0 { 1 } else { j }) by {
        assert(st2.tab[j].link == st.tab[j].link);
    }
    assert forall|j: int| 0 <= j < st2.tab.len() && (#[trigger] st2.tab[j]).obj == ObjectKind::Type implies st2.tab[j].typ
        < st2.tab.len() && (st2.tab[j].ref_idx > 0 ==> st2.tab[j].ref_idx - 1 < st2.atab.len()) by {
        assert(j != i);
        assert(st2.tab[j] == st.tab[j]);
    }
    assert forall|j: int| 0 <= j < st2.tab.len() && (#[trigger] st2.tab[j]).obj == ObjectKind::Type && st2.tab[j].ref_idx > 0
        && st2.tab[j].ref_idx - 1 < st2.atab.len() implies (st2.atab[st2.tab[j].ref_idx - 1].etyp as int) < j by {
        assert(j != i);
        assert(st2.tab[j] == st.tab[j]);
    }
}

impl SemanticAnalyzer {
    /// Enters a procedure or function in the current scope, referring to
    /// the block that the scope opened next will have.
    fn enter_with_block(&mut self, name: String, obj: ObjectKind, typ: usize)
        requires
            old(self).wf(),
            obj != ObjectKind::Type,
        ensures
            final(self).wf(),
            final(self).errors == old(self).errors,
            final(self).max_errors == old(self).max_errors,
            final(self).symbol_table@ == old(self).symbol_table@.entered(name@, obj, typ, 0, true)
                .with_ref(old(self).symbol_table@.tab.len() as int, old(self).symbol_table@.btab.len() as usize),
    {
        let b = self.symbol_table.btab.len();
        proof { lemma_entered_ok(self.symbol_table@, name@, obj, typ, 0, true); }
        let i = self.symbol_table.enter(name, obj, typ, 0, true);
        proof { lemma_with_ref_ok(self.symbol_table@, i as int, b); }
        self.symbol_table.set_ref(i, b);
    }

    /// Opens a scope, keeping the tables as the analyzer keeps them.
    fn open_scope(&mut self)
        requires
            old(self).wf(),
        ensures
            final(self).wf(),
            final(self).errors == old(self).errors,
            final(self).max_errors == old(self).max_errors,
            final(self).symbol_table@ == old(self).symbol_table@.scope_entered(),
    {
        self.symbol_table.enter_scope();
        proof { lemma_same_entries_ok(old(self).symbol_table@, self.symbol_table@); }
    }

    /// Closes the current scope.
    fn close_scope(&mut self)
        requires
            old(self).wf(),
        ensures
            final(self).wf(),
            final(self).errors == old(self).errors,
            final(self).max_errors == old(self).max_errors,
            final(self).symbol_table@ == old(self).symbol_table@.scope_exited(),
    {
        self.symbol_table.exit_scope();
        proof { lemma_same_entries_ok(old(self).symbol_table@, self.symbol_table@); }
    }

    /// Enters an identifier, keeping the tables as the analyzer keeps them.
    fn enter_entry(&mut self, name: String, obj: ObjectKind, typ: usize, adr: usize, normal: bool)
        requires
            old(self).wf(),
            obj == ObjectKind::Type ==> typ < old(self).symbol_table@.tab.len(),
        ensures
            final(self).wf(),
            final(self).errors == old(self).errors,
            final(self).max_errors == old(self).max_errors,
            final(self).symbol_table@ == old(self).symbol_table@.entered(name@, obj, typ, adr, normal),
    {
        proof { lemma_entered_ok(self.symbol_table@, name@, obj, typ, adr, normal); }
        self.symbol_table.enter(name, obj, typ, adr, normal);
    }

    /// Checks a declaration: enters what it declares, reports what is
    /// wrong with it, and checks the bodies of subprograms in scopes of
    /// their own.
    #[verifier::spinoff_prover]
    #[verifier::rlimit(50)]
    fn visit_decl(&mut self, decl: Decl) -> (r: Decl)
        requires
            old(self).wf(),
        ensures
            final(self).wf(),
            final(self).max_errors == old(self).max_errors,
            (final(self).symbol_table@, errs_view(final(self).errors@), r@)
                == check_decl(old(self).symbol_table@, old(self).max_errors as nat, errs_view(old(self).errors@), decl@),
        decreases decl, 0int,
    {
        match decl {
            Decl::Constant { name, value, line, column } => {
                let (res, v2) = self.visit_expr(value);
                match res {
                    Ok(type_kind) => {
                        if !self.is_constant_expr(&v2) {
                            self.report_error(SemanticError::new(
                                SemanticErrorKind::GenericError(
                                    join3("Constant '", name.as_str(), "' must be initialized with a constant expression"),
                                ),
                                line,
                                column,
                            ));
                        }
                        let type_idx = self.kind_to_typ_idx(&type_kind);
                        self.enter_entry(name.clone(), ObjectKind::Constant, type_idx, 0, true);
                    },
                    Err(e) => {
                        self.report_error(e);
                        self.enter_entry(name.clone(), ObjectKind::Constant, TYP_NOTYPE, 0, true);
                    },
                }
                Decl::Constant { name, value: v2, line, column }
            },
            Decl::Type { name, wrapped_type, line, column } => {
                if !self.check_redeclaration(&name, line, column) {
                    let type_idx = self.kind_to_typ_idx(&wrapped_type);
                    self.enter_entry(name.clone(), ObjectKind::Type, type_idx, 0, true);
                }
                Decl::Type { name, wrapped_type, line, column }
            },
            Decl::Variable { name, type_kind, line, column } => {
                if matches!(type_kind, TypeKind::Void) {
                    self.report_error(SemanticError::type_mismatch(string_of("Valid Type"), string_of("Void"), line, column));
                } else {
                    let type_idx = self.kind_to_typ_idx(&type_kind);
                    self.enter_variables(&name, type_idx, line, column);
                }
                Decl::Variable { name, type_kind, line, column }
            },
            Decl::Procedure { name, params, local_decls, body, line, column } => {
                if self.check_redeclaration(&name, line, column) {
                    return Decl::Procedure { name, params, local_decls, body, line, column };
                }
                self.enter_with_block(name.clone(), ObjectKind::Procedure, TYP_NOTYPE);
                self.open_scope();
                self.visit_params(&params);
                self.set_lpar();
                let decls2 = self.visit_decls(local_decls);
                let stmts2 = self.visit_stmts(body.statements);
                self.close_scope();
                Decl::Procedure { name, params, local_decls: decls2, body: BlockStmt { statements: stmts2 }, line, column }
            },
            Decl::Function { name, params, return_type, local_decls, body, line, column } => {
                if self.check_redeclaration(&name, line, column) {
                    return Decl::Function { name, params, return_type, local_decls, body, line, column };
                }
                if matches!(return_type, TypeKind::Void) {
                    self.report_error(SemanticError::type_mismatch(string_of("Valid Return Type"), string_of("Void"), line, column));
                }
                let ret_idx = self.kind_to_typ_idx(&return_type);
                self.enter_with_block(name.clone(), ObjectKind::Function, ret_idx);
                self.open_scope();
                self.visit_params(&params);
                self.set_lpar();
                self.enter_entry(name.clone(), ObjectKind::Variable, ret_idx, 0, true);
                let decls2 = self.visit_decls(local_decls);
                let stmts2 = self.visit_stmts(body.statements);
                self.close_scope();
                Decl::Function {
                    name,
                    params,
                    return_type,
                    local_decls: decls2,
                    body: BlockStmt { statements: stmts2 },
                    line,
                    column,
                }
            },
        }
    }

    /// Checks declarations in order, stopping once enough errors have been
    /// reported; the declarations after that are kept as they are.
    fn visit_decls(&mut self, ds: Vec<Decl>) -> (r: Vec<Decl>)
        requires
            old(self).wf(),
        ensures
            final(self).wf(),
            final(self).max_errors == old(self).max_errors,
            (final(self).symbol_table@, errs_view(final(self).errors@), decls_view(r@))
                == check_decls(old(self).symbol_table@, old(self).max_errors as nat, errs_view(old(self).errors@), decls_view(ds@)),
        decreases ds, 1int,
    {
        let ghost max = self.max_errors as nat;
        let ghost d0 = ds;
        let ghost st0 = self.symbol_table@;
        let ghost e0 = errs_view(self.errors@);
        let mut rest = ds;
        let mut out: Vec<Decl> = Vec::new();
        let ghost mut i: int = 0;
        proof {
            let r = check_decls(st0, max, e0, decls_view(d0@));
            assert(Seq::<DeclV>::empty() + r.2 =~= r.2);
            assert(d0@.skip(0) =~= d0@);
        }
        while rest.len() > 0
            invariant
                self.wf(),
                max == self.max_errors as nat,
                self.max_errors == old(self).max_errors,
                d0 == ds,
                0 <= i <= d0@.len(),
                rest@ == d0@.skip(i),
                check_decls(st0, max, e0, decls_view(d0@))
                    == prepend_decls(decls_view(out@), check_decls(self.symbol_table@, max, errs_view(self.errors@), decls_view(rest@))),
            ensures
                rest@.len() == 0 || self.errors@.len() >= self.max_errors,
                check_decls(st0, max, e0, decls_view(d0@))
                    == prepend_decls(decls_view(out@), check_decls(self.symbol_table@, max, errs_view(self.errors@), decls_view(rest@))),
                self.wf(),
                self.max_errors == old(self).max_errors,
            decreases rest@.len(),
        {
            if self.should_bail() {
                break;
            }
            proof {
                lemma_decls_view_drop_first(rest@);
                lemma_decls_view(rest@);
                lemma_errs_len(self.errors@);
            }
            let ghost r0 = rest@;
            let ghost o0 = decls_view(out@);
            let ghost ov = out@;
            let d = rest.remove(0);
            proof {
                assert(d == d0@[i]);
                vstd::std_specs::vec::axiom_vec_index_decreases(d0, i);
                assert(decreases_to!(d0 => d0@[i]));
            }
            let d2 = self.visit_decl(d);
            out.push(d2);
            proof {
                assert(out@.drop_last() =~= ov);
                assert(rest@ == r0.drop_first());
                let tail = check_decls(self.symbol_table@, max, errs_view(self.errors@), decls_view(rest@));
                assert(o0 + (seq![d2@] + tail.2) =~= o0.push(d2@) + tail.2);
                i = i + 1;
                assert(d0@.skip(i) =~= rest@);
            }
        }
        proof {
            lemma_decls_view_concat(out@, rest@);
            lemma_errs_len(self.errors@);
        }
        out.append(&mut rest);
        out
    }
}

/// The tables a new symbol table starts with are kept as the analyzer
/// keeps them.
pub proof fn lemma_initial_ok(st: SymbolTable)
    requires
        st.wf(),
        initial_tables(st),
    ensures
        tables_ok(st@),
{
    let v = st@;
    assert forall|i: int| 0 <= i < v.tab.len() && (#[trigger] v.tab[i]).obj == ObjectKind::Type implies v.tab[i].typ
        < v.tab.len() && (v.tab[i].ref_idx > 0 ==> v.tab[i].ref_idx - 1 < v.atab.len()) by {
        assert(v.tab[i] == st.tab@[i]@);
        if i == 0 {
        } else if i < 6 {
            let (n, o, t, a) = system_entries()[i - 1];
            assert(entry_is(st.tab@[i], n, (i - 1) as usize, o, t, 0, true, 0, a));
        } else if i < 35 {
            assert(entry_is(st.tab@[i], reserved_words()[i - 6], 0, ObjectKind::Constant, TYP_NOTYPE, 0, true, 0, 0));
        } else {
            let (n, o, t, a) = system_entries()[i - 30];
            assert(entry_is(st.tab@[i], n, (if i == 35 { 5 } else { (i - 1) as usize }), o, t, 0, true, 0, a));
        }
    }
    assert forall|i: int| 0 <= i < v.tab.len() && (#[trigger] v.tab[i]).obj == ObjectKind::Type && v.tab[i].ref_idx > 0
        && v.tab[i].ref_idx - 1 < v.atab.len() implies (v.atab[v.tab[i].ref_idx - 1].etyp as int) < i by {
        assert(v.atab.len() == 0);
    }
}

impl SemanticAnalyzer {
    /// An analyzer with fresh tables, no errors, and a limit of fifty
    /// errors.
    pub fn new() -> (r: SemanticAnalyzer)
        ensures
            r.wf(),
            initial_tables(r.symbol_table),
            r.errors@.len() == 0,
            r.max_errors == 50,
    {
        let symbol_table = SymbolTable::new();
        proof { lemma_initial_ok(symbol_table); }
        SemanticAnalyzer { symbol_table, errors: Vec::new(), max_errors: 50 }
    }

    /// Checks a program: its name in the global scope, then its
    /// declarations and main body in a scope of their own.
    fn visit_program(&mut self, program: ProgramAST) -> (r: ProgramAST)
        requires
            old(self).wf(),
        ensures
            final(self).wf(),
            final(self).max_errors == old(self).max_errors,
            (final(self).symbol_table@, errs_view(final(self).errors@), r@)
                == check_program(old(self).symbol_table@, old(self).max_errors as nat, errs_view(old(self).errors@), program@),
    {
        let ProgramAST { name, declarations, main_body } = program;
        self.enter_entry(name.clone(), ObjectKind::Program, TYP_NOTYPE, 0, true);
        self.open_scope();
        let decls2 = self.visit_decls(declarations);
        let body2 = if !self.should_bail() {
            self.visit_stmts(main_body.statements)
        } else {
            proof { lemma_errs_len(self.errors@); }
            main_body.statements
        };
        self.close_scope();
        ProgramAST { name, declarations: decls2, main_body: BlockStmt { statements: body2 } }
    }

    /// Analyzes a program: fills the tables, annotates the program, and
    /// gives back the errors found, if any, leaving none behind.
    pub fn analyze(&mut self, program: &mut ProgramAST) -> (r: Result<(), Vec<SemanticError>>)
        requires
            old(self).wf(),
        ensures
            final(self).wf(),
            final(self).max_errors == old(self).max_errors,
            final(self).errors@.len() == 0,
            ({
                let (st, errs, p) = check_program(
                    old(self).symbol_table@,
                    old(self).max_errors as nat,
                    errs_view(old(self).errors@),
                    old(program)@,
                );
                &&& final(self).symbol_table@ == st
                &&& final(program)@ == p
                &&& match r {
                    Ok(_) => errs.len() == 0,
                    Err(v) => errs.len() > 0 && errs_view(v@) == errs,
                }
            }),
    {
        let mut taken = ProgramAST { name: String::new(), declarations: Vec::new(), main_body: BlockStmt { statements: Vec::new() } };
        std::mem::swap(&mut taken, program);
        let analyzed = self.visit_program(taken);
        *program = analyzed;
        proof { lemma_errs_len(self.errors@); }
        if self.errors.len() == 0 {
            Ok(())
        } else {
            let mut errors: Vec<SemanticError> = Vec::new();
            std::mem::swap(&mut errors, &mut self.errors);
            Err(errors)
        }
    }
}

} // verus!
