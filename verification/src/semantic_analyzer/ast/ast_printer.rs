//! The tree-style text of an annotated syntax tree: one line per node,
//! drawn with the same connectors as the parse tree, each expression with
//! what the analyzer learnt about it.
use vstd::prelude::*;
use crate::parser::tree_printer::{bars, ends_with, lemma_five_parts, lemma_four_parts, shows, starts_with, tline, tree_prefix};
use crate::semantic_analyzer::ast::ast::{
    BlockStmt, CaseBranch, CaseBranchV, Decl, DeclV, Expr, ExprKind, ExprKindV, ExprV, ForDirection, Param, ParamV,
    ProgramAST, ProgramV, SemanticData, SemanticDataV, Stmt, StmtV, bin_op_name, branches_view, data_view,
    decl_view, decls_view, expr_view, exprs_view, lemma_branches_view, lemma_decls_view, lemma_exprs_view,
    lemma_stmts_view, names_view, param_view, params_view, stmt_view, stmts_view, type_display, un_op_name,
};
use crate::text::{decimal, i32_to_string, int_decimal, join3, push_char, string_of, usize_to_string};

verus! {

// ------------------------------------------------------------ small texts

/// `a, b, c`: the first `n` texts with `, ` between them.
pub open spec fn comma_joined(parts: Seq<Seq<char>>, n: int) -> Seq<char>
    decreases n,
{
    if n <= 0 || n > parts.len() {
        Seq::empty()
    } else if n == 1 {
        parts[0]
    } else {
        comma_joined(parts, n - 1) + ", "@ + parts[n - 1]
    }
}

/// The parts of an annotation that are known: the table index, the type and
/// whether it is constant, in that order.
pub open spec fn annotation_parts(d: SemanticDataV) -> Seq<Seq<char>> {
    let a = match d.tab_index {
        Some(i) => seq!["tab_index:"@ + decimal(i as nat)],
        None => Seq::empty(),
    };
    let b = match d.type_kind {
        Some(t) => seq!["type:"@ + type_display(t)],
        None => Seq::empty(),
    };
    let c = if d.is_const { seq!["const"@] } else { Seq::empty() };
    a + b + c
}

/// The note after a node's label: ` -> ` and the known parts, or nothing
/// when nothing is known.
pub open spec fn annotation_text(d: SemanticDataV) -> Seq<char> {
    let p = annotation_parts(d);
    if p.len() == 0 { Seq::empty() } else { " -> "@ + comma_joined(p, p.len() as int) }
}

/// `true` or `false`.
pub open spec fn bool_text(b: bool) -> Seq<char> {
    if b { "true"@ } else { "false"@ }
}

/// The one-line summary of an expression; forms it does not spell out are
/// `...`.
pub open spec fn expr_text(e: ExprV) -> Seq<char>
    decreases e,
{
    match e.kind {
        ExprKindV::Variable(n) => "'"@ + n + "'"@,
        ExprKindV::LiteralInt(v) => int_decimal(v as int),
        ExprKindV::LiteralReal(s) => s,
        ExprKindV::LiteralString(s) => "'"@ + s + "'"@,
        ExprKindV::LiteralBool(b) => bool_text(b),
        ExprKindV::Binary { left, op, right } => expr_text(*left) + " "@ + bin_op_name(op) + " "@ + expr_text(*right),
        ExprKindV::FunctionCall { name, .. } => name + "()"@,
        ExprKindV::ArrayAccess { array, index } => expr_text(*array) + "["@ + expr_text(*index) + "]"@,
        _ => "..."@,
    }
}

/// The label of an expression node, without its note.
pub open spec fn expr_label(e: ExprV) -> Seq<char> {
    match e.kind {
        ExprKindV::Binary { op, .. } => "BinOp '"@ + bin_op_name(op) + "'"@,
        ExprKindV::Unary { op, .. } => "UnOp '"@ + un_op_name(op) + "'"@,
        ExprKindV::LiteralInt(v) => "Number("@ + int_decimal(v as int) + ")"@,
        ExprKindV::LiteralReal(s) => "Number("@ + s + ")"@,
        ExprKindV::LiteralString(s) => "String('"@ + s + "')"@,
        ExprKindV::LiteralChar(c) => "Char('"@ + seq![c] + "')"@,
        ExprKindV::LiteralBool(b) => "Bool("@ + bool_text(b) + ")"@,
        ExprKindV::Variable(n) => "Variable('"@ + n + "')"@,
        ExprKindV::ArrayAccess { .. } => "ArrayAccess"@,
        ExprKindV::FunctionCall { name, .. } => "FuncCall('"@ + name + "')"@,
    }
}

/// The full label of an expression node: the role it plays in its parent,
/// if any, its own label and its note.
pub open spec fn expr_full_label(e: ExprV, role: Seq<char>) -> Seq<char> {
    if role.len() == 0 {
        expr_label(e) + annotation_text(e.annotation)
    } else {
        role + " "@ + expr_label(e) + annotation_text(e.annotation)
    }
}

/// The role of the `i`-th argument of a procedure call.
pub open spec fn arg_role(i: nat) -> Seq<char> {
    "arg["@ + decimal(i) + "]"@
}

/// `To` or `Downto`.
pub open spec fn direction_name(d: ForDirection) -> Seq<char> {
    match d {
        ForDirection::To => "To"@,
        ForDirection::Downto => "Downto"@,
    }
}

// ------------------------------------------------------------ expressions

/// An expression node and, below it, its operands.
pub open spec fn at_expr(e: ExprV, role: Seq<char>, s: Seq<bool>, last: bool) -> Seq<char>
    decreases e, 1int,
{
    let c = s.push(last);
    tline(s, last, expr_full_label(e, role)) + match e.kind {
        ExprKindV::Binary { left, right, .. } => at_expr(*left, ""@, c, false) + at_expr(*right, ""@, c, true),
        ExprKindV::Unary { operand, .. } => at_expr(*operand, ""@, c, true),
        ExprKindV::ArrayAccess { array, index } => at_expr(*array, "array"@, c, false) + at_expr(*index, "index"@, c, true),
        ExprKindV::FunctionCall { args, .. } => at_args(args, c, args.len() as int, false),
        _ => Seq::empty(),
    }
}

/// The first `n` arguments, the last of the list drawn as the last child;
/// with `numbered`, each with its role `arg[i]`.
pub open spec fn at_args(v: Seq<ExprV>, s: Seq<bool>, n: int, numbered: bool) -> Seq<char>
    decreases v, n,
{
    if n <= 0 || n > v.len() {
        Seq::empty()
    } else {
        at_args(v, s, n - 1, numbered) + at_expr(
            v[n - 1],
            if numbered { arg_role((n - 1) as nat) } else { ""@ },
            s,
            n - 1 == v.len() - 1,
        )
    }
}

/// The first `n` labels of a case branch, none of them the last child.
pub open spec fn at_labels(v: Seq<ExprV>, s: Seq<bool>, n: int) -> Seq<char>
    decreases v, n,
{
    if n <= 0 || n > v.len() {
        Seq::empty()
    } else {
        at_labels(v, s, n - 1) + at_expr(v[n - 1], "label"@, s, false)
    }
}

// ------------------------------------------------------------- statements

/// A statement node and what stands below it.
pub open spec fn at_stmt(st: StmtV, s: Seq<bool>, last: bool) -> Seq<char>
    decreases st, 1int,
{
    let c = s.push(last);
    match st {
        StmtV::Assignment { target, value, .. } => tline(
            s,
            last,
            "Assign('"@ + expr_text(target) + " := "@ + expr_text(value) + "')"@ + annotation_text(target.annotation),
        ) + at_expr(target, "target"@, c, false) + at_expr(value, "value"@, c, true),
        StmtV::ProcedureCall { name, args, .. } => tline(s, last, "Call('"@ + name + "')"@) + at_args(
            args,
            c,
            args.len() as int,
            true,
        ),
        StmtV::If { condition, then_branch, else_branch, .. } => {
            let then_last = else_branch is None;
            tline(s, last, "If"@) + at_expr(condition, "cond"@, c, false) + tline(c, then_last, "then"@) + at_stmt(
                *then_branch,
                c.push(then_last),
                true,
            ) + match else_branch {
                Some(e) => tline(c, true, "else"@) + at_stmt(*e, c.push(true), true),
                None => Seq::empty(),
            }
        },
        StmtV::While { condition, body, .. } => tline(s, last, "While"@) + at_expr(condition, "cond"@, c, false)
            + tline(c, true, "do"@) + at_stmt(*body, c.push(true), true),
        StmtV::For { iterator, start, end, direction, body, .. } => tline(
            s,
            last,
            "For('"@ + iterator + "' := ... "@ + direction_name(direction) + " ...)"@,
        ) + at_expr(start, "start"@, c, false) + at_expr(end, "end"@, c, false) + tline(c, true, "do"@) + at_stmt(
            *body,
            c.push(true),
            true,
        ),
        StmtV::Repeat { body, condition, .. } => tline(s, last, "Repeat"@) + tline(c, false, "body"@) + at_stmts(
            body,
            c.push(false),
            body.len() as int,
        ) + at_expr(condition, "until"@, c, true),
        StmtV::Case { operand, branches, else_branch, .. } => {
            let has_else = else_branch is Some;
            tline(s, last, "Case"@) + at_expr(operand, "operand"@, c, branches.len() == 0 && !has_else)
                + at_branches(branches, c, branches.len() as int, has_else) + match else_branch {
                Some(v) => tline(c, true, "Else"@) + at_stmts(v, c.push(true), v.len() as int),
                None => Seq::empty(),
            }
        },
        StmtV::Compound(b) => tline(s, last, "Block"@) + at_stmts(b, c, b.len() as int),
    }
}

/// The first `n` statements of a list, the last of the list drawn as the
/// last child.
pub open spec fn at_stmts(v: Seq<StmtV>, s: Seq<bool>, n: int) -> Seq<char>
    decreases v, n,
{
    if n <= 0 || n > v.len() {
        Seq::empty()
    } else {
        at_stmts(v, s, n - 1) + at_stmt(v[n - 1], s, n - 1 == v.len() - 1)
    }
}

/// The first `n` branches of a case statement, numbered from one; the last
/// one is the last child only when no `else` part follows.
pub open spec fn at_branches(v: Seq<CaseBranchV>, s: Seq<bool>, n: int, has_else: bool) -> Seq<char>
    decreases v, n,
{
    if n <= 0 || n > v.len() {
        Seq::empty()
    } else {
        let b = v[n - 1];
        let bl = n - 1 == v.len() - 1 && !has_else;
        at_branches(v, s, n - 1, has_else) + tline(s, bl, "Branch "@ + decimal(n as nat)) + at_labels(
            b.labels,
            s.push(bl),
            b.labels.len() as int,
        ) + at_stmt(b.stmt, s.push(bl), true)
    }
}

// ----------------------------------------------------------- declarations

/// The line of a parameter group: `var ` for a reference group, the names
/// and the type.
pub open spec fn param_label(p: ParamV) -> Seq<char> {
    (if p.is_var { "var "@ } else { ""@ }) + comma_joined(p.names, p.names.len() as int) + ": "@ + type_display(
        p.type_kind,
    )
}

/// The first `n` parameter groups.
pub open spec fn at_param_lines(v: Seq<ParamV>, s: Seq<bool>, n: int) -> Seq<char>
    decreases n,
{
    if n <= 0 || n > v.len() {
        Seq::empty()
    } else {
        at_param_lines(v, s, n - 1) + tline(s, n - 1 == v.len() - 1, param_label(v[n - 1]))
    }
}

/// The parameters of a subprogram: nothing when it has none.
pub open spec fn at_params(v: Seq<ParamV>, s: Seq<bool>, last: bool) -> Seq<char> {
    if v.len() == 0 {
        Seq::empty()
    } else {
        tline(s, last, "Params"@) + at_param_lines(v, s.push(last), v.len() as int)
    }
}

/// The first `n` names of a variable declaration, one line each; the last
/// of them is the last child when the declaration is.
pub open spec fn at_var_names(names: Seq<Seq<char>>, t: Seq<char>, s: Seq<bool>, last: bool, n: int) -> Seq<char>
    decreases n,
{
    if n <= 0 || n > names.len() {
        Seq::empty()
    } else {
        at_var_names(names, t, s, last, n - 1) + tline(
            s,
            last && n - 1 == names.len() - 1,
            "VarDecl('"@ + names[n - 1] + "') -> type:"@ + t,
        )
    }
}

/// A declaration.
pub open spec fn at_decl(d: DeclV, s: Seq<bool>, last: bool) -> Seq<char>
    decreases d, 1int,
{
    let c = s.push(last);
    match d {
        DeclV::Constant { name, value, .. } => tline(
            s,
            last,
            "ConstDecl('"@ + name + "' = "@ + expr_text(value) + ")"@ + annotation_text(value.annotation),
        ),
        DeclV::Type { name, wrapped_type, .. } => tline(
            s,
            last,
            "TypeDecl('"@ + name + "' = "@ + type_display(wrapped_type) + ")"@,
        ),
        DeclV::Variable { name, type_kind, .. } => at_var_names(
            name,
            type_display(type_kind),
            s,
            last,
            name.len() as int,
        ),
        DeclV::Procedure { name, params, local_decls, body, .. } => tline(s, last, "Procedure('"@ + name + "')"@)
            + at_params(params, c, false) + at_section(local_decls, c, false) + tline(c, true, "Body"@) + at_stmts(
            body,
            c.push(true),
            body.len() as int,
        ),
        DeclV::Function { name, params, return_type, local_decls, body, .. } => tline(
            s,
            last,
            "Function('"@ + name + "') -> type:"@ + type_display(return_type),
        ) + at_params(params, c, false) + at_section(local_decls, c, false) + tline(c, true, "Body"@) + at_stmts(
            body,
            c.push(true),
            body.len() as int,
        ),
    }
}

/// The first `n` declarations of a list.
pub open spec fn at_decls(v: Seq<DeclV>, s: Seq<bool>, n: int) -> Seq<char>
    decreases v, n,
{
    if n <= 0 || n > v.len() {
        Seq::empty()
    } else {
        at_decls(v, s, n - 1) + at_decl(v[n - 1], s, n - 1 == v.len() - 1)
    }
}

/// A `Declarations` node over a list of declarations.
pub open spec fn at_section(v: Seq<DeclV>, s: Seq<bool>, last: bool) -> Seq<char>
    decreases v, v.len() + 1,
{
    tline(s, last, "Declarations"@) + at_decls(v, s.push(last), v.len() as int)
}

/// A whole program: its name on the first line, then its declarations and
/// its main block.
pub open spec fn at_program(p: ProgramV) -> Seq<char> {
    "ProgramNode(name: '"@ + p.name + "')\n"@ + at_section(p.declarations, Seq::empty(), false) + tline(
        Seq::empty(),
        true,
        "Block"@,
    ) + at_stmts(p.main_body, seq![true], p.main_body.len() as int)
}


// ------------------------------------------------------------------ laws

/// The note of an annotation is empty exactly when nothing is known; it
/// starts with the table index when that is known.
pub proof fn law_annotation_note(d: SemanticDataV)
    ensures
        (annotation_text(d).len() == 0) <==> (d.tab_index is None && d.type_kind is None && !d.is_const),
        d.tab_index matches Some(i) ==> starts_with(annotation_text(d), " -> tab_index:"@ + decimal(i as nat)),
{
    reveal_strlit(" -> ");
    let p = annotation_parts(d);
    if p.len() > 0 {
        assert(annotation_text(d).len() >= 4);
    }
    if d.tab_index is Some {
        let i = d.tab_index->Some_0;
        let first = "tab_index:"@ + decimal(i as nat);
        assert(p[0] == first);
        lemma_comma_joined_starts(p, p.len() as int);
        let j = comma_joined(p, p.len() as int);
        let t = annotation_text(d);
        assert(t == " -> "@ + j);
        let head = " -> "@ + first;
        assert forall|k: int| 0 <= k < head.len() implies t[k] == head[k] by {
            if k >= 4 {
                assert(j.subrange(0, first.len() as int)[k - 4] == j[k - 4]);
            }
        }
        assert(t.subrange(0, head.len() as int) =~= head);
        reveal_strlit("tab_index:");
        reveal_strlit(" -> tab_index:");
        assert(head =~= " -> tab_index:"@ + decimal(i as nat));
    }
}

/// A joined list starts with its first part.
pub proof fn lemma_comma_joined_starts(parts: Seq<Seq<char>>, n: int)
    requires
        1 <= n <= parts.len(),
    ensures
        starts_with(comma_joined(parts, n), parts[0]),
    decreases n,
{
    if n > 1 {
        lemma_comma_joined_starts(parts, n - 1);
        let a = comma_joined(parts, n - 1);
        let t = a + ", "@ + parts[n - 1];
        assert(comma_joined(parts, n) == t);
        assert(t.subrange(0, parts[0].len() as int) =~= a.subrange(0, parts[0].len() as int));
    } else {
        assert(comma_joined(parts, n) == parts[0]);
        assert(parts[0].subrange(0, parts[0].len() as int) =~= parts[0]);
    }
}

/// A conditional with an `else` part ends with the `else` node, drawn as
/// the last child, over its statement; its `then` statement is shown
/// before it.
#[verifier::spinoff_prover]
pub proof fn law_ast_if_else_is_drawn(
    condition: ExprV,
    then_branch: StmtV,
    else_stmt: StmtV,
    line: nat,
    column: nat,
    s: Seq<bool>,
    last: bool,
)
    ensures
        ({
            let c = s.push(last);
            let text = at_stmt(
                StmtV::If {
                    condition,
                    then_branch: Box::new(then_branch),
                    else_branch: Some(Box::new(else_stmt)),
                    line,
                    column,
                },
                s,
                last,
            );
            &&& starts_with(text, tline(s, last, "If"@))
            &&& shows(text, at_expr(condition, "cond"@, c, false))
            &&& shows(text, tline(c, false, "then"@))
            &&& shows(text, at_stmt(then_branch, c.push(false), true))
            &&& ends_with(text, tline(c, true, "else"@) + at_stmt(else_stmt, c.push(true), true))
        }),
{
    let c = s.push(last);
    lemma_five_parts(
        tline(s, last, "If"@),
        at_expr(condition, "cond"@, c, false),
        tline(c, false, "then"@),
        at_stmt(then_branch, c.push(false), true),
        tline(c, true, "else"@) + at_stmt(else_stmt, c.push(true), true),
    );
}

/// A binary expression's node comes first, then its left operand, and its
/// right operand is drawn last, as the last child.
pub proof fn law_ast_binary_operands_are_drawn(e: ExprV, role: Seq<char>, s: Seq<bool>, last: bool)
    requires
        e.kind is Binary,
    ensures
        ({
            let c = s.push(last);
            let text = at_expr(e, role, s, last);
            &&& starts_with(text, tline(s, last, expr_full_label(e, role)))
            &&& shows(text, at_expr(*e.kind->Binary_left, ""@, c, false))
            &&& ends_with(text, at_expr(*e.kind->Binary_right, ""@, c, true))
        }),
{
    let c = s.push(last);
    let h = tline(s, last, expr_full_label(e, role));
    let l = at_expr(*e.kind->Binary_left, ""@, c, false);
    let r = at_expr(*e.kind->Binary_right, ""@, c, true);
    lemma_four_parts(h, l, Seq::empty(), r);
    assert(at_expr(e, role, s, last) == h + (l + r));
    assert(h + (l + r) =~= h + l + Seq::<char>::empty() + r);
}

// ---------------------------------------------------------------- printer

/// The printer's state: how deep the node being printed is, and for each
/// ancestor below the root whether it was the last child.
pub struct ASTPrinter {
    pub indent_level: usize,
    pub prefix_stack: Vec<bool>,
}

/// The texts of `parts` with `, ` between them.
fn join_comma(parts: &Vec<String>) -> (r: String)
    ensures
        r@ == comma_joined(names_view(parts@), parts@.len() as int),
{
    let ghost v = names_view(parts@);
    let mut out = String::new();
    let mut i: usize = 0;
    while i < parts.len()
        invariant
            i <= parts@.len(),
            v == names_view(parts@),
            v.len() == parts@.len(),
            out@ == comma_joined(v, i as int),
        decreases parts@.len() - i,
    {
        if i > 0 {
            out.append(", ");
        }
        out.append(parts[i].as_str());
        proof {
            assert(v[i as int] == parts@[i as int]@);
            if i == 0 {
                assert(out@ =~= v[0]);
            }
        }
        i = i + 1;
    }
    out
}

impl ASTPrinter {
    /// The printer's state is what it was before.
    pub open spec fn kept(&self, old: &ASTPrinter) -> bool {
        &&& self.indent_level == old.indent_level
        &&& self.prefix_stack@ == old.prefix_stack@
    }

    /// A printer at the root.
    pub fn new() -> (r: ASTPrinter)
        ensures
            r.indent_level == 0,
            r.prefix_stack@.len() == 0,
    {
        ASTPrinter { indent_level: 0, prefix_stack: Vec::new() }
    }

    /// The tree text of a whole program.
    pub fn print(program: &ProgramAST) -> (r: String)
        ensures
            r@ == at_program(program@),
    {
        let mut printer = ASTPrinter::new();
        printer.print_program_internal(program)
    }

    /// One line: prefix, label, line break.
    #[verifier::spinoff_prover]
    fn print_node(&self, label: &str, is_last: bool) -> (r: String)
        requires
            self.indent_level > 0,
        ensures
            r@ == tline(self.prefix_stack@, is_last, label@),
    {
        let mut out = self.get_prefix(is_last);
        out.append(label);
        out.append("\n");
        out
    }

    /// The text in front of a node's label: nothing at the root, else a
    /// column per ancestor and the node's connector.
    fn get_prefix(&self, is_last: bool) -> (r: String)
        ensures
            r@ == tree_prefix(self.prefix_stack@, self.indent_level as nat, is_last),
    {
        let mut out = String::new();
        if self.indent_level == 0 {
            proof { assert(out@ =~= Seq::<char>::empty()); }
            return out;
        }
        let ghost st = self.prefix_stack@;
        let mut k: usize = 0;
        proof { assert(out@ =~= bars(st.take(0))); }
        while k < self.prefix_stack.len()
            invariant
                k <= st.len(),
                st == self.prefix_stack@,
                out@ == bars(st.take(k as int)),
            decreases st.len() - k,
        {
            if self.prefix_stack[k] {
                out.append("    ");
            } else {
                out.append("│   ");
            }
            proof { assert(st.take(k + 1).drop_last() =~= st.take(k as int)); }
            k = k + 1;
        }
        proof { assert(st.take(k as int) =~= st); }
        if is_last {
            out.append("└── ");
        } else {
            out.append("├── ");
        }
        out
    }

    /// Goes one level down below a node; gives the depth to come back to.
    fn indent(&mut self, is_last: bool) -> (saved: usize)
        ensures
            saved == old(self).indent_level,
            final(self).indent_level > 0,
            final(self).prefix_stack@ == if saved > 0 { old(self).prefix_stack@.push(is_last) } else {
                old(self).prefix_stack@
            },
    {
        let saved = self.indent_level;
        if saved > 0 {
            self.prefix_stack.push(is_last);
        }
        self.indent_level = if saved < usize::MAX { saved + 1 } else { saved };
        saved
    }

    /// Comes back up to depth `saved`, undoing `indent`.
    fn dedent(&mut self, saved: usize)
        requires
            saved > 0 ==> old(self).prefix_stack@.len() > 0,
        ensures
            final(self).indent_level == saved,
            final(self).prefix_stack@ == if saved > 0 { old(self).prefix_stack@.drop_last() } else {
                old(self).prefix_stack@
            },
    {
        self.indent_level = saved;
        if saved > 0 {
            self.prefix_stack.pop();
        }
    }

    /// The program's line, then its declarations and its main block one
    /// level down.
    fn print_program_internal(&mut self, program: &ProgramAST) -> (r: String)
        requires
            old(self).indent_level == 0,
            old(self).prefix_stack@.len() == 0,
        ensures
            r@ == at_program(program@),
    {
        let mut out = string_of("ProgramNode(name: '");
        out.append(program.name.as_str());
        out.append("')\n");
        let saved = self.indent(true);
        proof { assert(self.prefix_stack@ =~= Seq::<bool>::empty()); }
        let t = self.print_declarations_section(&program.declarations, false);
        out.append(t.as_str());
        let t = self.print_main_block(&program.main_body, true);
        out.append(t.as_str());
        proof { assert(Seq::<bool>::empty().push(true) =~= seq![true]); }
        self.dedent(saved);
        out
    }

    /// A `Declarations` node over its declarations.
    #[verifier::spinoff_prover]
    fn print_declarations_section(&mut self, decls: &Vec<Decl>, is_last: bool) -> (r: String)
        requires
            old(self).indent_level > 0,
        ensures
            final(self).kept(old(self)),
            r@ == at_section(decls_view(decls@), old(self).prefix_stack@, is_last),
        decreases decls,
    {
        let ghost s = self.prefix_stack@;
        let ghost v = decls_view(decls@);
        proof { lemma_decls_view(decls@); }
        let mut out = self.print_node("Declarations", is_last);
        let saved = self.indent(is_last);
        let ghost c = self.prefix_stack@;
        let ghost start = out@;
        let n = decls.len();
        let mut i: usize = 0;
        while i < n
            invariant
                i <= n,
                n == decls@.len(),
                v.len() == n,
                forall|j: int| 0 <= j < n ==> #[trigger] v[j] == decl_view(decls@[j]),
                self.indent_level > 0,
                self.prefix_stack@ == c,
                out@ == start + at_decls(v, c, i as int),
            decreases n - i,
        {
            proof { vstd::std_specs::vec::axiom_vec_index_decreases(*decls, i as int); }
            let t = self.print_decl(&decls[i], i + 1 == n);
            out.append(t.as_str());
            i = i + 1;
        }
        proof { assert(s.push(is_last).drop_last() =~= s); }
        self.dedent(saved);
        out
    }

    /// A declaration; a subprogram with its parameters, local declarations
    /// and body below it.
    #[verifier::spinoff_prover]
    #[verifier::rlimit(50)]
    fn print_decl(&mut self, decl: &Decl, is_last_decl: bool) -> (r: String)
        requires
            old(self).indent_level > 0,
        ensures
            final(self).kept(old(self)),
            r@ == at_decl(decl_view(*decl), old(self).prefix_stack@, is_last_decl),
        decreases decl,
    {
        let ghost s = self.prefix_stack@;
        match decl {
            Decl::Constant { name, value, .. } => {
                let val_str = Self::expr_to_string(value);
                let note = Self::fmt_annotation(&value.annotation);
                let mut label = string_of("ConstDecl('");
                label.append(name.as_str());
                label.append("' = ");
                label.append(val_str.as_str());
                label.append(")");
                label.append(note.as_str());
                self.print_node(label.as_str(), is_last_decl)
            },
            Decl::Type { name, wrapped_type, .. } => {
                let mut label = string_of("TypeDecl('");
                label.append(name.as_str());
                label.append("' = ");
                let t = wrapped_type.to_string();
                label.append(t.as_str());
                label.append(")");
                self.print_node(label.as_str(), is_last_decl)
            },
            Decl::Variable { name, type_kind, .. } => {
                let td = type_kind.to_string();
                let ghost nv = names_view(name@);
                let mut out = String::new();
                let mut j: usize = 0;
                while j < name.len()
                    invariant
                        j <= name@.len(),
                        nv == names_view(name@),
                        nv.len() == name@.len(),
                        self.indent_level == old(self).indent_level,
                        self.indent_level > 0,
                        self.prefix_stack@ == s,
                        out@ == at_var_names(nv, td@, s, is_last_decl, j as int),
                    decreases name@.len() - j,
                {
                    let mut label = string_of("VarDecl('");
                    label.append(name[j].as_str());
                    label.append("') -> type:");
                    label.append(td.as_str());
                    let t = self.print_node(label.as_str(), is_last_decl && j + 1 == name.len());
                    out.append(t.as_str());
                    proof { assert(nv[j as int] == name@[j as int]@); }
                    j = j + 1;
                }
                out
            },
            Decl::Procedure { name, params, local_decls, body, .. } => {
                let mut label = string_of("Procedure('");
                label.append(name.as_str());
                label.append("')");
                let mut out = self.print_node(label.as_str(), is_last_decl);
                let saved = self.indent(is_last_decl);
                let t = self.print_params(params, false);
                out.append(t.as_str());
                let t = self.print_declarations_section(local_decls, false);
                out.append(t.as_str());
                let t = self.print_body(body);
                out.append(t.as_str());
                proof { assert(s.push(is_last_decl).drop_last() =~= s); }
                self.dedent(saved);
                out
            },
            Decl::Function { name, params, return_type, local_decls, body, .. } => {
                let mut label = string_of("Function('");
                label.append(name.as_str());
                label.append("') -> type:");
                let t = return_type.to_string();
                label.append(t.as_str());
                let mut out = self.print_node(label.as_str(), is_last_decl);
                let saved = self.indent(is_last_decl);
                let t = self.print_params(params, false);
                out.append(t.as_str());
                let t = self.print_declarations_section(local_decls, false);
                out.append(t.as_str());
                let t = self.print_body(body);
                out.append(t.as_str());
                proof { assert(s.push(is_last_decl).drop_last() =~= s); }
                self.dedent(saved);
                out
            },
        }
    }

    /// A subprogram's `Body` node, the last child, over its statements.
    fn print_body(&mut self, body: &BlockStmt) -> (r: String)
        requires
            old(self).indent_level > 0,
        ensures
            final(self).kept(old(self)),
            r@ == tline(old(self).prefix_stack@, true, "Body"@) + at_stmts(
                stmts_view(body.statements@),
                old(self).prefix_stack@.push(true),
                stmts_view(body.statements@).len() as int,
            ),
    {
        let ghost s = self.prefix_stack@;
        let mut out = self.print_node("Body", true);
        let saved = self.indent(true);
        let t = self.print_block_statements(body);
        out.append(t.as_str());
        proof { assert(s.push(true).drop_last() =~= s); }
        self.dedent(saved);
        out
    }

    /// A `Params` node with a line per parameter group; nothing when there
    /// are no parameters.
    fn print_params(&mut self, params: &Vec<Param>, is_last: bool) -> (r: String)
        requires
            old(self).indent_level > 0,
        ensures
            final(self).kept(old(self)),
            r@ == at_params(params_view(params@), old(self).prefix_stack@, is_last),
    {
        let ghost s = self.prefix_stack@;
        let ghost v = params_view(params@);
        if params.len() == 0 {
            let out = String::new();
            proof { assert(out@ =~= Seq::<char>::empty()); }
            return out;
        }
        let mut out = self.print_node("Params", is_last);
        let saved = self.indent(is_last);
        let ghost c = self.prefix_stack@;
        let ghost start = out@;
        let n = params.len();
        let mut i: usize = 0;
        while i < n
            invariant
                i <= n,
                n == params@.len(),
                v == params_view(params@),
                v.len() == n,
                self.indent_level > 0,
                self.prefix_stack@ == c,
                out@ == start + at_param_lines(v, c, i as int),
            decreases n - i,
        {
            let p = &params[i];
            let mut label = if p.is_var { string_of("var ") } else { String::new() };
            let names = join_comma(&p.names);
            label.append(names.as_str());
            label.append(": ");
            let t = p.type_kind.to_string();
            label.append(t.as_str());
            let t = self.print_node(label.as_str(), i + 1 == n);
            out.append(t.as_str());
            proof {
                reveal_strlit("");
                assert(v[i as int] == param_view(params@[i as int]));
                assert(label@ == param_label(v[i as int]));
            }
            i = i + 1;
        }
        proof { assert(s.push(is_last).drop_last() =~= s); }
        self.dedent(saved);
        out
    }

    /// The main `Block` node over the program's statements.
    fn print_main_block(&mut self, block: &BlockStmt, is_last: bool) -> (r: String)
        requires
            old(self).indent_level > 0,
        ensures
            final(self).kept(old(self)),
            r@ == tline(old(self).prefix_stack@, is_last, "Block"@) + at_stmts(
                stmts_view(block.statements@),
                old(self).prefix_stack@.push(is_last),
                stmts_view(block.statements@).len() as int,
            ),
    {
        let ghost s = self.prefix_stack@;
        let mut out = self.print_node("Block", is_last);
        let saved = self.indent(is_last);
        let t = self.print_block_statements(block);
        out.append(t.as_str());
        proof { assert(s.push(is_last).drop_last() =~= s); }
        self.dedent(saved);
        out
    }

    /// The statements of a block, at the current depth.
    fn print_block_statements(&mut self, block: &BlockStmt) -> (r: String)
        requires
            old(self).indent_level > 0,
        ensures
            final(self).kept(old(self)),
            r@ == at_stmts(
                stmts_view(block.statements@),
                old(self).prefix_stack@,
                stmts_view(block.statements@).len() as int,
            ),
        decreases block,
    {
        self.print_stmt_list(&block.statements)
    }

    /// A list of statements, at the current depth.
    #[verifier::spinoff_prover]
    fn print_stmt_list(&mut self, v: &Vec<Stmt>) -> (r: String)
        requires
            old(self).indent_level > 0,
        ensures
            final(self).kept(old(self)),
            r@ == at_stmts(stmts_view(v@), old(self).prefix_stack@, stmts_view(v@).len() as int),
        decreases v,
    {
        let ghost s = self.prefix_stack@;
        let ghost sv = stmts_view(v@);
        proof { lemma_stmts_view(v@); }
        let mut out = String::new();
        let n = v.len();
        let mut i: usize = 0;
        proof { assert(out@ =~= at_stmts(sv, s, 0)); }
        while i < n
            invariant
                i <= n,
                n == v@.len(),
                sv.len() == n,
                forall|j: int| 0 <= j < n ==> #[trigger] sv[j] == stmt_view(v@[j]),
                self.indent_level == old(self).indent_level,
                self.indent_level > 0,
                self.prefix_stack@ == s,
                out@ == at_stmts(sv, s, i as int),
            decreases n - i,
        {
            proof { vstd::std_specs::vec::axiom_vec_index_decreases(*v, i as int); }
            let t = self.print_stmt(&v[i], i + 1 == n);
            out.append(t.as_str());
            i = i + 1;
        }
        out
    }

    /// A statement node and what stands below it.
    #[verifier::spinoff_prover]
    #[verifier::rlimit(100)]
    fn print_stmt(&mut self, stmt: &Stmt, is_last: bool) -> (r: String)
        requires
            old(self).indent_level > 0,
        ensures
            final(self).kept(old(self)),
            r@ == at_stmt(stmt_view(*stmt), old(self).prefix_stack@, is_last),
        decreases stmt,
    {
        let ghost s = self.prefix_stack@;
        proof { assert(s.push(is_last).drop_last() =~= s); }
        match stmt {
            Stmt::Assignment { target, value, .. } => {
                let mut label = string_of("Assign('");
                let t = Self::expr_to_string(target);
                label.append(t.as_str());
                label.append(" := ");
                let t = Self::expr_to_string(value);
                label.append(t.as_str());
                label.append("')");
                let note = Self::fmt_annotation(&target.annotation);
                label.append(note.as_str());
                let mut out = self.print_node(label.as_str(), is_last);
                let saved = self.indent(is_last);
                let t = self.print_expr_tree_node(target, "target", false);
                out.append(t.as_str());
                let t = self.print_expr_tree_node(value, "value", true);
                out.append(t.as_str());
                self.dedent(saved);
                out
            },
            Stmt::ProcedureCall { name, args, .. } => {
                let mut label = string_of("Call('");
                label.append(name.as_str());
                label.append("')");
                let mut out = self.print_node(label.as_str(), is_last);
                let saved = self.indent(is_last);
                let t = self.print_args(args, true);
                out.append(t.as_str());
                self.dedent(saved);
                out
            },
            Stmt::If { condition, then_branch, else_branch, .. } => {
                let mut out = self.print_node("If", is_last);
                let saved = self.indent(is_last);
                let ghost c = self.prefix_stack@;
                let t = self.print_expr_tree_node(condition, "cond", false);
                out.append(t.as_str());
                let has_else = else_branch.is_some();
                let t = self.print_node("then", !has_else);
                out.append(t.as_str());
                let inner = self.indent(!has_else);
                let t = self.print_stmt(then_branch, true);
                out.append(t.as_str());
                proof { assert(c.push(!has_else).drop_last() =~= c); }
                self.dedent(inner);
                match else_branch {
                    Some(else_b) => {
                        let t = self.print_node("else", true);
                        out.append(t.as_str());
                        let inner = self.indent(true);
                        let t = self.print_stmt(else_b, true);
                        out.append(t.as_str());
                        proof { assert(c.push(true).drop_last() =~= c); }
                        self.dedent(inner);
                    },
                    None => {},
                }
                self.dedent(saved);
                out
            },
            Stmt::While { condition, body, .. } => {
                let mut out = self.print_node("While", is_last);
                let saved = self.indent(is_last);
                let ghost c = self.prefix_stack@;
                let t = self.print_expr_tree_node(condition, "cond", false);
                out.append(t.as_str());
                let t = self.print_node("do", true);
                out.append(t.as_str());
                let inner = self.indent(true);
                let t = self.print_stmt(body, true);
                out.append(t.as_str());
                proof { assert(c.push(true).drop_last() =~= c); }
                self.dedent(inner);
                self.dedent(saved);
                out
            },
            Stmt::For { iterator, start, end, direction, body, .. } => {
                let mut label = string_of("For('");
                label.append(iterator.as_str());
                label.append("' := ... ");
                match direction {
                    ForDirection::To => label.append("To"),
                    ForDirection::Downto => label.append("Downto"),
                }
                label.append(" ...)");
                let mut out = self.print_node(label.as_str(), is_last);
                let saved = self.indent(is_last);
                let ghost c = self.prefix_stack@;
                let t = self.print_expr_tree_node(start, "start", false);
                out.append(t.as_str());
                let t = self.print_expr_tree_node(end, "end", false);
                out.append(t.as_str());
                let t = self.print_node("do", true);
                out.append(t.as_str());
                let inner = self.indent(true);
                let t = self.print_stmt(body, true);
                out.append(t.as_str());
                proof { assert(c.push(true).drop_last() =~= c); }
                self.dedent(inner);
                self.dedent(saved);
                out
            },
            Stmt::Repeat { body, condition, .. } => {
                let mut out = self.print_node("Repeat", is_last);
                let saved = self.indent(is_last);
                let ghost c = self.prefix_stack@;
                let t = self.print_node("body", false);
                out.append(t.as_str());
                let inner = self.indent(false);
                let t = self.print_stmt_list(body);
                out.append(t.as_str());
                proof { assert(c.push(false).drop_last() =~= c); }
                self.dedent(inner);
                let t = self.print_expr_tree_node(condition, "until", true);
                out.append(t.as_str());
                self.dedent(saved);
                out
            },
            Stmt::Case { operand, branches, else_branch, .. } => {
                let mut out = self.print_node("Case", is_last);
                let saved = self.indent(is_last);
                let ghost c = self.prefix_stack@;
                let has_else = else_branch.is_some();
                let t = self.print_expr_tree_node(operand, "operand", branches.len() == 0 && !has_else);
                out.append(t.as_str());
                let t = self.print_case_branches(branches, has_else);
                out.append(t.as_str());
                match else_branch {
                    Some(else_stmts) => {
                        let t = self.print_node("Else", true);
                        out.append(t.as_str());
                        let inner = self.indent(true);
                        let t = self.print_stmt_list(else_stmts);
                        out.append(t.as_str());
                        proof { assert(c.push(true).drop_last() =~= c); }
                        self.dedent(inner);
                    },
                    None => {},
                }
                self.dedent(saved);
                out
            },
            Stmt::Compound(block) => {
                let mut out = self.print_node("Block", is_last);
                let saved = self.indent(is_last);
                let t = self.print_block_statements(block);
                out.append(t.as_str());
                self.dedent(saved);
                out
            },
        }
    }

    /// The branches of a case statement, numbered from one, each with its
    /// labels and its statement below it.
    #[verifier::spinoff_prover]
    #[verifier::rlimit(50)]
    fn print_case_branches(&mut self, branches: &Vec<CaseBranch>, has_else: bool) -> (r: String)
        requires
            old(self).indent_level > 0,
        ensures
            final(self).kept(old(self)),
            r@ == at_branches(
                branches_view(branches@),
                old(self).prefix_stack@,
                branches_view(branches@).len() as int,
                has_else,
            ),
        decreases branches,
    {
        let ghost s = self.prefix_stack@;
        let ghost v = branches_view(branches@);
        proof { lemma_branches_view(branches@); }
        let mut out = String::new();
        let n = branches.len();
        let mut i: usize = 0;
        proof { assert(out@ =~= at_branches(v, s, 0, has_else)); }
        while i < n
            invariant
                i <= n,
                n == branches@.len(),
                v.len() == n,
                forall|j: int| 0 <= j < n ==> #[trigger] v[j]
                    == (CaseBranchV { labels: exprs_view(branches@[j].labels@), stmt: stmt_view(branches@[j].stmt) }),
                self.indent_level == old(self).indent_level,
                self.indent_level > 0,
                self.prefix_stack@ == s,
                out@ == at_branches(v, s, i as int, has_else),
            decreases n - i,
        {
            proof { vstd::std_specs::vec::axiom_vec_index_decreases(*branches, i as int); }
            let branch = &branches[i];
            let is_branch_last = i + 1 == n && !has_else;
            let mut label = string_of("Branch ");
            let num = usize_to_string(i + 1);
            label.append(num.as_str());
            let t = self.print_node(label.as_str(), is_branch_last);
            out.append(t.as_str());
            let saved = self.indent(is_branch_last);
            let t = self.print_labels(&branch.labels);
            out.append(t.as_str());
            let t = self.print_stmt(&branch.stmt, true);
            out.append(t.as_str());
            proof { assert(s.push(is_branch_last).drop_last() =~= s); }
            self.dedent(saved);
            i = i + 1;
        }
        out
    }

    /// The labels of a case branch, none of them the last child.
    #[verifier::spinoff_prover]
    fn print_labels(&mut self, labels: &Vec<Expr>) -> (r: String)
        requires
            old(self).indent_level > 0,
        ensures
            final(self).kept(old(self)),
            r@ == at_labels(exprs_view(labels@), old(self).prefix_stack@, exprs_view(labels@).len() as int),
    {
        let ghost s = self.prefix_stack@;
        let ghost v = exprs_view(labels@);
        proof { lemma_exprs_view(labels@); }
        let mut out = String::new();
        let n = labels.len();
        let mut i: usize = 0;
        proof { assert(out@ =~= at_labels(v, s, 0)); }
        while i < n
            invariant
                i <= n,
                n == labels@.len(),
                v.len() == n,
                forall|j: int| 0 <= j < n ==> #[trigger] v[j] == expr_view(labels@[j]),
                self.indent_level == old(self).indent_level,
                self.indent_level > 0,
                self.prefix_stack@ == s,
                out@ == at_labels(v, s, i as int),
            decreases n - i,
        {
            let t = self.print_expr_tree_node(&labels[i], "label", false);
            out.append(t.as_str());
            i = i + 1;
        }
        out
    }

    /// An expression node, with its role, label and note, and below it its
    /// operands.
    #[verifier::spinoff_prover]
    #[verifier::rlimit(50)]
    fn print_expr_tree_node(&mut self, expr: &Expr, prefix_label: &str, is_last: bool) -> (r: String)
        requires
            old(self).indent_level > 0,
        ensures
            final(self).kept(old(self)),
            r@ == at_expr(expr_view(*expr), prefix_label@, old(self).prefix_stack@, is_last),
        decreases expr,
    {
        let ghost s = self.prefix_stack@;
        let note = Self::fmt_annotation(&expr.annotation);
        let node_label = Self::expr_node_label(expr);
        let mut full_label = String::new();
        if !prefix_label.is_empty() {
            full_label.append(prefix_label);
            full_label.append(" ");
        }
        full_label.append(node_label.as_str());
        full_label.append(note.as_str());
        proof {
            assert(full_label@ == expr_full_label(expr_view(*expr), prefix_label@));
            assert(s.push(is_last).drop_last() =~= s);
        }
        let mut out = self.print_node(full_label.as_str(), is_last);
        match &expr.kind {
            ExprKind::Binary { left, right, .. } => {
                let saved = self.indent(is_last);
                let t = self.print_expr_tree_node(left, "", false);
                out.append(t.as_str());
                let t = self.print_expr_tree_node(right, "", true);
                out.append(t.as_str());
                self.dedent(saved);
            },
            ExprKind::Unary { operand, .. } => {
                let saved = self.indent(is_last);
                let t = self.print_expr_tree_node(operand, "", true);
                out.append(t.as_str());
                self.dedent(saved);
            },
            ExprKind::ArrayAccess { array, index } => {
                let saved = self.indent(is_last);
                let t = self.print_expr_tree_node(array, "array", false);
                out.append(t.as_str());
                let t = self.print_expr_tree_node(index, "index", true);
                out.append(t.as_str());
                self.dedent(saved);
            },
            ExprKind::FunctionCall { args, .. } => {
                let saved = self.indent(is_last);
                let t = self.print_args(args, false);
                out.append(t.as_str());
                self.dedent(saved);
            },
            _ => {},
        }
        out
    }

    /// Arguments, the last drawn as the last child; with `numbered`, each
    /// with its role `arg[i]`.
    #[verifier::spinoff_prover]
    fn print_args(&mut self, args: &Vec<Expr>, numbered: bool) -> (r: String)
        requires
            old(self).indent_level > 0,
        ensures
            final(self).kept(old(self)),
            r@ == at_args(exprs_view(args@), old(self).prefix_stack@, exprs_view(args@).len() as int, numbered),
        decreases args,
    {
        let ghost s = self.prefix_stack@;
        let ghost v = exprs_view(args@);
        proof { lemma_exprs_view(args@); }
        let mut out = String::new();
        let n = args.len();
        let mut i: usize = 0;
        proof { assert(out@ =~= at_args(v, s, 0, numbered)); }
        while i < n
            invariant
                i <= n,
                n == args@.len(),
                v.len() == n,
                forall|j: int| 0 <= j < n ==> #[trigger] v[j] == expr_view(args@[j]),
                self.indent_level == old(self).indent_level,
                self.indent_level > 0,
                self.prefix_stack@ == s,
                out@ == at_args(v, s, i as int, numbered),
            decreases n - i,
        {
            proof { vstd::std_specs::vec::axiom_vec_index_decreases(*args, i as int); }
            let role = if numbered {
                let mut role = string_of("arg[");
                let num = usize_to_string(i);
                role.append(num.as_str());
                role.append("]");
                role
            } else {
                String::new()
            };
            proof {
                if !numbered {
                    reveal_strlit("");
                    assert(role@ =~= ""@);
                }
            }
            let t = self.print_expr_tree_node(&args[i], role.as_str(), i + 1 == n);
            out.append(t.as_str());
            i = i + 1;
        }
        out
    }

    /// The label of an expression node, without its note.
    fn expr_node_label(expr: &Expr) -> (r: String)
        ensures
            r@ == expr_label(expr_view(*expr)),
    {
        match &expr.kind {
            ExprKind::Binary { op, .. } => {
                let n = op.name();
                join3("BinOp '", n.as_str(), "'")
            },
            ExprKind::Unary { op, .. } => {
                let n = op.name();
                join3("UnOp '", n.as_str(), "'")
            },
            ExprKind::LiteralInt(v) => {
                let n = i32_to_string(*v);
                join3("Number(", n.as_str(), ")")
            },
            ExprKind::LiteralReal(v) => join3("Number(", v.as_str(), ")"),
            ExprKind::LiteralString(v) => join3("String('", v.as_str(), "')"),
            ExprKind::LiteralChar(v) => {
                let mut r = string_of("Char('");
                push_char(&mut r, *v);
                r.append("')");
                r
            },
            ExprKind::LiteralBool(v) => join3("Bool(", if *v { "true" } else { "false" }, ")"),
            ExprKind::Variable(n) => join3("Variable('", n.as_str(), "')"),
            ExprKind::ArrayAccess { .. } => string_of("ArrayAccess"),
            ExprKind::FunctionCall { name, .. } => join3("FuncCall('", name.as_str(), "')"),
        }
    }

    /// The note of an annotation: ` -> ` and the known parts, or nothing.
    fn fmt_annotation(data: &SemanticData) -> (r: String)
        ensures
            r@ == annotation_text(data_view(*data)),
    {
        let ghost d = data_view(*data);
        let mut parts: Vec<String> = Vec::new();
        match data.tab_index {
            Some(idx) => {
                let n = usize_to_string(idx);
                let mut p = string_of("tab_index:");
                p.append(n.as_str());
                parts.push(p);
            },
            None => {},
        }
        proof { assert(names_view(parts@) =~= match d.tab_index {
            Some(i) => seq!["tab_index:"@ + decimal(i as nat)],
            None => Seq::<Seq<char>>::empty(),
        }); }
        let ghost p1 = names_view(parts@);
        match &data.type_kind {
            Some(t) => {
                let n = t.to_string();
                let mut p = string_of("type:");
                p.append(n.as_str());
                parts.push(p);
            },
            None => {},
        }
        proof { assert(names_view(parts@) =~= p1 + match d.type_kind {
            Some(t) => seq!["type:"@ + type_display(t)],
            None => Seq::<Seq<char>>::empty(),
        }); }
        let ghost p2 = names_view(parts@);
        if data.is_const {
            parts.push(string_of("const"));
        }
        proof {
            assert(names_view(parts@) =~= p2 + if d.is_const { seq!["const"@] } else { Seq::<Seq<char>>::empty() });
            assert(names_view(parts@) == annotation_parts(d));
        }
        if parts.len() == 0 {
            return String::new();
        }
        let joined = join_comma(&parts);
        let mut r = string_of(" -> ");
        r.append(joined.as_str());
        r
    }

    /// The one-line summary of an expression.
    fn expr_to_string(expr: &Expr) -> (r: String)
        ensures
            r@ == expr_text(expr_view(*expr)),
        decreases expr,
    {
        match &expr.kind {
            ExprKind::Variable(n) => join3("'", n.as_str(), "'"),
            ExprKind::LiteralInt(v) => i32_to_string(*v),
            ExprKind::LiteralReal(v) => v.clone(),
            ExprKind::LiteralString(v) => join3("'", v.as_str(), "'"),
            ExprKind::LiteralBool(v) => string_of(if *v { "true" } else { "false" }),
            ExprKind::Binary { left, op, right } => {
                let mut r = Self::expr_to_string(left);
                r.append(" ");
                let n = op.name();
                r.append(n.as_str());
                r.append(" ");
                let t = Self::expr_to_string(right);
                r.append(t.as_str());
                r
            },
            ExprKind::FunctionCall { name, .. } => {
                let mut r = name.clone();
                r.append("()");
                r
            },
            ExprKind::ArrayAccess { array, index } => {
                let mut r = Self::expr_to_string(array);
                r.append("[");
                let t = Self::expr_to_string(index);
                r.append(t.as_str());
                r.append("]");
                r
            },
            _ => string_of("..."),
        }
    }
}

} // verus!
