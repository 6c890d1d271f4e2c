use pascal_s::semantic_analyzer::ast::ast::{
    BinOp, BlockStmt, CaseBranch, Decl, Expr, ExprKind, ForDirection, Param, ProgramAST, SemanticData, Stmt, TypeKind,
};
use pascal_s::semantic_analyzer::ast::ast_printer::ASTPrinter;

fn e(kind: ExprKind) -> Expr {
    Expr::new(kind, 1, 1)
}

fn var(n: &str) -> Expr {
    e(ExprKind::Variable(n.to_string()))
}

fn num(v: i32) -> Expr {
    e(ExprKind::LiteralInt(v))
}

fn lines(v: &[&str]) -> String {
    v.iter().map(|l| format!("{}\n", l)).collect()
}

fn program(declarations: Vec<Decl>, statements: Vec<Stmt>) -> ProgramAST {
    ProgramAST { name: "p".to_string(), declarations, main_body: BlockStmt { statements } }
}

#[test]
fn ast_printer_draws_declarations_and_the_main_block() {
    let p = program(
        vec![Decl::Variable { name: vec!["x".to_string(), "y".to_string()], type_kind: TypeKind::Integer, line: 1, column: 1 }],
        vec![Stmt::Assignment { target: var("x"), value: num(1), line: 2, column: 1 }],
    );
    let expected = lines(&[
        "ProgramNode(name: 'p')",
        "├── Declarations",
        "│   ├── VarDecl('x') -> type:Integer",
        "│   └── VarDecl('y') -> type:Integer",
        "└── Block",
        "    └── Assign(''x' := 1')",
        "        ├── target Variable('x')",
        "        └── value Number(1)",
    ]);
    assert_eq!(ASTPrinter::print(&p), expected);
}

#[test]
fn ast_printer_numbers_call_arguments_and_shows_operands() {
    let sum = e(ExprKind::Binary { left: Box::new(num(1)), op: BinOp::Add, right: Box::new(num(-2)) });
    let p = program(
        Vec::new(),
        vec![Stmt::ProcedureCall {
            name: "writeln".to_string(),
            args: vec![e(ExprKind::LiteralString("hi".to_string())), sum],
            line: 1,
            column: 1,
        }],
    );
    let expected = lines(&[
        "ProgramNode(name: 'p')",
        "├── Declarations",
        "└── Block",
        "    └── Call('writeln')",
        "        ├── arg[0] String('hi')",
        "        └── arg[1] BinOp 'Add'",
        "            ├── Number(1)",
        "            └── Number(-2)",
    ]);
    assert_eq!(ASTPrinter::print(&p), expected);
}

#[test]
fn ast_printer_shows_annotations() {
    let mut target = var("x");
    target.annotation = SemanticData { type_kind: Some(TypeKind::Integer), tab_index: Some(40), is_const: false };
    let mut value = e(ExprKind::LiteralBool(true));
    value.annotation = SemanticData { type_kind: Some(TypeKind::Boolean), tab_index: None, is_const: true };
    let p = program(Vec::new(), vec![Stmt::Assignment { target, value, line: 1, column: 1 }]);
    let expected = lines(&[
        "ProgramNode(name: 'p')",
        "├── Declarations",
        "└── Block",
        "    └── Assign(''x' := true') -> tab_index:40, type:Integer",
        "        ├── target Variable('x') -> tab_index:40, type:Integer",
        "        └── value Bool(true) -> type:Boolean, const",
    ]);
    assert_eq!(ASTPrinter::print(&p), expected);
}

#[test]
fn ast_printer_draws_control_statements() {
    let cond = e(ExprKind::Binary { left: Box::new(var("i")), op: BinOp::Lt, right: Box::new(num(3)) });
    let call = |n: &str| Stmt::ProcedureCall { name: n.to_string(), args: Vec::new(), line: 1, column: 1 };
    let p = program(
        Vec::new(),
        vec![
            Stmt::If {
                condition: cond,
                then_branch: Box::new(call("a")),
                else_branch: Some(Box::new(call("b"))),
                line: 1,
                column: 1,
            },
            Stmt::For {
                iterator: "i".to_string(),
                start: num(1),
                end: num(2),
                direction: ForDirection::Downto,
                body: Box::new(call("c")),
                line: 2,
                column: 1,
            },
            Stmt::Repeat { body: vec![call("d")], condition: e(ExprKind::LiteralChar('z')), line: 3, column: 1 },
        ],
    );
    let expected = lines(&[
        "ProgramNode(name: 'p')",
        "├── Declarations",
        "└── Block",
        "    ├── If",
        "    │   ├── cond BinOp 'Lt'",
        "    │   │   ├── Variable('i')",
        "    │   │   └── Number(3)",
        "    │   ├── then",
        "    │   │   └── Call('a')",
        "    │   └── else",
        "    │       └── Call('b')",
        "    ├── For('i' := ... Downto ...)",
        "    │   ├── start Number(1)",
        "    │   ├── end Number(2)",
        "    │   └── do",
        "    │       └── Call('c')",
        "    └── Repeat",
        "        ├── body",
        "        │   └── Call('d')",
        "        └── until Char('z')",
    ]);
    assert_eq!(ASTPrinter::print(&p), expected);
}

#[test]
fn ast_printer_draws_case_branches_and_subprograms() {
    let call = |n: &str| Stmt::ProcedureCall { name: n.to_string(), args: Vec::new(), line: 1, column: 1 };
    let p = program(
        vec![Decl::Procedure {
            name: "q".to_string(),
            params: vec![Param { names: vec!["a".to_string(), "b".to_string()], type_kind: TypeKind::Integer, is_var: true }],
            local_decls: vec![Decl::Constant { name: "k".to_string(), value: num(7), line: 1, column: 1 }],
            body: BlockStmt { statements: vec![call("r")] },
            line: 1,
            column: 1,
        }],
        vec![Stmt::Case {
            operand: var("x"),
            branches: vec![CaseBranch { labels: vec![num(1), num(2)], stmt: call("s") }],
            else_branch: Some(vec![call("t")]),
            line: 2,
            column: 1,
        }],
    );
    let expected = lines(&[
        "ProgramNode(name: 'p')",
        "├── Declarations",
        "│   └── Procedure('q')",
        "│       ├── Params",
        "│       │   └── var a, b: Integer",
        "│       ├── Declarations",
        "│       │   └── ConstDecl('k' = 7)",
        "│       └── Body",
        "│           └── Call('r')",
        "└── Block",
        "    └── Case",
        "        ├── operand Variable('x')",
        "        ├── Branch 1",
        "        │   ├── label Number(1)",
        "        │   ├── label Number(2)",
        "        │   └── Call('s')",
        "        └── Else",
        "            └── Call('t')",
    ]);
    assert_eq!(ASTPrinter::print(&p), expected);
}
