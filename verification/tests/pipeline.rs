use pascal_s::lexer::dfa::{DfaConfig, State, Transition};
use pascal_s::lexer::lexer::PascalLexer;
use pascal_s::lexer::token_types::{Token, TokenType};
use pascal_s::parser::parse_tree::{Factor, Statement};
use pascal_s::parser::parser::PascalParser;
use pascal_s::parser::tree_printer::ParseTreePrinter;
use pascal_s::semantic_analyzer::analyzer::SemanticAnalyzer;
use pascal_s::semantic_analyzer::ast::ast::{BinOp, BlockStmt, Decl, Expr, ExprKind, ForDirection, Param, ProgramAST, Stmt, TypeKind};
use pascal_s::semantic_analyzer::ast::ast_builder::ASTBuilder;
use pascal_s::semantic_analyzer::error::SemanticErrorKind;
use pascal_s::semantic_analyzer::tab::{ATabEntry, BTabEntry, ObjectKind, SymbolTable, TabEntry, TYP_BOOL, TYP_CHAR, TYP_INT, TYP_REAL, TYP_STRING};

fn tr(input: &str, next: &str) -> Transition {
    Transition { input: input.to_string(), next_state: next.to_string() }
}

fn state(is_final: bool, token: Option<&str>, transitions: Vec<Transition>) -> State {
    State { is_final, token_type: token.map(|s| s.to_string()), transitions }
}

/// A small Pascal-S automaton: identifiers, integers, strings, and the
/// punctuation and operators the tests use.
fn small_dfa() -> DfaConfig {
    let states = vec![
        (
            "start".to_string(),
            state(
                false,
                None,
                vec![
                    tr("letter", "id"),
                    tr("digit", "num"),
                    tr(";", "semi"),
                    tr(":", "colon"),
                    tr("=", "rel"),
                    tr("<", "rel"),
                    tr(".", "dot"),
                    tr("(", "lp"),
                    tr(")", "rp"),
                    tr(",", "comma"),
                    tr("+", "arith"),
                    tr("-", "arith"),
                    tr("*", "arith"),
                    tr("'", "str"),
                ],
            ),
        ),
        ("id".to_string(), state(true, Some("Identifier"), vec![tr("letter", "id"), tr("digit", "id")])),
        ("num".to_string(), state(true, Some("IntegerLiteral"), vec![tr("digit", "num")])),
        ("semi".to_string(), state(true, Some("Semicolon"), vec![])),
        ("colon".to_string(), state(true, Some("Colon"), vec![tr("=", "assign")])),
        ("assign".to_string(), state(true, Some("AssignOperator"), vec![])),
        ("rel".to_string(), state(true, Some("RelationalOperator"), vec![])),
        ("dot".to_string(), state(true, Some("Dot"), vec![])),
        ("lp".to_string(), state(true, Some("LParenthesis"), vec![])),
        ("rp".to_string(), state(true, Some("RParenthesis"), vec![])),
        ("comma".to_string(), state(true, Some("Comma"), vec![])),
        ("arith".to_string(), state(true, Some("ArithmeticOperator"), vec![])),
        ("str".to_string(), state(false, None, vec![tr("any_other", "str"), tr("'", "strend")])),
        ("strend".to_string(), state(true, Some("StringLiteral"), vec![])),
    ];
    let words = [
        ("program", "Keyword"),
        ("variabel", "Keyword"),
        ("konstanta", "Keyword"),
        ("integer", "Keyword"),
        ("boolean", "Keyword"),
        ("mulai", "Keyword"),
        ("selesai", "Keyword"),
        ("jika", "Keyword"),
        ("maka", "Keyword"),
        ("untuk", "Keyword"),
        ("ke", "Keyword"),
        ("lakukan", "Keyword"),
        ("benar", "Keyword"),
        ("salah", "Keyword"),
        ("dan", "LogicalOperator"),
        ("atau", "LogicalOperator"),
        ("tidak", "LogicalOperator"),
    ];
    let reserved_words = words.iter().map(|(k, v)| (k.to_string(), v.to_string())).collect();
    DfaConfig { start_state: "start".to_string(), states, reserved_words }
}

fn lex(source: &str) -> Vec<Token> {
    let dfa = small_dfa();
    assert!(dfa.is_well_formed());
    let mut lexer = PascalLexer::new(source, dfa);
    lexer.get_all_tokens()
}

fn kinds(tokens: &[Token]) -> Vec<TokenType> {
    tokens.iter().map(|t| t.token_type).collect()
}

#[test]
fn lexer_splits_an_assignment() {
    let tokens = lex("x := 12;");
    assert_eq!(
        kinds(&tokens),
        vec![TokenType::Identifier, TokenType::AssignOperator, TokenType::IntegerLiteral, TokenType::Semicolon, TokenType::Eof]
    );
    assert_eq!(tokens[0].value, "x");
    assert_eq!(tokens[2].value, "12");
    assert_eq!((tokens[1].line, tokens[1].column), (1, 3));
    assert_eq!((tokens[2].line, tokens[2].column), (1, 6));
}

#[test]
fn lexer_takes_the_longest_match() {
    // `:=` is one token, not `:` then `=`.
    let tokens = lex("a:=b");
    assert_eq!(kinds(&tokens), vec![TokenType::Identifier, TokenType::AssignOperator, TokenType::Identifier, TokenType::Eof]);
}

#[test]
fn lexer_maps_reserved_words_by_lower_case() {
    let tokens = lex("MULAI Selesai dan foo");
    assert_eq!(
        kinds(&tokens),
        vec![TokenType::Keyword, TokenType::Keyword, TokenType::LogicalOperator, TokenType::Identifier, TokenType::Eof]
    );
    assert_eq!(tokens[0].value, "MULAI");
}

#[test]
fn lexer_tracks_lines_and_columns() {
    let tokens = lex("a\n  bc");
    assert_eq!((tokens[0].line, tokens[0].column), (1, 1));
    assert_eq!((tokens[1].line, tokens[1].column), (2, 3));
    assert_eq!(tokens.last().unwrap().token_type, TokenType::Eof);
}

#[test]
fn lexer_reports_unknown_characters() {
    let tokens = lex("a ? b");
    assert_eq!(tokens[1].token_type, TokenType::Unknown);
    assert_eq!(tokens[1].value, "?");
    assert_eq!(tokens.len(), 4);
}

#[test]
fn lexer_ends_with_exactly_one_eof() {
    let tokens = lex("");
    assert_eq!(kinds(&tokens), vec![TokenType::Eof]);
    let tokens = lex("   ");
    assert_eq!(kinds(&tokens), vec![TokenType::Eof]);
}

#[test]
fn lexer_reads_string_literals() {
    let tokens = lex("'hi there'");
    assert_eq!(tokens[0].token_type, TokenType::StringLiteral);
    assert_eq!(tokens[0].value, "'hi there'");
}

#[test]
fn dfa_rejects_a_missing_target_state() {
    let mut dfa = small_dfa();
    dfa.states[0].1.transitions.push(tr("?", "nowhere"));
    assert!(!dfa.is_well_formed());
    let mut dfa = small_dfa();
    dfa.start_state = "nowhere".to_string();
    assert!(!dfa.is_well_formed());
}

#[test]
fn dfa_gives_longest_accepted_prefix() {
    let dfa = small_dfa();
    let chars: Vec<char> = "abc1;".chars().collect();
    assert_eq!(dfa.dfa(&chars, 0), Some(("id".to_string(), "abc1".to_string())));
    assert_eq!(dfa.dfa(&chars, 4), Some(("semi".to_string(), ";".to_string())));
    let chars: Vec<char> = "?".chars().collect();
    assert_eq!(dfa.dfa(&chars, 0), None);
}

fn parse(source: &str) -> Result<pascal_s::parser::parse_tree::Program, pascal_s::parser::error::SyntaxError> {
    let mut parser = PascalParser::new(lex(source));
    parser.parse()
}

const SIMPLE: &str = "program hitung;\nvariabel x, y: integer;\nmulai\n  x := 1 + 2 * 3;\n  y := x\nselesai.";

#[test]
fn parser_reads_a_small_program() {
    let program = parse(SIMPLE).ok().unwrap();
    assert_eq!(program.header.name.value, "hitung");
    assert_eq!(program.declarations.var_declarations.len(), 1);
    let group = &program.declarations.var_declarations[0].groups[0];
    assert_eq!(group.identifiers.initial_id.value, "x");
    assert_eq!(group.identifiers.rest.len(), 1);
    let list = &program.body.statement_list;
    assert!(list.initial_stmt.is_some());
    assert_eq!(list.rest.len(), 1);
    assert!(list.trailing_semicolon.is_none());
    assert_eq!(program.dot.token_type, TokenType::Dot);
}

#[test]
fn parser_keeps_a_trailing_semicolon() {
    let program = parse("program p; mulai x := 1; selesai.").ok().unwrap();
    let list = &program.body.statement_list;
    assert_eq!(list.rest.len(), 0);
    assert_eq!(list.trailing_semicolon.as_ref().unwrap().value, ";");
}

#[test]
fn parser_requires_the_program_keyword() {
    let err = parse("mulai selesai.").err().unwrap();
    assert_eq!(err.message, "Mengharapkan keyword 'program'.");
    assert_eq!((err.line, err.column), (1, 1));
    assert_eq!(err.to_string(), "SyntaxError at 1:1: Mengharapkan keyword 'program'.");
}

#[test]
fn parser_requires_the_final_dot() {
    let err = parse("program p; mulai selesai").err().unwrap();
    assert_eq!(err.message, "Mengharapkan '.' di akhir program.");
}

#[test]
fn parser_rejects_an_expression_statement() {
    let err = parse("program p; mulai x + 1 selesai.").err().unwrap();
    assert_eq!(err.message, "Statement tidak valid. Mengharapkan ':=' atau pemanggilan prosedur.");
    assert_eq!((err.line, err.column), (0, 0));
}

#[test]
fn parser_reads_procedure_calls_as_statements() {
    let program = parse("program p; mulai writeln(1, 2) selesai.").ok().unwrap();
    match program.body.statement_list.initial_stmt.as_deref() {
        Some(Statement::ProcedureCall(call)) => {
            assert_eq!(call.call.function_name.value, "writeln");
            assert_eq!(call.call.arguments.as_ref().unwrap().rest.len(), 1);
        },
        _ => panic!("expected a procedure call"),
    }
}

#[test]
fn parser_only_calls_identifiers() {
    let err = parse("program p; mulai x := (a)(1) selesai.").err().unwrap();
    assert_eq!(err.message, "Mengharapkan nama fungsi sebelum '('.");
}

#[test]
fn parser_reads_operator_chains() {
    let program = parse("program p; mulai x := 1 + 2 - 3 selesai.").ok().unwrap();
    match program.body.statement_list.initial_stmt.as_deref() {
        Some(Statement::Assignment(a)) => {
            assert_eq!(a.expression.initial_simple_expr.rest.len(), 2);
            match &*a.expression.initial_simple_expr.initial_term.initial_factor {
                Factor::Literal(l) => assert_eq!(l.token.value, "1"),
                _ => panic!("expected a literal"),
            }
        },
        _ => panic!("expected an assignment"),
    }
}

#[test]
fn builder_nests_operators_to_the_left() {
    let program = parse("program p; mulai x := 1 - 2 - 3 selesai.").ok().unwrap();
    let ast = ASTBuilder::build(&program).ok().unwrap();
    match &ast.main_body.statements[0] {
        Stmt::Assignment { value, line, column, .. } => {
            assert_eq!((*line, *column), (1, 20));
            match &value.kind {
                ExprKind::Binary { left, op, right } => {
                    assert_eq!(*op, BinOp::Sub);
                    assert!(matches!(right.kind, ExprKind::LiteralInt(3)));
                    assert!(matches!(left.kind, ExprKind::Binary { op: BinOp::Sub, .. }));
                    assert_eq!((value.line, value.column), (1, 23));
                },
                _ => panic!("expected a binary expression"),
            }
        },
        _ => panic!("expected an assignment"),
    }
}

#[test]
fn builder_gives_multiplication_precedence() {
    let program = parse(SIMPLE).ok().unwrap();
    let ast = ASTBuilder::build(&program).ok().unwrap();
    assert_eq!(ast.name, "hitung");
    match &ast.declarations[0] {
        Decl::Variable { name, type_kind, .. } => {
            assert_eq!(name, &vec!["x".to_string(), "y".to_string()]);
            assert!(matches!(type_kind, TypeKind::Integer));
        },
        _ => panic!("expected a variable declaration"),
    }
    match &ast.main_body.statements[0] {
        Stmt::Assignment { value, .. } => match &value.kind {
            ExprKind::Binary { op: BinOp::Add, right, .. } => {
                assert!(matches!(right.kind, ExprKind::Binary { op: BinOp::Mul, .. }));
            },
            _ => panic!("expected an addition"),
        },
        _ => panic!("expected an assignment"),
    }
}

#[test]
fn builder_strips_string_quotes_and_reads_booleans() {
    let program = parse("program p; mulai s := 'abc'; b := benar selesai.").ok().unwrap();
    let ast = ASTBuilder::build(&program).ok().unwrap();
    match &ast.main_body.statements[0] {
        Stmt::Assignment { value, .. } => match &value.kind {
            ExprKind::LiteralString(s) => assert_eq!(s, "abc"),
            _ => panic!("expected a string"),
        },
        _ => panic!("expected an assignment"),
    }
    match &ast.main_body.statements[1] {
        Stmt::Assignment { value, .. } => assert!(matches!(value.kind, ExprKind::LiteralBool(true))),
        _ => panic!("expected an assignment"),
    }
}

#[test]
fn builder_rejects_upper_case_boolean_literals() {
    let program = parse("program p; mulai b := BENAR selesai.").ok().unwrap();
    let err = ASTBuilder::build(&program).err().unwrap();
    assert!(matches!(&err.kind, SemanticErrorKind::GenericError(m) if m == "Unknown literal type: BENAR"));
}

#[test]
fn builder_reads_for_loops() {
    let program = parse("program p; mulai untuk i := 1 ke 10 lakukan x := i selesai.").ok().unwrap();
    let ast = ASTBuilder::build(&program).ok().unwrap();
    match &ast.main_body.statements[0] {
        Stmt::For { iterator, direction, line, column, .. } => {
            assert_eq!(iterator, "i");
            assert_eq!(*direction, ForDirection::To);
            assert_eq!((*line, *column), (1, 18));
        },
        _ => panic!("expected a for loop"),
    }
}

fn analyze(source: &str) -> Result<(), Vec<pascal_s::semantic_analyzer::error::SemanticError>> {
    let program = parse(source).ok().unwrap();
    let mut ast = ASTBuilder::build(&program).ok().unwrap();
    let mut analyzer = SemanticAnalyzer::new();
    analyzer.analyze(&mut ast)
}

#[test]
fn analyzer_accepts_a_correct_program() {
    assert!(analyze(SIMPLE).is_ok());
}

#[test]
fn analyzer_annotates_expressions() {
    let program = parse(SIMPLE).ok().unwrap();
    let mut ast = ASTBuilder::build(&program).ok().unwrap();
    let mut analyzer = SemanticAnalyzer::new();
    assert!(analyzer.analyze(&mut ast).is_ok());
    match &ast.main_body.statements[1] {
        Stmt::Assignment { target, value, .. } => {
            assert!(matches!(target.annotation.type_kind, Some(TypeKind::Integer)));
            let idx = value.annotation.tab_index.unwrap();
            assert_eq!(analyzer.symbol_table.tab[idx].name, "x");
        },
        _ => panic!("expected an assignment"),
    }
    assert!(analyzer.errors.is_empty());
}

#[test]
fn analyzer_reports_undefined_identifiers() {
    let errs = analyze("program p; mulai x := 1 selesai.").err().unwrap();
    assert_eq!(errs.len(), 1);
    assert!(matches!(&errs[0].kind, SemanticErrorKind::UndefinedIdentifier(n) if n == "x"));
    assert_eq!((errs[0].line, errs[0].column), (1, 18));
    assert_eq!(errs[0].to_string(), "SemanticError at 1:18: Identifier 'x' belum dideklarasikan.");
}

#[test]
fn analyzer_reports_type_mismatches() {
    let errs = analyze("program p; variabel b: boolean; mulai b := 1 selesai.").err().unwrap();
    assert_eq!(errs.len(), 1);
    assert!(matches!(&errs[0].kind, SemanticErrorKind::TypeMismatch { expected, found } if expected == "Boolean" && found == "Integer"));
}

#[test]
fn analyzer_reports_assignment_to_constants() {
    let errs = analyze("program p; konstanta c = 5; mulai c := 1 selesai.").err().unwrap();
    assert_eq!(errs.len(), 1);
    assert!(matches!(&errs[0].kind, SemanticErrorKind::AssignmentToConstant(n) if n == "c"));
}

#[test]
fn analyzer_reports_redeclarations() {
    let errs = analyze("program p; variabel x: integer; variabel x: integer; mulai selesai.").err().unwrap();
    assert_eq!(errs.len(), 1);
    assert!(matches!(&errs[0].kind, SemanticErrorKind::RedeclaredIdentifier(n) if n == "x"));
}

#[test]
fn analyzer_checks_conditions_are_boolean() {
    let errs = analyze("program p; variabel x: integer; mulai jika x maka x := 1 selesai.").err().unwrap();
    assert_eq!(errs.len(), 1);
    assert!(matches!(&errs[0].kind, SemanticErrorKind::TypeMismatch { expected, found } if expected == "Boolean" && found == "Integer"));
}

#[test]
fn analyzer_reports_both_sides_of_a_bad_assignment() {
    let errs = analyze("program p; mulai a := b selesai.").err().unwrap();
    assert_eq!(errs.len(), 2);
    assert!(matches!(&errs[0].kind, SemanticErrorKind::UndefinedIdentifier(n) if n == "a"));
    assert!(matches!(&errs[1].kind, SemanticErrorKind::UndefinedIdentifier(n) if n == "b"));
}

#[test]
fn analyzer_accepts_builtin_procedure_calls() {
    assert!(analyze("program p; variabel x: integer; mulai writeln(x, 1) selesai.").is_ok());
}

#[test]
fn analyzer_rejects_invalid_operations() {
    let errs = analyze("program p; variabel b: boolean; x: integer; mulai x := b + 1 selesai.").err().unwrap();
    assert!(matches!(&errs[0].kind, SemanticErrorKind::InvalidOperation { op, .. } if op == "Add"));
}

#[test]
fn tokens_display_as_kind_and_value() {
    let t = Token::new(TokenType::Keyword, "program".to_string(), 1, 1);
    assert_eq!(t.to_string(), "KEYWORD(program)");
    assert_eq!(TokenType::from_string("Identifier"), TokenType::Identifier);
    assert_eq!(TokenType::from_string("nonsense"), TokenType::Unknown);
}

fn expected_dump(st: &SymbolTable) -> String {
    let mut s = String::new();
    s.push_str("\n>> Symbol Table Dump\n");
    s.push_str(&format!("\n{:-^95}\n", " TAB (Identifiers) "));
    s.push_str(&format!(
        "| {:<5} | {:<15} | {:<5} | {:<6} | {:<5} | {:<5} | {:<5} | {:<5} | {:<5} |\n",
        "Idx", "Name", "Link", "Obj", "Typ", "Ref", "Nrm", "Lev", "Adr"
    ));
    s.push_str(&format!("|{:-<93}|\n", ""));
    for (i, entry) in st.tab.iter().enumerate() {
        if i == 0 {
            continue;
        }
        let adr_display = match entry.obj {
            ObjectKind::Constant => format!("{}", entry.adr as u32 as i32),
            ObjectKind::Type if entry.ref_idx == 0 && (entry.typ == TYP_INT || entry.typ == TYP_CHAR) => {
                let low = (entry.adr & 0xFFFF) as u16 as i16 as i32;
                let high = ((entry.adr >> 16) & 0xFFFF) as u16 as i16 as i32;
                if entry.adr != 0 { format!("{}..{}", low, high) } else { "0".to_string() }
            }
            _ => format!("{}", entry.adr),
        };
        s.push_str(&format!(
            "| {:<5} | {:<15} | {:<5} | {:<6} | {:<5} | {:<5} | {:<5} | {:<5} | {:<5} |\n",
            i,
            if entry.name.is_empty() { "<empty>" } else { &entry.name },
            entry.link,
            entry.obj.to_string(),
            entry.typ,
            entry.ref_idx,
            if entry.normal { 1 } else { 0 },
            entry.level,
            adr_display
        ));
    }
    s.push_str(&format!("{:-^95}\n", ""));
    s.push_str(&format!("\n{:-^55}\n", " BTAB (Blocks) "));
    s.push_str(&format!("| {:<5} | {:<5} | {:<5} | {:<5} | {:<5} |\n", "Idx", "Last", "LPar", "PSze", "VSze"));
    s.push_str(&format!("|{:-<53}|\n", ""));
    for (i, entry) in st.btab.iter().enumerate() {
        s.push_str(&format!("| {:<5} | {:<5} | {:<5} | {:<5} | {:<5} |\n", i, entry.last, entry.lpar, entry.psze, entry.vsze));
    }
    s.push_str(&format!("{:-^55}\n", ""));
    if !st.atab.is_empty() {
        s.push_str(&format!("\n{:-^85}\n", " ATAB (Arrays) "));
        s.push_str(&format!(
            "| {:<5} | {:<5} | {:<5} | {:<5} | {:<8} | {:<8} | {:<5} | {:<5} |\n",
            "Idx", "XTyp", "ETyp", "ERef", "Low", "High", "ElSz", "Size"
        ));
        s.push_str(&format!("|{:-<83}|\n", ""));
        for (i, entry) in st.atab.iter().enumerate() {
            s.push_str(&format!(
                "| {:<5} | {:<5} | {:<5} | {:<5} | {:<8} | {:<8} | {:<5} | {:<5} |\n",
                i + 1,
                entry.xtyp,
                entry.etyp,
                entry.eref,
                entry.low,
                entry.high,
                entry.elsz,
                entry.size
            ));
        }
        s.push_str(&format!("{:-^85}\n", ""));
    } else {
        s.push_str("\n[ATAB is empty]\n");
    }
    s
}

#[test]
fn table_dump_matches_the_column_layout() {
    let entry = |name: &str, link: usize, obj: ObjectKind, typ: usize, ref_idx: usize, adr: usize| TabEntry {
        name: name.to_string(),
        link,
        obj,
        typ,
        ref_idx,
        normal: true,
        level: 1,
        adr,
    };
    let packed = ((-3i16 as u16 as usize) & 0xFFFF) | ((7usize & 0xFFFF) << 16);
    let st = SymbolTable {
        tab: vec![
            entry("", 0, ObjectKind::Variable, 0, 0, 0),
            entry("limit", 0, ObjectKind::Constant, 1, 0, (-5i32) as u32 as usize),
            entry("small", 1, ObjectKind::Type, 1, 0, packed),
            entry("", 2, ObjectKind::Variable, 1, 0, 42),
            entry("averyveryverylongname", 3, ObjectKind::Procedure, 0, 1, 0),
        ],
        btab: vec![BTabEntry { last: 4, lpar: 0, psze: 0, vsze: 3 }, BTabEntry { last: 0, lpar: 0, psze: 5, vsze: 5 }],
        atab: vec![ATabEntry { xtyp: 1, etyp: 1, eref: 0, low: -2, high: 9, elsz: 1, size: 12 }],
        display: vec![0, 1],
        level: 1,
    };
    let text = st.print_tables();
    assert_eq!(text, expected_dump(&st));
    assert!(text.contains("| 1     | limit           | 0     | Const  | 1     | 0     | 1     | 1     | -5    |\n"));
    assert!(text.contains("| 2     | small           | 1     | Type   | 1     | 0     | 1     | 1     | -3..7 |\n"));
    assert!(text.contains("| 3     | <empty>"));
}

#[test]
fn table_dump_notes_an_empty_array_table() {
    let analyzer = SemanticAnalyzer::new();
    let text = analyzer.print_tables();
    assert_eq!(text, expected_dump(&analyzer.symbol_table));
    assert!(text.ends_with("\n[ATAB is empty]\n"));
    assert!(text.starts_with("\n>> Symbol Table Dump\n\n--------------------------------------"));
}

#[test]
fn leaving_a_scope_restores_the_outer_lookups() {
    let mut st = SymbolTable::new();
    assert_eq!(st.find("x"), None);
    let outer = st.enter("x".to_string(), ObjectKind::Variable, TYP_INT, 0, true);
    assert_eq!(st.find("x"), Some(outer));
    st.enter_scope();
    assert_eq!(st.find("x"), Some(outer));
    assert_eq!(st.find_in_current_scope("x"), None);
    let inner = st.enter("x".to_string(), ObjectKind::Constant, TYP_INT, 3, true);
    assert_ne!(inner, outer);
    assert_eq!(st.find("x"), Some(inner));
    let only_inner = st.enter("y".to_string(), ObjectKind::Variable, TYP_CHAR, 0, true);
    assert_eq!(st.find("y"), Some(only_inner));
    st.exit_scope();
    assert_eq!(st.find("x"), Some(outer));
    assert_eq!(st.find("y"), None);
}

#[test]
fn tree_printer_draws_a_small_program() {
    let program = parse("program p; mulai x := 1 selesai.").unwrap();
    let mut printer = ParseTreePrinter::new();
    let text = printer.print_program(&program);
    let expected = "<program>
├── <program-header>
│   ├── KEYWORD(program)
│   ├── IDENTIFIER(p)
│   └── SEMICOLON(;)
├── <declaration-part>
├── <compound-statement>
│   ├── KEYWORD(mulai)
│   ├── <statement-list>
│   │   └── <assignment-statement>
│   │       ├── <expression>
│   │       │   └── <simple-expression>
│   │       │       └── <term>
│   │       │           └── <factor>
│   │       │               └── IDENTIFIER(x)
│   │       ├── ASSIGN_OPERATOR(:=)
│   │       └── <expression>
│   │           └── <simple-expression>
│   │               └── <term>
│   │                   └── <factor>
│   │                       └── INT_LITERAL(1)
│   └── KEYWORD(selesai)
└── DOT(.)
";
    assert_eq!(text, expected);
    assert_eq!(printer.indent_level, 0);
    assert!(printer.prefix_stack.is_empty());
}

#[test]
fn tree_printer_marks_the_last_declaration_section() {
    let program = parse("program p; variabel x, y: integer; mulai x := 1 selesai.").unwrap();
    let mut printer = ParseTreePrinter::new();
    let text = printer.print_program(&program);
    assert!(text.contains("├── <declaration-part>\n│   └── <var-declaration>\n│       ├── KEYWORD(variabel)\n│       ├── <identifier-list>\n│       │   ├── IDENTIFIER(x)\n│       │   ├── COMMA(,)\n│       │   └── IDENTIFIER(y)\n│       ├── COLON(:)\n│       ├── <type>\n│       │   └── KEYWORD(integer)\n│       └── SEMICOLON(;)\n"));
}

#[test]
fn flat_expressions_keep_their_source_form() {
    let program = parse("program p; mulai x := f(a, 1) + 2 * y selesai.").unwrap();
    match program.body.statement_list.initial_stmt.as_deref() {
        Some(Statement::Assignment(a)) => {
            assert_eq!(ParseTreePrinter::print_expression_flat(&a.variable), "x");
            assert_eq!(ParseTreePrinter::print_expression_flat(&a.expression), "f(a, 1) + 2 * y");
        }
        _ => panic!("expected an assignment"),
    }
}

#[test]
fn token_kinds_are_read_back_from_their_names() {
    for (name, kind) in [
        ("Keyword", TokenType::Keyword),
        ("Identifier", TokenType::Identifier),
        ("RangeOperator", TokenType::RangeOperator),
        ("CommentEnd", TokenType::CommentEnd),
        ("Unknown", TokenType::Unknown),
    ] {
        assert_eq!(TokenType::from_string(name), kind);
    }
    assert_eq!(TokenType::from_string("Eof"), TokenType::Unknown);
}

#[test]
fn advancing_at_the_end_stays_and_gives_the_previous_token() {
    let tokens = lex("x");
    let mut parser = PascalParser::new(tokens);
    let first = parser.advance();
    assert_eq!(first.value, "x");
    assert_eq!(parser.current, 1);
    let again = parser.advance();
    assert_eq!(again.value, "x");
    assert_eq!(parser.current, 1);
}

#[test]
fn lexing_again_after_eof_gives_only_that_eof() {
    let dfa = small_dfa();
    let mut lexer = PascalLexer::new("x := 1  ", dfa);
    let first = lexer.get_all_tokens();
    let last = first.last().unwrap().clone();
    assert_eq!(last.token_type, TokenType::Eof);
    let second = lexer.get_all_tokens();
    assert_eq!(second.len(), 1);
    assert_eq!(second[0].token_type, TokenType::Eof);
    assert_eq!((second[0].line, second[0].column), (last.line, last.column));
    assert_eq!(second[0].value, last.value);
}

fn int_param(names: &[&str]) -> Param {
    Param { names: names.iter().map(|n| n.to_string()).collect(), type_kind: TypeKind::Integer, is_var: false }
}

fn empty_block() -> BlockStmt {
    BlockStmt { statements: Vec::new() }
}

#[test]
fn new_tables_hold_the_predefined_types_at_their_indices() {
    let st = SymbolTable::new();
    for (k, n) in [(TYP_INT, "integer"), (TYP_REAL, "real"), (TYP_BOOL, "boolean"), (TYP_CHAR, "char"), (TYP_STRING, "string")] {
        assert_eq!(st.tab[k].name, n);
        assert_eq!(st.tab[k].obj, ObjectKind::Type);
        assert_eq!(st.tab[k].typ, k);
        assert_eq!(st.tab[k].adr, 1);
    }
    assert_eq!(st.find("integer"), Some(TYP_INT));
    assert_eq!(st.find("writeln").map(|i| st.tab[i].obj), Some(ObjectKind::Procedure));
}

#[test]
fn declared_functions_can_be_called() {
    let mut program = ProgramAST {
        name: "p".to_string(),
        declarations: vec![
            Decl::Variable { name: vec!["x".to_string()], type_kind: TypeKind::Integer, line: 1, column: 1 },
            Decl::Function {
                name: "f".to_string(),
                params: vec![int_param(&["a"])],
                return_type: TypeKind::Integer,
                local_decls: Vec::new(),
                body: empty_block(),
                line: 2,
                column: 1,
            },
        ],
        main_body: BlockStmt {
            statements: vec![Stmt::Assignment {
                target: Expr::new(ExprKind::Variable("x".to_string()), 3, 1),
                value: Expr::new(
                    ExprKind::FunctionCall { name: "f".to_string(), args: vec![Expr::new(ExprKind::LiteralInt(1), 3, 8)] },
                    3,
                    6,
                ),
                line: 3,
                column: 3,
            }],
        },
    };
    let mut analyzer = SemanticAnalyzer::new();
    assert!(analyzer.analyze(&mut program).is_ok());
}

#[test]
fn procedure_calls_check_the_argument_count() {
    let mut program = ProgramAST {
        name: "prog".to_string(),
        declarations: vec![Decl::Procedure {
            name: "p".to_string(),
            params: vec![int_param(&["a"])],
            local_decls: Vec::new(),
            body: empty_block(),
            line: 1,
            column: 1,
        }],
        main_body: BlockStmt {
            statements: vec![Stmt::ProcedureCall {
                name: "p".to_string(),
                args: vec![Expr::new(ExprKind::LiteralInt(1), 2, 3), Expr::new(ExprKind::LiteralInt(2), 2, 6)],
                line: 2,
                column: 1,
            }],
        },
    };
    let mut analyzer = SemanticAnalyzer::new();
    let errs = analyzer.analyze(&mut program).unwrap_err();
    assert!(errs.iter().any(|e| matches!(e.kind, SemanticErrorKind::ArgumentCountMismatch { expected: 1, found: 2 })));
}

#[test]
fn a_procedure_row_refers_to_the_block_of_its_parameters() {
    let mut program = ProgramAST {
        name: "prog".to_string(),
        declarations: vec![Decl::Procedure {
            name: "p".to_string(),
            params: vec![int_param(&["u", "v"])],
            local_decls: Vec::new(),
            body: empty_block(),
            line: 1,
            column: 1,
        }],
        main_body: empty_block(),
    };
    let mut analyzer = SemanticAnalyzer::new();
    assert!(analyzer.analyze(&mut program).is_ok());
    let st = &analyzer.symbol_table;
    let i = st.tab.iter().position(|e| e.name == "p").unwrap();
    assert_eq!(st.tab[i].obj, ObjectKind::Procedure);
    let b = st.tab[i].ref_idx;
    assert!(b > 0);
    let v = st.btab[b].lpar;
    assert_eq!(st.tab[v].name, "v");
    let u = st.tab[v].link;
    assert_eq!(st.tab[u].name, "u");
    assert_eq!(st.tab[u].link, 0);
}

#[test]
fn array_types_get_their_element_size() {
    let range = TypeKind::Subrange(
        Box::new(Expr::new(ExprKind::LiteralInt(1), 0, 0)),
        Box::new(Expr::new(ExprKind::LiteralInt(10), 0, 0)),
    );
    let mut program = ProgramAST {
        name: "prog".to_string(),
        declarations: vec![Decl::Variable {
            name: vec!["arr".to_string()],
            type_kind: TypeKind::Array { index_range: Box::new(range), element_type: Box::new(TypeKind::Integer) },
            line: 1,
            column: 1,
        }],
        main_body: empty_block(),
    };
    let mut analyzer = SemanticAnalyzer::new();
    assert!(analyzer.analyze(&mut program).is_ok());
    let st = &analyzer.symbol_table;
    let a = &st.atab[0];
    assert_eq!((a.xtyp, a.etyp, a.eref, a.low, a.high, a.elsz, a.size), (TYP_INT, TYP_INT, 0, 1, 10, 1, 10));
    let t = st.tab.iter().position(|e| e.obj == ObjectKind::Type && e.ref_idx == 1).unwrap();
    assert_eq!(st.tab[t].typ, t);
    assert_eq!(st.tab[t].adr, 10);
}

#[test]
fn blocks_and_arrays_made_inside_a_scope_leave_outer_lookups_alone() {
    let mut st = SymbolTable::new();
    let outer = st.enter("a".to_string(), ObjectKind::Variable, TYP_INT, 0, true);
    let level = st.level;
    st.enter_scope();
    st.enter("a".to_string(), ObjectKind::Variable, TYP_CHAR, 0, true);
    st.make_block();
    st.make_array(TYP_INT, TYP_INT, 0, 1, 4, 1);
    st.enter("b".to_string(), ObjectKind::Variable, TYP_BOOL, 0, true);
    st.exit_scope();
    assert_eq!(st.level, level);
    assert_eq!(st.find("a"), Some(outer));
    assert_eq!(st.find("b"), None);
    assert_eq!(st.find("integer"), Some(TYP_INT));
}

#[test]
fn binary_operand_order_does_not_change_the_verdict() {
    let a = SemanticAnalyzer::new();
    let r1 = a.check_binary_op(BinOp::Add, &TypeKind::Integer, &TypeKind::Real, 1, 1);
    let r2 = a.check_binary_op(BinOp::Add, &TypeKind::Real, &TypeKind::Integer, 1, 1);
    assert!(matches!(r1, Ok(TypeKind::Real)));
    assert!(matches!(r2, Ok(TypeKind::Real)));
    let r3 = a.check_binary_op(BinOp::Add, &TypeKind::String, &TypeKind::Char, 1, 1);
    let r4 = a.check_binary_op(BinOp::Add, &TypeKind::Char, &TypeKind::String, 1, 1);
    assert!(matches!(r3, Ok(TypeKind::String)));
    assert!(matches!(r4, Ok(TypeKind::String)));
    let r5 = a.check_binary_op(BinOp::Lt, &TypeKind::Integer, &TypeKind::Real, 1, 1);
    assert!(matches!(r5, Ok(TypeKind::Boolean)));
    assert!(a.check_binary_op(BinOp::And, &TypeKind::Boolean, &TypeKind::Integer, 1, 1).is_err());
    assert!(a.check_binary_op(BinOp::And, &TypeKind::Integer, &TypeKind::Boolean, 1, 1).is_err());
}

#[test]
fn an_array_type_row_records_its_size() {
    let mut a = SemanticAnalyzer::new();
    let k = TypeKind::Array {
        index_range: Box::new(TypeKind::Subrange(
            Box::new(Expr::new(ExprKind::LiteralInt(1), 0, 0)),
            Box::new(Expr::new(ExprKind::LiteralInt(10), 0, 0)),
        )),
        element_type: Box::new(TypeKind::Integer),
    };
    let t = a.kind_to_typ_idx(&k);
    let st = &a.symbol_table;
    assert_eq!(t, st.tab.len() - 1);
    assert_eq!(st.tab[t].obj, ObjectKind::Type);
    assert_eq!(st.tab[t].typ, t);
    assert_eq!(st.tab[t].ref_idx, 1);
    assert_eq!(st.tab[t].adr, 10);
    let e = &st.atab[0];
    assert_eq!((e.xtyp, e.etyp, e.eref, e.low, e.high, e.elsz, e.size), (TYP_INT, TYP_INT, 0, 1, 10, 1, 10));
}

#[test]
fn the_parameters_of_a_procedure_are_read_from_its_block() {
    let mut program = ProgramAST {
        name: "prog".to_string(),
        declarations: vec![Decl::Procedure {
            name: "p".to_string(),
            params: vec![int_param(&["u", "v"])],
            local_decls: Vec::new(),
            body: empty_block(),
            line: 1,
            column: 1,
        }],
        main_body: empty_block(),
    };
    let mut analyzer = SemanticAnalyzer::new();
    assert!(analyzer.analyze(&mut program).is_ok());
    let st = &analyzer.symbol_table;
    let i = st.tab.iter().position(|e| e.name == "p").unwrap();
    let ps = analyzer.get_parameters_from_btab(st.tab[i].ref_idx);
    let names: Vec<&str> = ps.iter().map(|&j| st.tab[j].name.as_str()).collect();
    assert_eq!(names, vec!["u", "v"]);
}
