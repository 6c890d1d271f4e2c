//! Reading statements: compound statements, conditionals, loops, case
//! statements, assignments and procedure calls.
use vstd::prelude::*;
use crate::lexer::token_types::{Token, TokenType};
use crate::parser::error::SyntaxError;
use crate::parser::grammar::{
    expr_as_call, rem, sp_assign_or_call, sp_case, sp_case_branch, sp_case_branches, sp_case_else, sp_case_labels,
    sp_compound, sp_direction, sp_else_clause, sp_for, sp_if, sp_label_rest, sp_list_rest, sp_repeat, sp_statement,
    sp_statement_list, sp_while,
};
use crate::parser::parse_tree::{
    AssignmentStatement, CaseBranch, CaseElseClause, CaseLabelList, CaseStatement, CompoundStatement, ElseClause,
    Expression, Factor, ForStatement, IfStatement, ProcedureCallStatement, RepeatStatement, Statement, StatementList,
    StatementV, WhileStatement, lemma_seq_view_case_branch_cons, lemma_seq_view_token_boxed_statement_cons,
    lemma_seq_view_token_expression_cons, seq_view_case_branch, seq_view_token_boxed_statement,
    seq_view_token_expression, statement_view,
};
use crate::parser::parser::{PascalParser, token_result, tree_result};
use crate::text::string_of;

verus! {

impl PascalParser {
    /// A statement, chosen by its first token.
    #[verifier::rlimit(100)]
    #[verifier::spinoff_prover]
    pub(crate) fn parse_statement(&mut self) -> (r: Result<Statement, SyntaxError>)
        requires
            old(self).wf(),
        ensures
            final(self).moved_from(old(self)),
            (final(self).current as int, tree_result(r)) == sp_statement(old(self).toks(), old(self).current as int),
        decreases rem(old(self).toks(), old(self).current as int), 20int,
    {
        proof { reveal(sp_statement); }
        if self.check_keyword("mulai") {
            self.statement_compound()
        } else if self.check_keyword("jika") {
            self.statement_if()
        } else if self.check_keyword("selama") {
            self.statement_while()
        } else if self.check_keyword("untuk") {
            self.statement_for()
        } else if self.check_keyword("ulangi") {
            self.statement_repeat()
        } else if self.check_keyword("kasus") {
            self.statement_case()
        } else if self.check(TokenType::Identifier) {
            self.parse_assignment_or_procedure_call()
        } else {
            Err(self.error("Mengharapkan sebuah statement."))
        }
    }

    /// A compound statement, as a statement.
    #[verifier::spinoff_prover]
    #[verifier::rlimit(50)]
    fn statement_compound(&mut self) -> (r: Result<Statement, SyntaxError>)
        requires
            old(self).wf(),
        ensures
            final(self).moved_from(old(self)),
            ({
                let (p, x) = sp_compound(old(self).toks(), old(self).current as int);
                (final(self).current as int, tree_result(r)) == (p, match x {
                    Ok(y) => Ok(StatementV::Compound(y)),
                    Err(e) => Err(e),
                })
            }),
        decreases rem(old(self).toks(), old(self).current as int), 16int,
    {
        proof { reveal(statement_view); }
        match self.parse_compound_statement() {
            Ok(x) => Ok(Statement::Compound(x)),
            Err(e) => Err(e),
        }
    }

    /// A if statement, as a statement.
    #[verifier::spinoff_prover]
    #[verifier::rlimit(50)]
    fn statement_if(&mut self) -> (r: Result<Statement, SyntaxError>)
        requires
            old(self).wf(),
        ensures
            final(self).moved_from(old(self)),
            ({
                let (p, x) = sp_if(old(self).toks(), old(self).current as int);
                (final(self).current as int, tree_result(r)) == (p, match x {
                    Ok(y) => Ok(StatementV::If(y)),
                    Err(e) => Err(e),
                })
            }),
        decreases rem(old(self).toks(), old(self).current as int), 16int,
    {
        proof { reveal(statement_view); }
        match self.parse_if_statement() {
            Ok(x) => Ok(Statement::If(x)),
            Err(e) => Err(e),
        }
    }

    /// A while statement, as a statement.
    #[verifier::spinoff_prover]
    #[verifier::rlimit(50)]
    fn statement_while(&mut self) -> (r: Result<Statement, SyntaxError>)
        requires
            old(self).wf(),
        ensures
            final(self).moved_from(old(self)),
            ({
                let (p, x) = sp_while(old(self).toks(), old(self).current as int);
                (final(self).current as int, tree_result(r)) == (p, match x {
                    Ok(y) => Ok(StatementV::While(y)),
                    Err(e) => Err(e),
                })
            }),
        decreases rem(old(self).toks(), old(self).current as int), 16int,
    {
        proof { reveal(statement_view); }
        match self.parse_while_statement() {
            Ok(x) => Ok(Statement::While(x)),
            Err(e) => Err(e),
        }
    }

    /// A for statement, as a statement.
    #[verifier::spinoff_prover]
    #[verifier::rlimit(50)]
    fn statement_for(&mut self) -> (r: Result<Statement, SyntaxError>)
        requires
            old(self).wf(),
        ensures
            final(self).moved_from(old(self)),
            ({
                let (p, x) = sp_for(old(self).toks(), old(self).current as int);
                (final(self).current as int, tree_result(r)) == (p, match x {
                    Ok(y) => Ok(StatementV::For(y)),
                    Err(e) => Err(e),
                })
            }),
        decreases rem(old(self).toks(), old(self).current as int), 16int,
    {
        proof { reveal(statement_view); }
        match self.parse_for_statement() {
            Ok(x) => Ok(Statement::For(x)),
            Err(e) => Err(e),
        }
    }

    /// A repeat statement, as a statement.
    #[verifier::spinoff_prover]
    #[verifier::rlimit(50)]
    fn statement_repeat(&mut self) -> (r: Result<Statement, SyntaxError>)
        requires
            old(self).wf(),
        ensures
            final(self).moved_from(old(self)),
            ({
                let (p, x) = sp_repeat(old(self).toks(), old(self).current as int);
                (final(self).current as int, tree_result(r)) == (p, match x {
                    Ok(y) => Ok(StatementV::Repeat(y)),
                    Err(e) => Err(e),
                })
            }),
        decreases rem(old(self).toks(), old(self).current as int), 16int,
    {
        proof { reveal(statement_view); }
        match self.parse_repeat_statement() {
            Ok(x) => Ok(Statement::Repeat(x)),
            Err(e) => Err(e),
        }
    }

    /// A case statement, as a statement.
    #[verifier::rlimit(100)]
    #[verifier::spinoff_prover]
    fn statement_case(&mut self) -> (r: Result<Statement, SyntaxError>)
        requires
            old(self).wf(),
        ensures
            final(self).moved_from(old(self)),
            ({
                let (p, x) = sp_case(old(self).toks(), old(self).current as int);
                (final(self).current as int, tree_result(r)) == (p, match x {
                    Ok(y) => Ok(StatementV::Case(y)),
                    Err(e) => Err(e),
                })
            }),
        decreases rem(old(self).toks(), old(self).current as int), 16int,
    {
        proof { reveal(statement_view); }
        match self.parse_case_statement() {
            Ok(x) => Ok(Statement::Case(x)),
            Err(e) => Err(e),
        }
    }

    /// Statements separated by semicolons, up to the keyword `term`; a
    /// semicolon right before `term` is kept as the trailing one.
    #[verifier::rlimit(100)]
    #[verifier::spinoff_prover]
    fn parse_statement_list(&mut self, term: &str) -> (r: Result<StatementList, SyntaxError>)
        requires
            old(self).wf(),
        ensures
            final(self).moved_from(old(self)),
            (final(self).current as int, tree_result(r)) == sp_statement_list(old(self).toks(), old(self).current as int, term@),
        decreases rem(old(self).toks(), old(self).current as int), 21int,
    {
        if self.check_keyword(term) {
            let r = StatementList { initial_stmt: None, rest: Vec::new(), trailing_semicolon: None };
            proof { assert(seq_view_token_boxed_statement(Seq::empty()) =~= Seq::empty()); }
            return Ok(r);
        }
        let initial = match self.parse_statement() {
            Ok(s) => s,
            Err(e) => return Err(e),
        };
        let (rest, trailing_semicolon) = match self.parse_list_rest(term) {
            Ok(x) => x,
            Err(e) => return Err(e),
        };
        Ok(StatementList { initial_stmt: Some(Box::new(initial)), rest, trailing_semicolon })
    }

    /// `(; statement)*` up to `term`.
    #[verifier::spinoff_prover]
    #[verifier::rlimit(50)]
    fn parse_list_rest(&mut self, term: &str) -> (r: Result<(Vec<(Token, Box<Statement>)>, Option<Token>), SyntaxError>)
        requires
            old(self).wf(),
        ensures
            final(self).moved_from(old(self)),
            sp_list_rest(old(self).toks(), old(self).current as int, term@) == (final(self).current as int, match r {
                Ok(x) => Ok((seq_view_token_boxed_statement(x.0@), x.1)),
                Err(e) => Err(e@),
            }),
        decreases rem(old(self).toks(), old(self).current as int), 20int,
    {
        if self.check(TokenType::Semicolon) {
            let semi = self.advance();
            if self.check_keyword(term) {
                proof { assert(seq_view_token_boxed_statement(Seq::empty()) =~= Seq::empty()); }
                return Ok((Vec::new(), Some(semi)));
            }
            let stmt = match self.parse_statement() {
                Ok(s) => s,
                Err(e) => return Err(e),
            };
            let (mut rest, trailing) = match self.parse_list_rest(term) {
                Ok(x) => x,
                Err(e) => return Err(e),
            };
            proof { lemma_seq_view_token_boxed_statement_cons((semi, Box::new(stmt)), rest@); }
            let ghost r0 = rest@;
            rest.insert(0, (semi, Box::new(stmt)));
            proof { assert(rest@ =~= seq![(semi, Box::new(stmt))] + r0); }
            Ok((rest, trailing))
        } else {
            proof { assert(seq_view_token_boxed_statement(Seq::empty()) =~= Seq::empty()); }
            Ok((Vec::new(), None))
        }
    }

    /// `mulai statements selesai`
    #[verifier::rlimit(100)]
    #[verifier::spinoff_prover]
    pub(crate) fn parse_compound_statement(&mut self) -> (r: Result<CompoundStatement, SyntaxError>)
        requires
            old(self).wf(),
        ensures
            final(self).moved_from(old(self)),
            (final(self).current as int, tree_result(r)) == sp_compound(old(self).toks(), old(self).current as int),
        decreases rem(old(self).toks(), old(self).current as int), 15int,
    {
        let begin_kw = match self.consume_keyword("mulai", "Mengharapkan keyword 'mulai'.") {
            Ok(t) => t,
            Err(e) => return Err(e),
        };
        let statement_list = match self.parse_statement_list("selesai") {
            Ok(l) => l,
            Err(e) => return Err(e),
        };
        let end_kw = match self.consume_keyword("selesai", "Mengharapkan keyword 'selesai'.") {
            Ok(t) => t,
            Err(e) => return Err(e),
        };
        Ok(CompoundStatement { begin_kw, statement_list, end_kw })
    }

    /// `jika condition maka statement [selain-itu statement]`
    #[verifier::spinoff_prover]
    #[verifier::rlimit(50)]
    fn parse_if_statement(&mut self) -> (r: Result<IfStatement, SyntaxError>)
        requires
            old(self).wf(),
        ensures
            final(self).moved_from(old(self)),
            (final(self).current as int, tree_result(r)) == sp_if(old(self).toks(), old(self).current as int),
        decreases rem(old(self).toks(), old(self).current as int), 15int,
    {
        let if_kw = match self.consume_keyword("jika", "Mengharapkan keyword 'jika'.") {
            Ok(t) => t,
            Err(e) => return Err(e),
        };
        let condition = match self.parse_expression() {
            Ok(x) => x,
            Err(e) => return Err(e),
        };
        let then_kw = match self.consume_keyword("maka", "Mengharapkan keyword 'maka'.") {
            Ok(t) => t,
            Err(e) => return Err(e),
        };
        let then_branch = match self.parse_statement() {
            Ok(s) => s,
            Err(e) => return Err(e),
        };
        let else_clause = match self.parse_else_clause() {
            Ok(x) => x,
            Err(e) => return Err(e),
        };
        Ok(IfStatement { if_kw, condition, then_kw, then_branch: Box::new(then_branch), else_clause })
    }

    /// `[selain-itu statement]`
    #[verifier::spinoff_prover]
    #[verifier::rlimit(50)]
    fn parse_else_clause(&mut self) -> (r: Result<Option<ElseClause>, SyntaxError>)
        requires
            old(self).wf(),
        ensures
            final(self).moved_from(old(self)),
            sp_else_clause(old(self).toks(), old(self).current as int) == (final(self).current as int, match r {
                Ok(Some(x)) => Ok(Some(x@)),
                Ok(None) => Ok(None),
                Err(e) => Err(e@),
            }),
        decreases rem(old(self).toks(), old(self).current as int), 14int,
    {
        if self.check_keyword("selain-itu") {
            let else_kw = self.advance();
            let statement = match self.parse_statement() {
                Ok(s) => s,
                Err(e) => return Err(e),
            };
            Ok(Some(ElseClause { else_kw, statement: Box::new(statement) }))
        } else {
            Ok(None)
        }
    }

    /// `selama condition lakukan statement`
    #[verifier::spinoff_prover]
    #[verifier::rlimit(50)]
    fn parse_while_statement(&mut self) -> (r: Result<WhileStatement, SyntaxError>)
        requires
            old(self).wf(),
        ensures
            final(self).moved_from(old(self)),
            (final(self).current as int, tree_result(r)) == sp_while(old(self).toks(), old(self).current as int),
        decreases rem(old(self).toks(), old(self).current as int), 15int,
    {
        let while_kw = match self.consume_keyword("selama", "Mengharapkan keyword 'selama'.") {
            Ok(t) => t,
            Err(e) => return Err(e),
        };
        let condition = match self.parse_expression() {
            Ok(x) => x,
            Err(e) => return Err(e),
        };
        let do_kw = match self.consume_keyword("lakukan", "Mengharapkan keyword 'lakukan'.") {
            Ok(t) => t,
            Err(e) => return Err(e),
        };
        let body = match self.parse_statement() {
            Ok(s) => s,
            Err(e) => return Err(e),
        };
        Ok(WhileStatement { while_kw, condition, do_kw, body: Box::new(body) })
    }

    /// `ke` or `turun-ke`.
    #[verifier::spinoff_prover]
    #[verifier::rlimit(50)]
    fn parse_direction(&mut self) -> (r: Result<Token, SyntaxError>)
        requires
            old(self).wf(),
        ensures
            final(self).moved_from(old(self)),
            (final(self).current as int, token_result(r)) == sp_direction(old(self).toks(), old(self).current as int),
    {
        if self.check_keyword("ke") || self.check_keyword("turun-ke") {
            Ok(self.advance())
        } else {
            Err(self.error("Mengharapkan keyword 'ke' atau 'turun-ke'."))
        }
    }

    /// `untuk i := start (ke | turun-ke) end lakukan statement`
    #[verifier::spinoff_prover]
    #[verifier::rlimit(50)]
    fn parse_for_statement(&mut self) -> (r: Result<ForStatement, SyntaxError>)
        requires
            old(self).wf(),
        ensures
            final(self).moved_from(old(self)),
            (final(self).current as int, tree_result(r)) == sp_for(old(self).toks(), old(self).current as int),
        decreases rem(old(self).toks(), old(self).current as int), 15int,
    {
        let for_kw = match self.consume_keyword("untuk", "Mengharapkan keyword 'untuk'.") {
            Ok(t) => t,
            Err(e) => return Err(e),
        };
        let counter_variable = match self.consume_token(TokenType::Identifier, "Mengharapkan nama variabel counter.") {
            Ok(t) => t,
            Err(e) => return Err(e),
        };
        let assign_op = match self.consume_token(TokenType::AssignOperator, "Mengharapkan ':=' pada statement untuk.") {
            Ok(t) => t,
            Err(e) => return Err(e),
        };
        let start_value = match self.parse_expression() {
            Ok(x) => x,
            Err(e) => return Err(e),
        };
        let direction_kw = match self.parse_direction() {
            Ok(t) => t,
            Err(e) => return Err(e),
        };
        let end_value = match self.parse_expression() {
            Ok(x) => x,
            Err(e) => return Err(e),
        };
        let do_kw = match self.consume_keyword("lakukan", "Mengharapkan keyword 'lakukan'.") {
            Ok(t) => t,
            Err(e) => return Err(e),
        };
        let body = match self.parse_statement() {
            Ok(s) => s,
            Err(e) => return Err(e),
        };
        Ok(ForStatement {
            for_kw,
            counter_variable,
            assign_op,
            start_value,
            direction_kw,
            end_value,
            do_kw,
            body: Box::new(body),
        })
    }

    /// `ulangi statements sampai condition`
    #[verifier::spinoff_prover]
    #[verifier::rlimit(50)]
    fn parse_repeat_statement(&mut self) -> (r: Result<RepeatStatement, SyntaxError>)
        requires
            old(self).wf(),
        ensures
            final(self).moved_from(old(self)),
            (final(self).current as int, tree_result(r)) == sp_repeat(old(self).toks(), old(self).current as int),
        decreases rem(old(self).toks(), old(self).current as int), 15int,
    {
        let repeat_kw = match self.consume_keyword("ulangi", "Mengharapkan keyword 'ulangi'.") {
            Ok(t) => t,
            Err(e) => return Err(e),
        };
        let statement_list = match self.parse_statement_list("sampai") {
            Ok(l) => l,
            Err(e) => return Err(e),
        };
        let until_kw = match self.consume_keyword("sampai", "Mengharapkan keyword 'sampai'.") {
            Ok(t) => t,
            Err(e) => return Err(e),
        };
        let condition = match self.parse_expression() {
            Ok(x) => x,
            Err(e) => return Err(e),
        };
        Ok(RepeatStatement { repeat_kw, statement_list, until_kw, condition })
    }

    /// `kasus expression dari branches [selain-itu statements] selesai`
    #[verifier::spinoff_prover]
    #[verifier::rlimit(50)]
    fn parse_case_statement(&mut self) -> (r: Result<CaseStatement, SyntaxError>)
        requires
            old(self).wf(),
        ensures
            final(self).moved_from(old(self)),
            (final(self).current as int, tree_result(r)) == sp_case(old(self).toks(), old(self).current as int),
        decreases rem(old(self).toks(), old(self).current as int), 15int,
    {
        let case_kw = match self.consume_keyword("kasus", "Mengharapkan keyword 'kasus'.") {
            Ok(t) => t,
            Err(e) => return Err(e),
        };
        let expression = match self.parse_expression() {
            Ok(x) => x,
            Err(e) => return Err(e),
        };
        let of_kw = match self.consume_keyword("dari", "Mengharapkan keyword 'dari' setelah ekspresi kasus.") {
            Ok(t) => t,
            Err(e) => return Err(e),
        };
        let branches = match self.parse_case_branches() {
            Ok(b) => b,
            Err(e) => return Err(e),
        };
        let else_clause = match self.parse_case_else_clause() {
            Ok(x) => x,
            Err(e) => return Err(e),
        };
        let end_kw = match self.consume_keyword("selesai", "Mengharapkan keyword 'selesai'.") {
            Ok(t) => t,
            Err(e) => return Err(e),
        };
        Ok(CaseStatement { case_kw, expression, of_kw, branches, else_clause, end_kw })
    }

    /// Case branches up to `selain-itu` or `selesai`.
    #[verifier::rlimit(100)]
    #[verifier::spinoff_prover]
    fn parse_case_branches(&mut self) -> (r: Result<Vec<CaseBranch>, SyntaxError>)
        requires
            old(self).wf(),
        ensures
            final(self).moved_from(old(self)),
            sp_case_branches(old(self).toks(), old(self).current as int) == (final(self).current as int, match r {
                Ok(v) => Ok(seq_view_case_branch(v@)),
                Err(e) => Err(e@),
            }),
        decreases rem(old(self).toks(), old(self).current as int), 14int,
    {
        if !self.check_keyword("selain-itu") && !self.check_keyword("selesai") {
            let branch = match self.parse_case_branch() {
                Ok(b) => b,
                Err(e) => return Err(e),
            };
            let mut rest = match self.parse_case_branches() {
                Ok(v) => v,
                Err(e) => return Err(e),
            };
            proof { lemma_seq_view_case_branch_cons(branch, rest@); }
            let ghost r0 = rest@;
            rest.insert(0, branch);
            proof { assert(rest@ =~= seq![branch] + r0); }
            Ok(rest)
        } else {
            proof { assert(seq_view_case_branch(Seq::empty()) =~= Seq::empty()); }
            Ok(Vec::new())
        }
    }

    /// `labels : statement ;`
    #[verifier::spinoff_prover]
    #[verifier::rlimit(50)]
    fn parse_case_branch(&mut self) -> (r: Result<CaseBranch, SyntaxError>)
        requires
            old(self).wf(),
        ensures
            final(self).moved_from(old(self)),
            r is Ok ==> old(self).current < final(self).current,
            (final(self).current as int, tree_result(r)) == sp_case_branch(old(self).toks(), old(self).current as int),
        decreases rem(old(self).toks(), old(self).current as int), 13int,
    {
        let labels = match self.parse_case_label_list() {
            Ok(l) => l,
            Err(e) => return Err(e),
        };
        let colon = match self.consume_token(TokenType::Colon, "Mengharapkan ':' setelah label kasus.") {
            Ok(t) => t,
            Err(e) => return Err(e),
        };
        let statement = match self.parse_statement() {
            Ok(s) => s,
            Err(e) => return Err(e),
        };
        let semicolon = match self.consume_token(TokenType::Semicolon, "Mengharapkan ';' setelah cabang kasus.") {
            Ok(t) => t,
            Err(e) => return Err(e),
        };
        Ok(CaseBranch { labels, colon, statement: Box::new(statement), semicolon })
    }

    /// `label (, label)*`
    #[verifier::spinoff_prover]
    #[verifier::rlimit(50)]
    fn parse_case_label_list(&mut self) -> (r: Result<CaseLabelList, SyntaxError>)
        requires
            old(self).wf(),
        ensures
            final(self).moved_from(old(self)),
            r is Ok ==> old(self).current < final(self).current,
            (final(self).current as int, tree_result(r)) == sp_case_labels(old(self).toks(), old(self).current as int),
    {
        let initial_label = match self.parse_expression() {
            Ok(x) => x,
            Err(e) => return Err(e),
        };
        let rest = match self.parse_label_rest() {
            Ok(v) => v,
            Err(e) => return Err(e),
        };
        Ok(CaseLabelList { initial_label, rest })
    }

    /// `(, label)*`
    #[verifier::spinoff_prover]
    #[verifier::rlimit(50)]
    fn parse_label_rest(&mut self) -> (r: Result<Vec<(Token, Expression)>, SyntaxError>)
        requires
            old(self).wf(),
        ensures
            final(self).moved_from(old(self)),
            sp_label_rest(old(self).toks(), old(self).current as int) == (final(self).current as int, match r {
                Ok(v) => Ok(seq_view_token_expression(v@)),
                Err(e) => Err(e@),
            }),
        decreases rem(old(self).toks(), old(self).current as int),
    {
        if self.check(TokenType::Comma) {
            let comma = self.advance();
            let next_label = match self.parse_expression() {
                Ok(x) => x,
                Err(e) => return Err(e),
            };
            let mut rest = match self.parse_label_rest() {
                Ok(v) => v,
                Err(e) => return Err(e),
            };
            proof { lemma_seq_view_token_expression_cons((comma, next_label), rest@); }
            let ghost r0 = rest@;
            rest.insert(0, (comma, next_label));
            proof { assert(rest@ =~= seq![(comma, next_label)] + r0); }
            Ok(rest)
        } else {
            proof { assert(seq_view_token_expression(Seq::empty()) =~= Seq::empty()); }
            Ok(Vec::new())
        }
    }

    /// `[selain-itu statements]`
    #[verifier::spinoff_prover]
    #[verifier::rlimit(50)]
    fn parse_case_else_clause(&mut self) -> (r: Result<Option<CaseElseClause>, SyntaxError>)
        requires
            old(self).wf(),
        ensures
            final(self).moved_from(old(self)),
            sp_case_else(old(self).toks(), old(self).current as int) == (final(self).current as int, match r {
                Ok(Some(x)) => Ok(Some(x@)),
                Ok(None) => Ok(None),
                Err(e) => Err(e@),
            }),
        decreases rem(old(self).toks(), old(self).current as int), 14int,
    {
        if self.check_keyword("selain-itu") {
            let else_kw = self.advance();
            let statement_list = match self.parse_statement_list("selesai") {
                Ok(l) => l,
                Err(e) => return Err(e),
            };
            Ok(Some(CaseElseClause { else_kw, statement_list }))
        } else {
            Ok(None)
        }
    }

    /// `target := expression`, or a procedure call.
    #[verifier::spinoff_prover]
    #[verifier::rlimit(50)]
    fn parse_assignment_or_procedure_call(&mut self) -> (r: Result<Statement, SyntaxError>)
        requires
            old(self).wf(),
        ensures
            final(self).moved_from(old(self)),
            (final(self).current as int, tree_result(r)) == sp_assign_or_call(old(self).toks(), old(self).current as int),
        decreases rem(old(self).toks(), old(self).current as int), 15int,
    {
        proof { reveal(statement_view); }
        let left_expr = match self.parse_expression() {
            Ok(x) => x,
            Err(e) => return Err(e),
        };
        if self.check(TokenType::AssignOperator) {
            let assign_op = self.advance();
            let expression = match self.parse_expression() {
                Ok(x) => x,
                Err(e) => return Err(e),
            };
            Ok(Statement::Assignment(AssignmentStatement { variable: left_expr, assign_op, expression }))
        } else {
            match Self::expr_to_proc_call(left_expr) {
                Ok(call) => Ok(Statement::ProcedureCall(call)),
                Err(e) => Err(e),
            }
        }
    }

    /// The procedure call that an expression is, when it is a call and
    /// nothing more.
    #[verifier::spinoff_prover]
    #[verifier::rlimit(50)]
    fn expr_to_proc_call(expr: Expression) -> (r: Result<ProcedureCallStatement, SyntaxError>)
        ensures
            match expr_as_call(expr@) {
                Some(c) => r is Ok && r->Ok_0@ == c,
                None => r is Err && r->Err_0@ == (crate::parser::error::SyntaxErrorV {
                    message: "Statement tidak valid. Mengharapkan ':=' atau pemanggilan prosedur."@,
                    line: 0,
                    column: 0,
                }),
            },
    {
        let fail = SyntaxError::new(string_of("Statement tidak valid. Mengharapkan ':=' atau pemanggilan prosedur."), 0, 0);
        if expr.rest.len() != 0 || expr.initial_simple_expr.rest.len() != 0 || expr.initial_simple_expr.initial_term.rest.len() != 0 {
            proof {
                crate::parser::parse_tree::lemma_seq_view_token_boxed_simple_expression(expr.rest@);
                crate::parser::parse_tree::lemma_seq_view_token_boxed_term(expr.initial_simple_expr.rest@);
                crate::parser::parse_tree::lemma_seq_view_token_boxed_factor(expr.initial_simple_expr.initial_term.rest@);
            }
            return Err(fail);
        }
        proof {
            crate::parser::parse_tree::lemma_seq_view_token_boxed_simple_expression(expr.rest@);
            crate::parser::parse_tree::lemma_seq_view_token_boxed_term(expr.initial_simple_expr.rest@);
            crate::parser::parse_tree::lemma_seq_view_token_boxed_factor(expr.initial_simple_expr.initial_term.rest@);
        }
        let Expression { initial_simple_expr, rest: _ } = expr;
        let simple = *initial_simple_expr;
        let term = *simple.initial_term;
        match *term.initial_factor {
            Factor::FunctionCall(call) => Ok(ProcedureCallStatement { call }),
            _ => Err(fail),
        }
    }
}

} // verus!
