//! Reading declarations: constant, type and variable sections,
//! procedures and functions with their parameters, and types.
use vstd::prelude::*;
use crate::lexer::token_types::{Token, TokenType};
use crate::parser::error::SyntaxError;
use crate::parser::grammar::{
    rem, sp_array_type, sp_const_decl, sp_const_def, sp_const_defs, sp_const_loop, sp_decl_part, sp_function, sp_id_rest,
    sp_identifier_list, sp_param_group, sp_param_rest, sp_params, sp_procedure, sp_range, sp_sub_loop, sp_subprogram,
    sp_type_decl, sp_type_def, sp_type_defs, sp_type_loop, sp_type_spec, sp_var_decl, sp_var_group, sp_var_groups,
    sp_var_loop,
};
use crate::parser::parse_tree::{
    ArrayType, ConstantDeclaration, ConstantDefinition, DeclarationPart, FormalParameterGroup, FormalParameterList,
    FunctionDeclaration, IdentifierList, ProcedureDeclaration, Range, SubprogramDeclaration, Type, TypeDeclaration,
    TypeDefinition, VariableDeclaration, VariableGroup, lemma_seq_view_constant_declaration_cons,
    lemma_seq_view_constant_definition_cons, lemma_seq_view_subprogram_declaration_cons,
    lemma_seq_view_token_formal_parameter_group_cons, lemma_seq_view_token_token_cons,
    lemma_seq_view_type_declaration_cons, lemma_seq_view_type_definition_cons, lemma_seq_view_variable_declaration_cons,
    lemma_seq_view_variable_group_cons, seq_view_constant_declaration, seq_view_constant_definition,
    seq_view_subprogram_declaration, seq_view_token_formal_parameter_group, seq_view_token_token,
    seq_view_type_declaration, seq_view_type_definition, seq_view_variable_declaration, seq_view_variable_group, subprogram_declaration_view, type_view,
};
use crate::parser::parser::{PascalParser, tree_result};
use crate::text::{join3, str_eq};

verus! {

impl PascalParser {
    /// Constant sections while the next token is `konstanta`.
    #[verifier::rlimit(100)]
    #[verifier::spinoff_prover]
    fn parse_const_loop(&mut self) -> (r: Result<Vec<ConstantDeclaration>, SyntaxError>)
        requires
            old(self).wf(),
        ensures
            final(self).moved_from(old(self)),
            sp_const_loop(old(self).toks(), old(self).current as int) == (final(self).current as int, match r {
                Ok(v) => Ok(seq_view_constant_declaration(v@)),
                Err(e) => Err(e@),
            }),
        decreases rem(old(self).toks(), old(self).current as int),
    {
        if self.check_keyword("konstanta") {
            let d = match self.parse_constant_declaration() {
                Ok(x) => x,
                Err(e) => return Err(e),
            };
            let mut rest = match self.parse_const_loop() {
                Ok(x) => x,
                Err(e) => return Err(e),
            };
            proof { lemma_seq_view_constant_declaration_cons(d, rest@); }
            let ghost r0 = rest@;
            rest.insert(0, d);
            proof { assert(rest@ =~= seq![d] + r0); }
            Ok(rest)
        } else {
            proof { assert(seq_view_constant_declaration(Seq::empty()) =~= Seq::empty()); }
            Ok(Vec::new())
        }
    }

    /// `konstanta (ID = expression ;)*`
    #[verifier::spinoff_prover]
    #[verifier::rlimit(50)]
    fn parse_constant_declaration(&mut self) -> (r: Result<ConstantDeclaration, SyntaxError>)
        requires
            old(self).wf(),
        ensures
            final(self).moved_from(old(self)),
            r is Ok ==> old(self).current < final(self).current,
            (final(self).current as int, tree_result(r)) == sp_const_decl(old(self).toks(), old(self).current as int),
    {
        let const_kw = match self.consume_keyword("konstanta", "Mengharapkan keyword 'konstanta'.") {
            Ok(x) => x,
            Err(e) => return Err(e),
        };
        let constants = match self.parse_const_defs() {
            Ok(x) => x,
            Err(e) => return Err(e),
        };
        Ok(ConstantDeclaration { const_kw, constants })
    }

    /// Constant definitions while the next token is an identifier.
    #[verifier::rlimit(100)]
    #[verifier::spinoff_prover]
    fn parse_const_defs(&mut self) -> (r: Result<Vec<ConstantDefinition>, SyntaxError>)
        requires
            old(self).wf(),
        ensures
            final(self).moved_from(old(self)),
            sp_const_defs(old(self).toks(), old(self).current as int) == (final(self).current as int, match r {
                Ok(v) => Ok(seq_view_constant_definition(v@)),
                Err(e) => Err(e@),
            }),
        decreases rem(old(self).toks(), old(self).current as int),
    {
        if self.check(TokenType::Identifier) {
            let d = match self.parse_constant_definition() {
                Ok(x) => x,
                Err(e) => return Err(e),
            };
            let mut rest = match self.parse_const_defs() {
                Ok(x) => x,
                Err(e) => return Err(e),
            };
            proof { lemma_seq_view_constant_definition_cons(d, rest@); }
            let ghost r0 = rest@;
            rest.insert(0, d);
            proof { assert(rest@ =~= seq![d] + r0); }
            Ok(rest)
        } else {
            proof { assert(seq_view_constant_definition(Seq::empty()) =~= Seq::empty()); }
            Ok(Vec::new())
        }
    }

    /// `ID = expression ;`
    #[verifier::spinoff_prover]
    #[verifier::rlimit(50)]
    fn parse_constant_definition(&mut self) -> (r: Result<ConstantDefinition, SyntaxError>)
        requires
            old(self).wf(),
        ensures
            final(self).moved_from(old(self)),
            r is Ok ==> old(self).current < final(self).current,
            (final(self).current as int, tree_result(r)) == sp_const_def(old(self).toks(), old(self).current as int),
    {
        let name = match self.consume_token(TokenType::Identifier, "Mengharapkan nama konstanta.") {
            Ok(x) => x,
            Err(e) => return Err(e),
        };
        let equals_op = match self.consume_token(TokenType::RelationalOperator, "Mengharapkan '='.") {
            Ok(x) => x,
            Err(e) => return Err(e),
        };
        if !str_eq(equals_op.value.as_str(), "=") {
            let msg = join3("Mengharapkan '=' untuk definisi konstanta, ditemukan '", equals_op.value.as_str(), "'");
            return Err(self.error(msg.as_str()));
        }
        let value = match self.parse_expression() {
            Ok(x) => x,
            Err(e) => return Err(e),
        };
        let semicolon = match self.consume_token(TokenType::Semicolon, "Mengharapkan ';' setelah definisi konstanta.") {
            Ok(x) => x,
            Err(e) => return Err(e),
        };
        Ok(ConstantDefinition { name, equals_op, value, semicolon })
    }

    /// Type sections while the next token is `tipe`.
    #[verifier::rlimit(100)]
    #[verifier::spinoff_prover]
    fn parse_type_loop(&mut self) -> (r: Result<Vec<TypeDeclaration>, SyntaxError>)
        requires
            old(self).wf(),
        ensures
            final(self).moved_from(old(self)),
            sp_type_loop(old(self).toks(), old(self).current as int) == (final(self).current as int, match r {
                Ok(v) => Ok(seq_view_type_declaration(v@)),
                Err(e) => Err(e@),
            }),
        decreases rem(old(self).toks(), old(self).current as int),
    {
        if self.check_keyword("tipe") {
            let d = match self.parse_type_declaration() {
                Ok(x) => x,
                Err(e) => return Err(e),
            };
            let mut rest = match self.parse_type_loop() {
                Ok(x) => x,
                Err(e) => return Err(e),
            };
            proof { lemma_seq_view_type_declaration_cons(d, rest@); }
            let ghost r0 = rest@;
            rest.insert(0, d);
            proof { assert(rest@ =~= seq![d] + r0); }
            Ok(rest)
        } else {
            proof { assert(seq_view_type_declaration(Seq::empty()) =~= Seq::empty()); }
            Ok(Vec::new())
        }
    }

    /// `tipe (ID = type ;)*`
    #[verifier::spinoff_prover]
    #[verifier::rlimit(50)]
    fn parse_type_declaration(&mut self) -> (r: Result<TypeDeclaration, SyntaxError>)
        requires
            old(self).wf(),
        ensures
            final(self).moved_from(old(self)),
            r is Ok ==> old(self).current < final(self).current,
            (final(self).current as int, tree_result(r)) == sp_type_decl(old(self).toks(), old(self).current as int),
    {
        let type_kw = match self.consume_keyword("tipe", "Mengharapkan keyword 'tipe'.") {
            Ok(x) => x,
            Err(e) => return Err(e),
        };
        let definitions = match self.parse_type_defs() {
            Ok(x) => x,
            Err(e) => return Err(e),
        };
        Ok(TypeDeclaration { type_kw, definitions })
    }

    /// Type definitions while the next token is an identifier.
    #[verifier::rlimit(100)]
    #[verifier::spinoff_prover]
    fn parse_type_defs(&mut self) -> (r: Result<Vec<TypeDefinition>, SyntaxError>)
        requires
            old(self).wf(),
        ensures
            final(self).moved_from(old(self)),
            sp_type_defs(old(self).toks(), old(self).current as int) == (final(self).current as int, match r {
                Ok(v) => Ok(seq_view_type_definition(v@)),
                Err(e) => Err(e@),
            }),
        decreases rem(old(self).toks(), old(self).current as int),
    {
        if self.check(TokenType::Identifier) {
            let d = match self.parse_type_definition() {
                Ok(x) => x,
                Err(e) => return Err(e),
            };
            let mut rest = match self.parse_type_defs() {
                Ok(x) => x,
                Err(e) => return Err(e),
            };
            proof { lemma_seq_view_type_definition_cons(d, rest@); }
            let ghost r0 = rest@;
            rest.insert(0, d);
            proof { assert(rest@ =~= seq![d] + r0); }
            Ok(rest)
        } else {
            proof { assert(seq_view_type_definition(Seq::empty()) =~= Seq::empty()); }
            Ok(Vec::new())
        }
    }

    /// `ID = type ;`
    #[verifier::spinoff_prover]
    #[verifier::rlimit(50)]
    fn parse_type_definition(&mut self) -> (r: Result<TypeDefinition, SyntaxError>)
        requires
            old(self).wf(),
        ensures
            final(self).moved_from(old(self)),
            r is Ok ==> old(self).current < final(self).current,
            (final(self).current as int, tree_result(r)) == sp_type_def(old(self).toks(), old(self).current as int),
    {
        let name = match self.consume_token(TokenType::Identifier, "Mengharapkan nama tipe.") {
            Ok(x) => x,
            Err(e) => return Err(e),
        };
        let equals_op = match self.consume_token(TokenType::RelationalOperator, "Mengharapkan '='.") {
            Ok(x) => x,
            Err(e) => return Err(e),
        };
        if !str_eq(equals_op.value.as_str(), "=") {
            let msg = join3("Mengharapkan '=' untuk definisi tipe, ditemukan '", equals_op.value.as_str(), "'");
            return Err(self.error(msg.as_str()));
        }
        let type_def = match self.parse_type_spec() {
            Ok(x) => x,
            Err(e) => return Err(e),
        };
        let semicolon = match self.consume_token(TokenType::Semicolon, "Mengharapkan ';' setelah definisi tipe.") {
            Ok(x) => x,
            Err(e) => return Err(e),
        };
        Ok(TypeDefinition { name, equals_op, type_def, semicolon })
    }

    /// Variable sections while the next token is `variabel`.
    #[verifier::rlimit(100)]
    #[verifier::spinoff_prover]
    fn parse_var_loop(&mut self) -> (r: Result<Vec<VariableDeclaration>, SyntaxError>)
        requires
            old(self).wf(),
        ensures
            final(self).moved_from(old(self)),
            sp_var_loop(old(self).toks(), old(self).current as int) == (final(self).current as int, match r {
                Ok(v) => Ok(seq_view_variable_declaration(v@)),
                Err(e) => Err(e@),
            }),
        decreases rem(old(self).toks(), old(self).current as int),
    {
        if self.check_keyword("variabel") {
            let d = match self.parse_variable_declaration() {
                Ok(x) => x,
                Err(e) => return Err(e),
            };
            let mut rest = match self.parse_var_loop() {
                Ok(x) => x,
                Err(e) => return Err(e),
            };
            proof { lemma_seq_view_variable_declaration_cons(d, rest@); }
            let ghost r0 = rest@;
            rest.insert(0, d);
            proof { assert(rest@ =~= seq![d] + r0); }
            Ok(rest)
        } else {
            proof { assert(seq_view_variable_declaration(Seq::empty()) =~= Seq::empty()); }
            Ok(Vec::new())
        }
    }

    /// `variabel (ID (, ID)* : type ;)*`
    #[verifier::spinoff_prover]
    #[verifier::rlimit(50)]
    fn parse_variable_declaration(&mut self) -> (r: Result<VariableDeclaration, SyntaxError>)
        requires
            old(self).wf(),
        ensures
            final(self).moved_from(old(self)),
            r is Ok ==> old(self).current < final(self).current,
            (final(self).current as int, tree_result(r)) == sp_var_decl(old(self).toks(), old(self).current as int),
    {
        let var_kw = match self.consume_keyword("variabel", "Mengharapkan keyword 'variabel'.") {
            Ok(x) => x,
            Err(e) => return Err(e),
        };
        let groups = match self.parse_var_groups() {
            Ok(x) => x,
            Err(e) => return Err(e),
        };
        Ok(VariableDeclaration { var_kw, groups })
    }

    /// Variable groups while the next token is an identifier.
    #[verifier::rlimit(100)]
    #[verifier::spinoff_prover]
    fn parse_var_groups(&mut self) -> (r: Result<Vec<VariableGroup>, SyntaxError>)
        requires
            old(self).wf(),
        ensures
            final(self).moved_from(old(self)),
            sp_var_groups(old(self).toks(), old(self).current as int) == (final(self).current as int, match r {
                Ok(v) => Ok(seq_view_variable_group(v@)),
                Err(e) => Err(e@),
            }),
        decreases rem(old(self).toks(), old(self).current as int),
    {
        if self.check(TokenType::Identifier) {
            let d = match self.parse_variable_group() {
                Ok(x) => x,
                Err(e) => return Err(e),
            };
            let mut rest = match self.parse_var_groups() {
                Ok(x) => x,
                Err(e) => return Err(e),
            };
            proof { lemma_seq_view_variable_group_cons(d, rest@); }
            let ghost r0 = rest@;
            rest.insert(0, d);
            proof { assert(rest@ =~= seq![d] + r0); }
            Ok(rest)
        } else {
            proof { assert(seq_view_variable_group(Seq::empty()) =~= Seq::empty()); }
            Ok(Vec::new())
        }
    }

    /// `ID (, ID)* : type ;`
    #[verifier::spinoff_prover]
    #[verifier::rlimit(50)]
    fn parse_variable_group(&mut self) -> (r: Result<VariableGroup, SyntaxError>)
        requires
            old(self).wf(),
        ensures
            final(self).moved_from(old(self)),
            r is Ok ==> old(self).current < final(self).current,
            (final(self).current as int, tree_result(r)) == sp_var_group(old(self).toks(), old(self).current as int),
    {
        let identifiers = match self.parse_identifier_list() {
            Ok(x) => x,
            Err(e) => return Err(e),
        };
        let colon = match self.consume_token(TokenType::Colon, "Mengharapkan ':' setelah daftar identifier.") {
            Ok(x) => x,
            Err(e) => return Err(e),
        };
        let var_type = match self.parse_type_spec() {
            Ok(x) => x,
            Err(e) => return Err(e),
        };
        let semicolon = match self.consume_token(TokenType::Semicolon, "Mengharapkan ';' setelah deklarasi variabel.") {
            Ok(x) => x,
            Err(e) => return Err(e),
        };
        Ok(VariableGroup { identifiers, colon, var_type, semicolon })
    }

    /// Subprograms while the next token is `prosedur` or `fungsi`.
    #[verifier::rlimit(100)]
    #[verifier::spinoff_prover]
    fn parse_sub_loop(&mut self) -> (r: Result<Vec<SubprogramDeclaration>, SyntaxError>)
        requires
            old(self).wf(),
        ensures
            final(self).moved_from(old(self)),
            sp_sub_loop(old(self).toks(), old(self).current as int) == (final(self).current as int, match r {
                Ok(v) => Ok(seq_view_subprogram_declaration(v@)),
                Err(e) => Err(e@),
            }),
        decreases rem(old(self).toks(), old(self).current as int), 25int,
    {
        if self.check_keyword("prosedur") || self.check_keyword("fungsi") {
            let d = match self.parse_subprogram_declaration() {
                Ok(x) => x,
                Err(e) => return Err(e),
            };
            let mut rest = match self.parse_sub_loop() {
                Ok(x) => x,
                Err(e) => return Err(e),
            };
            proof { lemma_seq_view_subprogram_declaration_cons(d, rest@); }
            let ghost r0 = rest@;
            rest.insert(0, d);
            proof { assert(rest@ =~= seq![d] + r0); }
            Ok(rest)
        } else {
            proof { assert(seq_view_subprogram_declaration(Seq::empty()) =~= Seq::empty()); }
            Ok(Vec::new())
        }
    }

    /// A procedure or function declaration.
    #[verifier::spinoff_prover]
    #[verifier::rlimit(50)]
    fn parse_subprogram_declaration(&mut self) -> (r: Result<SubprogramDeclaration, SyntaxError>)
        requires
            old(self).wf(),
        ensures
            final(self).moved_from(old(self)),
            r is Ok ==> old(self).current < final(self).current,
            (final(self).current as int, tree_result(r)) == sp_subprogram(old(self).toks(), old(self).current as int),
        decreases rem(old(self).toks(), old(self).current as int), 24int,
    {
        proof { reveal(sp_subprogram); }
        if self.check_keyword("prosedur") {
            self.parse_procedure_declaration()
        } else if self.check_keyword("fungsi") {
            self.parse_function_declaration()
        } else {
            Err(self.error("Mengharapkan 'prosedur' atau 'fungsi'."))
        }
    }

    /// `prosedur ID (params) ; declarations compound ;`
    #[verifier::spinoff_prover]
    #[verifier::rlimit(50)]
    fn parse_procedure_declaration(&mut self) -> (r: Result<SubprogramDeclaration, SyntaxError>)
        requires
            old(self).wf(),
        ensures
            final(self).moved_from(old(self)),
            r is Ok ==> old(self).current < final(self).current,
            (final(self).current as int, tree_result(r)) == sp_procedure(old(self).toks(), old(self).current as int),
        decreases rem(old(self).toks(), old(self).current as int), 23int,
    {
        proof { reveal(subprogram_declaration_view); }
        let proc_kw = match self.consume_keyword("prosedur", "Mengharapkan keyword 'prosedur'.") {
            Ok(x) => x,
            Err(e) => return Err(e),
        };
        let name = match self.consume_token(TokenType::Identifier, "Mengharapkan nama prosedur.") {
            Ok(x) => x,
            Err(e) => return Err(e),
        };
        let parameters = match self.parse_formal_parameter_list() {
            Ok(x) => x,
            Err(e) => return Err(e),
        };
        let header_semicolon = match self.consume_token(TokenType::Semicolon, "Mengharapkan ';' setelah header prosedur.") {
            Ok(x) => x,
            Err(e) => return Err(e),
        };
        let declarations = match self.parse_declaration_part() {
            Ok(x) => x,
            Err(e) => return Err(e),
        };
        let body = match self.parse_compound_statement() {
            Ok(x) => x,
            Err(e) => return Err(e),
        };
        let block_semicolon = match self.consume_token(TokenType::Semicolon, "Mengharapkan ';' setelah blok prosedur.") {
            Ok(x) => x,
            Err(e) => return Err(e),
        };
        Ok(SubprogramDeclaration::Procedure(ProcedureDeclaration {
            proc_kw,
            name,
            parameters,
            header_semicolon,
            declarations,
            body,
            block_semicolon,
        }))
    }

    /// `fungsi ID (params) : type ; declarations compound ;`
    #[verifier::spinoff_prover]
    #[verifier::rlimit(50)]
    fn parse_function_declaration(&mut self) -> (r: Result<SubprogramDeclaration, SyntaxError>)
        requires
            old(self).wf(),
        ensures
            final(self).moved_from(old(self)),
            r is Ok ==> old(self).current < final(self).current,
            (final(self).current as int, tree_result(r)) == sp_function(old(self).toks(), old(self).current as int),
        decreases rem(old(self).toks(), old(self).current as int), 23int,
    {
        proof { reveal(subprogram_declaration_view); }
        let func_kw = match self.consume_keyword("fungsi", "Mengharapkan keyword 'fungsi'.") {
            Ok(x) => x,
            Err(e) => return Err(e),
        };
        let name = match self.consume_token(TokenType::Identifier, "Mengharapkan nama fungsi.") {
            Ok(x) => x,
            Err(e) => return Err(e),
        };
        let parameters = match self.parse_formal_parameter_list() {
            Ok(x) => x,
            Err(e) => return Err(e),
        };
        let colon = match self.consume_token(TokenType::Colon, "Mengharapkan ':' untuk tipe return fungsi.") {
            Ok(x) => x,
            Err(e) => return Err(e),
        };
        let return_type = match self.parse_type_spec() {
            Ok(x) => x,
            Err(e) => return Err(e),
        };
        let header_semicolon = match self.consume_token(TokenType::Semicolon, "Mengharapkan ';' setelah header fungsi.") {
            Ok(x) => x,
            Err(e) => return Err(e),
        };
        let declarations = match self.parse_declaration_part() {
            Ok(x) => x,
            Err(e) => return Err(e),
        };
        let body = match self.parse_compound_statement() {
            Ok(x) => x,
            Err(e) => return Err(e),
        };
        let block_semicolon = match self.consume_token(TokenType::Semicolon, "Mengharapkan ';' setelah blok fungsi.") {
            Ok(x) => x,
            Err(e) => return Err(e),
        };
        Ok(SubprogramDeclaration::Function(FunctionDeclaration {
            func_kw,
            name,
            parameters,
            colon,
            return_type,
            header_semicolon,
            declarations,
            body,
            block_semicolon,
        }))
    }

    /// The declarations of a block: constant, type and variable sections,
    /// then subprograms.
    #[verifier::spinoff_prover]
    #[verifier::rlimit(50)]
    pub(crate) fn parse_declaration_part(&mut self) -> (r: Result<DeclarationPart, SyntaxError>)
        requires
            old(self).wf(),
        ensures
            final(self).moved_from(old(self)),
            (final(self).current as int, tree_result(r)) == sp_decl_part(old(self).toks(), old(self).current as int),
        decreases rem(old(self).toks(), old(self).current as int), 30int,
    {
        let const_declarations = match self.parse_const_loop() {
            Ok(x) => x,
            Err(e) => return Err(e),
        };
        let type_declarations = match self.parse_type_loop() {
            Ok(x) => x,
            Err(e) => return Err(e),
        };
        let var_declarations = match self.parse_var_loop() {
            Ok(x) => x,
            Err(e) => return Err(e),
        };
        let subprogram_declarations = match self.parse_sub_loop() {
            Ok(x) => x,
            Err(e) => return Err(e),
        };
        Ok(DeclarationPart { const_declarations, type_declarations, var_declarations, subprogram_declarations })
    }

    /// `( [group (; group)*] )`
    #[verifier::spinoff_prover]
    #[verifier::rlimit(50)]
    fn parse_formal_parameter_list(&mut self) -> (r: Result<FormalParameterList, SyntaxError>)
        requires
            old(self).wf(),
        ensures
            final(self).moved_from(old(self)),
            (final(self).current as int, tree_result(r)) == sp_params(old(self).toks(), old(self).current as int),
    {
        let l_paren = match self.consume_token(TokenType::LParenthesis, "Mengharapkan '(' untuk daftar parameter.") {
            Ok(x) => x,
            Err(e) => return Err(e),
        };
        let mut initial_param: Option<FormalParameterGroup> = None;
        let mut rest: Vec<(Token, FormalParameterGroup)> = Vec::new();
        proof { assert(seq_view_token_formal_parameter_group(Seq::empty()) =~= Seq::empty()); }
        if !self.check(TokenType::RParenthesis) {
            let g = match self.parse_formal_parameter_group() {
                Ok(x) => x,
                Err(e) => return Err(e),
            };
            initial_param = Some(g);
            rest = match self.parse_param_rest() {
                Ok(x) => x,
                Err(e) => return Err(e),
            };
        }
        let r_paren = match self.consume_token(TokenType::RParenthesis, "Mengharapkan ')' setelah daftar parameter.") {
            Ok(x) => x,
            Err(e) => return Err(e),
        };
        Ok(FormalParameterList { l_paren, initial_param, rest, r_paren })
    }

    /// `(; group)*`
    #[verifier::spinoff_prover]
    #[verifier::rlimit(50)]
    fn parse_param_rest(&mut self) -> (r: Result<Vec<(Token, FormalParameterGroup)>, SyntaxError>)
        requires
            old(self).wf(),
        ensures
            final(self).moved_from(old(self)),
            sp_param_rest(old(self).toks(), old(self).current as int) == (final(self).current as int, match r {
                Ok(v) => Ok(seq_view_token_formal_parameter_group(v@)),
                Err(e) => Err(e@),
            }),
        decreases rem(old(self).toks(), old(self).current as int),
    {
        if self.check(TokenType::Semicolon) {
            let semi = self.advance();
            let group = match self.parse_formal_parameter_group() {
                Ok(x) => x,
                Err(e) => return Err(e),
            };
            let mut rest = match self.parse_param_rest() {
                Ok(x) => x,
                Err(e) => return Err(e),
            };
            proof { lemma_seq_view_token_formal_parameter_group_cons((semi, group), rest@); }
            let ghost r0 = rest@;
            rest.insert(0, (semi, group));
            proof { assert(rest@ =~= seq![(semi, group)] + r0); }
            Ok(rest)
        } else {
            proof { assert(seq_view_token_formal_parameter_group(Seq::empty()) =~= Seq::empty()); }
            Ok(Vec::new())
        }
    }

    /// `[var] ID (, ID)* : type`
    #[verifier::spinoff_prover]
    #[verifier::rlimit(50)]
    fn parse_formal_parameter_group(&mut self) -> (r: Result<FormalParameterGroup, SyntaxError>)
        requires
            old(self).wf(),
        ensures
            final(self).moved_from(old(self)),
            (final(self).current as int, tree_result(r)) == sp_param_group(old(self).toks(), old(self).current as int),
    {
        let var_kw = if self.check_keyword("var") {
            Some(self.advance())
        } else {
            None
        };
        let identifiers = match self.parse_identifier_list() {
            Ok(x) => x,
            Err(e) => return Err(e),
        };
        let colon = match self.consume_token(TokenType::Colon, "Mengharapkan ':' setelah daftar identifier parameter.") {
            Ok(x) => x,
            Err(e) => return Err(e),
        };
        let var_type = match self.parse_type_spec() {
            Ok(x) => x,
            Err(e) => return Err(e),
        };
        Ok(FormalParameterGroup { var_kw, identifiers, colon, var_type })
    }

    /// `ID (, ID)*`
    #[verifier::spinoff_prover]
    #[verifier::rlimit(50)]
    fn parse_identifier_list(&mut self) -> (r: Result<IdentifierList, SyntaxError>)
        requires
            old(self).wf(),
        ensures
            final(self).moved_from(old(self)),
            (final(self).current as int, tree_result(r)) == sp_identifier_list(old(self).toks(), old(self).current as int),
    {
        let initial_id = match self.consume_token(TokenType::Identifier, "Mengharapkan identifier.") {
            Ok(x) => x,
            Err(e) => return Err(e),
        };
        let rest = match self.parse_id_rest() {
            Ok(x) => x,
            Err(e) => return Err(e),
        };
        Ok(IdentifierList { initial_id, rest })
    }

    /// `(, ID)*`
    #[verifier::spinoff_prover]
    #[verifier::rlimit(50)]
    fn parse_id_rest(&mut self) -> (r: Result<Vec<(Token, Token)>, SyntaxError>)
        requires
            old(self).wf(),
        ensures
            final(self).moved_from(old(self)),
            sp_id_rest(old(self).toks(), old(self).current as int) == (final(self).current as int, match r {
                Ok(v) => Ok(seq_view_token_token(v@)),
                Err(e) => Err(e@),
            }),
        decreases rem(old(self).toks(), old(self).current as int),
    {
        if self.check(TokenType::Comma) {
            let comma = self.advance();
            let next_id = match self.consume_token(TokenType::Identifier, "Mengharapkan identifier setelah ','.") {
                Ok(x) => x,
                Err(e) => return Err(e),
            };
            let mut rest = match self.parse_id_rest() {
                Ok(x) => x,
                Err(e) => return Err(e),
            };
            proof { lemma_seq_view_token_token_cons((comma, next_id), rest@); }
            let ghost r0 = rest@;
            rest.insert(0, (comma, next_id));
            proof { assert(rest@ =~= seq![(comma, next_id)] + r0); }
            Ok(rest)
        } else {
            proof { assert(seq_view_token_token(Seq::empty()) =~= Seq::empty()); }
            Ok(Vec::new())
        }
    }

    /// A type: a predefined type keyword, an array type, a type name, or a
    /// subrange.
    #[verifier::spinoff_prover]
    #[verifier::rlimit(50)]
    pub(crate) fn parse_type_spec(&mut self) -> (r: Result<Type, SyntaxError>)
        requires
            old(self).wf(),
        ensures
            final(self).moved_from(old(self)),
            (final(self).current as int, tree_result(r)) == sp_type_spec(old(self).toks(), old(self).current as int),
        decreases rem(old(self).toks(), old(self).current as int), 13int,
    {
        proof { reveal(sp_type_spec); reveal(type_view); }
        if self.check_keyword("integer") {
            return Ok(Type::Integer(self.advance()));
        }
        if self.check_keyword("real") {
            return Ok(Type::Real(self.advance()));
        }
        if self.check_keyword("boolean") {
            return Ok(Type::Boolean(self.advance()));
        }
        if self.check_keyword("string") {
            return Ok(Type::String(self.advance()));
        }
        if self.check_keyword("char") {
            return Ok(Type::Char(self.advance()));
        }
        if self.check_keyword("larik") {
            return self.parse_array_type();
        }
        if self.check(TokenType::Identifier) {
            return Ok(Type::TypeIdentifier(self.advance()));
        }
        let range = match self.parse_range() {
            Ok(x) => x,
            Err(e) => return Err(e),
        };
        Ok(Type::Subrange(range))
    }

    /// `larik [ type ] dari type`
    #[verifier::spinoff_prover]
    #[verifier::rlimit(50)]
    fn parse_array_type(&mut self) -> (r: Result<Type, SyntaxError>)
        requires
            old(self).wf(),
        ensures
            final(self).moved_from(old(self)),
            (final(self).current as int, tree_result(r)) == sp_array_type(old(self).toks(), old(self).current as int),
        decreases rem(old(self).toks(), old(self).current as int), 12int,
    {
        proof { reveal(type_view); }
        let larik_kw = match self.consume_keyword("larik", "Mengharapkan keyword 'larik'.") {
            Ok(x) => x,
            Err(e) => return Err(e),
        };
        let l_bracket = match self.consume_token(TokenType::LBracket, "Mengharapkan '[' setelah 'larik'.") {
            Ok(x) => x,
            Err(e) => return Err(e),
        };
        let index_type = match self.parse_type_spec() {
            Ok(x) => x,
            Err(e) => return Err(e),
        };
        let r_bracket = match self.consume_token(TokenType::RBracket, "Mengharapkan ']' setelah range larik.") {
            Ok(x) => x,
            Err(e) => return Err(e),
        };
        let dari_kw = match self.consume_keyword("dari", "Mengharapkan keyword 'dari' setelah ']' pada deklarasi larik.") {
            Ok(x) => x,
            Err(e) => return Err(e),
        };
        let base_type = match self.parse_type_spec() {
            Ok(x) => x,
            Err(e) => return Err(e),
        };
        Ok(Type::Array(ArrayType {
            larik_kw,
            l_bracket,
            index_type: Box::new(index_type),
            r_bracket,
            dari_kw,
            base_type: Box::new(base_type),
        }))
    }

    /// `expression .. expression`
    #[verifier::spinoff_prover]
    #[verifier::rlimit(50)]
    fn parse_range(&mut self) -> (r: Result<Range, SyntaxError>)
        requires
            old(self).wf(),
        ensures
            final(self).moved_from(old(self)),
            (final(self).current as int, tree_result(r)) == sp_range(old(self).toks(), old(self).current as int),
    {
        let start = match self.parse_expression() {
            Ok(x) => x,
            Err(e) => return Err(e),
        };
        let range_op = match self.consume_token(TokenType::RangeOperator, "Mengharapkan '..' untuk range.") {
            Ok(x) => x,
            Err(e) => return Err(e),
        };
        let end = match self.parse_expression() {
            Ok(x) => x,
            Err(e) => return Err(e),
        };
        Ok(Range { start: Box::new(start), range_op, end: Box::new(end) })
    }
}

} // verus!
