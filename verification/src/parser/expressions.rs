//! Reading expressions: relational, additive and multiplicative levels,
//! factors with their index accesses and calls, and literals.
use vstd::prelude::*;
use crate::lexer::token_types::{Token, TokenType};
use crate::parser::error::{SyntaxError, SyntaxErrorV};
use crate::parser::grammar::{
    factor_to_expression, is_additive, is_literal, is_multiplicative, rem, sp_actual_params, sp_actual_rest, sp_arguments,
    sp_expr_rest, sp_expression, sp_factor, sp_literal, sp_postfix, sp_primary, sp_simple, sp_simple_rest, sp_term,
    sp_term_rest,
};
use crate::parser::parse_tree::{
    ActualParameterList, ActualParameterListV, ArithmeticUnaryFactor, ArrayAccess, Expression, Factor, FactorV,
    FunctionCallNode, LiteralValue, NotFactor, ParenthesizedExpression, SimpleExpression, Term,
    lemma_seq_view_token_boxed_expression_cons, lemma_seq_view_token_boxed_factor_cons,
    lemma_seq_view_token_boxed_simple_expression_cons, lemma_seq_view_token_boxed_term_cons,
    seq_view_token_boxed_expression, seq_view_token_boxed_factor, seq_view_token_boxed_simple_expression,
    seq_view_token_boxed_term,
};
use crate::parser::parser::{PascalParser, token_result, tree_result};
use crate::text::{str_eq, to_lowercase};

verus! {

/// The arguments of a call as read: `(`, the list if any, `)`.
pub open spec fn args_result(r: Result<(Token, Option<ActualParameterList>, Token), SyntaxError>)
    -> Result<(Token, Option<ActualParameterListV>, Token), SyntaxErrorV> {
    match r {
        Ok(a) => Ok((a.0, match a.1 {
            Some(x) => Some(x@),
            None => None,
        }, a.2)),
        Err(e) => Err(e@),
    }
}

impl PascalParser {
    /// `simple (relop simple)*`
    #[verifier::spinoff_prover]
    #[verifier::rlimit(50)]
    pub(crate) fn parse_expression(&mut self) -> (r: Result<Expression, SyntaxError>)
        requires
            old(self).wf(),
        ensures
            final(self).moved_from(old(self)),
            r is Ok ==> old(self).current < final(self).current,
            (final(self).current as int, tree_result(r)) == sp_expression(old(self).toks(), old(self).current as int),
        decreases rem(old(self).toks(), old(self).current as int), 10int,
    {
        let initial = match self.parse_simple_expression() {
            Ok(s) => s,
            Err(e) => return Err(e),
        };
        let rest = match self.parse_expr_rest() {
            Ok(v) => v,
            Err(e) => return Err(e),
        };
        Ok(Expression { initial_simple_expr: Box::new(initial), rest })
    }

    /// `(relop simple)*`
    #[verifier::spinoff_prover]
    #[verifier::rlimit(50)]
    fn parse_expr_rest(&mut self) -> (r: Result<Vec<(Token, Box<SimpleExpression>)>, SyntaxError>)
        requires
            old(self).wf(),
        ensures
            final(self).moved_from(old(self)),
            sp_expr_rest(old(self).toks(), old(self).current as int) == (final(self).current as int, match r {
                Ok(v) => Ok(seq_view_token_boxed_simple_expression(v@)),
                Err(e) => Err(e@),
            }),
        decreases rem(old(self).toks(), old(self).current as int), 9int,
    {
        if self.check(TokenType::RelationalOperator) {
            let op = self.advance();
            let s = match self.parse_simple_expression() {
                Ok(s) => s,
                Err(e) => return Err(e),
            };
            let mut rest = match self.parse_expr_rest() {
                Ok(v) => v,
                Err(e) => return Err(e),
            };
            proof { lemma_seq_view_token_boxed_simple_expression_cons((op, Box::new(s)), rest@); }
            let ghost r0 = rest@;
            rest.insert(0, (op, Box::new(s)));
            proof { assert(rest@ =~= seq![(op, Box::new(s))] + r0); }
            Ok(rest)
        } else {
            Ok(Vec::new())
        }
    }

    /// `term (addop term)*`
    #[verifier::spinoff_prover]
    #[verifier::rlimit(50)]
    fn parse_simple_expression(&mut self) -> (r: Result<SimpleExpression, SyntaxError>)
        requires
            old(self).wf(),
        ensures
            final(self).moved_from(old(self)),
            r is Ok ==> old(self).current < final(self).current,
            (final(self).current as int, tree_result(r)) == sp_simple(old(self).toks(), old(self).current as int),
        decreases rem(old(self).toks(), old(self).current as int), 9int,
    {
        let initial = match self.parse_term() {
            Ok(s) => s,
            Err(e) => return Err(e),
        };
        let rest = match self.parse_simple_rest() {
            Ok(v) => v,
            Err(e) => return Err(e),
        };
        Ok(SimpleExpression { initial_term: Box::new(initial), rest })
    }

    /// Whether the next token is an additive operator.
    #[verifier::spinoff_prover]
    #[verifier::rlimit(50)]
    fn at_additive(&self) -> (r: bool)
        requires
            self.wf(),
        ensures
            r == is_additive(self.toks(), self.current as int),
    {
        if self.check(TokenType::ArithmeticOperator) {
            let v = self.peek().value.as_str();
            if str_eq(v, "+") || str_eq(v, "-") {
                return true;
            }
        }
        if self.check(TokenType::LogicalOperator) {
            let lower = to_lowercase(self.peek().value.as_str());
            return str_eq(lower.as_str(), "atau");
        }
        false
    }

    /// `(addop term)*`
    #[verifier::spinoff_prover]
    #[verifier::rlimit(50)]
    fn parse_simple_rest(&mut self) -> (r: Result<Vec<(Token, Box<Term>)>, SyntaxError>)
        requires
            old(self).wf(),
        ensures
            final(self).moved_from(old(self)),
            sp_simple_rest(old(self).toks(), old(self).current as int) == (final(self).current as int, match r {
                Ok(v) => Ok(seq_view_token_boxed_term(v@)),
                Err(e) => Err(e@),
            }),
        decreases rem(old(self).toks(), old(self).current as int), 8int,
    {
        if self.at_additive() {
            let op = self.advance();
            let x = match self.parse_term() {
                Ok(s) => s,
                Err(e) => return Err(e),
            };
            let mut rest = match self.parse_simple_rest() {
                Ok(v) => v,
                Err(e) => return Err(e),
            };
            proof { lemma_seq_view_token_boxed_term_cons((op, Box::new(x)), rest@); }
            let ghost r0 = rest@;
            rest.insert(0, (op, Box::new(x)));
            proof { assert(rest@ =~= seq![(op, Box::new(x))] + r0); }
            Ok(rest)
        } else {
            Ok(Vec::new())
        }
    }

    /// `factor (mulop factor)*`
    #[verifier::spinoff_prover]
    #[verifier::rlimit(50)]
    fn parse_term(&mut self) -> (r: Result<Term, SyntaxError>)
        requires
            old(self).wf(),
        ensures
            final(self).moved_from(old(self)),
            r is Ok ==> old(self).current < final(self).current,
            (final(self).current as int, tree_result(r)) == sp_term(old(self).toks(), old(self).current as int),
        decreases rem(old(self).toks(), old(self).current as int), 8int,
    {
        let initial = match self.parse_factor() {
            Ok(s) => s,
            Err(e) => return Err(e),
        };
        let rest = match self.parse_term_rest() {
            Ok(v) => v,
            Err(e) => return Err(e),
        };
        Ok(Term { initial_factor: Box::new(initial), rest })
    }

    /// Whether the next token is a multiplicative operator.
    #[verifier::spinoff_prover]
    #[verifier::rlimit(50)]
    fn at_multiplicative(&self) -> (r: bool)
        requires
            self.wf(),
        ensures
            r == is_multiplicative(self.toks(), self.current as int),
    {
        if self.check(TokenType::ArithmeticOperator) {
            let v = self.peek().value.as_str();
            if str_eq(v, "*") || str_eq(v, "/") || str_eq(v, "bagi") || str_eq(v, "mod") {
                return true;
            }
        }
        if self.check(TokenType::LogicalOperator) {
            let lower = to_lowercase(self.peek().value.as_str());
            return str_eq(lower.as_str(), "dan");
        }
        false
    }

    /// `(mulop factor)*`
    #[verifier::spinoff_prover]
    #[verifier::rlimit(50)]
    fn parse_term_rest(&mut self) -> (r: Result<Vec<(Token, Box<Factor>)>, SyntaxError>)
        requires
            old(self).wf(),
        ensures
            final(self).moved_from(old(self)),
            sp_term_rest(old(self).toks(), old(self).current as int) == (final(self).current as int, match r {
                Ok(v) => Ok(seq_view_token_boxed_factor(v@)),
                Err(e) => Err(e@),
            }),
        decreases rem(old(self).toks(), old(self).current as int), 7int,
    {
        if self.at_multiplicative() {
            let op = self.advance();
            let x = match self.parse_factor() {
                Ok(s) => s,
                Err(e) => return Err(e),
            };
            let mut rest = match self.parse_term_rest() {
                Ok(v) => v,
                Err(e) => return Err(e),
            };
            proof { lemma_seq_view_token_boxed_factor_cons((op, Box::new(x)), rest@); }
            let ghost r0 = rest@;
            rest.insert(0, (op, Box::new(x)));
            proof { assert(rest@ =~= seq![(op, Box::new(x))] + r0); }
            Ok(rest)
        } else {
            Ok(Vec::new())
        }
    }

    /// A primary followed by its index accesses and calls.
    #[verifier::spinoff_prover]
    #[verifier::rlimit(50)]
    fn parse_factor(&mut self) -> (r: Result<Factor, SyntaxError>)
        requires
            old(self).wf(),
        ensures
            final(self).moved_from(old(self)),
            r is Ok ==> old(self).current < final(self).current,
            (final(self).current as int, tree_result(r)) == sp_factor(old(self).toks(), old(self).current as int),
        decreases rem(old(self).toks(), old(self).current as int), 7int,
    {
        let factor = match self.parse_primary() {
            Ok(f) => f,
            Err(e) => return Err(e),
        };
        self.parse_postfix(factor)
    }

    /// The index accesses `[ expression ]` and calls `( arguments )` after
    /// a factor; only an identifier can be called.
    #[verifier::spinoff_prover]
    #[verifier::rlimit(50)]
    fn parse_postfix(&mut self, factor: Factor) -> (r: Result<Factor, SyntaxError>)
        requires
            old(self).wf(),
        ensures
            final(self).moved_from(old(self)),
            (final(self).current as int, tree_result(r)) == sp_postfix(old(self).toks(), old(self).current as int, factor@),
        decreases rem(old(self).toks(), old(self).current as int), 6int,
    {
        if self.check(TokenType::LBracket) {
            let l_bracket = self.advance();
            let index = match self.parse_expression() {
                Ok(x) => x,
                Err(e) => return Err(e),
            };
            let r_bracket = match self.consume_token(TokenType::RBracket, "Mengharapkan ']' setelah indeks array.") {
                Ok(t) => t,
                Err(e) => return Err(e),
            };
            let base_expr = self.factor_to_expression(factor);
            let next = Factor::ArrayAccess(ArrayAccess {
                array: Box::new(base_expr),
                l_bracket,
                index: Box::new(index),
                r_bracket,
            });
            self.parse_postfix(next)
        } else if self.check(TokenType::LParenthesis) {
            let name_token = match factor {
                Factor::Identifier(name) => name,
                _ => return Err(self.error("Mengharapkan nama fungsi sebelum '('.")),
            };
            let (l_paren, arguments, r_paren) = match self.parse_argument_list_cst() {
                Ok(a) => a,
                Err(e) => return Err(e),
            };
            let next = Factor::FunctionCall(FunctionCallNode { function_name: name_token, l_paren, arguments, r_paren });
            self.parse_postfix(next)
        } else {
            Ok(factor)
        }
    }

    /// The factor wrapped as an expression with no operators.
    #[verifier::spinoff_prover]
    #[verifier::rlimit(50)]
    fn factor_to_expression(&self, factor: Factor) -> (r: Expression)
        ensures
            r@ == factor_to_expression(factor@),
    {
        let r = Expression {
            initial_simple_expr: Box::new(SimpleExpression {
                initial_term: Box::new(Term { initial_factor: Box::new(factor), rest: Vec::new() }),
                rest: Vec::new(),
            }),
            rest: Vec::new(),
        };
        proof {
            assert(seq_view_token_boxed_factor(Seq::empty()) =~= Seq::empty());
            assert(seq_view_token_boxed_term(Seq::empty()) =~= Seq::empty());
            assert(seq_view_token_boxed_simple_expression(Seq::empty()) =~= Seq::empty());
        }
        r
    }

    /// Whether the next token is a literal.
    #[verifier::spinoff_prover]
    #[verifier::rlimit(50)]
    fn at_literal(&self) -> (r: bool)
        requires
            self.wf(),
        ensures
            r == is_literal(self.toks(), self.current as int),
    {
        self.check(TokenType::IntegerLiteral) || self.check(TokenType::RealLiteral) || self.check(TokenType::StringLiteral)
            || self.check(TokenType::CharLiteral) || self.check_keyword("benar") || self.check_keyword("salah")
    }

    /// A signed factor, a literal, `tidak factor`, `( expression )` or an
    /// identifier.
    #[verifier::spinoff_prover]
    #[verifier::rlimit(50)]
    fn parse_primary(&mut self) -> (r: Result<Factor, SyntaxError>)
        requires
            old(self).wf(),
        ensures
            final(self).moved_from(old(self)),
            r is Ok ==> old(self).current < final(self).current,
            (final(self).current as int, tree_result(r)) == sp_primary(old(self).toks(), old(self).current as int),
        decreases rem(old(self).toks(), old(self).current as int), 6int,
    {
        let is_sign = self.check(TokenType::ArithmeticOperator) && (str_eq(self.peek().value.as_str(), "+") || str_eq(
            self.peek().value.as_str(),
            "-",
        ));
        if is_sign {
            let op = self.advance();
            let factor = match self.parse_factor() {
                Ok(f) => f,
                Err(e) => return Err(e),
            };
            return Ok(Factor::ArithmeticUnary(ArithmeticUnaryFactor { op, factor: Box::new(factor) }));
        }
        if self.at_literal() {
            let literal_val = match self.parse_literal_value() {
                Ok(l) => l,
                Err(e) => return Err(e),
            };
            return Ok(Factor::Literal(literal_val));
        }
        let is_not = self.check(TokenType::LogicalOperator) && str_eq(to_lowercase(self.peek().value.as_str()).as_str(), "tidak");
        if is_not {
            let not_token = self.advance();
            let factor = match self.parse_factor() {
                Ok(f) => f,
                Err(e) => return Err(e),
            };
            return Ok(Factor::Not(NotFactor { not_token, factor: Box::new(factor) }));
        }
        if self.check(TokenType::LParenthesis) {
            let l_paren = self.advance();
            let expr = match self.parse_expression() {
                Ok(x) => x,
                Err(e) => return Err(e),
            };
            let r_paren = match self.consume_token(TokenType::RParenthesis, "Mengharapkan ')' setelah ekspresi.") {
                Ok(t) => t,
                Err(e) => return Err(e),
            };
            return Ok(Factor::Parenthesized(ParenthesizedExpression { l_paren, expr: Box::new(expr), r_paren }));
        }
        if self.check(TokenType::Identifier) {
            let name = self.advance();
            return Ok(Factor::Identifier(name));
        }
        Err(self.error("Mengharapkan ekspresi (factor)."))
    }

    /// A literal: a number, string or character, `benar` or `salah`.
    #[verifier::spinoff_prover]
    #[verifier::rlimit(50)]
    fn parse_literal_value(&mut self) -> (r: Result<LiteralValue, SyntaxError>)
        requires
            old(self).wf(),
        ensures
            final(self).moved_from(old(self)),
            (final(self).current as int, tree_result(r)) == sp_literal(old(self).toks(), old(self).current as int),
    {
        if self.at_literal() {
            let token = self.advance();
            Ok(LiteralValue { token })
        } else {
            Err(self.error("Mengharapkan literal (angka, string, char, atau boolean)."))
        }
    }

    /// `( [arguments] )`: the parentheses and the arguments, if any.
    #[verifier::spinoff_prover]
    #[verifier::rlimit(50)]
    fn parse_argument_list_cst(&mut self) -> (r: Result<(Token, Option<ActualParameterList>, Token), SyntaxError>)
        requires
            old(self).wf(),
        ensures
            final(self).moved_from(old(self)),
            r is Ok ==> old(self).current < final(self).current,
            (final(self).current as int, args_result(r)) == sp_arguments(old(self).toks(), old(self).current as int),
        decreases rem(old(self).toks(), old(self).current as int), 5int,
    {
        let l_paren = match self.consume_token(TokenType::LParenthesis, "Mengharapkan '(' untuk pemanggilan fungsi/prosedur.") {
            Ok(t) => t,
            Err(e) => return Err(e),
        };
        let arguments = if !self.check(TokenType::RParenthesis) {
            match self.parse_actual_parameter_list() {
                Ok(a) => Some(a),
                Err(e) => return Err(e),
            }
        } else {
            None
        };
        let r_paren = match self.consume_token(TokenType::RParenthesis, "Mengharapkan ')' setelah daftar argumen.") {
            Ok(t) => t,
            Err(e) => return Err(e),
        };
        Ok((l_paren, arguments, r_paren))
    }

    /// `argument (, argument)*`
    #[verifier::spinoff_prover]
    #[verifier::rlimit(50)]
    fn parse_actual_parameter_list(&mut self) -> (r: Result<ActualParameterList, SyntaxError>)
        requires
            old(self).wf(),
        ensures
            final(self).moved_from(old(self)),
            (final(self).current as int, tree_result(r)) == sp_actual_params(old(self).toks(), old(self).current as int),
        decreases rem(old(self).toks(), old(self).current as int), 11int,
    {
        let initial_arg = match self.parse_expression() {
            Ok(x) => x,
            Err(e) => return Err(e),
        };
        let rest = match self.parse_actual_rest() {
            Ok(v) => v,
            Err(e) => return Err(e),
        };
        Ok(ActualParameterList { initial_arg: Box::new(initial_arg), rest })
    }

    /// `(, argument)*`
    #[verifier::spinoff_prover]
    #[verifier::rlimit(50)]
    fn parse_actual_rest(&mut self) -> (r: Result<Vec<(Token, Box<Expression>)>, SyntaxError>)
        requires
            old(self).wf(),
        ensures
            final(self).moved_from(old(self)),
            sp_actual_rest(old(self).toks(), old(self).current as int) == (final(self).current as int, match r {
                Ok(v) => Ok(seq_view_token_boxed_expression(v@)),
                Err(e) => Err(e@),
            }),
        decreases rem(old(self).toks(), old(self).current as int), 10int,
    {
        if self.check(TokenType::Comma) {
            let comma_token = self.advance();
            if self.check(TokenType::RParenthesis) {
                return Err(self.error("Mengharapkan ekspresi setelah ','."));
            }
            let next_arg = match self.parse_expression() {
                Ok(x) => x,
                Err(e) => return Err(e),
            };
            let mut rest = match self.parse_actual_rest() {
                Ok(v) => v,
                Err(e) => return Err(e),
            };
            proof { lemma_seq_view_token_boxed_expression_cons((comma_token, Box::new(next_arg)), rest@); }
            let ghost r0 = rest@;
            rest.insert(0, (comma_token, Box::new(next_arg)));
            proof { assert(rest@ =~= seq![(comma_token, Box::new(next_arg))] + r0); }
            Ok(rest)
        } else {
            Ok(Vec::new())
        }
    }
}

} // verus!
