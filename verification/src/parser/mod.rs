//! The parser: reads statements off a sequence of token trees, one after the
//! other, and records a diagnostic for each statement that it cannot read.

pub mod grammar;
pub mod types;

use crate::lexer::types::{Atom, Op};
use crate::parser::grammar::{
    be_statement_at, continued, end_of_statement, expression_at, expression_statement_at,
    followed, identifier_at, identifier_step, is_atom, lemma_program_at_end,
    lemma_program_continues, literal_step, program_from, return_statement_at, statement_at,
    Program, Step,
};
use crate::parser::types::ast::{
    BeStatement, Expression, ExpressionStatement, Ident, Literal, LiteralExpr, Pos,
    ReturnStatement, Statement, Stmt,
};
use crate::parser::types::Parser;
use crate::text::locate;
use crate::tokentree::TokenTreeKind;
use vstd::prelude::*;
use vstd::string::StringExecFns;

verus! {

/// The models of a sequence of statements.
pub open spec fn statement_views(statements: Seq<Statement>) -> Seq<Stmt> {
    statements.map_values(|s: Statement| s@)
}

impl Parser {
    /// The parser has made the step `step` from the state `before`: it
    /// stands where the step ends, and has recorded the step's diagnostic,
    /// if there is one, after those that it held.
    pub open spec fn stepped<T>(&self, before: Parser, step: Step<T>) -> bool {
        &&& self.tokenstream == before.tokenstream
        &&& self.cursor == step.next
        &&& self.diagnostics() == match step.outcome {
            Ok(_) => before.diagnostics(),
            Err(diagnostic) => before.diagnostics().push(diagnostic),
        }
    }

    /// The parser has read a construct from the state `before`: it has made
    /// the step `step`, and has returned the construct of that step as `r`,
    /// or nothing where the step has none.
    pub open spec fn read<T: View>(&self, before: Parser, step: Step<T::V>, r: Option<T>) -> bool {
        &&& self.stepped(before, step)
        &&& match r {
            Some(node) => step.outcome == Ok::<T::V, Seq<char>>(node@),
            None => step.outcome is Err,
        }
    }

    /// Records a diagnostic.
    fn report(&mut self, message: String)
        ensures
            final(self).tokenstream == old(self).tokenstream,
            final(self).cursor == old(self).cursor,
            final(self).diagnostics() == old(self).diagnostics().push(message@),
    {
        self.errors.push(message);
    }

    /// Whether the tree that is read next is the keyword `mut`.
    fn at_mut(&self) -> (r: bool)
        ensures
            r == is_atom(self.input(), self.cursor as int, Atom::Mut),
    {
        if self.cursor < self.tokenstream.len() {
            match self.tokenstream[self.cursor].kind {
                TokenTreeKind::Mut => true,
                _ => false,
            }
        } else {
            false
        }
    }

    /// Whether the tree that is read next is an identifier.
    fn at_identifier(&self) -> (r: bool)
        ensures
            r == identifier_at(self.input(), self.cursor as int) is Some,
    {
        if self.cursor < self.tokenstream.len() {
            match self.tokenstream[self.cursor].kind {
                TokenTreeKind::Identifier(_) => true,
                _ => false,
            }
        } else {
            false
        }
    }

    /// Whether the tree that is read next is the operator `=`.
    fn at_assign(&self) -> (r: bool)
        ensures
            r == is_atom(self.input(), self.cursor as int, Atom::Op(Op::Equal)),
    {
        if self.cursor < self.tokenstream.len() {
            match self.tokenstream[self.cursor].kind {
                TokenTreeKind::Op(Op::Equal) => true,
                _ => false,
            }
        } else {
            false
        }
    }

    /// Whether the tree that is read next is a semicolon.
    fn at_semicolon(&self) -> (r: bool)
        ensures
            r == is_atom(self.input(), self.cursor as int, Atom::SemiColon),
    {
        if self.cursor < self.tokenstream.len() {
            match self.tokenstream[self.cursor].kind {
                TokenTreeKind::SemiColon => true,
                _ => false,
            }
        } else {
            false
        }
    }

    /// Reads the semicolon that ends a statement whose value is `value`.
    /// Says whether it was there; where it was not, records the diagnostic.
    fn end_statement(&mut self, value: &Expression) -> (r: bool)
        ensures
            forall|statement: Stmt|
                final(self).stepped(
                    *old(self),
                    #[trigger] end_of_statement(
                        old(self).input(),
                        old(self).cursor as int,
                        statement,
                        value@,
                    ),
                ),
            r == is_atom(old(self).input(), old(self).cursor as int, Atom::SemiColon),
    {
        if !self.at_semicolon() {
            let message = locate(String::from_str("Expected ';' after expression"), value.pos());
            self.report(message);
            false
        } else {
            assert(self.cursor < self.input().len() == self.tokenstream.len());
            self.cursor += 1;
            true
        }
    }

    /// Reads all the statements that are left. A statement that cannot be
    /// read adds a diagnostic and no statement; reading then goes on.
    pub fn parse_statements(&mut self) -> (r: Option<Vec<Statement>>)
        ensures
            r is Some,
            statement_views(r->0@) == program_from(
                old(self).input(),
                old(self).cursor as int,
            ).statements,
            final(self).diagnostics() == old(self).diagnostics() + program_from(
                old(self).input(),
                old(self).cursor as int,
            ).diagnostics,
            final(self).tokenstream == old(self).tokenstream,
            final(self).cursor == if old(self).cursor < old(self).tokenstream.len() {
                old(self).tokenstream.len()
            } else {
                old(self).cursor
            },
    {
        let mut statements: Vec<Statement> = Vec::new();
        let ghost ts = self.input();
        let ghost whole = program_from(ts, self.cursor as int);
        let ghost before = self.diagnostics();
        let ghost mut read = Program { statements: Seq::empty(), diagnostics: Seq::empty() };
        proof {
            assert(continued(read, whole).statements =~= whole.statements);
            assert(continued(read, whole).diagnostics =~= whole.diagnostics);
            assert(before + read.diagnostics =~= before);
        }
        loop
            invariant
                self.tokenstream == old(self).tokenstream,
                ts == old(self).input(),
                self.cursor == old(self).cursor || self.cursor <= self.tokenstream.len(),
                old(self).cursor <= self.cursor,
                read.statements == statement_views(statements@),
                self.diagnostics() == before + read.diagnostics,
                continued(read, program_from(ts, self.cursor as int)) == whole,
            ensures
                self.cursor >= self.tokenstream.len(),
            decreases self.tokenstream.len() - self.cursor,
        {
            if self.cursor >= self.tokenstream.len() {
                break ;
            }
            let ghost step = statement_at(ts, self.cursor as int);
            proof {
                lemma_program_continues(ts, self.cursor as int, read);
            }
            let parsed = self.parse_statement();
            proof {
                read = followed(read, step.outcome);
                if step.outcome is Err {
                    assert(self.diagnostics() =~= before + read.diagnostics);
                }
            }
            match parsed {
                Some(statement) => {
                    statements.push(statement);
                    proof {
                        assert(read.statements =~= statement_views(statements@));
                    }
                },
                None => {},
            }
        }
        proof {
            lemma_program_at_end(ts, self.cursor as int, read);
        }
        Some(statements)
    }

    /// Reads one statement. Where no tree is left, there is none, and the
    /// diagnostic "Unexpected EOF" is recorded.
    pub fn parse_statement(&mut self) -> (r: Option<Statement>)
        ensures
            final(self).tokenstream == old(self).tokenstream,
            old(self).cursor >= old(self).tokenstream.len() ==> {
                &&& r is None
                &&& final(self).cursor == old(self).cursor
                &&& final(self).diagnostics() == old(self).diagnostics().push("Unexpected EOF"@)
            },
            old(self).cursor < old(self).tokenstream.len() ==> final(self).read(
                *old(self),
                statement_at(old(self).input(), old(self).cursor as int),
                r,
            ),
    {
        let peeked = match self.peek_token() {
            Some(tree) => tree,
            None => {
                return None;
            },
        };
        let statement = match peeked.kind {
            TokenTreeKind::Be => match self.parse_be_statement() {
                Some(statement) => Statement::Be(statement),
                None => {
                    return None;
                },
            },
            TokenTreeKind::Return => match self.parse_return_statement() {
                Some(statement) => Statement::Return(statement),
                None => {
                    return None;
                },
            },
            _ => match self.parse_expression_statement() {
                Some(statement) => Statement::Expression(statement),
                None => {
                    return None;
                },
            },
        };
        Some(statement)
    }

    /// Reads a binding, whose keyword is the tree that is read next.
    pub fn parse_be_statement(&mut self) -> (r: Option<BeStatement>)
        requires
            old(self).cursor < old(self).tokenstream.len(),
        ensures
            final(self).read(
                *old(self),
                be_statement_at(old(self).input(), old(self).cursor as int),
                r,
            ),
    {
        let pos = self.tokenstream[self.cursor].pos;
        self.cursor += 1;
        let is_mut = if self.at_mut() {
            self.cursor += 1;
            true
        } else {
            false
        };
        if !self.at_identifier() {
            let message = locate(String::from_str("Expected identifier after 'be'"), pos);
            self.report(message);
            return None;
        }
        let ident: Ident = match self.parse_ident() {
            Some(ident) => ident,
            None => {
                return None;
            },
        };
        if !self.at_assign() {
            let message = locate(String::from_str("Expected '=' after identifier"), ident.pos);
            self.report(message);
            return None;
        } else {
            self.cursor += 1;
        }
        let value: Expression = match self.parse_expression() {
            Some(value) => value,
            None => {
                return None;
            },
        };
        if !self.end_statement(&value) {
            return None;
        }
        Some(BeStatement { ident, value, is_mut, pos })
    }

    /// Reads a return statement, whose keyword is the tree that is read
    /// next. Where no tree is left, there is no statement and no diagnostic.
    pub fn parse_return_statement(&mut self) -> (r: Option<ReturnStatement>)
        ensures
            old(self).cursor >= old(self).tokenstream.len() ==> {
                &&& r is None
                &&& *final(self) == *old(self)
            },
            old(self).cursor < old(self).tokenstream.len() ==> final(self).read(
                *old(self),
                return_statement_at(old(self).input(), old(self).cursor as int),
                r,
            ),
    {
        if self.cursor >= self.tokenstream.len() {
            return None;
        }
        let pos = self.tokenstream[self.cursor].pos;
        self.cursor += 1;
        let value: Expression = match self.parse_expression() {
            Some(value) => value,
            None => {
                return None;
            },
        };
        if !self.end_statement(&value) {
            return None;
        }
        Some(ReturnStatement { value, pos })
    }

    /// Reads an expression statement. Where no tree is left, there is no
    /// statement and no diagnostic.
    pub fn parse_expression_statement(&mut self) -> (r: Option<ExpressionStatement>)
        ensures
            old(self).cursor >= old(self).tokenstream.len() ==> {
                &&& r is None
                &&& *final(self) == *old(self)
            },
            old(self).cursor < old(self).tokenstream.len() ==> final(self).read(
                *old(self),
                expression_statement_at(old(self).input(), old(self).cursor as int),
                r,
            ),
    {
        if self.cursor >= self.tokenstream.len() {
            return None;
        }
        let pos = self.tokenstream[self.cursor].pos;
        let expr: Expression = match self.parse_expression() {
            Some(expr) => expr,
            None => {
                return None;
            },
        };
        if !self.end_statement(&expr) {
            return None;
        }
        Some(ExpressionStatement { expr, pos })
    }

    /// Reads an expression.
    pub fn parse_expression(&mut self) -> (r: Option<Expression>)
        ensures
            final(self).read(
                *old(self),
                expression_at(old(self).input(), old(self).cursor as int),
                r,
            ),
    {
        let peeked = match self.peek_token() {
            Some(tree) => tree,
            None => {
                return None;
            },
        };
        let expr = match &peeked.kind {
            TokenTreeKind::Identifier(_) => match self.parse_ident() {
                Some(ident) => Expression::Ident(ident),
                None => {
                    return None;
                },
            },
            TokenTreeKind::Integer(_)
            | TokenTreeKind::Float(_)
            | TokenTreeKind::Boolean(_)
            | TokenTreeKind::String(_) => match self.parse_literal() {
                Some(literal) => Expression::Literal(literal),
                None => {
                    return None;
                },
            },
            _ => {
                let mut message = String::from_str("Unexpected token '");
                peeked.kind.push_debug(&mut message);
                message.append("'");
                let message = locate(message, peeked.pos);
                self.report(message);
                self.cursor += 1;
                return None;
            },
        };
        Some(expr)
    }

    /// Reads an identifier. Where no tree is left, there is none and no
    /// diagnostic; a tree that is no identifier is read and reported.
    pub fn parse_ident(&mut self) -> (r: Option<Ident>)
        ensures
            old(self).cursor >= old(self).tokenstream.len() ==> {
                &&& r is None
                &&& *final(self) == *old(self)
            },
            old(self).cursor < old(self).tokenstream.len() ==> final(self).read(
                *old(self),
                identifier_step(old(self).input(), old(self).cursor as int),
                r,
            ),
    {
        if self.cursor >= self.tokenstream.len() {
            return None;
        }
        let token = &self.tokenstream[self.cursor];
        self.cursor += 1;
        match &token.kind {
            TokenTreeKind::Identifier(name) => Some(Ident { name: name.clone(), pos: token.pos }),
            _ => {
                let mut message = String::from_str("Expected identifier, found '");
                token.kind.push_debug(&mut message);
                message.append("'");
                let message = locate(message, token.pos);
                self.report(message);
                None
            },
        }
    }

    /// Reads a literal. Where no tree is left, there is none and no
    /// diagnostic; a tree that is no literal is read and reported.
    pub fn parse_literal(&mut self) -> (r: Option<LiteralExpr>)
        ensures
            old(self).cursor >= old(self).tokenstream.len() ==> {
                &&& r is None
                &&& *final(self) == *old(self)
            },
            old(self).cursor < old(self).tokenstream.len() ==> final(self).read(
                *old(self),
                literal_step(old(self).input(), old(self).cursor as int),
                r,
            ),
    {
        if self.cursor >= self.tokenstream.len() {
            return None;
        }
        let token = &self.tokenstream[self.cursor];
        self.cursor += 1;
        let literal = match &token.kind {
            TokenTreeKind::Integer(value) => Literal::Int(*value),
            TokenTreeKind::Float(text) => Literal::Float(text.clone()),
            TokenTreeKind::Boolean(value) => Literal::Bool(*value),
            TokenTreeKind::String(text) => Literal::Str(text.clone()),
            _ => {
                let mut message = String::from_str("Expected literal, found '");
                token.kind.push_debug(&mut message);
                message.append("'");
                let message = locate(message, token.pos);
                self.report(message);
                return None;
            },
        };
        Some(LiteralExpr { value: literal, pos: token.pos })
    }
}

} // verus!
