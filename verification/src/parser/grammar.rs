//! What parsing is: which statement starts at each index of a sequence of
//! token trees, or which diagnostic says why none does.

use crate::lexer::types::{Atom, Op};
use crate::parser::types::ast::{Expr, Stmt, Value};
use crate::text::located;
use crate::tokentree::debug::node_debug;
use crate::tokentree::{Node, Tree};
use vstd::prelude::*;

verus! {

/// What reading one construct comes to: the construct, or the diagnostic
/// that says why there is none; and the index of the tree at which the
/// parser stands afterwards.
pub struct Step<T> {
    pub outcome: Result<T, Seq<char>>,
    pub next: int,
}

/// What reading a whole sequence of trees comes to: the statements that
/// could be read and the diagnostics for those that could not, each in the
/// order of the source.
pub struct Program {
    pub statements: Seq<Stmt>,
    pub diagnostics: Seq<Seq<char>>,
}

/// Whether the tree at index `i` is the atom `atom`.
pub open spec fn is_atom(ts: Seq<Tree>, i: int, atom: Atom) -> bool {
    0 <= i < ts.len() && ts[i].node == Node::Leaf(atom)
}

/// The name that the tree at index `i` holds, where it is an identifier.
pub open spec fn identifier_at(ts: Seq<Tree>, i: int) -> Option<Seq<char>> {
    if 0 <= i < ts.len() {
        match ts[i].node {
            Node::Leaf(Atom::Identifier(name)) => Some(name),
            _ => None,
        }
    } else {
        None
    }
}

/// The literal that the tree at index `i` holds, where it is one.
pub open spec fn literal_at(ts: Seq<Tree>, i: int) -> Option<Value> {
    if 0 <= i < ts.len() {
        match ts[i].node {
            Node::Leaf(Atom::Integer(value)) => Some(Value::Int(value)),
            Node::Leaf(Atom::Float(text)) => Some(Value::Float(text)),
            Node::Leaf(Atom::Boolean(value)) => Some(Value::Bool(value)),
            Node::Leaf(Atom::Str(text)) => Some(Value::Str(text)),
            _ => None,
        }
    } else {
        None
    }
}

/// The diagnostic for a tree that cannot start an expression.
pub open spec fn unexpected_token_message(tree: Tree) -> Seq<char> {
    located("Unexpected token '"@ + node_debug(tree.node) + "'"@, tree.pos)
}

/// The diagnostic for a tree that is read as an identifier and is none.
pub open spec fn not_an_identifier_message(tree: Tree) -> Seq<char> {
    located("Expected identifier, found '"@ + node_debug(tree.node) + "'"@, tree.pos)
}

/// The diagnostic for a tree that is read as a literal and is none.
pub open spec fn not_a_literal_message(tree: Tree) -> Seq<char> {
    located("Expected literal, found '"@ + node_debug(tree.node) + "'"@, tree.pos)
}

/// The identifier at index `i`. Any other tree is read too, with a
/// diagnostic.
pub open spec fn identifier_step(ts: Seq<Tree>, i: int) -> Step<Expr>
    recommends
        0 <= i < ts.len(),
{
    match identifier_at(ts, i) {
        Some(name) => Step { outcome: Ok(Expr::Ident { name, pos: ts[i].pos }), next: i + 1 },
        None => Step { outcome: Err(not_an_identifier_message(ts[i])), next: i + 1 },
    }
}

/// The literal at index `i`. Any other tree is read too, with a diagnostic.
pub open spec fn literal_step(ts: Seq<Tree>, i: int) -> Step<Expr>
    recommends
        0 <= i < ts.len(),
{
    match literal_at(ts, i) {
        Some(value) => Step { outcome: Ok(Expr::Literal { value, pos: ts[i].pos }), next: i + 1 },
        None => Step { outcome: Err(not_a_literal_message(ts[i])), next: i + 1 },
    }
}

/// The expression at index `i`: an identifier or a literal. Any other tree
/// is passed over with a diagnostic; where no tree is left, the diagnostic
/// is "Unexpected EOF".
pub open spec fn expression_at(ts: Seq<Tree>, i: int) -> Step<Expr> {
    if !(0 <= i < ts.len()) {
        Step { outcome: Err("Unexpected EOF"@), next: i }
    } else if identifier_at(ts, i) is Some {
        identifier_step(ts, i)
    } else if literal_at(ts, i) is Some {
        literal_step(ts, i)
    } else {
        Step { outcome: Err(unexpected_token_message(ts[i])), next: i + 1 }
    }
}

/// The end of a statement whose value `value` ends before index `i`: the
/// semicolon at `i` completes `statement`; anything else there is left
/// unread, with a diagnostic that names the place of the value.
pub open spec fn end_of_statement(ts: Seq<Tree>, i: int, statement: Stmt, value: Expr) -> Step<
    Stmt,
> {
    if is_atom(ts, i, Atom::SemiColon) {
        Step { outcome: Ok(statement), next: i + 1 }
    } else {
        Step { outcome: Err(located("Expected ';' after expression"@, value.pos())), next: i }
    }
}

/// The binding that the keyword at index `i` starts: `mut` if it is there,
/// then a name, `=`, a value, and `;`. A tree that is not what is required
/// is left unread, but for one that cannot start the value.
pub open spec fn be_statement_at(ts: Seq<Tree>, i: int) -> Step<Stmt>
    recommends
        0 <= i < ts.len(),
{
    let is_mut = is_atom(ts, i + 1, Atom::Mut);
    let at_name = if is_mut {
        i + 2
    } else {
        i + 1
    };
    if identifier_at(ts, at_name) is None {
        Step {
            outcome: Err(located("Expected identifier after 'be'"@, ts[i].pos)),
            next: at_name,
        }
    } else if !is_atom(ts, at_name + 1, Atom::Op(Op::Equal)) {
        Step {
            outcome: Err(located("Expected '=' after identifier"@, ts[at_name].pos)),
            next: at_name + 1,
        }
    } else {
        let value = expression_at(ts, at_name + 2);
        match value.outcome {
            Err(diagnostic) => Step { outcome: Err(diagnostic), next: value.next },
            Ok(expr) => end_of_statement(
                ts,
                value.next,
                Stmt::Be {
                    name: identifier_at(ts, at_name)->0,
                    name_pos: ts[at_name].pos,
                    value: expr,
                    is_mut,
                    pos: ts[i].pos,
                },
                expr,
            ),
        }
    }
}

/// The return statement that the keyword at index `i` starts: a value, and
/// `;`.
pub open spec fn return_statement_at(ts: Seq<Tree>, i: int) -> Step<Stmt>
    recommends
        0 <= i < ts.len(),
{
    let value = expression_at(ts, i + 1);
    match value.outcome {
        Err(diagnostic) => Step { outcome: Err(diagnostic), next: value.next },
        Ok(expr) => end_of_statement(
            ts,
            value.next,
            Stmt::Return { value: expr, pos: ts[i].pos },
            expr,
        ),
    }
}

/// The expression statement that starts at index `i`: an expression, and
/// `;`.
pub open spec fn expression_statement_at(ts: Seq<Tree>, i: int) -> Step<Stmt>
    recommends
        0 <= i < ts.len(),
{
    let value = expression_at(ts, i);
    match value.outcome {
        Err(diagnostic) => Step { outcome: Err(diagnostic), next: value.next },
        Ok(expr) => end_of_statement(
            ts,
            value.next,
            Stmt::Expression { expr, pos: ts[i].pos },
            expr,
        ),
    }
}

/// The statement that starts at index `i`: `be` starts a binding, `return`
/// a return statement, anything else an expression statement.
pub open spec fn statement_at(ts: Seq<Tree>, i: int) -> Step<Stmt>
    recommends
        0 <= i < ts.len(),
{
    if is_atom(ts, i, Atom::Be) {
        be_statement_at(ts, i)
    } else if is_atom(ts, i, Atom::Return) {
        return_statement_at(ts, i)
    } else {
        expression_statement_at(ts, i)
    }
}

/// Reading a statement takes at least one tree and stays within the trees.
pub proof fn lemma_statement_advances(ts: Seq<Tree>, i: int)
    requires
        0 <= i < ts.len(),
    ensures
        i < statement_at(ts, i).next <= ts.len(),
{
}

/// A program with one more statement or diagnostic in front, as the outcome
/// of reading a statement has it.
pub open spec fn preceded(outcome: Result<Stmt, Seq<char>>, rest: Program) -> Program {
    match outcome {
        Ok(statement) => Program {
            statements: seq![statement] + rest.statements,
            diagnostics: rest.diagnostics,
        },
        Err(diagnostic) => Program {
            statements: rest.statements,
            diagnostics: seq![diagnostic] + rest.diagnostics,
        },
    }
}

/// What the trees from index `i` on are read as. After a statement that
/// cannot be read, reading goes on with the next tree that is left unread.
pub open spec fn program_from(ts: Seq<Tree>, i: int) -> Program
    decreases ts.len() - i,
    via program_from_decreases
{
    if !(0 <= i < ts.len()) {
        Program { statements: Seq::empty(), diagnostics: Seq::empty() }
    } else {
        let step = statement_at(ts, i);
        preceded(step.outcome, program_from(ts, step.next))
    }
}

/// A program joined to what was read before it: the statements after the
/// statements, the diagnostics after the diagnostics.
pub open spec fn continued(read: Program, rest: Program) -> Program {
    Program {
        statements: read.statements + rest.statements,
        diagnostics: read.diagnostics + rest.diagnostics,
    }
}

/// What was read before a statement, with the outcome of reading it added.
pub open spec fn followed(read: Program, outcome: Result<Stmt, Seq<char>>) -> Program {
    match outcome {
        Ok(statement) => Program {
            statements: read.statements.push(statement),
            diagnostics: read.diagnostics,
        },
        Err(diagnostic) => Program {
            statements: read.statements,
            diagnostics: read.diagnostics.push(diagnostic),
        },
    }
}

/// Reading on from index `i` is reading one statement and then reading on
/// from where that statement ends.
pub proof fn lemma_program_continues(ts: Seq<Tree>, i: int, read: Program)
    requires
        0 <= i < ts.len(),
    ensures
        i < statement_at(ts, i).next <= ts.len(),
        continued(read, program_from(ts, i)) == continued(
            followed(read, statement_at(ts, i).outcome),
            program_from(ts, statement_at(ts, i).next),
        ),
{
    let step = statement_at(ts, i);
    let rest = program_from(ts, step.next);
    lemma_statement_advances(ts, i);
    assert(program_from(ts, i) == preceded(step.outcome, rest));
    match step.outcome {
        Ok(statement) => {
            assert(read.statements + (seq![statement] + rest.statements)
                =~= read.statements.push(statement) + rest.statements);
        },
        Err(diagnostic) => {
            assert(read.diagnostics + (seq![diagnostic] + rest.diagnostics)
                =~= read.diagnostics.push(diagnostic) + rest.diagnostics);
        },
    }
}

/// Nothing is read from the end on.
pub proof fn lemma_program_at_end(ts: Seq<Tree>, i: int, read: Program)
    requires
        i >= ts.len(),
    ensures
        continued(read, program_from(ts, i)) == read,
{
    assert(read.statements + Seq::<Stmt>::empty() =~= read.statements);
    assert(read.diagnostics + Seq::<Seq<char>>::empty() =~= read.diagnostics);
}

/// Each statement takes at least one tree.
#[via_fn]
proof fn program_from_decreases(ts: Seq<Tree>, i: int) {
    if 0 <= i < ts.len() {
        lemma_statement_advances(ts, i);
    }
}

} // verus!
