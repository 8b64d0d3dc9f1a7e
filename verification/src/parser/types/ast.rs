//! The syntax tree: statements and expressions, each with the place in the
//! source where it starts.

use vstd::prelude::*;

verus! {

/// What every node of the syntax tree has: the place where it starts, kept
/// for diagnostics.
pub trait Pos {
    /// The place where the node starts.
    spec fn position(&self) -> (usize, usize);

    /// The line and column where the node starts.
    fn pos(&self) -> (r: (usize, usize))
        ensures
            r == self.position(),
    ;
}

/// A statement: a binding, a return, or an expression on its own.
#[derive(Debug)]
pub enum Statement {
    Be(BeStatement),
    Return(ReturnStatement),
    Expression(ExpressionStatement),
}

/// A binding: `be`, possibly `mut`, a name, `=`, a value, `;`.
#[derive(Debug)]
pub struct BeStatement {
    pub ident: Ident,
    pub value: Expression,
    pub is_mut: bool,
    pub pos: (usize, usize),
}

/// `return`, a value, `;`.
#[derive(Debug)]
pub struct ReturnStatement {
    pub value: Expression,
    pub pos: (usize, usize),
}

/// An expression followed by `;`.
#[derive(Debug)]
pub struct ExpressionStatement {
    pub expr: Expression,
    pub pos: (usize, usize),
}

/// An expression: an identifier or a literal.
#[derive(Debug)]
pub enum Expression {
    Ident(Ident),
    Literal(LiteralExpr),
}

/// A name, as it stands in the source.
#[derive(Debug)]
pub struct Ident {
    pub name: String,
    pub pos: (usize, usize),
}

/// The value of a literal.
#[derive(Debug)]
pub enum Literal {
    Int(i64),
    /// The literal as written: digits, a point, and possibly more digits.
    Float(String),
    Bool(bool),
    /// The raw text between the quotes.
    Str(String),
}

/// A literal with the place where it stands.
#[derive(Debug)]
pub struct LiteralExpr {
    pub value: Literal,
    pub pos: (usize, usize),
}

/// The model of a literal.
pub enum Value {
    Int(int),
    Float(Seq<char>),
    Bool(bool),
    Str(Seq<char>),
}

/// The model of an expression.
pub enum Expr {
    Ident { name: Seq<char>, pos: (nat, nat) },
    Literal { value: Value, pos: (nat, nat) },
}

/// The model of a statement.
pub enum Stmt {
    Be { name: Seq<char>, name_pos: (nat, nat), value: Expr, is_mut: bool, pos: (nat, nat) },
    Return { value: Expr, pos: (nat, nat) },
    Expression { expr: Expr, pos: (nat, nat) },
}

impl Expr {
    /// The place where the expression starts.
    pub open spec fn pos(self) -> (nat, nat) {
        match self {
            Expr::Ident { name, pos } => pos,
            Expr::Literal { value, pos } => pos,
        }
    }
}

/// A place as a pair of natural numbers.
pub open spec fn place(pos: (usize, usize)) -> (nat, nat) {
    (pos.0 as nat, pos.1 as nat)
}

impl View for Literal {
    type V = Value;

    open spec fn view(&self) -> Value {
        match self {
            Literal::Int(value) => Value::Int(*value as int),
            Literal::Float(text) => Value::Float(text@),
            Literal::Bool(value) => Value::Bool(*value),
            Literal::Str(text) => Value::Str(text@),
        }
    }
}

impl View for Ident {
    type V = Expr;

    open spec fn view(&self) -> Expr {
        Expr::Ident { name: self.name@, pos: place(self.pos) }
    }
}

impl View for LiteralExpr {
    type V = Expr;

    open spec fn view(&self) -> Expr {
        Expr::Literal { value: self.value@, pos: place(self.pos) }
    }
}

impl View for Expression {
    type V = Expr;

    open spec fn view(&self) -> Expr {
        match self {
            Expression::Ident(ident) => ident@,
            Expression::Literal(literal) => literal@,
        }
    }
}

impl View for BeStatement {
    type V = Stmt;

    open spec fn view(&self) -> Stmt {
        Stmt::Be {
            name: self.ident.name@,
            name_pos: place(self.ident.pos),
            value: self.value@,
            is_mut: self.is_mut,
            pos: place(self.pos),
        }
    }
}

impl View for ReturnStatement {
    type V = Stmt;

    open spec fn view(&self) -> Stmt {
        Stmt::Return { value: self.value@, pos: place(self.pos) }
    }
}

impl View for ExpressionStatement {
    type V = Stmt;

    open spec fn view(&self) -> Stmt {
        Stmt::Expression { expr: self.expr@, pos: place(self.pos) }
    }
}

impl View for Statement {
    type V = Stmt;

    open spec fn view(&self) -> Stmt {
        match self {
            Statement::Be(statement) => statement@,
            Statement::Return(statement) => statement@,
            Statement::Expression(statement) => statement@,
        }
    }
}

impl Pos for Statement {
    open spec fn position(&self) -> (usize, usize) {
        match self {
            Statement::Be(statement) => statement.pos,
            Statement::Return(statement) => statement.pos,
            Statement::Expression(statement) => statement.pos,
        }
    }

    fn pos(&self) -> (r: (usize, usize)) {
        match self {
            Statement::Be(statement) => statement.pos(),
            Statement::Return(statement) => statement.pos(),
            Statement::Expression(statement) => statement.pos(),
        }
    }
}

impl Pos for BeStatement {
    open spec fn position(&self) -> (usize, usize) {
        self.pos
    }

    fn pos(&self) -> (r: (usize, usize)) {
        self.pos
    }
}

impl Pos for ReturnStatement {
    open spec fn position(&self) -> (usize, usize) {
        self.pos
    }

    fn pos(&self) -> (r: (usize, usize)) {
        self.pos
    }
}

impl Pos for ExpressionStatement {
    open spec fn position(&self) -> (usize, usize) {
        self.pos
    }

    fn pos(&self) -> (r: (usize, usize)) {
        self.pos
    }
}

impl Pos for Expression {
    open spec fn position(&self) -> (usize, usize) {
        match self {
            Expression::Ident(ident) => ident.pos,
            Expression::Literal(literal) => literal.pos,
        }
    }

    fn pos(&self) -> (r: (usize, usize)) {
        match self {
            Expression::Ident(ident) => ident.pos(),
            Expression::Literal(literal) => literal.pos(),
        }
    }
}

impl Pos for Ident {
    open spec fn position(&self) -> (usize, usize) {
        self.pos
    }

    fn pos(&self) -> (r: (usize, usize)) {
        self.pos
    }
}

impl Pos for LiteralExpr {
    open spec fn position(&self) -> (usize, usize) {
        self.pos
    }

    fn pos(&self) -> (r: (usize, usize)) {
        self.pos
    }
}

} // verus!
