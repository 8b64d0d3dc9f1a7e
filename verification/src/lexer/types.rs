use crate::tokentree::GroupMode;
use vstd::prelude::*;

verus! {

/// A lexical unit with the place of its first character.
#[derive(Debug, PartialEq, Eq)]
pub struct Token {
    pub kind: TokenKind,
    /// Line (from 1) and column (from 1) of the token's first character.
    pub pos: (usize, usize),
}

/// What a token is: a keyword, a literal, a punctuation mark, a bracket, an
/// identifier or an operator.
#[derive(Debug, PartialEq, Eq)]
pub enum TokenKind {
    Be,
    Mut,
    If,
    Else,
    While,
    Fn,
    Return,
    Struct,
    Enum,
    Boolean(bool),
    Comma,
    Colon,
    SemiColon,
    LParen,
    RParen,
    LCurly,
    RCurly,
    LBracket,
    RBracket,
    Identifier(String),
    /// The raw text between the quotes; escapes are kept as written.
    String(String),
    Integer(i64),
    /// The literal as written: digits, a point, and possibly more digits.
    Float(String),
    Op(Op),
}

/// The operators: the pipe, then those of arithmetic, of comparison (with
/// `Equal` for the assignment `=`), of logic, and of bits.
#[derive(Clone, Copy, Debug, PartialEq, Eq, Structural)]
pub enum Op {
    Pipe,
    Plus,
    Minus,
    Multiply,
    Divide,
    Modulo,
    Equal,
    EqualTo,
    NotEqual,
    GreaterThan,
    LessThan,
    GreaterThanOrEqual,
    LessThanOrEqual,
    And,
    Or,
    Not,
    BitAnd,
    BitOr,
    BitXor,
    BitNot,
    ShiftLeft,
    ShiftRight,
}

/// What a token that is not a bracket stands for.
pub enum Atom {
    Be,
    Mut,
    If,
    Else,
    While,
    Fn,
    Return,
    Struct,
    Enum,
    Boolean(bool),
    Comma,
    Colon,
    SemiColon,
    Identifier(Seq<char>),
    Str(Seq<char>),
    Integer(int),
    Float(Seq<char>),
    Op(Op),
}

/// The model of a token's kind: an atom, or one half of a bracket pair.
pub enum Lexeme {
    Atom(Atom),
    Open(GroupMode),
    Close(GroupMode),
}

/// The model of a token.
pub struct TokenView {
    pub kind: Lexeme,
    pub pos: (nat, nat),
}

impl View for TokenKind {
    type V = Lexeme;

    open spec fn view(&self) -> Lexeme {
        match self {
            TokenKind::Be => Lexeme::Atom(Atom::Be),
            TokenKind::Mut => Lexeme::Atom(Atom::Mut),
            TokenKind::If => Lexeme::Atom(Atom::If),
            TokenKind::Else => Lexeme::Atom(Atom::Else),
            TokenKind::While => Lexeme::Atom(Atom::While),
            TokenKind::Fn => Lexeme::Atom(Atom::Fn),
            TokenKind::Return => Lexeme::Atom(Atom::Return),
            TokenKind::Struct => Lexeme::Atom(Atom::Struct),
            TokenKind::Enum => Lexeme::Atom(Atom::Enum),
            TokenKind::Boolean(b) => Lexeme::Atom(Atom::Boolean(*b)),
            TokenKind::Comma => Lexeme::Atom(Atom::Comma),
            TokenKind::Colon => Lexeme::Atom(Atom::Colon),
            TokenKind::SemiColon => Lexeme::Atom(Atom::SemiColon),
            TokenKind::LParen => Lexeme::Open(GroupMode::Parens),
            TokenKind::RParen => Lexeme::Close(GroupMode::Parens),
            TokenKind::LCurly => Lexeme::Open(GroupMode::Curly),
            TokenKind::RCurly => Lexeme::Close(GroupMode::Curly),
            TokenKind::LBracket => Lexeme::Open(GroupMode::Bracket),
            TokenKind::RBracket => Lexeme::Close(GroupMode::Bracket),
            TokenKind::Identifier(name) => Lexeme::Atom(Atom::Identifier(name@)),
            TokenKind::String(text) => Lexeme::Atom(Atom::Str(text@)),
            TokenKind::Integer(value) => Lexeme::Atom(Atom::Integer(*value as int)),
            TokenKind::Float(text) => Lexeme::Atom(Atom::Float(text@)),
            TokenKind::Op(op) => Lexeme::Atom(Atom::Op(*op)),
        }
    }
}

impl View for Token {
    type V = TokenView;

    open spec fn view(&self) -> TokenView {
        TokenView { kind: self.kind@, pos: (self.pos.0 as nat, self.pos.1 as nat) }
    }
}

/// The state of a scan through the body of a string literal: whether the
/// character that comes next is escaped.
pub struct StringParser {
    skip_next: bool,
}

/// Whether a character belongs to the body of a string literal, given
/// whether it is escaped: everything does but the bare closing quote.
pub open spec fn string_continues(escaped: bool, ch: char) -> bool {
    escaped || ch != '"'
}

/// Whether a character escapes the one after it: a backslash does, unless it
/// is escaped itself.
pub open spec fn escapes_next(escaped: bool, ch: char) -> bool {
    !escaped && ch == '\\'
}

impl View for StringParser {
    type V = bool;

    closed spec fn view(&self) -> bool {
        self.skip_next
    }
}

impl StringParser {
    /// The state at the start of a string body: nothing is escaped.
    pub fn new() -> (r: Self)
        ensures
            !r@,
    {
        StringParser { skip_next: false }
    }

    /// Reads one character and says whether the string goes on with it.
    pub fn condition(&mut self, ch: char) -> (r: bool)
        ensures
            r == string_continues(old(self)@, ch),
            final(self)@ == escapes_next(old(self)@, ch),
    {
        if self.skip_next {
            self.skip_next = false;
            return true;
        }
        match ch {
            '\\' => {
                self.skip_next = true;
                true
            },
            '"' => false,
            _ => true,
        }
    }
}

/// The models of the tokens of a sequence.
pub open spec fn token_views(tokens: Seq<Token>) -> Seq<TokenView> {
    tokens.map_values(|t: Token| t@)
}

} // verus!
