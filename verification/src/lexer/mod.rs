//! The lexer: a cursor over the characters of a source text that reads one
//! token at a time and keeps count of lines and columns.

pub mod lemmas;
pub mod model;
pub mod types;

use crate::lexer::model::{
    invalid_integer_message, lemma_position_bounds, lemma_run_end_bounds, lemma_run_end_is,
    lemma_string_end_bounds, lexed_end, lexed_from, lexed_item, position_after, run_end,
    scan_number, scan_string, scan_word, string_end, symbol_at, CharClass, Scan,
};
use crate::lexer::types::{token_views, Op, StringParser, Token, TokenKind, TokenView};
use crate::text::{
    chars_of, is_digit, is_whitespace, is_word_part, is_word_start, locate, parse_integer,
    same_text,
};
use vstd::prelude::*;
use vstd::string::StringExecFns;

verus! {

/// The model of what `LexerCursor::next` returns.
pub open spec fn item_view(item: Option<Result<Token, String>>) -> Option<
    Result<TokenView, Seq<char>>,
> {
    match item {
        None => None,
        Some(Ok(token)) => Some(Ok(token@)),
        Some(Err(message)) => Some(Err(message@)),
    }
}

/// The model of what `tokenize` returns.
pub open spec fn tokenized_view(r: Result<Vec<Token>, String>) -> Result<
    Seq<TokenView>,
    Seq<char>,
> {
    match r {
        Ok(tokens) => Ok(token_views(tokens@)),
        Err(message) => Err(message@),
    }
}

/// The tokens read so far, followed by what the rest of the text lexes to.
pub open spec fn tokens_then(
    read: Seq<TokenView>,
    rest: Result<Seq<TokenView>, Seq<char>>,
) -> Result<Seq<TokenView>, Seq<char>> {
    match rest {
        Ok(tokens) => Ok(read + tokens),
        Err(message) => Err(message),
    }
}

/// Where the cursor stands: how many characters are read, and the line and
/// column that this makes.
#[derive(Clone, Copy)]
struct Place {
    index: usize,
    row: usize,
    column: usize,
}

/// A cursor over the characters of a source text.
pub struct LexerCursor {
    source: Vec<char>,
    at: Place,
}

impl LexerCursor {
    /// The cursor stands within its text, and its line and column are those
    /// of the characters read. The text is short enough for the line count
    /// to fit in `usize`.
    #[verifier::type_invariant]
    spec fn well_formed(self) -> bool {
        &&& self.at.index <= self.source@.len() < usize::MAX
        &&& position_after(self.source@, self.at.index as nat) == (
            self.at.row as nat,
            self.at.column as nat,
        )
    }

    /// The whole text that the cursor reads.
    pub closed spec fn source(&self) -> Seq<char> {
        self.source@
    }

    /// How many characters of the text are read.
    pub closed spec fn index(&self) -> nat {
        self.at.index as nat
    }

    /// A cursor at the start of `input`.
    pub fn new(input: &str) -> (r: Self)
        requires
            input@.len() < usize::MAX,
        ensures
            r.source() == input@,
            r.index() == 0,
    {
        LexerCursor { source: chars_of(input), at: Place { index: 0, row: 1, column: 0 } }
    }

    /// Reads one character, if any is left.
    pub fn bump(&mut self) -> (r: Option<char>)
        ensures
            final(self).source() == old(self).source(),
            final(self).index() <= final(self).source().len(),
            old(self).index() < old(self).source().len() ==> {
                &&& r == Some(old(self).source()[old(self).index() as int])
                &&& final(self).index() == old(self).index() + 1
            },
            old(self).index() >= old(self).source().len() ==> {
                &&& r is None
                &&& final(self).index() == old(self).index()
            },
    {
        proof {
            use_type_invariant(&*self);
            lemma_position_bounds(self.source@, self.at.index as nat);
        }
        if self.at.index < self.source.len() {
            let c = self.source[self.at.index];
            let at = self.at;
            if c == '\n' {
                self.at = Place { index: at.index + 1, row: at.row + 1, column: 0 };
            } else {
                self.at = Place { index: at.index + 1, row: at.row, column: at.column + 1 };
            }
            Some(c)
        } else {
            None
        }
    }

    /// The character that `bump` would read, without reading it.
    pub fn peek(&mut self) -> (r: Option<char>)
        ensures
            *final(self) == *old(self),
            old(self).index() <= old(self).source().len(),
            r == if old(self).index() < old(self).source().len() {
                Some(old(self).source()[old(self).index() as int])
            } else {
                None
            },
    {
        proof {
            use_type_invariant(&*self);
        }
        if self.at.index < self.source.len() {
            Some(self.source[self.at.index])
        } else {
            None
        }
    }

    /// The line and column that the cursor has reached.
    pub fn pos(&self) -> (r: (usize, usize))
        ensures
            self.index() <= self.source().len(),
            (r.0 as nat, r.1 as nat) == position_after(self.source(), self.index()),
    {
        proof {
            use_type_invariant(self);
        }
        (self.at.row, self.at.column)
    }

    /// Reads characters for as long as `condition` accepts them, and returns
    /// what was read.
    fn eat_while<F: Fn(char) -> bool>(&mut self, condition: F) -> (r: String)
        requires
            forall|c: char| call_requires(condition, (c,)),
        ensures
            final(self).source() == old(self).source(),
            old(self).index() <= final(self).index() <= old(self).source().len(),
            forall|k: int|
                old(self).index() <= k < final(self).index() ==> call_ensures(
                    condition,
                    (#[trigger] old(self).source()[k],),
                    true,
                ),
            final(self).index() < old(self).source().len() ==> call_ensures(
                condition,
                (old(self).source()[final(self).index() as int],),
                false,
            ),
            r@ == old(self).source().subrange(
                old(self).index() as int,
                final(self).index() as int,
            ),
    {
        let mut out = String::new();
        let ghost start = self.index();
        proof {
            use_type_invariant(&*self);
        }
        loop
            invariant
                self.source() == old(self).source(),
                start == old(self).index(),
                start <= self.index() <= self.source().len(),
                forall|c: char| call_requires(condition, (c,)),
                forall|k: int|
                    start <= k < self.index() ==> call_ensures(
                        condition,
                        (#[trigger] self.source()[k],),
                        true,
                    ),
                out@ == self.source().subrange(start as int, self.index() as int),
            ensures
                self.index() < self.source().len() ==> call_ensures(
                    condition,
                    (self.source()[self.index() as int],),
                    false,
                ),
            decreases self.source().len() - self.index(),
        {
            match self.peek() {
                Some(c) => {
                    if condition(c) {
                        self.bump();
                        out.push(c);
                    } else {
                        break ;
                    }
                },
                None => {
                    break ;
                },
            }
        }
        out
    }

    /// Reads the rest of the symbol that starts with `c`, the character read
    /// last, if one starts with it.
    fn symbol(&mut self, c: char) -> (r: Option<TokenKind>)
        requires
            old(self).index() >= 1,
            old(self).source()[old(self).index() - 1] == c,
        ensures
            final(self).source() == old(self).source(),
            match symbol_at(old(self).source(), old(self).index() - 1) {
                Some((kind, end)) => r is Some && r->0@ == kind && final(self).index() == end,
                None => r is None && final(self).index() == old(self).index(),
            },
    {
        proof {
            use_type_invariant(&*self);
        }
        match c {
            ',' => Some(TokenKind::Comma),
            ':' => Some(TokenKind::Colon),
            ';' => Some(TokenKind::SemiColon),
            '(' => Some(TokenKind::LParen),
            ')' => Some(TokenKind::RParen),
            '{' => Some(TokenKind::LCurly),
            '}' => Some(TokenKind::RCurly),
            '[' => Some(TokenKind::LBracket),
            ']' => Some(TokenKind::RBracket),
            '+' => Some(TokenKind::Op(Op::Plus)),
            '-' => Some(TokenKind::Op(Op::Minus)),
            '*' => Some(TokenKind::Op(Op::Multiply)),
            '/' => Some(TokenKind::Op(Op::Divide)),
            '%' => Some(TokenKind::Op(Op::Modulo)),
            '=' => match self.peek() {
                Some('=') => {
                    self.bump();
                    Some(TokenKind::Op(Op::EqualTo))
                },
                _ => Some(TokenKind::Op(Op::Equal)),
            },
            '!' => match self.peek() {
                Some('=') => {
                    self.bump();
                    Some(TokenKind::Op(Op::NotEqual))
                },
                _ => Some(TokenKind::Op(Op::Not)),
            },
            '>' => match self.peek() {
                Some('=') => {
                    self.bump();
                    Some(TokenKind::Op(Op::GreaterThanOrEqual))
                },
                Some('>') => {
                    self.bump();
                    Some(TokenKind::Op(Op::ShiftRight))
                },
                _ => Some(TokenKind::Op(Op::GreaterThan)),
            },
            '<' => match self.peek() {
                Some('=') => {
                    self.bump();
                    Some(TokenKind::Op(Op::LessThanOrEqual))
                },
                Some('<') => {
                    self.bump();
                    Some(TokenKind::Op(Op::ShiftLeft))
                },
                _ => Some(TokenKind::Op(Op::LessThan)),
            },
            '&' => match self.peek() {
                Some('&') => {
                    self.bump();
                    Some(TokenKind::Op(Op::And))
                },
                _ => Some(TokenKind::Op(Op::BitAnd)),
            },
            '|' => match self.peek() {
                Some('|') => {
                    self.bump();
                    Some(TokenKind::Op(Op::Or))
                },
                Some('>') => {
                    self.bump();
                    Some(TokenKind::Op(Op::Pipe))
                },
                _ => Some(TokenKind::Op(Op::BitOr)),
            },
            '^' => Some(TokenKind::Op(Op::BitXor)),
            '~' => Some(TokenKind::Op(Op::BitNot)),
            _ => None,
        }
    }

    /// Reads the body and the closing quote of a string literal whose opening
    /// quote was read last. Where the text ends before the literal does,
    /// there is no token, and the cursor stands at the end.
    fn string_literal(&mut self) -> (r: Option<TokenKind>)
        requires
            old(self).index() >= 1,
        ensures
            final(self).source() == old(self).source(),
            match scan_string(old(self).source(), old(self).index() - 1) {
                Scan::Token { kind, start, end } => {
                    &&& r is Some
                    &&& r->0@ == kind
                    &&& final(self).index() == end
                },
                _ => r is None && final(self).index() == old(self).source().len(),
            },
    {
        let mut state = StringParser::new();
        let mut text = String::new();
        let ghost body = self.index() as int;
        proof {
            use_type_invariant(&*self);
        }
        loop
            invariant
                self.source() == old(self).source(),
                body == old(self).index(),
                body <= self.index() <= self.source().len(),
                string_end(self.source(), body, false) == string_end(
                    self.source(),
                    self.index() as int,
                    state@,
                ),
                text@ == self.source().subrange(body, self.index() as int),
            ensures
                self.index() == string_end(self.source(), body, false),
            decreases self.source().len() - self.index(),
        {
            match self.peek() {
                Some(c) => {
                    if state.condition(c) {
                        self.bump();
                        text.push(c);
                    } else {
                        break ;
                    }
                },
                None => {
                    break ;
                },
            }
        }
        match self.peek() {
            Some(_) => {
                self.bump();
                Some(TokenKind::String(text))
            },
            None => None,
        }
    }

    /// Reads the rest of the number whose first digit `c` was read last.
    /// `pos` is the place that an error message names.
    fn number(&mut self, c: char, pos: (usize, usize)) -> (r: Result<TokenKind, String>)
        requires
            old(self).index() >= 1,
            old(self).source()[old(self).index() - 1] == c,
            is_digit(c),
        ensures
            final(self).source() == old(self).source(),
            match scan_number(old(self).source(), old(self).index() - 1) {
                Scan::Token { kind, start, end } => {
                    &&& r is Ok
                    &&& r->Ok_0@ == kind
                    &&& final(self).index() == end
                },
                Scan::InvalidInteger { start, end } => {
                    &&& r is Err
                    &&& r->Err_0@ == invalid_integer_message(
                        old(self).source().subrange(start, end),
                        (pos.0 as nat, pos.1 as nat),
                    )
                    &&& final(self).index() == end
                },
                _ => false,
            },
    {
        let ghost s = self.source();
        let ghost start = self.index() - 1;
        proof {
            use_type_invariant(&*self);
        }
        let mut text = String::new();
        text.push(c);
        let digits = self.eat_while(is_digit);
        text.append(digits.as_str());
        let ghost whole = self.index() as int;
        proof {
            lemma_run_end_is(s, start + 1, whole, CharClass::Digit);
            assert(text@ =~= s.subrange(start, whole));
        }
        match self.peek() {
            Some('.') => {
                text.push('.');
                self.bump();
                let fraction = self.eat_while(is_digit);
                text.append(fraction.as_str());
                proof {
                    let end = self.index() as int;
                    lemma_run_end_is(s, whole + 1, end, CharClass::Digit);
                    assert(text@ =~= s.subrange(start, end));
                }
                Ok(TokenKind::Float(text))
            },
            _ => {
                match parse_integer(text.as_str()) {
                    Some(value) => Ok(TokenKind::Integer(value)),
                    None => {
                        let mut message = String::from_str("Invalid integer literal '");
                        message.append(text.as_str());
                        message.append("'");
                        Err(locate(message, pos))
                    },
                }
            },
        }
    }

    /// Reads the rest of the word whose first character `c` was read last.
    fn word(&mut self, c: char) -> (r: TokenKind)
        requires
            old(self).index() >= 1,
            old(self).source()[old(self).index() - 1] == c,
        ensures
            final(self).source() == old(self).source(),
            scan_word(old(self).source(), old(self).index() - 1) == (Scan::Token {
                kind: r@,
                start: old(self).index() - 1,
                end: final(self).index() as int,
            }),
    {
        let ghost s = self.source();
        let ghost start = self.index() - 1;
        proof {
            use_type_invariant(&*self);
        }
        let mut text = String::new();
        text.push(c);
        let rest = self.eat_while(is_word_part);
        text.append(rest.as_str());
        proof {
            lemma_run_end_is(s, start + 1, self.index() as int, CharClass::Word);
            assert(text@ =~= s.subrange(start, self.index() as int));
        }
        let word = text.as_str();
        if same_text(word, "be") {
            TokenKind::Be
        } else if same_text(word, "mut") {
            TokenKind::Mut
        } else if same_text(word, "if") {
            TokenKind::If
        } else if same_text(word, "else") {
            TokenKind::Else
        } else if same_text(word, "while") {
            TokenKind::While
        } else if same_text(word, "fn") {
            TokenKind::Fn
        } else if same_text(word, "return") {
            TokenKind::Return
        } else if same_text(word, "true") {
            TokenKind::Boolean(true)
        } else if same_text(word, "false") {
            TokenKind::Boolean(false)
        } else if same_text(word, "struct") {
            TokenKind::Struct
        } else if same_text(word, "enum") {
            TokenKind::Enum
        } else {
            TokenKind::Identifier(text)
        }
    }

    /// Reads the next token: passes over white space, then reads the token
    /// that starts at the first character that is none. Returns `None` where
    /// nothing but white space is left, and also where the text ends inside a
    /// string literal; an error message where the character starts no token
    /// or an integer literal is too large.
    pub fn next(&mut self) -> (r: Option<Result<Token, String>>)
        ensures
            final(self).source() == old(self).source(),
            old(self).index() <= final(self).index() <= old(self).source().len(),
            item_view(r) == lexed_item(old(self).source(), old(self).index() as int),
            final(self).index() == lexed_end(old(self).source(), old(self).index() as int),
            r is Some ==> final(self).index() > old(self).index(),
            r is None ==> final(self).index() == old(self).source().len(),
    {
        let ghost s = self.source();
        let ghost i = self.index() as int;
        proof {
            use_type_invariant(&*self);
        }
        self.eat_while(is_whitespace);
        let ghost start = self.index() as int;
        proof {
            lemma_run_end_is(s, i, start, CharClass::Space);
        }
        let c = match self.bump() {
            Some(c) => c,
            None => {
                return None;
            },
        };
        let pos = self.pos();
        match self.symbol(c) {
            Some(kind) => {
                return Some(Ok(Token { kind, pos }));
            },
            None => {},
        }
        if c == '"' {
            proof {
                lemma_string_end_bounds(s, start + 1, false);
            }
            match self.string_literal() {
                Some(kind) => Some(Ok(Token { kind, pos })),
                None => None,
            }
        } else if is_digit(c) {
            proof {
                lemma_run_end_bounds(s, start + 1, CharClass::Digit);
                let whole = run_end(s, start + 1, CharClass::Digit);
                if whole < s.len() {
                    lemma_run_end_bounds(s, whole + 1, CharClass::Digit);
                }
            }
            match self.number(c, pos) {
                Ok(kind) => Some(Ok(Token { kind, pos })),
                Err(message) => Some(Err(message)),
            }
        } else if is_word_start(c) {
            proof {
                lemma_run_end_bounds(s, start + 1, CharClass::Word);
            }
            let kind = self.word(c);
            Some(Ok(Token { kind, pos }))
        } else {
            let mut message = String::from_str("Unexpected character '");
            message.push(c);
            message.append("'");
            proof {
                assert(message@ =~= "Unexpected character '"@ + seq![c] + "'"@);
            }
            Some(Err(locate(message, pos)))
        }
    }
}

/// Lexes a whole text: its tokens in order, or the message of the first
/// lexical error. A string literal that is never closed ends the tokens
/// without an error.
pub fn tokenize(input: &str) -> (r: Result<Vec<Token>, String>)
    requires
        input@.len() < usize::MAX,
    ensures
        tokenized_view(r) == lexed_from(input@, 0),
{
    let mut cursor = LexerCursor::new(input);
    let mut tokens: Vec<Token> = Vec::new();
    let ghost s = input@;
    proof {
        lemma_tokens_then_nothing(lexed_from(s, 0));
    }
    loop
        invariant
            s == input@,
            cursor.source() == s,
            cursor.index() <= s.len(),
            lexed_from(s, 0) == tokens_then(
                token_views(tokens@),
                lexed_from(s, cursor.index() as int),
            ),
        decreases s.len() - cursor.index(),
    {
        let ghost i = cursor.index() as int;
        let ghost read = token_views(tokens@);
        match cursor.next() {
            None => {
                return Ok(tokens);
            },
            Some(Err(message)) => {
                return Err(message);
            },
            Some(Ok(token)) => {
                tokens.push(token);
                proof {
                    let rest = lexed_from(s, lexed_end(s, i));
                    assert(token_views(tokens@) =~= read + seq![token@]);
                    if rest is Ok {
                        assert((read + seq![token@]) + rest->Ok_0 =~= read + (seq![token@]
                            + rest->Ok_0));
                    }
                }
            },
        }
    }
}

/// Nothing read, followed by a result, is that result.
proof fn lemma_tokens_then_nothing(rest: Result<Seq<TokenView>, Seq<char>>)
    ensures
        tokens_then(Seq::empty(), rest) == rest,
{
    if rest is Ok {
        assert(Seq::<TokenView>::empty() + rest->Ok_0 =~= rest->Ok_0);
    }
}

} // verus!
