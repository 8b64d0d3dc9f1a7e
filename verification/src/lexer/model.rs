//! What lexing is: the place of the cursor, the runs of characters that
//! tokens are made of, and what the lexer finds at each index of a text.

use crate::lexer::types::{escapes_next, string_continues, Atom, Lexeme, Op, TokenView};
use crate::text::{digits_value, is_digit, is_whitespace, is_word_part, is_word_start, located};
use crate::tokentree::GroupMode;
use vstd::prelude::*;

verus! {

/// The place of the cursor after it has read the character `c` at place `p`:
/// a newline starts the next line at column 0, any other character moves one
/// column on.
pub open spec fn advance(p: (nat, nat), c: char) -> (nat, nat) {
    if c == '\n' {
        ((p.0 + 1) as nat, 0)
    } else {
        (p.0, (p.1 + 1) as nat)
    }
}

/// The place (line, column) of the cursor once it has read the first `n`
/// characters of `s`. Reading starts at line 1, column 0.
pub open spec fn position_after(s: Seq<char>, n: nat) -> (nat, nat)
    decreases n,
{
    if n == 0 {
        (1, 0)
    } else {
        advance(position_after(s, (n - 1) as nat), s[n - 1])
    }
}

/// Neither the line nor the column can outrun the number of characters read.
pub proof fn lemma_position_bounds(s: Seq<char>, n: nat)
    ensures
        1 <= position_after(s, n).0 <= n + 1,
        position_after(s, n).1 <= n,
    decreases n,
{
    if n > 0 {
        lemma_position_bounds(s, (n - 1) as nat);
    }
}

/// The classes of characters that the lexer reads in runs.
pub enum CharClass {
    /// White space, newlines included.
    Space,
    /// ASCII digits.
    Digit,
    /// What a word may continue with: ASCII letters, digits, the underscore.
    Word,
}

/// Whether the character `c` is of the class `class`.
pub open spec fn accepts(class: CharClass, c: char) -> bool {
    match class {
        CharClass::Space => is_whitespace(c),
        CharClass::Digit => is_digit(c),
        CharClass::Word => is_word_part(c),
    }
}

/// Where the run of characters of `class` that starts at index `i` ends: the
/// index of the first character from `i` on that is not of the class, or the
/// length of `s` where there is none.
pub open spec fn run_end(s: Seq<char>, i: int, class: CharClass) -> int
    decreases s.len() - i,
{
    if 0 <= i < s.len() && accepts(class, s[i]) {
        run_end(s, i + 1, class)
    } else {
        i
    }
}

/// Where the body of a string literal ends, read from index `i` on, with
/// `escaped` saying whether the character at `i` is escaped: the index of the
/// closing quote, or the length of `s` where the literal is never closed.
pub open spec fn string_end(s: Seq<char>, i: int, escaped: bool) -> int
    decreases s.len() - i,
{
    if 0 <= i < s.len() && string_continues(escaped, s[i]) {
        string_end(s, i + 1, escapes_next(escaped, s[i]))
    } else {
        i
    }
}

/// The punctuation marks, brackets and operators that are one character long.
pub open spec fn single_symbol(c: char) -> Option<Lexeme> {
    if c == ',' {
        Some(Lexeme::Atom(Atom::Comma))
    } else if c == ':' {
        Some(Lexeme::Atom(Atom::Colon))
    } else if c == ';' {
        Some(Lexeme::Atom(Atom::SemiColon))
    } else if c == '(' {
        Some(Lexeme::Open(GroupMode::Parens))
    } else if c == ')' {
        Some(Lexeme::Close(GroupMode::Parens))
    } else if c == '{' {
        Some(Lexeme::Open(GroupMode::Curly))
    } else if c == '}' {
        Some(Lexeme::Close(GroupMode::Curly))
    } else if c == '[' {
        Some(Lexeme::Open(GroupMode::Bracket))
    } else if c == ']' {
        Some(Lexeme::Close(GroupMode::Bracket))
    } else if c == '+' {
        Some(Lexeme::Atom(Atom::Op(Op::Plus)))
    } else if c == '-' {
        Some(Lexeme::Atom(Atom::Op(Op::Minus)))
    } else if c == '*' {
        Some(Lexeme::Atom(Atom::Op(Op::Multiply)))
    } else if c == '/' {
        Some(Lexeme::Atom(Atom::Op(Op::Divide)))
    } else if c == '%' {
        Some(Lexeme::Atom(Atom::Op(Op::Modulo)))
    } else if c == '=' {
        Some(Lexeme::Atom(Atom::Op(Op::Equal)))
    } else if c == '!' {
        Some(Lexeme::Atom(Atom::Op(Op::Not)))
    } else if c == '>' {
        Some(Lexeme::Atom(Atom::Op(Op::GreaterThan)))
    } else if c == '<' {
        Some(Lexeme::Atom(Atom::Op(Op::LessThan)))
    } else if c == '&' {
        Some(Lexeme::Atom(Atom::Op(Op::BitAnd)))
    } else if c == '|' {
        Some(Lexeme::Atom(Atom::Op(Op::BitOr)))
    } else if c == '^' {
        Some(Lexeme::Atom(Atom::Op(Op::BitXor)))
    } else if c == '~' {
        Some(Lexeme::Atom(Atom::Op(Op::BitNot)))
    } else {
        None
    }
}

/// The operators that are two characters long.
pub open spec fn double_symbol(c: char, d: char) -> Option<Op> {
    if c == '=' && d == '=' {
        Some(Op::EqualTo)
    } else if c == '!' && d == '=' {
        Some(Op::NotEqual)
    } else if c == '>' && d == '=' {
        Some(Op::GreaterThanOrEqual)
    } else if c == '>' && d == '>' {
        Some(Op::ShiftRight)
    } else if c == '<' && d == '=' {
        Some(Op::LessThanOrEqual)
    } else if c == '<' && d == '<' {
        Some(Op::ShiftLeft)
    } else if c == '&' && d == '&' {
        Some(Op::And)
    } else if c == '|' && d == '|' {
        Some(Op::Or)
    } else if c == '|' && d == '>' {
        Some(Op::Pipe)
    } else {
        None
    }
}

/// The symbol that starts at index `start`, with the index at which it ends:
/// the longest one that the text spells there.
pub open spec fn symbol_at(s: Seq<char>, start: int) -> Option<(Lexeme, int)>
    recommends
        0 <= start < s.len(),
{
    if start + 1 < s.len() && double_symbol(s[start], s[start + 1]) is Some {
        Some((Lexeme::Atom(Atom::Op(double_symbol(s[start], s[start + 1])->0)), start + 2))
    } else if single_symbol(s[start]) is Some {
        Some((single_symbol(s[start])->0, start + 1))
    } else {
        None
    }
}

/// What a word stands for: a keyword, a boolean literal, or else an
/// identifier that holds the word itself.
pub open spec fn word_atom(word: Seq<char>) -> Atom {
    if word == "be"@ {
        Atom::Be
    } else if word == "mut"@ {
        Atom::Mut
    } else if word == "if"@ {
        Atom::If
    } else if word == "else"@ {
        Atom::Else
    } else if word == "while"@ {
        Atom::While
    } else if word == "fn"@ {
        Atom::Fn
    } else if word == "return"@ {
        Atom::Return
    } else if word == "true"@ {
        Atom::Boolean(true)
    } else if word == "false"@ {
        Atom::Boolean(false)
    } else if word == "struct"@ {
        Atom::Struct
    } else if word == "enum"@ {
        Atom::Enum
    } else {
        Atom::Identifier(word)
    }
}

/// What the lexer finds when it looks for the next token.
pub enum Scan {
    /// Nothing but white space is left.
    End,
    /// A string literal opens at `start` and is never closed.
    Unterminated { start: int },
    /// A token of kind `kind` that spans the indices from `start` up to, and
    /// not including, `end`.
    Token { kind: Lexeme, start: int, end: int },
    /// The character at `start` starts no token.
    UnexpectedChar { start: int },
    /// The digits from `start` up to `end` denote a number that does not fit
    /// in 64 bits with a sign.
    InvalidInteger { start: int, end: int },
}

/// The string literal whose opening quote is at `start`. Its text is what
/// stands between the quotes, escapes kept as written.
pub open spec fn scan_string(s: Seq<char>, start: int) -> Scan {
    let close = string_end(s, start + 1, false);
    if close < s.len() {
        Scan::Token {
            kind: Lexeme::Atom(Atom::Str(s.subrange(start + 1, close))),
            start,
            end: close + 1,
        }
    } else {
        Scan::Unterminated { start }
    }
}

/// The number whose first digit is at `start`: a run of digits; where a
/// point follows it at once, the point and the digits after it belong to the
/// number too, which is then a float.
pub open spec fn scan_number(s: Seq<char>, start: int) -> Scan {
    let whole = run_end(s, start + 1, CharClass::Digit);
    if whole < s.len() && s[whole] == '.' {
        let end = run_end(s, whole + 1, CharClass::Digit);
        Scan::Token { kind: Lexeme::Atom(Atom::Float(s.subrange(start, end))), start, end }
    } else if digits_value(s.subrange(start, whole)) <= i64::MAX {
        Scan::Token {
            kind: Lexeme::Atom(Atom::Integer(digits_value(s.subrange(start, whole)) as int)),
            start,
            end: whole,
        }
    } else {
        Scan::InvalidInteger { start, end: whole }
    }
}

/// The word whose first character is at `start`.
pub open spec fn scan_word(s: Seq<char>, start: int) -> Scan {
    let end = run_end(s, start + 1, CharClass::Word);
    Scan::Token { kind: Lexeme::Atom(word_atom(s.subrange(start, end))), start, end }
}

/// What starts at index `start`, where a character that is not white space
/// stands.
pub open spec fn scan_token(s: Seq<char>, start: int) -> Scan
    recommends
        0 <= start < s.len(),
{
    match symbol_at(s, start) {
        Some((kind, end)) => Scan::Token { kind, start, end },
        None => if s[start] == '"' {
            scan_string(s, start)
        } else if is_digit(s[start]) {
            scan_number(s, start)
        } else if is_word_start(s[start]) {
            scan_word(s, start)
        } else {
            Scan::UnexpectedChar { start }
        },
    }
}

/// What the lexer finds from index `i` on: white space is passed over, and
/// the token starts at the first character that is none.
pub open spec fn scan(s: Seq<char>, i: int) -> Scan {
    let start = run_end(s, i, CharClass::Space);
    if start >= s.len() {
        Scan::End
    } else {
        scan_token(s, start)
    }
}

/// The place that a token which starts at index `start` is given: that of
/// the cursor once it has read the token's first character.
pub open spec fn token_position(s: Seq<char>, start: int) -> (nat, nat) {
    position_after(s, (start + 1) as nat)
}

/// The message for a character that starts no token.
pub open spec fn unexpected_character_message(c: char, pos: (nat, nat)) -> Seq<char> {
    located("Unexpected character '"@ + seq![c] + "'"@, pos)
}

/// The message for an integer literal that does not fit in 64 bits with a
/// sign.
pub open spec fn invalid_integer_message(digits: Seq<char>, pos: (nat, nat)) -> Seq<char> {
    located("Invalid integer literal '"@ + digits + "'"@, pos)
}

/// What one step of the lexer yields from index `i` on: a token, an error
/// message, or nothing where the text is used up or ends inside a string
/// literal.
pub open spec fn lexed_item(s: Seq<char>, i: int) -> Option<Result<TokenView, Seq<char>>> {
    match scan(s, i) {
        Scan::End => None,
        Scan::Unterminated { start } => None,
        Scan::Token { kind, start, end } => Some(
            Ok(TokenView { kind, pos: token_position(s, start) }),
        ),
        Scan::UnexpectedChar { start } => Some(
            Err(unexpected_character_message(s[start], token_position(s, start))),
        ),
        Scan::InvalidInteger { start, end } => Some(
            Err(invalid_integer_message(s.subrange(start, end), token_position(s, start))),
        ),
    }
}

/// How far one step of the lexer reads from index `i` on.
pub open spec fn lexed_end(s: Seq<char>, i: int) -> int {
    match scan(s, i) {
        Scan::End => s.len() as int,
        Scan::Unterminated { start } => s.len() as int,
        Scan::Token { kind, start, end } => end,
        Scan::UnexpectedChar { start } => start + 1,
        Scan::InvalidInteger { start, end } => end,
    }
}

/// A run ends at `j` where every character from `i` up to `j` is of the
/// class and the one at `j`, if there is one, is not.
pub proof fn lemma_run_end_is(s: Seq<char>, i: int, j: int, class: CharClass)
    requires
        0 <= i <= j <= s.len(),
        forall|k: int| i <= k < j ==> accepts(class, #[trigger] s[k]),
        j < s.len() ==> !accepts(class, s[j]),
    ensures
        run_end(s, i, class) == j,
    decreases j - i,
{
    if i < j {
        lemma_run_end_is(s, i + 1, j, class);
    }
}

/// A run is made of characters of its class and stops at one that is not.
pub proof fn lemma_run_end_bounds(s: Seq<char>, i: int, class: CharClass)
    requires
        0 <= i <= s.len(),
    ensures
        i <= run_end(s, i, class) <= s.len(),
        forall|k: int| i <= k < run_end(s, i, class) ==> accepts(class, #[trigger] s[k]),
        run_end(s, i, class) < s.len() ==> !accepts(class, s[run_end(s, i, class)]),
    decreases s.len() - i,
{
    if i < s.len() && accepts(class, s[i]) {
        lemma_run_end_bounds(s, i + 1, class);
    }
}

/// The body of a string literal ends at or after the index it is read from,
/// and within the text.
pub proof fn lemma_string_end_bounds(s: Seq<char>, i: int, escaped: bool)
    requires
        0 <= i <= s.len(),
    ensures
        i <= string_end(s, i, escaped) <= s.len(),
    decreases s.len() - i,
{
    if i < s.len() && string_continues(escaped, s[i]) {
        lemma_string_end_bounds(s, i + 1, escapes_next(escaped, s[i]));
    }
}

/// A token is never empty and lies within the text, at or after the index
/// from which it was looked for; so does whatever else the lexer finds.
pub proof fn lemma_scan_bounds(s: Seq<char>, i: int)
    requires
        0 <= i <= s.len(),
    ensures
        match scan(s, i) {
            Scan::End => true,
            Scan::Unterminated { start } => i <= start < s.len(),
            Scan::Token { kind, start, end } => i <= start < end <= s.len(),
            Scan::UnexpectedChar { start } => i <= start < s.len(),
            Scan::InvalidInteger { start, end } => i <= start < end <= s.len(),
        },
        i <= lexed_end(s, i) <= s.len(),
        lexed_item(s, i) is Some ==> i < lexed_end(s, i),
{
    lemma_run_end_bounds(s, i, CharClass::Space);
    let start = run_end(s, i, CharClass::Space);
    if start < s.len() {
        lemma_string_end_bounds(s, start + 1, false);
        lemma_run_end_bounds(s, start + 1, CharClass::Digit);
        let whole = run_end(s, start + 1, CharClass::Digit);
        if whole < s.len() {
            lemma_run_end_bounds(s, whole + 1, CharClass::Digit);
        }
        lemma_run_end_bounds(s, start + 1, CharClass::Word);
    }
}

/// What a whole text lexes to from index `i` on: its tokens in order, or
/// the message of the first error. Lexing ends where a step yields nothing.
pub open spec fn lexed_from(s: Seq<char>, i: int) -> Result<Seq<TokenView>, Seq<char>>
    decreases s.len() - i,
    when 0 <= i <= s.len()
    via lexed_from_decreases
{
    match lexed_item(s, i) {
        None => Ok(Seq::empty()),
        Some(Err(message)) => Err(message),
        Some(Ok(token)) => match lexed_from(s, lexed_end(s, i)) {
            Ok(rest) => Ok(seq![token] + rest),
            Err(message) => Err(message),
        },
    }
}

/// Each step that yields a token or an error reads at least one character.
#[via_fn]
proof fn lexed_from_decreases(s: Seq<char>, i: int) {
    lemma_scan_bounds(s, i);
}

} // verus!
