//! What holds of every text that is lexed.

use crate::lexer::model::{
    accepts, lemma_run_end_bounds, lemma_scan_bounds, lemma_string_end_bounds, run_end, scan,
    string_end, symbol_at, CharClass, Scan,
};
use crate::lexer::types::{escapes_next, string_continues};
use crate::text::is_digit;
use vstd::prelude::*;

verus! {

/// A run that ends at or before `stop` ends at the same character in the
/// piece of the text from `from` up to `stop`.
pub proof fn lemma_run_end_in_piece(s: Seq<char>, from: int, stop: int, i: int, class: CharClass)
    requires
        0 <= from <= i <= s.len(),
        run_end(s, i, class) <= stop <= s.len(),
    ensures
        run_end(s.subrange(from, stop), i - from, class) == run_end(s, i, class) - from,
    decreases s.len() - i,
{
    lemma_run_end_bounds(s, i, class);
    if i < s.len() && accepts(class, s[i]) {
        lemma_run_end_bounds(s, i + 1, class);
        lemma_run_end_in_piece(s, from, stop, i + 1, class);
    }
}

/// The body of a string literal that is closed before `stop` is closed by
/// the same quote in the piece of the text from `from` up to `stop`.
pub proof fn lemma_string_end_in_piece(
    s: Seq<char>,
    from: int,
    stop: int,
    i: int,
    escaped: bool,
)
    requires
        0 <= from <= i <= s.len(),
        string_end(s, i, escaped) < stop <= s.len(),
    ensures
        string_end(s.subrange(from, stop), i - from, escaped) == string_end(s, i, escaped)
            - from,
    decreases s.len() - i,
{
    lemma_string_end_bounds(s, i, escaped);
    if i < s.len() && string_continues(escaped, s[i]) {
        lemma_string_end_bounds(s, i + 1, escapes_next(escaped, s[i]));
        lemma_string_end_in_piece(s, from, stop, i + 1, escapes_next(escaped, s[i]));
    }
}

/// Lexing a token again from the text it was read from gives the same kind
/// of token. Take any text `s` in which the lexer, looking from index `i`
/// on, finds a token. Cut out the piece that starts at the token's first
/// character and ends at `stop`, anywhere from the token's end on: the end
/// of the token itself, the start of the token after it, or the end of the
/// text. The lexer finds in that piece, at its very start, a token of the
/// same kind and the same length.
pub proof fn lemma_relex_same_kind(s: Seq<char>, i: int, stop: int)
    requires
        0 <= i <= s.len(),
        scan(s, i) is Token,
        scan(s, i)->Token_end <= stop <= s.len(),
    ensures
        scan(s.subrange(scan(s, i)->Token_start, stop), 0) == (Scan::Token {
            kind: scan(s, i)->Token_kind,
            start: 0,
            end: scan(s, i)->Token_end - scan(s, i)->Token_start,
        }),
{
    lemma_scan_bounds(s, i);
    lemma_run_end_bounds(s, i, CharClass::Space);
    let start = scan(s, i)->Token_start;
    let end = scan(s, i)->Token_end;
    let piece = s.subrange(start, stop);
    if symbol_at(s, start) is Some {
        // The symbol lies within the piece, and no longer one is spelled there.
    } else if s[start] == '"' {
        let close = string_end(s, start + 1, false);
        lemma_string_end_bounds(s, start + 1, false);
        lemma_string_end_in_piece(s, start, stop, start + 1, false);
        assert(piece.subrange(1, close - start) =~= s.subrange(start + 1, close));
    } else if is_digit(s[start]) {
        let whole = run_end(s, start + 1, CharClass::Digit);
        lemma_run_end_bounds(s, start + 1, CharClass::Digit);
        if whole < s.len() && s[whole] == '.' {
            lemma_run_end_bounds(s, whole + 1, CharClass::Digit);
            lemma_run_end_in_piece(s, start, stop, whole + 1, CharClass::Digit);
        }
        lemma_run_end_in_piece(s, start, stop, start + 1, CharClass::Digit);
        assert(piece.subrange(0, end - start) =~= s.subrange(start, end));
    } else {
        lemma_run_end_in_piece(s, start, stop, start + 1, CharClass::Word);
        assert(piece.subrange(0, end - start) =~= s.subrange(start, end));
    }
}

} // verus!
