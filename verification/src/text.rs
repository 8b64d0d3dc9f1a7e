//! Characters and strings: the character classes the lexer reads by, decimal
//! rendering of numbers for diagnostics, and the few string operations that
//! the standard library offers without a specification.

use vstd::prelude::*;
use vstd::string::StringExecFns;

verus! {

/// `std::string::String::push` appends one character to the end of the string.
pub assume_specification[ std::string::String::push ](s: &mut std::string::String, ch: char)
    ensures
        final(s)@ == old(s)@.push(ch),
;

/// A text as `std::fmt::Debug` prints it: between double quotes, with
/// escapes for quotes, backslashes and the characters that do not print.
pub uninterp spec fn debug_quoted(text: Seq<char>) -> Seq<char>;

/// The `Debug` form of `text`. This is what `format!("{:?}", text)` returns
/// for a `str`; which characters it escapes, and how, is left to the
/// standard library, and only named here.
#[verifier::external_body]
pub(crate) fn quoted(text: &str) -> (r: String)
    ensures
        r@ == debug_quoted(text@),
{
    format!("{:?}", text)
}

/// The characters with the Unicode property `White_Space`.
pub open spec fn spec_is_whitespace(c: char) -> bool {
    ||| '\u{9}' <= c <= '\u{D}'
    ||| c == ' '
    ||| c == '\u{85}'
    ||| c == '\u{A0}'
    ||| c == '\u{1680}'
    ||| '\u{2000}' <= c <= '\u{200A}'
    ||| c == '\u{2028}'
    ||| c == '\u{2029}'
    ||| c == '\u{202F}'
    ||| c == '\u{205F}'
    ||| c == '\u{3000}'
}

/// Whether `c` is white space.
#[verifier::when_used_as_spec(spec_is_whitespace)]
pub fn is_whitespace(c: char) -> (r: bool)
    ensures
        r == spec_is_whitespace(c),
{
    ('\u{9}' <= c && c <= '\u{D}') || c == ' ' || c == '\u{85}' || c == '\u{A0}' || c
        == '\u{1680}' || ('\u{2000}' <= c && c <= '\u{200A}') || c == '\u{2028}' || c
        == '\u{2029}' || c == '\u{202F}' || c == '\u{205F}' || c == '\u{3000}'
}

/// The ten ASCII digits.
pub open spec fn spec_is_digit(c: char) -> bool {
    '0' <= c <= '9'
}

/// Whether `c` is an ASCII digit.
#[verifier::when_used_as_spec(spec_is_digit)]
pub fn is_digit(c: char) -> (r: bool)
    ensures
        r == spec_is_digit(c),
{
    '0' <= c && c <= '9'
}

/// The characters that may start a word: ASCII letters and the underscore.
pub open spec fn spec_is_word_start(c: char) -> bool {
    'a' <= c <= 'z' || 'A' <= c <= 'Z' || c == '_'
}

/// Whether `c` may start a word.
#[verifier::when_used_as_spec(spec_is_word_start)]
pub fn is_word_start(c: char) -> (r: bool)
    ensures
        r == spec_is_word_start(c),
{
    ('a' <= c && c <= 'z') || ('A' <= c && c <= 'Z') || c == '_'
}

/// The characters that may continue a word: ASCII letters, digits and the
/// underscore.
pub open spec fn spec_is_word_part(c: char) -> bool {
    spec_is_word_start(c) || spec_is_digit(c)
}

/// Whether `c` may continue a word.
#[verifier::when_used_as_spec(spec_is_word_part)]
pub fn is_word_part(c: char) -> (r: bool)
    ensures
        r == spec_is_word_part(c),
{
    is_word_start(c) || is_digit(c)
}

/// The value of an ASCII digit.
pub open spec fn digit_value(c: char) -> nat
    recommends
        spec_is_digit(c),
{
    (c as nat - '0' as nat) as nat
}

/// The ASCII digit that stands for `d`.
pub open spec fn digit_char(d: nat) -> char
    recommends
        d < 10,
{
    (('0' as u8 + d) as u8) as char
}

/// The decimal numeral of `n`, without leading zeros.
pub open spec fn decimal(n: nat) -> Seq<char>
    decreases n,
{
    if n < 10 {
        seq![digit_char(n)]
    } else {
        decimal(n / 10).push(digit_char(n % 10))
    }
}

/// The decimal numeral of an integer, with a minus sign when it is negative.
pub open spec fn signed_decimal(v: int) -> Seq<char> {
    if v < 0 {
        seq!['-'] + decimal((-v) as nat)
    } else {
        decimal(v as nat)
    }
}

/// The number that a sequence of ASCII digits denotes in base ten.
pub open spec fn digits_value(digits: Seq<char>) -> nat
    decreases digits.len(),
{
    if digits.len() == 0 {
        0
    } else {
        digits_value(digits.drop_last()) * 10 + digit_value(digits.last())
    }
}

/// The ASCII digit that stands for `d`.
fn digit_of(d: u64) -> (r: char)
    requires
        d < 10,
    ensures
        r == digit_char(d as nat),
{
    ('0' as u8 + d as u8) as char
}

/// Appends the decimal numeral of `n` to `out`.
pub fn push_decimal(out: &mut String, n: u64)
    ensures
        final(out)@ == old(out)@ + decimal(n as nat),
    decreases n,
{
    if n >= 10 {
        push_decimal(out, n / 10);
    }
    out.push(digit_of(n % 10));
}

/// Appends the decimal numeral of `v` to `out`, with its sign.
pub fn push_signed_decimal(out: &mut String, v: i64)
    ensures
        final(out)@ == old(out)@ + signed_decimal(v as int),
{
    if v < 0 {
        out.push('-');
        let magnitude: u64 = (-(v + 1)) as u64 + 1;
        push_decimal(out, magnitude);
    } else {
        push_decimal(out, v as u64);
    }
}

/// A message followed by the place it speaks of: the shape of every
/// diagnostic that names a line and a column. Proofs that go by the
/// characters of a diagnostic reveal it; the others are spared them.
#[verifier::opaque]
pub open spec fn located(message: Seq<char>, pos: (nat, nat)) -> Seq<char> {
    message + " at line "@ + decimal(pos.0) + ", column "@ + decimal(pos.1)
}

/// Appends the place `pos` to `message`.
pub fn locate(message: String, pos: (usize, usize)) -> (r: String)
    ensures
        r@ == located(message@, (pos.0 as nat, pos.1 as nat)),
{
    proof {
        reveal(located);
    }
    let mut out = message;
    out.append(" at line ");
    push_decimal(&mut out, pos.0 as u64);
    out.append(", column ");
    push_decimal(&mut out, pos.1 as u64);
    out
}

/// Whether two texts hold the same characters. The cost grows with the
/// square of the length where the lengths agree.
pub fn same_text(a: &str, b: &str) -> (r: bool)
    ensures
        r == (a@ == b@),
{
    let n = a.unicode_len();
    if n != b.unicode_len() {
        return false;
    }
    let mut i: usize = 0;
    while i < n
        invariant
            n == a@.len(),
            n == b@.len(),
            i <= n,
            forall|k: int| 0 <= k < i ==> a@[k] == b@[k],
        decreases n - i,
    {
        if a.get_char(i) != b.get_char(i) {
            return false;
        }
        i += 1;
    }
    assert(a@ =~= b@);
    true
}

/// Every character of `digits` is an ASCII digit.
pub open spec fn all_digits(digits: Seq<char>) -> bool {
    forall|k: int| 0 <= k < digits.len() ==> spec_is_digit(#[trigger] digits[k])
}

/// A longer numeral does not denote a smaller number.
pub proof fn lemma_digits_value_grows(digits: Seq<char>, n: int)
    requires
        0 <= n <= digits.len(),
    ensures
        digits_value(digits.take(n)) <= digits_value(digits),
    decreases digits.len() - n,
{
    if n == digits.len() {
        assert(digits.take(n) =~= digits);
    } else {
        lemma_digits_value_grows(digits, n + 1);
        assert(digits.take(n + 1).drop_last() =~= digits.take(n));
    }
}

/// The number that `text` denotes, where `text` is a decimal numeral, one
/// digit or more and nothing else, of a number that fits in 64 bits with a
/// sign.
pub fn parse_integer(text: &str) -> (r: Option<i64>)
    ensures
        r == if text@.len() > 0 && all_digits(text@) && digits_value(text@) <= i64::MAX {
            Some(digits_value(text@) as i64)
        } else {
            None
        },
{
    let mut value: i64 = 0;
    let mut empty = true;
    for c in it: text.chars()
        invariant
            it.seq() == text@,
            empty == (it.index() == 0),
            all_digits(text@.take(it.index())),
            value == digits_value(text@.take(it.index())),
    {
        let ghost k = it.index();
        if !is_digit(c) {
            return None;
        }
        let digit: i64 = (c as u32 - '0' as u32) as i64;
        proof {
            assert(text@.take(k + 1).drop_last() =~= text@.take(k));
            lemma_digits_value_grows(text@, k + 1);
        }
        if value > (i64::MAX - digit) / 10 {
            return None;
        }
        value = value * 10 + digit;
        empty = false;
    }
    proof {
        assert(text@.take(text@.len() as int) =~= text@);
    }
    if empty {
        None
    } else {
        Some(value)
    }
}

/// The characters of `s`, in order.
pub fn chars_of(s: &str) -> (r: Vec<char>)
    ensures
        r@ == s@,
{
    let mut out: Vec<char> = Vec::new();
    for c in it: s.chars()
        invariant
            it.seq() == s@,
            out@ == s@.take(it.index()),
    {
        out.push(c);
    }
    out
}

} // verus!
