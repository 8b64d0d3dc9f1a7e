use be_syntax::text::{
    chars_of, is_digit, is_whitespace, is_word_part, is_word_start, locate, parse_integer,
    push_decimal, push_signed_decimal, same_text,
};

#[test]
fn whitespace_agrees_with_std_on_every_char() {
    let mut code: u32 = 0;
    while code <= 0x10FFFF {
        if let Some(c) = char::from_u32(code) {
            assert_eq!(is_whitespace(c), c.is_whitespace(), "U+{:04X}", code);
        }
        code += 1;
    }
}

#[test]
fn ascii_classes_agree_with_std_on_every_char() {
    let mut code: u32 = 0;
    while code <= 0x10FFFF {
        if let Some(c) = char::from_u32(code) {
            assert_eq!(is_digit(c), c.is_ascii_digit(), "U+{:04X}", code);
            assert_eq!(is_word_start(c), c.is_ascii_alphabetic() || c == '_', "U+{:04X}", code);
            assert_eq!(is_word_part(c), c.is_ascii_alphanumeric() || c == '_', "U+{:04X}", code);
        }
        code += 1;
    }
}

#[test]
fn whitespace_examples() {
    assert!(is_whitespace(' '));
    assert!(is_whitespace('\n'));
    assert!(is_whitespace('\t'));
    assert!(is_whitespace('\r'));
    assert!(is_whitespace('\u{3000}'));
    assert!(!is_whitespace('a'));
    assert!(!is_whitespace('\u{200B}'));
}

#[test]
fn decimal_of_small_and_large_numbers() {
    for n in [0u64, 1, 9, 10, 11, 99, 100, 101, 1234567890, u64::MAX] {
        let mut out = String::new();
        push_decimal(&mut out, n);
        assert_eq!(out, n.to_string());
    }
}

#[test]
fn decimal_is_appended_to_what_is_there() {
    let mut out = String::from("n = ");
    push_decimal(&mut out, 407);
    assert_eq!(out, "n = 407");
}

#[test]
fn signed_decimal_of_both_signs() {
    for v in [0i64, 1, -1, 9, -9, 10, -10, 12345, -12345, i64::MAX, i64::MIN] {
        let mut out = String::new();
        push_signed_decimal(&mut out, v);
        assert_eq!(out, v.to_string());
    }
}

#[test]
fn parse_integer_reads_what_fits() {
    assert_eq!(parse_integer("0"), Some(0));
    assert_eq!(parse_integer("12"), Some(12));
    assert_eq!(parse_integer("007"), Some(7));
    assert_eq!(parse_integer("9223372036854775807"), Some(i64::MAX));
    assert_eq!(parse_integer("0000000000000000000000009223372036854775807"), Some(i64::MAX));
}

#[test]
fn parse_integer_refuses_what_does_not_fit() {
    assert_eq!(parse_integer("9223372036854775808"), None);
    assert_eq!(parse_integer("9223372036854775810"), None);
    assert_eq!(parse_integer("10000000000000000000"), None);
    assert_eq!(parse_integer("99999999999999999999999999999999"), None);
}

#[test]
fn parse_integer_refuses_what_is_no_numeral() {
    assert_eq!(parse_integer(""), None);
    assert_eq!(parse_integer("12a"), None);
    assert_eq!(parse_integer("a12"), None);
    assert_eq!(parse_integer("-5"), None);
    assert_eq!(parse_integer("1 2"), None);
    assert_eq!(parse_integer("١٢"), None);
}

#[test]
fn parse_integer_agrees_with_std() {
    for text in ["1", "42", "1000000", "9223372036854775806", "18446744073709551615"] {
        assert_eq!(parse_integer(text), text.parse::<i64>().ok());
    }
}

#[test]
fn same_text_compares_characters() {
    assert!(same_text("", ""));
    assert!(same_text("be", "be"));
    assert!(!same_text("be", "bE"));
    assert!(!same_text("be", "bee"));
    assert!(!same_text("bee", "be"));
    assert!(same_text("été", "été"));
    assert!(!same_text("été", "ete"));
}

#[test]
fn chars_of_keeps_order_and_counts_characters_not_bytes() {
    assert_eq!(chars_of(""), Vec::<char>::new());
    assert_eq!(chars_of("a b"), vec!['a', ' ', 'b']);
    assert_eq!(chars_of("é\n"), vec!['é', '\n']);
}

#[test]
fn locate_appends_line_and_column() {
    assert_eq!(locate(String::from("Oops"), (3, 14)), "Oops at line 3, column 14");
    assert_eq!(locate(String::new(), (1, 0)), " at line 1, column 0");
}
