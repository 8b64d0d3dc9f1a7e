use be_syntax::lexer::types::{Op, StringParser, Token, TokenKind};
use be_syntax::lexer::{tokenize, LexerCursor};

fn kinds(input: &str) -> Vec<TokenKind> {
    tokenize(input).unwrap().into_iter().map(|t| t.kind).collect()
}

fn first_kind(input: &str) -> TokenKind {
    let mut cursor = LexerCursor::new(input);
    cursor.next().unwrap().unwrap().kind
}

fn float_value(kind: &TokenKind) -> f64 {
    match kind {
        TokenKind::Float(text) => text.parse::<f64>().unwrap(),
        other => panic!("not a float: {:?}", other),
    }
}

#[test]
fn integer_literal() {
    assert_eq!(first_kind("12"), TokenKind::Integer(12));
}

#[test]
fn float_literal() {
    let kind = first_kind("12.5");
    assert_eq!(kind, TokenKind::Float(String::from("12.5")));
    assert_eq!(float_value(&kind), 12.5);
}

#[test]
fn float_literal_with_empty_fraction() {
    let kind = first_kind("12.");
    assert_eq!(kind, TokenKind::Float(String::from("12.")));
    assert_eq!(float_value(&kind), 12.0);
}

#[test]
fn float_takes_one_point_only() {
    let mut cursor = LexerCursor::new("1.2.3");
    assert_eq!(cursor.next().unwrap().unwrap().kind, TokenKind::Float(String::from("1.2")));
    assert_eq!(
        cursor.next(),
        Some(Err(String::from("Unexpected character '.' at line 1, column 4")))
    );
}

#[test]
fn largest_integer_literal() {
    assert_eq!(first_kind("9223372036854775807"), TokenKind::Integer(i64::MAX));
}

#[test]
fn integer_literal_that_does_not_fit() {
    let mut cursor = LexerCursor::new("  9223372036854775808 x");
    assert_eq!(
        cursor.next(),
        Some(Err(String::from(
            "Invalid integer literal '9223372036854775808' at line 1, column 3"
        )))
    );
    assert_eq!(
        cursor.next(),
        Some(Ok(Token { kind: TokenKind::Identifier(String::from("x")), pos: (1, 23) }))
    );
    assert_eq!(cursor.next(), None);
}

#[test]
fn a_huge_float_literal_is_still_a_token() {
    let text = "1".repeat(400) + ".5";
    let kind = first_kind(&text);
    assert_eq!(kind, TokenKind::Float(text));
    assert!(float_value(&kind).is_infinite());
}

#[test]
fn punctuation_and_brackets() {
    assert_eq!(
        kinds(", : ; ( ) { } [ ]"),
        vec![
            TokenKind::Comma,
            TokenKind::Colon,
            TokenKind::SemiColon,
            TokenKind::LParen,
            TokenKind::RParen,
            TokenKind::LCurly,
            TokenKind::RCurly,
            TokenKind::LBracket,
            TokenKind::RBracket,
        ]
    );
}

#[test]
fn single_character_operators() {
    assert_eq!(
        kinds("+ - * / % = ! > < & | ^ ~"),
        vec![
            TokenKind::Op(Op::Plus),
            TokenKind::Op(Op::Minus),
            TokenKind::Op(Op::Multiply),
            TokenKind::Op(Op::Divide),
            TokenKind::Op(Op::Modulo),
            TokenKind::Op(Op::Equal),
            TokenKind::Op(Op::Not),
            TokenKind::Op(Op::GreaterThan),
            TokenKind::Op(Op::LessThan),
            TokenKind::Op(Op::BitAnd),
            TokenKind::Op(Op::BitOr),
            TokenKind::Op(Op::BitXor),
            TokenKind::Op(Op::BitNot),
        ]
    );
}

#[test]
fn two_character_operators() {
    assert_eq!(
        kinds("== != >= >> <= << && || |>"),
        vec![
            TokenKind::Op(Op::EqualTo),
            TokenKind::Op(Op::NotEqual),
            TokenKind::Op(Op::GreaterThanOrEqual),
            TokenKind::Op(Op::ShiftRight),
            TokenKind::Op(Op::LessThanOrEqual),
            TokenKind::Op(Op::ShiftLeft),
            TokenKind::Op(Op::And),
            TokenKind::Op(Op::Or),
            TokenKind::Op(Op::Pipe),
        ]
    );
}

#[test]
fn operators_take_the_longest_spelling_once() {
    assert_eq!(
        kinds("==="),
        vec![TokenKind::Op(Op::EqualTo), TokenKind::Op(Op::Equal)]
    );
    assert_eq!(
        kinds(">>="),
        vec![TokenKind::Op(Op::ShiftRight), TokenKind::Op(Op::Equal)]
    );
    assert_eq!(
        kinds("|>>"),
        vec![TokenKind::Op(Op::Pipe), TokenKind::Op(Op::GreaterThan)]
    );
    assert_eq!(kinds("=!"), vec![TokenKind::Op(Op::Equal), TokenKind::Op(Op::Not)]);
    assert_eq!(kinds("= ="), vec![TokenKind::Op(Op::Equal), TokenKind::Op(Op::Equal)]);
}

#[test]
fn keywords_and_booleans() {
    assert_eq!(
        kinds("be mut if else while fn return struct enum true false"),
        vec![
            TokenKind::Be,
            TokenKind::Mut,
            TokenKind::If,
            TokenKind::Else,
            TokenKind::While,
            TokenKind::Fn,
            TokenKind::Return,
            TokenKind::Struct,
            TokenKind::Enum,
            TokenKind::Boolean(true),
            TokenKind::Boolean(false),
        ]
    );
}

#[test]
fn keywords_are_case_sensitive_and_whole_words() {
    assert_eq!(
        kinds("Be bee _be be_ be1 True"),
        vec![
            TokenKind::Identifier(String::from("Be")),
            TokenKind::Identifier(String::from("bee")),
            TokenKind::Identifier(String::from("_be")),
            TokenKind::Identifier(String::from("be_")),
            TokenKind::Identifier(String::from("be1")),
            TokenKind::Identifier(String::from("True")),
        ]
    );
}

#[test]
fn identifiers() {
    assert_eq!(
        kinds("x _ _x1 snake_case CamelCase a1b2"),
        vec![
            TokenKind::Identifier(String::from("x")),
            TokenKind::Identifier(String::from("_")),
            TokenKind::Identifier(String::from("_x1")),
            TokenKind::Identifier(String::from("snake_case")),
            TokenKind::Identifier(String::from("CamelCase")),
            TokenKind::Identifier(String::from("a1b2")),
        ]
    );
}

#[test]
fn a_digit_starts_a_number_not_a_word() {
    assert_eq!(
        kinds("1abc"),
        vec![TokenKind::Integer(1), TokenKind::Identifier(String::from("abc"))]
    );
}

#[test]
fn string_literal_keeps_its_raw_text() {
    assert_eq!(first_kind("\"hello\""), TokenKind::String(String::from("hello")));
    assert_eq!(first_kind("\"\""), TokenKind::String(String::new()));
    assert_eq!(
        first_kind("\"a\\\"b\""),
        TokenKind::String(String::from("a\\\"b"))
    );
    assert_eq!(
        first_kind("\"a\\\\\" x"),
        TokenKind::String(String::from("a\\\\"))
    );
    assert_eq!(first_kind("\"two\nlines\""), TokenKind::String(String::from("two\nlines")));
}

#[test]
fn string_literal_is_followed_by_more_tokens() {
    assert_eq!(
        kinds("\"a\\\\\" x"),
        vec![
            TokenKind::String(String::from("a\\\\")),
            TokenKind::Identifier(String::from("x")),
        ]
    );
}

#[test]
fn unterminated_string_ends_the_tokens() {
    let mut cursor = LexerCursor::new("x \"abc");
    assert_eq!(
        cursor.next(),
        Some(Ok(Token { kind: TokenKind::Identifier(String::from("x")), pos: (1, 1) }))
    );
    assert_eq!(cursor.next(), None);
    assert_eq!(cursor.next(), None);
    assert_eq!(cursor.peek(), None);
    assert_eq!(kinds("x \"abc"), vec![TokenKind::Identifier(String::from("x"))]);
}

#[test]
fn string_that_ends_in_an_escape_is_unterminated() {
    let mut cursor = LexerCursor::new("\"abc\\\"");
    assert_eq!(cursor.next(), None);
    let mut cursor = LexerCursor::new("\"abc\\");
    assert_eq!(cursor.next(), None);
}

#[test]
fn unexpected_character() {
    let mut cursor = LexerCursor::new("x\n  @ y");
    assert!(cursor.next().unwrap().is_ok());
    assert_eq!(
        cursor.next(),
        Some(Err(String::from("Unexpected character '@' at line 2, column 3")))
    );
    assert_eq!(
        cursor.next(),
        Some(Ok(Token { kind: TokenKind::Identifier(String::from("y")), pos: (2, 5) }))
    );
}

#[test]
fn unexpected_character_outside_ascii() {
    assert_eq!(
        tokenize("é"),
        Err(String::from("Unexpected character 'é' at line 1, column 1"))
    );
}

#[test]
fn tokenize_stops_at_the_first_error() {
    assert_eq!(
        tokenize("a # b $"),
        Err(String::from("Unexpected character '#' at line 1, column 3"))
    );
}

#[test]
fn empty_and_blank_input() {
    assert_eq!(tokenize(""), Ok(Vec::new()));
    assert_eq!(tokenize(" \n\t \r\n"), Ok(Vec::new()));
    let mut cursor = LexerCursor::new("   ");
    assert_eq!(cursor.next(), None);
    assert_eq!(cursor.pos(), (1, 3));
}

#[test]
fn positions_count_lines_and_columns() {
    let tokens = tokenize("be x = y;\n  return 3;\n\nz").unwrap();
    let places: Vec<(usize, usize)> = tokens.iter().map(|t| t.pos).collect();
    assert_eq!(
        places,
        vec![(1, 1), (1, 4), (1, 6), (1, 8), (1, 9), (2, 3), (2, 10), (2, 11), (4, 1)]
    );
}

#[test]
fn position_of_a_token_is_that_of_its_first_character() {
    let tokens = tokenize("  >>= \"s\" 12.5").unwrap();
    assert_eq!(
        tokens,
        vec![
            Token { kind: TokenKind::Op(Op::ShiftRight), pos: (1, 3) },
            Token { kind: TokenKind::Op(Op::Equal), pos: (1, 5) },
            Token { kind: TokenKind::String(String::from("s")), pos: (1, 7) },
            Token { kind: TokenKind::Float(String::from("12.5")), pos: (1, 11) },
        ]
    );
}

#[test]
fn cursor_starts_at_line_one_column_zero() {
    let cursor = LexerCursor::new("abc");
    assert_eq!(cursor.pos(), (1, 0));
}

#[test]
fn bump_reads_and_counts() {
    let mut cursor = LexerCursor::new("a\nbc");
    assert_eq!(cursor.peek(), Some('a'));
    assert_eq!(cursor.bump(), Some('a'));
    assert_eq!(cursor.pos(), (1, 1));
    assert_eq!(cursor.peek(), Some('\n'));
    assert_eq!(cursor.bump(), Some('\n'));
    assert_eq!(cursor.pos(), (2, 0));
    assert_eq!(cursor.bump(), Some('b'));
    assert_eq!(cursor.pos(), (2, 1));
    assert_eq!(cursor.bump(), Some('c'));
    assert_eq!(cursor.pos(), (2, 2));
    assert_eq!(cursor.peek(), None);
    assert_eq!(cursor.bump(), None);
    assert_eq!(cursor.pos(), (2, 2));
}

#[test]
fn peek_does_not_read() {
    let mut cursor = LexerCursor::new("xy");
    assert_eq!(cursor.peek(), Some('x'));
    assert_eq!(cursor.peek(), Some('x'));
    assert_eq!(cursor.pos(), (1, 0));
}

#[test]
fn columns_count_characters_not_bytes() {
    let tokens = tokenize("\"é\" x").unwrap();
    assert_eq!(tokens[1].pos, (1, 5));
}

#[test]
fn string_parser_accepts_all_but_the_bare_quote() {
    let mut state = StringParser::new();
    assert!(state.condition('a'));
    assert!(state.condition('\\'));
    assert!(state.condition('"'));
    assert!(!state.condition('"'));
    assert!(!state.condition('"'));
    assert!(state.condition('\\'));
    assert!(state.condition('\\'));
    assert!(!state.condition('"'));
}

#[test]
fn lexing_a_token_again_from_its_own_text_gives_the_same_kind() {
    let source = "be mut x1 = 12.5;\nreturn \"a\\\"b\" >>= (y) 007 |> ok";
    let chars: Vec<char> = source.chars().collect();
    let tokens = tokenize(source).unwrap();
    let mut offsets: Vec<usize> = Vec::new();
    let mut line = 1;
    let mut column = 0;
    let mut wanted = 0;
    for (index, c) in chars.iter().enumerate() {
        if *c == '\n' {
            line += 1;
            column = 0;
        } else {
            column += 1;
        }
        if wanted < tokens.len() && tokens[wanted].pos == (line, column) {
            offsets.push(index);
            wanted += 1;
        }
    }
    assert_eq!(offsets.len(), tokens.len());
    offsets.push(chars.len());
    for (n, token) in tokens.iter().enumerate() {
        let piece: String = chars[offsets[n]..offsets[n + 1]].iter().collect();
        let mut cursor = LexerCursor::new(&piece);
        let again = cursor.next().unwrap().unwrap();
        assert_eq!(again.kind, token.kind, "piece {:?}", piece);
        assert_eq!(again.pos, (1, 1));
        assert_eq!(cursor.next(), None);
    }
}
