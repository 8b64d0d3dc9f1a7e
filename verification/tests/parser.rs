use be_syntax::lexer::tokenize;
use be_syntax::parser::types::ast::{
    BeStatement, Expression, ExpressionStatement, Ident, Literal, LiteralExpr, Pos,
    ReturnStatement, Statement,
};
use be_syntax::parser::types::Parser;
use be_syntax::tokentree::{TokenTree, TokenTreeKind};

fn parse(input: &str) -> (Vec<Statement>, Vec<String>) {
    let trees = TokenTree::parse_from_tokens(tokenize(input).unwrap()).unwrap();
    let mut parser = Parser::new(trees);
    let statements = parser.parse_statements().unwrap();
    (statements, parser.errors)
}

fn ident_name(expr: &Expression) -> &str {
    match expr {
        Expression::Ident(ident) => &ident.name,
        other => panic!("not an identifier: {:?}", other),
    }
}

fn literal(expr: &Expression) -> &Literal {
    match expr {
        Expression::Literal(literal) => &literal.value,
        other => panic!("not a literal: {:?}", other),
    }
}

#[test]
fn binding_of_an_identifier() {
    let (statements, errors) = parse("be x = y;");
    assert!(errors.is_empty());
    assert_eq!(statements.len(), 1);
    match &statements[0] {
        Statement::Be(be) => {
            assert_eq!(be.ident.name, "x");
            assert_eq!(ident_name(&be.value), "y");
            assert!(!be.is_mut);
            assert_eq!(be.pos, (1, 1));
            assert_eq!(be.ident.pos, (1, 4));
            assert_eq!(be.value.pos(), (1, 8));
        }
        other => panic!("not a binding: {:?}", other),
    }
}

#[test]
fn mutable_binding_then_return() {
    let (statements, errors) = parse("be mut x = y; return 3;");
    assert!(errors.is_empty());
    assert_eq!(statements.len(), 2);
    match &statements[0] {
        Statement::Be(be) => {
            assert_eq!(be.ident.name, "x");
            assert_eq!(ident_name(&be.value), "y");
            assert!(be.is_mut);
        }
        other => panic!("not a binding: {:?}", other),
    }
    match &statements[1] {
        Statement::Return(ret) => {
            assert!(matches!(literal(&ret.value), Literal::Int(3)));
            assert_eq!(ret.pos, (1, 15));
            assert_eq!(ret.value.pos(), (1, 22));
        }
        other => panic!("not a return: {:?}", other),
    }
}

#[test]
fn binding_without_assign_is_reported_and_parsing_goes_on() {
    let (statements, errors) = parse("be x 5;");
    assert_eq!(errors, vec![String::from("Expected '=' after identifier at line 1, column 4")]);
    assert!(errors[0].contains("Expected '=' after identifier"));
    assert!(!statements.iter().any(|s| matches!(s, Statement::Be(_))));
    assert_eq!(statements.len(), 1);
    match &statements[0] {
        Statement::Expression(statement) => {
            assert!(matches!(literal(&statement.expr), Literal::Int(5)));
            assert_eq!(statement.pos, (1, 6));
        }
        other => panic!("not an expression statement: {:?}", other),
    }
}

#[test]
fn a_well_formed_statement_after_a_malformed_one_is_read() {
    let (statements, errors) = parse("be x 5;\nbe y = 6;");
    assert_eq!(errors.len(), 1);
    assert!(errors[0].contains("Expected '=' after identifier"));
    assert_eq!(statements.len(), 2);
    match &statements[1] {
        Statement::Be(be) => {
            assert_eq!(be.ident.name, "y");
            assert!(matches!(literal(&be.value), Literal::Int(6)));
            assert_eq!(be.pos, (2, 1));
        }
        other => panic!("not a binding: {:?}", other),
    }
}

#[test]
fn binding_without_a_name() {
    let (statements, errors) = parse("be = 5;");
    assert_eq!(
        errors,
        vec![
            String::from("Expected identifier after 'be' at line 1, column 1"),
            String::from("Unexpected token 'Op(Equal)' at line 1, column 4"),
        ]
    );
    assert_eq!(statements.len(), 1);
    assert!(matches!(&statements[0], Statement::Expression(_)));
}

#[test]
fn mutable_binding_without_a_name_names_the_place_of_be() {
    let (statements, errors) = parse("  be mut 1;");
    assert_eq!(
        errors,
        vec![String::from("Expected identifier after 'be' at line 1, column 3")]
    );
    assert_eq!(statements.len(), 1);
}

#[test]
fn binding_without_semicolon_names_the_place_of_the_value() {
    let (statements, errors) = parse("be x = y be z = 1;");
    assert_eq!(
        errors,
        vec![String::from("Expected ';' after expression at line 1, column 8")]
    );
    assert_eq!(statements.len(), 1);
    match &statements[0] {
        Statement::Be(be) => assert_eq!(be.ident.name, "z"),
        other => panic!("not a binding: {:?}", other),
    }
}

#[test]
fn return_without_semicolon() {
    let (statements, errors) = parse("return x");
    assert_eq!(
        errors,
        vec![String::from("Expected ';' after expression at line 1, column 8")]
    );
    assert!(statements.is_empty());
}

#[test]
fn expression_statement_without_semicolon() {
    let (statements, errors) = parse("x y;");
    assert_eq!(
        errors,
        vec![String::from("Expected ';' after expression at line 1, column 1")]
    );
    assert_eq!(statements.len(), 1);
    match &statements[0] {
        Statement::Expression(statement) => assert_eq!(ident_name(&statement.expr), "y"),
        other => panic!("not an expression statement: {:?}", other),
    }
}

#[test]
fn end_of_input_where_a_value_is_required() {
    let (statements, errors) = parse("be x =");
    assert_eq!(errors, vec![String::from("Unexpected EOF")]);
    assert!(statements.is_empty());
    let (statements, errors) = parse("return");
    assert_eq!(errors, vec![String::from("Unexpected EOF")]);
    assert!(statements.is_empty());
}

#[test]
fn end_of_input_inside_a_binding() {
    let (_, errors) = parse("be");
    assert_eq!(errors, vec![String::from("Expected identifier after 'be' at line 1, column 1")]);
    let (_, errors) = parse("be mut");
    assert_eq!(errors, vec![String::from("Expected identifier after 'be' at line 1, column 1")]);
    let (_, errors) = parse("be x");
    assert_eq!(errors, vec![String::from("Expected '=' after identifier at line 1, column 4")]);
    let (_, errors) = parse("be x = 1");
    assert_eq!(errors, vec![String::from("Expected ';' after expression at line 1, column 8")]);
}

#[test]
fn literals_of_each_kind() {
    let (statements, errors) = parse("1; 2.5; true; false; \"s\\n\"; name;");
    assert!(errors.is_empty());
    assert_eq!(statements.len(), 6);
    let exprs: Vec<&Expression> = statements
        .iter()
        .map(|s| match s {
            Statement::Expression(statement) => &statement.expr,
            other => panic!("not an expression statement: {:?}", other),
        })
        .collect();
    assert!(matches!(literal(exprs[0]), Literal::Int(1)));
    match literal(exprs[1]) {
        Literal::Float(text) => {
            assert_eq!(text, "2.5");
            assert_eq!(text.parse::<f64>().unwrap(), 2.5);
        }
        other => panic!("not a float: {:?}", other),
    }
    assert!(matches!(literal(exprs[2]), Literal::Bool(true)));
    assert!(matches!(literal(exprs[3]), Literal::Bool(false)));
    match literal(exprs[4]) {
        Literal::Str(text) => assert_eq!(text, "s\\n"),
        other => panic!("not a string: {:?}", other),
    }
    assert_eq!(ident_name(exprs[5]), "name");
}

#[test]
fn unexpected_token_is_named_and_passed_over() {
    let (statements, errors) = parse("be x = + 1;");
    assert_eq!(errors, vec![String::from("Unexpected token 'Op(Plus)' at line 1, column 8")]);
    assert_eq!(statements.len(), 1);
    match &statements[0] {
        Statement::Expression(statement) => {
            assert!(matches!(literal(&statement.expr), Literal::Int(1)))
        }
        other => panic!("not an expression statement: {:?}", other),
    }
}

#[test]
fn unexpected_group_is_named_with_its_children() {
    let (statements, errors) = parse("(a, 1.5);");
    assert_eq!(
        errors,
        vec![
            String::from(
                "Unexpected token 'Group { mode: Parens, children: [TokenTree { kind: \
                 Identifier(\"a\") }, TokenTree { kind: Comma }, TokenTree { kind: Float(1.5) }] \
                 }' at line 1, column 1"
            ),
            String::from("Unexpected token 'SemiColon' at line 1, column 9"),
        ]
    );
    assert!(statements.is_empty());
}

#[test]
fn unexpected_keyword() {
    let (statements, errors) = parse("while;");
    assert_eq!(
        errors,
        vec![
            String::from("Unexpected token 'While' at line 1, column 1"),
            String::from("Unexpected token 'SemiColon' at line 1, column 6"),
        ]
    );
    assert!(statements.is_empty());
}

#[test]
fn diagnostics_keep_the_order_of_the_source() {
    let (statements, errors) = parse("be 1;\nreturn ;\nbe a = b;\nx\n");
    assert_eq!(
        errors,
        vec![
            String::from("Expected identifier after 'be' at line 1, column 1"),
            String::from("Unexpected token 'SemiColon' at line 2, column 8"),
            String::from("Expected ';' after expression at line 4, column 1"),
        ]
    );
    assert_eq!(statements.len(), 2);
    assert!(matches!(&statements[0], Statement::Expression(_)));
    assert!(matches!(&statements[1], Statement::Be(_)));
}

#[test]
fn empty_input_is_an_empty_program() {
    let (statements, errors) = parse("");
    assert!(statements.is_empty());
    assert!(errors.is_empty());
}

#[test]
fn every_statement_attempt_gives_a_statement_or_a_diagnostic() {
    let (statements, errors) = parse("a; b c; be x = 1; return; return 2;");
    assert_eq!(statements.len(), 4);
    assert_eq!(errors.len(), 2);
}

#[test]
fn peek_token_shows_the_next_tree_without_reading_it() {
    let trees = TokenTree::parse_from_tokens(tokenize("x;").unwrap()).unwrap();
    let mut parser = Parser::new(trees);
    assert_eq!(
        parser.peek_token().map(|t| &t.kind),
        Some(&TokenTreeKind::Identifier(String::from("x")))
    );
    assert_eq!(
        parser.peek_token().map(|t| &t.kind),
        Some(&TokenTreeKind::Identifier(String::from("x")))
    );
    assert!(parser.errors.is_empty());
}

#[test]
fn peek_token_at_the_end_records_unexpected_eof() {
    let mut parser = Parser::new(Vec::new());
    assert_eq!(parser.peek_token(), None);
    assert_eq!(parser.errors, vec![String::from("Unexpected EOF")]);
    assert_eq!(parser.peek_token(), None);
    assert_eq!(parser.errors.len(), 2);
}

#[test]
fn parse_statements_on_a_finished_parser_reads_nothing() {
    let trees = TokenTree::parse_from_tokens(tokenize("x;").unwrap()).unwrap();
    let mut parser = Parser::new(trees);
    assert_eq!(parser.parse_statements().unwrap().len(), 1);
    assert_eq!(parser.parse_statements().unwrap().len(), 0);
    assert!(parser.errors.is_empty());
}

#[test]
fn every_node_gives_its_place() {
    let ident = Ident { name: String::from("x"), pos: (2, 3) };
    assert_eq!(ident.pos(), (2, 3));
    let lit = LiteralExpr { value: Literal::Int(1), pos: (4, 5) };
    assert_eq!(lit.pos(), (4, 5));
    assert_eq!(Expression::Ident(Ident { name: String::from("y"), pos: (6, 7) }).pos(), (6, 7));
    assert_eq!(
        Expression::Literal(LiteralExpr { value: Literal::Bool(true), pos: (8, 9) }).pos(),
        (8, 9)
    );
    let be = BeStatement {
        ident,
        value: Expression::Literal(lit),
        is_mut: false,
        pos: (2, 1),
    };
    assert_eq!(be.pos(), (2, 1));
    assert_eq!(Statement::Be(be).pos(), (2, 1));
    let ret = ReturnStatement {
        value: Expression::Ident(Ident { name: String::from("z"), pos: (10, 8) }),
        pos: (10, 1),
    };
    assert_eq!(ret.pos(), (10, 1));
    assert_eq!(Statement::Return(ret).pos(), (10, 1));
    let statement = ExpressionStatement {
        expr: Expression::Ident(Ident { name: String::from("w"), pos: (11, 2) }),
        pos: (11, 2),
    };
    assert_eq!(statement.pos(), (11, 2));
    assert_eq!(Statement::Expression(statement).pos(), (11, 2));
}

fn parser_on(input: &str) -> Parser {
    Parser::new(TokenTree::parse_from_tokens(tokenize(input).unwrap()).unwrap())
}

#[test]
fn parse_ident_reads_an_identifier() {
    let mut parser = parser_on("  name rest");
    let ident = parser.parse_ident().unwrap();
    assert_eq!(ident.name, "name");
    assert_eq!(ident.pos, (1, 3));
    assert_eq!(parser.cursor, 1);
    assert!(parser.errors.is_empty());
}

#[test]
fn parse_ident_reports_what_is_no_identifier() {
    let mut parser = parser_on(" 42 x");
    assert!(parser.parse_ident().is_none());
    assert_eq!(
        parser.errors,
        vec![String::from("Expected identifier, found 'Integer(42)' at line 1, column 2")]
    );
    assert_eq!(parser.cursor, 1);
    assert_eq!(parser.parse_ident().unwrap().name, "x");
}

#[test]
fn parse_literal_reads_each_kind_of_literal() {
    let mut parser = parser_on("7 0.5 true \"s\"");
    assert!(matches!(parser.parse_literal().unwrap().value, Literal::Int(7)));
    assert!(matches!(parser.parse_literal().unwrap().value, Literal::Float(text) if text == "0.5"));
    assert!(matches!(parser.parse_literal().unwrap().value, Literal::Bool(true)));
    let last = parser.parse_literal().unwrap();
    assert!(matches!(&last.value, Literal::Str(text) if text == "s"));
    assert_eq!(last.pos, (1, 12));
    assert!(parser.errors.is_empty());
}

#[test]
fn parse_literal_reports_what_is_no_literal() {
    let mut parser = parser_on("x [1]");
    assert!(parser.parse_literal().is_none());
    assert!(parser.parse_literal().is_none());
    assert_eq!(
        parser.errors,
        vec![
            String::from("Expected literal, found 'Identifier(\"x\")' at line 1, column 1"),
            String::from(
                "Expected literal, found 'Group { mode: Bracket, children: [TokenTree { kind: \
                 Integer(1) }] }' at line 1, column 3"
            ),
        ]
    );
    assert_eq!(parser.cursor, 2);
}

#[test]
fn reading_at_the_end_gives_nothing() {
    let mut parser = parser_on("");
    assert!(parser.parse_ident().is_none());
    assert!(parser.parse_literal().is_none());
    assert!(parser.parse_return_statement().is_none());
    assert!(parser.parse_expression_statement().is_none());
    assert!(parser.errors.is_empty());
    assert_eq!(parser.cursor, 0);
    assert!(parser.parse_expression().is_none());
    assert!(parser.parse_statement().is_none());
    assert_eq!(
        parser.errors,
        vec![String::from("Unexpected EOF"), String::from("Unexpected EOF")]
    );
    assert_eq!(parser.cursor, 0);
}

#[test]
fn parse_expression_reads_one_tree() {
    let mut parser = parser_on("a 1 ;");
    assert_eq!(ident_name(&parser.parse_expression().unwrap()), "a");
    assert!(matches!(literal(&parser.parse_expression().unwrap()), Literal::Int(1)));
    assert!(parser.parse_expression().is_none());
    assert_eq!(parser.cursor, 3);
    assert_eq!(
        parser.errors,
        vec![String::from("Unexpected token 'SemiColon' at line 1, column 5")]
    );
}

#[test]
fn parse_statement_reads_one_statement() {
    let mut parser = parser_on("be a = 1; return a; a;");
    assert!(matches!(parser.parse_statement(), Some(Statement::Be(_))));
    assert_eq!(parser.cursor, 5);
    assert!(matches!(parser.parse_statement(), Some(Statement::Return(_))));
    assert_eq!(parser.cursor, 8);
    assert!(matches!(parser.parse_statement(), Some(Statement::Expression(_))));
    assert_eq!(parser.cursor, 10);
    assert!(parser.errors.is_empty());
}

#[test]
fn parse_be_statement_reads_whatever_keyword_comes_first() {
    let mut parser = parser_on("be mut n = 2.5;");
    let be = parser.parse_be_statement().unwrap();
    assert!(be.is_mut);
    assert_eq!(be.ident.name, "n");
    assert!(matches!(literal(&be.value), Literal::Float(text) if text == "2.5"));
    assert_eq!(parser.cursor, 6);
}
