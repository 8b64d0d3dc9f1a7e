//! The front end of a small language: a lexer that turns source text into
//! tokens, a pass that folds the tokens between matching brackets into
//! groups, and a parser that reads statements off the grouped tokens.

pub mod lexer;
pub mod parser;
pub mod text;
pub mod tokentree;

use crate::lexer::model::lexed_from;
use crate::lexer::tokenize;
use crate::parser::grammar::{program_from, Program};
use crate::parser::statement_views;
use crate::parser::types::ast::Statement;
use crate::parser::types::{messages, Parser};
use crate::tokentree::model::grouped_or_message;
use crate::tokentree::TokenTree;
use vstd::prelude::*;

verus! {

/// What a source text comes to: lexing and grouping each stop at their first
/// error, with its message; the parser reads what it can of the grouped
/// tokens and collects a diagnostic for the rest.
pub open spec fn parsed(source: Seq<char>) -> Result<Program, Seq<char>> {
    match lexed_from(source, 0) {
        Err(message) => Err(message),
        Ok(tokens) => match grouped_or_message(tokens) {
            Err(message) => Err(message),
            Ok(trees) => Ok(program_from(trees, 0)),
        },
    }
}

/// The model of what `parse_source` returns.
pub open spec fn parsed_view(r: Result<(Vec<Statement>, Vec<String>), String>) -> Result<
    Program,
    Seq<char>,
> {
    match r {
        Ok((statements, errors)) => Ok(
            Program { statements: statement_views(statements@), diagnostics: messages(errors@) },
        ),
        Err(message) => Err(message@),
    }
}

/// Runs the three stages on a source text. Returns the statements with the
/// parser's diagnostics, or the message of the lexical or bracket error
/// that stopped an earlier stage.
pub fn parse_source(input: &str) -> (r: Result<(Vec<Statement>, Vec<String>), String>)
    requires
        input@.len() < usize::MAX,
    ensures
        parsed_view(r) == parsed(input@),
{
    let tokens = match tokenize(input) {
        Ok(tokens) => tokens,
        Err(message) => {
            return Err(message);
        },
    };
    let trees = match TokenTree::parse_from_tokens(tokens) {
        Ok(trees) => trees,
        Err(message) => {
            return Err(message);
        },
    };
    let mut parser = Parser::new(trees);
    let statements = parser.parse_statements().unwrap();
    Ok((statements, parser.errors))
}

} // verus!
