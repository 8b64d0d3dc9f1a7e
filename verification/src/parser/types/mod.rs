//! The state of the parser, and the syntax tree that it builds.

pub mod ast;

use crate::tokentree::{trees_of, TokenTree, Tree};
use vstd::prelude::*;
use vstd::string::StringExecFns;

verus! {

/// A parser over a sequence of token trees: the trees, how many of them are
/// read, and the diagnostics recorded so far.
pub struct Parser {
    pub tokenstream: Vec<TokenTree>,
    /// The index of the tree that is read next.
    pub cursor: usize,
    pub errors: Vec<String>,
}

/// The texts of a sequence of messages.
pub open spec fn messages(errors: Seq<String>) -> Seq<Seq<char>> {
    errors.map_values(|e: String| e@)
}

impl Parser {
    /// The models of the trees that the parser reads.
    pub open spec fn input(&self) -> Seq<Tree> {
        trees_of(self.tokenstream@)
    }

    /// The texts of the diagnostics recorded so far.
    pub open spec fn diagnostics(&self) -> Seq<Seq<char>> {
        messages(self.errors@)
    }

    /// A parser at the start of `tokenstream`, with no diagnostics.
    pub fn new(tokenstream: Vec<TokenTree>) -> (r: Self)
        ensures
            r.tokenstream == tokenstream,
            r.cursor == 0,
            r.errors@.len() == 0,
    {
        Self { tokenstream, cursor: 0, errors: Vec::new() }
    }

    /// The tree that is read next. Where none is left, there is no tree, and
    /// the diagnostic "Unexpected EOF" is recorded.
    pub fn peek_token(&mut self) -> (r: Option<&TokenTree>)
        ensures
            final(self).tokenstream == old(self).tokenstream,
            final(self).cursor == old(self).cursor,
            old(self).cursor < old(self).tokenstream.len() ==> {
                &&& r == Some(&old(self).tokenstream[old(self).cursor as int])
                &&& final(self).errors == old(self).errors
            },
            old(self).cursor >= old(self).tokenstream.len() ==> {
                &&& r is None
                &&& final(self).diagnostics() == old(self).diagnostics().push("Unexpected EOF"@)
            },
    {
        if self.cursor >= self.tokenstream.len() {
            self.errors.push(String::from_str("Unexpected EOF"));
            return None;
        }
        Some(&self.tokenstream[self.cursor])
    }
}

} // verus!
