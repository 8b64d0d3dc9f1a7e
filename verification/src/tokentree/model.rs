//! What grouping is: the tokens are read in order, while a stack keeps the
//! groups that stand open.

use crate::lexer::types::{Lexeme, TokenView};
use crate::text::located;
use crate::tokentree::{GroupMode, Node, Tree};
use vstd::prelude::*;

verus! {

/// A group that stands open while the tokens are read: its mode, the place
/// of its opening bracket, and the trees gathered in it so far.
pub struct Frame {
    pub mode: GroupMode,
    pub pos: (nat, nat),
    pub items: Seq<Tree>,
}

/// What has been made of the tokens read so far: the trees at top level,
/// and the groups that stand open, the outermost first.
pub struct Nesting {
    pub top: Seq<Tree>,
    pub open: Seq<Frame>,
}

/// Why a sequence of tokens cannot be grouped.
pub enum BracketError {
    /// A closing bracket at `pos` with no group open.
    Unmatched { pos: (nat, nat) },
    /// A closing bracket of mode `found` at `pos`, where the innermost open
    /// group is of mode `expected`.
    Mismatched { expected: GroupMode, found: GroupMode, pos: (nat, nat) },
    /// The tokens end while the group that opened at `pos` stands open.
    Unclosed { pos: (nat, nat) },
}

/// A finished tree goes into the innermost open group, or to the top level
/// where no group is open.
pub open spec fn add_tree(nesting: Nesting, tree: Tree) -> Nesting {
    if nesting.open.len() == 0 {
        Nesting { top: nesting.top.push(tree), open: nesting.open }
    } else {
        let inner = nesting.open.last();
        Nesting {
            top: nesting.top,
            open: nesting.open.drop_last().push(
                Frame { mode: inner.mode, pos: inner.pos, items: inner.items.push(tree) },
            ),
        }
    }
}

/// Reading one token: an atom is a tree by itself; an opening bracket opens
/// a group; a closing bracket closes the innermost open group, which must be
/// of its mode, and the group is then a finished tree at the place where it
/// opened.
pub open spec fn feed(nesting: Nesting, token: TokenView) -> Result<Nesting, BracketError> {
    match token.kind {
        Lexeme::Atom(atom) => Ok(
            add_tree(nesting, Tree { node: Node::Leaf(atom), pos: token.pos }),
        ),
        Lexeme::Open(mode) => Ok(
            Nesting {
                top: nesting.top,
                open: nesting.open.push(Frame { mode, pos: token.pos, items: Seq::empty() }),
            },
        ),
        Lexeme::Close(mode) => if nesting.open.len() == 0 {
            Err(BracketError::Unmatched { pos: token.pos })
        } else {
            let inner = nesting.open.last();
            if inner.mode == mode {
                Ok(
                    add_tree(
                        Nesting { top: nesting.top, open: nesting.open.drop_last() },
                        Tree {
                            node: Node::Group { mode: inner.mode, children: inner.items },
                            pos: inner.pos,
                        },
                    ),
                )
            } else {
                Err(BracketError::Mismatched { expected: inner.mode, found: mode, pos: token.pos })
            }
        },
    }
}

/// What has been made of the first `n` tokens, or the first error among
/// them.
pub open spec fn nesting_after(tokens: Seq<TokenView>, n: nat) -> Result<Nesting, BracketError>
    decreases n,
{
    if n == 0 {
        Ok(Nesting { top: Seq::empty(), open: Seq::empty() })
    } else {
        match nesting_after(tokens, (n - 1) as nat) {
            Ok(nesting) => feed(nesting, tokens[n - 1]),
            Err(error) => Err(error),
        }
    }
}

/// The trees that a sequence of tokens folds into. It fails at the first
/// closing bracket that closes nothing or closes the wrong group; and, where
/// there is none, if a group stands open at the end, for the innermost such
/// group.
pub open spec fn grouped(tokens: Seq<TokenView>) -> Result<Seq<Tree>, BracketError> {
    match nesting_after(tokens, tokens.len()) {
        Ok(nesting) => if nesting.open.len() == 0 {
            Ok(nesting.top)
        } else {
            Err(BracketError::Unclosed { pos: nesting.open.last().pos })
        },
        Err(error) => Err(error),
    }
}

/// The name of a group mode, as diagnostics print it.
pub open spec fn mode_name(mode: GroupMode) -> Seq<char> {
    match mode {
        GroupMode::Parens => "Parens"@,
        GroupMode::Curly => "Curly"@,
        GroupMode::Bracket => "Bracket"@,
    }
}

/// The name of the closing bracket of a mode, as diagnostics print it.
pub open spec fn closer_name(mode: GroupMode) -> Seq<char> {
    match mode {
        GroupMode::Parens => "RParen"@,
        GroupMode::Curly => "RCurly"@,
        GroupMode::Bracket => "RBracket"@,
    }
}

/// The message that reports a bracket error.
pub open spec fn bracket_message(error: BracketError) -> Seq<char> {
    match error {
        BracketError::Unmatched { pos } => located("Unmatched closing bracket"@, pos),
        BracketError::Mismatched { expected, found, pos } => located(
            "Mismatched closing bracket"@,
            pos,
        ) + ": expected Some("@ + mode_name(expected) + "), found "@ + closer_name(found),
        BracketError::Unclosed { pos } => located("Unclosed bracket starting"@, pos),
    }
}

/// What grouping a sequence of tokens comes to: its trees, or the message
/// of its bracket error.
pub open spec fn grouped_or_message(tokens: Seq<TokenView>) -> Result<Seq<Tree>, Seq<char>> {
    match grouped(tokens) {
        Ok(trees) => Ok(trees),
        Err(error) => Err(bracket_message(error)),
    }
}

/// Once an error has come up, reading on does not change it.
pub proof fn lemma_error_stays(tokens: Seq<TokenView>, n: nat, m: nat)
    requires
        n <= m,
        nesting_after(tokens, n) is Err,
    ensures
        nesting_after(tokens, m) == nesting_after(tokens, n),
    decreases m,
{
    if n < m {
        lemma_error_stays(tokens, n, (m - 1) as nat);
    }
}

} // verus!
