//! The bracket-grouping pass: folds a flat sequence of tokens into trees, in
//! which each pair of matching brackets has become a group that holds what
//! stood between them.

pub mod debug;
pub mod lemmas;
pub mod model;

use crate::lexer::types::{token_views, Atom, Lexeme, Op, Token, TokenKind, TokenView};
use crate::text::locate;
use crate::tokentree::debug::mode_text;
use crate::tokentree::lemmas::{atom_count, forest_leaves, lemma_grouping_keeps_atoms};
use crate::tokentree::model::{
    add_tree, bracket_message, closer_name, grouped, grouped_or_message, lemma_error_stays,
    nesting_after, BracketError, Frame, Nesting,
};
use vstd::prelude::*;
use vstd::string::StringExecFns;

verus! {

/// Which of the three bracket pairs encloses a group.
#[derive(Clone, Copy, Debug, PartialEq, Eq, Structural)]
pub enum GroupMode {
    Parens,
    Curly,
    Bracket,
}

/// A token, or a group of token trees that a bracket pair encloses.
#[derive(Debug, PartialEq, Eq)]
pub struct TokenTree {
    pub kind: TokenTreeKind,
    /// For a group, the place of its opening bracket.
    pub pos: (usize, usize),
}

/// What a token tree is: what a token can be but a bracket, or a group.
#[derive(Debug, PartialEq, Eq)]
pub enum TokenTreeKind {
    Be,
    Mut,
    If,
    Else,
    While,
    Fn,
    Return,
    Struct,
    Enum,
    Boolean(bool),
    Comma,
    Colon,
    SemiColon,
    Group { mode: GroupMode, children: Vec<TokenTree> },
    Identifier(String),
    String(String),
    Integer(i64),
    Float(String),
    Op(Op),
}

/// The model of a token tree's kind.
pub enum Node {
    Leaf(Atom),
    Group { mode: GroupMode, children: Seq<Tree> },
}

/// The model of a token tree.
pub struct Tree {
    pub node: Node,
    pub pos: (nat, nat),
}

/// The model of a token tree's kind.
pub open spec fn node_of(kind: TokenTreeKind) -> Node
    decreases kind,
{
    match kind {
        TokenTreeKind::Be => Node::Leaf(Atom::Be),
        TokenTreeKind::Mut => Node::Leaf(Atom::Mut),
        TokenTreeKind::If => Node::Leaf(Atom::If),
        TokenTreeKind::Else => Node::Leaf(Atom::Else),
        TokenTreeKind::While => Node::Leaf(Atom::While),
        TokenTreeKind::Fn => Node::Leaf(Atom::Fn),
        TokenTreeKind::Return => Node::Leaf(Atom::Return),
        TokenTreeKind::Struct => Node::Leaf(Atom::Struct),
        TokenTreeKind::Enum => Node::Leaf(Atom::Enum),
        TokenTreeKind::Boolean(b) => Node::Leaf(Atom::Boolean(b)),
        TokenTreeKind::Comma => Node::Leaf(Atom::Comma),
        TokenTreeKind::Colon => Node::Leaf(Atom::Colon),
        TokenTreeKind::SemiColon => Node::Leaf(Atom::SemiColon),
        TokenTreeKind::Group { mode, children } => Node::Group {
            mode,
            children: trees_of(children@),
        },
        TokenTreeKind::Identifier(name) => Node::Leaf(Atom::Identifier(name@)),
        TokenTreeKind::String(text) => Node::Leaf(Atom::Str(text@)),
        TokenTreeKind::Integer(value) => Node::Leaf(Atom::Integer(value as int)),
        TokenTreeKind::Float(text) => Node::Leaf(Atom::Float(text@)),
        TokenTreeKind::Op(op) => Node::Leaf(Atom::Op(op)),
    }
}

/// The model of a token tree.
pub open spec fn tree_of(tree: TokenTree) -> Tree
    decreases tree,
{
    Tree { node: node_of(tree.kind), pos: (tree.pos.0 as nat, tree.pos.1 as nat) }
}

/// The models of a sequence of token trees.
pub open spec fn trees_of(trees: Seq<TokenTree>) -> Seq<Tree>
    decreases trees,
{
    Seq::new(
        trees.len(),
        |i: int|
            if 0 <= i < trees.len() {
                tree_of(trees[i])
            } else {
                arbitrary()
            },
    )
}

impl View for TokenTreeKind {
    type V = Node;

    open spec fn view(&self) -> Node {
        node_of(*self)
    }
}

impl View for TokenTree {
    type V = Tree;

    open spec fn view(&self) -> Tree {
        tree_of(*self)
    }
}

/// The model of what `TokenTree::parse_from_tokens` returns.
pub open spec fn grouping_view(r: Result<Vec<TokenTree>, String>) -> Result<Seq<Tree>, Seq<char>> {
    match r {
        Ok(trees) => Ok(trees_of(trees@)),
        Err(message) => Err(message@),
    }
}

/// What reading one tree off the tokens comes to, where the tree starts at
/// index `first` and reading ends before index `next`: the tree has gone
/// where a finished tree goes; or else the tokens cannot be grouped, and the
/// message says why.
pub open spec fn tree_read(
    tokens: Seq<TokenView>,
    first: nat,
    next: nat,
    r: Result<TokenTree, String>,
) -> bool {
    match r {
        Ok(tree) => nesting_after(tokens, next) == Ok::<Nesting, BracketError>(
            add_tree(nesting_after(tokens, first)->Ok_0, tree@),
        ),
        Err(message) => {
            &&& grouped(tokens) is Err
            &&& message@ == bracket_message(grouped(tokens)->Err_0)
        },
    }
}

impl TokenTree {
    /// Folds a sequence of tokens into trees: each opening bracket, with all
    /// up to the bracket that closes it, becomes one group. Fails with a
    /// message on brackets that do not match.
    pub fn parse_from_tokens(tokens: Vec<Token>) -> (r: Result<Vec<TokenTree>, String>)
        ensures
            grouping_view(r) == grouped_or_message(token_views(tokens@)),
            r is Ok ==> forest_leaves(trees_of(r->Ok_0@)) == atom_count(token_views(tokens@)),
    {
        let ghost ts = token_views(tokens@);
        proof {
            if grouped(ts) is Ok {
                lemma_grouping_keeps_atoms(ts);
            }
        }
        let mut trees: Vec<TokenTree> = Vec::new();
        let mut next: usize = 0;
        proof {
            assert(trees_of(trees@) =~= Seq::empty());
        }
        while next < tokens.len()
            invariant
                ts == token_views(tokens@),
                next <= tokens.len(),
                nesting_after(ts, next as nat) == Ok::<Nesting, BracketError>(
                    Nesting { top: trees_of(trees@), open: Seq::empty() },
                ),
            decreases tokens.len() - next,
        {
            let token = &tokens[next];
            let ghost before = trees_of(trees@);
            next += 1;
            match Self::token_to_tokentree(token, &tokens, &mut next) {
                Ok(tree) => {
                    trees.push(tree);
                    proof {
                        assert(trees_of(trees@) =~= before.push(tree@));
                    }
                },
                Err(message) => {
                    return Err(message);
                },
            }
        }
        Ok(trees)
    }

    /// The tree that starts with `token`, the token read last. `next` is
    /// the index of the token that comes after it; where `token` opens a
    /// group, `next` moves past the bracket that closes it.
    fn token_to_tokentree(token: &Token, tokens: &Vec<Token>, next: &mut usize) -> (r: Result<
        TokenTree,
        String,
    >)
        requires
            1 <= *old(next) <= tokens.len(),
            token@ == tokens[*old(next) - 1]@,
            nesting_after(token_views(tokens@), (*old(next) - 1) as nat) is Ok,
            token@.kind is Close ==> nesting_after(
                token_views(tokens@),
                (*old(next) - 1) as nat,
            )->Ok_0.open.len() == 0,
        ensures
            *old(next) <= *final(next) <= tokens.len(),
            tree_read(
                token_views(tokens@),
                (*old(next) - 1) as nat,
                *final(next) as nat,
                r,
            ),
        decreases tokens.len() - *old(next), 1nat,
    {
        let ghost ts = token_views(tokens@);
        let ghost at = (*next - 1) as nat;
        let kind = match &token.kind {
            TokenKind::Be => TokenTreeKind::Be,
            TokenKind::Mut => TokenTreeKind::Mut,
            TokenKind::If => TokenTreeKind::If,
            TokenKind::Else => TokenTreeKind::Else,
            TokenKind::While => TokenTreeKind::While,
            TokenKind::Fn => TokenTreeKind::Fn,
            TokenKind::Return => TokenTreeKind::Return,
            TokenKind::Struct => TokenTreeKind::Struct,
            TokenKind::Enum => TokenTreeKind::Enum,
            TokenKind::Boolean(b) => TokenTreeKind::Boolean(*b),
            TokenKind::Comma => TokenTreeKind::Comma,
            TokenKind::Colon => TokenTreeKind::Colon,
            TokenKind::SemiColon => TokenTreeKind::SemiColon,
            TokenKind::LParen | TokenKind::LCurly | TokenKind::LBracket => {
                let mode = Self::token_to_groupmode(token).unwrap();
                return Self::parse_group(mode, token, tokens, next);
            },
            TokenKind::RParen | TokenKind::RCurly | TokenKind::RBracket => {
                proof {
                    lemma_error_stays(ts, at + 1, ts.len());
                }
                return Err(locate(String::from_str("Unmatched closing bracket"), token.pos));
            },
            TokenKind::Identifier(name) => TokenTreeKind::Identifier(name.clone()),
            TokenKind::String(text) => TokenTreeKind::String(text.clone()),
            TokenKind::Integer(value) => TokenTreeKind::Integer(*value),
            TokenKind::Float(text) => TokenTreeKind::Float(text.clone()),
            TokenKind::Op(op) => TokenTreeKind::Op(*op),
        };
        Ok(TokenTree { kind, pos: token.pos })
    }

    /// The mode of the bracket pair that a bracket token belongs to.
    fn token_to_groupmode(token: &Token) -> (r: Option<GroupMode>)
        ensures
            r == match token@.kind {
                Lexeme::Open(mode) => Some(mode),
                Lexeme::Close(mode) => Some(mode),
                Lexeme::Atom(_) => None,
            },
    {
        match token.kind {
            TokenKind::RParen | TokenKind::LParen => Some(GroupMode::Parens),
            TokenKind::RCurly | TokenKind::LCurly => Some(GroupMode::Curly),
            TokenKind::RBracket | TokenKind::LBracket => Some(GroupMode::Bracket),
            _ => None,
        }
    }

    /// The group that `opening_token`, the token read last, opens: gathers
    /// trees up to the closing bracket of its mode, and moves `next` past
    /// that bracket.
    fn parse_group(
        mode: GroupMode,
        opening_token: &Token,
        tokens: &Vec<Token>,
        next: &mut usize,
    ) -> (r: Result<TokenTree, String>)
        requires
            1 <= *old(next) <= tokens.len(),
            opening_token@ == tokens[*old(next) - 1]@,
            opening_token@.kind == Lexeme::Open(mode),
            nesting_after(token_views(tokens@), (*old(next) - 1) as nat) is Ok,
        ensures
            *old(next) <= *final(next) <= tokens.len(),
            tree_read(
                token_views(tokens@),
                (*old(next) - 1) as nat,
                *final(next) as nat,
                r,
            ),
        decreases tokens.len() - *old(next), 0nat,
    {
        let ghost ts = token_views(tokens@);
        let ghost outside = nesting_after(ts, (*next - 1) as nat)->Ok_0;
        let ghost opened = opening_token@.pos;
        let mut children: Vec<TokenTree> = Vec::new();
        let closing_token = Self::token_to_groupmode(opening_token);
        proof {
            assert(trees_of(children@) =~= Seq::empty());
        }
        while *next < tokens.len()
            invariant
                ts == token_views(tokens@),
                *old(next) <= *next <= tokens.len(),
                closing_token == Some(mode),
                opened == (opening_token.pos.0 as nat, opening_token.pos.1 as nat),
                nesting_after(ts, *next as nat) == Ok::<Nesting, BracketError>(
                    Nesting {
                        top: outside.top,
                        open: outside.open.push(
                            Frame { mode, pos: opened, items: trees_of(children@) },
                        ),
                    },
                ),
                nesting_after(ts, (*old(next) - 1) as nat) == Ok::<Nesting, BracketError>(outside),
            decreases tokens.len() - *next,
        {
            let token = &tokens[*next];
            let ghost gathered = trees_of(children@);
            let ghost here = *next as nat;
            *next += 1;
            match token.kind {
                TokenKind::RParen | TokenKind::RCurly | TokenKind::RBracket => {
                    let found = Self::token_to_groupmode(token);
                    if found == closing_token {
                        proof {
                            assert(outside.open.push(
                                Frame { mode, pos: opened, items: gathered },
                            ).drop_last() =~= outside.open);
                        }
                        return Ok(
                            TokenTree {
                                kind: TokenTreeKind::Group { mode, children },
                                pos: opening_token.pos,
                            },
                        );
                    } else {
                        proof {
                            lemma_error_stays(ts, here + 1, ts.len());
                        }
                        let mut message = locate(
                            String::from_str("Mismatched closing bracket"),
                            token.pos,
                        );
                        message.append(": expected Some(");
                        message.append(mode_text(mode));
                        message.append("), found ");
                        message.append(closer_text(token));
                        return Err(message);
                    }
                },
                _ => {
                    match Self::token_to_tokentree(token, tokens, next) {
                        Ok(tree) => {
                            children.push(tree);
                            proof {
                                assert(trees_of(children@) =~= gathered.push(tree@));
                                assert(outside.open.push(
                                    Frame { mode, pos: opened, items: gathered },
                                ).drop_last() =~= outside.open);
                            }
                        },
                        Err(message) => {
                            return Err(message);
                        },
                    }
                },
            }
        }
        Err(locate(String::from_str("Unclosed bracket starting"), opening_token.pos))
    }
}

/// The name of a closing bracket token.
fn closer_text(token: &Token) -> (r: &'static str)
    requires
        token@.kind is Close,
    ensures
        r@ == closer_name(token@.kind->Close_0),
{
    match token.kind {
        TokenKind::RParen => "RParen",
        TokenKind::RCurly => "RCurly",
        _ => "RBracket",
    }
}

} // verus!
