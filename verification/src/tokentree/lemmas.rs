//! What holds of every sequence of tokens that can be grouped.

use crate::lexer::types::{Lexeme, TokenView};
use crate::tokentree::model::{add_tree, feed, grouped, nesting_after, Frame, Nesting};
use crate::tokentree::{Node, Tree};
use vstd::prelude::*;

verus! {

/// The number of atoms in a tree: one for a leaf, and for a group those of
/// its children, at any depth. Brackets are not counted; a tree holds none.
pub open spec fn leaves(tree: Tree) -> nat
    decreases tree,
{
    match tree.node {
        Node::Leaf(_) => 1,
        Node::Group { mode, children } => forest_leaves(children),
    }
}

/// The number of atoms in a sequence of trees.
pub open spec fn forest_leaves(trees: Seq<Tree>) -> nat
    decreases trees,
{
    if trees.len() == 0 {
        0
    } else {
        forest_leaves(trees.drop_last()) + leaves(trees.last())
    }
}

/// What a token counts for among the atoms: one, unless it is a bracket.
pub open spec fn atom_weight(token: TokenView) -> nat {
    if token.kind is Atom {
        1
    } else {
        0
    }
}

/// The number of tokens in a sequence that are no brackets.
pub open spec fn atom_count(tokens: Seq<TokenView>) -> nat
    decreases tokens.len(),
{
    if tokens.len() == 0 {
        0
    } else {
        atom_count(tokens.drop_last()) + atom_weight(tokens.last())
    }
}

/// The number of atoms gathered in the groups that stand open.
pub open spec fn open_leaves(open: Seq<Frame>) -> nat
    decreases open.len(),
{
    if open.len() == 0 {
        0
    } else {
        open_leaves(open.drop_last()) + forest_leaves(open.last().items)
    }
}

/// The number of atoms in all that has been made of the tokens read so far.
pub open spec fn nesting_leaves(nesting: Nesting) -> nat {
    forest_leaves(nesting.top) + open_leaves(nesting.open)
}

/// A finished tree adds its atoms to those gathered so far.
proof fn lemma_add_tree_leaves(nesting: Nesting, tree: Tree)
    ensures
        nesting_leaves(add_tree(nesting, tree)) == nesting_leaves(nesting) + leaves(tree),
{
    if nesting.open.len() == 0 {
        assert(nesting.top.push(tree).drop_last() =~= nesting.top);
    } else {
        let inner = nesting.open.last();
        let grown = Frame { mode: inner.mode, pos: inner.pos, items: inner.items.push(tree) };
        assert(nesting.open.drop_last().push(grown).drop_last() =~= nesting.open.drop_last());
        assert(inner.items.push(tree).drop_last() =~= inner.items);
    }
}

/// Reading a token adds one atom if the token is one, and none if it is a
/// bracket.
proof fn lemma_feed_leaves(nesting: Nesting, token: TokenView)
    requires
        feed(nesting, token) is Ok,
    ensures
        nesting_leaves(feed(nesting, token)->Ok_0) == nesting_leaves(nesting) + atom_weight(token),
{
    match token.kind {
        Lexeme::Atom(atom) => {
            lemma_add_tree_leaves(nesting, Tree { node: Node::Leaf(atom), pos: token.pos });
        },
        Lexeme::Open(mode) => {
            let opened = Frame { mode, pos: token.pos, items: Seq::empty() };
            assert(nesting.open.push(opened).drop_last() =~= nesting.open);
        },
        Lexeme::Close(mode) => {
            let inner = nesting.open.last();
            let outside = Nesting { top: nesting.top, open: nesting.open.drop_last() };
            let group = Node::Group { mode: inner.mode, children: inner.items };
            lemma_add_tree_leaves(outside, Tree { node: group, pos: inner.pos });
        },
    }
}

/// What has been made of the first `n` tokens holds as many atoms as they
/// do.
proof fn lemma_nesting_leaves(tokens: Seq<TokenView>, n: nat)
    requires
        n <= tokens.len(),
        nesting_after(tokens, n) is Ok,
    ensures
        nesting_leaves(nesting_after(tokens, n)->Ok_0) == atom_count(tokens.take(n as int)),
    decreases n,
{
    if n > 0 {
        lemma_nesting_leaves(tokens, (n - 1) as nat);
        lemma_feed_leaves(nesting_after(tokens, (n - 1) as nat)->Ok_0, tokens[n - 1]);
        assert(tokens.take(n as int).drop_last() =~= tokens.take(n - 1));
    }
}

/// Grouping keeps every atom and adds none: where a sequence of tokens can
/// be grouped, its trees hold, at all depths together, as many atoms as the
/// sequence holds tokens that are no brackets.
pub proof fn lemma_grouping_keeps_atoms(tokens: Seq<TokenView>)
    requires
        grouped(tokens) is Ok,
    ensures
        forest_leaves(grouped(tokens)->Ok_0) == atom_count(tokens),
{
    lemma_nesting_leaves(tokens, tokens.len());
    assert(tokens.take(tokens.len() as int) =~= tokens);
}

/// The kinds of tokens that a tree was folded from, in order: an atom for
/// a leaf; for a group its opening bracket, what its children were folded
/// from, and its closing bracket.
pub open spec fn spelled(tree: Tree) -> Seq<Lexeme>
    decreases tree,
{
    match tree.node {
        Node::Leaf(atom) => seq![Lexeme::Atom(atom)],
        Node::Group { mode, children } => seq![Lexeme::Open(mode)] + forest_spelled(children)
            + seq![Lexeme::Close(mode)],
    }
}

/// The kinds of tokens that a sequence of trees was folded from, in order.
pub open spec fn forest_spelled(trees: Seq<Tree>) -> Seq<Lexeme>
    decreases trees,
{
    if trees.len() == 0 {
        Seq::empty()
    } else {
        forest_spelled(trees.drop_last()) + spelled(trees.last())
    }
}

/// The kinds of a sequence of tokens.
pub open spec fn kinds(tokens: Seq<TokenView>) -> Seq<Lexeme> {
    tokens.map_values(|t: TokenView| t.kind)
}

/// The kinds of tokens that the groups which stand open were made from.
pub open spec fn open_spelled(open: Seq<Frame>) -> Seq<Lexeme>
    decreases open.len(),
{
    if open.len() == 0 {
        Seq::empty()
    } else {
        open_spelled(open.drop_last()) + seq![Lexeme::Open(open.last().mode)] + forest_spelled(
            open.last().items,
        )
    }
}

/// The kinds of tokens that all that has been made so far was made from.
pub open spec fn nesting_spelled(nesting: Nesting) -> Seq<Lexeme> {
    forest_spelled(nesting.top) + open_spelled(nesting.open)
}

/// A finished tree adds what it was folded from to what was read so far.
proof fn lemma_add_tree_spelled(nesting: Nesting, tree: Tree)
    ensures
        nesting_spelled(add_tree(nesting, tree)) == nesting_spelled(nesting) + spelled(tree),
{
    if nesting.open.len() == 0 {
        assert(nesting.top.push(tree).drop_last() =~= nesting.top);
    } else {
        let inner = nesting.open.last();
        let grown = Frame { mode: inner.mode, pos: inner.pos, items: inner.items.push(tree) };
        assert(nesting.open.drop_last().push(grown).drop_last() =~= nesting.open.drop_last());
        assert(inner.items.push(tree).drop_last() =~= inner.items);
    }
}

/// Reading a token adds its kind to what was read so far.
proof fn lemma_feed_spelled(nesting: Nesting, token: TokenView)
    requires
        feed(nesting, token) is Ok,
    ensures
        nesting_spelled(feed(nesting, token)->Ok_0) == nesting_spelled(nesting).push(token.kind),
{
    match token.kind {
        Lexeme::Atom(atom) => {
            lemma_add_tree_spelled(nesting, Tree { node: Node::Leaf(atom), pos: token.pos });
        },
        Lexeme::Open(mode) => {
            let opened = Frame { mode, pos: token.pos, items: Seq::empty() };
            assert(nesting.open.push(opened).drop_last() =~= nesting.open);
        },
        Lexeme::Close(mode) => {
            let inner = nesting.open.last();
            let outside = Nesting { top: nesting.top, open: nesting.open.drop_last() };
            let group = Node::Group { mode: inner.mode, children: inner.items };
            lemma_add_tree_spelled(outside, Tree { node: group, pos: inner.pos });
        },
    }
}

/// What has been made of the first `n` tokens was folded from their kinds.
proof fn lemma_nesting_spelled(tokens: Seq<TokenView>, n: nat)
    requires
        n <= tokens.len(),
        nesting_after(tokens, n) is Ok,
    ensures
        nesting_spelled(nesting_after(tokens, n)->Ok_0) == kinds(tokens.take(n as int)),
    decreases n,
{
    if n > 0 {
        lemma_nesting_spelled(tokens, (n - 1) as nat);
        lemma_feed_spelled(nesting_after(tokens, (n - 1) as nat)->Ok_0, tokens[n - 1]);
    }
}

/// Grouping loses no token and changes no order: where a sequence of tokens
/// can be grouped, writing its trees out again, each group between the
/// brackets of its mode, gives the kinds of the tokens back.
pub proof fn lemma_grouping_spells_tokens(tokens: Seq<TokenView>)
    requires
        grouped(tokens) is Ok,
    ensures
        forest_spelled(grouped(tokens)->Ok_0) == kinds(tokens),
{
    lemma_nesting_spelled(tokens, tokens.len());
}

} // verus!
