//! How diagnostics print a token tree.

use crate::lexer::types::{Atom, Op};
use crate::text::{debug_quoted, push_signed_decimal, quoted, signed_decimal};
use crate::tokentree::model::mode_name;
use crate::tokentree::{trees_of, GroupMode, Node, TokenTreeKind, Tree};
use vstd::prelude::*;
use vstd::string::StringExecFns;

verus! {

/// The name of an operator, as diagnostics print it.
pub open spec fn op_name(op: Op) -> Seq<char> {
    match op {
        Op::Pipe => "Pipe"@,
        Op::Plus => "Plus"@,
        Op::Minus => "Minus"@,
        Op::Multiply => "Multiply"@,
        Op::Divide => "Divide"@,
        Op::Modulo => "Modulo"@,
        Op::Equal => "Equal"@,
        Op::EqualTo => "EqualTo"@,
        Op::NotEqual => "NotEqual"@,
        Op::GreaterThan => "GreaterThan"@,
        Op::LessThan => "LessThan"@,
        Op::GreaterThanOrEqual => "GreaterThanOrEqual"@,
        Op::LessThanOrEqual => "LessThanOrEqual"@,
        Op::And => "And"@,
        Op::Or => "Or"@,
        Op::Not => "Not"@,
        Op::BitAnd => "BitAnd"@,
        Op::BitOr => "BitOr"@,
        Op::BitXor => "BitXor"@,
        Op::BitNot => "BitNot"@,
        Op::ShiftLeft => "ShiftLeft"@,
        Op::ShiftRight => "ShiftRight"@,
    }
}

/// A name followed by what goes with it, in round brackets.
pub open spec fn tagged(name: Seq<char>, inner: Seq<char>) -> Seq<char> {
    name + "("@ + inner + ")"@
}

/// How diagnostics print an atom: the name of its kind and, in round
/// brackets, what it holds. An identifier and a string are printed between
/// quotes, a float as it was written.
pub open spec fn atom_debug(atom: Atom) -> Seq<char> {
    match atom {
        Atom::Be => "Be"@,
        Atom::Mut => "Mut"@,
        Atom::If => "If"@,
        Atom::Else => "Else"@,
        Atom::While => "While"@,
        Atom::Fn => "Fn"@,
        Atom::Return => "Return"@,
        Atom::Struct => "Struct"@,
        Atom::Enum => "Enum"@,
        Atom::Boolean(b) => if b {
            "Boolean(true)"@
        } else {
            "Boolean(false)"@
        },
        Atom::Comma => "Comma"@,
        Atom::Colon => "Colon"@,
        Atom::SemiColon => "SemiColon"@,
        Atom::Identifier(name) => tagged("Identifier"@, debug_quoted(name)),
        Atom::Str(text) => tagged("String"@, debug_quoted(text)),
        Atom::Integer(value) => tagged("Integer"@, signed_decimal(value)),
        Atom::Float(text) => tagged("Float"@, text),
        Atom::Op(op) => tagged("Op"@, op_name(op)),
    }
}

/// How diagnostics print the kind of a token tree. A group is printed with
/// its mode and, in square brackets, its children; places are left out.
pub open spec fn node_debug(node: Node) -> Seq<char>
    decreases node,
{
    match node {
        Node::Leaf(atom) => atom_debug(atom),
        Node::Group { mode, children } => "Group { mode: "@ + mode_name(mode) + ", children: ["@
            + forest_debug(children) + "] }"@,
    }
}

/// How diagnostics print a token tree inside a group.
pub open spec fn tree_debug(tree: Tree) -> Seq<char>
    decreases tree,
{
    "TokenTree { kind: "@ + node_debug(tree.node) + " }"@
}

/// How diagnostics print the children of a group: one after the other, with
/// a comma and a space between two of them.
pub open spec fn forest_debug(trees: Seq<Tree>) -> Seq<char>
    decreases trees,
{
    if trees.len() == 0 {
        Seq::empty()
    } else if trees.len() == 1 {
        tree_debug(trees[0])
    } else {
        forest_debug(trees.drop_last()) + ", "@ + tree_debug(trees.last())
    }
}

/// The name of a group mode.
pub(crate) fn mode_text(mode: GroupMode) -> (r: &'static str)
    ensures
        r@ == mode_name(mode),
{
    match mode {
        GroupMode::Parens => "Parens",
        GroupMode::Curly => "Curly",
        GroupMode::Bracket => "Bracket",
    }
}

/// The name of an operator.
fn op_text(op: Op) -> (r: &'static str)
    ensures
        r@ == op_name(op),
{
    match op {
        Op::Pipe => "Pipe",
        Op::Plus => "Plus",
        Op::Minus => "Minus",
        Op::Multiply => "Multiply",
        Op::Divide => "Divide",
        Op::Modulo => "Modulo",
        Op::Equal => "Equal",
        Op::EqualTo => "EqualTo",
        Op::NotEqual => "NotEqual",
        Op::GreaterThan => "GreaterThan",
        Op::LessThan => "LessThan",
        Op::GreaterThanOrEqual => "GreaterThanOrEqual",
        Op::LessThanOrEqual => "LessThanOrEqual",
        Op::And => "And",
        Op::Or => "Or",
        Op::Not => "Not",
        Op::BitAnd => "BitAnd",
        Op::BitOr => "BitOr",
        Op::BitXor => "BitXor",
        Op::BitNot => "BitNot",
        Op::ShiftLeft => "ShiftLeft",
        Op::ShiftRight => "ShiftRight",
    }
}

/// Appends `name` to `out`, and `inner` in round brackets.
pub fn push_tagged(out: &mut String, name: &str, inner: &str)
    ensures
        final(out)@ == old(out)@ + tagged(name@, inner@),
{
    out.append(name);
    out.append("(");
    out.append(inner);
    out.append(")");
    proof {
        assert(out@ =~= old(out)@ + tagged(name@, inner@));
    }
}

impl TokenTreeKind {
    /// Appends to `out` how diagnostics print this kind.
    pub fn push_debug(&self, out: &mut String)
        ensures
            final(out)@ == old(out)@ + node_debug(self@),
        decreases self,
    {
        match self {
            TokenTreeKind::Be => out.append("Be"),
            TokenTreeKind::Mut => out.append("Mut"),
            TokenTreeKind::If => out.append("If"),
            TokenTreeKind::Else => out.append("Else"),
            TokenTreeKind::While => out.append("While"),
            TokenTreeKind::Fn => out.append("Fn"),
            TokenTreeKind::Return => out.append("Return"),
            TokenTreeKind::Struct => out.append("Struct"),
            TokenTreeKind::Enum => out.append("Enum"),
            TokenTreeKind::Boolean(b) => {
                if *b {
                    out.append("Boolean(true)")
                } else {
                    out.append("Boolean(false)")
                }
            },
            TokenTreeKind::Comma => out.append("Comma"),
            TokenTreeKind::Colon => out.append("Colon"),
            TokenTreeKind::SemiColon => out.append("SemiColon"),
            TokenTreeKind::Group { mode, children } => {
                out.append("Group { mode: ");
                out.append(mode_text(*mode));
                out.append(", children: [");
                let ghost opened = out@;
                let mut k: usize = 0;
                while k < children.len()
                    invariant
                        k <= children.len(),
                        out@ == opened + forest_debug(trees_of(children@).take(k as int)),
                        forall|i: int|
                            0 <= i < children.len() ==> decreases_to!(
                                self => #[trigger] children[i],
                            ),
                    decreases children.len() - k,
                {
                    let ghost shown = trees_of(children@).take(k as int);
                    if k > 0 {
                        out.append(", ");
                    }
                    out.append("TokenTree { kind: ");
                    children[k].kind.push_debug(out);
                    out.append(" }");
                    proof {
                        let now = trees_of(children@).take(k + 1);
                        let child = "TokenTree { kind: "@ + node_debug(children[k as int].kind@)
                            + " }"@;
                        assert(now.drop_last() =~= shown);
                        assert(tree_debug(now.last()) == child);
                    }
                    k += 1;
                }
                proof {
                    assert(trees_of(children@).take(children.len() as int) =~= trees_of(
                        children@,
                    ));
                }
                out.append("] }");
            },
            TokenTreeKind::Identifier(name) => {
                let inner = quoted(name.as_str());
                push_tagged(out, "Identifier", inner.as_str());
            },
            TokenTreeKind::String(text) => {
                let inner = quoted(text.as_str());
                push_tagged(out, "String", inner.as_str());
            },
            TokenTreeKind::Integer(value) => {
                let mut inner = String::new();
                push_signed_decimal(&mut inner, *value);
                proof {
                    assert(inner@ =~= signed_decimal(*value as int));
                }
                push_tagged(out, "Integer", inner.as_str());
            },
            TokenTreeKind::Float(text) => push_tagged(out, "Float", text.as_str()),
            TokenTreeKind::Op(op) => push_tagged(out, "Op", op_text(*op)),
        }
    }
}

} // verus!
