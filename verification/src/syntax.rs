//! The syntax tree that the stages read: for each node its kind, its text
//! and its children, as plain values.

use vstd::prelude::*;
use vstd::string::StringSliceAdditionalSpecFns;
use vstd::utf8::encode_utf8_decode_utf8;

verus! {

/// A node of a syntax tree.
#[derive(Debug, PartialEq, Eq)]
pub struct SyntaxNode {
    /// The numeric identifier of the node's kind.
    pub kind_id: u16,
    /// The name of the node's kind.
    pub kind: String,
    /// Whether the node is a named node of the grammar.
    pub named: bool,
    /// The source text that the node spans.
    pub text: String,
    /// The node's children, in order.
    pub children: Vec<SyntaxNode>,
}

/// What a syntax tree is, as mathematics.
pub struct SyntaxTree {
    pub kind_id: u16,
    pub kind: Seq<char>,
    pub named: bool,
    pub text: Seq<char>,
    pub children: Seq<SyntaxTree>,
}

impl View for SyntaxNode {
    type V = SyntaxTree;

    open spec fn view(&self) -> SyntaxTree
        decreases self,
    {
        SyntaxTree {
            kind_id: self.kind_id,
            kind: self.kind@,
            named: self.named,
            text: self.text@,
            children: Seq::new(
                self.children.len() as nat,
                |i: int|
                    if 0 <= i < self.children.len() {
                        self.children[i]@
                    } else {
                        arbitrary()
                    },
            ),
        }
    }
}

/// The views of a list of nodes.
pub open spec fn tree_views(nodes: Seq<SyntaxNode>) -> Seq<SyntaxTree> {
    Seq::new(nodes.len(), |i: int| nodes[i]@)
}

/// The view of a node holds the node's own values and the views of its
/// children.
pub proof fn lemma_node_view(node: &SyntaxNode)
    ensures
        node@.kind_id == node.kind_id,
        node@.kind == node.kind@,
        node@.named == node.named,
        node@.text == node.text@,
        node@.children == tree_views(node.children@),
{
    reveal_with_fuel(<SyntaxNode as View>::view, 2);
    assert(node@.children =~= tree_views(node.children@));
}

/// Whether two texts are the same.
pub fn same_text(one: &str, two: &str) -> (same: bool)
    ensures
        same == (one@ == two@),
{
    let left = one.as_bytes();
    let right = two.as_bytes();
    proof {
        encode_utf8_decode_utf8(one@);
        encode_utf8_decode_utf8(two@);
    }
    if left.len() != right.len() {
        return false;
    }
    let mut i: usize = 0;
    while i < left.len()
        invariant
            i <= left.len(),
            left@ == one.spec_bytes(),
            right@ == two.spec_bytes(),
            left@.len() == right@.len(),
            forall|j: int| 0 <= j < i ==> left@[j] == right@[j],
        decreases left.len() - i,
    {
        if left[i] != right[i] {
            return false;
        }
        i += 1;
    }
    assert(left@ =~= right@);
    true
}

impl SyntaxNode {
    /// Whether the node is of the kind of the given name.
    pub fn is_kind(&self, kind: &str) -> (same: bool)
        ensures
            same == (self@.kind == kind@),
    {
        proof {
            lemma_node_view(self);
        }
        same_text(self.kind.as_str(), kind)
    }
}

} // verus!
