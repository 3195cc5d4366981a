//! Parentheses are transparent: what flattening yields depends only on what
//! is left of a tree once its parentheses are taken away.

use crate::builder::FlatBuilderView;
use crate::flatten::{flatten_all_spec, flatten_node_spec, flatten_tree_spec, has_named};
use crate::general::{NodeClass, NodeKinds};
use crate::syntax::SyntaxTree;
use vstd::prelude::*;

verus! {

/// What flattening reads of a node: its kind; its text where it is a
/// literal or an identifier; the name of its kind where the kind is unknown;
/// and, of a container or a binary form, what it reads of the children.
pub open spec fn essence(kinds: NodeKinds, node: SyntaxTree) -> SyntaxTree
    decreases node, 0nat,
{
    let class = kinds.spec_classify(node.kind_id);
    SyntaxTree {
        kind_id: node.kind_id,
        kind: if class is Unknown {
            node.kind
        } else {
            Seq::empty()
        },
        named: true,
        text: if class is Number || class is String || class is Identifier {
            node.text
        } else {
            Seq::empty()
        },
        children: if class is Source || class is Binary || class is Parenthesize {
            essences(kinds, node.children)
        } else {
            Seq::empty()
        },
    }
}

/// What flattening reads of a list of nodes: nothing of a node that is not
/// named; of a pair of parentheses, what it reads of the nodes between them,
/// in their place; of a pair with nothing between them, and of any other
/// node, its essence.
pub open spec fn essences(kinds: NodeKinds, nodes: Seq<SyntaxTree>) -> Seq<SyntaxTree>
    decreases nodes, nodes.len(),
{
    if nodes.len() == 0 {
        Seq::empty()
    } else if !nodes.first().named {
        essences(kinds, nodes.drop_first())
    } else if kinds.spec_classify(nodes.first().kind_id) is Parenthesize && has_named(
        nodes.first().children,
    ) {
        essences(kinds, nodes.first().children) + essences(kinds, nodes.drop_first())
    } else {
        seq![essence(kinds, nodes.first())] + essences(kinds, nodes.drop_first())
    }
}

/// Flattening one list after another is flattening the two as one list.
pub proof fn lemma_flatten_all_concat(
    builder: FlatBuilderView,
    kinds: NodeKinds,
    front: Seq<SyntaxTree>,
    back: Seq<SyntaxTree>,
)
    ensures
        flatten_all_spec(builder, kinds, front + back) == match flatten_all_spec(
            builder,
            kinds,
            front,
        ) {
            Ok(next) => flatten_all_spec(next, kinds, back),
            Err(fault) => Err(fault),
        },
    decreases front.len(),
{
    if front.len() == 0 {
        assert(front + back =~= back);
    } else {
        let all = front + back;
        assert(all.first() == front.first());
        assert(all.drop_first() =~= front.drop_first() + back);
        if !front.first().named {
            lemma_flatten_all_concat(builder, kinds, front.drop_first(), back);
        } else if let Ok(next) = flatten_node_spec(builder, kinds, front.first()) {
            lemma_flatten_all_concat(next, kinds, front.drop_first(), back);
        }
    }
}

/// The essence of a list holds named nodes only, and it holds one exactly
/// where the list does.
pub proof fn lemma_essences_named(kinds: NodeKinds, nodes: Seq<SyntaxTree>)
    ensures
        forall|i: int| 0 <= i < essences(kinds, nodes).len() ==> (#[trigger] essences(
            kinds,
            nodes,
        )[i]).named,
        has_named(nodes) <==> essences(kinds, nodes).len() > 0,
        has_named(nodes) <==> has_named(essences(kinds, nodes)),
    decreases nodes, nodes.len(),
{
    let whole = essences(kinds, nodes);
    if nodes.len() == 0 {
    } else {
        let first = nodes.first();
        let rest = nodes.drop_first();
        lemma_essences_named(kinds, rest);
        let after = essences(kinds, rest);
        if has_named(rest) {
            let at = choose|i: int| 0 <= i < rest.len() && (#[trigger] rest[i]).named;
            assert(nodes[at + 1].named);
        }
        if has_named(nodes) && !first.named {
            let at = choose|i: int| 0 <= i < nodes.len() && (#[trigger] nodes[i]).named;
            assert(rest[at - 1].named);
        }
        if !first.named {
        } else if kinds.spec_classify(first.kind_id) is Parenthesize && has_named(first.children) {
            lemma_essences_named(kinds, first.children);
            let inner = essences(kinds, first.children);
            assert forall|i: int| 0 <= i < whole.len() implies (#[trigger] whole[i]).named by {
                if i < inner.len() {
                    assert(whole[i] == inner[i]);
                } else {
                    assert(whole[i] == after[i - inner.len()]);
                }
            }
            assert(nodes[0].named);
        } else {
            assert(whole =~= seq![essence(kinds, first)] + after);
            assert(essence(kinds, first).named);
            assert forall|i: int| 0 <= i < whole.len() implies (#[trigger] whole[i]).named by {
                if i > 0 {
                    assert(whole[i] == after[i - 1]);
                } else {
                    assert(whole[0] == essence(kinds, first));
                }
            }
            assert(nodes[0].named);
        }
    }
    if whole.len() > 0 {
        assert(whole[0].named);
    }
}

/// Flattening a node yields what flattening its essence yields.
pub proof fn lemma_flatten_node_essence(builder: FlatBuilderView, kinds: NodeKinds, node: SyntaxTree)
    ensures
        flatten_node_spec(builder, kinds, node) == flatten_node_spec(
            builder,
            kinds,
            essence(kinds, node),
        ),
    decreases node, 0nat,
{
    match kinds.spec_classify(node.kind_id) {
        NodeClass::Source => {
            lemma_flatten_all_essence(builder.open_source(), kinds, node.children);
        },
        NodeClass::Binary(_) => {
            lemma_flatten_all_essence(builder.open_binary(), kinds, node.children);
        },
        NodeClass::Parenthesize => {
            lemma_essences_named(kinds, node.children);
            lemma_flatten_all_essence(builder, kinds, node.children);
        },
        _ => {},
    }
}

/// Flattening a list of nodes yields what flattening its essence yields.
pub proof fn lemma_flatten_all_essence(
    builder: FlatBuilderView,
    kinds: NodeKinds,
    nodes: Seq<SyntaxTree>,
)
    ensures
        flatten_all_spec(builder, kinds, nodes) == flatten_all_spec(
            builder,
            kinds,
            essences(kinds, nodes),
        ),
    decreases nodes, nodes.len(),
{
    if nodes.len() == 0 {
    } else {
        let first = nodes.first();
        let rest = nodes.drop_first();
        if !first.named {
            lemma_flatten_all_essence(builder, kinds, rest);
        } else if kinds.spec_classify(first.kind_id) is Parenthesize && has_named(first.children) {
            lemma_flatten_all_essence(builder, kinds, first.children);
            lemma_flatten_all_concat(
                builder,
                kinds,
                essences(kinds, first.children),
                essences(kinds, rest),
            );
            if let Ok(next) = flatten_node_spec(builder, kinds, first) {
                lemma_flatten_all_essence(next, kinds, rest);
            }
        } else {
            lemma_flatten_node_essence(builder, kinds, first);
            let kept = seq![essence(kinds, first)] + essences(kinds, rest);
            assert(kept.first() == essence(kinds, first));
            assert(kept.drop_first() =~= essences(kinds, rest));
            if let Ok(next) = flatten_node_spec(builder, kinds, first) {
                lemma_flatten_all_essence(next, kinds, rest);
            }
        }
    }
}

/// Two trees that differ only in their parentheses, that is, two trees of
/// the same essence, flatten to the same root or to the same fault.
pub proof fn lemma_parentheses_are_transparent(kinds: NodeKinds, one: SyntaxTree, two: SyntaxTree)
    requires
        essence(kinds, one) == essence(kinds, two),
    ensures
        flatten_tree_spec(kinds, one) == flatten_tree_spec(kinds, two),
{
    lemma_flatten_node_essence(FlatBuilderView::empty(), kinds, one);
    lemma_flatten_node_essence(FlatBuilderView::empty(), kinds, two);
}

/// A pair of parentheses around a list of nodes, of which one at least is
/// named, adds nothing: flattening the pair yields what flattening the
/// nodes yields.
pub proof fn lemma_parenthesize_adds_nothing(
    builder: FlatBuilderView,
    kinds: NodeKinds,
    node: SyntaxTree,
)
    requires
        kinds.spec_classify(node.kind_id) is Parenthesize,
        has_named(node.children),
    ensures
        flatten_node_spec(builder, kinds, node) == flatten_all_spec(builder, kinds, node.children),
{
}

} // verus!
