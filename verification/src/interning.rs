//! What interning guarantees: a token has one index in its pool, however
//! often it is sent, and the pools of different sources do not touch.

use crate::builder::{
    innermost_source, lemma_innermost_source, lemma_innermost_source_is, same_shape,
    FlatBuilderView,
};
use crate::flatten::{lemma_flatten_all_keeps_shape, lemma_flatten_node_keeps_shape};
use crate::operands::flatten_operand_spec;
use crate::flatten::{flatten_all_spec, flatten_node_spec, flatten_tree_spec};
use crate::general::{NodeClass, NodeKinds};
use crate::syntax::SyntaxTree;
use crate::flat::{intern_index, interned, lemma_intern_index, lemma_intern_index_is};
use vstd::prelude::*;

verus! {

/// Interning a token a second time yields the index of the first time and
/// leaves the pool as the first time left it.
pub proof fn lemma_intern_twice(pool: Seq<Seq<char>>, token: Seq<char>)
    ensures
        intern_index(interned(pool, token), token) == intern_index(pool, token),
        interned(interned(pool, token), token) == interned(pool, token),
{
    lemma_intern_index(pool, token);
    let once = interned(pool, token);
    lemma_intern_index_is(once, token, intern_index(pool, token) as int);
}

/// A token that a pool holds keeps its index when any other token is
/// interned.
pub proof fn lemma_intern_keeps_index(pool: Seq<Seq<char>>, token: Seq<char>, other: Seq<char>)
    requires
        pool.contains(token),
    ensures
        intern_index(interned(pool, other), token) == intern_index(pool, token),
{
    lemma_intern_index(pool, token);
    lemma_intern_index(pool, other);
    lemma_intern_index_is(interned(pool, other), token, intern_index(pool, token) as int);
}

/// Interning never moves a token: the pool that it yields begins with the
/// pool that was, so that every index stays good.
pub proof fn lemma_interned_keeps_places(pool: Seq<Seq<char>>, token: Seq<char>)
    ensures
        interned(pool, token).len() >= pool.len(),
        interned(pool, token).take(pool.len() as int) == pool,
{
    assert(interned(pool, token).take(pool.len() as int) =~= pool);
}

/// Two tokens have the same index in a pool exactly when they are the same
/// token, once both are interned.
pub proof fn lemma_intern_index_injective(pool: Seq<Seq<char>>, one: Seq<char>, two: Seq<char>)
    requires
        pool.contains(one),
        pool.contains(two),
    ensures
        intern_index(pool, one) == intern_index(pool, two) <==> one == two,
{
    lemma_intern_index(pool, one);
    lemma_intern_index(pool, two);
}

/// Sending the same number twice yields the same index, and the second
/// send changes nothing.
pub proof fn lemma_send_number_twice(builder: FlatBuilderView, number: Seq<char>)
    ensures
        builder.send_number(number).0.send_number(number) == builder.send_number(number),
{
    lemma_intern_twice(builder.root.numbers, number);
}

/// Sending the same string twice yields the same index, and the second
/// send changes nothing.
pub proof fn lemma_send_string_twice(builder: FlatBuilderView, string: Seq<char>)
    ensures
        builder.send_string(string).0.send_string(string) == builder.send_string(string),
{
    lemma_intern_twice(builder.root.strings, string);
}

/// Sending the same identifier twice within one source yields the same
/// index, and the second send changes nothing.
pub proof fn lemma_send_identifier_twice(builder: FlatBuilderView, identifier: Seq<char>)
    ensures
        builder.send_identifier(identifier) matches Ok((next, _)) ==> next.send_identifier(
            identifier,
        ) == builder.send_identifier(identifier),
{
    if let Ok((next, index)) = builder.send_identifier(identifier) {
        let at = innermost_source(builder.scopes);
        lemma_innermost_source(builder.scopes);
        lemma_innermost_source_is(next.scopes, at);
        lemma_intern_twice(builder.scopes[at]->Source_0.identifiers, identifier);
        assert(next.send_identifier(identifier)->Ok_0.0.scopes =~= next.scopes);
    }
}

/// Sending an identifier touches the pool of the innermost open source and
/// nothing else: every other open source, every source that was finished,
/// and the root's pools stay as they were.
pub proof fn lemma_send_identifier_is_local(builder: FlatBuilderView, identifier: Seq<char>)
    ensures
        builder.send_identifier(identifier) matches Ok((next, _)) ==> {
            &&& next.root == builder.root
            &&& next.scopes.len() == builder.scopes.len()
            &&& forall|depth: int|
                0 <= depth < builder.scopes.len() && depth != innermost_source(builder.scopes)
                    ==> next.scopes[depth] == builder.scopes[depth]
            &&& next.scopes[innermost_source(builder.scopes)]->Source_0.expressions
                == builder.scopes[innermost_source(builder.scopes)]->Source_0.expressions
        },
{
    lemma_innermost_source(builder.scopes);
}

/// The texts of the literals of a wanted class that flattening a node
/// reaches, in the order of the tree: the node's own text where it is such
/// a literal, and the literals of its children where it is a container, a
/// binary form or a pair of parentheses.
pub open spec fn literals_of(kinds: NodeKinds, node: SyntaxTree, wanted: NodeClass) -> Seq<
    Seq<char>,
>
    decreases node, 0nat,
{
    let class = kinds.spec_classify(node.kind_id);
    if class is Source || class is Binary || class is Parenthesize {
        literals_among(kinds, node.children, wanted)
    } else if class == wanted {
        seq![node.text]
    } else {
        Seq::empty()
    }
}

/// The texts of the literals of a wanted class that flattening a list of
/// nodes reaches, in order. Nodes that are not named are not reached.
pub open spec fn literals_among(kinds: NodeKinds, nodes: Seq<SyntaxTree>, wanted: NodeClass)
    -> Seq<Seq<char>>
    decreases nodes, nodes.len(),
{
    if nodes.len() == 0 {
        Seq::empty()
    } else if !nodes.first().named {
        literals_among(kinds, nodes.drop_first(), wanted)
    } else {
        literals_of(kinds, nodes.first(), wanted) + literals_among(
            kinds,
            nodes.drop_first(),
            wanted,
        )
    }
}

/// The pool after each of the tokens is interned, one after the other.
pub open spec fn interned_all(pool: Seq<Seq<char>>, tokens: Seq<Seq<char>>) -> Seq<Seq<char>>
    decreases tokens.len(),
{
    if tokens.len() == 0 {
        pool
    } else {
        interned_all(interned(pool, tokens.first()), tokens.drop_first())
    }
}

/// Interning one row of tokens after another is interning the two as one
/// row.
pub proof fn lemma_interned_all_concat(
    pool: Seq<Seq<char>>,
    front: Seq<Seq<char>>,
    back: Seq<Seq<char>>,
)
    ensures
        interned_all(pool, front + back) == interned_all(interned_all(pool, front), back),
    decreases front.len(),
{
    if front.len() == 0 {
        assert(front + back =~= back);
    } else {
        let all = front + back;
        assert(all.first() == front.first());
        assert(all.drop_first() =~= front.drop_first() + back);
        lemma_interned_all_concat(interned(pool, front.first()), front.drop_first(), back);
    }
}

/// What no operation of a chain but the taking of a number or of a string
/// does to the pools of the root: nothing.
pub proof fn lemma_pools_stay(builder: FlatBuilderView)
    ensures
        forall|source: crate::flat::FlatSourceView|
            (#[trigger] builder.take_source(source)) matches Ok(next) ==> next.root.numbers
                == builder.root.numbers && next.root.strings == builder.root.strings,
        forall|expression: crate::flat::FlatExpression|
            (#[trigger] builder.take_expression(expression)) matches Ok(next)
                ==> next.root.numbers == builder.root.numbers && next.root.strings
                == builder.root.strings,
        forall|identifier: Seq<char>|
            (#[trigger] builder.take_identifier(identifier)) matches Ok(next)
                ==> next.root.numbers == builder.root.numbers && next.root.strings
                == builder.root.strings,
        forall|operator: crate::flat::FlatOperator|
            (#[trigger] builder.operator(operator)) matches Ok(next) ==> next.root.numbers
                == builder.root.numbers && next.root.strings == builder.root.strings,
        forall|number: Seq<char>|
            (#[trigger] builder.take_number(number)) matches Ok(next) ==> next.root.numbers
                == interned(builder.root.numbers, number) && next.root.strings
                == builder.root.strings,
        forall|string: Seq<char>|
            (#[trigger] builder.take_string(string)) matches Ok(next) ==> next.root.strings
                == interned(builder.root.strings, string) && next.root.numbers
                == builder.root.numbers,
{
}

/// The pools of numbers and of strings after a node is flattened are the
/// pools before it with the node's number literals, and its string
/// literals, interned in the order of the tree. Nothing else ever enters a
/// pool.
pub proof fn lemma_pools_after_node(builder: FlatBuilderView, kinds: NodeKinds, node: SyntaxTree)
    ensures
        flatten_node_spec(builder, kinds, node) matches Ok(next) ==> {
            &&& next.root.numbers == interned_all(
                builder.root.numbers,
                literals_of(kinds, node, NodeClass::Number),
            )
            &&& next.root.strings == interned_all(
                builder.root.strings,
                literals_of(kinds, node, NodeClass::String),
            )
        },
    decreases node, 0nat,
{
    reveal_with_fuel(interned_all, 2);
    match kinds.spec_classify(node.kind_id) {
        NodeClass::Source => {
            let opened = builder.open_source();
            lemma_pools_after_list(opened, kinds, node.children);
            if let Ok(inner) = flatten_all_spec(opened, kinds, node.children) {
                lemma_pools_stay(inner.close());
            }
        },
        NodeClass::Binary(_) => {
            let opened = builder.open_binary();
            lemma_pools_after_list(opened, kinds, node.children);
            if let Ok(inner) = flatten_all_spec(opened, kinds, node.children) {
                lemma_pools_stay(inner.close());
            }
        },
        NodeClass::Parenthesize => {
            lemma_pools_after_list(builder, kinds, node.children);
        },
        NodeClass::Number => {
            lemma_pools_stay(builder);
            let tokens = literals_of(kinds, node, NodeClass::Number);
            assert(tokens.first() == node.text);
            assert(tokens.drop_first().len() == 0);
        },
        NodeClass::String => {
            lemma_pools_stay(builder);
            let tokens = literals_of(kinds, node, NodeClass::String);
            assert(tokens.first() == node.text);
            assert(tokens.drop_first().len() == 0);
        },
        _ => {
            lemma_pools_stay(builder);
        },
    }
}

/// The pools of numbers and of strings after a list of nodes is flattened
/// are the pools before it with the list's literals interned in order.
pub proof fn lemma_pools_after_list(
    builder: FlatBuilderView,
    kinds: NodeKinds,
    nodes: Seq<SyntaxTree>,
)
    ensures
        flatten_all_spec(builder, kinds, nodes) matches Ok(next) ==> {
            &&& next.root.numbers == interned_all(
                builder.root.numbers,
                literals_among(kinds, nodes, NodeClass::Number),
            )
            &&& next.root.strings == interned_all(
                builder.root.strings,
                literals_among(kinds, nodes, NodeClass::String),
            )
        },
    decreases nodes, nodes.len(),
{
    if nodes.len() == 0 {
    } else if !nodes.first().named {
        lemma_pools_after_list(builder, kinds, nodes.drop_first());
    } else {
        lemma_pools_after_node(builder, kinds, nodes.first());
        if let Ok(next) = flatten_node_spec(builder, kinds, nodes.first()) {
            lemma_pools_after_list(next, kinds, nodes.drop_first());
            lemma_interned_all_concat(
                builder.root.numbers,
                literals_of(kinds, nodes.first(), NodeClass::Number),
                literals_among(kinds, nodes.drop_first(), NodeClass::Number),
            );
            lemma_interned_all_concat(
                builder.root.strings,
                literals_of(kinds, nodes.first(), NodeClass::String),
                literals_among(kinds, nodes.drop_first(), NodeClass::String),
            );
        }
    }
}

/// The pools of a root that flattening yields hold the number literals and
/// the string literals of the tree, each once, in the order in which they
/// first stand in the tree, and nothing else.
pub proof fn lemma_pools_of_tree(kinds: NodeKinds, tree: SyntaxTree)
    ensures
        flatten_tree_spec(kinds, tree) matches Ok(root) ==> {
            &&& root.numbers == interned_all(
                Seq::empty(),
                literals_of(kinds, tree, NodeClass::Number),
            )
            &&& root.strings == interned_all(
                Seq::empty(),
                literals_of(kinds, tree, NodeClass::String),
            )
        },
{
    lemma_pools_after_node(FlatBuilderView::empty(), kinds, tree);
}

/// The texts of the identifiers that flattening a node sends to the source
/// that is open around the node, in the order of the tree: the node's own
/// text where it is an identifier, and the identifiers of its children
/// where it is a binary form or a pair of parentheses. A source among them
/// keeps its identifiers to itself.
pub open spec fn identifiers_of(kinds: NodeKinds, node: SyntaxTree) -> Seq<Seq<char>>
    decreases node, 0nat,
{
    let class = kinds.spec_classify(node.kind_id);
    if class is Binary || class is Parenthesize {
        identifiers_among(kinds, node.children)
    } else if class is Identifier {
        seq![node.text]
    } else {
        Seq::empty()
    }
}

/// The texts of the identifiers that flattening a list of nodes sends to the
/// source that is open around them, in order.
pub open spec fn identifiers_among(kinds: NodeKinds, nodes: Seq<SyntaxTree>) -> Seq<Seq<char>>
    decreases nodes, nodes.len(),
{
    if nodes.len() == 0 {
        Seq::empty()
    } else if !nodes.first().named {
        identifiers_among(kinds, nodes.drop_first())
    } else {
        identifiers_of(kinds, nodes.first()) + identifiers_among(kinds, nodes.drop_first())
    }
}

/// Whether `next` is what a chain with an open source may become by
/// flattening what sends `sent` to that source: the scopes below the
/// innermost source are as they were, and the pool of the innermost source
/// is the pool that it was with `sent` interned.
pub open spec fn scope_interned(builder: FlatBuilderView, next: FlatBuilderView, sent: Seq<Seq<char>>)
    -> bool {
    let at = innermost_source(builder.scopes);
    &&& same_shape(builder, next)
    &&& forall|depth: int| 0 <= depth < at ==> next.scopes[depth] == builder.scopes[depth]
    &&& next.scopes[at]->Source_0.identifiers == interned_all(
        builder.scopes[at]->Source_0.identifiers,
        sent,
    )
}

/// Chains of the same shape have their innermost source at the same place.
pub proof fn lemma_same_innermost(a: FlatBuilderView, b: FlatBuilderView)
    requires
        same_shape(a, b),
    ensures
        innermost_source(a.scopes) == innermost_source(b.scopes),
{
    lemma_innermost_source(a.scopes);
    let at = innermost_source(a.scopes);
    assert forall|j: int| at < j < b.scopes.len() implies b.scopes[j] is Binary by {
        assert(a.scopes[j] is Binary);
    }
    if at >= 0 {
        assert(a.scopes[at] is Source);
    }
    lemma_innermost_source_is(b.scopes, at);
}

/// One flattening after another interns what the first sends and then what
/// the second sends.
pub proof fn lemma_scope_interned_twice(
    a: FlatBuilderView,
    b: FlatBuilderView,
    c: FlatBuilderView,
    first: Seq<Seq<char>>,
    second: Seq<Seq<char>>,
)
    requires
        innermost_source(a.scopes) >= 0,
        scope_interned(a, b, first),
        scope_interned(b, c, second),
    ensures
        scope_interned(a, c, first + second),
{
    lemma_same_innermost(a, b);
    lemma_innermost_source(a.scopes);
    let at = innermost_source(a.scopes);
    lemma_interned_all_concat(a.scopes[at]->Source_0.identifiers, first, second);
    assert forall|depth: int| 0 <= depth < at implies c.scopes[depth] == a.scopes[depth] by {
        assert(b.scopes[depth] == a.scopes[depth]);
    }
}

/// Where a node is flattened against a chain with an open source, the scopes
/// below the innermost source stay as they are, and the pool of the
/// innermost source receives the identifiers of the node, interned in the
/// order of the tree, and nothing else.
pub proof fn lemma_identifiers_after_node(
    builder: FlatBuilderView,
    kinds: NodeKinds,
    node: SyntaxTree,
)
    requires
        innermost_source(builder.scopes) >= 0,
    ensures
        flatten_node_spec(builder, kinds, node) matches Ok(next) ==> scope_interned(
            builder,
            next,
            identifiers_of(kinds, node),
        ),
    decreases node, 0nat,
{
    reveal_with_fuel(interned_all, 2);
    lemma_innermost_source(builder.scopes);
    lemma_flatten_node_keeps_shape(builder, kinds, node);
    let at = innermost_source(builder.scopes);
    match kinds.spec_classify(node.kind_id) {
        NodeClass::Source => {
            let opened = builder.open_source();
            lemma_innermost_source_is(opened.scopes, builder.scopes.len() as int);
            lemma_identifiers_after_list(opened, kinds, node.children);
            lemma_flatten_all_keeps_shape(opened, kinds, node.children);
            if let Ok(inner) = flatten_all_spec(opened, kinds, node.children) {
                let closed = inner.close();
                assert forall|depth: int| 0 <= depth < builder.scopes.len() implies #[trigger]
                    closed.scopes[depth] == builder.scopes[depth] by {
                    assert(inner.scopes[depth] == opened.scopes[depth]);
                }
                assert(closed.scopes =~= builder.scopes);
                if let Ok(next) = closed.take_source(inner.scopes.last()->Source_0) {
                    assert(next.scopes[at] == builder.scopes[at]);
                }
            }
        },
        NodeClass::Binary(form) => {
            let opened = builder.open_binary();
            lemma_innermost_source_is(opened.scopes, at);
            lemma_identifiers_after_list(opened, kinds, node.children);
            lemma_flatten_all_keeps_shape(opened, kinds, node.children);
            if let Ok(inner) = flatten_all_spec(opened, kinds, node.children) {
                let closed = inner.close();
                assert(same_shape(builder, closed));
                lemma_same_innermost(builder, closed);
                lemma_innermost_source(closed.scopes);
                assert(closed.scopes[at] == inner.scopes[at]);
                assert(opened.scopes[at] == builder.scopes[at]);
                assert forall|depth: int| 0 <= depth < at implies closed.scopes[depth]
                    == builder.scopes[depth] by {
                    assert(inner.scopes[depth] == opened.scopes[depth]);
                }
                if let Ok(binary) = inner.scopes.last()->Binary_0.finished() {
                    if let Ok(next) = closed.take_expression(form.spec_expression(binary)) {
                        assert(next.scopes[at]->Source_0.identifiers
                            == closed.scopes[at]->Source_0.identifiers);
                        assert forall|depth: int| 0 <= depth < at implies next.scopes[depth]
                            == builder.scopes[depth] by {
                            assert(closed.scopes[depth] == builder.scopes[depth]);
                        }
                    }
                }
            }
        },
        NodeClass::Parenthesize => {
            lemma_identifiers_after_list(builder, kinds, node.children);
        },
        NodeClass::Identifier => {
            let tokens = identifiers_of(kinds, node);
            assert(tokens.first() == node.text);
            assert(tokens.drop_first().len() == 0);
            if let Ok((sent, index)) = builder.send_identifier(node.text) {
                lemma_innermost_source_is(sent.scopes, at);
            }
        },
        _ => {},
    }
}

/// Where a list of nodes is flattened against a chain with an open source,
/// the scopes below the innermost source stay as they are, and the pool of
/// the innermost source receives the identifiers of the list, interned in
/// order, and nothing else.
pub proof fn lemma_identifiers_after_list(
    builder: FlatBuilderView,
    kinds: NodeKinds,
    nodes: Seq<SyntaxTree>,
)
    requires
        innermost_source(builder.scopes) >= 0,
    ensures
        flatten_all_spec(builder, kinds, nodes) matches Ok(next) ==> scope_interned(
            builder,
            next,
            identifiers_among(kinds, nodes),
        ),
    decreases nodes, nodes.len(),
{
    if nodes.len() == 0 {
    } else if !nodes.first().named {
        lemma_identifiers_after_list(builder, kinds, nodes.drop_first());
    } else {
        lemma_identifiers_after_node(builder, kinds, nodes.first());
        if let Ok(next) = flatten_node_spec(builder, kinds, nodes.first()) {
            lemma_same_innermost(builder, next);
            lemma_identifiers_after_list(next, kinds, nodes.drop_first());
            if let Ok(last) = flatten_all_spec(next, kinds, nodes.drop_first()) {
                lemma_scope_interned_twice(
                    builder,
                    next,
                    last,
                    identifiers_of(kinds, nodes.first()),
                    identifiers_among(kinds, nodes.drop_first()),
                );
            }
        }
    }
}

/// The identifier pool of the source that a container leaves holds the
/// identifiers that stand in the container outside any inner source, each
/// once, in the order in which they first stand there, and nothing else:
/// sources do not share identifiers.
pub proof fn lemma_identifiers_of_source(builder: FlatBuilderView, kinds: NodeKinds, node: SyntaxTree)
    requires
        kinds.spec_classify(node.kind_id) is Source,
    ensures
        flatten_operand_spec(builder, kinds, node) matches Ok((sent, _))
            ==> sent.root.sources.last().identifiers == interned_all(
            Seq::empty(),
            identifiers_among(kinds, node.children),
        ),
{
    let opened = builder.open_source();
    lemma_innermost_source_is(opened.scopes, builder.scopes.len() as int);
    lemma_identifiers_after_list(opened, kinds, node.children);
}

} // verus!
