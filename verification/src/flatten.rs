//! The flattener: one top-down walk of a syntax tree that drives the
//! builders and leaves the flat representation in the root builder.

use crate::builder::{
    lemma_takes_keep_shape, reports, same_shape, shaped_like, FlatBuilder, FlatBuilderView,
    FlatFault, FlatScope, FULL_STOP, UNKNOWN_NODE,
};
use crate::flat::{FlatIdentifier, FlatNumber, FlatRoot, FlatRootView, FlatString};
use crate::general::{Error, NodeClass, NodeKinds, ValidationError};
use crate::operands::{
    at_root, in_source, lemma_binary_form_offers, lemma_root_is_offered_by_node,
    lemma_source_is_offered_by_node, offers_root_nothing_refused, operands_among,
    operators_among, operators_by,
};
use crate::well_formedness::{
    lemma_close_well_formed, lemma_open_well_formed, lemma_operator_well_formed,
    lemma_take_expression_well_formed, lemma_take_source_well_formed, lemma_take_token_well_formed,
};
use crate::syntax::{lemma_node_view, tree_views, SyntaxNode, SyntaxTree};
use vstd::prelude::*;
use vstd::string::StringExecFns;

verus! {

/// The chain after `node` is flattened against it, or the first fault.
///
/// A container opens a source builder, flattens its children against it and
/// hands the finished source to the builder that was active before. A binary
/// form does the same with a binary builder and hands over an expression.
/// Parentheses flatten their children against the active builder, and are a
/// fault where there is nothing between them. A literal or an identifier is
/// taken by the active builder, an operator is offered to it, and any other
/// node is a fault.
pub open spec fn flatten_node_spec(builder: FlatBuilderView, kinds: NodeKinds, node: SyntaxTree)
    -> Result<FlatBuilderView, FlatFault>
    decreases node, 0nat,
{
    match kinds.spec_classify(node.kind_id) {
        NodeClass::Source => match flatten_all_spec(builder.open_source(), kinds, node.children) {
            Ok(inner) => inner.close().take_source(inner.scopes.last()->Source_0),
            Err(fault) => Err(fault),
        },
        NodeClass::Binary(form) => match flatten_all_spec(
            builder.open_binary(),
            kinds,
            node.children,
        ) {
            Ok(inner) => match inner.scopes.last()->Binary_0.finished() {
                Ok(binary) => inner.close().take_expression(form.spec_expression(binary)),
                Err(fault) => Err(fault),
            },
            Err(fault) => Err(fault),
        },
        NodeClass::Parenthesize => if has_named(node.children) {
            flatten_all_spec(builder, kinds, node.children)
        } else {
            Err(FlatFault::EmptyParentheses)
        },
        NodeClass::Number => builder.take_number(node.text),
        NodeClass::String => builder.take_string(node.text),
        NodeClass::Identifier => builder.take_identifier(node.text),
        NodeClass::Operator(operator) => builder.operator(operator),
        NodeClass::Unknown => Err(FlatFault::UnknownNode(node.kind)),
    }
}

/// Whether one of the nodes is a named node.
pub open spec fn has_named(nodes: Seq<SyntaxTree>) -> bool {
    exists|i: int| 0 <= i < nodes.len() && (#[trigger] nodes[i]).named
}

/// The chain after the named nodes among `nodes` are flattened against it
/// one after the other, or the first fault.
pub open spec fn flatten_all_spec(builder: FlatBuilderView, kinds: NodeKinds, nodes: Seq<SyntaxTree>)
    -> Result<FlatBuilderView, FlatFault>
    decreases nodes, nodes.len(),
{
    if nodes.len() == 0 {
        Ok(builder)
    } else if !nodes.first().named {
        flatten_all_spec(builder, kinds, nodes.drop_first())
    } else {
        match flatten_node_spec(builder, kinds, nodes.first()) {
            Ok(next) => flatten_all_spec(next, kinds, nodes.drop_first()),
            Err(fault) => Err(fault),
        }
    }
}

/// The chain as flattening `node` leaves it, whether the flattening ends
/// well or at a fault.
///
/// Where it ends well, this is the chain that `flatten_node_spec` yields. At
/// a fault the chain keeps what was done before the fault: a scope that was
/// opened for a container or a binary form whose children fault stays
/// open, and what was sent stays sent. A node of an unknown kind, an
/// operator that is refused and a pair of empty parentheses leave the chain
/// as it was.
pub open spec fn flatten_node_left(builder: FlatBuilderView, kinds: NodeKinds, node: SyntaxTree)
    -> FlatBuilderView
    decreases node, 0nat,
{
    match kinds.spec_classify(node.kind_id) {
        NodeClass::Source => match flatten_all_spec(builder.open_source(), kinds, node.children) {
            Ok(inner) => match inner.close().take_source(inner.scopes.last()->Source_0) {
                Ok(next) => next,
                Err(_) => inner.close().send_source(inner.scopes.last()->Source_0).0,
            },
            Err(_) => flatten_all_left(builder.open_source(), kinds, node.children),
        },
        NodeClass::Binary(form) => match flatten_all_spec(
            builder.open_binary(),
            kinds,
            node.children,
        ) {
            Ok(inner) => match inner.scopes.last()->Binary_0.finished() {
                Ok(binary) => match inner.close().take_expression(form.spec_expression(binary)) {
                    Ok(next) => next,
                    Err(_) => match inner.close().send_expression(form.spec_expression(binary)) {
                        Ok((sent, _)) => sent,
                        Err(_) => inner.close(),
                    },
                },
                Err(_) => inner.close(),
            },
            Err(_) => flatten_all_left(builder.open_binary(), kinds, node.children),
        },
        NodeClass::Parenthesize => if has_named(node.children) {
            flatten_all_left(builder, kinds, node.children)
        } else {
            builder
        },
        NodeClass::Number => match builder.take_number(node.text) {
            Ok(next) => next,
            Err(_) => builder.send_number(node.text).0,
        },
        NodeClass::String => match builder.take_string(node.text) {
            Ok(next) => next,
            Err(_) => builder.send_string(node.text).0,
        },
        NodeClass::Identifier => match builder.take_identifier(node.text) {
            Ok(next) => next,
            Err(_) => match builder.send_identifier(node.text) {
                Ok((sent, _)) => sent,
                Err(_) => builder,
            },
        },
        NodeClass::Operator(operator) => match builder.operator(operator) {
            Ok(next) => next,
            Err(_) => builder,
        },
        NodeClass::Unknown => builder,
    }
}

/// The chain as flattening the named nodes among `nodes` leaves it, whether
/// the flattening ends well or at a fault: the nodes before the first fault
/// are flattened, and the node of the fault leaves what it leaves.
pub open spec fn flatten_all_left(builder: FlatBuilderView, kinds: NodeKinds, nodes: Seq<SyntaxTree>)
    -> FlatBuilderView
    decreases nodes, nodes.len(),
{
    if nodes.len() == 0 {
        builder
    } else if !nodes.first().named {
        flatten_all_left(builder, kinds, nodes.drop_first())
    } else {
        match flatten_node_spec(builder, kinds, nodes.first()) {
            Ok(next) => flatten_all_left(next, kinds, nodes.drop_first()),
            Err(_) => flatten_node_left(builder, kinds, nodes.first()),
        }
    }
}

/// Where flattening a node ends well, the chain that it leaves is the chain
/// that it yields.
pub proof fn lemma_flatten_node_left(builder: FlatBuilderView, kinds: NodeKinds, node: SyntaxTree)
    ensures
        flatten_node_spec(builder, kinds, node) matches Ok(next) ==> flatten_node_left(
            builder,
            kinds,
            node,
        ) == next,
        kinds.spec_classify(node.kind_id) is Unknown ==> flatten_node_left(builder, kinds, node)
            == builder,
    decreases node, 0nat,
{
    if kinds.spec_classify(node.kind_id) is Parenthesize {
        lemma_flatten_all_left(builder, kinds, node.children);
    }
}

/// Where flattening a list of nodes ends well, the chain that it leaves is
/// the chain that it yields.
pub proof fn lemma_flatten_all_left(
    builder: FlatBuilderView,
    kinds: NodeKinds,
    nodes: Seq<SyntaxTree>,
)
    ensures
        flatten_all_spec(builder, kinds, nodes) matches Ok(next) ==> flatten_all_left(
            builder,
            kinds,
            nodes,
        ) == next,
    decreases nodes, nodes.len(),
{
    if nodes.len() == 0 {
    } else if !nodes.first().named {
        lemma_flatten_all_left(builder, kinds, nodes.drop_first());
    } else if let Ok(next) = flatten_node_spec(builder, kinds, nodes.first()) {
        lemma_flatten_all_left(next, kinds, nodes.drop_first());
    }
}

/// The root that flattening a whole tree yields, or the first fault.
pub open spec fn flatten_tree_spec(kinds: NodeKinds, tree: SyntaxTree) -> Result<
    FlatRootView,
    FlatFault,
> {
    match flatten_node_spec(FlatBuilderView::empty(), kinds, tree) {
        Ok(builder) => Ok(builder.root),
        Err(fault) => Err(fault),
    }
}

/// Flattening a node leaves the open scopes as they were: what it opens, it
/// closes.
pub proof fn lemma_flatten_node_keeps_shape(
    builder: FlatBuilderView,
    kinds: NodeKinds,
    node: SyntaxTree,
)
    ensures
        shaped_like(flatten_node_spec(builder, kinds, node), builder),
    decreases node, 0nat,
{
    match kinds.spec_classify(node.kind_id) {
        NodeClass::Source => {
            let opened = builder.open_source();
            lemma_flatten_all_keeps_shape(opened, kinds, node.children);
            if let Ok(inner) = flatten_all_spec(opened, kinds, node.children) {
                lemma_takes_keep_shape(inner.close());
                assert(same_shape(builder, inner.close()));
                assert(shaped_like(
                    inner.close().take_source(inner.scopes.last()->Source_0),
                    inner.close(),
                ));
            }
        },
        NodeClass::Binary(form) => {
            let opened = builder.open_binary();
            lemma_flatten_all_keeps_shape(opened, kinds, node.children);
            if let Ok(inner) = flatten_all_spec(opened, kinds, node.children) {
                lemma_takes_keep_shape(inner.close());
                assert(same_shape(builder, inner.close()));
                if let Ok(binary) = inner.scopes.last()->Binary_0.finished() {
                    assert(shaped_like(
                        inner.close().take_expression(form.spec_expression(binary)),
                        inner.close(),
                    ));
                }
            }
        },
        NodeClass::Parenthesize => {
            lemma_flatten_all_keeps_shape(builder, kinds, node.children);
        },
        NodeClass::Number => {
            lemma_takes_keep_shape(builder);
            assert(shaped_like(builder.take_number(node.text), builder));
        },
        NodeClass::String => {
            lemma_takes_keep_shape(builder);
            assert(shaped_like(builder.take_string(node.text), builder));
        },
        NodeClass::Identifier => {
            lemma_takes_keep_shape(builder);
            assert(shaped_like(builder.take_identifier(node.text), builder));
        },
        NodeClass::Operator(_) => {
            crate::builder::lemma_operations_keep_shape(builder);
        },
        NodeClass::Unknown => {},
    }
}

/// Flattening a list of nodes leaves the open scopes as they were.
pub proof fn lemma_flatten_all_keeps_shape(
    builder: FlatBuilderView,
    kinds: NodeKinds,
    nodes: Seq<SyntaxTree>,
)
    ensures
        shaped_like(flatten_all_spec(builder, kinds, nodes), builder),
    decreases nodes, nodes.len(),
{
    if nodes.len() == 0 {
    } else if !nodes.first().named {
        lemma_flatten_all_keeps_shape(builder, kinds, nodes.drop_first());
    } else {
        lemma_flatten_node_keeps_shape(builder, kinds, nodes.first());
        if let Ok(next) = flatten_node_spec(builder, kinds, nodes.first()) {
            lemma_flatten_all_keeps_shape(next, kinds, nodes.drop_first());
        }
    }
}

/// Flattening a node against a well-formed chain leaves a well-formed
/// chain: no index is ever recorded that refers to a missing entry.
pub proof fn lemma_flatten_node_well_formed(
    builder: FlatBuilderView,
    kinds: NodeKinds,
    node: SyntaxTree,
)
    requires
        builder.well_formed(),
    ensures
        flatten_node_spec(builder, kinds, node) matches Ok(next) ==> next.well_formed(),
    decreases node, 0nat,
{
    match kinds.spec_classify(node.kind_id) {
        NodeClass::Source => {
            let opened = builder.open_source();
            lemma_open_well_formed(builder);
            lemma_flatten_all_well_formed(opened, kinds, node.children);
            lemma_flatten_all_keeps_shape(opened, kinds, node.children);
            if let Ok(inner) = flatten_all_spec(opened, kinds, node.children) {
                assert(opened.scopes.last() is Source);
                lemma_close_well_formed(inner);
                lemma_take_source_well_formed(inner.close(), inner.scopes.last()->Source_0);
            }
        },
        NodeClass::Binary(form) => {
            let opened = builder.open_binary();
            lemma_open_well_formed(builder);
            lemma_flatten_all_well_formed(opened, kinds, node.children);
            lemma_flatten_all_keeps_shape(opened, kinds, node.children);
            if let Ok(inner) = flatten_all_spec(opened, kinds, node.children) {
                assert(opened.scopes.last() is Binary);
                lemma_close_well_formed(inner);
                if let Ok(binary) = inner.scopes.last()->Binary_0.finished() {
                    lemma_take_expression_well_formed(
                        inner.close(),
                        form.spec_expression(binary),
                    );
                }
            }
        },
        NodeClass::Parenthesize => {
            lemma_flatten_all_well_formed(builder, kinds, node.children);
        },
        NodeClass::Number | NodeClass::String | NodeClass::Identifier => {
            lemma_take_token_well_formed(builder, node.text);
        },
        NodeClass::Operator(operator) => {
            lemma_operator_well_formed(builder, operator);
        },
        NodeClass::Unknown => {},
    }
}

/// Flattening a list of nodes against a well-formed chain leaves a
/// well-formed chain.
pub proof fn lemma_flatten_all_well_formed(
    builder: FlatBuilderView,
    kinds: NodeKinds,
    nodes: Seq<SyntaxTree>,
)
    requires
        builder.well_formed(),
    ensures
        flatten_all_spec(builder, kinds, nodes) matches Ok(next) ==> next.well_formed(),
    decreases nodes, nodes.len(),
{
    if nodes.len() == 0 {
    } else if !nodes.first().named {
        lemma_flatten_all_well_formed(builder, kinds, nodes.drop_first());
    } else {
        lemma_flatten_node_well_formed(builder, kinds, nodes.first());
        if let Ok(next) = flatten_node_spec(builder, kinds, nodes.first()) {
            lemma_flatten_all_well_formed(next, kinds, nodes.drop_first());
        }
    }
}

/// Every root that flattening yields is well formed: each index of each
/// expression refers to a number or a string of the root, to a source that
/// was finished before, to an identifier of the same source, or to an
/// earlier expression of the same source; and no pool holds a text twice.
pub proof fn lemma_flatten_tree_well_formed(kinds: NodeKinds, tree: SyntaxTree)
    ensures
        flatten_tree_spec(kinds, tree) matches Ok(root) ==> root.well_formed(),
{
    lemma_flatten_node_well_formed(FlatBuilderView::empty(), kinds, tree);
}

/// Whether one of the nodes is a named node.
pub fn any_named(nodes: &Vec<SyntaxNode>) -> (found: bool)
    ensures
        found == has_named(tree_views(nodes@)),
{
    let mut i: usize = 0;
    while i < nodes.len()
        invariant
            i <= nodes.len(),
            forall|j: int| 0 <= j < i ==> !tree_views(nodes@)[j].named,
        decreases nodes.len() - i,
    {
        proof {
            lemma_node_view(&nodes[i as int]);
        }
        if nodes[i].named {
            assert(tree_views(nodes@)[i as int].named);
            return true;
        }
        i += 1;
    }
    false
}

/// Flattens the named nodes among `nodes` against the active builder, one
/// after the other, and stops at the first fault. The builder is left with
/// what was done up to there.
pub fn flatten_children(builder: &mut FlatBuilder, node_kinds: &NodeKinds, nodes: &Vec<SyntaxNode>)
    -> (result: Result<(), Error>)
    ensures
        match flatten_all_spec(old(builder)@, *node_kinds, tree_views(nodes@)) {
            Ok(next) => result is Ok && final(builder)@ == next,
            Err(fault) => reports(result, fault),
        },
        final(builder)@ == flatten_all_left(old(builder)@, *node_kinds, tree_views(nodes@)),
    decreases nodes,
{
    let ghost trees = tree_views(nodes@);
    let mut i: usize = 0;
    assert(trees.subrange(0, trees.len() as int) =~= trees);
    while i < nodes.len()
        invariant
            i <= nodes.len(),
            trees == tree_views(nodes@),
            flatten_all_spec(old(builder)@, *node_kinds, trees) == flatten_all_spec(
                builder@,
                *node_kinds,
                trees.subrange(i as int, trees.len() as int),
            ),
            flatten_all_left(old(builder)@, *node_kinds, trees) == flatten_all_left(
                builder@,
                *node_kinds,
                trees.subrange(i as int, trees.len() as int),
            ),
        decreases nodes.len() - i,
    {
        let ghost rest = trees.subrange(i as int, trees.len() as int);
        assert(rest.first() == nodes[i as int]@);
        assert(rest.drop_first() =~= trees.subrange(i + 1, trees.len() as int));
        let node = &nodes[i];
        if node.named {
            match flatten_node(builder, node_kinds, node) {
                Ok(()) => {},
                Err(error) => {
                    return Err(error);
                },
            }
        }
        i += 1;
    }
    Ok(())
}

/// Flattens `node` against the active builder. At a fault the builder is
/// left with what was done up to there; a node of an unknown kind leaves it
/// as it was.
pub fn flatten_node(builder: &mut FlatBuilder, node_kinds: &NodeKinds, node: &SyntaxNode) -> (result:
    Result<(), Error>)
    ensures
        match flatten_node_spec(old(builder)@, *node_kinds, node@) {
            Ok(next) => result is Ok && final(builder)@ == next,
            Err(fault) => reports(result, fault),
        },
        final(builder)@ == flatten_node_left(old(builder)@, *node_kinds, node@),
        node_kinds.spec_classify(node@.kind_id) is Unknown ==> final(builder)@ == old(builder)@,
        result is Ok && at_root(old(builder)@) ==> offers_root_nothing_refused(
            *node_kinds,
            node@,
        ),
        result is Ok && in_source(old(builder)@) ==> operators_by(*node_kinds, node@) == 0,
        result is Ok && node_kinds.spec_classify(node@.kind_id) is Binary ==> operators_among(
            *node_kinds,
            node@.children,
        ) == 1 && 1 <= operands_among(*node_kinds, node@.children) <= 2,
    decreases node,
{
    proof {
        lemma_node_view(node);
        let before = builder@;
        if flatten_node_spec(before, *node_kinds, node@) is Ok {
            if at_root(before) {
                lemma_root_is_offered_by_node(before, *node_kinds, node@);
            }
            if in_source(before) {
                lemma_source_is_offered_by_node(before, *node_kinds, node@);
            }
            if node_kinds.spec_classify(node@.kind_id) is Binary {
                lemma_binary_form_offers(before, *node_kinds, node@);
            }
        }
    }
    match node_kinds.classify(node.kind_id) {
        NodeClass::Source => {
            builder.open_source();
            let ghost opened = builder@;
            match flatten_children(builder, node_kinds, &node.children) {
                Ok(()) => {},
                Err(error) => {
                    return Err(error);
                },
            }
            proof {
                lemma_flatten_all_keeps_shape(opened, *node_kinds, node@.children);
                assert(opened.scopes.last() is Source);
            }
            match builder.close() {
                Some(FlatScope::Source(source_builder)) => match source_builder.source() {
                    Ok(source) => builder.take_source(source),
                    Err(error) => Err(error),
                },
                _ => unreached(),
            }
        },
        NodeClass::Binary(form) => {
            builder.open_binary();
            let ghost opened = builder@;
            match flatten_children(builder, node_kinds, &node.children) {
                Ok(()) => {},
                Err(error) => {
                    return Err(error);
                },
            }
            proof {
                lemma_flatten_all_keeps_shape(opened, *node_kinds, node@.children);
                assert(opened.scopes.last() is Binary);
            }
            match builder.close() {
                Some(FlatScope::Binary(binary_builder)) => match binary_builder.binary() {
                    Ok(binary) => builder.take_expression(form.expression(binary)),
                    Err(error) => Err(error),
                },
                _ => unreached(),
            }
        },
        NodeClass::Parenthesize => if any_named(&node.children) {
            flatten_children(builder, node_kinds, &node.children)
        } else {
            Err(Error::ValidationError(ValidationError::EmptyExpression))
        },
        NodeClass::Number => builder.take_number(FlatNumber(node.text.clone())),
        NodeClass::String => builder.take_string(FlatString(node.text.clone())),
        NodeClass::Identifier => builder.take_identifier(FlatIdentifier(node.text.clone())),
        NodeClass::Operator(operator) => builder.operator(operator),
        NodeClass::Unknown => {
            let mut message = String::from_str(UNKNOWN_NODE);
            message.append(node.kind.as_str());
            message.append(FULL_STOP);
            Err(Error::FlattenError(message))
        },
    }
}

/// Flattens a whole tree into a root.
pub fn flatten_tree(node_kinds: &NodeKinds, tree: &SyntaxNode) -> (result: Result<FlatRoot, Error>)
    ensures
        match flatten_tree_spec(*node_kinds, tree@) {
            Ok(root) => result matches Ok(flat) && flat@ == root,
            Err(fault) => reports(result, fault),
        },
        result matches Ok(flat) ==> flat@.well_formed(),
        result is Ok ==> offers_root_nothing_refused(*node_kinds, tree@),
{
    proof {
        lemma_flatten_tree_well_formed(*node_kinds, tree@);
    }
    let mut builder = FlatBuilder::new();
    match flatten_node(&mut builder, node_kinds, tree) {
        Ok(()) => builder.root.root(),
        Err(error) => Err(error),
    }
}

} // verus!
