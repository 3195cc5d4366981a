//! How a binary builder is filled: each operand of a binary form is turned
//! into an index, in the order of the tree, and recorded as it comes. Nothing
//! is reordered, nothing is added, and a builder that is not the active one
//! is never touched.

use crate::builder::{
    innermost_source, lemma_innermost_source, lemma_innermost_source_is,
    lemma_operations_keep_shape, same_shape, FlatBinaryBuilder, FlatBuilderView, FlatFault,
    FlatScopeView,
};
use crate::flat::{FlatBinary, FlatExpression, FlatIndex, FlatOperator, FlatSourceView};
use crate::flatten::{
    flatten_all_spec, flatten_node_spec, flatten_tree_spec, lemma_flatten_all_keeps_shape,
    lemma_flatten_node_keeps_shape,
};
use crate::general::{FlatForm, NodeClass, NodeKinds};
use crate::interning::lemma_same_innermost;
use crate::parentheses::{essences, lemma_essences_named, lemma_flatten_all_essence};
use crate::syntax::SyntaxTree;
use vstd::prelude::*;

verus! {

impl NodeClass {
    /// Whether a node of this class stands for a value: a source, a binary
    /// form, a literal or an identifier.
    pub open spec fn is_operand(self) -> bool {
        self is Source || self is Binary || self is Number || self is String || self is Identifier
    }
}

/// The chain after the value that `node` stands for is sent to where it
/// belongs, and the index that refers to the value; or the first fault.
/// It is meant for a node whose class is an operand.
pub open spec fn flatten_operand_spec(builder: FlatBuilderView, kinds: NodeKinds, node: SyntaxTree)
    -> Result<(FlatBuilderView, FlatIndex), FlatFault> {
    match kinds.spec_classify(node.kind_id) {
        NodeClass::Source => match flatten_all_spec(builder.open_source(), kinds, node.children) {
            Ok(inner) => Ok(inner.close().send_source(inner.scopes.last()->Source_0)),
            Err(fault) => Err(fault),
        },
        NodeClass::Binary(form) => match flatten_all_spec(
            builder.open_binary(),
            kinds,
            node.children,
        ) {
            Ok(inner) => match inner.scopes.last()->Binary_0.finished() {
                Ok(binary) => inner.close().send_expression(form.spec_expression(binary)),
                Err(fault) => Err(fault),
            },
            Err(fault) => Err(fault),
        },
        NodeClass::Number => Ok(builder.send_number(node.text)),
        NodeClass::String => Ok(builder.send_string(node.text)),
        NodeClass::Identifier => builder.send_identifier(node.text),
        _ => Err(FlatFault::UnknownNode(node.kind)),
    }
}

/// Flattening an operand is sending its value and recording the index that
/// comes back.
pub proof fn lemma_flatten_operand(builder: FlatBuilderView, kinds: NodeKinds, node: SyntaxTree)
    requires
        kinds.spec_classify(node.kind_id).is_operand(),
    ensures
        flatten_node_spec(builder, kinds, node) == match flatten_operand_spec(
            builder,
            kinds,
            node,
        ) {
            Ok((sent, index)) => sent.record(index),
            Err(fault) => Err(fault),
        },
{
}

/// Whether every binary builder that `a` holds below `depth` is in `b` as
/// it is in `a`.
pub open spec fn binaries_kept(a: FlatBuilderView, b: FlatBuilderView, depth: int) -> bool {
    forall|at: int|
        0 <= at < depth && at < a.scopes.len() && (#[trigger] a.scopes[at]) is Binary
            ==> at < b.scopes.len() && b.scopes[at] == a.scopes[at]
}

/// Keeping the binary builders is transitive between chains of one shape.
pub proof fn lemma_binaries_kept_transitive(
    a: FlatBuilderView,
    b: FlatBuilderView,
    c: FlatBuilderView,
    depth: int,
)
    requires
        binaries_kept(a, b, depth),
        binaries_kept(b, c, depth),
    ensures
        binaries_kept(a, c, depth),
{
    assert forall|at: int|
        0 <= at < depth && at < a.scopes.len() && (#[trigger] a.scopes[at]) is Binary implies at
        < c.scopes.len() && c.scopes[at] == a.scopes[at] by {
        assert(b.scopes[at] is Binary);
    }
}

/// A send touches no binary builder; an index or an operator touches none
/// but the active one.
pub proof fn lemma_operations_frame(builder: FlatBuilderView)
    ensures
        forall|source: FlatSourceView| #[trigger]
            binaries_kept(builder, builder.send_source(source).0, builder.scopes.len() as int),
        forall|number: Seq<char>| #[trigger]
            binaries_kept(builder, builder.send_number(number).0, builder.scopes.len() as int),
        forall|string: Seq<char>| #[trigger]
            binaries_kept(builder, builder.send_string(string).0, builder.scopes.len() as int),
        forall|expression: FlatExpression|
            (#[trigger] builder.send_expression(expression)) is Ok ==> binaries_kept(
                builder,
                builder.send_expression(expression)->Ok_0.0,
                builder.scopes.len() as int,
            ),
        forall|identifier: Seq<char>|
            (#[trigger] builder.send_identifier(identifier)) is Ok ==> binaries_kept(
                builder,
                builder.send_identifier(identifier)->Ok_0.0,
                builder.scopes.len() as int,
            ),
        forall|index: FlatIndex|
            (#[trigger] builder.index(index)) is Ok ==> binaries_kept(
                builder,
                builder.index(index)->Ok_0,
                builder.scopes.len() - 1,
            ),
        forall|operator: FlatOperator|
            (#[trigger] builder.operator(operator)) is Ok ==> binaries_kept(
                builder,
                builder.operator(operator)->Ok_0,
                builder.scopes.len() - 1,
            ),
        forall|index: FlatIndex|
            (#[trigger] builder.record(index)) is Ok ==> binaries_kept(
                builder,
                builder.record(index)->Ok_0,
                builder.scopes.len() - 1,
            ),
{
    lemma_innermost_source(builder.scopes);
}

/// Flattening a node touches no binary builder but the active one.
pub proof fn lemma_flatten_node_frame(builder: FlatBuilderView, kinds: NodeKinds, node: SyntaxTree)
    ensures
        flatten_node_spec(builder, kinds, node) matches Ok(next) ==> binaries_kept(
            builder,
            next,
            builder.scopes.len() - 1,
        ),
    decreases node, 1nat,
{
    let class = kinds.spec_classify(node.kind_id);
    if class.is_operand() {
        lemma_flatten_operand(builder, kinds, node);
        lemma_operand_frame(builder, kinds, node);
        if let Ok((sent, index)) = flatten_operand_spec(builder, kinds, node) {
            lemma_operand_keeps_shape(builder, kinds, node);
            lemma_operations_frame(sent);
            if let Ok(next) = sent.record(index) {
                assert(binaries_kept(sent, next, sent.scopes.len() - 1));
                lemma_binaries_kept_transitive(builder, sent, next, builder.scopes.len() - 1);
            }
        }
    } else {
        match class {
            NodeClass::Parenthesize => {
                lemma_flatten_all_frame(builder, kinds, node.children);
            },
            NodeClass::Operator(operator) => {
                lemma_operations_frame(builder);
                if builder.operator(operator) is Ok {
                    assert(binaries_kept(
                        builder,
                        builder.operator(operator)->Ok_0,
                        builder.scopes.len() - 1,
                    ));
                }
            },
            _ => {},
        }
    }
}

/// Flattening a list of nodes touches no binary builder but the active one.
pub proof fn lemma_flatten_all_frame(
    builder: FlatBuilderView,
    kinds: NodeKinds,
    nodes: Seq<SyntaxTree>,
)
    ensures
        flatten_all_spec(builder, kinds, nodes) matches Ok(next) ==> binaries_kept(
            builder,
            next,
            builder.scopes.len() - 1,
        ),
    decreases nodes, nodes.len(),
{
    if nodes.len() == 0 {
    } else if !nodes.first().named {
        lemma_flatten_all_frame(builder, kinds, nodes.drop_first());
    } else {
        lemma_flatten_node_frame(builder, kinds, nodes.first());
        lemma_flatten_node_keeps_shape(builder, kinds, nodes.first());
        if let Ok(next) = flatten_node_spec(builder, kinds, nodes.first()) {
            lemma_flatten_all_frame(next, kinds, nodes.drop_first());
            if let Ok(last) = flatten_all_spec(next, kinds, nodes.drop_first()) {
                lemma_binaries_kept_transitive(builder, next, last, builder.scopes.len() - 1);
            }
        }
    }
}

/// Sending an operand's value leaves the open scopes as they were.
pub proof fn lemma_operand_keeps_shape(builder: FlatBuilderView, kinds: NodeKinds, node: SyntaxTree)
    ensures
        flatten_operand_spec(builder, kinds, node) matches Ok((sent, _)) ==> same_shape(
            builder,
            sent,
        ),
{
    match kinds.spec_classify(node.kind_id) {
        NodeClass::Source => {
            let opened = builder.open_source();
            lemma_flatten_all_keeps_shape(opened, kinds, node.children);
            if let Ok(inner) = flatten_all_spec(opened, kinds, node.children) {
                lemma_operations_keep_shape(inner.close());
                assert(same_shape(builder, inner.close()));
                assert(same_shape(
                    inner.close(),
                    inner.close().send_source(inner.scopes.last()->Source_0).0,
                ));
            }
        },
        NodeClass::Binary(form) => {
            let opened = builder.open_binary();
            lemma_flatten_all_keeps_shape(opened, kinds, node.children);
            if let Ok(inner) = flatten_all_spec(opened, kinds, node.children) {
                lemma_operations_keep_shape(inner.close());
                assert(same_shape(builder, inner.close()));
            }
        },
        _ => {
            lemma_operations_keep_shape(builder);
        },
    }
}

/// Sending an operand's value touches no binary builder that is open.
pub proof fn lemma_operand_frame(builder: FlatBuilderView, kinds: NodeKinds, node: SyntaxTree)
    ensures
        flatten_operand_spec(builder, kinds, node) matches Ok((sent, _)) ==> binaries_kept(
            builder,
            sent,
            builder.scopes.len() as int,
        ),
    decreases node, 0nat,
{
    let depth = builder.scopes.len() as int;
    match kinds.spec_classify(node.kind_id) {
        NodeClass::Source => {
            let opened = builder.open_source();
            lemma_flatten_all_frame(opened, kinds, node.children);
            lemma_flatten_all_keeps_shape(opened, kinds, node.children);
            if let Ok(inner) = flatten_all_spec(opened, kinds, node.children) {
                let closed = inner.close();
                assert(binaries_kept(builder, opened, depth));
                assert(binaries_kept(opened, inner, depth));
                assert(binaries_kept(builder, closed, depth)) by {
                    assert forall|at: int|
                        0 <= at < depth && at < builder.scopes.len() && (
                        #[trigger] builder.scopes[at]) is Binary implies at < closed.scopes.len()
                        && closed.scopes[at] == builder.scopes[at] by {
                        assert(opened.scopes[at] is Binary);
                        assert(inner.scopes[at] == opened.scopes[at]);
                    }
                }
                lemma_operations_frame(closed);
                let sent = closed.send_source(inner.scopes.last()->Source_0).0;
                assert(binaries_kept(closed, sent, closed.scopes.len() as int));
                lemma_binaries_kept_transitive(builder, closed, sent, depth);
            }
        },
        NodeClass::Binary(form) => {
            let opened = builder.open_binary();
            lemma_flatten_all_frame(opened, kinds, node.children);
            lemma_flatten_all_keeps_shape(opened, kinds, node.children);
            if let Ok(inner) = flatten_all_spec(opened, kinds, node.children) {
                let closed = inner.close();
                assert(binaries_kept(builder, closed, depth)) by {
                    assert forall|at: int|
                        0 <= at < depth && at < builder.scopes.len() && (
                        #[trigger] builder.scopes[at]) is Binary implies at < closed.scopes.len()
                        && closed.scopes[at] == builder.scopes[at] by {
                        assert(opened.scopes[at] is Binary);
                        assert(inner.scopes[at] == opened.scopes[at]);
                    }
                }
                if let Ok(binary) = inner.scopes.last()->Binary_0.finished() {
                    lemma_operations_frame(closed);
                    let expression = form.spec_expression(binary);
                    if closed.send_expression(expression) is Ok {
                        let sent = closed.send_expression(expression)->Ok_0.0;
                        assert(binaries_kept(closed, sent, closed.scopes.len() as int));
                        lemma_binaries_kept_transitive(builder, closed, sent, depth);
                    }
                }
            }
        },
        NodeClass::Number => {
            lemma_operations_frame(builder);
            assert(binaries_kept(builder, builder.send_number(node.text).0, depth));
        },
        NodeClass::String => {
            lemma_operations_frame(builder);
            assert(binaries_kept(builder, builder.send_string(node.text).0, depth));
        },
        NodeClass::Identifier => {
            lemma_operations_frame(builder);
            if builder.send_identifier(node.text) is Ok {
                assert(binaries_kept(builder, builder.send_identifier(node.text)->Ok_0.0, depth));
            }
        },
        _ => {},
    }
}

impl FlatBinaryBuilder {
    /// The number of operands that the builder has recorded.
    pub open spec fn operands(self) -> nat {
        (if self.one is Some {
            1nat
        } else {
            0nat
        }) + (if self.two is Some {
            1nat
        } else {
            0nat
        })
    }

    /// The number of operators that the builder has recorded.
    pub open spec fn operators(self) -> nat {
        if self.operator is Some {
            1
        } else {
            0
        }
    }
}

/// A binary builder never holds more than two operands nor more than one
/// operator; each index that it accepts is one operand more, each operator
/// that it accepts is one operator more; and it can be finished only with
/// one operator and at least one operand.
pub proof fn lemma_binary_builder_capacity(
    builder: FlatBinaryBuilder,
    index: FlatIndex,
    operator: FlatOperator,
)
    ensures
        builder.operands() <= 2,
        builder.operators() <= 1,
        builder.after_index(index) matches Ok(next) ==> next.operands() == builder.operands() + 1
            && next.operators() == builder.operators(),
        builder.after_operator(operator) matches Ok(next) ==> next.operators()
            == builder.operators() + 1 && next.operands() == builder.operands(),
        builder.finished() is Ok ==> builder.operators() == 1 && builder.operands() >= 1,
{
}

/// How many of the nodes that a list offers to the active builder are of a
/// wanted class. Nodes that are not named are not offered, and parentheses
/// offer what stands between them.
pub open spec fn offered_among(
    kinds: NodeKinds,
    nodes: Seq<SyntaxTree>,
    wanted: spec_fn(NodeClass) -> bool,
) -> nat
    decreases nodes, nodes.len(),
{
    if nodes.len() == 0 {
        0
    } else if !nodes.first().named {
        offered_among(kinds, nodes.drop_first(), wanted)
    } else {
        offered_by(kinds, nodes.first(), wanted) + offered_among(
            kinds,
            nodes.drop_first(),
            wanted,
        )
    }
}

/// How many nodes of a wanted class a node offers to the active builder:
/// itself, or, where it is a pair of parentheses, what stands between them.
pub open spec fn offered_by(kinds: NodeKinds, node: SyntaxTree, wanted: spec_fn(NodeClass) -> bool)
    -> nat
    decreases node, 0nat,
{
    let class = kinds.spec_classify(node.kind_id);
    if class is Parenthesize {
        offered_among(kinds, node.children, wanted)
    } else if wanted(class) {
        1
    } else {
        0
    }
}

/// The operands that a list of nodes offers.
pub open spec fn operands_among(kinds: NodeKinds, nodes: Seq<SyntaxTree>) -> nat {
    offered_among(kinds, nodes, |class: NodeClass| class.is_operand())
}

/// The operators that a list of nodes offers.
pub open spec fn operators_among(kinds: NodeKinds, nodes: Seq<SyntaxTree>) -> nat {
    offered_among(kinds, nodes, |class: NodeClass| class is Operator)
}

/// The identifiers that a list of nodes offers.
pub open spec fn identifiers_among(kinds: NodeKinds, nodes: Seq<SyntaxTree>) -> nat {
    offered_among(kinds, nodes, |class: NodeClass| class is Identifier)
}

/// The binary forms that a list of nodes offers.
pub open spec fn forms_among(kinds: NodeKinds, nodes: Seq<SyntaxTree>) -> nat {
    offered_among(kinds, nodes, |class: NodeClass| class is Binary)
}

/// The binary builder that is active in a chain.
pub open spec fn active_binary(builder: FlatBuilderView) -> FlatBinaryBuilder {
    builder.scopes.last()->Binary_0
}

/// Where a node is flattened against an active binary builder, the builder
/// gains one operand for each operand that the node offers and one operator
/// for each operator that it offers.
pub proof fn lemma_binary_gains_by_node(builder: FlatBuilderView, kinds: NodeKinds, node: SyntaxTree)
    requires
        builder.in_binary(),
    ensures
        flatten_node_spec(builder, kinds, node) matches Ok(next) ==> {
            &&& next.in_binary()
            &&& active_binary(next).operands() == active_binary(builder).operands() + offered_by(
                kinds,
                node,
                |class: NodeClass| class.is_operand(),
            )
            &&& active_binary(next).operators() == active_binary(builder).operators()
                + offered_by(kinds, node, |class: NodeClass| class is Operator)
        },
    decreases node, 0nat,
{
    let class = kinds.spec_classify(node.kind_id);
    lemma_flatten_node_keeps_shape(builder, kinds, node);
    if class.is_operand() {
        lemma_flatten_operand(builder, kinds, node);
        lemma_operand_frame(builder, kinds, node);
        lemma_operand_keeps_shape(builder, kinds, node);
        if let Ok((sent, index)) = flatten_operand_spec(builder, kinds, node) {
            assert(builder.scopes.last() is Binary);
            assert(sent.scopes.last() == builder.scopes.last());
        }
    } else if class is Parenthesize {
        lemma_binary_gains_by_list(builder, kinds, node.children);
    }
}

/// Where a list of nodes is flattened against an active binary builder, the
/// builder gains one operand for each operand that the list offers and one
/// operator for each operator that it offers.
pub proof fn lemma_binary_gains_by_list(
    builder: FlatBuilderView,
    kinds: NodeKinds,
    nodes: Seq<SyntaxTree>,
)
    requires
        builder.in_binary(),
    ensures
        flatten_all_spec(builder, kinds, nodes) matches Ok(next) ==> {
            &&& next.in_binary()
            &&& active_binary(next).operands() == active_binary(builder).operands()
                + operands_among(kinds, nodes)
            &&& active_binary(next).operators() == active_binary(builder).operators()
                + operators_among(kinds, nodes)
        },
    decreases nodes, nodes.len(),
{
    if nodes.len() == 0 {
    } else if !nodes.first().named {
        lemma_binary_gains_by_list(builder, kinds, nodes.drop_first());
    } else {
        lemma_binary_gains_by_node(builder, kinds, nodes.first());
        if let Ok(next) = flatten_node_spec(builder, kinds, nodes.first()) {
            lemma_binary_gains_by_list(next, kinds, nodes.drop_first());
        }
    }
}

/// A binary form that is flattened without a fault has offered its builder
/// exactly one operator, and one or two operands: never a third operand,
/// never a second operator.
pub proof fn lemma_binary_form_offers(builder: FlatBuilderView, kinds: NodeKinds, node: SyntaxTree)
    requires
        kinds.spec_classify(node.kind_id) is Binary,
        flatten_node_spec(builder, kinds, node) is Ok,
    ensures
        operators_among(kinds, node.children) == 1,
        1 <= operands_among(kinds, node.children) <= 2,
{
    let opened = builder.open_binary();
    lemma_binary_gains_by_list(opened, kinds, node.children);
    let inner = flatten_all_spec(opened, kinds, node.children)->Ok_0;
    lemma_binary_builder_capacity(
        active_binary(inner),
        FlatIndex::Number(0),
        FlatOperator::Add,
    );
}

/// Whether the active builder of a chain is the root builder.
pub open spec fn at_root(builder: FlatBuilderView) -> bool {
    builder.scopes.len() == 0
}

/// Whether the active builder of a chain is a source builder.
pub open spec fn in_source(builder: FlatBuilderView) -> bool {
    builder.scopes.len() > 0 && builder.scopes.last() is Source
}

/// The operators that a node offers to the active builder.
pub open spec fn operators_by(kinds: NodeKinds, node: SyntaxTree) -> nat {
    offered_by(kinds, node, |class: NodeClass| class is Operator)
}

/// Whether a node offers the active builder nothing that a root builder
/// refuses: no operator, no identifier and no binary form.
pub open spec fn offers_root_nothing_refused(kinds: NodeKinds, node: SyntaxTree) -> bool {
    &&& offered_by(kinds, node, |class: NodeClass| class is Operator) == 0
    &&& offered_by(kinds, node, |class: NodeClass| class is Identifier) == 0
    &&& offered_by(kinds, node, |class: NodeClass| class is Binary) == 0
}

/// Where a node is flattened against the root builder without a fault, it
/// has offered the root no operator, no identifier and no binary form.
pub proof fn lemma_root_is_offered_by_node(
    builder: FlatBuilderView,
    kinds: NodeKinds,
    node: SyntaxTree,
)
    requires
        at_root(builder),
        flatten_node_spec(builder, kinds, node) is Ok,
    ensures
        offered_by(kinds, node, |class: NodeClass| class is Operator) == 0,
        offered_by(kinds, node, |class: NodeClass| class is Identifier) == 0,
        offered_by(kinds, node, |class: NodeClass| class is Binary) == 0,
    decreases node, 0nat,
{
    let class = kinds.spec_classify(node.kind_id);
    match class {
        NodeClass::Parenthesize => {
            lemma_root_is_offered_by_list(builder, kinds, node.children);
        },
        NodeClass::Binary(form) => {
            let opened = builder.open_binary();
            lemma_flatten_all_keeps_shape(opened, kinds, node.children);
            let inner = flatten_all_spec(opened, kinds, node.children)->Ok_0;
            assert(at_root(inner.close()));
        },
        _ => {},
    }
}

/// Where a list of nodes is flattened against the root builder without a
/// fault, it has offered the root no operator, no identifier and no binary
/// form: the root is sent sources, numbers and strings, and nothing else.
pub proof fn lemma_root_is_offered_by_list(
    builder: FlatBuilderView,
    kinds: NodeKinds,
    nodes: Seq<SyntaxTree>,
)
    requires
        at_root(builder),
        flatten_all_spec(builder, kinds, nodes) is Ok,
    ensures
        operators_among(kinds, nodes) == 0,
        identifiers_among(kinds, nodes) == 0,
        forms_among(kinds, nodes) == 0,
    decreases nodes, nodes.len(),
{
    if nodes.len() == 0 {
    } else if !nodes.first().named {
        lemma_root_is_offered_by_list(builder, kinds, nodes.drop_first());
    } else {
        lemma_root_is_offered_by_node(builder, kinds, nodes.first());
        lemma_flatten_node_keeps_shape(builder, kinds, nodes.first());
        let next = flatten_node_spec(builder, kinds, nodes.first())->Ok_0;
        lemma_root_is_offered_by_list(next, kinds, nodes.drop_first());
    }
}

/// Where a node is flattened against an active source builder without a
/// fault, it has offered the source no operator.
pub proof fn lemma_source_is_offered_by_node(
    builder: FlatBuilderView,
    kinds: NodeKinds,
    node: SyntaxTree,
)
    requires
        builder.scopes.len() > 0,
        builder.scopes.last() is Source,
        flatten_node_spec(builder, kinds, node) is Ok,
    ensures
        offered_by(kinds, node, |class: NodeClass| class is Operator) == 0,
    decreases node, 0nat,
{
    if kinds.spec_classify(node.kind_id) is Parenthesize {
        lemma_source_is_offered_by_list(builder, kinds, node.children);
    }
}

/// Where a list of nodes is flattened against an active source builder
/// without a fault, it has offered the source no operator.
pub proof fn lemma_source_is_offered_by_list(
    builder: FlatBuilderView,
    kinds: NodeKinds,
    nodes: Seq<SyntaxTree>,
)
    requires
        builder.scopes.len() > 0,
        builder.scopes.last() is Source,
        flatten_all_spec(builder, kinds, nodes) is Ok,
    ensures
        operators_among(kinds, nodes) == 0,
    decreases nodes, nodes.len(),
{
    if nodes.len() == 0 {
    } else if !nodes.first().named {
        lemma_source_is_offered_by_list(builder, kinds, nodes.drop_first());
    } else {
        lemma_source_is_offered_by_node(builder, kinds, nodes.first());
        lemma_flatten_node_keeps_shape(builder, kinds, nodes.first());
        let next = flatten_node_spec(builder, kinds, nodes.first())->Ok_0;
        lemma_source_is_offered_by_list(next, kinds, nodes.drop_first());
    }
}

/// The chain with `binary` in the place of its active builder.
pub open spec fn with_active(builder: FlatBuilderView, binary: FlatBinaryBuilder)
    -> FlatBuilderView {
    FlatBuilderView {
        scopes: builder.scopes.update(builder.scopes.len() - 1, FlatScopeView::Binary(binary)),
        ..builder
    }
}

/// An operand that is flattened against an active binary builder leaves the
/// builder as it was, but for the operand's index.
pub proof fn lemma_operand_is_recorded(builder: FlatBuilderView, kinds: NodeKinds, node: SyntaxTree)
    requires
        builder.in_binary(),
        kinds.spec_classify(node.kind_id).is_operand(),
    ensures
        flatten_node_spec(builder, kinds, node) == match flatten_operand_spec(
            builder,
            kinds,
            node,
        ) {
            Ok((sent, index)) => match active_binary(builder).after_index(index) {
                Ok(binary) => Ok(with_active(sent, binary)),
                Err(fault) => Err(fault),
            },
            Err(fault) => Err(fault),
        },
        flatten_operand_spec(builder, kinds, node) matches Ok((sent, _)) ==> sent.in_binary()
            && active_binary(sent) == active_binary(builder),
{
    lemma_flatten_operand(builder, kinds, node);
    lemma_operand_frame(builder, kinds, node);
    lemma_operand_keeps_shape(builder, kinds, node);
    if let Ok((sent, index)) = flatten_operand_spec(builder, kinds, node) {
        assert(builder.scopes.last() is Binary);
        assert(sent.scopes.last() == builder.scopes.last());
    }
}

/// The operands of a binary form are recorded in the order of the tree: of
/// an operand, an operator and an operand, the first operand fills `one`
/// and the second fills `two`, whatever the operands are themselves.
/// Nothing is rebalanced.
pub proof fn lemma_infix_fills_in_order(
    builder: FlatBuilderView,
    kinds: NodeKinds,
    left: SyntaxTree,
    sign: SyntaxTree,
    right: SyntaxTree,
)
    requires
        builder.in_binary(),
        active_binary(builder) == FlatBinaryBuilder::empty(),
        left.named && sign.named && right.named,
        kinds.spec_classify(left.kind_id).is_operand(),
        kinds.spec_classify(sign.kind_id) is Operator,
        kinds.spec_classify(right.kind_id).is_operand(),
    ensures
        flatten_all_spec(builder, kinds, seq![left, sign, right]) == match flatten_operand_spec(
            builder,
            kinds,
            left,
        ) {
            Ok((first, one)) => {
                let operator = kinds.spec_classify(sign.kind_id)->Operator_0;
                let half = FlatBinaryBuilder {
                    one: Some(one),
                    two: None,
                    operator: Some(operator),
                };
                match flatten_operand_spec(with_active(first, half), kinds, right) {
                    Ok((second, two)) => Ok(
                        with_active(
                            second,
                            FlatBinaryBuilder {
                                one: Some(one),
                                two: Some(two),
                                operator: Some(operator),
                            },
                        ),
                    ),
                    Err(fault) => Err(fault),
                }
            },
            Err(fault) => Err(fault),
        },
{
    reveal_with_fuel(flatten_all_spec, 4);
    let nodes = seq![left, sign, right];
    let after_left = nodes.drop_first();
    let after_sign = after_left.drop_first();
    assert(nodes.first() == left);
    assert(after_left.first() == sign);
    assert(after_sign.first() == right);
    assert(after_sign.drop_first().len() == 0);
    lemma_operand_is_recorded(builder, kinds, left);
    if let Ok((first, one)) = flatten_operand_spec(builder, kinds, left) {
        let operator = kinds.spec_classify(sign.kind_id)->Operator_0;
        let begun = with_active(first, FlatBinaryBuilder { one: Some(one), two: None, operator: None });
        assert(flatten_node_spec(builder, kinds, left) == Ok::<FlatBuilderView, FlatFault>(begun));
        let half = FlatBinaryBuilder { one: Some(one), two: None, operator: Some(operator) };
        assert(begun.operator(operator)->Ok_0.scopes =~= with_active(first, half).scopes);
        assert(flatten_node_spec(begun, kinds, sign) == Ok::<FlatBuilderView, FlatFault>(
            with_active(first, half),
        ));
        lemma_operand_is_recorded(with_active(first, half), kinds, right);
        if let Ok((second, two)) = flatten_operand_spec(with_active(first, half), kinds, right) {
            let full = with_active(
                second,
                FlatBinaryBuilder { one: Some(one), two: Some(two), operator: Some(operator) },
            );
            assert(flatten_node_spec(with_active(first, half), kinds, right) == Ok::<
                FlatBuilderView,
                FlatFault,
            >(full));
            assert(flatten_all_spec(full, kinds, after_sign.drop_first()) == Ok::<
                FlatBuilderView,
                FlatFault,
            >(full));
        }
    }
}

/// An expression in prefix form is recorded with `one` absent: of an
/// operator and an operand, the operand fills `two`, and nothing is sent to
/// any pool but what the operand itself sends.
pub proof fn lemma_prefix_leaves_one_absent(
    builder: FlatBuilderView,
    kinds: NodeKinds,
    sign: SyntaxTree,
    right: SyntaxTree,
)
    requires
        builder.in_binary(),
        active_binary(builder) == FlatBinaryBuilder::empty(),
        sign.named && right.named,
        kinds.spec_classify(sign.kind_id) is Operator,
        kinds.spec_classify(right.kind_id).is_operand(),
    ensures
        ({
            let operator = kinds.spec_classify(sign.kind_id)->Operator_0;
            let begun = FlatBinaryBuilder { one: None, two: None, operator: Some(operator) };
            flatten_all_spec(builder, kinds, seq![sign, right]) == match flatten_operand_spec(
                with_active(builder, begun),
                kinds,
                right,
            ) {
                Ok((sent, two)) => Ok(
                    with_active(
                        sent,
                        FlatBinaryBuilder { one: None, two: Some(two), operator: Some(operator) },
                    ),
                ),
                Err(fault) => Err(fault),
            }
        }),
{
    reveal_with_fuel(flatten_all_spec, 3);
    let nodes = seq![sign, right];
    let after_sign = nodes.drop_first();
    assert(nodes.first() == sign);
    assert(after_sign.first() == right);
    assert(after_sign.drop_first().len() == 0);
    let operator = kinds.spec_classify(sign.kind_id)->Operator_0;
    let begun = with_active(
        builder,
        FlatBinaryBuilder { one: None, two: None, operator: Some(operator) },
    );
    assert(builder.operator(operator)->Ok_0.scopes =~= begun.scopes);
    assert(flatten_node_spec(builder, kinds, sign) == Ok::<FlatBuilderView, FlatFault>(begun));
    lemma_operand_is_recorded(begun, kinds, right);
    if let Ok((sent, two)) = flatten_operand_spec(begun, kinds, right) {
        let full = with_active(
            sent,
            FlatBinaryBuilder { one: None, two: Some(two), operator: Some(operator) },
        );
        assert(flatten_node_spec(begun, kinds, right) == Ok::<FlatBuilderView, FlatFault>(full));
        assert(flatten_all_spec(full, kinds, after_sign.drop_first()) == Ok::<
            FlatBuilderView,
            FlatFault,
        >(full));
    }
}

/// A binary form in infix writing leaves one expression, whose `one` is
/// the index of its first operand and whose `two` is that of its second,
/// however the operands are nested and whatever parentheses stand around
/// them. The operands are what is left of the form's children once the
/// parentheses are taken away.
pub proof fn lemma_infix_form(builder: FlatBuilderView, kinds: NodeKinds, node: SyntaxTree)
    requires
        kinds.spec_classify(node.kind_id) is Binary,
        essences(kinds, node.children).len() == 3,
        kinds.spec_classify(essences(kinds, node.children)[0].kind_id).is_operand(),
        kinds.spec_classify(essences(kinds, node.children)[1].kind_id) is Operator,
        kinds.spec_classify(essences(kinds, node.children)[2].kind_id).is_operand(),
    ensures
        ({
            let form = kinds.spec_classify(node.kind_id)->Binary_0;
            let parts = essences(kinds, node.children);
            let operator = kinds.spec_classify(parts[1].kind_id)->Operator_0;
            flatten_operand_spec(builder, kinds, node) == match flatten_operand_spec(
                builder.open_binary(),
                kinds,
                parts[0],
            ) {
                Ok((first, one)) => match flatten_operand_spec(
                    with_active(
                        first,
                        FlatBinaryBuilder { one: Some(one), two: None, operator: Some(operator) },
                    ),
                    kinds,
                    parts[2],
                ) {
                    Ok((second, two)) => second.close().send_expression(
                        form.spec_expression(FlatBinary { one: Some(one), two, operator }),
                    ),
                    Err(fault) => Err(fault),
                },
                Err(fault) => Err(fault),
            }
        }),
{
    let parts = essences(kinds, node.children);
    let opened = builder.open_binary();
    lemma_essences_named(kinds, node.children);
    lemma_flatten_all_essence(opened, kinds, node.children);
    assert(parts =~= seq![parts[0], parts[1], parts[2]]);
    lemma_infix_fills_in_order(opened, kinds, parts[0], parts[1], parts[2]);
    if let Ok((first, one)) = flatten_operand_spec(opened, kinds, parts[0]) {
        let operator = kinds.spec_classify(parts[1].kind_id)->Operator_0;
        let half = FlatBinaryBuilder { one: Some(one), two: None, operator: Some(operator) };
        lemma_operand_keeps_shape(opened, kinds, parts[0]);
        if let Ok((second, two)) = flatten_operand_spec(with_active(first, half), kinds, parts[2]) {
            let full = FlatBinaryBuilder { one: Some(one), two: Some(two), operator: Some(operator) };
            lemma_operand_keeps_shape(with_active(first, half), kinds, parts[2]);
            assert(with_active(second, full).close().scopes =~= second.close().scopes);
        }
    }
}

/// A binary form in prefix writing leaves one expression without a first
/// operand: `one` is absent, and `two` is the index of the only operand.
/// Nothing is sent to any pool but what that operand sends.
pub proof fn lemma_prefix_form(builder: FlatBuilderView, kinds: NodeKinds, node: SyntaxTree)
    requires
        kinds.spec_classify(node.kind_id) is Binary,
        essences(kinds, node.children).len() == 2,
        kinds.spec_classify(essences(kinds, node.children)[0].kind_id) is Operator,
        kinds.spec_classify(essences(kinds, node.children)[1].kind_id).is_operand(),
    ensures
        ({
            let form = kinds.spec_classify(node.kind_id)->Binary_0;
            let parts = essences(kinds, node.children);
            let operator = kinds.spec_classify(parts[0].kind_id)->Operator_0;
            flatten_operand_spec(builder, kinds, node) == match flatten_operand_spec(
                with_active(
                    builder.open_binary(),
                    FlatBinaryBuilder { one: None, two: None, operator: Some(operator) },
                ),
                kinds,
                parts[1],
            ) {
                Ok((sent, two)) => sent.close().send_expression(
                    form.spec_expression(FlatBinary { one: None, two, operator }),
                ),
                Err(fault) => Err(fault),
            }
        }),
{
    let parts = essences(kinds, node.children);
    let opened = builder.open_binary();
    lemma_essences_named(kinds, node.children);
    lemma_flatten_all_essence(opened, kinds, node.children);
    assert(parts =~= seq![parts[0], parts[1]]);
    lemma_prefix_leaves_one_absent(opened, kinds, parts[0], parts[1]);
    let operator = kinds.spec_classify(parts[0].kind_id)->Operator_0;
    let begun = with_active(
        opened,
        FlatBinaryBuilder { one: None, two: None, operator: Some(operator) },
    );
    if let Ok((sent, two)) = flatten_operand_spec(begun, kinds, parts[1]) {
        let full = FlatBinaryBuilder { one: None, two: Some(two), operator: Some(operator) };
        lemma_operand_keeps_shape(begun, kinds, parts[1]);
        assert(with_active(sent, full).close().scopes =~= sent.close().scopes);
    }
}

/// The number of expressions that flattening a node appends to the source
/// that is open around the node: one for each binary form that stands in
/// the node outside any inner source.
pub open spec fn forms_of(kinds: NodeKinds, node: SyntaxTree) -> nat
    decreases node, 0nat,
{
    let class = kinds.spec_classify(node.kind_id);
    if class is Binary {
        forms_in(kinds, node.children) + 1
    } else if class is Parenthesize {
        forms_in(kinds, node.children)
    } else {
        0
    }
}

/// The number of expressions that flattening a list of nodes appends to the
/// source that is open around them.
pub open spec fn forms_in(kinds: NodeKinds, nodes: Seq<SyntaxTree>) -> nat
    decreases nodes, nodes.len(),
{
    if nodes.len() == 0 {
        0
    } else if !nodes.first().named {
        forms_in(kinds, nodes.drop_first())
    } else {
        forms_of(kinds, nodes.first()) + forms_in(kinds, nodes.drop_first())
    }
}

/// Whether `next` is what a chain with an open source may become by
/// flattening what appends `count` expressions to that source: the scopes
/// below the innermost source are as they were, and the innermost source
/// holds the expressions that it held, at their places, and `count` more
/// after them.
pub open spec fn scope_extended(builder: FlatBuilderView, next: FlatBuilderView, count: nat)
    -> bool {
    let at = innermost_source(builder.scopes);
    let before = builder.scopes[at]->Source_0.expressions;
    let after = next.scopes[at]->Source_0.expressions;
    &&& same_shape(builder, next)
    &&& forall|depth: int| 0 <= depth < at ==> next.scopes[depth] == builder.scopes[depth]
    &&& after.len() == before.len() + count
    &&& after.take(before.len() as int) == before
}

/// One flattening after another appends what the first appends and then
/// what the second appends.
pub proof fn lemma_scope_extended_twice(
    a: FlatBuilderView,
    b: FlatBuilderView,
    c: FlatBuilderView,
    first: nat,
    second: nat,
)
    requires
        innermost_source(a.scopes) >= 0,
        scope_extended(a, b, first),
        scope_extended(b, c, second),
    ensures
        scope_extended(a, c, first + second),
{
    lemma_same_innermost(a, b);
    let at = innermost_source(a.scopes);
    let one = a.scopes[at]->Source_0.expressions;
    let two = b.scopes[at]->Source_0.expressions;
    let three = c.scopes[at]->Source_0.expressions;
    assert forall|depth: int| 0 <= depth < at implies c.scopes[depth] == a.scopes[depth] by {
        assert(b.scopes[depth] == a.scopes[depth]);
    }
    assert(three.take(one.len() as int) =~= three.take(two.len() as int).take(one.len() as int));
}

/// Where a node is flattened against a chain with an open source, that
/// source keeps every expression that it holds at its place, so that every
/// index stays good, and receives one expression more for each binary form
/// of the node: expressions are never shared, moved or dropped.
pub proof fn lemma_expressions_after_node(
    builder: FlatBuilderView,
    kinds: NodeKinds,
    node: SyntaxTree,
)
    requires
        innermost_source(builder.scopes) >= 0,
    ensures
        flatten_node_spec(builder, kinds, node) matches Ok(next) ==> scope_extended(
            builder,
            next,
            forms_of(kinds, node),
        ),
    decreases node, 0nat,
{
    lemma_innermost_source(builder.scopes);
    lemma_flatten_node_keeps_shape(builder, kinds, node);
    let at = innermost_source(builder.scopes);
    let before = builder.scopes[at]->Source_0.expressions;
    assert(before.take(before.len() as int) =~= before);
    match kinds.spec_classify(node.kind_id) {
        NodeClass::Source => {
            let opened = builder.open_source();
            lemma_innermost_source_is(opened.scopes, builder.scopes.len() as int);
            lemma_expressions_after_list(opened, kinds, node.children);
            lemma_flatten_all_keeps_shape(opened, kinds, node.children);
            if let Ok(inner) = flatten_all_spec(opened, kinds, node.children) {
                let closed = inner.close();
                assert forall|depth: int| 0 <= depth < builder.scopes.len() implies #[trigger]
                    closed.scopes[depth] == builder.scopes[depth] by {
                    assert(inner.scopes[depth] == opened.scopes[depth]);
                }
                assert(closed.scopes =~= builder.scopes);
                if let Ok(next) = closed.take_source(inner.scopes.last()->Source_0) {
                    assert(next.scopes[at] == builder.scopes[at]);
                }
            }
        },
        NodeClass::Binary(form) => {
            let opened = builder.open_binary();
            lemma_innermost_source_is(opened.scopes, at);
            lemma_expressions_after_list(opened, kinds, node.children);
            lemma_flatten_all_keeps_shape(opened, kinds, node.children);
            if let Ok(inner) = flatten_all_spec(opened, kinds, node.children) {
                let closed = inner.close();
                assert(same_shape(builder, closed));
                lemma_same_innermost(builder, closed);
                lemma_innermost_source(closed.scopes);
                assert(closed.scopes[at] == inner.scopes[at]);
                assert(opened.scopes[at] == builder.scopes[at]);
                assert forall|depth: int| 0 <= depth < at implies closed.scopes[depth]
                    == builder.scopes[depth] by {
                    assert(inner.scopes[depth] == opened.scopes[depth]);
                }
                if let Ok(binary) = inner.scopes.last()->Binary_0.finished() {
                    let expression = form.spec_expression(binary);
                    if let Ok(next) = closed.take_expression(expression) {
                        let middle = closed.scopes[at]->Source_0.expressions;
                        let after = next.scopes[at]->Source_0.expressions;
                        assert(after == middle.push(expression));
                        assert(after.take(before.len() as int) =~= middle.take(
                            before.len() as int,
                        ));
                        assert forall|depth: int| 0 <= depth < at implies next.scopes[depth]
                            == builder.scopes[depth] by {
                            assert(closed.scopes[depth] == builder.scopes[depth]);
                        }
                    }
                }
            }
        },
        NodeClass::Parenthesize => {
            lemma_expressions_after_list(builder, kinds, node.children);
        },
        NodeClass::Identifier => {
            if let Ok((sent, index)) = builder.send_identifier(node.text) {
                lemma_innermost_source_is(sent.scopes, at);
            }
        },
        _ => {},
    }
}

/// Where a list of nodes is flattened against a chain with an open source,
/// that source keeps every expression that it holds at its place and
/// receives one expression more for each binary form of the list.
pub proof fn lemma_expressions_after_list(
    builder: FlatBuilderView,
    kinds: NodeKinds,
    nodes: Seq<SyntaxTree>,
)
    requires
        innermost_source(builder.scopes) >= 0,
    ensures
        flatten_all_spec(builder, kinds, nodes) matches Ok(next) ==> scope_extended(
            builder,
            next,
            forms_in(kinds, nodes),
        ),
    decreases nodes, nodes.len(),
{
    lemma_innermost_source(builder.scopes);
    let at = innermost_source(builder.scopes);
    let before = builder.scopes[at]->Source_0.expressions;
    assert(before.take(before.len() as int) =~= before);
    if nodes.len() == 0 {
    } else if !nodes.first().named {
        lemma_expressions_after_list(builder, kinds, nodes.drop_first());
    } else {
        lemma_expressions_after_node(builder, kinds, nodes.first());
        if let Ok(next) = flatten_node_spec(builder, kinds, nodes.first()) {
            lemma_same_innermost(builder, next);
            lemma_expressions_after_list(next, kinds, nodes.drop_first());
            if let Ok(last) = flatten_all_spec(next, kinds, nodes.drop_first()) {
                lemma_scope_extended_twice(
                    builder,
                    next,
                    last,
                    forms_of(kinds, nodes.first()),
                    forms_in(kinds, nodes.drop_first()),
                );
            }
        }
    }
}

/// The source that a container leaves holds one expression for each binary
/// form that stands in the container outside any inner source.
pub proof fn lemma_expressions_of_source(builder: FlatBuilderView, kinds: NodeKinds, node: SyntaxTree)
    requires
        kinds.spec_classify(node.kind_id) is Source,
    ensures
        flatten_operand_spec(builder, kinds, node) matches Ok((sent, _))
            ==> sent.root.sources.last().expressions.len() == forms_in(kinds, node.children),
{
    let opened = builder.open_source();
    lemma_innermost_source_is(opened.scopes, builder.scopes.len() as int);
    lemma_expressions_after_list(opened, kinds, node.children);
}

/// The binary form of an expression.
pub open spec fn form_of(expression: FlatExpression) -> FlatForm {
    match expression {
        FlatExpression::Member(_) => FlatForm::Member,
        FlatExpression::Call(_) => FlatForm::Call,
        FlatExpression::Multiplicative(_) => FlatForm::Multiplicative,
        FlatExpression::Additive(_) => FlatForm::Additive,
        FlatExpression::Comparison(_) => FlatForm::Comparison,
        FlatExpression::Logical(_) => FlatForm::Logical,
        FlatExpression::Assign(_) => FlatForm::Assign,
    }
}

/// The number of sources that flattening a node adds to the root: one for
/// each container that stands in the node, at any depth.
pub open spec fn sources_of(kinds: NodeKinds, node: SyntaxTree) -> nat
    decreases node, 0nat,
{
    let class = kinds.spec_classify(node.kind_id);
    if class is Source {
        sources_in(kinds, node.children) + 1
    } else if class is Binary || class is Parenthesize {
        sources_in(kinds, node.children)
    } else {
        0
    }
}

/// The number of sources that flattening a list of nodes adds to the root.
pub open spec fn sources_in(kinds: NodeKinds, nodes: Seq<SyntaxTree>) -> nat
    decreases nodes, nodes.len(),
{
    if nodes.len() == 0 {
        0
    } else if !nodes.first().named {
        sources_in(kinds, nodes.drop_first())
    } else {
        sources_of(kinds, nodes.first()) + sources_in(kinds, nodes.drop_first())
    }
}

/// Where a node is flattened, the root receives one source for each
/// container of the node, and none else.
pub proof fn lemma_sources_after_node(builder: FlatBuilderView, kinds: NodeKinds, node: SyntaxTree)
    ensures
        flatten_node_spec(builder, kinds, node) matches Ok(next) ==> next.root.sources.len()
            == builder.root.sources.len() + sources_of(kinds, node),
    decreases node, 0nat,
{
    match kinds.spec_classify(node.kind_id) {
        NodeClass::Source => {
            lemma_sources_after_list(builder.open_source(), kinds, node.children);
        },
        NodeClass::Binary(_) => {
            lemma_sources_after_list(builder.open_binary(), kinds, node.children);
        },
        NodeClass::Parenthesize => {
            lemma_sources_after_list(builder, kinds, node.children);
        },
        _ => {},
    }
}

/// Where a list of nodes is flattened, the root receives one source for
/// each container of the list, and none else.
pub proof fn lemma_sources_after_list(
    builder: FlatBuilderView,
    kinds: NodeKinds,
    nodes: Seq<SyntaxTree>,
)
    ensures
        flatten_all_spec(builder, kinds, nodes) matches Ok(next) ==> next.root.sources.len()
            == builder.root.sources.len() + sources_in(kinds, nodes),
    decreases nodes, nodes.len(),
{
    if nodes.len() == 0 {
    } else if !nodes.first().named {
        lemma_sources_after_list(builder, kinds, nodes.drop_first());
    } else {
        lemma_sources_after_node(builder, kinds, nodes.first());
        if let Ok(next) = flatten_node_spec(builder, kinds, nodes.first()) {
            lemma_sources_after_list(next, kinds, nodes.drop_first());
        }
    }
}

/// The expression that a binary form leaves is the last of its source when
/// the form is done: the expressions of its operands stand before it.
pub proof fn lemma_form_stands_last(builder: FlatBuilderView, kinds: NodeKinds, node: SyntaxTree)
    requires
        innermost_source(builder.scopes) >= 0,
        kinds.spec_classify(node.kind_id) is Binary,
        flatten_node_spec(builder, kinds, node) is Ok,
    ensures
        ({
            let next = flatten_node_spec(builder, kinds, node)->Ok_0;
            let after = next.scopes[innermost_source(builder.scopes)]->Source_0.expressions;
            after.len() > 0 && form_of(after.last()) == kinds.spec_classify(
                node.kind_id,
            )->Binary_0
        }),
{
    lemma_innermost_source(builder.scopes);
    let at = innermost_source(builder.scopes);
    let form = kinds.spec_classify(node.kind_id)->Binary_0;
    let opened = builder.open_binary();
    lemma_flatten_all_keeps_shape(opened, kinds, node.children);
    let inner = flatten_all_spec(opened, kinds, node.children)->Ok_0;
    let closed = inner.close();
    assert(same_shape(builder, closed));
    lemma_same_innermost(builder, closed);
    lemma_innermost_source(closed.scopes);
    let binary = inner.scopes.last()->Binary_0.finished()->Ok_0;
    let expression = form.spec_expression(binary);
    let sent = closed.send_expression(expression)->Ok_0.0;
    assert(sent.scopes[at]->Source_0.expressions == closed.scopes[at]->Source_0.expressions.push(
        expression,
    ));
}

/// The place, among the expressions that a list of nodes appends to its
/// source, of the expression that the node at `index` leaves for itself:
/// after the expressions of the nodes before it and of its own operands.
pub open spec fn place_of(kinds: NodeKinds, nodes: Seq<SyntaxTree>, index: int) -> int {
    forms_in(kinds, nodes.take(index + 1)) - 1
}

/// Where a list of nodes is flattened against a chain with an open source,
/// each binary form of the list leaves its own expression at its place:
/// after everything that the source held, after the expressions of the
/// nodes before it, and after those of its own operands. No expression is
/// dropped or moved.
pub proof fn lemma_form_at_its_place(
    builder: FlatBuilderView,
    kinds: NodeKinds,
    nodes: Seq<SyntaxTree>,
    index: int,
)
    requires
        innermost_source(builder.scopes) >= 0,
        0 <= index < nodes.len(),
        nodes[index].named,
        kinds.spec_classify(nodes[index].kind_id) is Binary,
        flatten_all_spec(builder, kinds, nodes) is Ok,
    ensures
        ({
            let at = innermost_source(builder.scopes);
            let before = builder.scopes[at]->Source_0.expressions;
            let next = flatten_all_spec(builder, kinds, nodes)->Ok_0;
            let after = next.scopes[at]->Source_0.expressions;
            let place = before.len() + place_of(kinds, nodes, index);
            &&& before.len() <= place < after.len()
            &&& form_of(after[place]) == kinds.spec_classify(nodes[index].kind_id)->Binary_0
        }),
    decreases nodes.len(),
{
    reveal_with_fuel(forms_in, 2);
    lemma_innermost_source(builder.scopes);
    let at = innermost_source(builder.scopes);
    let before = builder.scopes[at]->Source_0.expressions;
    let first = nodes.first();
    let rest = nodes.drop_first();
    let taken = nodes.take(index + 1);
    assert(taken.first() == first);
    assert(taken.drop_first() =~= rest.take(index));
    if !first.named {
        assert(rest[index - 1] == nodes[index]);
        lemma_form_at_its_place(builder, kinds, rest, index - 1);
    } else {
        let middle = flatten_node_spec(builder, kinds, first)->Ok_0;
        lemma_expressions_after_node(builder, kinds, first);
        lemma_same_innermost(builder, middle);
        lemma_expressions_after_list(middle, kinds, rest);
        let next = flatten_all_spec(middle, kinds, rest)->Ok_0;
        let between = middle.scopes[at]->Source_0.expressions;
        let after = next.scopes[at]->Source_0.expressions;
        if index == 0 {
            lemma_form_stands_last(builder, kinds, first);
            assert(rest.take(0) =~= Seq::<SyntaxTree>::empty());
            let place = before.len() + forms_of(kinds, first) - 1;
            assert(after.take(between.len() as int)[place] == after[place]);
        } else {
            assert(rest[index - 1] == nodes[index]);
            lemma_form_at_its_place(middle, kinds, rest, index - 1);
        }
    }
}

/// The places of the binary forms of a list stand in the order of the
/// list: a form that stands later in the list leaves its expression later.
pub proof fn lemma_places_in_order(kinds: NodeKinds, nodes: Seq<SyntaxTree>, one: int, two: int)
    requires
        0 <= one < two < nodes.len(),
        nodes[two].named,
        kinds.spec_classify(nodes[two].kind_id) is Binary,
    ensures
        place_of(kinds, nodes, one) < place_of(kinds, nodes, two),
        place_of(kinds, nodes, two) <= forms_in(kinds, nodes) - 1,
        two == nodes.len() - 1 ==> place_of(kinds, nodes, two) == forms_in(kinds, nodes) - 1,
{
    lemma_forms_in_grow(kinds, nodes, one + 1, two);
    lemma_forms_in_step(kinds, nodes, two);
    lemma_forms_in_grow(kinds, nodes, two + 1, nodes.len() as int);
    assert(nodes.take(nodes.len() as int) =~= nodes);
}

/// The expressions of the first nodes of a list and one node more are
/// those of the first nodes and those of that node.
pub proof fn lemma_forms_in_step(kinds: NodeKinds, nodes: Seq<SyntaxTree>, count: int)
    requires
        0 <= count < nodes.len(),
    ensures
        forms_in(kinds, nodes.take(count + 1)) == forms_in(kinds, nodes.take(count)) + (
        if nodes[count].named {
            forms_of(kinds, nodes[count])
        } else {
            0
        }),
    decreases count,
{
    reveal_with_fuel(forms_in, 2);
    let longer = nodes.take(count + 1);
    let shorter = nodes.take(count);
    if count == 0 {
        assert(longer.drop_first() =~= Seq::<SyntaxTree>::empty());
        assert(shorter =~= Seq::<SyntaxTree>::empty());
        assert(longer.first() == nodes[0]);
    } else {
        let rest = nodes.drop_first();
        assert(longer.first() == nodes.first());
        assert(shorter.first() == nodes.first());
        assert(longer.drop_first() =~= rest.take(count));
        assert(shorter.drop_first() =~= rest.take(count - 1));
        assert(rest[count - 1] == nodes[count]);
        lemma_forms_in_step(kinds, rest, count - 1);
    }
}

/// More nodes of a list append no fewer expressions.
pub proof fn lemma_forms_in_grow(kinds: NodeKinds, nodes: Seq<SyntaxTree>, fewer: int, more: int)
    requires
        0 <= fewer <= more <= nodes.len(),
    ensures
        forms_in(kinds, nodes.take(fewer)) <= forms_in(kinds, nodes.take(more)),
    decreases more - fewer,
{
    if fewer < more {
        lemma_forms_in_grow(kinds, nodes, fewer, more - 1);
        lemma_forms_in_step(kinds, nodes, more - 1);
    }
}

/// The statements of a source stand in the source in the order of the text.
/// Where a container holds no inner source and is flattened from the root,
/// the root that it yields holds one source, and each binary form among the
/// container's children has left its own expression there at its place:
/// after the expressions of the children before it and of its own operands.
pub proof fn lemma_statements_in_order(kinds: NodeKinds, tree: SyntaxTree, index: int)
    requires
        kinds.spec_classify(tree.kind_id) is Source,
        sources_in(kinds, tree.children) == 0,
        0 <= index < tree.children.len(),
        tree.children[index].named,
        kinds.spec_classify(tree.children[index].kind_id) is Binary,
        flatten_tree_spec(kinds, tree) is Ok,
    ensures
        ({
            let root = flatten_tree_spec(kinds, tree)->Ok_0;
            let place = place_of(kinds, tree.children, index);
            &&& root.sources.len() == 1
            &&& root.sources[0].expressions.len() == forms_in(kinds, tree.children)
            &&& 0 <= place < root.sources[0].expressions.len()
            &&& form_of(root.sources[0].expressions[place]) == kinds.spec_classify(
                tree.children[index].kind_id,
            )->Binary_0
        }),
{
    let opened = FlatBuilderView::empty().open_source();
    lemma_innermost_source_is(opened.scopes, 0);
    lemma_flatten_all_keeps_shape(opened, kinds, tree.children);
    lemma_sources_after_list(opened, kinds, tree.children);
    lemma_expressions_after_list(opened, kinds, tree.children);
    lemma_form_at_its_place(opened, kinds, tree.children, index);
}

} // verus!
