//! The invariant of a chain of builders: every index that a builder holds
//! refers to an entry that exists. Every operation of the chain keeps it,
//! and so does flattening.

use crate::builder::{
    innermost_source, lemma_innermost_source, same_shape, FlatBinaryBuilder, FlatBuilderView,
    FlatScopeView,
};
use crate::flat::{
    interned, lemma_intern_index, FlatExpression, FlatIndex, FlatLimits, FlatRootView,
    FlatSourceView,
};
use vstd::prelude::*;

verus! {

impl FlatLimits {
    /// Whether every pool is at most as large as under `other`.
    pub open spec fn at_most(self, other: FlatLimits) -> bool {
        &&& self.sources <= other.sources
        &&& self.expressions <= other.expressions
        &&& self.numbers <= other.numbers
        &&& self.strings <= other.strings
        &&& self.identifiers <= other.identifiers
    }
}

impl FlatBinaryBuilder {
    /// Whether each operand received so far refers to an entry that exists
    /// under `limits`.
    pub open spec fn within(self, limits: FlatLimits) -> bool {
        &&& self.one matches Some(one) ==> one.within(limits)
        &&& self.two matches Some(two) ==> two.within(limits)
    }
}

impl FlatBuilderView {
    /// The pool sizes that apply to what the scope at `depth` receives: those
    /// of the root, and those of the innermost source below `depth`.
    pub open spec fn limits_at(self, depth: int) -> FlatLimits {
        let at = innermost_source(self.scopes.take(depth));
        FlatLimits {
            sources: self.root.sources.len(),
            expressions: if at >= 0 {
                self.scopes[at]->Source_0.expressions.len()
            } else {
                0
            },
            numbers: self.root.numbers.len(),
            strings: self.root.strings.len(),
            identifiers: if at >= 0 {
                self.scopes[at]->Source_0.identifiers.len()
            } else {
                0
            },
        }
    }

    /// The pool sizes that apply to an index that a send has just returned.
    pub open spec fn limits(self) -> FlatLimits {
        self.limits_at(self.scopes.len() as int)
    }

    /// Whether the scope at `depth` holds only indices that refer to entries
    /// that exist.
    pub open spec fn scope_well_formed(self, depth: int) -> bool {
        match self.scopes[depth] {
            FlatScopeView::Source(source) => source.well_formed(
                self.root.sources.len(),
                self.root.numbers.len(),
                self.root.strings.len(),
            ),
            FlatScopeView::Binary(binary) => binary.within(self.limits_at(depth)),
        }
    }

    /// The root is well formed, each open source is well formed against the
    /// root as it stands, and each open binary builder holds only indices of
    /// entries that exist in the root or in the innermost source below it.
    pub open spec fn well_formed(self) -> bool {
        &&& self.root.well_formed()
        &&& forall|depth: int|
            0 <= depth < self.scopes.len() ==> #[trigger] self.scope_well_formed(depth)
    }

    /// Whether `other` has the same scopes as this chain, none of them and
    /// no pool of the root smaller than here.
    pub open spec fn grown_to(self, other: FlatBuilderView) -> bool {
        &&& same_shape(self, other)
        &&& self.root.sources.len() <= other.root.sources.len()
        &&& self.root.numbers.len() <= other.root.numbers.len()
        &&& self.root.strings.len() <= other.root.strings.len()
        &&& forall|depth: int|
            0 <= depth < self.scopes.len() && (#[trigger] self.scopes[depth]) is Source ==> {
                &&& self.scopes[depth]->Source_0.expressions.len()
                    <= other.scopes[depth]->Source_0.expressions.len()
                &&& self.scopes[depth]->Source_0.identifiers.len()
                    <= other.scopes[depth]->Source_0.identifiers.len()
            }
    }
}

/// Chains of the same shape have their innermost source at the same place,
/// below every depth.
pub proof fn lemma_same_shape_same_innermost(a: FlatBuilderView, b: FlatBuilderView, depth: int)
    requires
        same_shape(a, b),
        0 <= depth <= a.scopes.len(),
    ensures
        innermost_source(a.scopes.take(depth)) == innermost_source(b.scopes.take(depth)),
    decreases depth,
{
    if depth > 0 {
        let left = a.scopes.take(depth);
        let right = b.scopes.take(depth);
        assert(left.last() == a.scopes[depth - 1]);
        assert(right.last() == b.scopes[depth - 1]);
        assert(left.drop_last() =~= a.scopes.take(depth - 1));
        assert(right.drop_last() =~= b.scopes.take(depth - 1));
        lemma_same_shape_same_innermost(a, b, depth - 1);
    }
}

/// Where a chain has grown, the pool sizes that apply at each depth have not
/// shrunk.
pub proof fn lemma_grown_limits(a: FlatBuilderView, b: FlatBuilderView, depth: int)
    requires
        a.grown_to(b),
        0 <= depth <= a.scopes.len(),
    ensures
        a.limits_at(depth).at_most(b.limits_at(depth)),
{
    lemma_same_shape_same_innermost(a, b, depth);
    lemma_innermost_source(a.scopes.take(depth));
    let at = innermost_source(a.scopes.take(depth));
    if at >= 0 {
        assert(a.scopes.take(depth)[at] == a.scopes[at]);
    }
}

/// A source that is well formed stays so where the root's pools grow.
pub proof fn lemma_source_well_formed_monotone(
    source: FlatSourceView,
    sources: nat,
    numbers: nat,
    strings: nat,
    more_sources: nat,
    more_numbers: nat,
    more_strings: nat,
)
    requires
        source.well_formed(sources, numbers, strings),
        sources <= more_sources,
        numbers <= more_numbers,
        strings <= more_strings,
    ensures
        source.well_formed(more_sources, more_numbers, more_strings),
{
    assert forall|i: int| 0 <= i < source.expressions.len() implies (
    #[trigger] source.expressions[i]).spec_binary().within(
        source.limits_at(i, more_sources, more_numbers, more_strings),
    ) by {
        assert(source.expressions[i].spec_binary().within(
            source.limits_at(i, sources, numbers, strings),
        ));
    }
}

/// Where a well-formed chain has grown, each scope that stayed as it was is
/// still well formed.
pub proof fn lemma_grown_scope(a: FlatBuilderView, b: FlatBuilderView, depth: int)
    requires
        a.grown_to(b),
        0 <= depth < a.scopes.len(),
        a.scope_well_formed(depth),
        a.scopes[depth] == b.scopes[depth],
    ensures
        b.scope_well_formed(depth),
{
    match a.scopes[depth] {
        FlatScopeView::Source(source) => {
            lemma_source_well_formed_monotone(
                source,
                a.root.sources.len(),
                a.root.numbers.len(),
                a.root.strings.len(),
                b.root.sources.len(),
                b.root.numbers.len(),
                b.root.strings.len(),
            );
        },
        FlatScopeView::Binary(binary) => {
            lemma_grown_limits(a, b, depth);
        },
    }
}

/// A root that is well formed stays so where a number or a string is
/// interned.
pub proof fn lemma_root_interned(root: FlatRootView, token: Seq<char>)
    requires
        root.well_formed(),
    ensures
        root.with_number(token).well_formed(),
        root.with_string(token).well_formed(),
{
    lemma_intern_index(root.numbers, token);
    lemma_intern_index(root.strings, token);
    let numbered = root.with_number(token);
    assert forall|s: int| 0 <= s < numbered.sources.len() implies (
    #[trigger] numbered.sources[s]).well_formed(
        s as nat,
        numbered.numbers.len(),
        numbered.strings.len(),
    ) by {
        assert(root.sources[s].well_formed(s as nat, root.numbers.len(), root.strings.len()));
        lemma_source_well_formed_monotone(
            root.sources[s],
            s as nat,
            root.numbers.len(),
            root.strings.len(),
            s as nat,
            numbered.numbers.len(),
            numbered.strings.len(),
        );
    }
    let stringed = root.with_string(token);
    assert forall|s: int| 0 <= s < stringed.sources.len() implies (
    #[trigger] stringed.sources[s]).well_formed(
        s as nat,
        stringed.numbers.len(),
        stringed.strings.len(),
    ) by {
        assert(root.sources[s].well_formed(s as nat, root.numbers.len(), root.strings.len()));
        lemma_source_well_formed_monotone(
            root.sources[s],
            s as nat,
            root.numbers.len(),
            root.strings.len(),
            s as nat,
            stringed.numbers.len(),
            stringed.strings.len(),
        );
    }
}

/// Sending a number keeps a chain well formed, and the index that comes
/// back refers to an entry that exists.
pub proof fn lemma_send_number_well_formed(builder: FlatBuilderView, number: Seq<char>)
    requires
        builder.well_formed(),
    ensures
        builder.send_number(number).0.well_formed(),
        builder.grown_to(builder.send_number(number).0),
        builder.send_number(number).1.within(builder.send_number(number).0.limits()),
{
    let next = builder.send_number(number).0;
    lemma_root_interned(builder.root, number);
    lemma_intern_index(builder.root.numbers, number);
    assert(builder.grown_to(next));
    assert forall|depth: int| 0 <= depth < next.scopes.len() implies #[trigger]
        next.scope_well_formed(depth) by {
        assert(builder.scope_well_formed(depth));
        lemma_grown_scope(builder, next, depth);
    }
}

/// Sending a string keeps a chain well formed, and the index that comes
/// back refers to an entry that exists.
pub proof fn lemma_send_string_well_formed(builder: FlatBuilderView, string: Seq<char>)
    requires
        builder.well_formed(),
    ensures
        builder.send_string(string).0.well_formed(),
        builder.grown_to(builder.send_string(string).0),
        builder.send_string(string).1.within(builder.send_string(string).0.limits()),
{
    let next = builder.send_string(string).0;
    lemma_root_interned(builder.root, string);
    lemma_intern_index(builder.root.strings, string);
    assert(builder.grown_to(next));
    assert forall|depth: int| 0 <= depth < next.scopes.len() implies #[trigger]
        next.scope_well_formed(depth) by {
        assert(builder.scope_well_formed(depth));
        lemma_grown_scope(builder, next, depth);
    }
}

/// Sending a source that is well formed against the root keeps a chain well
/// formed, and the index that comes back refers to an entry that exists.
pub proof fn lemma_send_source_well_formed(builder: FlatBuilderView, source: FlatSourceView)
    requires
        builder.well_formed(),
        source.well_formed(
            builder.root.sources.len(),
            builder.root.numbers.len(),
            builder.root.strings.len(),
        ),
    ensures
        builder.send_source(source).0.well_formed(),
        builder.grown_to(builder.send_source(source).0),
        builder.send_source(source).1.within(builder.send_source(source).0.limits()),
{
    let next = builder.send_source(source).0;
    assert(builder.grown_to(next));
    assert forall|s: int| 0 <= s < next.root.sources.len() implies (
    #[trigger] next.root.sources[s]).well_formed(
        s as nat,
        next.root.numbers.len(),
        next.root.strings.len(),
    ) by {
        if s < builder.root.sources.len() {
            assert(builder.root.sources[s].well_formed(
                s as nat,
                builder.root.numbers.len(),
                builder.root.strings.len(),
            ));
        }
    }
    assert forall|depth: int| 0 <= depth < next.scopes.len() implies #[trigger]
        next.scope_well_formed(depth) by {
        assert(builder.scope_well_formed(depth));
        lemma_grown_scope(builder, next, depth);
    }
}

/// The pool sizes that apply to a send are those of the innermost source,
/// as long as that source is as it was.
pub proof fn lemma_limits_of_innermost(builder: FlatBuilderView)
    ensures
        innermost_source(builder.scopes) >= 0 ==> builder.limits().expressions
            == builder.scopes[innermost_source(builder.scopes)]->Source_0.expressions.len()
            && builder.limits().identifiers
            == builder.scopes[innermost_source(builder.scopes)]->Source_0.identifiers.len(),
        builder.in_binary() ==> builder.limits() == builder.limits_at(builder.scopes.len() - 1),
{
    assert(builder.scopes.take(builder.scopes.len() as int) =~= builder.scopes);
    if builder.in_binary() {
        assert(builder.scopes.drop_last() =~= builder.scopes.take(builder.scopes.len() - 1));
    }
}

/// Sending an expression whose operands exist keeps a chain well formed,
/// and the index that comes back refers to an entry that exists.
pub proof fn lemma_send_expression_well_formed(
    builder: FlatBuilderView,
    expression: FlatExpression,
)
    requires
        builder.well_formed(),
        expression.spec_binary().within(builder.limits()),
    ensures
        builder.send_expression(expression) matches Ok((next, index)) ==> next.well_formed()
            && builder.grown_to(next) && index.within(next.limits()),
{
    if let Ok((next, index)) = builder.send_expression(expression) {
        let at = innermost_source(builder.scopes);
        lemma_innermost_source(builder.scopes);
        lemma_limits_of_innermost(builder);
        let source = builder.scopes[at]->Source_0;
        let grown = source.with_expression(expression);
        assert(builder.grown_to(next));
        assert(builder.scope_well_formed(at));
        assert forall|depth: int| 0 <= depth < next.scopes.len() implies #[trigger]
            next.scope_well_formed(depth) by {
            assert(builder.scope_well_formed(depth));
            if depth == at {
                assert forall|i: int| 0 <= i < grown.expressions.len() implies (
                #[trigger] grown.expressions[i]).spec_binary().within(
                    grown.limits_at(
                        i,
                        next.root.sources.len(),
                        next.root.numbers.len(),
                        next.root.strings.len(),
                    ),
                ) by {
                    if i < source.expressions.len() {
                        assert(source.expressions[i].spec_binary().within(
                            source.limits_at(
                                i,
                                builder.root.sources.len(),
                                builder.root.numbers.len(),
                                builder.root.strings.len(),
                            ),
                        ));
                    }
                }
            } else {
                lemma_grown_scope(builder, next, depth);
            }
        }
        lemma_same_shape_same_innermost(builder, next, builder.scopes.len() as int);
        lemma_limits_of_innermost(next);
        assert(builder.scopes.take(builder.scopes.len() as int) =~= builder.scopes);
        assert(next.scopes.take(next.scopes.len() as int) =~= next.scopes);
    }
}

/// Sending an identifier keeps a chain well formed, and the index that
/// comes back refers to an entry that exists.
pub proof fn lemma_send_identifier_well_formed(builder: FlatBuilderView, identifier: Seq<char>)
    requires
        builder.well_formed(),
    ensures
        builder.send_identifier(identifier) matches Ok((next, index)) ==> next.well_formed()
            && builder.grown_to(next) && index.within(next.limits()),
{
    if let Ok((next, index)) = builder.send_identifier(identifier) {
        let at = innermost_source(builder.scopes);
        lemma_innermost_source(builder.scopes);
        let source = builder.scopes[at]->Source_0;
        let grown = source.with_identifier(identifier);
        lemma_intern_index(source.identifiers, identifier);
        assert(builder.grown_to(next));
        assert(builder.scope_well_formed(at));
        assert forall|depth: int| 0 <= depth < next.scopes.len() implies #[trigger]
            next.scope_well_formed(depth) by {
            assert(builder.scope_well_formed(depth));
            if depth == at {
                assert forall|i: int| 0 <= i < grown.expressions.len() implies (
                #[trigger] grown.expressions[i]).spec_binary().within(
                    grown.limits_at(
                        i,
                        next.root.sources.len(),
                        next.root.numbers.len(),
                        next.root.strings.len(),
                    ),
                ) by {
                    assert(source.expressions[i].spec_binary().within(
                        source.limits_at(
                            i,
                            builder.root.sources.len(),
                            builder.root.numbers.len(),
                            builder.root.strings.len(),
                        ),
                    ));
                }
            } else {
                lemma_grown_scope(builder, next, depth);
            }
        }
        lemma_same_shape_same_innermost(builder, next, builder.scopes.len() as int);
        lemma_limits_of_innermost(next);
        assert(builder.scopes.take(builder.scopes.len() as int) =~= builder.scopes);
        assert(next.scopes.take(next.scopes.len() as int) =~= next.scopes);
    }
}

/// Offering an index of an entry that exists keeps a chain well formed.
pub proof fn lemma_index_well_formed(builder: FlatBuilderView, index: FlatIndex)
    requires
        builder.well_formed(),
        index.within(builder.limits()),
    ensures
        builder.index(index) matches Ok(next) ==> next.well_formed() && builder.grown_to(next),
        builder.record(index) matches Ok(next) ==> next.well_formed() && builder.grown_to(next),
{
    assert(builder.grown_to(builder));
    if let Ok(next) = builder.index(index) {
        let top = builder.scopes.len() - 1;
        lemma_limits_of_innermost(builder);
        assert(builder.grown_to(next));
        assert forall|depth: int| 0 <= depth < next.scopes.len() implies #[trigger]
            next.scope_well_formed(depth) by {
            assert(builder.scope_well_formed(depth));
            if depth == top {
                lemma_grown_limits(builder, next, depth);
            } else {
                lemma_grown_scope(builder, next, depth);
            }
        }
    }
}

/// Offering an operator keeps a chain well formed.
pub proof fn lemma_operator_well_formed(
    builder: FlatBuilderView,
    operator: crate::flat::FlatOperator,
)
    requires
        builder.well_formed(),
    ensures
        builder.operator(operator) matches Ok(next) ==> next.well_formed() && builder.grown_to(
            next,
        ),
{
    if let Ok(next) = builder.operator(operator) {
        let top = builder.scopes.len() - 1;
        assert(builder.grown_to(next));
        assert forall|depth: int| 0 <= depth < next.scopes.len() implies #[trigger]
            next.scope_well_formed(depth) by {
            assert(builder.scope_well_formed(depth));
            if depth == top {
                lemma_grown_limits(builder, next, depth);
            } else {
                lemma_grown_scope(builder, next, depth);
            }
        }
    }
}

/// Where `b` has grown from `a` and `c` from `b`, `c` has grown from `a`.
pub proof fn lemma_grown_transitive(a: FlatBuilderView, b: FlatBuilderView, c: FlatBuilderView)
    requires
        a.grown_to(b),
        b.grown_to(c),
    ensures
        a.grown_to(c),
{
    assert forall|depth: int|
        0 <= depth < a.scopes.len() && (#[trigger] a.scopes[depth]) is Source implies {
        &&& a.scopes[depth]->Source_0.expressions.len()
            <= c.scopes[depth]->Source_0.expressions.len()
        &&& a.scopes[depth]->Source_0.identifiers.len()
            <= c.scopes[depth]->Source_0.identifiers.len()
    } by {
        assert(b.scopes[depth] is Source);
    }
}

/// Taking a number, a string or an identifier keeps a chain well formed.
pub proof fn lemma_take_token_well_formed(builder: FlatBuilderView, token: Seq<char>)
    requires
        builder.well_formed(),
    ensures
        builder.take_number(token) matches Ok(next) ==> next.well_formed() && builder.grown_to(
            next,
        ),
        builder.take_string(token) matches Ok(next) ==> next.well_formed() && builder.grown_to(
            next,
        ),
        builder.take_identifier(token) matches Ok(next) ==> next.well_formed()
            && builder.grown_to(next),
{
    lemma_send_number_well_formed(builder, token);
    let (numbered, number) = builder.send_number(token);
    lemma_index_well_formed(numbered, number);
    if let Ok(next) = builder.take_number(token) {
        lemma_grown_transitive(builder, numbered, next);
    }
    lemma_send_string_well_formed(builder, token);
    let (stringed, string) = builder.send_string(token);
    lemma_index_well_formed(stringed, string);
    if let Ok(next) = builder.take_string(token) {
        lemma_grown_transitive(builder, stringed, next);
    }
    lemma_send_identifier_well_formed(builder, token);
    if let Ok((named, identifier)) = builder.send_identifier(token) {
        lemma_index_well_formed(named, identifier);
        if let Ok(next) = builder.take_identifier(token) {
            lemma_grown_transitive(builder, named, next);
        }
    }
}

/// Taking a source that is well formed against the root keeps a chain well
/// formed.
pub proof fn lemma_take_source_well_formed(builder: FlatBuilderView, source: FlatSourceView)
    requires
        builder.well_formed(),
        source.well_formed(
            builder.root.sources.len(),
            builder.root.numbers.len(),
            builder.root.strings.len(),
        ),
    ensures
        builder.take_source(source) matches Ok(next) ==> next.well_formed() && builder.grown_to(
            next,
        ),
{
    lemma_send_source_well_formed(builder, source);
    let (sent, index) = builder.send_source(source);
    lemma_index_well_formed(sent, index);
    if let Ok(next) = builder.take_source(source) {
        lemma_grown_transitive(builder, sent, next);
    }
}

/// Taking an expression whose operands exist keeps a chain well formed.
pub proof fn lemma_take_expression_well_formed(
    builder: FlatBuilderView,
    expression: FlatExpression,
)
    requires
        builder.well_formed(),
        expression.spec_binary().within(builder.limits()),
    ensures
        builder.take_expression(expression) matches Ok(next) ==> next.well_formed()
            && builder.grown_to(next),
{
    lemma_send_expression_well_formed(builder, expression);
    if let Ok((sent, index)) = builder.send_expression(expression) {
        lemma_index_well_formed(sent, index);
        if let Ok(next) = builder.take_expression(expression) {
            lemma_grown_transitive(builder, sent, next);
        }
    }
}

/// Chains with the same root and the same scopes below `depth` have the
/// same pool sizes there.
pub proof fn lemma_limits_of_prefix(a: FlatBuilderView, b: FlatBuilderView, depth: int)
    requires
        a.root == b.root,
        0 <= depth <= a.scopes.len(),
        depth <= b.scopes.len(),
        a.scopes.take(depth) == b.scopes.take(depth),
    ensures
        a.limits_at(depth) == b.limits_at(depth),
{
    let prefix = a.scopes.take(depth);
    lemma_innermost_source(prefix);
    let at = innermost_source(prefix);
    if at >= 0 {
        assert(a.scopes[at] == prefix[at]);
        assert(b.scopes[at] == b.scopes.take(depth)[at]);
    }
}

/// Opening a scope keeps a chain well formed.
pub proof fn lemma_open_well_formed(builder: FlatBuilderView)
    requires
        builder.well_formed(),
    ensures
        builder.open_source().well_formed(),
        builder.open_binary().well_formed(),
{
    let sourced = builder.open_source();
    assert forall|depth: int| 0 <= depth < sourced.scopes.len() implies #[trigger]
        sourced.scope_well_formed(depth) by {
        if depth < builder.scopes.len() {
            assert(builder.scope_well_formed(depth));
            assert(sourced.scopes.take(depth) =~= builder.scopes.take(depth));
            assert(sourced.scopes[depth] == builder.scopes[depth]);
            lemma_limits_of_prefix(builder, sourced, depth);
        }
    }
    let paired = builder.open_binary();
    assert forall|depth: int| 0 <= depth < paired.scopes.len() implies #[trigger]
        paired.scope_well_formed(depth) by {
        if depth < builder.scopes.len() {
            assert(builder.scope_well_formed(depth));
            assert(paired.scopes.take(depth) =~= builder.scopes.take(depth));
            assert(paired.scopes[depth] == builder.scopes[depth]);
            lemma_limits_of_prefix(builder, paired, depth);
        }
    }
}

/// Closing the active scope keeps a chain well formed. A source that is
/// closed is well formed against the root; a binary builder that is closed
/// holds only indices that exist for the chain that is left.
pub proof fn lemma_close_well_formed(builder: FlatBuilderView)
    requires
        builder.well_formed(),
        builder.scopes.len() > 0,
    ensures
        builder.close().well_formed(),
        builder.scopes.last() matches FlatScopeView::Source(source) ==> source.well_formed(
            builder.root.sources.len(),
            builder.root.numbers.len(),
            builder.root.strings.len(),
        ),
        builder.scopes.last() matches FlatScopeView::Binary(binary) ==> binary.within(
            builder.close().limits(),
        ),
{
    let closed = builder.close();
    let top = builder.scopes.len() - 1;
    assert(builder.scope_well_formed(top));
    assert forall|depth: int| 0 <= depth < closed.scopes.len() implies #[trigger]
        closed.scope_well_formed(depth) by {
        assert(builder.scope_well_formed(depth));
        assert(closed.scopes.take(depth) =~= builder.scopes.take(depth));
        assert(closed.scopes[depth] == builder.scopes[depth]);
        lemma_limits_of_prefix(builder, closed, depth);
    }
    assert(closed.scopes.take(top) =~= builder.scopes.take(top));
    lemma_limits_of_prefix(builder, closed, top);
}

} // verus!
