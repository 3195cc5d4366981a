//! The builders that the flattener drives: one for the root, one for each
//! open source, one for each open binary expression, and the chain that
//! links the active builder to the root.

use crate::flat::{
    identifier_texts, intern_index, interned, lemma_intern_index_is, number_texts, source_views,
    string_texts, FlatBinary, FlatExpression, FlatIdentifier, FlatIndex, FlatNumber, FlatOperator,
    FlatRoot, FlatRootView, FlatSource, FlatSourceView, FlatString,
};
use crate::general::{flatten_error, Error, ValidationError};
use vstd::prelude::*;

verus! {

/// The message for an expression that is offered to the root builder.
pub const EXPRESSION_AT_ROOT: &'static str =
    "Error: Invalid syntax - expressions cannot be placed at the root level; they must be inside a source block.";

/// The message for an identifier that is offered to the root builder.
pub const IDENTIFIER_AT_ROOT: &'static str =
    "Error: Invalid syntax - identifiers cannot be placed at the root level; they must be inside a source block.";

/// The message for an index that is offered to the root builder.
pub const INDEX_AT_ROOT: &'static str =
    "Error: Invalid syntax - indexes cannot be placed at the root level; they must be inside expressions.";

/// The message for an operator that is offered to the root builder.
pub const OPERATOR_AT_ROOT: &'static str =
    "Error: Invalid syntax - operators cannot be placed at the root level; they must be inside expressions.";

/// The message for an index that is offered to a source builder.
pub const INDEX_IN_SOURCE: &'static str =
    "Error: Invalid syntax - indexes cannot be placed directly in a source block; they must be inside binary expressions.";

/// The message for an operator that is offered to a source builder.
pub const OPERATOR_IN_SOURCE: &'static str =
    "Error: Invalid syntax - operators cannot be placed directly in a source block; they must be inside binary expressions.";

/// The message for a binary builder that is finished too early.
pub const INCOMPLETE_BINARY: &'static str = "Error: Incomplete binary expression.";

/// The message for a third operand that is offered to a binary builder.
pub const THIRD_OPERAND: &'static str =
    "Error: Invalid binary expression - attempted to add a third operand, but binary operations can only have exactly two operands.";

/// The message for a second operator that is offered to a binary builder.
pub const SECOND_OPERATOR: &'static str =
    "Error: Invalid binary expression - attempted to add a second operator, but binary operations can only have exactly one operator.";

/// The start of the message for a node of an unknown kind; the name of the kind follows.
pub const UNKNOWN_NODE: &'static str = "Error: Cannot process node of unknown type ";

/// The end of a message that names something.
pub const FULL_STOP: &'static str = ".";

/// Why a builder refused what it was offered.
pub enum FlatFault {
    ExpressionAtRoot,
    IdentifierAtRoot,
    IndexAtRoot,
    OperatorAtRoot,
    IndexInSource,
    OperatorInSource,
    IncompleteBinary,
    ThirdOperand,
    SecondOperator,
    /// A node of a kind that the flattener does not know; it carries the
    /// kind's name.
    UnknownNode(Seq<char>),
    /// A pair of parentheses with nothing between them.
    EmptyParentheses,
}

impl FlatFault {
    /// The message of the error that reports the fault.
    pub open spec fn message(self) -> Seq<char> {
        match self {
            FlatFault::ExpressionAtRoot => EXPRESSION_AT_ROOT@,
            FlatFault::IdentifierAtRoot => IDENTIFIER_AT_ROOT@,
            FlatFault::IndexAtRoot => INDEX_AT_ROOT@,
            FlatFault::OperatorAtRoot => OPERATOR_AT_ROOT@,
            FlatFault::IndexInSource => INDEX_IN_SOURCE@,
            FlatFault::OperatorInSource => OPERATOR_IN_SOURCE@,
            FlatFault::IncompleteBinary => INCOMPLETE_BINARY@,
            FlatFault::ThirdOperand => THIRD_OPERAND@,
            FlatFault::SecondOperator => SECOND_OPERATOR@,
            FlatFault::UnknownNode(kind) => UNKNOWN_NODE@ + kind + FULL_STOP@,
            FlatFault::EmptyParentheses => Seq::empty(),
        }
    }

    /// Whether `error` is the error that reports the fault: for empty
    /// parentheses the validation error for an empty expression, for any
    /// other fault the flatten error with the fault's message.
    pub open spec fn is_reported_by(self, error: Error) -> bool {
        if self is EmptyParentheses {
            error matches Error::ValidationError(ValidationError::EmptyExpression)
        } else {
            error.is_flatten(self.message())
        }
    }
}

/// Accumulates the operands and the operator of one binary expression. It
/// keeps the index of each operand, never the operand itself.
#[derive(Debug, PartialEq, Eq, Clone, Copy)]
pub struct FlatBinaryBuilder {
    pub one: Option<FlatIndex>,
    pub two: Option<FlatIndex>,
    pub operator: Option<FlatOperator>,
}

impl FlatBinaryBuilder {
    /// The builder that has received nothing.
    pub open spec fn empty() -> FlatBinaryBuilder {
        FlatBinaryBuilder { one: None, two: None, operator: None }
    }

    /// The builder after an operand's index is offered: the index fills `one`
    /// where neither `one` nor the operator is set, else `two` where that is
    /// free; a further operand is refused.
    pub open spec fn after_index(self, index: FlatIndex) -> Result<FlatBinaryBuilder, FlatFault> {
        if self.one is None && self.operator is None {
            Ok(FlatBinaryBuilder { one: Some(index), ..self })
        } else if self.two is None {
            Ok(FlatBinaryBuilder { two: Some(index), ..self })
        } else {
            Err(FlatFault::ThirdOperand)
        }
    }

    /// The builder after an operator is offered: a second one is refused.
    pub open spec fn after_operator(self, operator: FlatOperator) -> Result<
        FlatBinaryBuilder,
        FlatFault,
    > {
        if self.operator is Some {
            Err(FlatFault::SecondOperator)
        } else {
            Ok(FlatBinaryBuilder { operator: Some(operator), ..self })
        }
    }

    /// The binary that the builder stands for, once its second operand and
    /// its operator are set.
    pub open spec fn finished(self) -> Result<FlatBinary, FlatFault> {
        if self.two is Some && self.operator is Some {
            Ok(FlatBinary { one: self.one, two: self.two->0, operator: self.operator->0 })
        } else {
            Err(FlatFault::IncompleteBinary)
        }
    }

    /// A builder that has received nothing.
    pub fn new() -> (builder: Self)
        ensures
            builder == Self::empty(),
    {
        FlatBinaryBuilder { one: None, two: None, operator: None }
    }

    /// Finishes the builder. It fails where the second operand or the
    /// operator is missing; the first operand may be absent.
    pub fn binary(self) -> (result: Result<FlatBinary, Error>)
        ensures
            match self.finished() {
                Ok(binary) => result == Ok::<FlatBinary, Error>(binary),
                Err(fault) => result matches Err(error) && error.is_flatten(fault.message()),
            },
    {
        match (self.two, self.operator) {
            (Some(two), Some(operator)) => Ok(FlatBinary { one: self.one, two, operator }),
            _ => Err(flatten_error(INCOMPLETE_BINARY)),
        }
    }

    /// Offers the index of an operand. It fills `one` where neither `one` nor
    /// the operator is set, else `two`; a third operand is refused.
    pub fn index(&mut self, index: FlatIndex) -> (result: Result<(), Error>)
        ensures
            match old(self).after_index(index) {
                Ok(builder) => result is Ok && *final(self) == builder,
                Err(fault) => *final(self) == *old(self) && (result matches Err(error)
                    && error.is_flatten(fault.message())),
            },
    {
        if self.one.is_none() && self.operator.is_none() {
            self.one = Some(index);
        } else if self.two.is_none() {
            self.two = Some(index);
        } else {
            return Err(flatten_error(THIRD_OPERAND));
        }
        Ok(())
    }

    /// Offers the operator. A second operator is refused.
    pub fn operator(&mut self, operator: FlatOperator) -> (result: Result<(), Error>)
        ensures
            match old(self).after_operator(operator) {
                Ok(builder) => result is Ok && *final(self) == builder,
                Err(fault) => *final(self) == *old(self) && (result matches Err(error)
                    && error.is_flatten(fault.message())),
            },
    {
        if self.operator.is_some() {
            return Err(flatten_error(SECOND_OPERATOR));
        }
        self.operator = Some(operator);
        Ok(())
    }
}

/// A token of one of the pools: what is compared when a pool is searched.
pub trait FlatToken: Sized {
    /// The token's text.
    spec fn text(&self) -> Seq<char>;

    /// Whether two tokens have the same text.
    fn same(&self, other: &Self) -> (same: bool)
        ensures
            same == (self.text() == other.text()),
    ;
}

impl FlatToken for FlatNumber {
    open spec fn text(&self) -> Seq<char> {
        self@
    }

    fn same(&self, other: &Self) -> (same: bool) {
        self.0 == other.0
    }
}

impl FlatToken for FlatString {
    open spec fn text(&self) -> Seq<char> {
        self@
    }

    fn same(&self, other: &Self) -> (same: bool) {
        self.0 == other.0
    }
}

impl FlatToken for FlatIdentifier {
    open spec fn text(&self) -> Seq<char> {
        self@
    }

    fn same(&self, other: &Self) -> (same: bool) {
        self.0 == other.0
    }
}

/// The texts of a pool of tokens.
pub open spec fn token_texts<T: FlatToken>(pool: Seq<T>) -> Seq<Seq<char>> {
    Seq::new(pool.len(), |i: int| pool[i].text())
}

/// Interns `token` into `pool`: where a token of the same text is there, the
/// pool is left as it is and the first such position is returned; else the
/// token goes to the end and its new position is returned.
pub fn intern<T: FlatToken>(pool: &mut Vec<T>, token: T) -> (position: usize)
    ensures
        position == intern_index(token_texts(old(pool)@), token.text()),
        token_texts(final(pool)@) == interned(token_texts(old(pool)@), token.text()),
        position < final(pool).len(),
{
    let ghost texts = token_texts(pool@);
    let mut i: usize = 0;
    while i < pool.len()
        invariant
            i <= pool.len(),
            *pool == *old(pool),
            texts == token_texts(pool@),
            forall|j: int| 0 <= j < i ==> texts[j] != token.text(),
        decreases pool.len() - i,
    {
        if pool[i].same(&token) {
            proof {
                assert(texts[i as int] == token.text());
                lemma_intern_index_is(texts, token.text(), i as int);
            }
            return i;
        }
        i += 1;
    }
    proof {
        lemma_intern_index_is(texts, token.text(), i as int);
    }
    pool.push(token);
    assert(token_texts(pool@) =~= texts.push(token.text()));
    i
}

/// Owns the sources that were finished and the two global pools. It accepts
/// a source, a number and a string, and nothing else.
pub struct FlatRootBuilder {
    pub sources: Vec<FlatSource>,
    pub numbers: Vec<FlatNumber>,
    pub strings: Vec<FlatString>,
}

impl View for FlatRootBuilder {
    type V = FlatRootView;

    open spec fn view(&self) -> FlatRootView {
        FlatRootView {
            sources: source_views(self.sources@),
            numbers: number_texts(self.numbers@),
            strings: string_texts(self.strings@),
        }
    }
}

impl FlatRootView {
    /// The root after a finished source is added.
    pub open spec fn with_source(self, source: FlatSourceView) -> FlatRootView {
        FlatRootView { sources: self.sources.push(source), ..self }
    }

    /// The root after a number token is interned.
    pub open spec fn with_number(self, number: Seq<char>) -> FlatRootView {
        FlatRootView { numbers: interned(self.numbers, number), ..self }
    }

    /// The root after a string token is interned.
    pub open spec fn with_string(self, string: Seq<char>) -> FlatRootView {
        FlatRootView { strings: interned(self.strings, string), ..self }
    }
}

impl FlatRootBuilder {
    /// A root builder with no source and empty pools.
    pub fn new() -> (builder: Self)
        ensures
            builder@ == FlatRootView::empty(),
    {
        let builder = FlatRootBuilder {
            sources: Vec::new(),
            numbers: Vec::new(),
            strings: Vec::new(),
        };
        assert(builder@.sources =~= Seq::empty());
        assert(builder@.numbers =~= Seq::empty());
        assert(builder@.strings =~= Seq::empty());
        builder
    }

    /// Hands over what was built. It never fails.
    pub fn root(self) -> (result: Result<FlatRoot, Error>)
        ensures
            result matches Ok(root) && root@ == self@,
    {
        Ok(FlatRoot { sources: self.sources, numbers: self.numbers, strings: self.strings })
    }

    /// Adds a finished source and returns its index.
    pub fn send_source(&mut self, source: FlatSource) -> (result: Result<FlatIndex, Error>)
        ensures
            result == Ok::<FlatIndex, Error>(FlatIndex::Source(old(self).sources.len())),
            final(self)@ == old(self)@.with_source(source@),
    {
        let index = FlatIndex::Source(self.sources.len());
        self.sources.push(source);
        assert(self@.sources =~= old(self)@.sources.push(source@));
        Ok(index)
    }

    /// Refuses the expression: expressions belong to a source.
    pub fn send_expression(&mut self, expression: FlatExpression) -> (result: Result<
        FlatIndex,
        Error,
    >)
        ensures
            result matches Err(error) && error.is_flatten(FlatFault::ExpressionAtRoot.message()),
            *final(self) == *old(self),
    {
        Err(flatten_error(EXPRESSION_AT_ROOT))
    }

    /// Interns a number token and returns its index.
    pub fn send_number(&mut self, number: FlatNumber) -> (result: Result<FlatIndex, Error>)
        ensures
            result == Ok::<FlatIndex, Error>(
                FlatIndex::Number(intern_index(old(self)@.numbers, number@) as usize),
            ),
            final(self)@ == old(self)@.with_number(number@),
    {
        assert(token_texts(self.numbers@) =~= self@.numbers);
        let position = intern(&mut self.numbers, number);
        assert(token_texts(self.numbers@) =~= self@.numbers);
        Ok(FlatIndex::Number(position))
    }

    /// Interns a string token and returns its index.
    pub fn send_string(&mut self, string: FlatString) -> (result: Result<FlatIndex, Error>)
        ensures
            result == Ok::<FlatIndex, Error>(
                FlatIndex::String(intern_index(old(self)@.strings, string@) as usize),
            ),
            final(self)@ == old(self)@.with_string(string@),
    {
        assert(token_texts(self.strings@) =~= self@.strings);
        let position = intern(&mut self.strings, string);
        assert(token_texts(self.strings@) =~= self@.strings);
        Ok(FlatIndex::String(position))
    }

    /// Refuses the identifier: identifiers belong to a source.
    pub fn send_identifier(&mut self, identifier: FlatIdentifier) -> (result: Result<
        FlatIndex,
        Error,
    >)
        ensures
            result matches Err(error) && error.is_flatten(FlatFault::IdentifierAtRoot.message()),
            *final(self) == *old(self),
    {
        Err(flatten_error(IDENTIFIER_AT_ROOT))
    }

    /// Refuses the index: only a binary builder records operands.
    pub fn index(&mut self, index: FlatIndex) -> (result: Result<(), Error>)
        ensures
            result matches Err(error) && error.is_flatten(FlatFault::IndexAtRoot.message()),
            *final(self) == *old(self),
    {
        Err(flatten_error(INDEX_AT_ROOT))
    }

    /// Refuses the operator: only a binary builder takes one.
    pub fn operator(&mut self, operator: FlatOperator) -> (result: Result<(), Error>)
        ensures
            result matches Err(error) && error.is_flatten(FlatFault::OperatorAtRoot.message()),
            *final(self) == *old(self),
    {
        Err(flatten_error(OPERATOR_AT_ROOT))
    }
}

/// Owns the expressions and the identifier pool of one open source.
pub struct FlatSourceBuilder {
    pub expressions: Vec<FlatExpression>,
    pub identifiers: Vec<FlatIdentifier>,
}

impl View for FlatSourceBuilder {
    type V = FlatSourceView;

    open spec fn view(&self) -> FlatSourceView {
        FlatSourceView {
            expressions: self.expressions@,
            identifiers: identifier_texts(self.identifiers@),
        }
    }
}

impl FlatSourceView {
    /// The source after an expression is appended.
    pub open spec fn with_expression(self, expression: FlatExpression) -> FlatSourceView {
        FlatSourceView { expressions: self.expressions.push(expression), ..self }
    }

    /// The source after an identifier token is interned.
    pub open spec fn with_identifier(self, identifier: Seq<char>) -> FlatSourceView {
        FlatSourceView { identifiers: interned(self.identifiers, identifier), ..self }
    }
}

impl FlatSourceBuilder {
    /// A source builder with no expression and an empty pool.
    pub fn new() -> (builder: Self)
        ensures
            builder@ == FlatSourceView::empty(),
    {
        let builder = FlatSourceBuilder { expressions: Vec::new(), identifiers: Vec::new() };
        assert(builder@.identifiers =~= Seq::empty());
        builder
    }

    /// Hands over what was built. It never fails.
    pub fn source(self) -> (result: Result<FlatSource, Error>)
        ensures
            result matches Ok(source) && source@ == self@,
    {
        Ok(FlatSource { expressions: self.expressions, identifiers: self.identifiers })
    }

    /// Appends an expression and returns its index.
    pub fn send_expression(&mut self, expression: FlatExpression) -> (result: Result<
        FlatIndex,
        Error,
    >)
        ensures
            result == Ok::<FlatIndex, Error>(FlatIndex::Expression(old(self).expressions.len())),
            final(self)@ == old(self)@.with_expression(expression),
    {
        let index = FlatIndex::Expression(self.expressions.len());
        self.expressions.push(expression);
        Ok(index)
    }

    /// Interns an identifier token and returns its index.
    pub fn send_identifier(&mut self, identifier: FlatIdentifier) -> (result: Result<
        FlatIndex,
        Error,
    >)
        ensures
            result == Ok::<FlatIndex, Error>(
                FlatIndex::Identifier(
                    intern_index(old(self)@.identifiers, identifier@) as usize,
                ),
            ),
            final(self)@ == old(self)@.with_identifier(identifier@),
    {
        assert(token_texts(self.identifiers@) =~= self@.identifiers);
        let position = intern(&mut self.identifiers, identifier);
        assert(token_texts(self.identifiers@) =~= self@.identifiers);
        Ok(FlatIndex::Identifier(position))
    }

    /// Refuses the index: only a binary builder records operands.
    pub fn index(&mut self, index: FlatIndex) -> (result: Result<(), Error>)
        ensures
            result matches Err(error) && error.is_flatten(FlatFault::IndexInSource.message()),
            *final(self) == *old(self),
    {
        Err(flatten_error(INDEX_IN_SOURCE))
    }

    /// Refuses the operator: only a binary builder takes one.
    pub fn operator(&mut self, operator: FlatOperator) -> (result: Result<(), Error>)
        ensures
            result matches Err(error) && error.is_flatten(FlatFault::OperatorInSource.message()),
            *final(self) == *old(self),
    {
        Err(flatten_error(OPERATOR_IN_SOURCE))
    }
}

/// A builder that is open below the active one, or the active one itself.
pub enum FlatScope {
    Source(FlatSourceBuilder),
    Binary(FlatBinaryBuilder),
}

/// What an open scope is, as mathematics.
pub enum FlatScopeView {
    Source(FlatSourceView),
    Binary(FlatBinaryBuilder),
}

impl View for FlatScope {
    type V = FlatScopeView;

    open spec fn view(&self) -> FlatScopeView {
        match self {
            FlatScope::Source(source) => FlatScopeView::Source(source@),
            FlatScope::Binary(binary) => FlatScopeView::Binary(*binary),
        }
    }
}

/// The views of a stack of scopes.
pub open spec fn scope_views(scopes: Seq<FlatScope>) -> Seq<FlatScopeView> {
    Seq::new(scopes.len(), |i: int| scopes[i]@)
}

/// The position of the innermost source among `scopes`, or -1 where none
/// of them is a source.
pub open spec fn innermost_source(scopes: Seq<FlatScopeView>) -> int
    decreases scopes.len(),
{
    if scopes.len() == 0 {
        -1
    } else if scopes.last() is Source {
        scopes.len() - 1
    } else {
        innermost_source(scopes.drop_last())
    }
}

/// `innermost_source` is the last position that holds a source, if any does.
pub proof fn lemma_innermost_source(scopes: Seq<FlatScopeView>)
    ensures
        -1 <= innermost_source(scopes) < scopes.len(),
        innermost_source(scopes) >= 0 ==> scopes[innermost_source(scopes)] is Source,
        forall|j: int| innermost_source(scopes) < j < scopes.len() ==> scopes[j] is Binary,
    decreases scopes.len(),
{
    if scopes.len() > 0 && !(scopes.last() is Source) {
        lemma_innermost_source(scopes.drop_last());
        assert forall|j: int| innermost_source(scopes) < j < scopes.len() implies scopes[j]
            is Binary by {
            if j < scopes.len() - 1 {
                assert(scopes.drop_last()[j] == scopes[j]);
            }
        }
    }
}

/// A position that holds a source, with only binaries above it, is the
/// innermost source; and where every scope is a binary there is none.
pub proof fn lemma_innermost_source_is(scopes: Seq<FlatScopeView>, position: int)
    requires
        -1 <= position < scopes.len(),
        position >= 0 ==> scopes[position] is Source,
        forall|j: int| position < j < scopes.len() ==> scopes[j] is Binary,
    ensures
        innermost_source(scopes) == position,
{
    lemma_innermost_source(scopes);
}

/// The chain of builders from the root to the active one. The last scope is
/// the active builder; with no scope open, the root is.
pub struct FlatBuilder {
    pub root: FlatRootBuilder,
    pub scopes: Vec<FlatScope>,
}

/// What a chain of builders is, as mathematics.
pub struct FlatBuilderView {
    pub root: FlatRootView,
    pub scopes: Seq<FlatScopeView>,
}

impl View for FlatBuilder {
    type V = FlatBuilderView;

    open spec fn view(&self) -> FlatBuilderView {
        FlatBuilderView { root: self.root@, scopes: scope_views(self.scopes@) }
    }
}

impl FlatBuilderView {
    /// The chain that holds an empty root and no open scope.
    pub open spec fn empty() -> FlatBuilderView {
        FlatBuilderView { root: FlatRootView::empty(), scopes: Seq::empty() }
    }

    /// Whether the active builder is a binary builder.
    pub open spec fn in_binary(self) -> bool {
        self.scopes.len() > 0 && self.scopes.last() is Binary
    }

    /// The chain with a new, empty source builder as the active one.
    pub open spec fn open_source(self) -> FlatBuilderView {
        FlatBuilderView {
            scopes: self.scopes.push(FlatScopeView::Source(FlatSourceView::empty())),
            ..self
        }
    }

    /// The chain with a new, empty binary builder as the active one.
    pub open spec fn open_binary(self) -> FlatBuilderView {
        FlatBuilderView {
            scopes: self.scopes.push(FlatScopeView::Binary(FlatBinaryBuilder::empty())),
            ..self
        }
    }

    /// The chain without its active builder.
    pub open spec fn close(self) -> FlatBuilderView {
        FlatBuilderView { scopes: self.scopes.drop_last(), ..self }
    }

    /// A source goes to the root, whatever the active builder is.
    pub open spec fn send_source(self, source: FlatSourceView) -> (FlatBuilderView, FlatIndex) {
        (
            FlatBuilderView { root: self.root.with_source(source), ..self },
            FlatIndex::Source(self.root.sources.len() as usize),
        )
    }

    /// A number goes to the root's pool, whatever the active builder is.
    pub open spec fn send_number(self, number: Seq<char>) -> (FlatBuilderView, FlatIndex) {
        (
            FlatBuilderView { root: self.root.with_number(number), ..self },
            FlatIndex::Number(intern_index(self.root.numbers, number) as usize),
        )
    }

    /// A string goes to the root's pool, whatever the active builder is.
    pub open spec fn send_string(self, string: Seq<char>) -> (FlatBuilderView, FlatIndex) {
        (
            FlatBuilderView { root: self.root.with_string(string), ..self },
            FlatIndex::String(intern_index(self.root.strings, string) as usize),
        )
    }

    /// An expression goes to the end of the innermost open source; with no
    /// source open, the root refuses it.
    pub open spec fn send_expression(self, expression: FlatExpression) -> Result<
        (FlatBuilderView, FlatIndex),
        FlatFault,
    > {
        let at = innermost_source(self.scopes);
        if at < 0 {
            Err(FlatFault::ExpressionAtRoot)
        } else {
            let source = self.scopes[at]->Source_0;
            Ok(
                (
                    FlatBuilderView {
                        scopes: self.scopes.update(
                            at,
                            FlatScopeView::Source(source.with_expression(expression)),
                        ),
                        ..self
                    },
                    FlatIndex::Expression(source.expressions.len() as usize),
                ),
            )
        }
    }

    /// An identifier goes to the pool of the innermost open source; with no
    /// source open, the root refuses it.
    pub open spec fn send_identifier(self, identifier: Seq<char>) -> Result<
        (FlatBuilderView, FlatIndex),
        FlatFault,
    > {
        let at = innermost_source(self.scopes);
        if at < 0 {
            Err(FlatFault::IdentifierAtRoot)
        } else {
            let source = self.scopes[at]->Source_0;
            Ok(
                (
                    FlatBuilderView {
                        scopes: self.scopes.update(
                            at,
                            FlatScopeView::Source(source.with_identifier(identifier)),
                        ),
                        ..self
                    },
                    FlatIndex::Identifier(intern_index(source.identifiers, identifier) as usize),
                ),
            )
        }
    }

    /// An operand's index goes to the active builder, which takes it only
    /// where it is a binary builder with a free slot.
    pub open spec fn index(self, index: FlatIndex) -> Result<FlatBuilderView, FlatFault> {
        if self.scopes.len() == 0 {
            Err(FlatFault::IndexAtRoot)
        } else {
            match self.scopes.last() {
                FlatScopeView::Source(_) => Err(FlatFault::IndexInSource),
                FlatScopeView::Binary(binary) => match binary.after_index(index) {
                    Ok(next) => Ok(
                        FlatBuilderView {
                            scopes: self.scopes.update(
                                self.scopes.len() - 1,
                                FlatScopeView::Binary(next),
                            ),
                            ..self
                        },
                    ),
                    Err(fault) => Err(fault),
                },
            }
        }
    }

    /// An operator goes to the active builder, which takes it only where it
    /// is a binary builder that has none yet.
    pub open spec fn operator(self, operator: FlatOperator) -> Result<FlatBuilderView, FlatFault> {
        if self.scopes.len() == 0 {
            Err(FlatFault::OperatorAtRoot)
        } else {
            match self.scopes.last() {
                FlatScopeView::Source(_) => Err(FlatFault::OperatorInSource),
                FlatScopeView::Binary(binary) => match binary.after_operator(operator) {
                    Ok(next) => Ok(
                        FlatBuilderView {
                            scopes: self.scopes.update(
                                self.scopes.len() - 1,
                                FlatScopeView::Binary(next),
                            ),
                            ..self
                        },
                    ),
                    Err(fault) => Err(fault),
                },
            }
        }
    }

    /// What becomes of the index that a send returned: a binary builder
    /// records it as an operand, any other builder drops it.
    pub open spec fn record(self, index: FlatIndex) -> Result<FlatBuilderView, FlatFault> {
        if self.in_binary() {
            self.index(index)
        } else {
            Ok(self)
        }
    }

    /// A source is sent, and its index recorded.
    pub open spec fn take_source(self, source: FlatSourceView) -> Result<
        FlatBuilderView,
        FlatFault,
    > {
        self.send_source(source).0.record(self.send_source(source).1)
    }

    /// A number is sent, and its index recorded.
    pub open spec fn take_number(self, number: Seq<char>) -> Result<FlatBuilderView, FlatFault> {
        self.send_number(number).0.record(self.send_number(number).1)
    }

    /// A string is sent, and its index recorded.
    pub open spec fn take_string(self, string: Seq<char>) -> Result<FlatBuilderView, FlatFault> {
        self.send_string(string).0.record(self.send_string(string).1)
    }

    /// An expression is sent, and its index recorded.
    pub open spec fn take_expression(self, expression: FlatExpression) -> Result<
        FlatBuilderView,
        FlatFault,
    > {
        match self.send_expression(expression) {
            Ok((next, index)) => next.record(index),
            Err(fault) => Err(fault),
        }
    }

    /// An identifier is sent, and its index recorded.
    pub open spec fn take_identifier(self, identifier: Seq<char>) -> Result<
        FlatBuilderView,
        FlatFault,
    > {
        match self.send_identifier(identifier) {
            Ok((next, index)) => next.record(index),
            Err(fault) => Err(fault),
        }
    }
}

/// Whether `result` is the error that reports `fault`.
pub open spec fn reports<T>(result: Result<T, Error>, fault: FlatFault) -> bool {
    result matches Err(error) && fault.is_reported_by(error)
}

impl FlatBuilder {
    /// A chain that holds an empty root builder and nothing else.
    pub fn new() -> (builder: Self)
        ensures
            builder@ == FlatBuilderView::empty(),
    {
        let builder = FlatBuilder { root: FlatRootBuilder::new(), scopes: Vec::new() };
        assert(builder@.scopes =~= Seq::empty());
        builder
    }

    /// Makes a new source builder the active builder.
    pub fn open_source(&mut self)
        ensures
            final(self)@ == old(self)@.open_source(),
    {
        self.scopes.push(FlatScope::Source(FlatSourceBuilder::new()));
        assert(self@.scopes =~= old(self)@.open_source().scopes);
    }

    /// Makes a new binary builder the active builder.
    pub fn open_binary(&mut self)
        ensures
            final(self)@ == old(self)@.open_binary(),
    {
        self.scopes.push(FlatScope::Binary(FlatBinaryBuilder::new()));
        assert(self@.scopes =~= old(self)@.open_binary().scopes);
    }

    /// Takes the active builder off the chain and hands it over; its parent
    /// becomes the active builder. With no scope open there is none to take.
    pub fn close(&mut self) -> (scope: Option<FlatScope>)
        ensures
            old(self)@.scopes.len() == 0 ==> scope is None && final(self)@ == old(self)@,
            old(self)@.scopes.len() > 0 ==> scope is Some && scope->0@ == old(self)@.scopes.last()
                && final(self)@ == old(self)@.close(),
    {
        let scope = self.scopes.pop();
        proof {
            if old(self)@.scopes.len() > 0 {
                assert(self@.scopes =~= old(self)@.scopes.drop_last());
            } else {
                assert(self@.scopes =~= old(self)@.scopes);
            }
        }
        scope
    }

    /// The position of the innermost open source, if a source is open.
    pub fn innermost_source(&self) -> (position: Option<usize>)
        ensures
            match position {
                Some(at) => at == innermost_source(self@.scopes),
                None => innermost_source(self@.scopes) == -1,
            },
    {
        let mut at = self.scopes.len();
        while at > 0
            invariant
                at <= self.scopes.len(),
                forall|j: int| at <= j < self.scopes.len() ==> self@.scopes[j] is Binary,
            decreases at,
        {
            at -= 1;
            match &self.scopes[at] {
                FlatScope::Source(_) => {
                    proof {
                        lemma_innermost_source_is(self@.scopes, at as int);
                    }
                    return Some(at);
                },
                FlatScope::Binary(_) => {},
            }
        }
        proof {
            lemma_innermost_source_is(self@.scopes, -1);
        }
        None
    }

    /// Whether the active builder is a binary builder.
    pub fn in_binary(&self) -> (binary: bool)
        ensures
            binary == self@.in_binary(),
    {
        let open = self.scopes.len();
        if open == 0 {
            false
        } else {
            match &self.scopes[open - 1] {
                FlatScope::Binary(_) => true,
                FlatScope::Source(_) => false,
            }
        }
    }

    /// Sends a finished source to the root and returns its index.
    pub fn send_source(&mut self, source: FlatSource) -> (result: Result<FlatIndex, Error>)
        ensures
            result == Ok::<FlatIndex, Error>(old(self)@.send_source(source@).1),
            final(self)@ == old(self)@.send_source(source@).0,
    {
        self.root.send_source(source)
    }

    /// Sends a number to the root's pool and returns its index.
    pub fn send_number(&mut self, number: FlatNumber) -> (result: Result<FlatIndex, Error>)
        ensures
            result == Ok::<FlatIndex, Error>(old(self)@.send_number(number@).1),
            final(self)@ == old(self)@.send_number(number@).0,
    {
        self.root.send_number(number)
    }

    /// Sends a string to the root's pool and returns its index.
    pub fn send_string(&mut self, string: FlatString) -> (result: Result<FlatIndex, Error>)
        ensures
            result == Ok::<FlatIndex, Error>(old(self)@.send_string(string@).1),
            final(self)@ == old(self)@.send_string(string@).0,
    {
        self.root.send_string(string)
    }

    /// Sends an expression to the innermost open source and returns its
    /// index. With no source open, the root refuses it.
    pub fn send_expression(&mut self, expression: FlatExpression) -> (result: Result<
        FlatIndex,
        Error,
    >)
        ensures
            match old(self)@.send_expression(expression) {
                Ok((next, index)) => result == Ok::<FlatIndex, Error>(index) && final(self)@
                    == next,
                Err(fault) => reports(result, fault) && final(self)@ == old(self)@,
            },
    {
        proof {
            lemma_innermost_source(self@.scopes);
        }
        match self.innermost_source() {
            Some(at) => match &mut self.scopes[at] {
                FlatScope::Source(source) => {
                    let result = source.send_expression(expression);
                    assert(self@.scopes =~= old(self)@.send_expression(expression)->Ok_0.0.scopes);
                    result
                },
                FlatScope::Binary(_) => unreached(),
            },
            None => self.root.send_expression(expression),
        }
    }

    /// Sends an identifier to the pool of the innermost open source and
    /// returns its index. With no source open, the root refuses it.
    pub fn send_identifier(&mut self, identifier: FlatIdentifier) -> (result: Result<
        FlatIndex,
        Error,
    >)
        ensures
            match old(self)@.send_identifier(identifier@) {
                Ok((next, index)) => result == Ok::<FlatIndex, Error>(index) && final(self)@
                    == next,
                Err(fault) => reports(result, fault) && final(self)@ == old(self)@,
            },
    {
        proof {
            lemma_innermost_source(self@.scopes);
        }
        match self.innermost_source() {
            Some(at) => match &mut self.scopes[at] {
                FlatScope::Source(source) => {
                    let result = source.send_identifier(identifier);
                    assert(self@.scopes =~= old(self)@.send_identifier(
                        identifier@,
                    )->Ok_0.0.scopes);
                    result
                },
                FlatScope::Binary(_) => unreached(),
            },
            None => self.root.send_identifier(identifier),
        }
    }

    /// Offers an operand's index to the active builder.
    pub fn index(&mut self, index: FlatIndex) -> (result: Result<(), Error>)
        ensures
            match old(self)@.index(index) {
                Ok(next) => result is Ok && final(self)@ == next,
                Err(fault) => reports(result, fault) && final(self)@ == old(self)@,
            },
    {
        let open = self.scopes.len();
        if open == 0 {
            self.root.index(index)
        } else {
            let result = match &mut self.scopes[open - 1] {
                FlatScope::Source(source) => source.index(index),
                FlatScope::Binary(binary) => binary.index(index),
            };
            proof {
                if result is Ok {
                    assert(self@.scopes =~= old(self)@.index(index)->Ok_0.scopes);
                } else {
                    assert(self@.scopes =~= old(self)@.scopes);
                }
            }
            result
        }
    }

    /// Offers an operator to the active builder.
    pub fn operator(&mut self, operator: FlatOperator) -> (result: Result<(), Error>)
        ensures
            match old(self)@.operator(operator) {
                Ok(next) => result is Ok && final(self)@ == next,
                Err(fault) => reports(result, fault) && final(self)@ == old(self)@,
            },
    {
        let open = self.scopes.len();
        if open == 0 {
            self.root.operator(operator)
        } else {
            let result = match &mut self.scopes[open - 1] {
                FlatScope::Source(source) => source.operator(operator),
                FlatScope::Binary(binary) => binary.operator(operator),
            };
            proof {
                if result is Ok {
                    assert(self@.scopes =~= old(self)@.operator(operator)->Ok_0.scopes);
                } else {
                    assert(self@.scopes =~= old(self)@.scopes);
                }
            }
            result
        }
    }

    /// Records the index that a send returned, where the active builder is a
    /// binary builder; any other builder drops it.
    pub fn record(&mut self, index: FlatIndex) -> (result: Result<(), Error>)
        ensures
            match old(self)@.record(index) {
                Ok(next) => result is Ok && final(self)@ == next,
                Err(fault) => reports(result, fault) && final(self)@ == old(self)@,
            },
    {
        if self.in_binary() {
            self.index(index)
        } else {
            Ok(())
        }
    }

    /// Sends a finished source and lets the active builder record its index.
    pub fn take_source(&mut self, source: FlatSource) -> (result: Result<(), Error>)
        ensures
            match old(self)@.take_source(source@) {
                Ok(next) => result is Ok && final(self)@ == next,
                Err(fault) => reports(result, fault) && final(self)@ == old(self)@.send_source(
                    source@,
                ).0,
            },
    {
        match self.send_source(source) {
            Ok(index) => self.record(index),
            Err(error) => Err(error),
        }
    }

    /// Sends a number and lets the active builder record its index.
    pub fn take_number(&mut self, number: FlatNumber) -> (result: Result<(), Error>)
        ensures
            match old(self)@.take_number(number@) {
                Ok(next) => result is Ok && final(self)@ == next,
                Err(fault) => reports(result, fault) && final(self)@ == old(self)@.send_number(
                    number@,
                ).0,
            },
    {
        match self.send_number(number) {
            Ok(index) => self.record(index),
            Err(error) => Err(error),
        }
    }

    /// Sends a string and lets the active builder record its index.
    pub fn take_string(&mut self, string: FlatString) -> (result: Result<(), Error>)
        ensures
            match old(self)@.take_string(string@) {
                Ok(next) => result is Ok && final(self)@ == next,
                Err(fault) => reports(result, fault) && final(self)@ == old(self)@.send_string(
                    string@,
                ).0,
            },
    {
        match self.send_string(string) {
            Ok(index) => self.record(index),
            Err(error) => Err(error),
        }
    }

    /// Sends an expression and lets the active builder record its index.
    pub fn take_expression(&mut self, expression: FlatExpression) -> (result: Result<(), Error>)
        ensures
            match old(self)@.take_expression(expression) {
                Ok(next) => result is Ok && final(self)@ == next,
                Err(fault) => reports(result, fault) && final(self)@ == (
                match old(self)@.send_expression(expression) {
                    Ok((sent, _)) => sent,
                    Err(_) => old(self)@,
                }),
            },
    {
        match self.send_expression(expression) {
            Ok(index) => self.record(index),
            Err(error) => Err(error),
        }
    }

    /// Sends an identifier and lets the active builder record its index.
    pub fn take_identifier(&mut self, identifier: FlatIdentifier) -> (result: Result<(), Error>)
        ensures
            match old(self)@.take_identifier(identifier@) {
                Ok(next) => result is Ok && final(self)@ == next,
                Err(fault) => reports(result, fault) && final(self)@ == (
                match old(self)@.send_identifier(identifier@) {
                    Ok((sent, _)) => sent,
                    Err(_) => old(self)@,
                }),
            },
    {
        match self.send_identifier(identifier) {
            Ok(index) => self.record(index),
            Err(error) => Err(error),
        }
    }
}

/// Whether two chains have the same open scopes, kind for kind.
pub open spec fn same_shape(a: FlatBuilderView, b: FlatBuilderView) -> bool {
    &&& a.scopes.len() == b.scopes.len()
    &&& forall|i: int|
        #![trigger a.scopes[i]]
        #![trigger b.scopes[i]]
        0 <= i < a.scopes.len() ==> (a.scopes[i] is Source <==> b.scopes[i] is Source)
}

/// No send, and no offer of an index or an operator, opens or closes a
/// scope or turns one kind of scope into the other.
pub proof fn lemma_operations_keep_shape(builder: FlatBuilderView)
    ensures
        forall|source: FlatSourceView| #[trigger]
            same_shape(builder, builder.send_source(source).0),
        forall|number: Seq<char>| #[trigger] same_shape(builder, builder.send_number(number).0),
        forall|string: Seq<char>| #[trigger] same_shape(builder, builder.send_string(string).0),
        forall|expression: FlatExpression|
            (#[trigger] builder.send_expression(expression)) matches Ok((next, _)) ==> same_shape(
                builder,
                next,
            ),
        forall|identifier: Seq<char>|
            (#[trigger] builder.send_identifier(identifier)) matches Ok((next, _)) ==> same_shape(
                builder,
                next,
            ),
        forall|index: FlatIndex|
            (#[trigger] builder.index(index)) matches Ok(next) ==> same_shape(builder, next),
        forall|operator: FlatOperator|
            (#[trigger] builder.operator(operator)) matches Ok(next) ==> same_shape(builder, next),
        forall|index: FlatIndex|
            (#[trigger] builder.record(index)) matches Ok(next) ==> same_shape(builder, next),
{
    lemma_innermost_source(builder.scopes);
}

/// Whether `result`, where it is a chain, has the shape of `builder`.
pub open spec fn shaped_like(result: Result<FlatBuilderView, FlatFault>, builder: FlatBuilderView)
    -> bool {
    result matches Ok(next) ==> same_shape(builder, next)
}

/// No taking of a value opens or closes a scope or turns one kind of scope
/// into the other.
pub proof fn lemma_takes_keep_shape(builder: FlatBuilderView)
    ensures
        forall|source: FlatSourceView| #[trigger]
            shaped_like(builder.take_source(source), builder),
        forall|number: Seq<char>| #[trigger] shaped_like(builder.take_number(number), builder),
        forall|string: Seq<char>| #[trigger] shaped_like(builder.take_string(string), builder),
        forall|expression: FlatExpression| #[trigger]
            shaped_like(builder.take_expression(expression), builder),
        forall|identifier: Seq<char>| #[trigger]
            shaped_like(builder.take_identifier(identifier), builder),
{
    lemma_operations_keep_shape(builder);
    assert forall|source: FlatSourceView| #[trigger]
        shaped_like(builder.take_source(source), builder) by {
        let sent = builder.send_source(source).0;
        lemma_operations_keep_shape(sent);
        assert(same_shape(builder, sent));
    }
    assert forall|number: Seq<char>| #[trigger]
        shaped_like(builder.take_number(number), builder) by {
        let sent = builder.send_number(number).0;
        lemma_operations_keep_shape(sent);
        assert(same_shape(builder, sent));
    }
    assert forall|string: Seq<char>| #[trigger]
        shaped_like(builder.take_string(string), builder) by {
        let sent = builder.send_string(string).0;
        lemma_operations_keep_shape(sent);
        assert(same_shape(builder, sent));
    }
    assert forall|expression: FlatExpression| #[trigger]
        shaped_like(builder.take_expression(expression), builder) by {
        if builder.send_expression(expression) is Ok {
            let sent = builder.send_expression(expression)->Ok_0.0;
            lemma_operations_keep_shape(sent);
            assert(same_shape(builder, sent));
        }
    }
    assert forall|identifier: Seq<char>| #[trigger]
        shaped_like(builder.take_identifier(identifier), builder) by {
        if builder.send_identifier(identifier) is Ok {
            let sent = builder.send_identifier(identifier)->Ok_0.0;
            lemma_operations_keep_shape(sent);
            assert(same_shape(builder, sent));
        }
    }
}

} // verus!
