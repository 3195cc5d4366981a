//! The flat intermediate representation: interned pools of literals and
//! identifiers, and expressions that refer to them by tagged index.

use vstd::prelude::*;

verus! {

/// The closed set of operators. `Constant` and `Variable` mark the two kinds
/// of definition and appear as the operator of an `Assign` expression.
#[derive(Debug, PartialEq, Eq, Clone, Copy, Structural)]
pub enum FlatOperator {
    Extract,
    Pipe,
    Multiply,
    Divide,
    Modulo,
    Add,
    Subtract,
    Equal,
    NotEqual,
    LessThan,
    GreaterThan,
    LessEqual,
    GreaterEqual,
    And,
    Or,
    Constant,
    Variable,
}

/// A tagged reference into one pool of the root or of the enclosing source.
#[derive(Debug, PartialEq, Eq, Clone, Copy, Structural)]
pub enum FlatIndex {
    Source(usize),
    Expression(usize),
    Number(usize),
    String(usize),
    Identifier(usize),
}

/// Up to one left operand, exactly one right operand, and an operator.
/// `one` is absent exactly when the expression was written in prefix form.
#[derive(Debug, PartialEq, Eq, Clone, Copy)]
pub struct FlatBinary {
    pub one: Option<FlatIndex>,
    pub two: FlatIndex,
    pub operator: FlatOperator,
}

/// An expression of a source: one of the seven binary forms.
#[derive(Debug, PartialEq, Eq, Clone, Copy)]
pub enum FlatExpression {
    Member(FlatBinary),
    Call(FlatBinary),
    Multiplicative(FlatBinary),
    Additive(FlatBinary),
    Comparison(FlatBinary),
    Logical(FlatBinary),
    Assign(FlatBinary),
}

/// A number token, kept as written (radix prefix included).
#[derive(Debug, PartialEq, Eq, Clone)]
pub struct FlatNumber(pub String);

/// A string token, kept as written (quotes included).
#[derive(Debug, PartialEq, Eq, Clone)]
pub struct FlatString(pub String);

/// An identifier token.
#[derive(Debug, PartialEq, Eq, Clone)]
pub struct FlatIdentifier(pub String);

impl View for FlatNumber {
    type V = Seq<char>;

    open spec fn view(&self) -> Seq<char> {
        self.0@
    }
}

impl View for FlatString {
    type V = Seq<char>;

    open spec fn view(&self) -> Seq<char> {
        self.0@
    }
}

impl View for FlatIdentifier {
    type V = Seq<char>;

    open spec fn view(&self) -> Seq<char> {
        self.0@
    }
}

/// A scope: its expressions in post-order, and its identifier pool.
#[derive(Debug, PartialEq, Eq, Clone)]
pub struct FlatSource {
    pub expressions: Vec<FlatExpression>,
    pub identifiers: Vec<FlatIdentifier>,
}

/// The root of the representation: every source, and the two global pools.
#[derive(Debug, PartialEq, Eq, Clone)]
pub struct FlatRoot {
    pub sources: Vec<FlatSource>,
    pub numbers: Vec<FlatNumber>,
    pub strings: Vec<FlatString>,
}

/// What a source is, as mathematics: its expressions, and the text of each
/// identifier of its pool.
pub struct FlatSourceView {
    pub expressions: Seq<FlatExpression>,
    pub identifiers: Seq<Seq<char>>,
}

/// What a root is, as mathematics.
pub struct FlatRootView {
    pub sources: Seq<FlatSourceView>,
    pub numbers: Seq<Seq<char>>,
    pub strings: Seq<Seq<char>>,
}

/// The sizes of the pools that an index may refer to.
pub struct FlatLimits {
    pub sources: nat,
    pub expressions: nat,
    pub numbers: nat,
    pub strings: nat,
    pub identifiers: nat,
}

/// The texts of a pool of number tokens.
pub open spec fn number_texts(pool: Seq<FlatNumber>) -> Seq<Seq<char>> {
    Seq::new(pool.len(), |i: int| pool[i]@)
}

/// The texts of a pool of string tokens.
pub open spec fn string_texts(pool: Seq<FlatString>) -> Seq<Seq<char>> {
    Seq::new(pool.len(), |i: int| pool[i]@)
}

/// The texts of a pool of identifier tokens.
pub open spec fn identifier_texts(pool: Seq<FlatIdentifier>) -> Seq<Seq<char>> {
    Seq::new(pool.len(), |i: int| pool[i]@)
}

/// The views of a list of sources.
pub open spec fn source_views(sources: Seq<FlatSource>) -> Seq<FlatSourceView> {
    Seq::new(sources.len(), |i: int| sources[i]@)
}

impl View for FlatSource {
    type V = FlatSourceView;

    open spec fn view(&self) -> FlatSourceView {
        FlatSourceView {
            expressions: self.expressions@,
            identifiers: identifier_texts(self.identifiers@),
        }
    }
}

impl View for FlatRoot {
    type V = FlatRootView;

    open spec fn view(&self) -> FlatRootView {
        FlatRootView {
            sources: source_views(self.sources@),
            numbers: number_texts(self.numbers@),
            strings: string_texts(self.strings@),
        }
    }
}

impl FlatIndex {
    /// Whether the index refers to an entry that exists under `limits`.
    pub open spec fn within(self, limits: FlatLimits) -> bool {
        match self {
            FlatIndex::Source(k) => k < limits.sources,
            FlatIndex::Expression(k) => k < limits.expressions,
            FlatIndex::Number(k) => k < limits.numbers,
            FlatIndex::String(k) => k < limits.strings,
            FlatIndex::Identifier(k) => k < limits.identifiers,
        }
    }
}

impl FlatBinary {
    /// Whether both operands refer to entries that exist under `limits`.
    pub open spec fn within(self, limits: FlatLimits) -> bool {
        &&& self.one matches Some(one) ==> one.within(limits)
        &&& self.two.within(limits)
    }
}

impl FlatExpression {
    /// The binary that the expression carries, whatever its form.
    pub open spec fn spec_binary(&self) -> FlatBinary {
        match *self {
            FlatExpression::Member(binary) => binary,
            FlatExpression::Call(binary) => binary,
            FlatExpression::Multiplicative(binary) => binary,
            FlatExpression::Additive(binary) => binary,
            FlatExpression::Comparison(binary) => binary,
            FlatExpression::Logical(binary) => binary,
            FlatExpression::Assign(binary) => binary,
        }
    }

    /// The binary that the expression carries, whatever its form.
    #[verifier::when_used_as_spec(spec_binary)]
    pub fn binary(&self) -> (binary: FlatBinary)
        ensures
            binary == self.spec_binary(),
    {
        match self {
            FlatExpression::Member(binary) => *binary,
            FlatExpression::Call(binary) => *binary,
            FlatExpression::Multiplicative(binary) => *binary,
            FlatExpression::Additive(binary) => *binary,
            FlatExpression::Comparison(binary) => *binary,
            FlatExpression::Logical(binary) => *binary,
            FlatExpression::Assign(binary) => *binary,
        }
    }
}

/// Whether no text occurs twice in a pool.
pub open spec fn distinct(pool: Seq<Seq<char>>) -> bool {
    forall|i: int, j: int| 0 <= i < j < pool.len() ==> pool[i] != pool[j]
}

impl FlatSourceView {
    /// The empty source.
    pub open spec fn empty() -> FlatSourceView {
        FlatSourceView { expressions: Seq::empty(), identifiers: Seq::empty() }
    }

    /// The pool sizes that the expression at `position` may refer to: the
    /// expressions before it, this source's identifiers, and the given sizes
    /// of the root's pools.
    pub open spec fn limits_at(self, position: int, sources: nat, numbers: nat, strings: nat)
        -> FlatLimits {
        FlatLimits {
            sources,
            expressions: position as nat,
            numbers,
            strings,
            identifiers: self.identifiers.len(),
        }
    }

    /// Each expression refers only to expressions before it, to this source's
    /// identifiers, and to root entries below the given sizes; and no
    /// identifier occurs twice.
    pub open spec fn well_formed(self, sources: nat, numbers: nat, strings: nat) -> bool {
        &&& distinct(self.identifiers)
        &&& forall|i: int|
            0 <= i < self.expressions.len() ==> (#[trigger] self.expressions[i]).spec_binary().within(
                self.limits_at(i, sources, numbers, strings),
            )
    }
}

impl FlatRootView {
    /// The empty root.
    pub open spec fn empty() -> FlatRootView {
        FlatRootView { sources: Seq::empty(), numbers: Seq::empty(), strings: Seq::empty() }
    }

    /// Every index of every expression refers to an entry that exists: a
    /// number or a string of the root, a source that was finished earlier, an
    /// identifier of the same source, or an earlier expression of the same
    /// source. No pool holds a text twice.
    pub open spec fn well_formed(self) -> bool {
        &&& distinct(self.numbers)
        &&& distinct(self.strings)
        &&& forall|s: int|
            0 <= s < self.sources.len() ==> (#[trigger] self.sources[s]).well_formed(
                s as nat,
                self.numbers.len(),
                self.strings.len(),
            )
    }
}

/// The position of the first occurrence of `token` in `pool`, or the pool's
/// length where it does not occur: the index that interning `token` yields.
pub open spec fn intern_index(pool: Seq<Seq<char>>, token: Seq<char>) -> nat
    decreases pool.len(),
{
    if pool.len() == 0 {
        0
    } else if pool.first() == token {
        0
    } else {
        1 + intern_index(pool.drop_first(), token)
    }
}

/// The pool after interning `token`: unchanged where the token occurs,
/// else with the token at its end.
pub open spec fn interned(pool: Seq<Seq<char>>, token: Seq<char>) -> Seq<Seq<char>> {
    if intern_index(pool, token) < pool.len() {
        pool
    } else {
        pool.push(token)
    }
}

/// `intern_index` is the first position that holds the token, if any does.
pub proof fn lemma_intern_index(pool: Seq<Seq<char>>, token: Seq<char>)
    ensures
        intern_index(pool, token) <= pool.len(),
        intern_index(pool, token) < pool.len() ==> pool[intern_index(pool, token) as int] == token,
        forall|j: int| 0 <= j < intern_index(pool, token) ==> pool[j] != token,
        intern_index(pool, token) < pool.len() <==> pool.contains(token),
    decreases pool.len(),
{
    if pool.len() == 0 {
    } else if pool.first() == token {
        assert(pool[0] == token);
    } else {
        let rest = pool.drop_first();
        lemma_intern_index(rest, token);
        let k = intern_index(rest, token) as int;
        assert forall|j: int| 0 <= j < 1 + k implies pool[j] != token by {
            if j > 0 {
                assert(rest[j - 1] == pool[j]);
            }
        }
        if k < rest.len() {
            assert(rest[k] == pool[k + 1]);
        }
        if pool.contains(token) {
            let i = choose|i: int| 0 <= i < pool.len() && pool[i] == token;
            assert(i > 0);
            assert(rest[i - 1] == token);
            assert(rest.contains(token));
        }
    }
}

/// A position that holds the token, with no earlier one that does, is the
/// token's `intern_index`.
pub proof fn lemma_intern_index_is(pool: Seq<Seq<char>>, token: Seq<char>, position: int)
    requires
        0 <= position <= pool.len(),
        position < pool.len() ==> pool[position] == token,
        forall|j: int| 0 <= j < position ==> pool[j] != token,
    ensures
        intern_index(pool, token) == position,
{
    lemma_intern_index(pool, token);
    let k = intern_index(pool, token) as int;
    if k < position {
        assert(pool[k] == token);
    } else if k > position {
        assert(pool[position] == token);
    }
}

/// Interning keeps a duplicate-free pool duplicate-free.
pub proof fn lemma_interned_distinct(pool: Seq<Seq<char>>, token: Seq<char>)
    requires
        distinct(pool),
    ensures
        distinct(interned(pool, token)),
        interned(pool, token).len() >= pool.len(),
        intern_index(pool, token) < interned(pool, token).len(),
        interned(pool, token)[intern_index(pool, token) as int] == token,
{
    lemma_intern_index(pool, token);
}

} // verus!
