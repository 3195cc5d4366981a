//! Items shared by every stage: the error type and the table of node kinds.

use crate::builder::reports;
use crate::flat::{FlatBinary, FlatExpression, FlatOperator, FlatRoot};
use crate::flatten::{flatten_tree, flatten_tree_spec};
use crate::syntax::SyntaxNode;
use tree_sitter::Language;
use vstd::string::StrSliceExecFns;
use vstd::prelude::*;

verus! {

/// Why a syntax tree was refused before flattening.
#[derive(Debug, PartialEq, Eq, Clone)]
pub enum ValidationError {
    /// A source block stands where code generation cannot take one yet.
    UnsupportedSourceBlock,
    /// A statement, an expression or a pair of brackets holds nothing.
    EmptyExpression,
    /// A number token is not of one of the accepted forms.
    InvalidNumberFormat(String),
    /// A call or a definition lacks one of its parts.
    MalformedFunctionCall(String),
    /// A chain of identifiers starts or ends with a dot.
    InvalidIdentifierChain(String),
    /// An operator stands without an operand.
    IncompleteOperatorSequence,
}

/// What went wrong, by stage.
#[derive(Debug, PartialEq, Eq, Clone)]
pub enum Error {
    /// The language could not be set up.
    MageError(String),
    /// The parser gave no tree.
    ParseError(String),
    /// The tree has not the shape that is expected of it.
    ValidationError(ValidationError),
    /// A builder was offered what it cannot accept.
    FlattenError(String),
    /// Code generation cannot express a construct.
    CompileError(String),
    /// Machine code could not be mapped or run.
    ExecuteError(String),
}

impl Error {
    /// Whether this is a flatten error with the given message.
    pub open spec fn is_flatten(self, message: Seq<char>) -> bool {
        self matches Error::FlattenError(text) && text@ == message
    }

    /// Whether this is a compile error with the given message.
    pub open spec fn is_compile(self, message: Seq<char>) -> bool {
        self matches Error::CompileError(text) && text@ == message
    }
}

/// A flatten error with the given message.
pub fn flatten_error(message: &str) -> (error: Error)
    ensures
        error.is_flatten(message@),
{
    Error::FlattenError(message.to_owned())
}

/// The seven binary forms of the language.
#[derive(Debug, PartialEq, Eq, Clone, Copy, Structural)]
pub enum FlatForm {
    Member,
    Call,
    Multiplicative,
    Additive,
    Comparison,
    Logical,
    Assign,
}

impl FlatForm {
    /// The expression of this form that carries `binary`.
    pub open spec fn spec_expression(self, binary: FlatBinary) -> FlatExpression {
        match self {
            FlatForm::Member => FlatExpression::Member(binary),
            FlatForm::Call => FlatExpression::Call(binary),
            FlatForm::Multiplicative => FlatExpression::Multiplicative(binary),
            FlatForm::Additive => FlatExpression::Additive(binary),
            FlatForm::Comparison => FlatExpression::Comparison(binary),
            FlatForm::Logical => FlatExpression::Logical(binary),
            FlatForm::Assign => FlatExpression::Assign(binary),
        }
    }

    /// The expression of this form that carries `binary`.
    #[verifier::when_used_as_spec(spec_expression)]
    pub fn expression(self, binary: FlatBinary) -> (expression: FlatExpression)
        ensures
            expression == self.spec_expression(binary),
    {
        match self {
            FlatForm::Member => FlatExpression::Member(binary),
            FlatForm::Call => FlatExpression::Call(binary),
            FlatForm::Multiplicative => FlatExpression::Multiplicative(binary),
            FlatForm::Additive => FlatExpression::Additive(binary),
            FlatForm::Comparison => FlatExpression::Comparison(binary),
            FlatForm::Logical => FlatExpression::Logical(binary),
            FlatForm::Assign => FlatExpression::Assign(binary),
        }
    }
}

/// What the flattener does with a node, decided by the node's kind alone.
#[derive(Debug, PartialEq, Eq, Clone, Copy, Structural)]
pub enum NodeClass {
    /// A source file or a source block: a new scope.
    Source,
    /// One of the seven binary forms.
    Binary(FlatForm),
    /// A pair of parentheses: no trace of its own.
    Parenthesize,
    /// A number literal.
    Number,
    /// A string literal.
    String,
    /// An identifier.
    Identifier,
    /// An operator leaf.
    Operator(FlatOperator),
    /// A kind that the flattener does not know.
    Unknown,
}

/// The numeric identifier of every node kind that the flattener recognises.
#[derive(Debug, PartialEq, Eq, Clone, Copy)]
pub struct NodeKinds {
    pub source_file: u16,
    pub source: u16,
    pub parenthesize: u16,
    pub member: u16,
    pub call: u16,
    pub multiplicative: u16,
    pub additive: u16,
    pub comparison: u16,
    pub logical: u16,
    pub assign: u16,
    pub binary: u16,
    pub octal: u16,
    pub decimal: u16,
    pub hex: u16,
    pub single_quoted: u16,
    pub double_quoted: u16,
    pub escape: u16,
    pub raw: u16,
    pub identifier: u16,
    pub extract: u16,
    pub pipe: u16,
    pub multiply: u16,
    pub divide: u16,
    pub modulo: u16,
    pub add: u16,
    pub subtract: u16,
    pub equal: u16,
    pub not_equal: u16,
    pub less_than: u16,
    pub greater_than: u16,
    pub less_equal: u16,
    pub greater_equal: u16,
    pub and: u16,
    pub or: u16,
    pub constant: u16,
    pub variable: u16,
}

impl NodeKinds {
    /// The class of a kind. Where one identifier stands for several kinds,
    /// containers come before binary forms, those before parentheses,
    /// literals and identifiers, and operators last.
    pub open spec fn spec_classify(&self, kind: u16) -> NodeClass {
        if kind == self.source_file || kind == self.source {
            NodeClass::Source
        } else if kind == self.member {
            NodeClass::Binary(FlatForm::Member)
        } else if kind == self.multiplicative {
            NodeClass::Binary(FlatForm::Multiplicative)
        } else if kind == self.additive {
            NodeClass::Binary(FlatForm::Additive)
        } else if kind == self.comparison {
            NodeClass::Binary(FlatForm::Comparison)
        } else if kind == self.logical {
            NodeClass::Binary(FlatForm::Logical)
        } else if kind == self.call {
            NodeClass::Binary(FlatForm::Call)
        } else if kind == self.assign {
            NodeClass::Binary(FlatForm::Assign)
        } else if kind == self.parenthesize {
            NodeClass::Parenthesize
        } else if kind == self.binary || kind == self.octal || kind == self.decimal || kind
            == self.hex {
            NodeClass::Number
        } else if kind == self.single_quoted || kind == self.double_quoted {
            NodeClass::String
        } else if kind == self.identifier {
            NodeClass::Identifier
        } else if kind == self.extract {
            NodeClass::Operator(FlatOperator::Extract)
        } else if kind == self.pipe {
            NodeClass::Operator(FlatOperator::Pipe)
        } else if kind == self.multiply {
            NodeClass::Operator(FlatOperator::Multiply)
        } else if kind == self.divide {
            NodeClass::Operator(FlatOperator::Divide)
        } else if kind == self.modulo {
            NodeClass::Operator(FlatOperator::Modulo)
        } else if kind == self.add {
            NodeClass::Operator(FlatOperator::Add)
        } else if kind == self.subtract {
            NodeClass::Operator(FlatOperator::Subtract)
        } else if kind == self.equal {
            NodeClass::Operator(FlatOperator::Equal)
        } else if kind == self.not_equal {
            NodeClass::Operator(FlatOperator::NotEqual)
        } else if kind == self.less_than {
            NodeClass::Operator(FlatOperator::LessThan)
        } else if kind == self.greater_than {
            NodeClass::Operator(FlatOperator::GreaterThan)
        } else if kind == self.less_equal {
            NodeClass::Operator(FlatOperator::LessEqual)
        } else if kind == self.greater_equal {
            NodeClass::Operator(FlatOperator::GreaterEqual)
        } else if kind == self.and {
            NodeClass::Operator(FlatOperator::And)
        } else if kind == self.or {
            NodeClass::Operator(FlatOperator::Or)
        } else if kind == self.constant {
            NodeClass::Operator(FlatOperator::Constant)
        } else if kind == self.variable {
            NodeClass::Operator(FlatOperator::Variable)
        } else {
            NodeClass::Unknown
        }
    }

    /// The class of a kind.
    #[verifier::when_used_as_spec(spec_classify)]
    pub fn classify(&self, kind: u16) -> (class: NodeClass)
        ensures
            class == self.spec_classify(kind),
    {
        if kind == self.source_file || kind == self.source {
            NodeClass::Source
        } else if kind == self.member {
            NodeClass::Binary(FlatForm::Member)
        } else if kind == self.multiplicative {
            NodeClass::Binary(FlatForm::Multiplicative)
        } else if kind == self.additive {
            NodeClass::Binary(FlatForm::Additive)
        } else if kind == self.comparison {
            NodeClass::Binary(FlatForm::Comparison)
        } else if kind == self.logical {
            NodeClass::Binary(FlatForm::Logical)
        } else if kind == self.call {
            NodeClass::Binary(FlatForm::Call)
        } else if kind == self.assign {
            NodeClass::Binary(FlatForm::Assign)
        } else if kind == self.parenthesize {
            NodeClass::Parenthesize
        } else if kind == self.binary || kind == self.octal || kind == self.decimal || kind
            == self.hex {
            NodeClass::Number
        } else if kind == self.single_quoted || kind == self.double_quoted {
            NodeClass::String
        } else if kind == self.identifier {
            NodeClass::Identifier
        } else if kind == self.extract {
            NodeClass::Operator(FlatOperator::Extract)
        } else if kind == self.pipe {
            NodeClass::Operator(FlatOperator::Pipe)
        } else if kind == self.multiply {
            NodeClass::Operator(FlatOperator::Multiply)
        } else if kind == self.divide {
            NodeClass::Operator(FlatOperator::Divide)
        } else if kind == self.modulo {
            NodeClass::Operator(FlatOperator::Modulo)
        } else if kind == self.add {
            NodeClass::Operator(FlatOperator::Add)
        } else if kind == self.subtract {
            NodeClass::Operator(FlatOperator::Subtract)
        } else if kind == self.equal {
            NodeClass::Operator(FlatOperator::Equal)
        } else if kind == self.not_equal {
            NodeClass::Operator(FlatOperator::NotEqual)
        } else if kind == self.less_than {
            NodeClass::Operator(FlatOperator::LessThan)
        } else if kind == self.greater_than {
            NodeClass::Operator(FlatOperator::GreaterThan)
        } else if kind == self.less_equal {
            NodeClass::Operator(FlatOperator::LessEqual)
        } else if kind == self.greater_equal {
            NodeClass::Operator(FlatOperator::GreaterEqual)
        } else if kind == self.and {
            NodeClass::Operator(FlatOperator::And)
        } else if kind == self.or {
            NodeClass::Operator(FlatOperator::Or)
        } else if kind == self.constant {
            NodeClass::Operator(FlatOperator::Constant)
        } else if kind == self.variable {
            NodeClass::Operator(FlatOperator::Variable)
        } else {
            NodeClass::Unknown
        }
    }
}

/// A grammar, as the parser library holds it.
#[verifier::external_type_specification]
#[verifier::external_body]
pub struct ExLanguage(tree_sitter::Language);

/// The numeric identifier that a language gives for each name to which it
/// gives one: the identifier of the named node kind of that name, and that
/// of the error kind for the names that the language takes for it.
pub uninterp spec fn language_kind_ids(language: Language) -> Map<Seq<char>, u16>;

/// Whether a name can be looked up: it holds no NUL character and is not
/// longer than 65535 characters.
pub open spec fn is_lookup_name(kind: Seq<char>) -> bool {
    !kind.contains('\0') && kind.len() <= u16::MAX
}

/// The identifier that a table of kinds gives for a name: 0 where the name
/// is not in the table or cannot be looked up.
pub open spec fn kind_id_in(ids: Map<Seq<char>, u16>, kind: Seq<char>) -> u16 {
    if ids.contains_key(kind) && is_lookup_name(kind) {
        ids[kind]
    } else {
        0
    }
}

/// Calls `tree_sitter::Language::id_for_node_kind` for a named kind. The
/// parser library answers with the identifier of the error kind for
/// `ERROR` and for what `ERROR` begins with, else with the identifier of
/// the named node kind of that name, and with 0 where there is none: what
/// it answers depends on the language and on the name alone. It compares
/// names as C strings and takes their length as a 32-bit number, so a name
/// with a NUL character in it and a very long name are kept away from it.
#[verifier::external_body]
fn id_for_named_kind(language: &Language, kind: &str) -> (id: u16)
    requires
        is_lookup_name(kind@),
    ensures
        id == kind_id_in(language_kind_ids(*language), kind@),
{
    language.id_for_node_kind(kind, true)
}

/// Whether a name can be looked up.
fn can_look_up(kind: &str) -> (clean: bool)
    ensures
        clean == is_lookup_name(kind@),
{
    let length = kind.unicode_len();
    if length > 65535 {
        return false;
    }
    let mut i: usize = 0;
    while i < length
        invariant
            i <= length,
            length == kind@.len(),
            forall|j: int| 0 <= j < i ==> kind@[j] != '\0',
        decreases length - i,
    {
        if kind.get_char(i) == '\0' {
            return false;
        }
        i += 1;
    }
    true
}

/// The identifier that a language gives for the name of a named node kind,
/// or 0 where it gives none.
pub fn kind_id(language: &Language, kind: &str) -> (id: u16)
    ensures
        id == kind_id_in(language_kind_ids(*language), kind@),
{
    if can_look_up(kind) {
        id_for_named_kind(language, kind)
    } else {
        0
    }
}

impl NodeKinds {
    /// The table that a map from names to identifiers gives: each field
    /// holds the identifier of the kind of the field's name.
    pub open spec fn of(ids: Map<Seq<char>, u16>) -> NodeKinds {
        NodeKinds {
            source_file: kind_id_in(ids, "source_file"@),
            source: kind_id_in(ids, "source"@),
            parenthesize: kind_id_in(ids, "parenthesize"@),
            member: kind_id_in(ids, "member"@),
            call: kind_id_in(ids, "call"@),
            multiplicative: kind_id_in(ids, "multiplicative"@),
            additive: kind_id_in(ids, "additive"@),
            comparison: kind_id_in(ids, "comparison"@),
            logical: kind_id_in(ids, "logical"@),
            assign: kind_id_in(ids, "assign"@),
            binary: kind_id_in(ids, "binary"@),
            octal: kind_id_in(ids, "octal"@),
            decimal: kind_id_in(ids, "decimal"@),
            hex: kind_id_in(ids, "hex"@),
            single_quoted: kind_id_in(ids, "single_quoted"@),
            double_quoted: kind_id_in(ids, "double_quoted"@),
            escape: kind_id_in(ids, "escape"@),
            raw: kind_id_in(ids, "raw"@),
            identifier: kind_id_in(ids, "identifier"@),
            extract: kind_id_in(ids, "extract"@),
            pipe: kind_id_in(ids, "pipe"@),
            multiply: kind_id_in(ids, "multiply"@),
            divide: kind_id_in(ids, "divide"@),
            modulo: kind_id_in(ids, "modulo"@),
            add: kind_id_in(ids, "add"@),
            subtract: kind_id_in(ids, "subtract"@),
            equal: kind_id_in(ids, "equal"@),
            not_equal: kind_id_in(ids, "not_equal"@),
            less_than: kind_id_in(ids, "less_than"@),
            greater_than: kind_id_in(ids, "greater_than"@),
            less_equal: kind_id_in(ids, "less_equal"@),
            greater_equal: kind_id_in(ids, "greater_equal"@),
            and: kind_id_in(ids, "and"@),
            or: kind_id_in(ids, "or"@),
            constant: kind_id_in(ids, "constant"@),
            variable: kind_id_in(ids, "variable"@),
        }
    }

    /// Looks up, once, the identifier of every node kind that the flattener
    /// recognises.
    pub fn new(language: &Language) -> (kinds: Self)
        ensures
            kinds == Self::of(language_kind_ids(*language)),
    {
        NodeKinds {
            source_file: kind_id(language, "source_file"),
            source: kind_id(language, "source"),
            parenthesize: kind_id(language, "parenthesize"),
            member: kind_id(language, "member"),
            call: kind_id(language, "call"),
            multiplicative: kind_id(language, "multiplicative"),
            additive: kind_id(language, "additive"),
            comparison: kind_id(language, "comparison"),
            logical: kind_id(language, "logical"),
            assign: kind_id(language, "assign"),
            binary: kind_id(language, "binary"),
            octal: kind_id(language, "octal"),
            decimal: kind_id(language, "decimal"),
            hex: kind_id(language, "hex"),
            single_quoted: kind_id(language, "single_quoted"),
            double_quoted: kind_id(language, "double_quoted"),
            escape: kind_id(language, "escape"),
            raw: kind_id(language, "raw"),
            identifier: kind_id(language, "identifier"),
            extract: kind_id(language, "extract"),
            pipe: kind_id(language, "pipe"),
            multiply: kind_id(language, "multiply"),
            divide: kind_id(language, "divide"),
            modulo: kind_id(language, "modulo"),
            add: kind_id(language, "add"),
            subtract: kind_id(language, "subtract"),
            equal: kind_id(language, "equal"),
            not_equal: kind_id(language, "not_equal"),
            less_than: kind_id(language, "less_than"),
            greater_than: kind_id(language, "greater_than"),
            less_equal: kind_id(language, "less_equal"),
            greater_equal: kind_id(language, "greater_equal"),
            and: kind_id(language, "and"),
            or: kind_id(language, "or"),
            constant: kind_id(language, "constant"),
            variable: kind_id(language, "variable"),
        }
    }
}

/// Flattens a tree that was parsed with `language`: the kinds are looked up
/// in the language, and the tree is flattened by them.
pub fn process_tree(language: &Language, tree: &SyntaxNode) -> (result: Result<FlatRoot, Error>)
    ensures
        match flatten_tree_spec(NodeKinds::of(language_kind_ids(*language)), tree@) {
            Ok(root) => result matches Ok(flat) && flat@ == root,
            Err(fault) => reports(result, fault),
        },
        result matches Ok(flat) ==> flat@.well_formed(),
{
    let node_kinds = NodeKinds::new(language);
    flatten_tree(&node_kinds, tree)
}

} // verus!
