//! Validation of a syntax tree of statement chains before it is processed:
//! which trees are refused, and why.

use crate::general::{kind_id, kind_id_in, language_kind_ids, Error, ValidationError};
use crate::number::{
    digits_follow, number_value, validate_binary_number, validate_decimal_number,
    validate_hex_number, validate_octal_number,
};
use crate::syntax::{lemma_node_view, tree_views, SyntaxNode, SyntaxTree};
use tree_sitter::Language;
use vstd::prelude::*;
use vstd::string::{StrSliceExecFns, StringExecFns, StringSliceAdditionalSpecFns};
use vstd::utf8::encode_utf8;

verus! {

/// The message for a definition without a name or without an operation.
pub const MISSING_NAME_OR_OPERATION: &'static str = "Definition missing name or operation";

/// The start of the message for a string that is not quoted; the string follows.
pub const INVALID_STRING_FORMAT: &'static str = "Invalid string format: ";

/// Why a tree is refused, as mathematics.
pub enum ValidationFault {
    UnsupportedSourceBlock,
    EmptyExpression,
    InvalidNumberFormat(Seq<char>),
    MalformedFunctionCall(Seq<char>),
    InvalidIdentifierChain(Seq<char>),
    IncompleteOperatorSequence,
}

impl View for ValidationError {
    type V = ValidationFault;

    open spec fn view(&self) -> ValidationFault {
        match self {
            ValidationError::UnsupportedSourceBlock => ValidationFault::UnsupportedSourceBlock,
            ValidationError::EmptyExpression => ValidationFault::EmptyExpression,
            ValidationError::InvalidNumberFormat(text) => ValidationFault::InvalidNumberFormat(
                text@,
            ),
            ValidationError::MalformedFunctionCall(text) => ValidationFault::MalformedFunctionCall(
                text@,
            ),
            ValidationError::InvalidIdentifierChain(text) => ValidationFault::InvalidIdentifierChain(
                text@,
            ),
            ValidationError::IncompleteOperatorSequence => ValidationFault::IncompleteOperatorSequence,
        }
    }
}

/// Whether `result` accepts where no fault is expected, and else refuses
/// with the error of the expected fault.
pub open spec fn agrees(result: Result<(), ValidationError>, expected: Option<ValidationFault>)
    -> bool {
    match expected {
        None => result is Ok,
        Some(fault) => result matches Err(error) && error@ == fault,
    }
}

/// The numeric identifier of every node kind that validation recognises.
#[derive(Debug, PartialEq, Eq, Clone, Copy)]
pub struct NodeKindIDs {
    pub source_file: u16,
    pub source: u16,
    pub statement_chain: u16,
    pub statement: u16,
    pub definition: u16,
    pub expression: u16,
    pub identifier_chain: u16,
    pub identifier: u16,
    pub call: u16,
    pub definition_operation: u16,
    pub arithmetic: u16,
    pub variable: u16,
    pub number: u16,
    pub string: u16,
    pub prioritize: u16,
    pub expression_section: u16,
}

impl NodeKindIDs {
    /// The table that a map from names to identifiers gives: each field
    /// holds the identifier of the kind of the field's name.
    pub open spec fn of(ids: Map<Seq<char>, u16>) -> NodeKindIDs {
        NodeKindIDs {
            source_file: kind_id_in(ids, "source_file"@),
            source: kind_id_in(ids, "source"@),
            statement_chain: kind_id_in(ids, "statement_chain"@),
            statement: kind_id_in(ids, "statement"@),
            definition: kind_id_in(ids, "definition"@),
            expression: kind_id_in(ids, "expression"@),
            identifier_chain: kind_id_in(ids, "identifier_chain"@),
            identifier: kind_id_in(ids, "identifier"@),
            call: kind_id_in(ids, "call"@),
            definition_operation: kind_id_in(ids, "definition_operation"@),
            arithmetic: kind_id_in(ids, "arithmetic"@),
            variable: kind_id_in(ids, "variable"@),
            number: kind_id_in(ids, "number"@),
            string: kind_id_in(ids, "string"@),
            prioritize: kind_id_in(ids, "prioritize"@),
            expression_section: kind_id_in(ids, "expression_section"@),
        }
    }

    /// Looks up the identifier of every node kind that validation
    /// recognises.
    pub fn new(language: &Language) -> (kinds: Self)
        ensures
            kinds == Self::of(language_kind_ids(*language)),
    {
        NodeKindIDs {
            source_file: kind_id(language, "source_file"),
            source: kind_id(language, "source"),
            statement_chain: kind_id(language, "statement_chain"),
            statement: kind_id(language, "statement"),
            definition: kind_id(language, "definition"),
            expression: kind_id(language, "expression"),
            identifier_chain: kind_id(language, "identifier_chain"),
            identifier: kind_id(language, "identifier"),
            call: kind_id(language, "call"),
            definition_operation: kind_id(language, "definition_operation"),
            arithmetic: kind_id(language, "arithmetic"),
            variable: kind_id(language, "variable"),
            number: kind_id(language, "number"),
            string: kind_id(language, "string"),
            prioritize: kind_id(language, "prioritize"),
            expression_section: kind_id(language, "expression_section"),
        }
    }
}

/// The validator that looks at a node.
#[derive(Debug, PartialEq, Eq, Clone, Copy, Structural)]
pub enum Rule {
    Tree,
    StatementChain,
    Statement,
    Definition,
    Expression,
    ExpressionSection,
    Variable,
    Prioritize,
    IdentifierChain,
    Identifier,
    FunctionCall,
}

/// Whether a text starts with a byte.
pub open spec fn starts_with(text: Seq<u8>, byte: u8) -> bool {
    text.len() > 0 && text[0] == byte
}

/// Whether a text ends with a byte.
pub open spec fn ends_with(text: Seq<u8>, byte: u8) -> bool {
    text.len() > 0 && text[text.len() - 1] == byte
}

/// The fault of an arithmetic operator: it must be one of `+`, `-`, `*`,
/// `/` and `%`.
pub open spec fn arithmetic_fault(text: Seq<u8>) -> Option<ValidationFault> {
    if text.len() == 1 && (text[0] == 0x2b || text[0] == 0x2d || text[0] == 0x2a || text[0] == 0x2f
        || text[0] == 0x25) {
        None
    } else {
        Some(ValidationFault::IncompleteOperatorSequence)
    }
}

/// The fault of a number token. The bare `0` is accepted; a token with a
/// radix prefix must hold digits of the radix after it; any other token
/// that starts with `0` and is longer is refused; and a token that does not
/// start with `0` is accepted.
pub open spec fn number_format_fault(text: Seq<char>) -> Option<ValidationFault> {
    let bytes = encode_utf8(text);
    let radix: Option<nat> = if bytes.len() >= 2 && bytes[0] == 0x30 {
        if bytes[1] == 0x62 || bytes[1] == 0x42 {
            Some(2nat)
        } else if bytes[1] == 0x6f || bytes[1] == 0x4f {
            Some(8nat)
        } else if bytes[1] == 0x64 || bytes[1] == 0x44 {
            Some(10nat)
        } else if bytes[1] == 0x78 || bytes[1] == 0x58 {
            Some(16nat)
        } else {
            None
        }
    } else {
        None
    };
    if bytes.len() == 1 && bytes[0] == 0x30 {
        None
    } else if radix is Some {
        if digits_follow(bytes, radix->0) {
            None
        } else {
            Some(ValidationFault::InvalidNumberFormat(text))
        }
    } else if bytes.len() > 1 && bytes[0] == 0x30 {
        Some(ValidationFault::InvalidNumberFormat(text))
    } else {
        None
    }
}

/// A number token that starts with `0` and that validation accepts stands
/// for a value: validation and decoding agree on the forms of a number.
pub proof fn lemma_accepted_number_has_a_value(text: Seq<char>)
    requires
        number_format_fault(text) is None,
        starts_with(encode_utf8(text), 0x30),
    ensures
        number_value(encode_utf8(text)) is Some,
{
}

/// A number token that stands for a value is accepted by validation.
pub proof fn lemma_number_with_a_value_is_accepted(text: Seq<char>)
    requires
        number_value(encode_utf8(text)) is Some,
    ensures
        number_format_fault(text) is None,
{
}

/// The fault of a string token: it must start and end with a double quote.
pub open spec fn string_fault(text: Seq<char>) -> Option<ValidationFault> {
    let bytes = encode_utf8(text);
    if starts_with(bytes, 0x22) && ends_with(bytes, 0x22) {
        None
    } else {
        Some(ValidationFault::MalformedFunctionCall(INVALID_STRING_FORMAT@ + text))
    }
}

/// Whether a character has the Unicode property `Alphabetic`.
pub uninterp spec fn char_is_alphabetic(character: char) -> bool;

/// Calls `char::is_alphabetic`.
#[verifier::external_body]
fn is_alphabetic(character: char) -> (alphabetic: bool)
    ensures
        alphabetic == char_is_alphabetic(character),
{
    character.is_alphabetic()
}

/// Whether a character is one of the radix letters `b`, `o`, `d` and `x`,
/// in either case.
pub open spec fn is_radix_letter(character: char) -> bool {
    character == 'b' || character == 'B' || character == 'o' || character == 'O' || character
        == 'd' || character == 'D' || character == 'x' || character == 'X'
}

/// Whether an identifier looks like a number that went wrong: `0` followed
/// by a radix letter, or by any other alphabetic character.
pub open spec fn looks_like_number(identifier: Seq<char>) -> bool {
    identifier.len() > 1 && identifier[0] == '0' && (is_radix_letter(identifier[1])
        || char_is_alphabetic(identifier[1]))
}

/// The fault of an identifier's text.
pub open spec fn identifier_text_fault(text: Seq<char>) -> Option<ValidationFault> {
    if looks_like_number(text) {
        Some(ValidationFault::InvalidNumberFormat(text))
    } else {
        None
    }
}

/// The fault that a validator finds on a node before it looks at the
/// node's children.
pub open spec fn fault_before(kinds: NodeKindIDs, rule: Rule, node: SyntaxTree) -> Option<
    ValidationFault,
> {
    let bytes = encode_utf8(node.text);
    match rule {
        Rule::Tree => if node.kind_id == kinds.source {
            Some(ValidationFault::UnsupportedSourceBlock)
        } else {
            None
        },
        Rule::IdentifierChain => if ends_with(bytes, 0x2e) || starts_with(bytes, 0x2e) {
            Some(ValidationFault::InvalidIdentifierChain(node.text))
        } else {
            None
        },
        Rule::Identifier => identifier_text_fault(node.text),
        Rule::FunctionCall => if bytes.contains(0x28) && !bytes.contains(0x29) {
            Some(ValidationFault::MalformedFunctionCall(node.text))
        } else {
            None
        },
        _ => None,
    }
}

/// Whether a validator looks at the children of a node.
pub open spec fn looks_at_children(kinds: NodeKindIDs, rule: Rule, node: SyntaxTree) -> bool {
    rule is Tree ==> node.kind_id == kinds.source_file
}

/// Whether a child is of the kind that a validator counts first: an
/// expression of a statement or of a pair of brackets, the name of a
/// definition, a section of an expression, an operator of a section.
pub open spec fn counts_first(kinds: NodeKindIDs, rule: Rule, child: SyntaxTree) -> bool {
    match rule {
        Rule::Statement => child.kind_id != kinds.definition && child.kind_id == kinds.expression,
        Rule::Definition => child.kind_id == kinds.identifier_chain,
        Rule::Expression => child.kind_id == kinds.expression_section,
        Rule::ExpressionSection => child.kind_id == kinds.arithmetic,
        Rule::Prioritize => child.kind_id == kinds.expression,
        _ => false,
    }
}

/// Whether a child is of the kind that a validator counts second: the
/// operation of a definition, a variable of a section.
pub open spec fn counts_second(kinds: NodeKindIDs, rule: Rule, child: SyntaxTree) -> bool {
    match rule {
        Rule::Definition => child.kind_id != kinds.identifier_chain && child.kind_id
            == kinds.definition_operation,
        Rule::ExpressionSection => child.kind_id != kinds.arithmetic && child.kind_id
            == kinds.variable,
        _ => false,
    }
}

/// Whether one of the nodes is counted first by a validator.
pub open spec fn any_first(kinds: NodeKindIDs, rule: Rule, nodes: Seq<SyntaxTree>) -> bool {
    exists|i: int| 0 <= i < nodes.len() && counts_first(kinds, rule, #[trigger] nodes[i])
}

/// Whether one of the nodes is counted second by a validator.
pub open spec fn any_second(kinds: NodeKindIDs, rule: Rule, nodes: Seq<SyntaxTree>) -> bool {
    exists|i: int| 0 <= i < nodes.len() && counts_second(kinds, rule, #[trigger] nodes[i])
}

/// The fault that a validator finds on a node after its children were
/// found without fault: a statement or a pair of brackets without an
/// expression, an expression without a section, a definition without a name
/// or without an operation, a section with an operator and no variable.
pub open spec fn fault_after(kinds: NodeKindIDs, rule: Rule, node: SyntaxTree) -> Option<
    ValidationFault,
> {
    let first = any_first(kinds, rule, node.children);
    let second = any_second(kinds, rule, node.children);
    match rule {
        Rule::Statement | Rule::Expression | Rule::Prioritize => if first {
            None
        } else {
            Some(ValidationFault::EmptyExpression)
        },
        Rule::Definition => if first && second {
            None
        } else {
            Some(ValidationFault::MalformedFunctionCall(MISSING_NAME_OR_OPERATION@))
        },
        Rule::ExpressionSection => if first && !second {
            Some(ValidationFault::IncompleteOperatorSequence)
        } else {
            None
        },
        _ => None,
    }
}

/// The fault that a validator finds on a node: the fault of the node
/// itself, else the first fault among its children, else the fault of what
/// the children are together.
pub open spec fn fault(kinds: NodeKindIDs, rule: Rule, node: SyntaxTree) -> Option<ValidationFault>
    decreases node, 1nat,
{
    if fault_before(kinds, rule, node) is Some {
        fault_before(kinds, rule, node)
    } else if !looks_at_children(kinds, rule, node) {
        None
    } else if first_fault(kinds, rule, node.children) is Some {
        first_fault(kinds, rule, node.children)
    } else {
        fault_after(kinds, rule, node)
    }
}

/// The first fault that a validator finds among the children of a node.
pub open spec fn first_fault(kinds: NodeKindIDs, rule: Rule, nodes: Seq<SyntaxTree>) -> Option<
    ValidationFault,
>
    decreases nodes, nodes.len(),
{
    if nodes.len() == 0 {
        None
    } else if child_fault(kinds, rule, nodes.first()) is Some {
        child_fault(kinds, rule, nodes.first())
    } else {
        first_fault(kinds, rule, nodes.drop_first())
    }
}

/// The fault that a validator finds on one child: each validator hands the
/// children of the kinds that it knows to the validator of that kind, and
/// passes over the others.
pub open spec fn child_fault(kinds: NodeKindIDs, rule: Rule, child: SyntaxTree) -> Option<
    ValidationFault,
>
    decreases child, 2nat,
{
    let kind = child.kind_id;
    match rule {
        Rule::Tree => if kind == kinds.statement_chain {
            fault(kinds, Rule::StatementChain, child)
        } else if kind == kinds.source {
            Some(ValidationFault::UnsupportedSourceBlock)
        } else {
            None
        },
        Rule::StatementChain => if kind == kinds.statement {
            fault(kinds, Rule::Statement, child)
        } else {
            None
        },
        Rule::Statement => if kind == kinds.definition {
            fault(kinds, Rule::Definition, child)
        } else if kind == kinds.expression {
            fault(kinds, Rule::Expression, child)
        } else {
            None
        },
        Rule::Definition => if kind == kinds.identifier_chain {
            fault(kinds, Rule::IdentifierChain, child)
        } else {
            None
        },
        Rule::Expression => if kind == kinds.expression_section {
            fault(kinds, Rule::ExpressionSection, child)
        } else {
            None
        },
        Rule::ExpressionSection => if kind == kinds.arithmetic {
            arithmetic_fault(encode_utf8(child.text))
        } else if kind == kinds.variable {
            fault(kinds, Rule::Variable, child)
        } else {
            None
        },
        Rule::Variable => if kind == kinds.number {
            number_format_fault(child.text)
        } else if kind == kinds.identifier_chain {
            fault(kinds, Rule::IdentifierChain, child)
        } else if kind == kinds.string {
            string_fault(child.text)
        } else if kind == kinds.prioritize {
            fault(kinds, Rule::Prioritize, child)
        } else {
            None
        },
        Rule::Prioritize => if kind == kinds.expression {
            fault(kinds, Rule::Expression, child)
        } else {
            None
        },
        Rule::IdentifierChain => if kind == kinds.identifier {
            fault(kinds, Rule::Identifier, child)
        } else {
            None
        },
        Rule::Identifier => if kind == kinds.call {
            fault(kinds, Rule::FunctionCall, child)
        } else {
            None
        },
        Rule::FunctionCall => if kind == kinds.expression {
            fault(kinds, Rule::Expression, child)
        } else {
            None
        },
    }
}

/// The identifiers that the Mage grammar gives to the node kinds that
/// validation knows. The grammar has a source file, a source, an
/// identifier, a call and a variable; it has none of the other kinds, and
/// the identifier of a kind that a grammar lacks is 0.
pub open spec fn mage_node_kind_ids() -> NodeKindIDs {
    NodeKindIDs {
        source_file: 33,
        source: 34,
        statement_chain: 0,
        statement: 0,
        definition: 0,
        expression: 0,
        identifier_chain: 0,
        identifier: 32,
        call: 42,
        definition_operation: 0,
        arithmetic: 0,
        variable: 22,
        number: 0,
        string: 0,
        prioritize: 0,
        expression_section: 0,
    }
}

/// Calls `tree_sitter::Language::new` with the grammar of the
/// `tree-sitter-mage` crate. The table of symbols of that grammar names the
/// node kinds `variable` (22), `identifier` (32), `source_file` (33),
/// `source` (34) and `call` (42), and no other of the kinds that validation
/// looks up.
#[verifier::external_body]
fn mage_language() -> (language: Language)
    ensures
        NodeKindIDs::of(language_kind_ids(language)) == mage_node_kind_ids(),
{
    Language::new(tree_sitter_mage::LANGUAGE)
}

/// The identifiers of the node kinds of the Mage grammar.
fn get_node_kind_ids() -> (kinds: NodeKindIDs)
    ensures
        kinds == mage_node_kind_ids(),
{
    let language = mage_language();
    NodeKindIDs::new(&language)
}

/// Whether a text holds a byte.
fn contains_byte(text: &[u8], byte: u8) -> (found: bool)
    ensures
        found == text@.contains(byte),
{
    let mut i: usize = 0;
    while i < text.len()
        invariant
            i <= text.len(),
            forall|j: int| 0 <= j < i ==> text@[j] != byte,
        decreases text.len() - i,
    {
        if text[i] == byte {
            return true;
        }
        i += 1;
    }
    false
}

/// Accepts `+`, `-`, `*`, `/` and `%`, and refuses any other operator.
pub fn validate_arithmetic_operator(op: &str) -> (result: Result<(), ValidationError>)
    ensures
        agrees(result, arithmetic_fault(op.spec_bytes())),
{
    let bytes = op.as_bytes();
    if bytes.len() == 1 && (bytes[0] == 0x2b || bytes[0] == 0x2d || bytes[0] == 0x2a || bytes[0]
        == 0x2f || bytes[0] == 0x25) {
        Ok(())
    } else {
        Err(ValidationError::IncompleteOperatorSequence)
    }
}

/// Accepts the bare `0`, a token with a radix prefix and digits of the
/// radix after it, and a token that does not start with `0`; refuses any
/// other token.
pub fn validate_number_format(number_text: &str) -> (result: Result<(), ValidationError>)
    ensures
        agrees(result, number_format_fault(number_text@)),
{
    let bytes = number_text.as_bytes();
    if bytes.len() == 1 && bytes[0] == 0x30 {
        return Ok(());
    }
    if bytes.len() >= 2 && bytes[0] == 0x30 {
        if bytes[1] == 0x62 || bytes[1] == 0x42 {
            return validate_binary_number(number_text);
        } else if bytes[1] == 0x6f || bytes[1] == 0x4f {
            return validate_octal_number(number_text);
        } else if bytes[1] == 0x64 || bytes[1] == 0x44 {
            return validate_decimal_number(number_text);
        } else if bytes[1] == 0x78 || bytes[1] == 0x58 {
            return validate_hex_number(number_text);
        } else {
            return Err(ValidationError::InvalidNumberFormat(number_text.to_owned()));
        }
    }
    Ok(())
}

/// Accepts a string that starts and ends with a double quote.
pub fn validate_string(string_text: &str) -> (result: Result<(), ValidationError>)
    ensures
        agrees(result, string_fault(string_text@)),
{
    let bytes = string_text.as_bytes();
    if bytes.len() > 0 && bytes[0] == 0x22 && bytes[bytes.len() - 1] == 0x22 {
        Ok(())
    } else {
        let mut message = String::from_str(INVALID_STRING_FORMAT);
        message.append(string_text);
        Err(ValidationError::MalformedFunctionCall(message))
    }
}

/// Whether a character is one of the radix letters.
fn radix_letter(character: char) -> (radix: bool)
    ensures
        radix == is_radix_letter(character),
{
    character == 'b' || character == 'B' || character == 'o' || character == 'O' || character
        == 'd' || character == 'D' || character == 'x' || character == 'X'
}

/// Decides on an identifier, given whether its second character is
/// alphabetic: an identifier that starts with `0` and goes on with a radix
/// letter or any other alphabetic character is refused as a number that
/// went wrong.
pub fn judge_identifier(identifier: &str, second_is_alphabetic: bool) -> (result: Result<
    (),
    ValidationError,
>)
    ensures
        ({
            let text = identifier@;
            let refused = text.len() > 1 && text[0] == '0' && (is_radix_letter(text[1])
                || second_is_alphabetic);
            agrees(
                result,
                if refused {
                    Some(ValidationFault::InvalidNumberFormat(text))
                } else {
                    None
                },
            )
        }),
{
    if identifier.unicode_len() > 1 && identifier.get_char(0) == '0' && (radix_letter(
        identifier.get_char(1),
    ) || second_is_alphabetic) {
        Err(ValidationError::InvalidNumberFormat(identifier.to_owned()))
    } else {
        Ok(())
    }
}

/// Refuses an identifier that looks like a number that went wrong.
pub fn validate_identifier_as_number(identifier: &str) -> (result: Result<(), ValidationError>)
    ensures
        agrees(result, identifier_text_fault(identifier@)),
{
    let second_is_alphabetic = identifier.unicode_len() > 1 && is_alphabetic(
        identifier.get_char(1),
    );
    judge_identifier(identifier, second_is_alphabetic)
}

/// Looks at a node before its children.
fn check_before(kinds: &NodeKindIDs, rule: Rule, node: &SyntaxNode) -> (result: Result<
    (),
    ValidationError,
>)
    ensures
        agrees(result, fault_before(*kinds, rule, node@)),
{
    proof {
        lemma_node_view(node);
    }
    let bytes = node.text.as_str().as_bytes();
    match rule {
        Rule::Tree => if node.kind_id == kinds.source {
            Err(ValidationError::UnsupportedSourceBlock)
        } else {
            Ok(())
        },
        Rule::IdentifierChain => if bytes.len() > 0 && (bytes[bytes.len() - 1] == 0x2e || bytes[0]
            == 0x2e) {
            Err(ValidationError::InvalidIdentifierChain(node.text.clone()))
        } else {
            Ok(())
        },
        Rule::Identifier => validate_identifier_as_number(node.text.as_str()),
        Rule::FunctionCall => if contains_byte(bytes, 0x28) && !contains_byte(bytes, 0x29) {
            Err(ValidationError::MalformedFunctionCall(node.text.clone()))
        } else {
            Ok(())
        },
        _ => Ok(()),
    }
}

/// Looks at what the children of a node are together.
fn check_after(kinds: &NodeKindIDs, rule: Rule, node: &SyntaxNode, first: bool, second: bool)
    -> (result: Result<(), ValidationError>)
    requires
        first == any_first(*kinds, rule, node@.children),
        second == any_second(*kinds, rule, node@.children),
    ensures
        agrees(result, fault_after(*kinds, rule, node@)),
{
    match rule {
        Rule::Statement | Rule::Expression | Rule::Prioritize => if first {
            Ok(())
        } else {
            Err(ValidationError::EmptyExpression)
        },
        Rule::Definition => if first && second {
            Ok(())
        } else {
            Err(
                ValidationError::MalformedFunctionCall(
                    String::from_str(MISSING_NAME_OR_OPERATION),
                ),
            )
        },
        Rule::ExpressionSection => if first && !second {
            Err(ValidationError::IncompleteOperatorSequence)
        } else {
            Ok(())
        },
        _ => Ok(()),
    }
}

/// Whether a validator counts a child first.
fn is_counted_first(kinds: &NodeKindIDs, rule: Rule, child: &SyntaxNode) -> (counted: bool)
    ensures
        counted == counts_first(*kinds, rule, child@),
{
    proof {
        lemma_node_view(child);
    }
    let kind = child.kind_id;
    match rule {
        Rule::Statement => kind != kinds.definition && kind == kinds.expression,
        Rule::Definition => kind == kinds.identifier_chain,
        Rule::Expression => kind == kinds.expression_section,
        Rule::ExpressionSection => kind == kinds.arithmetic,
        Rule::Prioritize => kind == kinds.expression,
        _ => false,
    }
}

/// Whether a validator counts a child second.
fn is_counted_second(kinds: &NodeKindIDs, rule: Rule, child: &SyntaxNode) -> (counted: bool)
    ensures
        counted == counts_second(*kinds, rule, child@),
{
    proof {
        lemma_node_view(child);
    }
    let kind = child.kind_id;
    match rule {
        Rule::Definition => kind != kinds.identifier_chain && kind == kinds.definition_operation,
        Rule::ExpressionSection => kind != kinds.arithmetic && kind == kinds.variable,
        _ => false,
    }
}

/// Looks at one child of a node, as the validator of `rule` does.
fn check_child(kinds: &NodeKindIDs, rule: Rule, child: &SyntaxNode) -> (result: Result<
    (),
    ValidationError,
>)
    ensures
        agrees(result, child_fault(*kinds, rule, child@)),
    decreases child, 2nat,
{
    proof {
        lemma_node_view(child);
    }
    let kind = child.kind_id;
    match rule {
        Rule::Tree => if kind == kinds.statement_chain {
            validate_rule(kinds, Rule::StatementChain, child)
        } else if kind == kinds.source {
            Err(ValidationError::UnsupportedSourceBlock)
        } else {
            Ok(())
        },
        Rule::StatementChain => if kind == kinds.statement {
            validate_rule(kinds, Rule::Statement, child)
        } else {
            Ok(())
        },
        Rule::Statement => if kind == kinds.definition {
            validate_rule(kinds, Rule::Definition, child)
        } else if kind == kinds.expression {
            validate_rule(kinds, Rule::Expression, child)
        } else {
            Ok(())
        },
        Rule::Definition => if kind == kinds.identifier_chain {
            validate_rule(kinds, Rule::IdentifierChain, child)
        } else {
            Ok(())
        },
        Rule::Expression => if kind == kinds.expression_section {
            validate_rule(kinds, Rule::ExpressionSection, child)
        } else {
            Ok(())
        },
        Rule::ExpressionSection => if kind == kinds.arithmetic {
            validate_arithmetic_operator(child.text.as_str())
        } else if kind == kinds.variable {
            validate_rule(kinds, Rule::Variable, child)
        } else {
            Ok(())
        },
        Rule::Variable => if kind == kinds.number {
            validate_number_format(child.text.as_str())
        } else if kind == kinds.identifier_chain {
            validate_rule(kinds, Rule::IdentifierChain, child)
        } else if kind == kinds.string {
            validate_string(child.text.as_str())
        } else if kind == kinds.prioritize {
            validate_rule(kinds, Rule::Prioritize, child)
        } else {
            Ok(())
        },
        Rule::Prioritize => if kind == kinds.expression {
            validate_rule(kinds, Rule::Expression, child)
        } else {
            Ok(())
        },
        Rule::IdentifierChain => if kind == kinds.identifier {
            validate_rule(kinds, Rule::Identifier, child)
        } else {
            Ok(())
        },
        Rule::Identifier => if kind == kinds.call {
            validate_rule(kinds, Rule::FunctionCall, child)
        } else {
            Ok(())
        },
        Rule::FunctionCall => if kind == kinds.expression {
            validate_rule(kinds, Rule::Expression, child)
        } else {
            Ok(())
        },
    }
}

/// Validates a node as the validator of `rule` does: the node itself, then
/// its children in order, then what the children are together. The first
/// fault ends it.
pub fn validate_rule(kinds: &NodeKindIDs, rule: Rule, node: &SyntaxNode) -> (result: Result<
    (),
    ValidationError,
>)
    ensures
        agrees(result, fault(*kinds, rule, node@)),
    decreases node, 1nat,
{
    proof {
        lemma_node_view(node);
    }
    match check_before(kinds, rule, node) {
        Ok(()) => {},
        Err(error) => {
            return Err(error);
        },
    }
    match rule {
        Rule::Tree => if node.kind_id != kinds.source_file {
            return Ok(());
        },
        _ => {},
    }
    let ghost trees = node@.children;
    let mut first = false;
    let mut second = false;
    let mut i: usize = 0;
    assert(trees.skip(0) =~= trees);
    while i < node.children.len()
        invariant
            i <= node.children.len(),
            trees == node@.children,
            trees == tree_views(node.children@),
            fault_before(*kinds, rule, node@) is None,
            looks_at_children(*kinds, rule, node@),
            first_fault(*kinds, rule, trees) == first_fault(*kinds, rule, trees.skip(i as int)),
            first == any_first(*kinds, rule, trees.take(i as int)),
            second == any_second(*kinds, rule, trees.take(i as int)),
        decreases node.children.len() - i,
    {
        let child = &node.children[i];
        let ghost rest = trees.skip(i as int);
        assert(rest.first() == child@);
        assert(rest.drop_first() =~= trees.skip(i + 1));
        match check_child(kinds, rule, child) {
            Ok(()) => {},
            Err(error) => {
                return Err(error);
            },
        }
        let counted_first = is_counted_first(kinds, rule, child);
        let counted_second = is_counted_second(kinds, rule, child);
        proof {
            let before = trees.take(i as int);
            let after = trees.take(i + 1);
            assert(after =~= before.push(child@));
            if any_first(*kinds, rule, before) {
                let at = choose|at: int|
                    0 <= at < before.len() && counts_first(*kinds, rule, #[trigger] before[at]);
                assert(after[at] == before[at]);
            }
            if any_second(*kinds, rule, before) {
                let at = choose|at: int|
                    0 <= at < before.len() && counts_second(*kinds, rule, #[trigger] before[at]);
                assert(after[at] == before[at]);
            }
            if counted_first {
                assert(after[i as int] == child@);
            }
            if counted_second {
                assert(after[i as int] == child@);
            }
            if any_first(*kinds, rule, after) && !counted_first {
                let at = choose|at: int|
                    0 <= at < after.len() && counts_first(*kinds, rule, #[trigger] after[at]);
                assert(before[at] == after[at]);
            }
            if any_second(*kinds, rule, after) && !counted_second {
                let at = choose|at: int|
                    0 <= at < after.len() && counts_second(*kinds, rule, #[trigger] after[at]);
                assert(before[at] == after[at]);
            }
        }
        first = first || counted_first;
        second = second || counted_second;
        i += 1;
    }
    assert(trees.take(i as int) =~= trees);
    check_after(kinds, rule, node, first, second)
}

/// Validates the root of a tree: a source block is refused, in the place
/// of the root and among its children, and each statement chain of a source
/// file is validated.
pub fn validate_node(node: &SyntaxNode, node_kind_ids: &NodeKindIDs) -> (result: Result<
    (),
    ValidationError,
>)
    ensures
        agrees(result, fault(*node_kind_ids, Rule::Tree, node@)),
{
    validate_rule(node_kind_ids, Rule::Tree, node)
}

/// Validates each statement of a chain.
pub fn validate_statement_chain(node: &SyntaxNode, node_kind_ids: &NodeKindIDs) -> (result: Result<
    (),
    ValidationError,
>)
    ensures
        agrees(result, fault(*node_kind_ids, Rule::StatementChain, node@)),
{
    validate_rule(node_kind_ids, Rule::StatementChain, node)
}

/// Validates a statement: its definitions and expressions, of which there
/// must be an expression.
pub fn validate_statement(node: &SyntaxNode, node_kind_ids: &NodeKindIDs) -> (result: Result<
    (),
    ValidationError,
>)
    ensures
        agrees(result, fault(*node_kind_ids, Rule::Statement, node@)),
{
    validate_rule(node_kind_ids, Rule::Statement, node)
}

/// Validates a definition: its name, and that it has a name and an
/// operation.
pub fn validate_definition(node: &SyntaxNode, node_kind_ids: &NodeKindIDs) -> (result: Result<
    (),
    ValidationError,
>)
    ensures
        agrees(result, fault(*node_kind_ids, Rule::Definition, node@)),
{
    validate_rule(node_kind_ids, Rule::Definition, node)
}

/// Validates an expression: its sections, of which there must be one.
pub fn validate_expression(node: &SyntaxNode, node_kind_ids: &NodeKindIDs) -> (result: Result<
    (),
    ValidationError,
>)
    ensures
        agrees(result, fault(*node_kind_ids, Rule::Expression, node@)),
{
    validate_rule(node_kind_ids, Rule::Expression, node)
}

/// Validates a section of an expression: its operators and variables, and
/// that no operator stands without a variable.
pub fn validate_expression_section(node: &SyntaxNode, node_kind_ids: &NodeKindIDs) -> (result:
    Result<(), ValidationError>)
    ensures
        agrees(result, fault(*node_kind_ids, Rule::ExpressionSection, node@)),
{
    validate_rule(node_kind_ids, Rule::ExpressionSection, node)
}

/// Validates a variable: its number, identifier chain, string or brackets.
pub fn validate_variable(node: &SyntaxNode, node_kind_ids: &NodeKindIDs) -> (result: Result<
    (),
    ValidationError,
>)
    ensures
        agrees(result, fault(*node_kind_ids, Rule::Variable, node@)),
{
    validate_rule(node_kind_ids, Rule::Variable, node)
}

/// Validates a pair of brackets: its expressions, of which there must be
/// one.
pub fn validate_prioritize(node: &SyntaxNode, node_kind_ids: &NodeKindIDs) -> (result: Result<
    (),
    ValidationError,
>)
    ensures
        agrees(result, fault(*node_kind_ids, Rule::Prioritize, node@)),
{
    validate_rule(node_kind_ids, Rule::Prioritize, node)
}

/// Validates a chain of identifiers: it must neither start nor end with a
/// dot, and each of its identifiers is validated.
pub fn validate_identifier_chain(node: &SyntaxNode, node_kind_ids: &NodeKindIDs) -> (result: Result<
    (),
    ValidationError,
>)
    ensures
        agrees(result, fault(*node_kind_ids, Rule::IdentifierChain, node@)),
{
    validate_rule(node_kind_ids, Rule::IdentifierChain, node)
}

/// Validates an identifier: its text must not look like a number that went
/// wrong, and each of its calls is validated.
pub fn validate_identifier(node: &SyntaxNode, node_kind_ids: &NodeKindIDs) -> (result: Result<
    (),
    ValidationError,
>)
    ensures
        agrees(result, fault(*node_kind_ids, Rule::Identifier, node@)),
{
    validate_rule(node_kind_ids, Rule::Identifier, node)
}

/// Validates a call: an opening parenthesis needs a closing one, and each
/// argument is validated.
pub fn validate_function_call(node: &SyntaxNode, node_kind_ids: &NodeKindIDs) -> (result: Result<
    (),
    ValidationError,
>)
    ensures
        agrees(result, fault(*node_kind_ids, Rule::FunctionCall, node@)),
{
    validate_rule(node_kind_ids, Rule::FunctionCall, node)
}

/// Validates a tree by the given kinds.
pub fn validate_tree_with(kinds: &NodeKindIDs, tree: &SyntaxNode) -> (result: Result<(), Error>)
    ensures
        match fault(*kinds, Rule::Tree, tree@) {
            None => result is Ok,
            Some(fault) => result matches Err(Error::ValidationError(error)) && error@ == fault,
        },
{
    match validate_node(tree, kinds) {
        Ok(()) => Ok(()),
        Err(error) => Err(Error::ValidationError(error)),
    }
}

/// Validates a tree by the kinds of the Mage grammar: the tree is accepted
/// where validation by those kinds finds no fault, and else refused with
/// the validation error of the first fault.
pub fn validate_tree(tree: &SyntaxNode) -> (result: Result<(), Error>)
    ensures
        match fault(mage_node_kind_ids(), Rule::Tree, tree@) {
            None => result is Ok,
            Some(fault) => result matches Err(Error::ValidationError(error)) && error@ == fault,
        },
{
    let kinds = get_node_kind_ids();
    validate_tree_with(&kinds, tree)
}

} // verus!
