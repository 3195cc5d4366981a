//! What the machine reads from a syntax tree of statement chains: for each
//! kind of node, the typed value that it stands for, or why it stands for
//! none.

use crate::ast_view::{group, leaf, optional, word, AstShape, Term};
use crate::syntax::SyntaxTree;
use vstd::prelude::*;
use vstd::utf8::{decode_utf8, encode_utf8, is_char_boundary};

verus! {

/// The start of the message for a node of an unknown kind; the name of the kind follows.
pub const UNKNOWN_KIND: &'static str = "Unknown node kind: ";

/// The message for a statement without a definition and without an expression.
pub const INVALID_STATEMENT: &'static str = "Invalid statement";

/// The message for an operation of a definition that is neither `:` nor `=`.
pub const INVALID_DEFINITION_OPERATION: &'static str = "Invalid definition operation";

/// The message for a definition without an expression.
pub const MISSING_EXPRESSION: &'static str = "Definition missing expression";

/// The message for an expression without a child that it knows.
pub const INVALID_EXPRESSION: &'static str = "Invalid expression";

/// The message for an identifier without a name and without a call.
pub const INVALID_IDENTIFIER: &'static str = "Invalid identifier";

/// The message for a call without an identifier.
pub const MISSING_IDENTIFIER: &'static str = "Call missing identifier";

/// The message for a number without a child of a number kind.
pub const INVALID_NUMBER: &'static str = "Invalid number";

/// The message for a string whose text has no room for its quotes.
pub const INVALID_STRING: &'static str = "Invalid string";

/// The start of the message for an unknown operation of a formula; the operation follows.
pub const INVALID_MATH_OPERATION: &'static str = "Invalid math operation: ";

/// What was read, or the message of the error.
pub type Reading = Result<Term, Seq<char>>;

/// What a definition has gathered from its children so far: its
/// assignments, its expression, and the name that waits for its operation.
pub struct DefinitionParts {
    pub assignments: Seq<Term>,
    pub expression: Option<Term>,
    pub waiting: Option<Term>,
}

/// What a call has gathered from its children so far: what is called, and
/// the arguments.
pub struct CallParts {
    pub identifier: Option<Term>,
    pub arguments: Seq<Term>,
}

/// What a formula has gathered from its children so far: its sections, and
/// whether a variable is due next.
pub struct MathParts {
    pub sections: Seq<Term>,
    pub expecting_variable: bool,
}

/// The value that a node stands for, by its kind.
pub open spec fn read_node(tree: SyntaxTree) -> Reading
    decreases tree, 1nat,
{
    if tree.kind == "source_file"@ {
        read_source_file(tree)
    } else if tree.kind == "source"@ {
        read_source(tree)
    } else if tree.kind == "statement_chain"@ {
        read_statement_chain(tree)
    } else if tree.kind == "statement"@ {
        read_statement(tree)
    } else if tree.kind == "definition"@ {
        read_definition(tree)
    } else if tree.kind == "expression"@ {
        read_expression(tree)
    } else if tree.kind == "identifier_chain"@ {
        read_identifier_chain(tree)
    } else if tree.kind == "identifier"@ {
        read_identifier(tree)
    } else if tree.kind == "call"@ {
        read_call(tree)
    } else if tree.kind == "math"@ {
        read_math(tree)
    } else if tree.kind == "number"@ {
        read_number(tree)
    } else if tree.kind == "string"@ {
        read_string(tree)
    } else if tree.kind == "name"@ {
        read_name(tree)
    } else if tree.kind == "math_operation"@ {
        read_math_operation(tree)
    } else {
        Err(UNKNOWN_KIND@ + tree.kind)
    }
}

/// The last statement chain among the nodes, after `found`.
pub open spec fn last_chain(found: Option<Term>, nodes: Seq<SyntaxTree>) -> Result<
    Option<Term>,
    Seq<char>,
>
    decreases nodes, nodes.len(),
{
    if nodes.len() == 0 {
        Ok(found)
    } else if nodes.first().kind == "statement_chain"@ {
        match read_statement_chain(nodes.first()) {
            Ok(chain) => last_chain(Some(chain), nodes.drop_first()),
            Err(message) => Err(message),
        }
    } else {
        last_chain(found, nodes.drop_first())
    }
}

/// A source file holds the last of its statement chains, if it has one.
pub open spec fn read_source_file(tree: SyntaxTree) -> Reading
    decreases tree, 0nat,
{
    match last_chain(None, tree.children) {
        Ok(chain) => Ok(group(AstShape::SourceFile, optional(chain))),
        Err(message) => Err(message),
    }
}

/// A source holds the last of its statement chains, if it has one.
pub open spec fn read_source(tree: SyntaxTree) -> Reading
    decreases tree, 0nat,
{
    match last_chain(None, tree.children) {
        Ok(chain) => Ok(group(AstShape::Source, optional(chain))),
        Err(message) => Err(message),
    }
}

/// The statements among the nodes, after those that were `found`.
pub open spec fn statements_among(found: Seq<Term>, nodes: Seq<SyntaxTree>) -> Result<
    Seq<Term>,
    Seq<char>,
>
    decreases nodes, nodes.len(),
{
    if nodes.len() == 0 {
        Ok(found)
    } else if nodes.first().kind == "statement"@ {
        match read_statement(nodes.first()) {
            Ok(statement) => statements_among(found.push(statement), nodes.drop_first()),
            Err(message) => Err(message),
        }
    } else {
        statements_among(found, nodes.drop_first())
    }
}

/// A statement chain holds its statements, in order.
pub open spec fn read_statement_chain(tree: SyntaxTree) -> Reading
    decreases tree, 0nat,
{
    match statements_among(Seq::empty(), tree.children) {
        Ok(statements) => Ok(group(AstShape::StatementChain, statements)),
        Err(message) => Err(message),
    }
}

/// The statement that the first definition or expression among the nodes
/// makes.
pub open spec fn first_statement(nodes: Seq<SyntaxTree>) -> Reading
    decreases nodes, nodes.len(),
{
    if nodes.len() == 0 {
        Err(INVALID_STATEMENT@)
    } else if nodes.first().kind == "definition"@ {
        match read_definition(nodes.first()) {
            Ok(definition) => Ok(group(AstShape::DefinitionStatement, seq![definition])),
            Err(message) => Err(message),
        }
    } else if nodes.first().kind == "expression"@ {
        match read_expression(nodes.first()) {
            Ok(expression) => Ok(group(AstShape::ExpressionStatement, seq![expression])),
            Err(message) => Err(message),
        }
    } else {
        first_statement(nodes.drop_first())
    }
}

/// A statement is its first definition or expression.
pub open spec fn read_statement(tree: SyntaxTree) -> Reading
    decreases tree, 0nat,
{
    first_statement(tree.children)
}

/// The operation that a text stands for.
pub open spec fn read_definition_operation(text: Seq<char>) -> Reading {
    if text == ":"@ {
        Ok(leaf(AstShape::Constant))
    } else if text == "="@ {
        Ok(leaf(AstShape::Variable))
    } else {
        Err(INVALID_DEFINITION_OPERATION@)
    }
}

/// What a definition gathers from the nodes, after what it has `found`: a
/// name waits for the operation that follows it, and the two make an
/// assignment; an operation without a name before it is passed over; the
/// last expression is the definition's.
pub open spec fn definition_parts(found: DefinitionParts, nodes: Seq<SyntaxTree>) -> Result<
    DefinitionParts,
    Seq<char>,
>
    decreases nodes, nodes.len(),
{
    if nodes.len() == 0 {
        Ok(found)
    } else {
        let node = nodes.first();
        let rest = nodes.drop_first();
        if node.kind == "identifier_chain"@ {
            match read_identifier_chain(node) {
                Ok(chain) => definition_parts(
                    DefinitionParts { waiting: Some(chain), ..found },
                    rest,
                ),
                Err(message) => Err(message),
            }
        } else if node.kind == "definition_operation"@ {
            match found.waiting {
                Some(chain) => match read_definition_operation(node.text) {
                    Ok(operation) => definition_parts(
                        DefinitionParts {
                            assignments: found.assignments.push(
                                group(AstShape::Assignment, seq![chain, operation]),
                            ),
                            waiting: None,
                            ..found
                        },
                        rest,
                    ),
                    Err(message) => Err(message),
                },
                None => definition_parts(found, rest),
            }
        } else if node.kind == "expression"@ {
            match read_expression(node) {
                Ok(expression) => definition_parts(
                    DefinitionParts { expression: Some(expression), ..found },
                    rest,
                ),
                Err(message) => Err(message),
            }
        } else {
            definition_parts(found, rest)
        }
    }
}

/// A definition holds its assignments and its expression, which it must
/// have.
pub open spec fn read_definition(tree: SyntaxTree) -> Reading
    decreases tree, 0nat,
{
    match definition_parts(
        DefinitionParts { assignments: Seq::empty(), expression: None, waiting: None },
        tree.children,
    ) {
        Ok(parts) => match parts.expression {
            Some(expression) => Ok(
                group(AstShape::Definition, parts.assignments.push(expression)),
            ),
            None => Err(MISSING_EXPRESSION@),
        },
        Err(message) => Err(message),
    }
}

/// The expression that the first identifier chain, formula, string, number
/// or source among the nodes makes.
pub open spec fn first_expression(nodes: Seq<SyntaxTree>) -> Reading
    decreases nodes, nodes.len(),
{
    if nodes.len() == 0 {
        Err(INVALID_EXPRESSION@)
    } else {
        let node = nodes.first();
        if node.kind == "identifier_chain"@ {
            match read_identifier_chain(node) {
                Ok(chain) => Ok(group(AstShape::ChainExpression, seq![chain])),
                Err(message) => Err(message),
            }
        } else if node.kind == "math"@ {
            match read_math(node) {
                Ok(math) => Ok(group(AstShape::MathExpression, seq![math])),
                Err(message) => Err(message),
            }
        } else if node.kind == "string"@ {
            match read_string(node) {
                Ok(string) => Ok(group(AstShape::StringExpression, seq![string])),
                Err(message) => Err(message),
            }
        } else if node.kind == "number"@ {
            match read_number(node) {
                Ok(number) => Ok(group(AstShape::NumberExpression, seq![number])),
                Err(message) => Err(message),
            }
        } else if node.kind == "source"@ {
            match read_source(node) {
                Ok(source) => Ok(group(AstShape::SourceExpression, seq![source])),
                Err(message) => Err(message),
            }
        } else {
            first_expression(nodes.drop_first())
        }
    }
}

/// An expression is its first identifier chain, formula, string, number or
/// source.
pub open spec fn read_expression(tree: SyntaxTree) -> Reading
    decreases tree, 0nat,
{
    first_expression(tree.children)
}

/// The identifiers among the nodes, after those that were `found`.
pub open spec fn identifiers_among(found: Seq<Term>, nodes: Seq<SyntaxTree>) -> Result<
    Seq<Term>,
    Seq<char>,
>
    decreases nodes, nodes.len(),
{
    if nodes.len() == 0 {
        Ok(found)
    } else if nodes.first().kind == "identifier"@ {
        match read_identifier(nodes.first()) {
            Ok(identifier) => identifiers_among(found.push(identifier), nodes.drop_first()),
            Err(message) => Err(message),
        }
    } else {
        identifiers_among(found, nodes.drop_first())
    }
}

/// An identifier chain holds its identifiers, in order.
pub open spec fn read_identifier_chain(tree: SyntaxTree) -> Reading
    decreases tree, 0nat,
{
    match identifiers_among(Seq::empty(), tree.children) {
        Ok(identifiers) => Ok(group(AstShape::IdentifierChain, identifiers)),
        Err(message) => Err(message),
    }
}

/// The identifier that the first name or call among the nodes makes.
pub open spec fn first_identifier(nodes: Seq<SyntaxTree>) -> Reading
    decreases nodes, nodes.len(),
{
    if nodes.len() == 0 {
        Err(INVALID_IDENTIFIER@)
    } else if nodes.first().kind == "name"@ {
        match read_name(nodes.first()) {
            Ok(name) => Ok(group(AstShape::NameIdentifier, seq![name])),
            Err(message) => Err(message),
        }
    } else if nodes.first().kind == "call"@ {
        match read_call(nodes.first()) {
            Ok(call) => Ok(group(AstShape::CallIdentifier, seq![call])),
            Err(message) => Err(message),
        }
    } else {
        first_identifier(nodes.drop_first())
    }
}

/// An identifier is its first name or call.
pub open spec fn read_identifier(tree: SyntaxTree) -> Reading
    decreases tree, 0nat,
{
    first_identifier(tree.children)
}

/// What a call gathers from the nodes, after what it has `found`: the last
/// identifier is what is called, and each statement is an argument.
pub open spec fn call_parts(found: CallParts, nodes: Seq<SyntaxTree>) -> Result<
    CallParts,
    Seq<char>,
>
    decreases nodes, nodes.len(),
{
    if nodes.len() == 0 {
        Ok(found)
    } else {
        let node = nodes.first();
        let rest = nodes.drop_first();
        if node.kind == "identifier"@ {
            match read_identifier(node) {
                Ok(identifier) => call_parts(
                    CallParts { identifier: Some(identifier), ..found },
                    rest,
                ),
                Err(message) => Err(message),
            }
        } else if node.kind == "statement"@ {
            match read_statement(node) {
                Ok(statement) => call_parts(
                    CallParts { arguments: found.arguments.push(statement), ..found },
                    rest,
                ),
                Err(message) => Err(message),
            }
        } else {
            call_parts(found, rest)
        }
    }
}

/// A call holds what is called, which it must have, and its arguments.
pub open spec fn read_call(tree: SyntaxTree) -> Reading
    decreases tree, 0nat,
{
    match call_parts(CallParts { identifier: None, arguments: Seq::empty() }, tree.children) {
        Ok(parts) => match parts.identifier {
            Some(identifier) => Ok(group(AstShape::Call, seq![identifier] + parts.arguments)),
            None => Err(MISSING_IDENTIFIER@),
        },
        Err(message) => Err(message),
    }
}

/// What a formula gathers from the nodes, after what it has `found`:
/// numbers and operations in turn, starting with a number. A number that
/// comes when an operation is due is passed over, and so is an operation
/// that comes when a number is due.
pub open spec fn math_parts(found: MathParts, nodes: Seq<SyntaxTree>) -> Result<
    MathParts,
    Seq<char>,
>
    decreases nodes, nodes.len(),
{
    if nodes.len() == 0 {
        Ok(found)
    } else {
        let node = nodes.first();
        let rest = nodes.drop_first();
        if node.kind == "number"@ && found.expecting_variable {
            match read_number(node) {
                Ok(number) => math_parts(
                    MathParts {
                        sections: found.sections.push(
                            group(
                                AstShape::VariableSection,
                                seq![group(AstShape::NumberVariable, seq![number])],
                            ),
                        ),
                        expecting_variable: false,
                    },
                    rest,
                ),
                Err(message) => Err(message),
            }
        } else if node.kind != "number"@ && node.kind == "math_operation"@
            && !found.expecting_variable {
            match read_math_operation(node) {
                Ok(operation) => math_parts(
                    MathParts {
                        sections: found.sections.push(
                            group(AstShape::OperationSection, seq![operation]),
                        ),
                        expecting_variable: true,
                    },
                    rest,
                ),
                Err(message) => Err(message),
            }
        } else {
            math_parts(found, rest)
        }
    }
}

/// A formula holds its sections, in order.
pub open spec fn read_math(tree: SyntaxTree) -> Reading
    decreases tree, 0nat,
{
    match math_parts(
        MathParts { sections: Seq::empty(), expecting_variable: true },
        tree.children,
    ) {
        Ok(parts) => Ok(group(AstShape::Math, parts.sections)),
        Err(message) => Err(message),
    }
}

/// The number that the first node of a number kind among the nodes makes.
pub open spec fn first_number(nodes: Seq<SyntaxTree>) -> Reading
    decreases nodes.len(),
{
    if nodes.len() == 0 {
        Err(INVALID_NUMBER@)
    } else {
        let node = nodes.first();
        if node.kind == "zero"@ {
            Ok(leaf(AstShape::Zero))
        } else if node.kind == "binary"@ {
            Ok(word(AstShape::Binary, node.text))
        } else if node.kind == "octal"@ {
            Ok(word(AstShape::Octal, node.text))
        } else if node.kind == "decimal"@ {
            Ok(word(AstShape::Decimal, node.text))
        } else if node.kind == "hex"@ {
            Ok(word(AstShape::Hex, node.text))
        } else {
            first_number(nodes.drop_first())
        }
    }
}

/// A number is its first child of a number kind.
pub open spec fn read_number(tree: SyntaxTree) -> Reading {
    first_number(tree.children)
}

/// The text between the first and the last byte of a text, where the text
/// has both and what is between them is text.
pub open spec fn unquoted(text: Seq<char>) -> Option<Seq<char>> {
    let bytes = encode_utf8(text);
    if bytes.len() >= 2 && is_char_boundary(bytes, bytes.len() - 1) && is_char_boundary(
        bytes.subrange(0, bytes.len() - 1),
        1,
    ) {
        Some(decode_utf8(bytes.subrange(1, bytes.len() - 1)))
    } else {
        None
    }
}

/// A string holds its text without the quotes around it.
pub open spec fn read_string(tree: SyntaxTree) -> Reading {
    match unquoted(tree.text) {
        Some(value) => Ok(word(AstShape::String, value)),
        None => Err(INVALID_STRING@),
    }
}

/// A name holds its text.
pub open spec fn read_name(tree: SyntaxTree) -> Reading {
    Ok(word(AstShape::Name, tree.text))
}

/// An operation of a formula is one of `+`, `-`, `*`, `/` and `%`.
pub open spec fn read_math_operation(tree: SyntaxTree) -> Reading {
    if tree.text == "+"@ {
        Ok(leaf(AstShape::Add))
    } else if tree.text == "-"@ {
        Ok(leaf(AstShape::Subtract))
    } else if tree.text == "*"@ {
        Ok(leaf(AstShape::Multiply))
    } else if tree.text == "/"@ {
        Ok(leaf(AstShape::Divide))
    } else if tree.text == "%"@ {
        Ok(leaf(AstShape::Modulo))
    } else {
        Err(INVALID_MATH_OPERATION@ + tree.text)
    }
}

} // verus!
