//! What the typed syntax tree is, as mathematics: a tree of shapes, each
//! with a text and parts.

use crate::virtual_machine::{
    ASTCall, ASTDefinition, ASTDefinitionOperation, ASTExpression, ASTIdentifier,
    ASTIdentifierChain, ASTMath, ASTMathOperation, ASTMathSection, ASTMathVariable, ASTName,
    ASTNode, ASTNumber, ASTSource, ASTSourceFile, ASTStatement, ASTStatementChain, ASTString,
};
use vstd::prelude::*;

verus! {

/// The shape of a value of the typed tree: its type and, of an enum, its
/// variant.
pub enum AstShape {
    SourceFile,
    Source,
    StatementChain,
    DefinitionStatement,
    ExpressionStatement,
    Definition,
    Assignment,
    Constant,
    Variable,
    ChainExpression,
    MathExpression,
    StringExpression,
    NumberExpression,
    SourceExpression,
    IdentifierChain,
    NameIdentifier,
    CallIdentifier,
    Call,
    Math,
    VariableSection,
    OperationSection,
    ChainVariable,
    NumberVariable,
    Add,
    Subtract,
    Multiply,
    Divide,
    Modulo,
    Zero,
    Binary,
    Octal,
    Decimal,
    Hex,
    String,
    Name,
}

/// A value of the typed tree, as mathematics.
pub struct Term {
    pub shape: AstShape,
    pub text: Seq<char>,
    pub parts: Seq<Term>,
}

/// A term without text and without parts.
pub open spec fn leaf(shape: AstShape) -> Term {
    Term { shape, text: Seq::empty(), parts: Seq::empty() }
}

/// A term that holds a text.
pub open spec fn word(shape: AstShape, text: Seq<char>) -> Term {
    Term { shape, text, parts: Seq::empty() }
}

/// A term that holds parts.
pub open spec fn group(shape: AstShape, parts: Seq<Term>) -> Term {
    Term { shape, text: Seq::empty(), parts }
}

/// No part for none, one part for some.
pub open spec fn optional(part: Option<Term>) -> Seq<Term> {
    match part {
        Some(part) => seq![part],
        None => Seq::empty(),
    }
}

/// The term of a name: its text.
pub open spec fn name_term(name: ASTName) -> Term {
    word(AstShape::Name, name.value@)
}

/// The term of a string: its value.
pub open spec fn string_term(string: ASTString) -> Term {
    word(AstShape::String, string.value@)
}

/// The term of a number: zero, or its token under its radix.
pub open spec fn number_term(number: ASTNumber) -> Term {
    match number {
        ASTNumber::Zero => leaf(AstShape::Zero),
        ASTNumber::Binary(token) => word(AstShape::Binary, token@),
        ASTNumber::Octal(token) => word(AstShape::Octal, token@),
        ASTNumber::Decimal(token) => word(AstShape::Decimal, token@),
        ASTNumber::Hex(token) => word(AstShape::Hex, token@),
    }
}

/// The term of an operation of a formula.
pub open spec fn operation_term(operation: ASTMathOperation) -> Term {
    match operation {
        ASTMathOperation::Add => leaf(AstShape::Add),
        ASTMathOperation::Subtract => leaf(AstShape::Subtract),
        ASTMathOperation::Multiply => leaf(AstShape::Multiply),
        ASTMathOperation::Divide => leaf(AstShape::Divide),
        ASTMathOperation::Modulo => leaf(AstShape::Modulo),
    }
}

/// The term of an operation of a definition.
pub open spec fn definition_operation_term(operation: ASTDefinitionOperation) -> Term {
    match operation {
        ASTDefinitionOperation::Constant => leaf(AstShape::Constant),
        ASTDefinitionOperation::Variable => leaf(AstShape::Variable),
    }
}

/// The term of an identifier: a name, or a call.
pub open spec fn identifier_term(identifier: ASTIdentifier) -> Term
    decreases identifier,
{
    match identifier {
        ASTIdentifier::Name(name) => group(AstShape::NameIdentifier, seq![name_term(name)]),
        ASTIdentifier::Call(call) => group(AstShape::CallIdentifier, seq![call_term(call)]),
    }
}

/// The terms of a list of identifiers.
pub open spec fn identifier_terms(identifiers: Seq<ASTIdentifier>) -> Seq<Term>
    decreases identifiers,
{
    Seq::new(
        identifiers.len(),
        |i: int|
            if 0 <= i < identifiers.len() {
                identifier_term(identifiers[i])
            } else {
                arbitrary()
            },
    )
}

/// The terms of a list of statements.
pub open spec fn statement_terms(statements: Seq<ASTStatement>) -> Seq<Term>
    decreases statements,
{
    Seq::new(
        statements.len(),
        |i: int|
            if 0 <= i < statements.len() {
                statement_term(statements[i])
            } else {
                arbitrary()
            },
    )
}

/// The terms of a list of sections.
pub open spec fn section_terms(sections: Seq<ASTMathSection>) -> Seq<Term>
    decreases sections,
{
    Seq::new(
        sections.len(),
        |i: int|
            if 0 <= i < sections.len() {
                math_section_term(sections[i])
            } else {
                arbitrary()
            },
    )
}

/// The terms of a list of assignments: each a name and an operation.
pub open spec fn assignment_terms(assignments: Seq<(ASTIdentifierChain, ASTDefinitionOperation)>)
    -> Seq<Term>
    decreases assignments,
{
    Seq::new(
        assignments.len(),
        |i: int|
            if 0 <= i < assignments.len() {
                group(
                    AstShape::Assignment,
                    seq![
                        chain_term(assignments[i].0),
                        definition_operation_term(assignments[i].1),
                    ],
                )
            } else {
                arbitrary()
            },
    )
}

/// A call: what is called, then the arguments.
pub open spec fn call_term(call: ASTCall) -> Term
    decreases call,
{
    group(
        AstShape::Call,
        seq![identifier_term(*call.identifier)] + statement_terms(call.arguments@),
    )
}

/// The term of an identifier chain: its identifiers, in order.
pub open spec fn chain_term(chain: ASTIdentifierChain) -> Term
    decreases chain,
{
    group(AstShape::IdentifierChain, identifier_terms(chain.identifiers@))
}

/// The term of a variable of a formula: an identifier chain, or a number.
pub open spec fn math_variable_term(variable: ASTMathVariable) -> Term
    decreases variable,
{
    match variable {
        ASTMathVariable::IdentifierChain(chain) => group(
            AstShape::ChainVariable,
            seq![chain_term(chain)],
        ),
        ASTMathVariable::Number(number) => group(
            AstShape::NumberVariable,
            seq![number_term(number)],
        ),
    }
}

/// The term of a section of a formula: a variable, or an operation.
pub open spec fn math_section_term(section: ASTMathSection) -> Term
    decreases section,
{
    match section {
        ASTMathSection::Variable(variable) => group(
            AstShape::VariableSection,
            seq![math_variable_term(variable)],
        ),
        ASTMathSection::Operation(operation) => group(
            AstShape::OperationSection,
            seq![operation_term(operation)],
        ),
    }
}

/// The term of a formula: its sections, in order.
pub open spec fn math_term(math: ASTMath) -> Term
    decreases math,
{
    group(AstShape::Math, section_terms(math.sections@))
}

/// The term of an expression, by its variant.
pub open spec fn expression_term(expression: ASTExpression) -> Term
    decreases expression,
{
    match expression {
        ASTExpression::IdentifierChain(chain) => group(
            AstShape::ChainExpression,
            seq![chain_term(chain)],
        ),
        ASTExpression::Math(math) => group(AstShape::MathExpression, seq![math_term(math)]),
        ASTExpression::String(string) => group(
            AstShape::StringExpression,
            seq![string_term(string)],
        ),
        ASTExpression::Number(number) => group(
            AstShape::NumberExpression,
            seq![number_term(number)],
        ),
        ASTExpression::Source(source) => group(
            AstShape::SourceExpression,
            seq![source_term(source)],
        ),
    }
}

/// The term of a source: its statement chain, if it has one.
pub open spec fn source_term(source: ASTSource) -> Term
    decreases source,
{
    group(
        AstShape::Source,
        match source.statement_chain {
            Some(chain) => seq![statement_chain_term(chain)],
            None => Seq::empty(),
        },
    )
}

/// The term of a source file: its statement chain, if it has one.
pub open spec fn source_file_term(source_file: ASTSourceFile) -> Term
    decreases source_file,
{
    group(
        AstShape::SourceFile,
        match source_file.statement_chain {
            Some(chain) => seq![statement_chain_term(chain)],
            None => Seq::empty(),
        },
    )
}

/// The term of a statement chain: its statements, in order.
pub open spec fn statement_chain_term(chain: ASTStatementChain) -> Term
    decreases chain,
{
    group(AstShape::StatementChain, statement_terms(chain.statements@))
}

/// The term of a statement: a definition, or an expression.
pub open spec fn statement_term(statement: ASTStatement) -> Term
    decreases statement,
{
    match statement {
        ASTStatement::Definition(definition) => group(
            AstShape::DefinitionStatement,
            seq![definition_term(definition)],
        ),
        ASTStatement::Expression(expression) => group(
            AstShape::ExpressionStatement,
            seq![expression_term(expression)],
        ),
    }
}

/// A definition: its assignments, then its expression.
pub open spec fn definition_term(definition: ASTDefinition) -> Term
    decreases definition,
{
    group(
        AstShape::Definition,
        assignment_terms(definition.assignments@).push(expression_term(definition.expression)),
    )
}

/// The term of a node: that of the value that it wraps.
pub open spec fn node_term(node: ASTNode) -> Term {
    match node {
        ASTNode::SourceFile(source_file) => source_file_term(source_file),
        ASTNode::Source(source) => source_term(source),
        ASTNode::StatementChain(chain) => statement_chain_term(chain),
        ASTNode::Statement(statement) => statement_term(statement),
        ASTNode::Definition(definition) => definition_term(definition),
        ASTNode::Expression(expression) => expression_term(expression),
        ASTNode::IdentifierChain(chain) => chain_term(chain),
        ASTNode::Identifier(identifier) => identifier_term(identifier),
        ASTNode::Call(call) => call_term(call),
        ASTNode::Math(math) => math_term(math),
        ASTNode::Number(number) => number_term(number),
        ASTNode::String(string) => string_term(string),
        ASTNode::Name(name) => name_term(name),
        ASTNode::MathOperation(operation) => operation_term(operation),
    }
}

/// The terms of the identifiers with one more are the terms of the
/// identifiers with the term of that one after them.
pub proof fn lemma_identifier_terms_push(list: Seq<ASTIdentifier>, item: ASTIdentifier)
    ensures
        identifier_terms(list.push(item)) == identifier_terms(list).push(identifier_term(item)),
{
    reveal_with_fuel(identifier_terms, 2);
    assert(identifier_terms(list.push(item)) =~= identifier_terms(list).push(
        identifier_term(item),
    ));
}

/// The terms of the statements with one more are the terms of the
/// statements with the term of that one after them.
pub proof fn lemma_statement_terms_push(list: Seq<ASTStatement>, item: ASTStatement)
    ensures
        statement_terms(list.push(item)) == statement_terms(list).push(statement_term(item)),
{
    reveal_with_fuel(statement_terms, 2);
    assert(statement_terms(list.push(item)) =~= statement_terms(list).push(
        statement_term(item),
    ));
}

/// The terms of the sections with one more are the terms of the sections
/// with the term of that one after them.
pub proof fn lemma_section_terms_push(list: Seq<ASTMathSection>, item: ASTMathSection)
    ensures
        section_terms(list.push(item)) == section_terms(list).push(math_section_term(item)),
{
    reveal_with_fuel(section_terms, 2);
    assert(section_terms(list.push(item)) =~= section_terms(list).push(
        math_section_term(item),
    ));
}

/// The terms of the assignments with one more are the terms of the
/// assignments with the term of that one after them.
pub proof fn lemma_assignment_terms_push(
    list: Seq<(ASTIdentifierChain, ASTDefinitionOperation)>,
    item: (ASTIdentifierChain, ASTDefinitionOperation),
)
    ensures
        assignment_terms(list.push(item)) == assignment_terms(list).push(
            group(
                AstShape::Assignment,
                seq![chain_term(item.0), definition_operation_term(item.1)],
            ),
        ),
{
    reveal_with_fuel(assignment_terms, 2);
    assert(assignment_terms(list.push(item)) =~= assignment_terms(list).push(
        group(
            AstShape::Assignment,
            seq![chain_term(item.0), definition_operation_term(item.1)],
        ),
    ));
}

/// An empty list has no terms.
pub proof fn lemma_no_terms()
    ensures
        identifier_terms(Seq::empty()) == Seq::<Term>::empty(),
        statement_terms(Seq::empty()) == Seq::<Term>::empty(),
        section_terms(Seq::empty()) == Seq::<Term>::empty(),
        assignment_terms(Seq::empty()) == Seq::<Term>::empty(),
{
    reveal_with_fuel(identifier_terms, 2);
    reveal_with_fuel(statement_terms, 2);
    reveal_with_fuel(section_terms, 2);
    reveal_with_fuel(assignment_terms, 2);
    assert(identifier_terms(Seq::empty()) =~= Seq::<Term>::empty());
    assert(statement_terms(Seq::empty()) =~= Seq::<Term>::empty());
    assert(section_terms(Seq::empty()) =~= Seq::<Term>::empty());
    assert(assignment_terms(Seq::empty()) =~= Seq::<Term>::empty());
}

} // verus!
