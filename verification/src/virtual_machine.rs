//! The syntax tree of statement chains, as typed values, and the machine
//! that builds it.

use crate::ast_view::{
    assignment_terms, chain_term, expression_term, identifier_term, identifier_terms,
    lemma_assignment_terms_push, lemma_identifier_terms_push, lemma_no_terms,
    lemma_section_terms_push, lemma_statement_terms_push, node_term, section_terms,
    statement_chain_term, statement_terms, Term,
};
use crate::general::Error;
use crate::number::{cannot_decode_message, decode_number, number_value};
use crate::reading::{
    call_parts, definition_parts, first_expression, first_identifier, first_number,
    first_statement, identifiers_among, last_chain, math_parts, read_call, read_definition,
    read_expression, read_identifier, read_identifier_chain, read_math, read_math_operation,
    read_name, read_node, read_number, read_source, read_source_file, read_statement,
    read_statement_chain, read_string, statements_among, CallParts, DefinitionParts, MathParts,
    Reading, INVALID_DEFINITION_OPERATION, INVALID_EXPRESSION, INVALID_IDENTIFIER,
    INVALID_MATH_OPERATION, INVALID_NUMBER, INVALID_STATEMENT, INVALID_STRING, MISSING_EXPRESSION,
    MISSING_IDENTIFIER, UNKNOWN_KIND,
};
use crate::syntax::{lemma_node_view, same_text, tree_views, SyntaxNode};
use vstd::prelude::*;
use vstd::string::{StringExecFns, StringSliceAdditionalSpecFns};
use vstd::utf8::encode_utf8_decode_utf8;

verus! {

/// What went wrong in the machine.
#[derive(Debug, PartialEq, Eq, Clone)]
pub enum MageError {
    ParseError(String),
    CompileError(String),
    RuntimeError(String),
}

/// A value of the typed tree, of whatever type.
#[derive(Debug, PartialEq, Eq)]
pub enum ASTNode {
    SourceFile(ASTSourceFile),
    Source(ASTSource),
    StatementChain(ASTStatementChain),
    Statement(ASTStatement),
    Definition(ASTDefinition),
    Expression(ASTExpression),
    IdentifierChain(ASTIdentifierChain),
    Identifier(ASTIdentifier),
    Call(ASTCall),
    Math(ASTMath),
    Number(ASTNumber),
    String(ASTString),
    Name(ASTName),
    MathOperation(ASTMathOperation),
}

/// A whole source text.
#[derive(Debug, PartialEq, Eq)]
pub struct ASTSourceFile {
    pub statement_chain: Option<ASTStatementChain>,
}

/// A source block.
#[derive(Debug, PartialEq, Eq)]
pub struct ASTSource {
    pub statement_chain: Option<ASTStatementChain>,
}

/// Statements, in order.
#[derive(Debug, PartialEq, Eq)]
pub struct ASTStatementChain {
    pub statements: Vec<ASTStatement>,
}

/// A statement: a definition, or an expression.
#[derive(Debug, PartialEq, Eq)]
pub enum ASTStatement {
    Definition(ASTDefinition),
    Expression(ASTExpression),
}

/// A definition: the names that are bound, each with its operation, and the
/// expression that they are bound to.
#[derive(Debug, PartialEq, Eq)]
pub struct ASTDefinition {
    pub assignments: Vec<(ASTIdentifierChain, ASTDefinitionOperation)>,
    pub expression: ASTExpression,
}

/// Whether a name is bound as a constant or as a variable.
#[derive(Debug, PartialEq, Eq, Clone, Copy, Structural)]
pub enum ASTDefinitionOperation {
    Constant,
    Variable,
}

/// An expression.
#[derive(Debug, PartialEq, Eq)]
pub enum ASTExpression {
    IdentifierChain(ASTIdentifierChain),
    Math(ASTMath),
    String(ASTString),
    Number(ASTNumber),
    Source(ASTSource),
}

/// Identifiers, joined by dots.
#[derive(Debug, PartialEq, Eq)]
pub struct ASTIdentifierChain {
    pub identifiers: Vec<ASTIdentifier>,
}

/// An identifier: a name, or a call.
#[derive(Debug, PartialEq, Eq)]
pub enum ASTIdentifier {
    Name(ASTName),
    Call(ASTCall),
}

/// A call: what is called, and the arguments.
#[derive(Debug, PartialEq, Eq)]
pub struct ASTCall {
    pub identifier: Box<ASTIdentifier>,
    pub arguments: Vec<ASTStatement>,
}

/// A formula: variables and operations in turn.
#[derive(Debug, PartialEq, Eq)]
pub struct ASTMath {
    pub sections: Vec<ASTMathSection>,
}

/// A section of a formula.
#[derive(Debug, PartialEq, Eq)]
pub enum ASTMathSection {
    Variable(ASTMathVariable),
    Operation(ASTMathOperation),
}

/// A variable of a formula.
#[derive(Debug, PartialEq, Eq)]
pub enum ASTMathVariable {
    IdentifierChain(ASTIdentifierChain),
    Number(ASTNumber),
}

/// An operation of a formula.
#[derive(Debug, PartialEq, Eq, Clone, Copy, Structural)]
pub enum ASTMathOperation {
    Add,
    Subtract,
    Multiply,
    Divide,
    Modulo,
}

/// A number: zero, or a token under its radix.
#[derive(Debug, PartialEq, Eq, Clone)]
pub enum ASTNumber {
    Zero,
    Binary(String),
    Octal(String),
    Decimal(String),
    Hex(String),
}

/// A string, without its quotes.
#[derive(Debug, PartialEq, Eq, Clone)]
pub struct ASTString {
    pub value: String,
}

/// A name.
#[derive(Debug, PartialEq, Eq, Clone)]
pub struct ASTName {
    pub value: String,
}

/// The state of code generation for one source: the slot of each variable,
/// and the number of slots that were given out.
#[derive(Debug)]
pub struct JITCompiler {
    pub stack_offset: usize,
    pub variables: Vec<(String, usize)>,
}

/// The name that an identifier goes by: its own, or that of what it calls.
pub open spec fn identifier_name(identifier: ASTIdentifier) -> Seq<char>
    decreases identifier,
{
    match identifier {
        ASTIdentifier::Name(name) => name.value@,
        ASTIdentifier::Call(call) => identifier_name(*call.identifier),
    }
}

/// The names of the first `count` identifiers, each but the first with a
/// dot before it.
pub open spec fn chain_text(identifiers: Seq<ASTIdentifier>, count: nat) -> Seq<char>
    decreases count,
{
    if count == 0 {
        Seq::empty()
    } else if count == 1 {
        identifier_name(identifiers[0])
    } else {
        chain_text(identifiers, (count - 1) as nat) + seq!['.'] + identifier_name(
            identifiers[count - 1],
        )
    }
}

/// The token of a number, where it has one.
pub open spec fn number_token(number: ASTNumber) -> Option<Seq<char>> {
    match number {
        ASTNumber::Zero => None,
        ASTNumber::Binary(token) => Some(token@),
        ASTNumber::Octal(token) => Some(token@),
        ASTNumber::Decimal(token) => Some(token@),
        ASTNumber::Hex(token) => Some(token@),
    }
}

/// The name that an identifier goes by.
pub fn name_of(identifier: &ASTIdentifier) -> (name: String)
    ensures
        name@ == identifier_name(*identifier),
    decreases identifier,
{
    match identifier {
        ASTIdentifier::Name(name) => name.value.clone(),
        ASTIdentifier::Call(call) => name_of(&call.identifier),
    }
}

impl JITCompiler {
    /// A compiler that has given out no slot. It never fails.
    pub fn new() -> (result: Result<Self, MageError>)
        ensures
            result matches Ok(compiler) && compiler.stack_offset == 0 && compiler.variables@.len()
                == 0,
    {
        Ok(JITCompiler { stack_offset: 0, variables: Vec::new() })
    }

    /// The value of a number: 0 for zero, and else what the number's token
    /// decodes to.
    pub fn parse_number(&self, number: &ASTNumber) -> (result: Result<i64, MageError>)
        ensures
            match number_token(*number) {
                None => result == Ok::<i64, MageError>(0),
                Some(token) => match number_value(vstd::utf8::encode_utf8(token)) {
                    Some(value) if value <= i64::MAX => result == Ok::<i64, MageError>(
                        value as i64,
                    ),
                    _ => result matches Err(MageError::CompileError(message)) && message@
                        == cannot_decode_message(token),
                },
            },
    {
        let token = match number {
            ASTNumber::Zero => {
                return Ok(0);
            },
            ASTNumber::Binary(token) => token,
            ASTNumber::Octal(token) => token,
            ASTNumber::Decimal(token) => token,
            ASTNumber::Hex(token) => token,
        };
        match decode_number(token.as_str()) {
            Ok(value) => Ok(value),
            Err(Error::CompileError(message)) => Err(MageError::CompileError(message)),
            Err(_) => unreached(),
        }
    }

    /// The text of a chain of identifiers: their names, with a dot between
    /// each two.
    pub fn identifier_chain_to_string(&self, chain: &ASTIdentifierChain) -> (text: String)
        ensures
            text@ == chain_text(chain.identifiers@, chain.identifiers@.len()),
    {
        let mut text = String::new();
        let mut i: usize = 0;
        while i < chain.identifiers.len()
            invariant
                i <= chain.identifiers.len(),
                text@ == chain_text(chain.identifiers@, i as nat),
            decreases chain.identifiers.len() - i,
        {
            if i > 0 {
                text.append(".");
                proof {
                    reveal_strlit(".");
                    assert("."@ =~= seq!['.']);
                }
            }
            let name = name_of(&chain.identifiers[i]);
            text.append(name.as_str());
            proof {
                if i == 0 {
                    assert(text@ =~= identifier_name(chain.identifiers@[0]));
                }
            }
            i += 1;
        }
        text
    }
}

/// The machine: it turns a syntax tree into typed values and hands them to
/// its compiler.
#[derive(Debug)]
pub struct VM {
    pub jit_compiler: JITCompiler,
}

impl VM {
    /// A machine with a new compiler. It never fails.
    pub fn new() -> (result: Result<Self, MageError>)
        ensures
            result matches Ok(machine) && machine.jit_compiler.stack_offset == 0
                && machine.jit_compiler.variables@.len() == 0,
    {
        let jit_compiler = match JITCompiler::new() {
            Ok(jit_compiler) => jit_compiler,
            Err(error) => {
                return Err(error);
            },
        };
        Ok(Self { jit_compiler })
    }
}

/// Whether `result` is the value that was to be read, or the parse error
/// with the message that was to be given.
pub open spec fn reads(result: Result<ASTNode, MageError>, expected: Reading) -> bool {
    match expected {
        Ok(term) => result matches Ok(node) && node_term(node) == term,
        Err(message) => result matches Err(MageError::ParseError(text)) && text@ == message,
    }
}

/// The term of a statement chain that may be there.
pub open spec fn chain_term_of(chain: Option<ASTStatementChain>) -> Option<Term> {
    match chain {
        Some(chain) => Some(statement_chain_term(chain)),
        None => None,
    }
}

/// What a definition has gathered, as mathematics.
pub open spec fn definition_parts_of(
    assignments: Seq<(ASTIdentifierChain, ASTDefinitionOperation)>,
    expression: Option<ASTExpression>,
    waiting: Option<ASTIdentifierChain>,
) -> DefinitionParts {
    DefinitionParts {
        assignments: assignment_terms(assignments),
        expression: match expression {
            Some(expression) => Some(expression_term(expression)),
            None => None,
        },
        waiting: match waiting {
            Some(chain) => Some(chain_term(chain)),
            None => None,
        },
    }
}

/// What a call has gathered, as mathematics.
pub open spec fn call_parts_of(identifier: Option<Box<ASTIdentifier>>, arguments: Seq<ASTStatement>)
    -> CallParts {
    CallParts {
        identifier: match identifier {
            Some(identifier) => Some(identifier_term(*identifier)),
            None => None,
        },
        arguments: statement_terms(arguments),
    }
}

/// A parse error with the given message.
fn parse_error(message: &str) -> (error: MageError)
    ensures
        error matches MageError::ParseError(text) && text@ == message@,
{
    MageError::ParseError(message.to_owned())
}

impl VM {
    /// Reads the value that a node stands for, by the node's kind.
    pub fn parse_node(&self, node: &SyntaxNode) -> (result: Result<ASTNode, MageError>)
        ensures
            reads(result, read_node(node@)),
        decreases node, 1nat,
    {
        if node.is_kind("source_file") {
            self.parse_source_file(node)
        } else if node.is_kind("source") {
            self.parse_source(node)
        } else if node.is_kind("statement_chain") {
            self.parse_statement_chain(node)
        } else if node.is_kind("statement") {
            self.parse_statement(node)
        } else if node.is_kind("definition") {
            self.parse_definition(node)
        } else if node.is_kind("expression") {
            self.parse_expression(node)
        } else if node.is_kind("identifier_chain") {
            self.parse_identifier_chain(node)
        } else if node.is_kind("identifier") {
            self.parse_identifier(node)
        } else if node.is_kind("call") {
            self.parse_call(node)
        } else if node.is_kind("math") {
            self.parse_math(node)
        } else if node.is_kind("number") {
            self.parse_number(node)
        } else if node.is_kind("string") {
            self.parse_string(node)
        } else if node.is_kind("name") {
            self.parse_name(node)
        } else if node.is_kind("math_operation") {
            self.parse_math_operation(node)
        } else {
            proof {
                lemma_node_view(node);
            }
            let mut message = String::from_str(UNKNOWN_KIND);
            message.append(node.kind.as_str());
            Err(MageError::ParseError(message))
        }
    }

    /// Reads the last statement chain among the children of a node.
    fn parse_last_chain(&self, node: &SyntaxNode) -> (result: Result<
        Option<ASTStatementChain>,
        MageError,
    >)
        ensures
            match last_chain(None, node@.children) {
                Ok(chain) => result matches Ok(found) && chain_term_of(found) == chain,
                Err(message) => result matches Err(MageError::ParseError(text)) && text@
                    == message,
            },
        decreases node, 0nat,
    {
        proof {
            lemma_node_view(node);
        }
        let ghost trees = node@.children;
        let mut statement_chain: Option<ASTStatementChain> = None;
        let mut i: usize = 0;
        assert(trees.skip(0) =~= trees);
        while i < node.children.len()
            invariant
                i <= node.children.len(),
                trees == node@.children,
                trees == tree_views(node.children@),
                last_chain(None, trees) == last_chain(
                    chain_term_of(statement_chain),
                    trees.skip(i as int),
                ),
            decreases node.children.len() - i,
        {
            let child = &node.children[i];
            proof {
                lemma_node_view(child);
                assert(trees.skip(i as int).first() == child@);
                assert(trees.skip(i as int).drop_first() =~= trees.skip(i + 1));
            }
            if child.is_kind("statement_chain") {
                match self.parse_statement_chain(child) {
                    Ok(ASTNode::StatementChain(chain)) => {
                        statement_chain = Some(chain);
                    },
                    Ok(_) => {},
                    Err(error) => {
                        return Err(error);
                    },
                }
            }
            i += 1;
        }
        Ok(statement_chain)
    }

    /// Reads a source file: the last of its statement chains, if it has one.
    pub fn parse_source_file(&self, node: &SyntaxNode) -> (result: Result<ASTNode, MageError>)
        ensures
            reads(result, read_source_file(node@)),
            result matches Ok(read) ==> read is SourceFile,
        decreases node, 1nat,
    {
        match self.parse_last_chain(node) {
            Ok(statement_chain) => Ok(ASTNode::SourceFile(ASTSourceFile { statement_chain })),
            Err(error) => Err(error),
        }
    }

    /// Reads a source: the last of its statement chains, if it has one.
    pub fn parse_source(&self, node: &SyntaxNode) -> (result: Result<ASTNode, MageError>)
        ensures
            reads(result, read_source(node@)),
            result matches Ok(read) ==> read is Source,
        decreases node, 1nat,
    {
        match self.parse_last_chain(node) {
            Ok(statement_chain) => Ok(ASTNode::Source(ASTSource { statement_chain })),
            Err(error) => Err(error),
        }
    }

    /// Reads a statement chain: its statements, in order.
    pub fn parse_statement_chain(&self, node: &SyntaxNode) -> (result: Result<ASTNode, MageError>)
        ensures
            reads(result, read_statement_chain(node@)),
            result matches Ok(read) ==> read is StatementChain,
        decreases node, 0nat,
    {
        proof {
            lemma_node_view(node);
        }
        let ghost trees = node@.children;
        let mut statements: Vec<ASTStatement> = Vec::new();
        let mut i: usize = 0;
        assert(trees.skip(0) =~= trees);
        proof {
            lemma_no_terms();
            assert(statements@ =~= Seq::empty());
        }
        while i < node.children.len()
            invariant
                i <= node.children.len(),
                trees == node@.children,
                trees == tree_views(node.children@),
                statements_among(Seq::empty(), trees) == statements_among(
                    statement_terms(statements@),
                    trees.skip(i as int),
                ),
            decreases node.children.len() - i,
        {
            let child = &node.children[i];
            proof {
                lemma_node_view(child);
                assert(trees.skip(i as int).first() == child@);
                assert(trees.skip(i as int).drop_first() =~= trees.skip(i + 1));
            }
            if child.is_kind("statement") {
                match self.parse_statement(child) {
                    Ok(ASTNode::Statement(statement)) => {
                        proof {
                            lemma_statement_terms_push(statements@, statement);
                        }
                        statements.push(statement);
                    },
                    Ok(_) => {},
                    Err(error) => {
                        return Err(error);
                    },
                }
            }
            i += 1;
        }
        Ok(ASTNode::StatementChain(ASTStatementChain { statements }))
    }

    /// Reads a statement: its first definition or expression. A statement
    /// without either is refused.
    pub fn parse_statement(&self, node: &SyntaxNode) -> (result: Result<ASTNode, MageError>)
        ensures
            reads(result, read_statement(node@)),
            result matches Ok(read) ==> read is Statement,
        decreases node, 0nat,
    {
        proof {
            lemma_node_view(node);
        }
        let ghost trees = node@.children;
        let mut i: usize = 0;
        assert(trees.skip(0) =~= trees);
        while i < node.children.len()
            invariant
                i <= node.children.len(),
                trees == node@.children,
                trees == tree_views(node.children@),
                first_statement(trees) == first_statement(trees.skip(i as int)),
            decreases node.children.len() - i,
        {
            let child = &node.children[i];
            proof {
                lemma_node_view(child);
                assert(trees.skip(i as int).first() == child@);
                assert(trees.skip(i as int).drop_first() =~= trees.skip(i + 1));
            }
            if child.is_kind("definition") {
                match self.parse_definition(child) {
                    Ok(ASTNode::Definition(definition)) => {
                        return Ok(ASTNode::Statement(ASTStatement::Definition(definition)));
                    },
                    Ok(_) => {},
                    Err(error) => {
                        return Err(error);
                    },
                }
            } else if child.is_kind("expression") {
                match self.parse_expression(child) {
                    Ok(ASTNode::Expression(expression)) => {
                        return Ok(ASTNode::Statement(ASTStatement::Expression(expression)));
                    },
                    Ok(_) => {},
                    Err(error) => {
                        return Err(error);
                    },
                }
            }
            i += 1;
        }
        Err(parse_error(INVALID_STATEMENT))
    }

    /// Reads a definition: each name with the operation that follows it, and
    /// the last expression. A definition without an expression is refused, and
    /// so is an operation that is neither `:` nor `=`.
    pub fn parse_definition(&self, node: &SyntaxNode) -> (result: Result<ASTNode, MageError>)
        ensures
            reads(result, read_definition(node@)),
            result matches Ok(read) ==> read is Definition,
        decreases node, 0nat,
    {
        proof {
            lemma_node_view(node);
        }
        let ghost trees = node@.children;
        let ghost start = DefinitionParts {
            assignments: Seq::empty(),
            expression: None,
            waiting: None,
        };
        let mut assignments: Vec<(ASTIdentifierChain, ASTDefinitionOperation)> = Vec::new();
        let mut expression: Option<ASTExpression> = None;
        let mut current_identifier_chain: Option<ASTIdentifierChain> = None;
        let mut i: usize = 0;
        assert(trees.skip(0) =~= trees);
        proof {
            lemma_no_terms();
            assert(assignments@ =~= Seq::empty());
        }
        while i < node.children.len()
            invariant
                i <= node.children.len(),
                trees == node@.children,
                trees == tree_views(node.children@),
                start == (DefinitionParts {
                    assignments: Seq::empty(),
                    expression: None,
                    waiting: None,
                }),
                definition_parts(start, trees) == definition_parts(
                    definition_parts_of(assignments@, expression, current_identifier_chain),
                    trees.skip(i as int),
                ),
            decreases node.children.len() - i,
        {
            let child = &node.children[i];
            proof {
                lemma_node_view(child);
                reveal_strlit(":");
                reveal_strlit("=");
                assert(trees.skip(i as int).first() == child@);
                assert(trees.skip(i as int).drop_first() =~= trees.skip(i + 1));
            }
            if child.is_kind("identifier_chain") {
                match self.parse_identifier_chain(child) {
                    Ok(ASTNode::IdentifierChain(chain)) => {
                        current_identifier_chain = Some(chain);
                    },
                    Ok(_) => {},
                    Err(error) => {
                        return Err(error);
                    },
                }
            } else if child.is_kind("definition_operation") {
                let waiting = current_identifier_chain;
                current_identifier_chain = None;
                match waiting {
                    Some(chain) => {
                        let operation = if same_text(child.text.as_str(), ":") {
                            ASTDefinitionOperation::Constant
                        } else if same_text(child.text.as_str(), "=") {
                            ASTDefinitionOperation::Variable
                        } else {
                            return Err(parse_error(INVALID_DEFINITION_OPERATION));
                        };
                        proof {
                            lemma_assignment_terms_push(assignments@, (chain, operation));
                        }
                        assignments.push((chain, operation));
                    },
                    None => {},
                }
            } else if child.is_kind("expression") {
                match self.parse_expression(child) {
                    Ok(ASTNode::Expression(read)) => {
                        expression = Some(read);
                    },
                    Ok(_) => {},
                    Err(error) => {
                        return Err(error);
                    },
                }
            }
            i += 1;
        }
        match expression {
            Some(expression) => Ok(ASTNode::Definition(ASTDefinition { assignments, expression })),
            None => Err(parse_error(MISSING_EXPRESSION)),
        }
    }

    /// Reads an expression: its first identifier chain, formula, string,
    /// number or source. An expression without any is refused.
    pub fn parse_expression(&self, node: &SyntaxNode) -> (result: Result<ASTNode, MageError>)
        ensures
            reads(result, read_expression(node@)),
            result matches Ok(read) ==> read is Expression,
        decreases node, 0nat,
    {
        proof {
            lemma_node_view(node);
        }
        let ghost trees = node@.children;
        let mut i: usize = 0;
        assert(trees.skip(0) =~= trees);
        while i < node.children.len()
            invariant
                i <= node.children.len(),
                trees == node@.children,
                trees == tree_views(node.children@),
                first_expression(trees) == first_expression(trees.skip(i as int)),
            decreases node.children.len() - i,
        {
            let child = &node.children[i];
            proof {
                lemma_node_view(child);
                assert(trees.skip(i as int).first() == child@);
                assert(trees.skip(i as int).drop_first() =~= trees.skip(i + 1));
            }
            if child.is_kind("identifier_chain") {
                match self.parse_identifier_chain(child) {
                    Ok(ASTNode::IdentifierChain(chain)) => {
                        return Ok(ASTNode::Expression(ASTExpression::IdentifierChain(chain)));
                    },
                    Ok(_) => {},
                    Err(error) => {
                        return Err(error);
                    },
                }
            } else if child.is_kind("math") {
                match self.parse_math(child) {
                    Ok(ASTNode::Math(math)) => {
                        return Ok(ASTNode::Expression(ASTExpression::Math(math)));
                    },
                    Ok(_) => {},
                    Err(error) => {
                        return Err(error);
                    },
                }
            } else if child.is_kind("string") {
                match self.parse_string(child) {
                    Ok(ASTNode::String(string)) => {
                        return Ok(ASTNode::Expression(ASTExpression::String(string)));
                    },
                    Ok(_) => {},
                    Err(error) => {
                        return Err(error);
                    },
                }
            } else if child.is_kind("number") {
                match self.parse_number(child) {
                    Ok(ASTNode::Number(number)) => {
                        return Ok(ASTNode::Expression(ASTExpression::Number(number)));
                    },
                    Ok(_) => {},
                    Err(error) => {
                        return Err(error);
                    },
                }
            } else if child.is_kind("source") {
                match self.parse_source(child) {
                    Ok(ASTNode::Source(source)) => {
                        return Ok(ASTNode::Expression(ASTExpression::Source(source)));
                    },
                    Ok(_) => {},
                    Err(error) => {
                        return Err(error);
                    },
                }
            }
            i += 1;
        }
        Err(parse_error(INVALID_EXPRESSION))
    }

    /// Reads an identifier chain: its identifiers, in order.
    pub fn parse_identifier_chain(&self, node: &SyntaxNode) -> (result: Result<ASTNode, MageError>)
        ensures
            reads(result, read_identifier_chain(node@)),
            result matches Ok(read) ==> read is IdentifierChain,
        decreases node, 0nat,
    {
        proof {
            lemma_node_view(node);
        }
        let ghost trees = node@.children;
        let mut identifiers: Vec<ASTIdentifier> = Vec::new();
        let mut i: usize = 0;
        assert(trees.skip(0) =~= trees);
        proof {
            lemma_no_terms();
            assert(identifiers@ =~= Seq::empty());
        }
        while i < node.children.len()
            invariant
                i <= node.children.len(),
                trees == node@.children,
                trees == tree_views(node.children@),
                identifiers_among(Seq::empty(), trees) == identifiers_among(
                    identifier_terms(identifiers@),
                    trees.skip(i as int),
                ),
            decreases node.children.len() - i,
        {
            let child = &node.children[i];
            proof {
                lemma_node_view(child);
                assert(trees.skip(i as int).first() == child@);
                assert(trees.skip(i as int).drop_first() =~= trees.skip(i + 1));
            }
            if child.is_kind("identifier") {
                match self.parse_identifier(child) {
                    Ok(ASTNode::Identifier(identifier)) => {
                        proof {
                            lemma_identifier_terms_push(identifiers@, identifier);
                        }
                        identifiers.push(identifier);
                    },
                    Ok(_) => {},
                    Err(error) => {
                        return Err(error);
                    },
                }
            }
            i += 1;
        }
        Ok(ASTNode::IdentifierChain(ASTIdentifierChain { identifiers }))
    }

    /// Reads an identifier: its first name or call. An identifier without
    /// either is refused.
    pub fn parse_identifier(&self, node: &SyntaxNode) -> (result: Result<ASTNode, MageError>)
        ensures
            reads(result, read_identifier(node@)),
            result matches Ok(read) ==> read is Identifier,
        decreases node, 0nat,
    {
        proof {
            lemma_node_view(node);
        }
        let ghost trees = node@.children;
        let mut i: usize = 0;
        assert(trees.skip(0) =~= trees);
        while i < node.children.len()
            invariant
                i <= node.children.len(),
                trees == node@.children,
                trees == tree_views(node.children@),
                first_identifier(trees) == first_identifier(trees.skip(i as int)),
            decreases node.children.len() - i,
        {
            let child = &node.children[i];
            proof {
                lemma_node_view(child);
                assert(trees.skip(i as int).first() == child@);
                assert(trees.skip(i as int).drop_first() =~= trees.skip(i + 1));
            }
            if child.is_kind("name") {
                match self.parse_name(child) {
                    Ok(ASTNode::Name(name)) => {
                        return Ok(ASTNode::Identifier(ASTIdentifier::Name(name)));
                    },
                    Ok(_) => {},
                    Err(error) => {
                        return Err(error);
                    },
                }
            } else if child.is_kind("call") {
                match self.parse_call(child) {
                    Ok(ASTNode::Call(call)) => {
                        return Ok(ASTNode::Identifier(ASTIdentifier::Call(call)));
                    },
                    Ok(_) => {},
                    Err(error) => {
                        return Err(error);
                    },
                }
            }
            i += 1;
        }
        Err(parse_error(INVALID_IDENTIFIER))
    }

    /// Reads a call: the last identifier is what is called, each statement is
    /// an argument. A call without an identifier is refused.
    pub fn parse_call(&self, node: &SyntaxNode) -> (result: Result<ASTNode, MageError>)
        ensures
            reads(result, read_call(node@)),
            result matches Ok(read) ==> read is Call,
        decreases node, 0nat,
    {
        proof {
            lemma_node_view(node);
        }
        let ghost trees = node@.children;
        let ghost start = CallParts { identifier: None, arguments: Seq::empty() };
        let mut identifier: Option<Box<ASTIdentifier>> = None;
        let mut arguments: Vec<ASTStatement> = Vec::new();
        let mut i: usize = 0;
        assert(trees.skip(0) =~= trees);
        proof {
            lemma_no_terms();
            assert(arguments@ =~= Seq::empty());
        }
        while i < node.children.len()
            invariant
                i <= node.children.len(),
                trees == node@.children,
                trees == tree_views(node.children@),
                start == (CallParts { identifier: None, arguments: Seq::empty() }),
                call_parts(start, trees) == call_parts(
                    call_parts_of(identifier, arguments@),
                    trees.skip(i as int),
                ),
            decreases node.children.len() - i,
        {
            let child = &node.children[i];
            proof {
                lemma_node_view(child);
                assert(trees.skip(i as int).first() == child@);
                assert(trees.skip(i as int).drop_first() =~= trees.skip(i + 1));
            }
            if child.is_kind("identifier") {
                match self.parse_identifier(child) {
                    Ok(ASTNode::Identifier(read)) => {
                        identifier = Some(Box::new(read));
                    },
                    Ok(_) => {},
                    Err(error) => {
                        return Err(error);
                    },
                }
            } else if child.is_kind("statement") {
                match self.parse_statement(child) {
                    Ok(ASTNode::Statement(statement)) => {
                        proof {
                            lemma_statement_terms_push(arguments@, statement);
                        }
                        arguments.push(statement);
                    },
                    Ok(_) => {},
                    Err(error) => {
                        return Err(error);
                    },
                }
            }
            i += 1;
        }
        match identifier {
            Some(identifier) => Ok(ASTNode::Call(ASTCall { identifier, arguments })),
            None => Err(parse_error(MISSING_IDENTIFIER)),
        }
    }

    /// Reads a formula: numbers and operations in turn, starting with a
    /// number; what comes out of turn is passed over.
    pub fn parse_math(&self, node: &SyntaxNode) -> (result: Result<ASTNode, MageError>)
        ensures
            reads(result, read_math(node@)),
            result matches Ok(read) ==> read is Math,
        decreases node, 0nat,
    {
        proof {
            lemma_node_view(node);
        }
        let ghost trees = node@.children;
        let ghost start = MathParts { sections: Seq::empty(), expecting_variable: true };
        let mut sections: Vec<ASTMathSection> = Vec::new();
        let mut expecting_variable = true;
        let mut i: usize = 0;
        assert(trees.skip(0) =~= trees);
        proof {
            lemma_no_terms();
            assert(sections@ =~= Seq::empty());
        }
        while i < node.children.len()
            invariant
                i <= node.children.len(),
                trees == node@.children,
                trees == tree_views(node.children@),
                start == (MathParts { sections: Seq::empty(), expecting_variable: true }),
                math_parts(start, trees) == math_parts(
                    MathParts { sections: section_terms(sections@), expecting_variable },
                    trees.skip(i as int),
                ),
            decreases node.children.len() - i,
        {
            let child = &node.children[i];
            proof {
                lemma_node_view(child);
                assert(trees.skip(i as int).first() == child@);
                assert(trees.skip(i as int).drop_first() =~= trees.skip(i + 1));
            }
            if child.is_kind("number") {
                if expecting_variable {
                    match self.parse_number(child) {
                        Ok(ASTNode::Number(number)) => {
                            proof {
                                lemma_section_terms_push(
                                    sections@,
                                    ASTMathSection::Variable(ASTMathVariable::Number(number)),
                                );
                            }
                            sections.push(ASTMathSection::Variable(ASTMathVariable::Number(number)));
                            expecting_variable = false;
                        },
                        Ok(_) => {},
                        Err(error) => {
                            return Err(error);
                        },
                    }
                }
            } else if child.is_kind("math_operation") {
                if !expecting_variable {
                    match self.parse_math_operation(child) {
                        Ok(ASTNode::MathOperation(operation)) => {
                            proof {
                                lemma_section_terms_push(
                                    sections@,
                                    ASTMathSection::Operation(operation),
                                );
                            }
                            sections.push(ASTMathSection::Operation(operation));
                            expecting_variable = true;
                        },
                        Ok(_) => {},
                        Err(error) => {
                            return Err(error);
                        },
                    }
                }
            }
            i += 1;
        }
        Ok(ASTNode::Math(ASTMath { sections }))
    }

    /// Reads a number: its first child of a number kind. A number without
    /// one is refused.
    pub fn parse_number(&self, node: &SyntaxNode) -> (result: Result<ASTNode, MageError>)
        ensures
            reads(result, read_number(node@)),
            result matches Ok(read) ==> read is Number,
    {
        proof {
            lemma_node_view(node);
        }
        let ghost trees = node@.children;
        let mut i: usize = 0;
        assert(trees.skip(0) =~= trees);
        while i < node.children.len()
            invariant
                i <= node.children.len(),
                trees == node@.children,
                trees == tree_views(node.children@),
                first_number(trees) == first_number(trees.skip(i as int)),
            decreases node.children.len() - i,
        {
            let child = &node.children[i];
            proof {
                lemma_node_view(child);
                assert(trees.skip(i as int).first() == child@);
                assert(trees.skip(i as int).drop_first() =~= trees.skip(i + 1));
            }
            if child.is_kind("zero") {
                return Ok(ASTNode::Number(ASTNumber::Zero));
            } else if child.is_kind("binary") {
                return Ok(ASTNode::Number(ASTNumber::Binary(child.text.clone())));
            } else if child.is_kind("octal") {
                return Ok(ASTNode::Number(ASTNumber::Octal(child.text.clone())));
            } else if child.is_kind("decimal") {
                return Ok(ASTNode::Number(ASTNumber::Decimal(child.text.clone())));
            } else if child.is_kind("hex") {
                return Ok(ASTNode::Number(ASTNumber::Hex(child.text.clone())));
            }
            i += 1;
        }
        Err(parse_error(INVALID_NUMBER))
    }

    /// Reads a string: the text of the node without its first and its last
    /// byte. A text that has not both, or that cannot be cut there, is
    /// refused.
    pub fn parse_string(&self, node: &SyntaxNode) -> (result: Result<ASTNode, MageError>)
        ensures
            reads(result, read_string(node@)),
            result matches Ok(read) ==> read is String,
    {
        proof {
            lemma_node_view(node);
        }
        let text = node.text.as_str();
        let length = text.as_bytes().len();
        if length < 2 || !text.is_char_boundary(length - 1) {
            return Err(parse_error(INVALID_STRING));
        }
        let (front, _) = text.split_at(length - 1);
        if !front.is_char_boundary(1) {
            return Err(parse_error(INVALID_STRING));
        }
        let (_, middle) = front.split_at(1);
        proof {
            encode_utf8_decode_utf8(middle@);
            assert(middle.spec_bytes() =~= text.spec_bytes().subrange(1, length - 1));
        }
        Ok(ASTNode::String(ASTString { value: middle.to_owned() }))
    }

    /// Reads a name: its text.
    pub fn parse_name(&self, node: &SyntaxNode) -> (result: Result<ASTNode, MageError>)
        ensures
            reads(result, read_name(node@)),
            result matches Ok(read) ==> read is Name,
    {
        proof {
            lemma_node_view(node);
        }
        Ok(ASTNode::Name(ASTName { value: node.text.clone() }))
    }

    /// Reads an operation of a formula: one of `+`, `-`, `*`, `/` and `%`.
    pub fn parse_math_operation(&self, node: &SyntaxNode) -> (result: Result<ASTNode, MageError>)
        ensures
            reads(result, read_math_operation(node@)),
            result matches Ok(read) ==> read is MathOperation,
    {
        proof {
            lemma_node_view(node);
        }
        let text = node.text.as_str();
        let operation = if same_text(text, "+") {
            ASTMathOperation::Add
        } else if same_text(text, "-") {
            ASTMathOperation::Subtract
        } else if same_text(text, "*") {
            ASTMathOperation::Multiply
        } else if same_text(text, "/") {
            ASTMathOperation::Divide
        } else if same_text(text, "%") {
            ASTMathOperation::Modulo
        } else {
            let mut message = String::from_str(INVALID_MATH_OPERATION);
            message.append(text);
            return Err(MageError::ParseError(message));
        };
        Ok(ASTNode::MathOperation(operation))
    }
}

} // verus!
