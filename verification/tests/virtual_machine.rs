use mage_rs::{
    ASTCall, ASTDefinition, ASTDefinitionOperation, ASTExpression, ASTIdentifier,
    ASTIdentifierChain, ASTMath, ASTMathOperation, ASTMathSection, ASTMathVariable, ASTName,
    ASTNode, ASTNumber, ASTSource, ASTSourceFile, ASTStatement, ASTStatementChain, ASTString,
    JITCompiler, MageError, SyntaxNode, VM,
};

fn named(value: &str) -> ASTIdentifier {
    ASTIdentifier::Name(ASTName { value: value.to_string() })
}

#[test]
fn test_jit_compiler_creation() {
    let compiler = JITCompiler::new();
    assert!(compiler.is_ok());

    let compiler = compiler.unwrap();
    assert_eq!(compiler.stack_offset, 0);
    assert!(compiler.variables.is_empty());
}

#[test]
fn test_vm_creation() {
    let vm = VM::new();
    assert!(vm.is_ok());
}

#[test]
fn test_number_parsing() {
    let compiler = JITCompiler::new().unwrap();

    // Test all number formats
    assert_eq!(compiler.parse_number(&ASTNumber::Zero).unwrap(), 0);
    assert_eq!(
        compiler
            .parse_number(&ASTNumber::Binary("0b1010".to_string()))
            .unwrap(),
        10
    );
    assert_eq!(
        compiler
            .parse_number(&ASTNumber::Octal("0o17".to_string()))
            .unwrap(),
        15
    );
    assert_eq!(
        compiler
            .parse_number(&ASTNumber::Decimal("0d42".to_string()))
            .unwrap(),
        42
    );
    assert_eq!(
        compiler
            .parse_number(&ASTNumber::Hex("0xFF".to_string()))
            .unwrap(),
        255
    );
}

#[test]
fn test_identifier_chain_to_string() {
    let compiler = JITCompiler::new().unwrap();

    let chain = ASTIdentifierChain {
        identifiers: vec![ASTIdentifier::Name(ASTName {
            value: "test_var".to_string(),
        })],
    };

    assert_eq!(compiler.identifier_chain_to_string(&chain), "test_var");
}

#[test]
fn chain_of_names_is_joined_by_dots() {
    let compiler = JITCompiler::new().unwrap();
    let chain = ASTIdentifierChain { identifiers: vec![named("a"), named("b"), named("c")] };
    assert_eq!(compiler.identifier_chain_to_string(&chain), "a.b.c");
    let empty = ASTIdentifierChain { identifiers: vec![] };
    assert_eq!(compiler.identifier_chain_to_string(&empty), "");
}

#[test]
fn call_goes_by_the_name_of_what_it_calls() {
    let compiler = JITCompiler::new().unwrap();
    let call = ASTIdentifier::Call(ASTCall { identifier: Box::new(named("f")), arguments: vec![] });
    let chain = ASTIdentifierChain { identifiers: vec![named("object"), call] };
    assert_eq!(compiler.identifier_chain_to_string(&chain), "object.f");
}

#[test]
fn number_that_cannot_be_decoded_is_a_compile_error() {
    let compiler = JITCompiler::new().unwrap();
    assert_eq!(
        compiler.parse_number(&ASTNumber::Decimal("0d4x".to_string())),
        Err(MageError::CompileError("Error: Cannot decode number 0d4x.".to_string()))
    );
}

fn node(kind: &str, text: &str, children: Vec<SyntaxNode>) -> SyntaxNode {
    SyntaxNode { kind_id: 0, kind: kind.to_string(), named: true, text: text.to_string(), children }
}

fn parse_error(message: &str) -> Result<ASTNode, MageError> {
    Err(MageError::ParseError(message.to_string()))
}

fn number_node(kind: &str, text: &str) -> SyntaxNode {
    node("number", text, vec![node(kind, text, vec![])])
}

fn name_identifier(text: &str) -> SyntaxNode {
    node("identifier", text, vec![node("name", text, vec![])])
}

fn chain_node(names: &[&str]) -> SyntaxNode {
    node("identifier_chain", "", names.iter().map(|name| name_identifier(name)).collect())
}

fn chain(names: &[&str]) -> ASTIdentifierChain {
    ASTIdentifierChain { identifiers: names.iter().map(|name| named(name)).collect() }
}

fn definition_node() -> SyntaxNode {
    node(
        "definition",
        "",
        vec![
            chain_node(&["x"]),
            node("definition_operation", ":", vec![]),
            chain_node(&["y", "z"]),
            node("definition_operation", "=", vec![]),
            node("expression", "", vec![number_node("decimal", "0d20")]),
        ],
    )
}

fn definition() -> ASTDefinition {
    ASTDefinition {
        assignments: vec![
            (chain(&["x"]), ASTDefinitionOperation::Constant),
            (chain(&["y", "z"]), ASTDefinitionOperation::Variable),
        ],
        expression: ASTExpression::Number(ASTNumber::Decimal("0d20".to_string())),
    }
}

#[test]
fn node_of_unknown_kind_is_refused() {
    let vm = VM::new().unwrap();
    assert_eq!(vm.parse_node(&node("comment", "", vec![])), parse_error("Unknown node kind: comment"));
}

#[test]
fn source_file_holds_its_last_chain() {
    let vm = VM::new().unwrap();
    let empty = node("source_file", "", vec![]);
    assert_eq!(
        vm.parse_node(&empty),
        Ok(ASTNode::SourceFile(ASTSourceFile { statement_chain: None }))
    );
    let tree = node(
        "source_file",
        "",
        vec![
            node("statement_chain", "", vec![]),
            node("statement_chain", "", vec![node("statement", "", vec![definition_node()])]),
        ],
    );
    assert_eq!(
        vm.parse_node(&tree),
        Ok(ASTNode::SourceFile(ASTSourceFile {
            statement_chain: Some(ASTStatementChain {
                statements: vec![ASTStatement::Definition(definition())]
            })
        }))
    );
    let source = node("source", "", vec![node("statement_chain", "", vec![])]);
    assert_eq!(
        vm.parse_node(&source),
        Ok(ASTNode::Source(ASTSource {
            statement_chain: Some(ASTStatementChain { statements: vec![] })
        }))
    );
}

#[test]
fn statement_is_its_first_definition_or_expression() {
    let vm = VM::new().unwrap();
    let tree = node(
        "statement",
        "",
        vec![
            node(";", ";", vec![]),
            node("expression", "", vec![node("string", "\"hi\"", vec![])]),
            definition_node(),
        ],
    );
    assert_eq!(
        vm.parse_node(&tree),
        Ok(ASTNode::Statement(ASTStatement::Expression(ASTExpression::String(ASTString {
            value: "hi".to_string()
        }))))
    );
    assert_eq!(vm.parse_node(&node("statement", "", vec![])), parse_error("Invalid statement"));
    assert_eq!(
        vm.parse_statement_chain(&node(
            "statement_chain",
            "",
            vec![node("statement", "", vec![definition_node()]), node("statement", "", vec![])]
        )),
        parse_error("Invalid statement")
    );
}

#[test]
fn definition_pairs_each_name_with_the_operation_after_it() {
    let vm = VM::new().unwrap();
    assert_eq!(vm.parse_node(&definition_node()), Ok(ASTNode::Definition(definition())));
    let unpaired = node(
        "definition",
        "",
        vec![
            node("definition_operation", "?", vec![]),
            chain_node(&["a"]),
            chain_node(&["b"]),
            node("definition_operation", "=", vec![]),
            node("definition_operation", "?", vec![]),
            node("expression", "", vec![number_node("zero", "0")]),
            node("expression", "", vec![number_node("hex", "0xF")]),
        ],
    );
    assert_eq!(
        vm.parse_definition(&unpaired),
        Ok(ASTNode::Definition(ASTDefinition {
            assignments: vec![(chain(&["b"]), ASTDefinitionOperation::Variable)],
            expression: ASTExpression::Number(ASTNumber::Hex("0xF".to_string())),
        }))
    );
}

#[test]
fn definition_faults_are_reported() {
    let vm = VM::new().unwrap();
    let without_expression =
        node("definition", "", vec![chain_node(&["x"]), node("definition_operation", ":", vec![])]);
    assert_eq!(vm.parse_node(&without_expression), parse_error("Definition missing expression"));
    let bad_operation = node(
        "definition",
        "",
        vec![
            chain_node(&["x"]),
            node("definition_operation", "::", vec![]),
            node("expression", "", vec![number_node("zero", "0")]),
        ],
    );
    assert_eq!(vm.parse_node(&bad_operation), parse_error("Invalid definition operation"));
}

#[test]
fn expression_is_its_first_known_child() {
    let vm = VM::new().unwrap();
    assert_eq!(
        vm.parse_node(&node("expression", "", vec![chain_node(&["a", "b"])])),
        Ok(ASTNode::Expression(ASTExpression::IdentifierChain(chain(&["a", "b"]))))
    );
    assert_eq!(
        vm.parse_node(&node("expression", "", vec![node("source", "", vec![])])),
        Ok(ASTNode::Expression(ASTExpression::Source(ASTSource { statement_chain: None })))
    );
    assert_eq!(
        vm.parse_node(&node("expression", "", vec![node("[", "[", vec![])])),
        parse_error("Invalid expression")
    );
}

#[test]
fn formula_takes_numbers_and_operations_in_turn() {
    let vm = VM::new().unwrap();
    let tree = node(
        "math",
        "",
        vec![
            node("[", "[", vec![]),
            node("math_operation", "-", vec![]),
            number_node("decimal", "0d10"),
            number_node("nothing", "skipped"),
            node("math_operation", "*", vec![]),
            node("math_operation", "?", vec![]),
            number_node("binary", "0b1"),
            node("]", "]", vec![]),
        ],
    );
    assert_eq!(
        vm.parse_node(&tree),
        Ok(ASTNode::Math(ASTMath {
            sections: vec![
                ASTMathSection::Variable(ASTMathVariable::Number(ASTNumber::Decimal(
                    "0d10".to_string()
                ))),
                ASTMathSection::Operation(ASTMathOperation::Multiply),
                ASTMathSection::Variable(ASTMathVariable::Number(ASTNumber::Binary(
                    "0b1".to_string()
                ))),
            ]
        }))
    );
    let wrapped = node("expression", "", vec![node("math", "", vec![number_node("octal", "0o7")])]);
    assert_eq!(
        vm.parse_node(&wrapped),
        Ok(ASTNode::Expression(ASTExpression::Math(ASTMath {
            sections: vec![ASTMathSection::Variable(ASTMathVariable::Number(ASTNumber::Octal(
                "0o7".to_string()
            )))]
        })))
    );
}

#[test]
fn formula_faults_are_reported() {
    let vm = VM::new().unwrap();
    let bad_number = node("math", "", vec![number_node("nothing", "1")]);
    assert_eq!(vm.parse_node(&bad_number), parse_error("Invalid number"));
    let bad_operation = node(
        "math",
        "",
        vec![number_node("zero", "0"), node("math_operation", "^", vec![])],
    );
    assert_eq!(vm.parse_node(&bad_operation), parse_error("Invalid math operation: ^"));
}

#[test]
fn each_operation_of_a_formula_is_read() {
    let vm = VM::new().unwrap();
    let cases = [
        ("+", ASTMathOperation::Add),
        ("-", ASTMathOperation::Subtract),
        ("*", ASTMathOperation::Multiply),
        ("/", ASTMathOperation::Divide),
        ("%", ASTMathOperation::Modulo),
    ];
    for (text, operation) in cases {
        assert_eq!(
            vm.parse_node(&node("math_operation", text, vec![])),
            Ok(ASTNode::MathOperation(operation))
        );
    }
}

#[test]
fn number_is_its_first_child_of_a_number_kind() {
    let vm = VM::new().unwrap();
    assert_eq!(vm.parse_node(&number_node("zero", "0")), Ok(ASTNode::Number(ASTNumber::Zero)));
    assert_eq!(
        vm.parse_node(&number_node("binary", "0b1")),
        Ok(ASTNode::Number(ASTNumber::Binary("0b1".to_string())))
    );
    assert_eq!(
        vm.parse_node(&number_node("octal", "0o1")),
        Ok(ASTNode::Number(ASTNumber::Octal("0o1".to_string())))
    );
    assert_eq!(
        vm.parse_node(&number_node("decimal", "0d1")),
        Ok(ASTNode::Number(ASTNumber::Decimal("0d1".to_string())))
    );
    assert_eq!(
        vm.parse_node(&number_node("hex", "0x1")),
        Ok(ASTNode::Number(ASTNumber::Hex("0x1".to_string())))
    );
    assert_eq!(vm.parse_node(&node("number", "1", vec![])), parse_error("Invalid number"));
}

#[test]
fn string_loses_its_quotes() {
    let vm = VM::new().unwrap();
    assert_eq!(
        vm.parse_node(&node("string", "\"héllo\"", vec![])),
        Ok(ASTNode::String(ASTString { value: "héllo".to_string() }))
    );
    assert_eq!(
        vm.parse_node(&node("string", "\"\"", vec![])),
        Ok(ASTNode::String(ASTString { value: String::new() }))
    );
    assert_eq!(
        vm.parse_node(&node("string", "ab", vec![])),
        Ok(ASTNode::String(ASTString { value: String::new() }))
    );
    for text in ["", "\"", "é", "éa", "aé"] {
        assert_eq!(vm.parse_node(&node("string", text, vec![])), parse_error("Invalid string"));
    }
}

#[test]
fn name_keeps_its_text() {
    let vm = VM::new().unwrap();
    assert_eq!(
        vm.parse_node(&node("name", "total", vec![])),
        Ok(ASTNode::Name(ASTName { value: "total".to_string() }))
    );
}

#[test]
fn identifier_is_a_name_or_a_call() {
    let vm = VM::new().unwrap();
    assert_eq!(vm.parse_node(&name_identifier("f")), Ok(ASTNode::Identifier(named("f"))));
    let call = node(
        "call",
        "",
        vec![
            name_identifier("ignored"),
            name_identifier("f"),
            node("(", "(", vec![]),
            node("statement", "", vec![node("expression", "", vec![number_node("zero", "0")])]),
        ],
    );
    let expected = ASTCall {
        identifier: Box::new(named("f")),
        arguments: vec![ASTStatement::Expression(ASTExpression::Number(ASTNumber::Zero))],
    };
    assert_eq!(
        vm.parse_node(&node("identifier", "", vec![call])),
        Ok(ASTNode::Identifier(ASTIdentifier::Call(expected)))
    );
    assert_eq!(vm.parse_node(&node("identifier", "", vec![])), parse_error("Invalid identifier"));
    assert_eq!(vm.parse_node(&node("call", "", vec![])), parse_error("Call missing identifier"));
    assert_eq!(
        vm.parse_node(&chain_node(&["a", "b"])),
        Ok(ASTNode::IdentifierChain(chain(&["a", "b"])))
    );
}

#[test]
fn first_parse_fault_in_order_is_reported() {
    let vm = VM::new().unwrap();
    let tree = node(
        "source_file",
        "",
        vec![node(
            "statement_chain",
            "",
            vec![
                node("statement", "", vec![definition_node()]),
                node(
                    "statement",
                    "",
                    vec![node("expression", "", vec![node("math", "", vec![node("number", "", vec![])])])],
                ),
                node("statement", "", vec![]),
            ],
        )],
    );
    assert_eq!(vm.parse_node(&tree), parse_error("Invalid number"));
}
