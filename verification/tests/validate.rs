use mage_rs::validate::{
    validate_definition, validate_expression, validate_expression_section,
    validate_function_call, validate_identifier, validate_identifier_chain, validate_node,
    validate_number_format, validate_prioritize, validate_statement, validate_statement_chain,
    validate_string, validate_tree_with, validate_variable,
};
use mage_rs::{
    validate_arithmetic_operator, validate_identifier_as_number, validate_tree, Error,
    NodeKindIDs, SyntaxNode, ValidationError,
};
use tree_sitter::{Language, Node, Parser};

const SOURCE_FILE: u16 = 1;
const SOURCE: u16 = 2;
const STATEMENT_CHAIN: u16 = 3;
const STATEMENT: u16 = 4;
const DEFINITION: u16 = 5;
const EXPRESSION: u16 = 6;
const IDENTIFIER_CHAIN: u16 = 7;
const IDENTIFIER: u16 = 8;
const CALL: u16 = 9;
const DEFINITION_OPERATION: u16 = 10;
const ARITHMETIC: u16 = 11;
const VARIABLE: u16 = 12;
const NUMBER: u16 = 13;
const STRING: u16 = 14;
const PRIORITIZE: u16 = 15;
const EXPRESSION_SECTION: u16 = 16;

fn kinds() -> NodeKindIDs {
    NodeKindIDs {
        source_file: SOURCE_FILE,
        source: SOURCE,
        statement_chain: STATEMENT_CHAIN,
        statement: STATEMENT,
        definition: DEFINITION,
        expression: EXPRESSION,
        identifier_chain: IDENTIFIER_CHAIN,
        identifier: IDENTIFIER,
        call: CALL,
        definition_operation: DEFINITION_OPERATION,
        arithmetic: ARITHMETIC,
        variable: VARIABLE,
        number: NUMBER,
        string: STRING,
        prioritize: PRIORITIZE,
        expression_section: EXPRESSION_SECTION,
    }
}

fn node(kind_id: u16, text: &str, children: Vec<SyntaxNode>) -> SyntaxNode {
    SyntaxNode { kind_id, kind: String::new(), named: true, text: text.to_string(), children }
}

fn punctuation(text: &str) -> SyntaxNode {
    SyntaxNode {
        kind_id: 100,
        kind: text.to_string(),
        named: false,
        text: text.to_string(),
        children: vec![],
    }
}

fn number_variable(text: &str) -> SyntaxNode {
    node(VARIABLE, text, vec![node(NUMBER, text, vec![])])
}

fn name_chain(text: &str) -> SyntaxNode {
    node(IDENTIFIER_CHAIN, text, vec![node(IDENTIFIER, text, vec![])])
}

fn expression_of(sections: Vec<SyntaxNode>) -> SyntaxNode {
    node(EXPRESSION, "", sections)
}

fn section_of(parts: Vec<SyntaxNode>) -> SyntaxNode {
    node(EXPRESSION_SECTION, "", parts)
}

fn definition_statement(name: &str, value: SyntaxNode) -> SyntaxNode {
    node(
        STATEMENT,
        "",
        vec![
            node(
                DEFINITION,
                "",
                vec![name_chain(name), node(DEFINITION_OPERATION, ":", vec![])],
            ),
            expression_of(vec![section_of(vec![value])]),
            punctuation(";"),
        ],
    )
}

fn file_of(statements: Vec<SyntaxNode>) -> SyntaxNode {
    node(SOURCE_FILE, "", vec![node(STATEMENT_CHAIN, "", statements)])
}

fn invalid_number(text: &str) -> Result<(), ValidationError> {
    Err(ValidationError::InvalidNumberFormat(text.to_string()))
}

fn convert(node: Node, code: &str) -> SyntaxNode {
    let mut children = Vec::new();
    for child in node.children(&mut node.walk()) {
        children.push(convert(child, code));
    }
    SyntaxNode {
        kind_id: node.kind_id(),
        kind: node.kind().to_string(),
        named: node.is_named(),
        text: node.utf8_text(code.as_bytes()).unwrap().to_string(),
        children,
    }
}

fn parse(code: &str) -> SyntaxNode {
    let mut parser = Parser::new();
    parser.set_language(&Language::new(tree_sitter_mage::LANGUAGE)).unwrap();
    let tree = parser.parse(code, None).unwrap();
    convert(tree.root_node(), code)
}

#[test]
fn well_formed_tree_is_accepted() {
    let tree = file_of(vec![
        definition_statement("x", number_variable("0d42")),
        definition_statement("y", number_variable("0")),
        definition_statement("z", node(VARIABLE, "x", vec![name_chain("x")])),
        definition_statement("s", node(VARIABLE, "\"text\"", vec![node(STRING, "\"text\"", vec![])])),
    ]);
    assert_eq!(validate_node(&tree, &kinds()), Ok(()));
    assert_eq!(validate_tree_with(&kinds(), &tree), Ok(()));
}

#[test]
fn source_block_is_not_supported() {
    let root = node(SOURCE, "{}", vec![]);
    assert_eq!(validate_node(&root, &kinds()), Err(ValidationError::UnsupportedSourceBlock));
    let nested = node(SOURCE_FILE, "", vec![punctuation(" "), node(SOURCE, "{}", vec![])]);
    assert_eq!(validate_node(&nested, &kinds()), Err(ValidationError::UnsupportedSourceBlock));
    assert_eq!(
        validate_tree_with(&kinds(), &nested),
        Err(Error::ValidationError(ValidationError::UnsupportedSourceBlock))
    );
}

#[test]
fn node_that_is_no_source_file_is_not_looked_into() {
    let tree = node(STATEMENT_CHAIN, "", vec![node(STATEMENT, "", vec![])]);
    assert_eq!(validate_node(&tree, &kinds()), Ok(()));
    assert_eq!(
        validate_statement_chain(&tree, &kinds()),
        Err(ValidationError::EmptyExpression)
    );
}

#[test]
fn statement_needs_an_expression() {
    let statement = node(
        STATEMENT,
        "",
        vec![node(DEFINITION, "", vec![name_chain("x"), node(DEFINITION_OPERATION, ":", vec![])])],
    );
    assert_eq!(validate_statement(&statement, &kinds()), Err(ValidationError::EmptyExpression));
    assert_eq!(
        validate_node(&file_of(vec![statement]), &kinds()),
        Err(ValidationError::EmptyExpression)
    );
}

#[test]
fn expression_needs_a_section() {
    let empty = expression_of(vec![punctuation("[")]);
    assert_eq!(validate_expression(&empty, &kinds()), Err(ValidationError::EmptyExpression));
    let full = expression_of(vec![section_of(vec![number_variable("0d1")])]);
    assert_eq!(validate_expression(&full, &kinds()), Ok(()));
}

#[test]
fn brackets_need_an_expression() {
    let empty = node(PRIORITIZE, "[]", vec![punctuation("["), punctuation("]")]);
    assert_eq!(validate_prioritize(&empty, &kinds()), Err(ValidationError::EmptyExpression));
    let variable = node(VARIABLE, "[]", vec![empty]);
    assert_eq!(validate_variable(&variable, &kinds()), Err(ValidationError::EmptyExpression));
    let full = node(
        PRIORITIZE,
        "[0d1]",
        vec![expression_of(vec![section_of(vec![number_variable("0d1")])])],
    );
    assert_eq!(validate_prioritize(&full, &kinds()), Ok(()));
}

#[test]
fn definition_needs_a_name_and_an_operation() {
    let missing = Err(ValidationError::MalformedFunctionCall(
        "Definition missing name or operation".to_string(),
    ));
    let nameless = node(DEFINITION, "", vec![node(DEFINITION_OPERATION, ":", vec![])]);
    assert_eq!(validate_definition(&nameless, &kinds()), missing);
    let without_operation = node(DEFINITION, "", vec![name_chain("x")]);
    assert_eq!(validate_definition(&without_operation, &kinds()), missing);
    let full = node(DEFINITION, "", vec![name_chain("x"), node(DEFINITION_OPERATION, "=", vec![])]);
    assert_eq!(validate_definition(&full, &kinds()), Ok(()));
}

#[test]
fn operator_needs_a_variable() {
    let alone = section_of(vec![node(ARITHMETIC, "+", vec![])]);
    assert_eq!(
        validate_expression_section(&alone, &kinds()),
        Err(ValidationError::IncompleteOperatorSequence)
    );
    let with_variable = section_of(vec![node(ARITHMETIC, "+", vec![]), number_variable("0d1")]);
    assert_eq!(validate_expression_section(&with_variable, &kinds()), Ok(()));
    let unknown = section_of(vec![number_variable("0d1"), node(ARITHMETIC, "^", vec![])]);
    assert_eq!(
        validate_expression_section(&unknown, &kinds()),
        Err(ValidationError::IncompleteOperatorSequence)
    );
}

#[test]
fn arithmetic_operators_are_five() {
    for operator in ["+", "-", "*", "/", "%"] {
        assert_eq!(validate_arithmetic_operator(operator), Ok(()));
    }
    for operator in ["", "^", "++", "&", "+ ", "÷"] {
        assert_eq!(
            validate_arithmetic_operator(operator),
            Err(ValidationError::IncompleteOperatorSequence)
        );
    }
}

#[test]
fn number_formats_are_checked() {
    for number in ["0", "0b1", "0B10", "0o7", "0O17", "0d9", "0D10", "0xfF", "0X0", "12", "", "9a"] {
        assert_eq!(validate_number_format(number), Ok(()), "{:?}", number);
    }
    for number in ["0b", "0b2", "0o8", "0d1a", "0xg", "00", "01", "0z", "0_1", "0é"] {
        assert_eq!(validate_number_format(number), invalid_number(number), "{:?}", number);
    }
    let variable = number_variable("0b12");
    assert_eq!(validate_variable(&variable, &kinds()), invalid_number("0b12"));
}

#[test]
fn strings_are_quoted() {
    assert_eq!(validate_string("\"text\""), Ok(()));
    assert_eq!(validate_string("\"\""), Ok(()));
    assert_eq!(validate_string("\""), Ok(()));
    for string in ["", "text", "\"text", "text\"", "'text'"] {
        assert_eq!(
            validate_string(string),
            Err(ValidationError::MalformedFunctionCall(format!("Invalid string format: {}", string)))
        );
    }
}

#[test]
fn identifier_chain_neither_starts_nor_ends_with_a_dot() {
    for text in ["a.", ".a", ".", "a.b."] {
        let chain = node(IDENTIFIER_CHAIN, text, vec![]);
        assert_eq!(
            validate_identifier_chain(&chain, &kinds()),
            Err(ValidationError::InvalidIdentifierChain(text.to_string()))
        );
    }
    let chain = node(
        IDENTIFIER_CHAIN,
        "a.b",
        vec![node(IDENTIFIER, "a", vec![]), punctuation("."), node(IDENTIFIER, "b", vec![])],
    );
    assert_eq!(validate_identifier_chain(&chain, &kinds()), Ok(()));
    let empty = node(IDENTIFIER_CHAIN, "", vec![]);
    assert_eq!(validate_identifier_chain(&empty, &kinds()), Ok(()));
}

#[test]
fn identifier_must_not_look_like_a_number() {
    for identifier in ["0x", "0X1G", "0b", "0B2", "0o", "0O9", "0d", "0Dx", "0a", "0Z", "0é", "0ß1"] {
        assert_eq!(
            validate_identifier_as_number(identifier),
            invalid_number(identifier),
            "{:?}",
            identifier
        );
    }
    for identifier in ["", "0", "x", "x0b", "00", "0_", "01", "a0x", "0 x", "é"] {
        assert_eq!(validate_identifier_as_number(identifier), Ok(()), "{:?}", identifier);
    }
    let chain = node(IDENTIFIER_CHAIN, "0xZZ", vec![node(IDENTIFIER, "0xZZ", vec![])]);
    assert_eq!(validate_identifier_chain(&chain, &kinds()), invalid_number("0xZZ"));
    assert_eq!(
        validate_identifier(&node(IDENTIFIER, "0xZZ", vec![]), &kinds()),
        invalid_number("0xZZ")
    );
}

#[test]
fn call_needs_its_closing_parenthesis() {
    let open = node(CALL, "f(", vec![]);
    assert_eq!(
        validate_function_call(&open, &kinds()),
        Err(ValidationError::MalformedFunctionCall("f(".to_string()))
    );
    let closed = node(
        CALL,
        "f(0d1)",
        vec![expression_of(vec![section_of(vec![number_variable("0d1")])])],
    );
    assert_eq!(validate_function_call(&closed, &kinds()), Ok(()));
    let bad_argument = node(CALL, "f()", vec![expression_of(vec![])]);
    assert_eq!(
        validate_function_call(&bad_argument, &kinds()),
        Err(ValidationError::EmptyExpression)
    );
    let identifier = node(IDENTIFIER, "f(", vec![open]);
    assert_eq!(
        validate_identifier(&identifier, &kinds()),
        Err(ValidationError::MalformedFunctionCall("f(".to_string()))
    );
}

#[test]
fn first_fault_in_order_is_reported() {
    let tree = file_of(vec![
        definition_statement("x", number_variable("0d1")),
        definition_statement("a.", number_variable("0b2")),
        node(STATEMENT, "", vec![]),
    ]);
    assert_eq!(
        validate_node(&tree, &kinds()),
        Err(ValidationError::InvalidIdentifierChain("a.".to_string()))
    );
}

#[test]
fn kinds_of_the_grammar_are_looked_up() {
    let language = Language::new(tree_sitter_mage::LANGUAGE);
    let kinds = NodeKindIDs::new(&language);
    assert_eq!(kinds.source_file, language.id_for_node_kind("source_file", true));
    assert_eq!(kinds.source, language.id_for_node_kind("source", true));
    assert_eq!(kinds.identifier, language.id_for_node_kind("identifier", true));
    assert_ne!(kinds.source_file, 0);
    assert_ne!(kinds.source, kinds.source_file);
    assert_eq!(kinds.statement_chain, 0);
    assert_eq!(kinds.prioritize, 0);
}

#[test]
fn parsed_trees_are_validated() {
    assert_eq!(validate_tree(&parse("x : 0d10;")), Ok(()));
    assert_eq!(validate_tree(&parse("")), Ok(()));
    assert_eq!(
        validate_tree(&parse("x : 0d10; { y }")),
        Err(Error::ValidationError(ValidationError::UnsupportedSourceBlock))
    );
}

fn raw(kind_id: u16, children: Vec<SyntaxNode>) -> SyntaxNode {
    SyntaxNode { kind_id, kind: String::new(), named: true, text: String::new(), children }
}

#[test]
fn mage_grammar_gives_these_kinds() {
    let language = Language::new(tree_sitter_mage::LANGUAGE);
    assert_eq!(
        NodeKindIDs::new(&language),
        NodeKindIDs {
            source_file: 33,
            source: 34,
            statement_chain: 0,
            statement: 0,
            definition: 0,
            expression: 0,
            identifier_chain: 0,
            identifier: 32,
            call: 42,
            definition_operation: 0,
            arithmetic: 0,
            variable: 22,
            number: 0,
            string: 0,
            prioritize: 0,
            expression_section: 0,
        }
    );
}

#[test]
fn trees_are_validated_by_the_kinds_of_the_mage_grammar() {
    let unsupported = Err(Error::ValidationError(ValidationError::UnsupportedSourceBlock));
    let empty = Err(Error::ValidationError(ValidationError::EmptyExpression));
    assert_eq!(validate_tree(&raw(34, vec![])), unsupported);
    assert_eq!(validate_tree(&raw(33, vec![])), Ok(()));
    assert_eq!(validate_tree(&raw(33, vec![raw(7, vec![]), raw(34, vec![])])), unsupported);
    assert_eq!(validate_tree(&raw(7, vec![raw(34, vec![])])), Ok(()));
    assert_eq!(validate_tree(&raw(2, vec![])), Ok(()));
    assert_eq!(validate_tree(&raw(1, vec![raw(2, vec![])])), Ok(()));
    assert_eq!(validate_tree(&raw(33, vec![raw(0, vec![])])), Ok(()));
    assert_eq!(validate_tree(&raw(33, vec![raw(0, vec![raw(0, vec![])])])), empty);
    assert_eq!(validate_tree(&raw(33, vec![raw(0, vec![raw(32, vec![])])])), Ok(()));
    for code in ["x : 0d10;", "", "a.b => c; d : 'e'"] {
        let tree = parse(code);
        assert_eq!(validate_tree(&tree), validate_tree_with(&kinds_of_mage(), &tree));
    }
}

fn kinds_of_mage() -> NodeKindIDs {
    NodeKindIDs::new(&Language::new(tree_sitter_mage::LANGUAGE))
}
