use mage_rs::{
    flatten_tree, process_tree, Error, FlatBinary, FlatBinaryBuilder, FlatBuilder,
    FlatExpression, FlatIdentifier, FlatIndex, FlatNumber, FlatOperator, FlatRoot,
    FlatRootBuilder, FlatSource, FlatSourceBuilder, FlatString, NodeKinds, SyntaxNode,
};
use tree_sitter::{Language, Node, Parser};

fn language() -> Language {
    Language::new(tree_sitter_mage::LANGUAGE)
}

fn convert(node: Node, code: &str) -> SyntaxNode {
    let mut children = Vec::new();
    for child in node.children(&mut node.walk()) {
        children.push(convert(child, code));
    }
    SyntaxNode {
        kind_id: node.kind_id(),
        kind: node.kind().to_string(),
        named: node.is_named(),
        text: node.utf8_text(code.as_bytes()).unwrap().to_string(),
        children,
    }
}

fn parse(code: &str) -> SyntaxNode {
    let mut parser = Parser::new();
    parser.set_language(&language()).unwrap();
    let tree = parser.parse(code, None).unwrap();
    convert(tree.root_node(), code)
}

fn flatten(code: &str) -> Result<FlatRoot, Error> {
    let kinds = NodeKinds::new(&language());
    flatten_tree(&kinds, &parse(code))
}

fn number(text: &str) -> FlatNumber {
    FlatNumber(text.to_string())
}

fn name(text: &str) -> FlatIdentifier {
    FlatIdentifier(text.to_string())
}

fn binary(one: Option<FlatIndex>, operator: FlatOperator, two: FlatIndex) -> FlatBinary {
    FlatBinary { one, two, operator }
}

fn flatten_error(message: &str) -> Error {
    Error::FlattenError(message.to_string())
}

/// Checks by hand what the library proves of every root.
fn is_well_formed(root: &FlatRoot) -> bool {
    let in_range = |index: &FlatIndex, source: usize, position: usize| match index {
        FlatIndex::Source(k) => *k < source,
        FlatIndex::Expression(k) => *k < position,
        FlatIndex::Number(k) => *k < root.numbers.len(),
        FlatIndex::String(k) => *k < root.strings.len(),
        FlatIndex::Identifier(k) => *k < root.sources[source].identifiers.len(),
    };
    for (s, source) in root.sources.iter().enumerate() {
        for (i, expression) in source.expressions.iter().enumerate() {
            let binary = expression.binary();
            if let Some(one) = &binary.one {
                if !in_range(one, s, i) {
                    return false;
                }
            }
            if !in_range(&binary.two, s, i) {
                return false;
            }
        }
    }
    true
}

fn leaf(kind_id: u16, kind: &str, text: &str) -> SyntaxNode {
    SyntaxNode {
        kind_id,
        kind: kind.to_string(),
        named: true,
        text: text.to_string(),
        children: vec![],
    }
}

fn branch(kind_id: u16, kind: &str, children: Vec<SyntaxNode>) -> SyntaxNode {
    SyntaxNode { kind_id, kind: kind.to_string(), named: true, text: String::new(), children }
}

fn numbered_kinds() -> NodeKinds {
    NodeKinds {
        source_file: 1,
        source: 2,
        parenthesize: 3,
        member: 4,
        call: 5,
        multiplicative: 6,
        additive: 7,
        comparison: 8,
        logical: 9,
        assign: 10,
        binary: 11,
        octal: 12,
        decimal: 13,
        hex: 14,
        single_quoted: 15,
        double_quoted: 16,
        escape: 17,
        raw: 18,
        identifier: 19,
        extract: 20,
        pipe: 21,
        multiply: 22,
        divide: 23,
        modulo: 24,
        add: 25,
        subtract: 26,
        equal: 27,
        not_equal: 28,
        less_than: 29,
        greater_than: 30,
        less_equal: 31,
        greater_equal: 32,
        and: 33,
        or: 34,
        constant: 35,
        variable: 36,
    }
}

#[test]
fn node_kinds_are_looked_up_in_the_language() {
    let language = language();
    let kinds = NodeKinds::new(&language);
    assert_eq!(kinds.source_file, language.id_for_node_kind("source_file", true));
    assert_eq!(kinds.parenthesize, language.id_for_node_kind("parenthesize", true));
    assert_eq!(kinds.assign, language.id_for_node_kind("assign", true));
    assert_eq!(kinds.hex, language.id_for_node_kind("hex", true));
    assert_eq!(kinds.double_quoted, language.id_for_node_kind("double_quoted", true));
    assert_eq!(kinds.identifier, language.id_for_node_kind("identifier", true));
    assert_eq!(kinds.greater_equal, language.id_for_node_kind("greater_equal", true));
    assert_eq!(kinds.variable, language.id_for_node_kind("variable", true));
    let all = [
        kinds.source_file,
        kinds.source,
        kinds.parenthesize,
        kinds.member,
        kinds.call,
        kinds.multiplicative,
        kinds.additive,
        kinds.comparison,
        kinds.logical,
        kinds.assign,
        kinds.binary,
        kinds.octal,
        kinds.decimal,
        kinds.hex,
        kinds.single_quoted,
        kinds.double_quoted,
        kinds.escape,
        kinds.raw,
        kinds.identifier,
        kinds.extract,
        kinds.pipe,
        kinds.multiply,
        kinds.divide,
        kinds.modulo,
        kinds.add,
        kinds.subtract,
        kinds.equal,
        kinds.not_equal,
        kinds.less_than,
        kinds.greater_than,
        kinds.less_equal,
        kinds.greater_equal,
        kinds.and,
        kinds.or,
        kinds.constant,
        kinds.variable,
    ];
    for (i, one) in all.iter().enumerate() {
        assert_ne!(*one, 0);
        for two in all.iter().skip(i + 1) {
            assert_ne!(one, two);
        }
    }
}

#[test]
fn constant_definition_of_a_number() {
    let root = flatten("x : 0d10;").unwrap();
    let expected = FlatRoot {
        sources: vec![FlatSource {
            expressions: vec![FlatExpression::Assign(binary(
                Some(FlatIndex::Identifier(0)),
                FlatOperator::Constant,
                FlatIndex::Number(0),
            ))],
            identifiers: vec![name("x")],
        }],
        numbers: vec![number("0d10")],
        strings: vec![],
    };
    assert_eq!(root, expected);
}

#[test]
fn definition_of_a_difference_and_a_product() {
    let root = flatten("y : 0d10 - 0d2 * 0d2;").unwrap();
    let expected = FlatRoot {
        sources: vec![FlatSource {
            expressions: vec![
                FlatExpression::Multiplicative(binary(
                    Some(FlatIndex::Number(1)),
                    FlatOperator::Multiply,
                    FlatIndex::Number(1),
                )),
                FlatExpression::Additive(binary(
                    Some(FlatIndex::Number(0)),
                    FlatOperator::Subtract,
                    FlatIndex::Expression(0),
                )),
                FlatExpression::Assign(binary(
                    Some(FlatIndex::Identifier(0)),
                    FlatOperator::Constant,
                    FlatIndex::Expression(1),
                )),
            ],
            identifiers: vec![name("y")],
        }],
        numbers: vec![number("0d10"), number("0d2")],
        strings: vec![],
    };
    assert_eq!(root, expected);
}

#[test]
fn parentheses_leave_no_expression_of_their_own() {
    let root = flatten("x : 0d10 - (0d10 - 0d5);").unwrap();
    let expected = FlatRoot {
        sources: vec![FlatSource {
            expressions: vec![
                FlatExpression::Additive(binary(
                    Some(FlatIndex::Number(0)),
                    FlatOperator::Subtract,
                    FlatIndex::Number(1),
                )),
                FlatExpression::Additive(binary(
                    Some(FlatIndex::Number(0)),
                    FlatOperator::Subtract,
                    FlatIndex::Expression(0),
                )),
                FlatExpression::Assign(binary(
                    Some(FlatIndex::Identifier(0)),
                    FlatOperator::Constant,
                    FlatIndex::Expression(1),
                )),
            ],
            identifiers: vec![name("x")],
        }],
        numbers: vec![number("0d10"), number("0d5")],
        strings: vec![],
    };
    assert_eq!(root, expected);
}

#[test]
fn prefix_minus_has_no_left_operand() {
    let root = flatten("- 0d1").unwrap();
    let expected = FlatRoot {
        sources: vec![FlatSource {
            expressions: vec![FlatExpression::Additive(binary(
                None,
                FlatOperator::Subtract,
                FlatIndex::Number(0),
            ))],
            identifiers: vec![],
        }],
        numbers: vec![number("0d1")],
        strings: vec![],
    };
    assert_eq!(root, expected);
}

#[test]
fn call_of_a_member() {
    let root = flatten("c => a.b").unwrap();
    let expected = FlatRoot {
        sources: vec![FlatSource {
            expressions: vec![
                FlatExpression::Member(binary(
                    Some(FlatIndex::Identifier(1)),
                    FlatOperator::Extract,
                    FlatIndex::Identifier(2),
                )),
                FlatExpression::Call(binary(
                    Some(FlatIndex::Identifier(0)),
                    FlatOperator::Pipe,
                    FlatIndex::Expression(0),
                )),
            ],
            identifiers: vec![name("c"), name("a"), name("b")],
        }],
        numbers: vec![],
        strings: vec![],
    };
    assert_eq!(root, expected);
}

#[test]
fn call_whose_first_operand_is_a_member() {
    let kinds = numbered_kinds();
    let tree = branch(
        1,
        "source_file",
        vec![branch(
            5,
            "call",
            vec![
                branch(
                    4,
                    "member",
                    vec![leaf(19, "identifier", "a"), leaf(20, "extract", "."), leaf(19, "identifier", "b")],
                ),
                leaf(21, "pipe", "=>"),
                leaf(19, "identifier", "c"),
            ],
        )],
    );
    let root = flatten_tree(&kinds, &tree).unwrap();
    let expected = FlatRoot {
        sources: vec![FlatSource {
            expressions: vec![
                FlatExpression::Member(binary(
                    Some(FlatIndex::Identifier(0)),
                    FlatOperator::Extract,
                    FlatIndex::Identifier(1),
                )),
                FlatExpression::Call(binary(
                    Some(FlatIndex::Expression(0)),
                    FlatOperator::Pipe,
                    FlatIndex::Identifier(2),
                )),
            ],
            identifiers: vec![name("a"), name("b"), name("c")],
        }],
        numbers: vec![],
        strings: vec![],
    };
    assert_eq!(root, expected);
}

#[test]
fn two_statements_share_one_source() {
    let root = flatten("a : 0d1; b = a + 0d1").unwrap();
    let expected = FlatRoot {
        sources: vec![FlatSource {
            expressions: vec![
                FlatExpression::Assign(binary(
                    Some(FlatIndex::Identifier(0)),
                    FlatOperator::Constant,
                    FlatIndex::Number(0),
                )),
                FlatExpression::Additive(binary(
                    Some(FlatIndex::Identifier(0)),
                    FlatOperator::Add,
                    FlatIndex::Number(0),
                )),
                FlatExpression::Assign(binary(
                    Some(FlatIndex::Identifier(1)),
                    FlatOperator::Variable,
                    FlatIndex::Expression(1),
                )),
            ],
            identifiers: vec![name("a"), name("b")],
        }],
        numbers: vec![number("0d1")],
        strings: vec![],
    };
    assert_eq!(root, expected);
}

#[test]
fn empty_program_gives_one_empty_source() {
    let root = flatten("").unwrap();
    let expected = FlatRoot {
        sources: vec![FlatSource { expressions: vec![], identifiers: vec![] }],
        numbers: vec![],
        strings: vec![],
    };
    assert_eq!(root, expected);
}

#[test]
fn redundant_parentheses_change_nothing() {
    let plain = flatten("a * b + 0d5").unwrap();
    let wrapped = flatten("((a) * (b)) + (0d5)").unwrap();
    let doubled = flatten("(((a * b)) + ((0d5)))").unwrap();
    assert_eq!(plain, wrapped);
    assert_eq!(plain, doubled);
}

#[test]
fn parentheses_that_regroup_change_the_order() {
    let root = flatten("a * (b + 0d5)").unwrap();
    let expected = FlatRoot {
        sources: vec![FlatSource {
            expressions: vec![
                FlatExpression::Additive(binary(
                    Some(FlatIndex::Identifier(1)),
                    FlatOperator::Add,
                    FlatIndex::Number(0),
                )),
                FlatExpression::Multiplicative(binary(
                    Some(FlatIndex::Identifier(0)),
                    FlatOperator::Multiply,
                    FlatIndex::Expression(0),
                )),
            ],
            identifiers: vec![name("a"), name("b")],
        }],
        numbers: vec![number("0d5")],
        strings: vec![],
    };
    assert_eq!(root, expected);
}

#[test]
fn operands_nest_as_the_tree_does() {
    let left = flatten("a - b - c").unwrap();
    assert_eq!(
        left.sources[0].expressions,
        vec![
            FlatExpression::Additive(binary(
                Some(FlatIndex::Identifier(0)),
                FlatOperator::Subtract,
                FlatIndex::Identifier(1),
            )),
            FlatExpression::Additive(binary(
                Some(FlatIndex::Expression(0)),
                FlatOperator::Subtract,
                FlatIndex::Identifier(2),
            )),
        ]
    );
    let right = flatten("a - (b - c)").unwrap();
    assert_eq!(
        right.sources[0].expressions,
        vec![
            FlatExpression::Additive(binary(
                Some(FlatIndex::Identifier(1)),
                FlatOperator::Subtract,
                FlatIndex::Identifier(2),
            )),
            FlatExpression::Additive(binary(
                Some(FlatIndex::Identifier(0)),
                FlatOperator::Subtract,
                FlatIndex::Expression(0),
            )),
        ]
    );
}

#[test]
fn every_operator_is_recognised() {
    let cases = [
        ("a . b", FlatOperator::Extract),
        ("a => b", FlatOperator::Pipe),
        ("a * b", FlatOperator::Multiply),
        ("a / b", FlatOperator::Divide),
        ("a % b", FlatOperator::Modulo),
        ("a + b", FlatOperator::Add),
        ("a - b", FlatOperator::Subtract),
        ("a == b", FlatOperator::Equal),
        ("a != b", FlatOperator::NotEqual),
        ("a < b", FlatOperator::LessThan),
        ("a > b", FlatOperator::GreaterThan),
        ("a <= b", FlatOperator::LessEqual),
        ("a >= b", FlatOperator::GreaterEqual),
        ("a && b", FlatOperator::And),
        ("a || b", FlatOperator::Or),
        ("a : b", FlatOperator::Constant),
        ("a = b", FlatOperator::Variable),
    ];
    for (code, operator) in cases {
        let root = flatten(code).unwrap();
        assert_eq!(root.sources.len(), 1);
        assert_eq!(root.sources[0].expressions.len(), 1);
        assert_eq!(
            root.sources[0].expressions[0].binary(),
            binary(Some(FlatIndex::Identifier(0)), operator, FlatIndex::Identifier(1))
        );
    }
}

#[test]
fn each_binary_form_has_its_variant() {
    assert!(matches!(flatten("a . b").unwrap().sources[0].expressions[0], FlatExpression::Member(_)));
    assert!(matches!(flatten("a => b").unwrap().sources[0].expressions[0], FlatExpression::Call(_)));
    assert!(matches!(
        flatten("a * b").unwrap().sources[0].expressions[0],
        FlatExpression::Multiplicative(_)
    ));
    assert!(matches!(flatten("a + b").unwrap().sources[0].expressions[0], FlatExpression::Additive(_)));
    assert!(matches!(
        flatten("a < b").unwrap().sources[0].expressions[0],
        FlatExpression::Comparison(_)
    ));
    assert!(matches!(flatten("a && b").unwrap().sources[0].expressions[0], FlatExpression::Logical(_)));
    assert!(matches!(flatten("a = b").unwrap().sources[0].expressions[0], FlatExpression::Assign(_)));
}

#[test]
fn numbers_of_every_radix_and_strings_are_interned_as_written() {
    let root = flatten("a : 0b101; b : 0o17; c : 0xFf; d : 'one'; e : \"two\"; f : 'one'; g : 0B101")
        .unwrap();
    assert_eq!(root.numbers, vec![number("0b101"), number("0o17"), number("0xFf"), number("0B101")]);
    assert_eq!(
        root.strings,
        vec![FlatString("'one'".to_string()), FlatString("\"two\"".to_string())]
    );
    assert_eq!(
        root.sources[0].expressions[5].binary(),
        binary(Some(FlatIndex::Identifier(5)), FlatOperator::Constant, FlatIndex::String(0))
    );
    assert!(is_well_formed(&root));
}

#[test]
fn identifiers_are_interned_within_their_source() {
    let root = flatten("x : { x : 0d1; y : x }; y : x").unwrap();
    let expected = FlatRoot {
        sources: vec![
            FlatSource {
                expressions: vec![
                    FlatExpression::Assign(binary(
                        Some(FlatIndex::Identifier(0)),
                        FlatOperator::Constant,
                        FlatIndex::Number(0),
                    )),
                    FlatExpression::Assign(binary(
                        Some(FlatIndex::Identifier(1)),
                        FlatOperator::Constant,
                        FlatIndex::Identifier(0),
                    )),
                ],
                identifiers: vec![name("x"), name("y")],
            },
            FlatSource {
                expressions: vec![
                    FlatExpression::Assign(binary(
                        Some(FlatIndex::Identifier(0)),
                        FlatOperator::Constant,
                        FlatIndex::Source(0),
                    )),
                    FlatExpression::Assign(binary(
                        Some(FlatIndex::Identifier(1)),
                        FlatOperator::Constant,
                        FlatIndex::Identifier(0),
                    )),
                ],
                identifiers: vec![name("x"), name("y")],
            },
        ],
        numbers: vec![number("0d1")],
        strings: vec![],
    };
    assert_eq!(root, expected);
    assert!(is_well_formed(&root));
}

#[test]
fn a_source_that_stands_alone_in_a_source_is_kept_in_the_root() {
    let root = flatten("{ 0d1 }").unwrap();
    assert_eq!(root.sources.len(), 2);
    assert_eq!(root.sources[0], FlatSource { expressions: vec![], identifiers: vec![] });
    assert_eq!(root.sources[1], FlatSource { expressions: vec![], identifiers: vec![] });
    assert_eq!(root.numbers, vec![number("0d1")]);
}

#[test]
fn every_root_is_well_formed() {
    let programs = [
        "x : 0d10;",
        "y : 0d10 - 0d2 * 0d2;",
        "a : { b : { c : 0d1 + 0d2 } }; d : a . b . c",
        "- - 0d1",
        "f => g => (h . i) * 'text' + \"text\"",
        "a && b || c == d; e != f; g : h = i",
    ];
    for program in programs {
        let root = flatten(program).unwrap();
        assert!(is_well_formed(&root), "{}", program);
    }
}

#[test]
fn process_tree_looks_the_kinds_up_itself() {
    let code = "y : 0d10 - 0d2 * 0d2;";
    let processed = process_tree(&language(), &parse(code)).unwrap();
    assert_eq!(processed, flatten(code).unwrap());
}

#[test]
fn syntax_errors_are_unknown_nodes() {
    assert_eq!(
        flatten("a b"),
        Err(flatten_error("Error: Cannot process node of unknown type ERROR."))
    );
}

#[test]
fn unknown_node_is_named_in_the_error() {
    let tree = branch(1, "source_file", vec![leaf(99, "mystery", "?")]);
    assert_eq!(
        flatten_tree(&numbered_kinds(), &tree),
        Err(flatten_error("Error: Cannot process node of unknown type mystery."))
    );
}

#[test]
fn nodes_that_are_not_named_are_passed_over() {
    let mut semicolon = leaf(99, ";", ";");
    semicolon.named = false;
    let tree = branch(1, "source_file", vec![leaf(13, "decimal", "0d7"), semicolon]);
    let root = flatten_tree(&numbered_kinds(), &tree).unwrap();
    assert_eq!(root.numbers, vec![number("0d7")]);
}

#[test]
fn operator_at_the_root_is_refused() {
    let tree = leaf(25, "add", "+");
    assert_eq!(
        flatten_tree(&numbered_kinds(), &tree),
        Err(flatten_error(
            "Error: Invalid syntax - operators cannot be placed at the root level; they must be inside expressions."
        ))
    );
}

#[test]
fn identifier_at_the_root_is_refused() {
    let tree = leaf(19, "identifier", "x");
    assert_eq!(
        flatten_tree(&numbered_kinds(), &tree),
        Err(flatten_error(
            "Error: Invalid syntax - identifiers cannot be placed at the root level; they must be inside a source block."
        ))
    );
}

#[test]
fn expression_at_the_root_is_refused() {
    let tree = branch(
        7,
        "additive",
        vec![leaf(13, "decimal", "0d1"), leaf(25, "add", "+"), leaf(13, "decimal", "0d2")],
    );
    assert_eq!(
        flatten_tree(&numbered_kinds(), &tree),
        Err(flatten_error(
            "Error: Invalid syntax - expressions cannot be placed at the root level; they must be inside a source block."
        ))
    );
}

#[test]
fn number_at_the_root_is_accepted() {
    let tree = leaf(13, "decimal", "0d1");
    let root = flatten_tree(&numbered_kinds(), &tree).unwrap();
    assert_eq!(root, FlatRoot { sources: vec![], numbers: vec![number("0d1")], strings: vec![] });
}

#[test]
fn operator_in_a_source_is_refused() {
    let tree = branch(1, "source_file", vec![leaf(25, "add", "+")]);
    assert_eq!(
        flatten_tree(&numbered_kinds(), &tree),
        Err(flatten_error(
            "Error: Invalid syntax - operators cannot be placed directly in a source block; they must be inside binary expressions."
        ))
    );
}

#[test]
fn binary_without_an_operator_is_incomplete() {
    let tree = branch(1, "source_file", vec![branch(7, "additive", vec![leaf(13, "decimal", "0d1")])]);
    assert_eq!(
        flatten_tree(&numbered_kinds(), &tree),
        Err(flatten_error("Error: Incomplete binary expression."))
    );
}

#[test]
fn binary_without_a_second_operand_is_incomplete() {
    let tree = branch(
        1,
        "source_file",
        vec![branch(7, "additive", vec![leaf(13, "decimal", "0d1"), leaf(25, "add", "+")])],
    );
    assert_eq!(
        flatten_tree(&numbered_kinds(), &tree),
        Err(flatten_error("Error: Incomplete binary expression."))
    );
}

#[test]
fn third_operand_is_refused() {
    let tree = branch(
        1,
        "source_file",
        vec![branch(
            7,
            "additive",
            vec![
                leaf(13, "decimal", "0d1"),
                leaf(25, "add", "+"),
                leaf(13, "decimal", "0d2"),
                leaf(13, "decimal", "0d3"),
            ],
        )],
    );
    assert_eq!(
        flatten_tree(&numbered_kinds(), &tree),
        Err(flatten_error(
            "Error: Invalid binary expression - attempted to add a third operand, but binary operations can only have exactly two operands."
        ))
    );
}

#[test]
fn second_operator_is_refused() {
    let tree = branch(
        1,
        "source_file",
        vec![branch(
            7,
            "additive",
            vec![leaf(13, "decimal", "0d1"), leaf(25, "add", "+"), leaf(26, "subtract", "-")],
        )],
    );
    assert_eq!(
        flatten_tree(&numbered_kinds(), &tree),
        Err(flatten_error(
            "Error: Invalid binary expression - attempted to add a second operator, but binary operations can only have exactly one operator."
        ))
    );
}

#[test]
fn root_builder_accepts_sources_numbers_and_strings_only() {
    let mut root = FlatRootBuilder::new();
    assert_eq!(root.send_number(number("0d1")), Ok(FlatIndex::Number(0)));
    assert_eq!(root.send_number(number("0d2")), Ok(FlatIndex::Number(1)));
    assert_eq!(root.send_number(number("0d1")), Ok(FlatIndex::Number(0)));
    assert_eq!(root.send_string(FlatString("'a'".to_string())), Ok(FlatIndex::String(0)));
    assert_eq!(root.send_string(FlatString("'a'".to_string())), Ok(FlatIndex::String(0)));
    assert_eq!(
        root.send_source(FlatSource { expressions: vec![], identifiers: vec![] }),
        Ok(FlatIndex::Source(0))
    );
    assert!(root.send_identifier(name("x")).is_err());
    assert!(root
        .send_expression(FlatExpression::Additive(binary(
            None,
            FlatOperator::Add,
            FlatIndex::Number(0)
        )))
        .is_err());
    assert_eq!(
        root.index(FlatIndex::Number(0)),
        Err(flatten_error(
            "Error: Invalid syntax - indexes cannot be placed at the root level; they must be inside expressions."
        ))
    );
    assert!(root.operator(FlatOperator::Add).is_err());
    let built = root.root().unwrap();
    assert_eq!(built.numbers, vec![number("0d1"), number("0d2")]);
    assert_eq!(built.sources.len(), 1);
}

#[test]
fn source_builder_interns_identifiers_and_appends_expressions() {
    let mut source = FlatSourceBuilder::new();
    assert_eq!(source.send_identifier(name("x")), Ok(FlatIndex::Identifier(0)));
    assert_eq!(source.send_identifier(name("y")), Ok(FlatIndex::Identifier(1)));
    assert_eq!(source.send_identifier(name("x")), Ok(FlatIndex::Identifier(0)));
    let expression =
        FlatExpression::Additive(binary(None, FlatOperator::Add, FlatIndex::Identifier(0)));
    assert_eq!(source.send_expression(expression), Ok(FlatIndex::Expression(0)));
    assert_eq!(source.send_expression(expression), Ok(FlatIndex::Expression(1)));
    assert_eq!(
        source.index(FlatIndex::Number(0)),
        Err(flatten_error(
            "Error: Invalid syntax - indexes cannot be placed directly in a source block; they must be inside binary expressions."
        ))
    );
    assert!(source.operator(FlatOperator::Add).is_err());
    let built = source.source().unwrap();
    assert_eq!(built.identifiers, vec![name("x"), name("y")]);
    assert_eq!(built.expressions.len(), 2);
}

#[test]
fn binary_builder_fills_its_slots_in_order() {
    let mut infix = FlatBinaryBuilder::new();
    infix.index(FlatIndex::Number(0)).unwrap();
    infix.operator(FlatOperator::Add).unwrap();
    infix.index(FlatIndex::Number(1)).unwrap();
    assert!(infix.index(FlatIndex::Number(2)).is_err());
    assert!(infix.operator(FlatOperator::Subtract).is_err());
    assert_eq!(
        infix.binary(),
        Ok(binary(Some(FlatIndex::Number(0)), FlatOperator::Add, FlatIndex::Number(1)))
    );

    let mut prefix = FlatBinaryBuilder::new();
    prefix.operator(FlatOperator::Subtract).unwrap();
    prefix.index(FlatIndex::Number(0)).unwrap();
    assert_eq!(prefix.binary(), Ok(binary(None, FlatOperator::Subtract, FlatIndex::Number(0))));

    let mut postfix = FlatBinaryBuilder::new();
    postfix.index(FlatIndex::Number(0)).unwrap();
    postfix.index(FlatIndex::Number(1)).unwrap();
    postfix.operator(FlatOperator::Add).unwrap();
    assert_eq!(
        postfix.binary(),
        Ok(binary(Some(FlatIndex::Number(0)), FlatOperator::Add, FlatIndex::Number(1)))
    );

    assert!(FlatBinaryBuilder::new().binary().is_err());
}

#[test]
fn chain_forwards_to_the_builder_that_owns_the_pool() {
    let mut chain = FlatBuilder::new();
    chain.open_source();
    chain.open_binary();
    assert!(chain.in_binary());
    chain.take_identifier(name("x")).unwrap();
    chain.operator(FlatOperator::Constant).unwrap();
    chain.open_source();
    chain.take_identifier(name("inner")).unwrap();
    chain.take_number(number("0d1")).unwrap();
    let inner = match chain.close() {
        Some(mage_rs::FlatScope::Source(source)) => source.source().unwrap(),
        _ => panic!("the active builder is a source builder"),
    };
    assert_eq!(inner.identifiers, vec![name("inner")]);
    chain.take_source(inner).unwrap();
    let finished = match chain.close() {
        Some(mage_rs::FlatScope::Binary(binary)) => binary.binary().unwrap(),
        _ => panic!("the active builder is a binary builder"),
    };
    assert_eq!(
        finished,
        binary(Some(FlatIndex::Identifier(0)), FlatOperator::Constant, FlatIndex::Source(0))
    );
    chain.take_expression(FlatExpression::Assign(finished)).unwrap();
    let outer = match chain.close() {
        Some(mage_rs::FlatScope::Source(source)) => source.source().unwrap(),
        _ => panic!("the active builder is a source builder"),
    };
    assert_eq!(outer.identifiers, vec![name("x")]);
    assert_eq!(outer.expressions, vec![FlatExpression::Assign(finished)]);
    assert!(chain.close().is_none());
    assert!(chain.index(FlatIndex::Number(0)).is_err());
    let root = chain.root.root().unwrap();
    assert_eq!(root.numbers, vec![number("0d1")]);
    assert_eq!(root.sources.len(), 1);
}

#[test]
fn empty_parentheses_are_refused() {
    let empty = Err(Error::ValidationError(mage_rs::ValidationError::EmptyExpression));
    let bare = branch(1, "source_file", vec![branch(3, "parenthesize", vec![])]);
    assert_eq!(flatten_tree(&numbered_kinds(), &bare), empty);
    let mut open = leaf(98, "(", "(");
    open.named = false;
    let mut close = leaf(99, ")", ")");
    close.named = false;
    let punctuated = branch(1, "source_file", vec![branch(3, "parenthesize", vec![open, close])]);
    assert_eq!(flatten_tree(&numbered_kinds(), &punctuated), empty);
    let nested = branch(
        1,
        "source_file",
        vec![branch(
            10,
            "assign",
            vec![
                leaf(19, "identifier", "x"),
                leaf(35, "constant", ":"),
                branch(3, "parenthesize", vec![branch(3, "parenthesize", vec![])]),
            ],
        )],
    );
    assert_eq!(flatten_tree(&numbered_kinds(), &nested), empty);
    assert!(flatten("()").is_err());
    assert!(flatten("x : ()").is_err());
    assert!(flatten("x : (())").is_err());
}

#[test]
fn parentheses_around_an_operator_pass_it_on() {
    let tree = branch(
        1,
        "source_file",
        vec![branch(
            7,
            "additive",
            vec![
                branch(3, "parenthesize", vec![leaf(13, "decimal", "0d1")]),
                branch(3, "parenthesize", vec![leaf(25, "add", "+")]),
                branch(3, "parenthesize", vec![branch(3, "parenthesize", vec![leaf(13, "decimal", "0d2")])]),
            ],
        )],
    );
    let root = flatten_tree(&numbered_kinds(), &tree).unwrap();
    assert_eq!(
        root.sources[0].expressions,
        vec![FlatExpression::Additive(binary(
            Some(FlatIndex::Number(0)),
            FlatOperator::Add,
            FlatIndex::Number(1)
        ))]
    );
}

#[test]
fn kind_that_the_language_lacks_is_zero() {
    let language = language();
    assert_eq!(mage_rs::general::kind_id(&language, "statement_chain"), 0);
    assert_eq!(mage_rs::general::kind_id(&language, "no_such_kind"), 0);
    assert_eq!(mage_rs::general::kind_id(&language, "ERROR"), 65535);
    assert_eq!(mage_rs::general::kind_id(&language, "source\0file"), 0);
    assert_eq!(mage_rs::general::kind_id(&language, "source\0"), 0);
    assert_eq!(
        mage_rs::general::kind_id(&language, "source"),
        language.id_for_node_kind("source", true)
    );
    assert_ne!(mage_rs::general::kind_id(&language, "source"), 0);
    assert_eq!(mage_rs::general::kind_id(&language, &"x".repeat(70000)), 0);
}

#[test]
fn kinds_classify_nodes() {
    let kinds = numbered_kinds();
    assert_eq!(kinds.classify(1), mage_rs::NodeClass::Source);
    assert_eq!(kinds.classify(2), mage_rs::NodeClass::Source);
    assert_eq!(kinds.classify(3), mage_rs::NodeClass::Parenthesize);
    assert_eq!(kinds.classify(5), mage_rs::NodeClass::Binary(mage_rs::FlatForm::Call));
    assert_eq!(kinds.classify(10), mage_rs::NodeClass::Binary(mage_rs::FlatForm::Assign));
    assert_eq!(kinds.classify(14), mage_rs::NodeClass::Number);
    assert_eq!(kinds.classify(15), mage_rs::NodeClass::String);
    assert_eq!(kinds.classify(17), mage_rs::NodeClass::Unknown);
    assert_eq!(kinds.classify(18), mage_rs::NodeClass::Unknown);
    assert_eq!(kinds.classify(19), mage_rs::NodeClass::Identifier);
    assert_eq!(kinds.classify(21), mage_rs::NodeClass::Operator(FlatOperator::Pipe));
    assert_eq!(kinds.classify(36), mage_rs::NodeClass::Operator(FlatOperator::Variable));
    assert_eq!(kinds.classify(0), mage_rs::NodeClass::Unknown);
    assert_eq!(kinds.classify(65535), mage_rs::NodeClass::Unknown);
    let mut shared = kinds;
    shared.add = shared.source;
    shared.identifier = shared.member;
    assert_eq!(shared.classify(2), mage_rs::NodeClass::Source);
    assert_eq!(shared.classify(4), mage_rs::NodeClass::Binary(mage_rs::FlatForm::Member));
}

#[test]
fn tokens_are_compared_byte_for_byte() {
    let root = flatten("x : X; Total = total; a : 'q'; b : \"q\"; c : 0xff; d : 0xFF; e : 0Xff").unwrap();
    assert_eq!(
        root.sources[0].identifiers,
        vec![
            name("x"),
            name("X"),
            name("Total"),
            name("total"),
            name("a"),
            name("b"),
            name("c"),
            name("d"),
            name("e")
        ]
    );
    assert_eq!(
        root.strings,
        vec![FlatString("'q'".to_string()), FlatString("\"q\"".to_string())]
    );
    assert_eq!(root.numbers, vec![number("0xff"), number("0xFF"), number("0Xff")]);
}

#[test]
fn bracketed_subexpression_flows_through() {
    let mut open = leaf(98, "[", "[");
    open.named = false;
    let mut close = leaf(99, "]", "]");
    close.named = false;
    let mut semicolon = leaf(97, ";", ";");
    semicolon.named = false;
    let inner = SyntaxNode {
        kind_id: 7,
        kind: "additive".to_string(),
        named: true,
        text: "0d10 - 0d5".to_string(),
        children: vec![leaf(13, "decimal", "0d10"), leaf(26, "subtract", "-"), leaf(13, "decimal", "0d5")],
    };
    let brackets = SyntaxNode {
        kind_id: 3,
        kind: "parenthesize".to_string(),
        named: true,
        text: "[0d10 - 0d5]".to_string(),
        children: vec![open, inner, close],
    };
    let outer = SyntaxNode {
        kind_id: 7,
        kind: "additive".to_string(),
        named: true,
        text: "0d10 - [0d10 - 0d5]".to_string(),
        children: vec![leaf(13, "decimal", "0d10"), leaf(26, "subtract", "-"), brackets],
    };
    let assign = SyntaxNode {
        kind_id: 10,
        kind: "assign".to_string(),
        named: true,
        text: "x : 0d10 - [0d10 - 0d5]".to_string(),
        children: vec![leaf(19, "identifier", "x"), leaf(35, "constant", ":"), outer],
    };
    let tree = SyntaxNode {
        kind_id: 1,
        kind: "source_file".to_string(),
        named: true,
        text: "x : 0d10 - [0d10 - 0d5];".to_string(),
        children: vec![assign, semicolon],
    };
    let root = flatten_tree(&numbered_kinds(), &tree).unwrap();
    assert_eq!(root, flatten("x : 0d10 - (0d10 - 0d5);").unwrap());
    assert_eq!(root.sources[0].expressions.len(), 3);
    assert_eq!(root.numbers, vec![number("0d10"), number("0d5")]);
}

#[test]
fn refused_offer_leaves_the_chain_as_it_was() {
    let mut chain = FlatBuilder::new();
    assert!(chain.operator(FlatOperator::Add).is_err());
    assert!(chain.take_identifier(name("x")).is_err());
    assert!(chain
        .send_expression(FlatExpression::Additive(binary(None, FlatOperator::Add, FlatIndex::Number(0))))
        .is_err());
    chain.open_source();
    assert!(chain.operator(FlatOperator::Add).is_err());
    assert!(chain.index(FlatIndex::Number(0)).is_err());
    chain.take_identifier(name("x")).unwrap();
    chain.open_binary();
    chain.take_number(number("0d1")).unwrap();
    chain.operator(FlatOperator::Add).unwrap();
    assert!(chain.operator(FlatOperator::Subtract).is_err());
    chain.take_number(number("0d2")).unwrap();
    assert!(chain.index(FlatIndex::Number(0)).is_err());
    let finished = match chain.close() {
        Some(mage_rs::FlatScope::Binary(builder)) => builder.binary().unwrap(),
        _ => panic!("the active builder is a binary builder"),
    };
    assert_eq!(
        finished,
        binary(Some(FlatIndex::Number(0)), FlatOperator::Add, FlatIndex::Number(1))
    );
    let source = match chain.close() {
        Some(mage_rs::FlatScope::Source(builder)) => builder.source().unwrap(),
        _ => panic!("the active builder is a source builder"),
    };
    assert_eq!(source.identifiers, vec![name("x")]);
    assert!(source.expressions.is_empty());
    let root = chain.root.root().unwrap();
    assert_eq!(root.numbers, vec![number("0d1"), number("0d2")]);
    assert!(root.sources.is_empty());
}

#[test]
fn prefix_minus_of_an_identifier() {
    let root = flatten("-a").unwrap();
    assert_eq!(
        root.sources[0].expressions,
        vec![FlatExpression::Additive(binary(
            None,
            FlatOperator::Subtract,
            FlatIndex::Identifier(0)
        ))]
    );
    assert_eq!(root.sources[0].identifiers, vec![name("a")]);
    let member = flatten("a.b").unwrap();
    assert_eq!(
        member.sources[0].expressions,
        vec![FlatExpression::Member(binary(
            Some(FlatIndex::Identifier(0)),
            FlatOperator::Extract,
            FlatIndex::Identifier(1)
        ))]
    );
}

#[test]
fn unknown_node_leaves_the_builder_as_it_was() {
    let kinds = numbered_kinds();
    let mut chain = FlatBuilder::new();
    assert_eq!(
        mage_rs::flatten_node(&mut chain, &kinds, &leaf(99, "comment", "# text")),
        Err(flatten_error("Error: Cannot process node of unknown type comment."))
    );
    assert!(chain.scopes.is_empty());
    chain.open_source();
    chain.take_identifier(name("x")).unwrap();
    chain.open_binary();
    chain.take_number(number("0d1")).unwrap();
    assert!(mage_rs::flatten_node(&mut chain, &kinds, &leaf(17, "escape", "\\n")).is_err());
    assert!(mage_rs::flatten_node(&mut chain, &kinds, &leaf(65535, "ERROR", "?")).is_err());
    assert_eq!(chain.scopes.len(), 2);
    match chain.close() {
        Some(mage_rs::FlatScope::Binary(builder)) => {
            assert_eq!(builder.one, Some(FlatIndex::Number(0)));
            assert_eq!(builder.two, None);
            assert_eq!(builder.operator, None);
        }
        _ => panic!("the active builder is a binary builder"),
    }
    match chain.close() {
        Some(mage_rs::FlatScope::Source(builder)) => {
            assert_eq!(builder.identifiers, vec![name("x")]);
            assert!(builder.expressions.is_empty());
        }
        _ => panic!("the active builder is a source builder"),
    }
    let root = chain.root.root().unwrap();
    assert_eq!(root.numbers, vec![number("0d1")]);
    assert!(root.sources.is_empty() && root.strings.is_empty());
}

#[test]
fn fault_leaves_what_was_done_before_it() {
    let kinds = numbered_kinds();
    let mut chain = FlatBuilder::new();
    chain.open_source();
    let nodes = vec![
        leaf(13, "decimal", "0d1"),
        branch(7, "additive", vec![leaf(19, "identifier", "a"), leaf(99, "mystery", "?")]),
        leaf(13, "decimal", "0d2"),
    ];
    assert_eq!(
        mage_rs::flatten_children(&mut chain, &kinds, &nodes),
        Err(flatten_error("Error: Cannot process node of unknown type mystery."))
    );
    assert_eq!(chain.scopes.len(), 2);
    match chain.close() {
        Some(mage_rs::FlatScope::Binary(builder)) => {
            assert_eq!(builder.one, Some(FlatIndex::Identifier(0)));
            assert_eq!(builder.two, None);
        }
        _ => panic!("the binary builder of the form that faulted is still open"),
    }
    match chain.close() {
        Some(mage_rs::FlatScope::Source(builder)) => {
            assert_eq!(builder.identifiers, vec![name("a")])
        }
        _ => panic!("the source builder is still open"),
    }
    assert_eq!(chain.root.root().unwrap().numbers, vec![number("0d1")]);
}

#[test]
fn statements_stand_in_the_order_of_the_text() {
    let root = flatten("a : 0d1 + 0d2; b = a * (a - 0d3); c : a; d == b && c; e => a . b").unwrap();
    assert_eq!(root.sources.len(), 1);
    let expressions = &root.sources[0].expressions;
    assert_eq!(expressions.len(), 10);
    let places = [1, 4, 5, 7, 9];
    for place in places {
        assert!(matches!(
            expressions[place],
            FlatExpression::Assign(_) | FlatExpression::Logical(_) | FlatExpression::Call(_)
        ));
    }
    assert!(matches!(expressions[1], FlatExpression::Assign(_)));
    assert!(matches!(expressions[4], FlatExpression::Assign(_)));
    assert!(matches!(expressions[5], FlatExpression::Assign(_)));
    assert!(matches!(expressions[7], FlatExpression::Logical(_)));
    assert!(matches!(expressions[9], FlatExpression::Call(_)));
    assert_eq!(
        expressions[4].binary(),
        binary(Some(FlatIndex::Identifier(1)), FlatOperator::Variable, FlatIndex::Expression(3))
    );
}
