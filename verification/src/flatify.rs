//! A first reading of a tree of statement chains: for each statement, the
//! name and the operation of its definition and the number of its
//! expression, as texts.

use crate::general::Error;
use crate::syntax::{lemma_node_view, same_text, tree_views, SyntaxNode, SyntaxTree};
use vstd::prelude::*;

verus! {

/// Whether a definition binds a constant or a variable.
#[derive(Debug, PartialEq, Eq, Clone, Copy, Structural)]
pub enum FlatDefinitionOperation {
    Constant,
    Variable,
}

/// The name that a statement defines, and how.
#[derive(Debug, PartialEq, Eq, Clone)]
pub struct FlatDefinition {
    pub name: String,
    pub operation: FlatDefinitionOperation,
}

/// The expression of a statement: the text of its number.
#[derive(Debug, PartialEq, Eq, Clone)]
pub struct FlatExpression {
    pub content: String,
}

/// A statement: its definition and its expression, as far as it has them.
#[derive(Debug, PartialEq, Eq, Clone)]
pub struct FlatStatement {
    pub definition: Option<FlatDefinition>,
    pub expression: Option<FlatExpression>,
}

/// The statements of one chain, in order.
#[derive(Debug, PartialEq, Eq, Clone)]
pub struct FlatStatementChain {
    pub statements: Vec<FlatStatement>,
}

/// The statement chains of a tree, in order.
#[derive(Debug, PartialEq, Eq, Clone)]
pub struct FlatRoot {
    pub statement_chains: Vec<FlatStatementChain>,
}

/// What a definition is, as mathematics.
pub struct FlatDefinitionView {
    pub name: Seq<char>,
    pub operation: FlatDefinitionOperation,
}

/// What a statement is, as mathematics.
pub struct FlatStatementView {
    pub definition: Option<FlatDefinitionView>,
    pub expression: Option<Seq<char>>,
}

impl View for FlatDefinition {
    type V = FlatDefinitionView;

    open spec fn view(&self) -> FlatDefinitionView {
        FlatDefinitionView { name: self.name@, operation: self.operation }
    }
}

impl View for FlatExpression {
    type V = Seq<char>;

    open spec fn view(&self) -> Seq<char> {
        self.content@
    }
}

impl View for FlatStatement {
    type V = FlatStatementView;

    open spec fn view(&self) -> FlatStatementView {
        FlatStatementView {
            definition: match self.definition {
                Some(definition) => Some(definition@),
                None => None,
            },
            expression: match self.expression {
                Some(expression) => Some(expression@),
                None => None,
            },
        }
    }
}

impl View for FlatStatementChain {
    type V = Seq<FlatStatementView>;

    open spec fn view(&self) -> Seq<FlatStatementView> {
        Seq::new(self.statements@.len(), |i: int| self.statements@[i]@)
    }
}

impl View for FlatRoot {
    type V = Seq<Seq<FlatStatementView>>;

    open spec fn view(&self) -> Seq<Seq<FlatStatementView>> {
        Seq::new(self.statement_chains@.len(), |i: int| self.statement_chains@[i]@)
    }
}

/// The definition that the children of a definition node give, starting
/// from `start`: the text of each identifier chain becomes the name, and
/// each operation `:` makes it a constant, each `=` a variable. What comes
/// later wins.
pub open spec fn definition_among(nodes: Seq<SyntaxTree>, start: FlatDefinitionView)
    -> FlatDefinitionView
    decreases nodes.len(),
{
    if nodes.len() == 0 {
        start
    } else {
        let before = definition_among(nodes.drop_last(), start);
        let node = nodes.last();
        if node.kind == "identifier_chain"@ {
            FlatDefinitionView { name: node.text, ..before }
        } else if node.kind == "definition_operation"@ {
            if node.text == ":"@ {
                FlatDefinitionView { operation: FlatDefinitionOperation::Constant, ..before }
            } else if node.text == "="@ {
                FlatDefinitionView { operation: FlatDefinitionOperation::Variable, ..before }
            } else {
                before
            }
        } else {
            before
        }
    }
}

/// The definition of a definition node: a constant without a name, unless
/// its children say otherwise.
pub open spec fn definition_of(node: SyntaxTree) -> FlatDefinitionView {
    definition_among(
        node.children,
        FlatDefinitionView { name: Seq::empty(), operation: FlatDefinitionOperation::Constant },
    )
}

/// The content that the children of an expression node give, starting from
/// `start`: the text of the last number among them.
pub open spec fn content_among(nodes: Seq<SyntaxTree>, start: Seq<char>) -> Seq<char>
    decreases nodes.len(),
{
    if nodes.len() == 0 {
        start
    } else if nodes.last().kind == "number"@ {
        nodes.last().text
    } else {
        content_among(nodes.drop_last(), start)
    }
}

/// The statement that the children of a statement node give, starting from
/// `start`: the last definition and the last expression among them.
pub open spec fn statement_among(nodes: Seq<SyntaxTree>, start: FlatStatementView)
    -> FlatStatementView
    decreases nodes.len(),
{
    if nodes.len() == 0 {
        start
    } else {
        let before = statement_among(nodes.drop_last(), start);
        let node = nodes.last();
        if node.kind == "definition"@ {
            FlatStatementView { definition: Some(definition_of(node)), ..before }
        } else if node.kind == "expression"@ {
            FlatStatementView {
                expression: Some(content_among(node.children, Seq::empty())),
                ..before
            }
        } else {
            before
        }
    }
}

/// The statement of a statement node.
pub open spec fn statement_of(node: SyntaxTree) -> FlatStatementView {
    statement_among(node.children, FlatStatementView { definition: None, expression: None })
}

/// The statements among the children of a chain node, in order.
pub open spec fn statements_among(nodes: Seq<SyntaxTree>) -> Seq<FlatStatementView>
    decreases nodes.len(),
{
    if nodes.len() == 0 {
        Seq::empty()
    } else if nodes.last().kind == "statement"@ {
        statements_among(nodes.drop_last()).push(statement_of(nodes.last()))
    } else {
        statements_among(nodes.drop_last())
    }
}

/// The statement chains among the children of a source, in order.
pub open spec fn chains_among(nodes: Seq<SyntaxTree>) -> Seq<Seq<FlatStatementView>>
    decreases nodes.len(),
{
    if nodes.len() == 0 {
        Seq::empty()
    } else if nodes.last().kind == "statement_chain"@ {
        chains_among(nodes.drop_last()).push(statements_among(nodes.last().children))
    } else {
        chains_among(nodes.drop_last())
    }
}

/// The statement chains of a tree: those of a source file or of a source,
/// and none of any other node.
pub open spec fn root_of(node: SyntaxTree) -> Seq<Seq<FlatStatementView>> {
    if node.kind == "source_file"@ || node.kind == "source"@ {
        chains_among(node.children)
    } else {
        Seq::empty()
    }
}

impl FlatRoot {
    /// Appends a statement chain.
    pub fn push_statement_chain(&mut self, statement_chain: FlatStatementChain)
        ensures
            final(self)@ == old(self)@.push(statement_chain@),
    {
        self.statement_chains.push(statement_chain);
        assert(self@ =~= old(self)@.push(statement_chain@));
    }
}

impl FlatStatementChain {
    /// Appends a statement.
    pub fn push_statement(&mut self, statement: FlatStatement)
        ensures
            final(self)@ == old(self)@.push(statement@),
    {
        self.statements.push(statement);
        assert(self@ =~= old(self)@.push(statement@));
    }
}

/// Reads the definition of a definition node.
fn flatify_definition(node: &SyntaxNode) -> (definition: FlatDefinition)
    ensures
        definition@ == definition_of(node@),
{
    proof {
        lemma_node_view(node);
    }
    let mut definition = FlatDefinition {
        name: String::new(),
        operation: FlatDefinitionOperation::Constant,
    };
    let ghost start = definition@;
    let ghost trees = node@.children;
    let mut i: usize = 0;
    while i < node.children.len()
        invariant
            i <= node.children.len(),
            trees == tree_views(node.children@),
            definition@ == definition_among(trees.take(i as int), start),
        decreases node.children.len() - i,
    {
        let child = &node.children[i];
        proof {
            lemma_node_view(child);
            assert(trees.take(i + 1).drop_last() =~= trees.take(i as int));
            assert(trees.take(i + 1).last() == child@);
        }
        if child.is_kind("identifier_chain") {
            definition.name = child.text.clone();
        } else if child.is_kind("definition_operation") {
            proof {
                reveal_strlit(":");
                reveal_strlit("=");
                assert(":"@[0] != "="@[0]);
            }
            if same_text(child.text.as_str(), ":") {
                definition.operation = FlatDefinitionOperation::Constant;
            }
            if same_text(child.text.as_str(), "=") {
                definition.operation = FlatDefinitionOperation::Variable;
            }
        }
        i += 1;
    }
    assert(trees.take(i as int) =~= trees);
    definition
}

/// Reads the expression of an expression node.
fn flatify_expression(node: &SyntaxNode) -> (expression: FlatExpression)
    ensures
        expression@ == content_among(node@.children, Seq::empty()),
{
    proof {
        lemma_node_view(node);
    }
    let mut expression = FlatExpression { content: String::new() };
    let ghost trees = node@.children;
    let mut i: usize = 0;
    while i < node.children.len()
        invariant
            i <= node.children.len(),
            trees == tree_views(node.children@),
            expression@ == content_among(trees.take(i as int), Seq::empty()),
        decreases node.children.len() - i,
    {
        let child = &node.children[i];
        proof {
            lemma_node_view(child);
            assert(trees.take(i + 1).drop_last() =~= trees.take(i as int));
            assert(trees.take(i + 1).last() == child@);
        }
        if child.is_kind("number") {
            expression.content = child.text.clone();
        }
        i += 1;
    }
    assert(trees.take(i as int) =~= trees);
    expression
}

/// Reads a statement node and appends the statement to a chain.
pub fn flatify_statement(node: &SyntaxNode, statement_chain: &mut FlatStatementChain) -> (result:
    Result<(), Error>)
    ensures
        result is Ok,
        final(statement_chain)@ == old(statement_chain)@.push(statement_of(node@)),
{
    proof {
        lemma_node_view(node);
    }
    let mut main_statement = FlatStatement { definition: None, expression: None };
    let ghost start = main_statement@;
    let ghost trees = node@.children;
    let mut i: usize = 0;
    while i < node.children.len()
        invariant
            i <= node.children.len(),
            trees == tree_views(node.children@),
            main_statement@ == statement_among(trees.take(i as int), start),
        decreases node.children.len() - i,
    {
        let child = &node.children[i];
        proof {
            lemma_node_view(child);
            assert(trees.take(i + 1).drop_last() =~= trees.take(i as int));
            assert(trees.take(i + 1).last() == child@);
        }
        if child.is_kind("definition") {
            main_statement.definition = Some(flatify_definition(child));
        } else if child.is_kind("expression") {
            main_statement.expression = Some(flatify_expression(child));
        }
        i += 1;
    }
    assert(trees.take(i as int) =~= trees);
    statement_chain.push_statement(main_statement);
    Ok(())
}

/// Reads a chain node and appends the chain to a root.
pub fn flatify_statement_chain(node: &SyntaxNode, root: &mut FlatRoot) -> (result: Result<
    (),
    Error,
>)
    ensures
        result is Ok,
        final(root)@ == old(root)@.push(statements_among(node@.children)),
{
    proof {
        lemma_node_view(node);
    }
    let mut statement_chain = FlatStatementChain { statements: Vec::new() };
    assert(statement_chain@ =~= Seq::empty());
    let ghost trees = node@.children;
    let mut i: usize = 0;
    while i < node.children.len()
        invariant
            i <= node.children.len(),
            trees == tree_views(node.children@),
            statement_chain@ == statements_among(trees.take(i as int)),
        decreases node.children.len() - i,
    {
        let child = &node.children[i];
        proof {
            lemma_node_view(child);
            assert(trees.take(i + 1).drop_last() =~= trees.take(i as int));
            assert(trees.take(i + 1).last() == child@);
        }
        if child.is_kind("statement") {
            match flatify_statement(child, &mut statement_chain) {
                Ok(()) => {},
                Err(error) => {
                    return Err(error);
                },
            }
        }
        i += 1;
    }
    assert(trees.take(i as int) =~= trees);
    root.push_statement_chain(statement_chain);
    Ok(())
}

/// Reads the statement chains of a node. It never fails.
pub fn flatify_node(node: &SyntaxNode) -> (result: Result<FlatRoot, Error>)
    ensures
        result matches Ok(root) && root@ == root_of(node@),
{
    proof {
        lemma_node_view(node);
    }
    let mut root = FlatRoot { statement_chains: Vec::new() };
    assert(root@ =~= Seq::empty());
    if node.is_kind("source_file") || node.is_kind("source") {
        let ghost trees = node@.children;
        let mut i: usize = 0;
        while i < node.children.len()
            invariant
                i <= node.children.len(),
                trees == tree_views(node.children@),
                root@ == chains_among(trees.take(i as int)),
            decreases node.children.len() - i,
        {
            let child = &node.children[i];
            proof {
                lemma_node_view(child);
                assert(trees.take(i + 1).drop_last() =~= trees.take(i as int));
                assert(trees.take(i + 1).last() == child@);
            }
            if child.is_kind("statement_chain") {
                match flatify_statement_chain(child, &mut root) {
                    Ok(()) => {},
                    Err(error) => {
                        return Err(error);
                    },
                }
            }
            i += 1;
        }
        assert(trees.take(i as int) =~= trees);
    }
    Ok(root)
}

/// Reads the statement chains of a tree. It never fails.
pub fn flatify_tree(tree: &SyntaxNode) -> (result: Result<FlatRoot, Error>)
    ensures
        result matches Ok(root) && root@ == root_of(tree@),
{
    flatify_node(tree)
}

} // verus!
