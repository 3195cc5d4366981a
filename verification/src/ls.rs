//! What the language server offers, as plain values: the server's name, the
//! documents that it registers for, and its capabilities.

use vstd::prelude::*;

verus! {

/// The name that the server goes by.
pub const SERVER_NAME: &'static str = "mage";

/// The language identifier of the documents that the server registers for.
pub const LANGUAGE_ID: &'static str = "mage";

/// The scheme of the documents that the server registers for.
pub const SCHEME: &'static str = "file";

/// A type of semantic token that the server reports.
#[derive(Debug, PartialEq, Eq, Clone, Copy, Structural)]
pub enum TokenType {
    Variable,
    String,
    Number,
    Operator,
    Function,
}

impl TokenType {
    /// The standard name of the token type.
    pub open spec fn spec_name(self) -> Seq<char> {
        match self {
            TokenType::Variable => "variable"@,
            TokenType::String => "string"@,
            TokenType::Number => "number"@,
            TokenType::Operator => "operator"@,
            TokenType::Function => "function"@,
        }
    }

    /// The standard name of the token type.
    pub fn name(self) -> (name: &'static str)
        ensures
            name@ == self.spec_name(),
    {
        match self {
            TokenType::Variable => "variable",
            TokenType::String => "string",
            TokenType::Number => "number",
            TokenType::Operator => "operator",
            TokenType::Function => "function",
        }
    }
}

/// How the server wants to learn of changes to a document.
#[derive(Debug, PartialEq, Eq, Clone, Copy, Structural)]
pub enum TextSync {
    /// The whole text after each change.
    Full,
    /// Only what has changed.
    Incremental,
}

/// The capabilities of the server.
#[derive(Debug, PartialEq, Eq, Clone)]
pub struct Capabilities {
    /// How documents are synchronised.
    pub text_sync: TextSync,
    /// Whether completion is offered.
    pub completion: bool,
    /// Whether completion items are resolved in a second step.
    pub completion_resolves: bool,
    /// Whether workspace folders are supported.
    pub workspace_folders: bool,
    /// Whether changes of workspace folders are to be notified.
    pub workspace_folder_changes: bool,
    /// Whether goto-definition is offered.
    pub definition: bool,
    /// Whether find-references is offered.
    pub references: bool,
    /// Whether semantic tokens are offered for a whole document.
    pub semantic_tokens_full: bool,
    /// Whether semantic tokens are offered for a range of a document.
    pub semantic_tokens_range: bool,
    /// The legend of the semantic tokens: their types, in order. There are
    /// no modifiers.
    pub token_types: Vec<TokenType>,
}

/// The legend of the semantic tokens.
pub open spec fn token_legend() -> Seq<TokenType> {
    seq![
        TokenType::Variable,
        TokenType::String,
        TokenType::Number,
        TokenType::Operator,
        TokenType::Function,
    ]
}

/// What the server offers: incremental synchronisation, completion without
/// a resolving step, goto-definition, references, workspace folders with
/// change notifications, and semantic tokens for a whole document and for a
/// range, with the legend of five token types.
pub fn capabilities() -> (offered: Capabilities)
    ensures
        offered.text_sync == TextSync::Incremental,
        offered.completion && !offered.completion_resolves,
        offered.workspace_folders && offered.workspace_folder_changes,
        offered.definition && offered.references,
        offered.semantic_tokens_full && offered.semantic_tokens_range,
        offered.token_types@ == token_legend(),
{
    let mut token_types = Vec::new();
    token_types.push(TokenType::Variable);
    token_types.push(TokenType::String);
    token_types.push(TokenType::Number);
    token_types.push(TokenType::Operator);
    token_types.push(TokenType::Function);
    assert(token_types@ =~= token_legend());
    Capabilities {
        text_sync: TextSync::Incremental,
        completion: true,
        completion_resolves: false,
        workspace_folders: true,
        workspace_folder_changes: true,
        definition: true,
        references: true,
        semantic_tokens_full: true,
        semantic_tokens_range: true,
        token_types,
    }
}

} // verus!
