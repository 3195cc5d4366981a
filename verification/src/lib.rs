//! A small ahead-of-execution compiler for the Mage expression language.
//!
//! A syntax tree is flattened into a linear, index-addressed representation:
//! nested binary expressions become a flat list of expressions that refer to
//! each other and to interned pools of literals and identifiers by index.
//! The representation is then handed to a code generator for x86-64, whose
//! code the host runs on a stack of its own through a register-swap
//! trampoline.
//!
//! - [`syntax`] holds the tree that every stage reads.
//! - [`flat`] holds the flat representation, [`builder`] the builders that
//!   fill it, and [`flatten`] the walk that drives them.
//! - [`well_formedness`], [`interning`], [`parentheses`] and [`operands`]
//!   state and prove what holds of every flattening.
//! - [`number`] decodes number tokens; [`jit`] generates code; [`execute`]
//!   lays out what the host prepares for a run.
//! - [`validate`], [`flatify`] and [`virtual_machine`] read trees of
//!   statement chains; [`reading`] and [`ast_view`] say what the machine reads.
//! - [`cli`] and [`ls`] hold what the command line and the language server
//!   decide.

pub mod ast_view;
pub mod builder;
pub mod cli;
pub mod execute;
pub mod flat;
pub mod flatify;
pub mod flatten;
pub mod general;
pub mod interning;
pub mod jit;
pub mod ls;
pub mod number;
pub mod operands;
pub mod parentheses;
pub mod reading;
pub mod syntax;
pub mod validate;
pub mod virtual_machine;
pub mod well_formedness;

pub use builder::{
    FlatBinaryBuilder, FlatBuilder, FlatFault, FlatRootBuilder, FlatScope, FlatSourceBuilder,
};
pub use cli::{Cli, Command, Output, Run, Stage};
pub use execute::{Interface, InterfaceType};
pub use flat::{
    FlatBinary, FlatExpression, FlatIdentifier, FlatIndex, FlatNumber, FlatOperator, FlatRoot,
    FlatSource, FlatString,
};
pub use flatify::{
    flatify_node, flatify_tree, FlatDefinition, FlatDefinitionOperation, FlatStatement,
    FlatStatementChain,
};
pub use flatten::{flatten_children, flatten_node, flatten_tree};
pub use general::{process_tree, Error, FlatForm, NodeClass, NodeKinds, ValidationError};
pub use jit::{compile_root, Bytecode};
pub use number::{
    decode_number, validate_binary_number, validate_decimal_number, validate_hex_number,
    validate_octal_number,
};
pub use syntax::SyntaxNode;
pub use validate::{
    validate_arithmetic_operator, validate_identifier_as_number, validate_tree, NodeKindIDs,
};
pub use virtual_machine::{
    ASTCall, ASTDefinition, ASTDefinitionOperation, ASTExpression, ASTIdentifier,
    ASTIdentifierChain, ASTMath, ASTMathOperation, ASTMathSection, ASTMathVariable, ASTName,
    ASTNode, ASTNumber, ASTSource, ASTSourceFile, ASTStatement, ASTStatementChain, ASTString,
    JITCompiler, MageError, VM,
};
