//! What the command line selects.

use vstd::prelude::*;

verus! {

/// How a result is reported.
#[derive(Debug, PartialEq, Eq, Clone, Copy, Structural)]
pub enum Output {
    /// A structured text dump.
    Text,
    /// A JSON document.
    Json,
}

/// Where processing stops.
#[derive(Debug, PartialEq, Eq, Clone, Copy, Structural)]
pub enum Stage {
    /// After the flat representation is built.
    Flatten,
    /// After code is generated and run.
    Compile,
}

/// The `run` operation: the file to process, or none for standard input,
/// and the stage to stop after.
#[derive(Debug, PartialEq, Eq, Clone)]
pub struct Run {
    pub path: Option<String>,
    pub stage: Stage,
}

/// The three top-level operations.
#[derive(Debug, PartialEq, Eq, Clone)]
pub enum Command {
    /// Parse and process a file or the lines of standard input.
    Run(Run),
    /// Reserved.
    Environment,
    /// Serve the language-server protocol over standard input and output.
    LanguageServer,
}

/// A parsed command line.
#[derive(Debug, PartialEq, Eq, Clone)]
pub struct Cli {
    pub command: Command,
    pub output: Output,
}

} // verus!
