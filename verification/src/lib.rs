//! Semantic analysis for a hardware-description language.
//!
//! Source files declare `module`, `component` and `interface` blocks that
//! instantiate each other, inherit from each other and wire ports and pins
//! together. The library reads their text into statements, and evaluates
//! the statements of all registered files into one flat, typed instance
//! graph with diagnostics.
//!
//! What the executable code does is stated in contracts over mathematical
//! models of the data (texts, sequences, association lists), and proved.
//! The library never touches the file system: the host tells it what
//! exists on disk.

pub mod analyzer;
pub mod assoc;
pub mod ast;
pub mod cloning;
pub mod connect;
pub mod definition;
pub mod designators;
pub mod diagnostics;
pub mod error;
pub mod evaluator;
pub mod fidelity;
pub mod inheritance;
pub mod instance;
pub mod invariants;
pub mod lexer;
pub mod location;
pub mod order;
pub mod parser;
pub mod resolver;
pub mod scope;
pub mod source;
pub mod span;
pub mod store;
pub mod syntax;
pub mod text;
pub mod unused;
