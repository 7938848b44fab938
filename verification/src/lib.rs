//! Front end and value model of a small, deliberately odd scripting language.
//!
//! The parser turns a stream of lexical tokens into statement and expression
//! trees; the value model defines the tagged values those trees evaluate to,
//! the tri-state boolean, the callable type, and bindings that may share one
//! piece of storage.

pub mod ast;
pub mod base_55;
pub mod cloning;
pub mod consts;
pub mod equality;
pub mod error;
pub mod grammar;
pub mod laws;
pub mod parser;
pub mod spans;
pub mod text;
pub mod token;
pub mod variables;
