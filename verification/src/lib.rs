//! Two interpreters for one small scripting language: a tree walker, which
//! resolves and runs a syntax tree, and a single-pass compiler with a stack
//! machine for its bytecode. Both start from the same scanner.
//!
//! Numbers are binary64 values, which are compared and negated here by
//! their bits; arithmetic on them, reading a numeral, the clock and writing
//! a number are asked of the host that drives an interpreter step by step.
pub mod ast_parser;
pub mod ast_printer;
pub mod chunk;
pub mod compiler;
pub mod debug;
pub mod emission;
pub mod environment;
pub mod error;
pub mod expr;
pub mod interpreter;
pub mod layout;
pub mod lox_function;
pub mod number;
pub mod numbering;
pub mod object;
pub mod parser;
pub mod reparse;
pub mod resolution;
pub mod resolver;
pub mod round_trip;
pub mod scanner;
pub mod scoping;
pub mod soundness;
pub mod source_form;
pub mod stmt;
pub mod table;
pub mod text;
pub mod tidy;
pub mod token;
pub mod value;
pub mod vm;
