//! A small-language front end and evaluator: a pull lexer built on an explicit
//! finite-state machine, a recursive-descent parser with a precedence-climbing
//! expression sub-parser, semantic lowering into a shaped tree, a type checker
//! that accumulates all errors, a constant folder, and a tree-walking
//! interpreter. Every stage is specified against a mathematical model of its
//! input and output and verified.
#![allow(non_camel_case_types)]

pub mod token;
pub mod interpreter;
pub mod lexer;
pub mod mtree;
pub mod parser;
pub mod pratt_parser;
pub mod semantic;
