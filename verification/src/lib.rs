//! A small compiler front end: a table-driven tokenizer, a recursive-descent
//! parser producing a syntax tree, and two consumers of that tree, a
//! transpiler that emits C++ text and a tree-walking interpreter.

pub mod tokenizer;
pub mod parser;
pub mod evaluator;
pub mod text;
