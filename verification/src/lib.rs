//! The front end of a small expression language: a scanner that cuts a source
//! text into tokens, a recursive-descent parser that builds an expression
//! tree from them, and two printers that show the shape of a tree.
//!
//! `lexical` and `grammar` say what a scan and a parse are; `lexer` and
//! `parser` compute them. `patterns` is a first cut of a source by regular
//! expressions, and `tools` a generator of syntax tree definitions.

pub mod ast;
pub mod ast_printer;
pub mod grammar;
pub mod lexer;
pub mod lexical;
pub mod numeral;
pub mod parser;
pub mod patterns;
pub mod rpn_ast_printer;
pub mod text;
pub mod tools;
