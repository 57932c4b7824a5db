//! Tools that stand beside the parser.

pub mod generate_structs;
