//! A compiler front end for Pascal-S: a DFA-driven lexer, a recursive
//! descent parser producing a concrete syntax tree, a builder of the
//! abstract syntax tree, and a semantic analyzer over a Pascal-S style
//! symbol table.
pub mod text;
pub mod lexer;
pub mod parser;
pub mod semantic_analyzer;
