pub mod ast;
pub mod ast_builder;
pub mod ast_printer;
