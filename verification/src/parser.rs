pub mod declarations;
pub mod error;
pub mod expressions;
pub mod grammar;
pub mod parser;
pub mod statements;
pub mod parse_tree;
pub mod tree_printer;
