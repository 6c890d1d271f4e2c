pub mod dfa;
pub mod lexer;
pub mod token_types;
