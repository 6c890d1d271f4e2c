pub mod analyzer;
pub mod dump;
pub mod ast;
pub mod error;
pub mod tab;
