pub mod command;
pub mod lexer;
