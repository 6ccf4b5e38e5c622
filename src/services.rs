pub mod commands;
pub mod lexer;
pub mod text_helper;
