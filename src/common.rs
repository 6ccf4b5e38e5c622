pub mod command_parser;
pub mod error;
pub mod lexer;
pub mod message_service;
pub mod request;
pub mod response;
pub mod db;
pub mod user_service;
pub mod command_service;
pub mod answer_entity_service;
pub mod callback_service;
