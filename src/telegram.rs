pub mod handler;
pub mod request;
pub mod user_service;
