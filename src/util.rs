pub mod command_parser;
