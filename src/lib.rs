//! Chat-command interpretation for a group-chat bot: a tokenizer, a registry of
//! command aliases, a resolver that turns tokens into a validated command, and the
//! decisions of the per-message processor chain.

pub mod common;
pub mod basic;
pub mod util;
pub mod telegram;
pub mod services;
