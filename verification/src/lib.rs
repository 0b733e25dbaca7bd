//! Decoding of chat-log entries kept by a game client: the rich-text
//! structure grammar, the split of a raw entry into its fields, and the
//! decisions of the poller that follows the client's circular log.

pub mod act;
pub mod alert;
pub mod database;
pub mod filter;
pub mod messages;
pub mod numbers;
pub mod scanner;
