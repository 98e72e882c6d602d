//! Turn parsing for a chat transcript kept in one plain-text file.
pub mod driver;
pub mod laws;
pub mod log;
pub mod message;
pub mod parser;
pub mod resolver;
pub mod text;
