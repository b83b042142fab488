//! A chat bot core: protocol frame parsing, privilege rules, a command
//! registry, and the decisions of the session driver.
pub mod commands;
pub mod config;
pub mod message;
pub mod session;
pub mod spotify;
pub mod text;
