//! The commands that the gateway knows.

pub mod github;
pub mod help;
pub mod ping;
