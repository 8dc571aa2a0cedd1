//! What each platform decides before it talks to its network.

pub mod discord;
pub mod telegram;
