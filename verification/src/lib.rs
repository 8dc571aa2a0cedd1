//! A chat-bot gateway core: a command grammar, the per-message pipeline
//! around it, and the routing of replies back to the platforms.

pub mod model;
pub mod text;
pub mod command_source;
pub mod dispatcher;
pub mod dispatcher_wrapper;
pub mod grammar_laws;
pub mod command_processor;
pub mod command_registry;
pub mod commands;
pub mod config;
pub mod delivery_model;
pub mod lifecycle;
pub mod message_dispatcher;
pub mod message_sender_hub;
pub mod outside;
pub mod pipeline_processor;
pub mod platform;
pub mod proxy;
pub mod striped_executor;
