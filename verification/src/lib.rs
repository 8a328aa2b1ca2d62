//! Verified core of the Codex sound manager: the rules that edit Codex's
//! `notify` callback, the settings model, and the decisions around them.

pub mod text;
pub mod path;
pub mod json;
pub mod config;
pub mod settings;
pub mod commands;
pub mod notify;
pub mod locations;
pub mod sounds;
pub mod scan;
pub mod notification;
pub mod window;
