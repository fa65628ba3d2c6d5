//! Switchyard: the verified core of a local model-provider chat client.

pub mod domain;
pub mod application;
pub mod command;
pub mod crypto;
pub mod key_cache;
pub mod log;
pub mod provider;
pub mod runtime;
pub mod unlock;
pub mod user;
pub mod text;
