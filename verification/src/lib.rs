//! Support logic for a coding agent: patch parsing, session history, agent
//! identity, provider authentication and device keys.

pub mod auth;
pub mod device_key;
pub mod history;
pub mod identity;
pub mod json;
pub mod patch;
pub mod skills;
pub mod text;
pub mod time;
