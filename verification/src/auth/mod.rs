//! Authentication towards model providers: which one applies, which headers it
//! adds, and how the task of a session's thread comes about.

pub mod headers;
pub mod identity;
pub mod laws;
pub mod provider;
pub mod session;
