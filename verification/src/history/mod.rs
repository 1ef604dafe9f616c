//! The history of sessions: tracking, search, export and rotation, and the
//! text that is stored. Memory does not grow without bound: limits on size and
//! age are enforced, and the oldest entries go first.

pub mod entry;
pub mod export;
pub mod laws;
pub mod rotation;
pub mod search;
pub mod session;
pub mod storage;
