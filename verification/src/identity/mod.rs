//! Agent identity: keys, registered tasks, and what proves to a service that a
//! request comes from an agent that may work on a task.

pub mod assertion;
pub mod crypto;
pub mod error;
pub mod keys;
pub mod laws;
pub mod registration;
pub mod task;
pub mod url;
