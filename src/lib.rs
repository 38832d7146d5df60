//! Process duplication for a handle-based microkernel: the decisions behind
//! spawning a thread and forking a process, with the byte formats they read
//! and write.

pub mod context;
pub mod error;
pub mod grant;
pub mod orchestrate;
pub mod outcome;
pub mod rawfile;
pub mod transfer;
