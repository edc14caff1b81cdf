//! Resource-bounded, filesystem-restricted isolation domains for running
//! untrusted programs: the decision logic of the Linux sandboxing engine.
//!
//! Everything that touches the operating system (cgroup files, signals,
//! descriptors, the job server's socket) is performed by the caller; this
//! crate decides what is to be done and keeps the state that results.

pub mod child;
pub mod config;
pub mod dominion;
pub mod error;
pub mod ffi;
pub mod jail_common;
pub mod jobserver;
pub mod options;
pub mod status;
pub mod stdio;
pub mod teardown;
