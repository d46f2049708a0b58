//! A small OCI-compatible container runtime.
//!
//! The library decides; it performs no input or output. What it wants done is
//! handed out as calls on the host, one at a time, and what the host replies
//! is handed back in.

pub mod cli;
pub mod runtime;
