//! The runtime: its containers, and how they come and go.

pub mod action;
pub mod cgroup;
pub mod config;
pub mod container;
pub mod error;
pub mod host;
pub mod laws;
pub mod outcomes;
pub mod path;
pub mod record;
pub mod script;
pub mod session;
pub mod state;
pub mod text;

pub use container::Container;
pub use error::RuntimeError;
