//! The errors of the runtime.

use vstd::prelude::*;

use crate::runtime::action::Action;
use crate::runtime::path::UnixPath;
use crate::runtime::state::ContainerState;

verus! {

/// [`std::io::Error`], carried and never looked into.
#[verifier::external_type_specification]
#[verifier::external_body]
pub struct ExIoError(std::io::Error);

/// [`serde_json::Error`], carried and never looked into.
#[verifier::external_type_specification]
#[verifier::external_body]
pub struct ExJsonError(serde_json::Error);

/// [`nix::errno::Errno`], carried and never looked into.
#[verifier::external_type_specification]
#[verifier::external_body]
pub struct ExErrno(nix::errno::Errno);

/// A byte string that cannot be a C string: the zero byte at `position` is the
/// first that it holds.
#[derive(Debug)]
pub struct InteriorNul {
    pub position: usize,
    pub bytes: Vec<u8>,
}

/// What can go wrong in the runtime.
#[derive(Debug)]
pub enum RuntimeError {
    /// The action is not allowed in the container's state.
    InvalidAction { state: ContainerState, action: Action },
    /// The bundle path is not a directory.
    InvalidBundle(UnixPath),
    /// The container, or what is known of it, is not in a usable state.
    InvalidState(String),
    /// The bundle has no `config.json`.
    ConfigNotFound(UnixPath),
    /// `config.json` is not an OCI configuration.
    ConfigParseError(serde_json::Error),
    /// No container of that identifier is recorded.
    ContainerNotFound(String),
    /// The identifier is taken.
    ContainerAlreadyExists(String),
    /// A file operation failed.
    IoError(std::io::Error),
    /// A record could not be written as JSON or read from it.
    SerializationError(serde_json::Error),
    /// A text could not be read as JSON.
    DeserializationError(serde_json::Error),
    /// The record found under an identifier belongs to another one.
    IdMismatch { expected: String, got: String },
    /// A system call failed.
    NixError(nix::errno::Errno),
    /// A control group operation failed.
    CgroupError(std::io::Error),
    /// An argument or a variable holds a zero byte.
    CStringError(InteriorNul),
}

/// The mathematical value of a [`RuntimeError`].
pub enum RuntimeErrorView {
    InvalidAction { state: ContainerState, action: Action },
    InvalidBundle(Seq<u8>),
    InvalidState(Seq<char>),
    ConfigNotFound(Seq<u8>),
    ConfigParseError(serde_json::Error),
    ContainerNotFound(Seq<char>),
    ContainerAlreadyExists(Seq<char>),
    IoError(std::io::Error),
    SerializationError(serde_json::Error),
    DeserializationError(serde_json::Error),
    IdMismatch { expected: Seq<char>, got: Seq<char> },
    NixError(nix::errno::Errno),
    CgroupError(std::io::Error),
    CStringError { position: int, bytes: Seq<u8> },
}

impl View for RuntimeError {
    type V = RuntimeErrorView;

    open spec fn view(&self) -> RuntimeErrorView {
        match *self {
            RuntimeError::InvalidAction { state, action } => RuntimeErrorView::InvalidAction {
                state,
                action,
            },
            RuntimeError::InvalidBundle(p) => RuntimeErrorView::InvalidBundle(p@),
            RuntimeError::InvalidState(s) => RuntimeErrorView::InvalidState(s@),
            RuntimeError::ConfigNotFound(p) => RuntimeErrorView::ConfigNotFound(p@),
            RuntimeError::ConfigParseError(e) => RuntimeErrorView::ConfigParseError(e),
            RuntimeError::ContainerNotFound(s) => RuntimeErrorView::ContainerNotFound(s@),
            RuntimeError::ContainerAlreadyExists(s) => RuntimeErrorView::ContainerAlreadyExists(
                s@,
            ),
            RuntimeError::IoError(e) => RuntimeErrorView::IoError(e),
            RuntimeError::SerializationError(e) => RuntimeErrorView::SerializationError(e),
            RuntimeError::DeserializationError(e) => RuntimeErrorView::DeserializationError(e),
            RuntimeError::IdMismatch { expected, got } => RuntimeErrorView::IdMismatch {
                expected: expected@,
                got: got@,
            },
            RuntimeError::NixError(e) => RuntimeErrorView::NixError(e),
            RuntimeError::CgroupError(e) => RuntimeErrorView::CgroupError(e),
            RuntimeError::CStringError(e) => RuntimeErrorView::CStringError {
                position: e.position as int,
                bytes: e.bytes@,
            },
        }
    }
}

impl vstd::std_specs::convert::FromSpecImpl<std::io::Error> for RuntimeError {
    open spec fn obeys_from_spec() -> bool {
        true
    }

    open spec fn from_spec(err: std::io::Error) -> Self {
        RuntimeError::IoError(err)
    }
}

impl From<std::io::Error> for RuntimeError {
    fn from(err: std::io::Error) -> (e: Self) {
        RuntimeError::IoError(err)
    }
}

impl vstd::std_specs::convert::FromSpecImpl<serde_json::Error> for RuntimeError {
    open spec fn obeys_from_spec() -> bool {
        true
    }

    open spec fn from_spec(err: serde_json::Error) -> Self {
        RuntimeError::SerializationError(err)
    }
}

impl From<serde_json::Error> for RuntimeError {
    fn from(err: serde_json::Error) -> (e: Self) {
        RuntimeError::SerializationError(err)
    }
}

impl vstd::std_specs::convert::FromSpecImpl<nix::errno::Errno> for RuntimeError {
    open spec fn obeys_from_spec() -> bool {
        true
    }

    open spec fn from_spec(err: nix::errno::Errno) -> Self {
        RuntimeError::NixError(err)
    }
}

impl From<nix::errno::Errno> for RuntimeError {
    fn from(err: nix::errno::Errno) -> (e: Self) {
        RuntimeError::NixError(err)
    }
}

impl vstd::std_specs::convert::FromSpecImpl<InteriorNul> for RuntimeError {
    open spec fn obeys_from_spec() -> bool {
        true
    }

    open spec fn from_spec(err: InteriorNul) -> Self {
        RuntimeError::CStringError(err)
    }
}

impl From<InteriorNul> for RuntimeError {
    fn from(err: InteriorNul) -> (e: Self) {
        RuntimeError::CStringError(err)
    }
}

} // verus!
