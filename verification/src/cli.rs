//! The commands of the runtime.

use vstd::prelude::*;

use crate::runtime::container::Container;
use crate::runtime::path::UnixPath;
use crate::runtime::session::{creating, loading, Session, SessionView};

verus! {

/// A command line.
#[derive(Debug)]
pub struct Cli {
    pub command: Option<Commands>,
}

/// A command.
#[derive(Debug)]
pub enum Commands {
    /// Create a container of a bundle under an identifier.
    Create { id: String, bundle: UnixPath },
    /// Start the container of an identifier.
    Start { id: String },
}

/// The session that carries a command out.
pub open spec fn session_of(command: Commands) -> SessionView {
    match command {
        Commands::Create { id, bundle } => creating(id@, bundle@),
        Commands::Start { id } => loading(id@, true),
    }
}

impl Cli {
    /// The session that carries the command out, where there is one.
    pub fn into_session(self) -> (r: Option<Session>)
        ensures
            match self.command {
                Some(command) => r matches Some(s) && s@ == session_of(command),
                None => r is None,
            },
    {
        match self.command {
            Some(Commands::Create { id, bundle }) => Some(Container::create(id, bundle)),
            Some(Commands::Start { id }) => Some(Session::load_and_start(id)),
            None => None,
        }
    }
}

} // verus!
