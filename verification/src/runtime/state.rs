//! The states of a container and the moves between them.

use vstd::prelude::*;

use crate::runtime::action::Action;
use crate::runtime::error::RuntimeError;

verus! {

/// Where a container stands in its life.
#[derive(Debug, Clone, Copy, PartialEq, Eq, Structural)]
pub enum ContainerState {
    Creating,
    Created,
    Running,
    Stopped,
    Paused,
}

/// The state that an action leads to, where the action is allowed.
pub open spec fn next_state(state: ContainerState, action: Action) -> Option<ContainerState> {
    match (state, action) {
        (ContainerState::Creating, Action::Create) => Some(ContainerState::Created),
        (ContainerState::Created, Action::Start) => Some(ContainerState::Running),
        (ContainerState::Running, Action::Pause) => Some(ContainerState::Paused),
        (ContainerState::Paused, Action::Resume) => Some(ContainerState::Running),
        (ContainerState::Running, Action::Kill) => Some(ContainerState::Stopped),
        (ContainerState::Paused, Action::Kill) => Some(ContainerState::Stopped),
        _ => None,
    }
}

/// The word for a state in a record.
pub open spec fn state_word(state: ContainerState) -> Seq<char> {
    match state {
        ContainerState::Creating => "creating"@,
        ContainerState::Created => "created"@,
        ContainerState::Running => "running"@,
        ContainerState::Stopped => "stopped"@,
        ContainerState::Paused => "paused"@,
    }
}

/// The name of a state in messages.
pub open spec fn state_name(state: ContainerState) -> Seq<char> {
    match state {
        ContainerState::Creating => "Creating"@,
        ContainerState::Created => "Created"@,
        ContainerState::Running => "Running"@,
        ContainerState::Stopped => "Stopped"@,
        ContainerState::Paused => "Paused"@,
    }
}

/// The state that a word of a record stands for.
pub open spec fn word_state(word: Seq<char>) -> Option<ContainerState> {
    if word == "creating"@ {
        Some(ContainerState::Creating)
    } else if word == "created"@ {
        Some(ContainerState::Created)
    } else if word == "running"@ {
        Some(ContainerState::Running)
    } else if word == "stopped"@ {
        Some(ContainerState::Stopped)
    } else if word == "paused"@ {
        Some(ContainerState::Paused)
    } else {
        None
    }
}

/// No two states have the same word.
pub proof fn law_state_words_are_distinct(a: ContainerState, b: ContainerState)
    requires
        state_word(a) == state_word(b),
    ensures
        a == b,
{
    reveal_strlit("creating");
    reveal_strlit("created");
    reveal_strlit("running");
    reveal_strlit("stopped");
    reveal_strlit("paused");
    assert("creating"@.len() == 8 && "paused"@.len() == 6);
    assert("created"@.len() == 7 && "running"@.len() == 7 && "stopped"@.len() == 7);
    assert("created"@[0] == 'c' && "running"@[0] == 'r' && "stopped"@[0] == 's');
}

/// Each state is read back from its word, and no other word gives it.
pub proof fn law_words_name_states(state: ContainerState, word: Seq<char>)
    ensures
        word_state(word) == Some(state) <==> word == state_word(state),
{
    if word == state_word(state) {
        let read = word_state(word);
        assert(read is Some && word == state_word(read->0));
        law_state_words_are_distinct(read->0, state);
    }
}

/// A stopped container stays stopped: no action is allowed on it.
pub proof fn law_stopped_is_final(action: Action)
    ensures
        next_state(ContainerState::Stopped, action) is None,
{
}

/// No action leads back to the creating state, and only the creation of
/// a container leads to the created state.
pub proof fn law_creation_happens_once(state: ContainerState, action: Action)
    ensures
        next_state(state, action) != Some(ContainerState::Creating),
        next_state(state, action) == Some(ContainerState::Created) ==> state
            == ContainerState::Creating && action == Action::Create,
{
}

/// A container that runs was created and started before, or paused and
/// resumed.
pub proof fn law_running_comes_from_start_or_resume(state: ContainerState, action: Action)
    requires
        next_state(state, action) == Some(ContainerState::Running),
    ensures
        (state == ContainerState::Created && action == Action::Start) || (state
            == ContainerState::Paused && action == Action::Resume),
{
}

/// Resuming undoes pausing.
pub proof fn law_resume_undoes_pause(state: ContainerState, paused: ContainerState)
    requires
        next_state(state, Action::Pause) == Some(paused),
    ensures
        next_state(paused, Action::Resume) == Some(state),
{
}

/// No action leaves a container where it was.
pub proof fn law_every_action_moves(state: ContainerState, action: Action)
    ensures
        next_state(state, action) != Some(state),
{
}

impl ContainerState {
    /// Applies an action: the state that it leads to, or the refusal of an
    /// action that the state does not allow.
    pub fn apply(&self, action: Action) -> (r: Result<Option<ContainerState>, RuntimeError>)
        ensures
            match next_state(*self, action) {
                Some(next) => r == Ok::<Option<ContainerState>, RuntimeError>(Some(next)),
                None => r == Err::<Option<ContainerState>, RuntimeError>(
                    RuntimeError::InvalidAction { state: *self, action },
                ),
            },
    {
        match (*self, action) {
            (ContainerState::Creating, Action::Create) => Ok(Some(ContainerState::Created)),
            (ContainerState::Created, Action::Start) => Ok(Some(ContainerState::Running)),
            (ContainerState::Running, Action::Pause) => Ok(Some(ContainerState::Paused)),
            (ContainerState::Paused, Action::Resume) => Ok(Some(ContainerState::Running)),
            (ContainerState::Running, Action::Kill) => Ok(Some(ContainerState::Stopped)),
            (ContainerState::Paused, Action::Kill) => Ok(Some(ContainerState::Stopped)),
            _ => Err(RuntimeError::InvalidAction { state: *self, action }),
        }
    }

    /// The word for the state in a record.
    pub fn word(&self) -> (s: &'static str)
        ensures
            s@ == state_word(*self),
    {
        match self {
            ContainerState::Creating => "creating",
            ContainerState::Created => "created",
            ContainerState::Running => "running",
            ContainerState::Stopped => "stopped",
            ContainerState::Paused => "paused",
        }
    }

    /// The state as text: its word.
    pub fn to_string(&self) -> (s: String)
        ensures
            s@ == state_word(*self),
    {
        self.word().to_string()
    }

    /// The name of the state in messages.
    pub fn name(&self) -> (s: &'static str)
        ensures
            s@ == state_name(*self),
    {
        match self {
            ContainerState::Creating => "Creating",
            ContainerState::Created => "Created",
            ContainerState::Running => "Running",
            ContainerState::Stopped => "Stopped",
            ContainerState::Paused => "Paused",
        }
    }

    /// The state that a word stands for.
    pub fn from_word(word: &String) -> (r: Option<ContainerState>)
        ensures
            r == word_state(word@),
    {
        if *word == "creating".to_string() {
            Some(ContainerState::Creating)
        } else if *word == "created".to_string() {
            Some(ContainerState::Created)
        } else if *word == "running".to_string() {
            Some(ContainerState::Running)
        } else if *word == "stopped".to_string() {
            Some(ContainerState::Stopped)
        } else if *word == "paused".to_string() {
            Some(ContainerState::Paused)
        } else {
            None
        }
    }
}

} // verus!
