//! Sessions: what the runtime does for one command, from the first call on
//! the host to the last.

use vstd::prelude::*;
use vstd::string::*;

use crate::runtime::action::Action;
use crate::runtime::config::{launch_of, parsed_config, read_config, Launch, LaunchView};
use crate::runtime::container::{
    config_steps, container_of, create_steps, ended, enter_script, enter_steps, fork_script,
    fork_steps, fresh, isolate_steps, reap_script, reap_steps, start_refusal, started,
    supervise_steps, Container, ContainerView,
};
use crate::runtime::error::{RuntimeError, RuntimeErrorView};
use crate::runtime::host::{HostCall, Reply, RuleView, StepView};
use crate::runtime::path::UnixPath;
use crate::runtime::record::{load_steps, record_of, save_steps, OciState, OciStateView};
use crate::runtime::script::{after, Progress, ProgressView, Script};
use crate::runtime::state::{next_state, ContainerState};

verus! {

/// What a session is at.
#[derive(Debug)]
pub enum Stage {
    /// A container is being created.
    Creating(Container),
    /// A container is being looked up, to be started where `start` says so.
    Loading { id: String, start: bool },
    /// The configuration of a container is being read.
    Configuring(Container),
    /// The process of a container is being forked off.
    Launching(Container, Launch),
    /// The process of a container runs; this is its parent.
    Supervising(Container),
    /// The end of a container is being recorded.
    Recording(Container),
    /// This is the process of a container, on its way out of the host's
    /// namespaces.
    Isolating(Launch),
    /// This is the process of a container, waiting for the first process in
    /// it.
    Reaping,
    /// This is the first process in a container.
    Entering,
}

/// The mathematical value of a [`Stage`].
pub enum StageView {
    Creating(ContainerView),
    Loading { id: Seq<char>, start: bool },
    Configuring(ContainerView),
    Launching(ContainerView, LaunchView),
    Supervising(ContainerView),
    Recording(ContainerView),
    Isolating(LaunchView),
    Reaping,
    Entering,
}

impl View for Stage {
    type V = StageView;

    open spec fn view(&self) -> StageView {
        match *self {
            Stage::Creating(c) => StageView::Creating(c@),
            Stage::Loading { id, start } => StageView::Loading { id: id@, start },
            Stage::Configuring(c) => StageView::Configuring(c@),
            Stage::Launching(c, l) => StageView::Launching(c@, l@),
            Stage::Supervising(c) => StageView::Supervising(c@),
            Stage::Recording(c) => StageView::Recording(c@),
            Stage::Isolating(l) => StageView::Isolating(l@),
            Stage::Reaping => StageView::Reaping,
            Stage::Entering => StageView::Entering,
        }
    }
}

/// The mathematical value of a [`Session`]: its stage and the steps that the
/// stage has left.
pub struct SessionView {
    pub stage: StageView,
    pub steps: Seq<StepView>,
}

/// The outcome of a reply, for a [`Session`].
pub enum TurnView {
    /// The session goes on.
    Pending(SessionView),
    /// The container was created.
    Created(ContainerView),
    /// The container was found.
    Loaded(ContainerView),
    /// The container's process has ended.
    Ended(ContainerView),
    /// This process, not the one that the session began in, is to end with
    /// this status.
    Exit(i32),
    /// The session ends with an error.
    Failed(RuntimeErrorView),
}

/// The last step of a stage gives what the next stage needs.
pub open spec fn gives(stage: StageView, steps: Seq<StepView>) -> bool {
    match stage {
        StageView::Loading { .. } => steps.last().rule == RuleView::Record,
        StageView::Configuring(_) => steps.last().rule == RuleView::Text,
        StageView::Launching(_, _) => steps.last().rule == RuleView::Process,
        StageView::Isolating(_) => steps.last().rule == RuleView::Process,
        StageView::Reaping => steps.last().rule == RuleView::Exit,
        _ => true,
    }
}

/// The session that creates a container.
pub open spec fn creating(id: Seq<char>, bundle: Seq<u8>) -> SessionView {
    SessionView {
        stage: StageView::Creating(fresh(id, bundle)),
        steps: create_steps(id, bundle),
    }
}

/// The session that looks a container up.
pub open spec fn loading(id: Seq<char>, start: bool) -> SessionView {
    SessionView { stage: StageView::Loading { id, start }, steps: load_steps(id) }
}

/// What becomes of a container that is to be started.
pub open spec fn starting(c: ContainerView) -> TurnView {
    match start_refusal(c.state) {
        Some(e) => TurnView::Failed(e),
        None => TurnView::Pending(
            SessionView { stage: StageView::Configuring(c), steps: config_steps(c.bundle) },
        ),
    }
}

/// What becomes of a record that was found under an identifier.
pub open spec fn found(
    id: Seq<char>,
    start: bool,
    record: OciStateView,
) -> TurnView {
    if record.id != id {
        TurnView::Failed(RuntimeErrorView::IdMismatch { expected: id, got: record.id })
    } else {
        match container_of(record) {
            Err(e) => TurnView::Failed(e),
            Ok(c) => if start {
                starting(c)
            } else {
                TurnView::Loaded(c)
            },
        }
    }
}

/// What becomes of a container that is to be launched.
pub open spec fn launching(
    c: ContainerView,
    launch: Result<LaunchView, RuntimeErrorView>,
) -> TurnView {
    match launch {
        Err(e) => TurnView::Failed(e),
        Ok(l) => TurnView::Pending(
            SessionView { stage: StageView::Launching(c, l), steps: fork_steps(l.terminal) },
        ),
    }
}

/// The status with which a process passes the end of another one on: that
/// one's own, or failure where it was made to end.
pub open spec fn passed_on(status: Option<i32>) -> i32 {
    match status {
        Some(code) => code,
        None => 1,
    }
}

/// The next stage of a session, or its end, after the last reply of a stage.
pub open spec fn advance(stage: StageView, reply: Reply) -> TurnView {
    match (stage, reply) {
        (StageView::Creating(c), _) => TurnView::Created(c),
        (StageView::Loading { id, start }, Reply::Record(record)) => found(id, start, record@),
        (StageView::Configuring(c), Reply::Text(text)) => match parsed_config(text@) {
            Ok(config) => launching(c, launch_of(config)),
            Err(e) => TurnView::Failed(RuntimeErrorView::ConfigParseError(e)),
        },
        (StageView::Launching(c, l), Reply::Forked(Some(pid))) => match next_state(
            c.state,
            Action::Start,
        ) {
            Some(_) => TurnView::Pending(
                SessionView {
                    stage: StageView::Supervising(started(c, pid)),
                    steps: supervise_steps(c, l, pid),
                },
            ),
            None => TurnView::Failed(
                RuntimeErrorView::InvalidAction { state: c.state, action: Action::Start },
            ),
        },
        (StageView::Launching(c, l), Reply::Forked(None)) => TurnView::Pending(
            SessionView { stage: StageView::Isolating(l), steps: isolate_steps(c.bundle) },
        ),
        (StageView::Supervising(c), _) => match next_state(c.state, Action::Kill) {
            Some(_) => TurnView::Pending(
                SessionView {
                    stage: StageView::Recording(ended(c)),
                    steps: save_steps(record_of(ended(c)), c.id),
                },
            ),
            None => TurnView::Failed(
                RuntimeErrorView::InvalidAction { state: c.state, action: Action::Kill },
            ),
        },
        (StageView::Recording(c), _) => TurnView::Ended(c),
        (StageView::Isolating(_), Reply::Forked(Some(pid))) => TurnView::Pending(
            SessionView { stage: StageView::Reaping, steps: reap_steps(pid) },
        ),
        (StageView::Isolating(l), Reply::Forked(None)) => TurnView::Pending(
            SessionView { stage: StageView::Entering, steps: enter_steps(l) },
        ),
        (StageView::Reaping, Reply::Exited(status)) => TurnView::Exit(passed_on(status)),
        (StageView::Entering, _) => TurnView::Exit(1),
        _ => arbitrary(),
    }
}

/// What a reply to the call that is due makes of a session.
pub open spec fn leads(session: SessionView, reply: Reply, turn: TurnView) -> bool {
    match after(session.steps, reply) {
        ProgressView::Pending(steps) => turn == TurnView::Pending(
            SessionView { stage: session.stage, steps },
        ),
        ProgressView::Failed(e) => turn == TurnView::Failed(e),
        ProgressView::Finished(r) => turn == advance(session.stage, r),
    }
}

/// A session: what it is at, and the steps that are left of that.
#[derive(Debug)]
pub struct Session {
    stage: Stage,
    script: Script,
}

impl View for Session {
    type V = SessionView;

    closed spec fn view(&self) -> SessionView {
        SessionView { stage: self.stage@, steps: self.script@ }
    }
}

/// The outcome of a reply.
#[derive(Debug)]
pub enum Turn {
    Pending(Session),
    Created(Container),
    Loaded(Container),
    Ended(Container),
    Exit(i32),
    Failed(RuntimeError),
}

impl View for Turn {
    type V = TurnView;

    open spec fn view(&self) -> TurnView {
        match *self {
            Turn::Pending(s) => TurnView::Pending(s@),
            Turn::Created(c) => TurnView::Created(c@),
            Turn::Loaded(c) => TurnView::Loaded(c@),
            Turn::Ended(c) => TurnView::Ended(c@),
            Turn::Exit(status) => TurnView::Exit(status),
            Turn::Failed(e) => TurnView::Failed(e@),
        }
    }
}

impl Session {
    #[verifier::type_invariant]
    spec fn inv(self) -> bool {
        gives(self.stage@, self.script@)
    }

    /// The call that is due.
    pub fn call(&self) -> (c: &HostCall)
        ensures
            self@.steps.len() > 0,
            c@ == self@.steps[0].call,
    {
        self.script.call()
    }

    /// Takes the reply to the call that is due, as [`leads`] says. A reply
    /// that does not answer the call changes nothing.
    pub fn resume(self, reply: Reply) -> (turn: Turn)
        ensures
            leads(self@, reply, turn@),
    {
        proof {
            use_type_invariant(&self);
        }
        let ghost before = self@;
        let Session { stage, script } = self;
        match script.resume(reply) {
            Progress::Pending(script) => {
                assert(script@.last() == before.steps.last());
                Turn::Pending(Session { stage, script })
            },
            Progress::Failed(e) => Turn::Failed(e),
            Progress::Finished(r) => {
                assert(before.steps.len() == 1);
                Self::step_on(stage, r)
            },
        }
    }

    fn step_on(stage: Stage, reply: Reply) -> (turn: Turn)
        requires
            match stage@ {
                StageView::Loading { .. } => reply is Record,
                StageView::Configuring(_) => reply is Text,
                StageView::Launching(_, _) => reply is Forked,
                StageView::Isolating(_) => reply is Forked,
                StageView::Reaping => reply is Exited,
                _ => true,
            },
        ensures
            turn@ == advance(stage@, reply),
    {
        match (stage, reply) {
            (Stage::Creating(c), _) => Turn::Created(c),
            (Stage::Loading { id, start }, Reply::Record(record)) => {
                let record = match record.loaded(id.as_str()) {
                    Ok(o) => o,
                    Err(e) => return Turn::Failed(e),
                };
                match Container::try_from(record) {
                    Err(e) => Turn::Failed(e),
                    Ok(c) => if start {
                        match c.start() {
                            Ok(s) => Turn::Pending(s),
                            Err(e) => Turn::Failed(e),
                        }
                    } else {
                        Turn::Loaded(c)
                    },
                }
            },
            (Stage::Configuring(c), Reply::Text(text)) => {
                let config = match read_config(text.as_str()) {
                    Ok(config) => config,
                    Err(e) => return Turn::Failed(e),
                };
                match Launch::new(&config) {
                    Ok(launch) => {
                        let script = fork_script(launch.terminal);
                        Turn::Pending(Session { stage: Stage::Launching(c, launch), script })
                    },
                    Err(e) => Turn::Failed(e),
                }
            },
            (Stage::Launching(c, launch), Reply::Forked(Some(pid))) => {
                let mut c = c;
                match c.handle_parent(pid, &launch) {
                    Ok(script) => Turn::Pending(Session { stage: Stage::Supervising(c), script }),
                    Err(e) => Turn::Failed(e),
                }
            },
            (Stage::Launching(c, launch), Reply::Forked(None)) => {
                let script = c.handle_child();
                Turn::Pending(Session { stage: Stage::Isolating(launch), script })
            },
            (Stage::Supervising(c), _) => {
                let mut c = c;
                match c.handle_exit() {
                    Ok(script) => Turn::Pending(Session { stage: Stage::Recording(c), script }),
                    Err(e) => Turn::Failed(e),
                }
            },
            (Stage::Recording(c), _) => Turn::Ended(c),
            (Stage::Isolating(_), Reply::Forked(Some(pid))) => Turn::Pending(
                Session { stage: Stage::Reaping, script: reap_script(pid) },
            ),
            (Stage::Isolating(launch), Reply::Forked(None)) => Turn::Pending(
                Session { stage: Stage::Entering, script: enter_script(launch) },
            ),
            (Stage::Reaping, Reply::Exited(status)) => match status {
                Some(code) => Turn::Exit(code),
                None => Turn::Exit(1),
            },
            (Stage::Entering, _) => Turn::Exit(1),
            _ => vstd::pervasive::unreached(),
        }
    }

    /// The session that looks a container up and starts it.
    pub fn load_and_start(id: String) -> (s: Session)
        ensures
            s@ == loading(id@, true),
    {
        let script = OciState::load(id.as_str());
        Session { stage: Stage::Loading { id, start: true }, script }
    }
}

impl Container {
    /// Creates a container of a bundle under an identifier.
    pub fn create(id: String, bundle: UnixPath) -> (s: Session)
        ensures
            s@ == creating(id@, bundle@),
    {
        let (container, script) = Container::create_script(id, bundle);
        Session { stage: Stage::Creating(container), script }
    }

    /// Looks the container of an identifier up.
    pub fn load(id: &str) -> (s: Session)
        ensures
            s@ == loading(id@, false),
    {
        Session {
            stage: Stage::Loading { id: id.to_string(), start: false },
            script: OciState::load(id),
        }
    }

    /// Starts the container, which must have been created and not started
    /// before. The session goes on with a container of its own and hands it
    /// out in the end.
    pub fn start(&self) -> (r: Result<Session, RuntimeError>)
        ensures
            match r {
                Ok(s) => starting(self@) == TurnView::Pending(s@),
                Err(e) => starting(self@) == TurnView::Failed(e@),
            },
    {
        if self.state != ContainerState::Created {
            return Err(
                RuntimeError::InvalidState(
                    "容器必须处于 Created 状态才能启动,当前: ".to_string().concat(
                        self.state.name(),
                    ),
                ),
            );
        }
        let script = self.config_script();
        Ok(Session { stage: Stage::Configuring(self.clone()), script })
    }
}

} // verus!
