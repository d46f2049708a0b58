//! What the runtime asks of the host, and how it judges the host's replies.
//!
//! The runtime performs no input or output itself. It hands out a [`HostCall`]
//! at a time; whoever runs it performs the call and hands the [`Reply`] back.

use vstd::prelude::*;

use crate::runtime::config::{c_texts, CText};
use crate::runtime::error::{RuntimeError, RuntimeErrorView};
use crate::runtime::path::UnixPath;
use crate::runtime::record::{OciState, OciStateView};

verus! {

/// A namespace that a container gets of its own.
#[derive(Debug, Clone, Copy, PartialEq, Eq, Structural)]
pub enum Namespace {
    Mount,
    Uts,
    Ipc,
    Network,
    Pid,
}

/// How a mount is made.
#[derive(Debug, Clone, Copy, PartialEq, Eq, Structural)]
pub struct MountFlags {
    pub private: bool,
    pub bind: bool,
    pub recursive: bool,
}

/// A call that the host is to perform.
#[derive(Debug)]
pub enum HostCall {
    /// Is the path a directory? Answered with [`Reply::Flag`].
    IsDir(UnixPath),
    /// Does the path exist? Answered with [`Reply::Flag`].
    Exists(UnixPath),
    /// Make the directory and those above it.
    CreateDirAll(UnixPath),
    /// Remove the empty directory.
    RemoveDir(UnixPath),
    /// Make a named pipe.
    MakeFifo(UnixPath),
    /// Read the file as text. Answered with [`Reply::Text`].
    ReadText(UnixPath),
    /// Read the file as a record. Answered with [`Reply::Record`].
    ReadState(UnixPath),
    /// Write the text to the file, in place of what it held.
    WriteText { path: UnixPath, text: String },
    /// Write the record to the file, in place of what it held.
    WriteState { path: UnixPath, state: OciState },
    /// Open the existing file for writing.
    OpenForWriting(UnixPath),
    /// Write the text to the file opened last.
    WriteOpened(String),
    /// Open a pair of pseudo-terminal ends.
    OpenTerminal,
    /// Open the pipe on which a parent signals its child.
    OpenPipe,
    /// Fork the process. Answered with [`Reply::Forked`].
    Fork,
    /// Signal the child over the pipe.
    SendSignal,
    /// Wait for the parent's signal on the pipe.
    AwaitSignal,
    /// Put the host's terminal into raw mode and relay between it and the
    /// pseudo-terminal, both ways.
    RelayTerminal,
    /// Make the pseudo-terminal the controlling terminal of this process.
    AttachTerminal,
    /// Wait for the process to end. Answered with [`Reply::Exited`].
    Wait(u32),
    /// Move this process into new namespaces.
    Unshare(Vec<Namespace>),
    /// Mount a file system.
    Mount { source: Option<UnixPath>, target: UnixPath, kind: Option<String>, flags: MountFlags },
    /// Change the working directory.
    ChangeDir(UnixPath),
    /// Make `new_root` the root directory and move the old one to `put_old`.
    PivotRoot { new_root: UnixPath, put_old: UnixPath },
    /// Detach the mount.
    Detach(UnixPath),
    /// Turn this process into the program, with its arguments and its
    /// environment. Without a program there is nothing to turn into.
    Exec { program: Option<CText>, args: Vec<CText>, env: Vec<CText> },
}

/// The mathematical value of a [`HostCall`].
pub enum HostCallView {
    IsDir(Seq<u8>),
    Exists(Seq<u8>),
    CreateDirAll(Seq<u8>),
    RemoveDir(Seq<u8>),
    MakeFifo(Seq<u8>),
    ReadText(Seq<u8>),
    ReadState(Seq<u8>),
    WriteText { path: Seq<u8>, text: Seq<char> },
    WriteState { path: Seq<u8>, state: OciStateView },
    OpenForWriting(Seq<u8>),
    WriteOpened(Seq<char>),
    OpenTerminal,
    OpenPipe,
    Fork,
    SendSignal,
    AwaitSignal,
    RelayTerminal,
    AttachTerminal,
    Wait(u32),
    Unshare(Seq<Namespace>),
    Mount {
        source: Option<Seq<u8>>,
        target: Seq<u8>,
        kind: Option<Seq<char>>,
        flags: MountFlags,
    },
    ChangeDir(Seq<u8>),
    PivotRoot { new_root: Seq<u8>, put_old: Seq<u8> },
    Detach(Seq<u8>),
    Exec { program: Option<Seq<u8>>, args: Seq<Seq<u8>>, env: Seq<Seq<u8>> },
}

impl View for HostCall {
    type V = HostCallView;

    open spec fn view(&self) -> HostCallView {
        match *self {
            HostCall::IsDir(p) => HostCallView::IsDir(p@),
            HostCall::Exists(p) => HostCallView::Exists(p@),
            HostCall::CreateDirAll(p) => HostCallView::CreateDirAll(p@),
            HostCall::RemoveDir(p) => HostCallView::RemoveDir(p@),
            HostCall::MakeFifo(p) => HostCallView::MakeFifo(p@),
            HostCall::ReadText(p) => HostCallView::ReadText(p@),
            HostCall::ReadState(p) => HostCallView::ReadState(p@),
            HostCall::WriteText { path, text } => HostCallView::WriteText {
                path: path@,
                text: text@,
            },
            HostCall::WriteState { path, state } => HostCallView::WriteState {
                path: path@,
                state: state@,
            },
            HostCall::OpenForWriting(p) => HostCallView::OpenForWriting(p@),
            HostCall::WriteOpened(t) => HostCallView::WriteOpened(t@),
            HostCall::OpenTerminal => HostCallView::OpenTerminal,
            HostCall::OpenPipe => HostCallView::OpenPipe,
            HostCall::Fork => HostCallView::Fork,
            HostCall::SendSignal => HostCallView::SendSignal,
            HostCall::AwaitSignal => HostCallView::AwaitSignal,
            HostCall::RelayTerminal => HostCallView::RelayTerminal,
            HostCall::AttachTerminal => HostCallView::AttachTerminal,
            HostCall::Wait(pid) => HostCallView::Wait(pid),
            HostCall::Unshare(n) => HostCallView::Unshare(n@),
            HostCall::Mount { source, target, kind, flags } => HostCallView::Mount {
                source: match source {
                    Some(p) => Some(p@),
                    None => None,
                },
                target: target@,
                kind: match kind {
                    Some(k) => Some(k@),
                    None => None,
                },
                flags,
            },
            HostCall::ChangeDir(p) => HostCallView::ChangeDir(p@),
            HostCall::PivotRoot { new_root, put_old } => HostCallView::PivotRoot {
                new_root: new_root@,
                put_old: put_old@,
            },
            HostCall::Detach(p) => HostCallView::Detach(p@),
            HostCall::Exec { program, args, env } => HostCallView::Exec {
                program: match program {
                    Some(p) => Some(p@),
                    None => None,
                },
                args: c_texts(args@),
                env: c_texts(env@),
            },
        }
    }
}

/// Why a call failed.
#[derive(Debug)]
pub enum Failure {
    Io(std::io::Error),
    Json(serde_json::Error),
    Os(nix::errno::Errno),
}

/// What the host says to a call.
#[derive(Debug)]
pub enum Reply {
    /// The call was performed.
    Done,
    /// The answer to a question.
    Flag(bool),
    /// The text of a file.
    Text(String),
    /// The record in a file.
    Record(OciState),
    /// The process was forked: this is the parent of the process named, or
    /// the child where none is.
    Forked(Option<u32>),
    /// The process ended, with this status where it ended by itself.
    Exited(Option<i32>),
    /// The call failed.
    Failed(Failure),
}

/// How the reply to a call is judged.
#[derive(Debug)]
pub enum Rule {
    /// The call must succeed.
    Required,
    /// The call may fail.
    Optional,
    /// The call must succeed; a failure is one of the control group.
    Limit,
    /// The call answers a question. A yes makes the next call needless.
    SkipIfPresent,
    /// The call answers a question, and the answer must be this one.
    Expect { flag: bool, otherwise: RuntimeError },
    /// The call must give a record.
    Record,
    /// The call must give a text.
    Text,
    /// The call must fork the process.
    Process,
    /// The call must give an exit status.
    Exit,
}

/// The mathematical value of a [`Rule`].
pub enum RuleView {
    Required,
    Optional,
    Limit,
    SkipIfPresent,
    Expect { flag: bool, otherwise: RuntimeErrorView },
    Record,
    Text,
    Process,
    Exit,
}

impl View for Rule {
    type V = RuleView;

    open spec fn view(&self) -> RuleView {
        match *self {
            Rule::Required => RuleView::Required,
            Rule::Optional => RuleView::Optional,
            Rule::Limit => RuleView::Limit,
            Rule::SkipIfPresent => RuleView::SkipIfPresent,
            Rule::Expect { flag, otherwise } => RuleView::Expect { flag, otherwise: otherwise@ },
            Rule::Record => RuleView::Record,
            Rule::Text => RuleView::Text,
            Rule::Process => RuleView::Process,
            Rule::Exit => RuleView::Exit,
        }
    }
}

/// The error that a failed call is reported as.
pub open spec fn failure_error(f: Failure) -> RuntimeErrorView {
    match f {
        Failure::Io(e) => RuntimeErrorView::IoError(e),
        Failure::Json(e) => RuntimeErrorView::SerializationError(e),
        Failure::Os(e) => RuntimeErrorView::NixError(e),
    }
}

/// The error that a failed call on a control group is reported as.
pub open spec fn limit_error(f: Failure) -> RuntimeErrorView {
    match f {
        Failure::Io(e) => RuntimeErrorView::CgroupError(e),
        _ => failure_error(f),
    }
}

/// What a reply means under a rule.
pub enum Judgement {
    /// The next call is due.
    Next,
    /// The call after the next one is due.
    Skip,
    /// No further call is made, because of this error.
    Stop(RuntimeErrorView),
    /// The reply does not answer the call.
    Unfit,
}

/// Judges a reply by a rule.
pub open spec fn judge(rule: RuleView, reply: Reply) -> Judgement {
    match (rule, reply) {
        (RuleView::Required, Reply::Done) => Judgement::Next,
        (RuleView::Optional, Reply::Done) => Judgement::Next,
        (RuleView::Optional, Reply::Failed(_)) => Judgement::Next,
        (RuleView::Limit, Reply::Done) => Judgement::Next,
        (RuleView::Limit, Reply::Failed(f)) => Judgement::Stop(limit_error(f)),
        (RuleView::SkipIfPresent, Reply::Flag(b)) => if b {
            Judgement::Skip
        } else {
            Judgement::Next
        },
        (RuleView::Expect { flag, otherwise }, Reply::Flag(b)) => if b == flag {
            Judgement::Next
        } else {
            Judgement::Stop(otherwise)
        },
        (RuleView::Record, Reply::Record(_)) => Judgement::Next,
        (RuleView::Text, Reply::Text(_)) => Judgement::Next,
        (RuleView::Process, Reply::Forked(_)) => Judgement::Next,
        (RuleView::Exit, Reply::Exited(_)) => Judgement::Next,
        (RuleView::Required, Reply::Failed(f)) => Judgement::Stop(failure_error(f)),
        (RuleView::Record, Reply::Failed(f)) => Judgement::Stop(failure_error(f)),
        (RuleView::Text, Reply::Failed(f)) => Judgement::Stop(failure_error(f)),
        (RuleView::Process, Reply::Failed(f)) => Judgement::Stop(failure_error(f)),
        (RuleView::Exit, Reply::Failed(f)) => Judgement::Stop(failure_error(f)),
        _ => Judgement::Unfit,
    }
}

impl Failure {
    /// The error that the failure is reported as.
    pub fn into_error(self) -> (e: RuntimeError)
        ensures
            e@ == failure_error(self),
    {
        match self {
            Failure::Io(e) => RuntimeError::from(e),
            Failure::Json(e) => RuntimeError::from(e),
            Failure::Os(e) => RuntimeError::from(e),
        }
    }

    /// The error that the failure is reported as where a control group was to
    /// be changed.
    pub fn into_limit_error(self) -> (e: RuntimeError)
        ensures
            e@ == limit_error(self),
    {
        match self {
            Failure::Io(e) => RuntimeError::CgroupError(e),
            other => other.into_error(),
        }
    }
}

/// A call and the rule for its reply.
#[derive(Debug)]
pub struct Step {
    pub call: HostCall,
    pub rule: Rule,
}

/// The mathematical value of a [`Step`].
pub struct StepView {
    pub call: HostCallView,
    pub rule: RuleView,
}

impl View for Step {
    type V = StepView;

    open spec fn view(&self) -> StepView {
        StepView { call: self.call@, rule: self.rule@ }
    }
}

/// A step, from its parts.
pub open spec fn step(call: HostCallView, rule: RuleView) -> StepView {
    StepView { call, rule }
}

} // verus!
