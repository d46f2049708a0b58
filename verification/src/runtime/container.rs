//! Containers.

use vstd::prelude::*;
use vstd::string::*;
use vstd::utf8::*;

use crate::runtime::action::Action;
use crate::runtime::cgroup::{group_of, lemma_limits_runnable, limit_steps, CgroupManager};
use crate::runtime::config::{Launch, LaunchView};
use crate::runtime::error::{RuntimeError, RuntimeErrorView};
use crate::runtime::host::{
    step, HostCall, HostCallView, MountFlags, Namespace, Rule, RuleView, Step, StepView,
};
use crate::runtime::path::{joined, UnixPath};
use crate::runtime::record::{
    container_dir, dir_of, exec_fifo_path, fifo_file, record_of, save_steps, OciState,
    OciStateView,
};
use crate::runtime::script::{append_steps, push_step, steps_view, Script};
use crate::runtime::state::{next_state, state_name, word_state, ContainerState};

verus! {

/// A container.
#[derive(Debug)]
pub struct Container {
    pub id: String,
    pub bundle: UnixPath,
    pub state: ContainerState,
    pub pid: Option<u32>,
}

/// The mathematical value of a [`Container`].
pub struct ContainerView {
    pub id: Seq<char>,
    pub bundle: Seq<u8>,
    pub state: ContainerState,
    pub pid: Option<u32>,
}

impl View for Container {
    type V = ContainerView;

    open spec fn view(&self) -> ContainerView {
        ContainerView { id: self.id@, bundle: self.bundle@, state: self.state, pid: self.pid }
    }
}

impl Clone for Container {
    fn clone(&self) -> (c: Self)
        ensures
            c@ == self@,
    {
        Container {
            id: self.id.clone(),
            bundle: self.bundle.clone(),
            state: self.state,
            pid: self.pid,
        }
    }
}

/// A process number as a container holds it.
pub open spec fn restored_pid(pid: Option<i32>) -> Option<u32> {
    match pid {
        Some(p) => Some(p as u32),
        None => None,
    }
}

/// The container that a record tells of: its status must be the word of
/// a state.
pub open spec fn container_of(record: OciStateView) -> Result<ContainerView, RuntimeErrorView> {
    match word_state(record.status) {
        Some(state) => Ok(
            ContainerView {
                id: record.id,
                bundle: encode_utf8(record.bundle),
                state,
                pid: restored_pid(record.pid),
            },
        ),
        None => Err(RuntimeErrorView::InvalidState("未知状态: "@ + record.status)),
    }
}

/// A container that was just created.
pub open spec fn fresh(id: Seq<char>, bundle: Seq<u8>) -> ContainerView {
    ContainerView { id, bundle, state: ContainerState::Created, pid: None }
}

/// A container whose process was started.
pub open spec fn started(c: ContainerView, pid: u32) -> ContainerView {
    ContainerView { state: ContainerState::Running, pid: Some(pid), ..c }
}

/// A container whose process has ended.
pub open spec fn ended(c: ContainerView) -> ContainerView {
    ContainerView { state: ContainerState::Stopped, ..c }
}

/// The steps that create a container: its bundle must be a directory and its
/// identifier free; then its directory is made, its bundle's configuration
/// found and read, its FIFO made, and at last its record written. What the
/// configuration says is looked at when the container is started.
pub open spec fn create_steps(id: Seq<char>, bundle: Seq<u8>) -> Seq<StepView> {
    seq![
        step(
            HostCallView::IsDir(bundle),
            RuleView::Expect { flag: true, otherwise: RuntimeErrorView::InvalidBundle(bundle) },
        ),
        step(
            HostCallView::Exists(dir_of(id)),
            RuleView::Expect {
                flag: false,
                otherwise: RuntimeErrorView::ContainerAlreadyExists(id),
            },
        ),
        step(HostCallView::CreateDirAll(dir_of(id)), RuleView::Required),
    ] + config_steps(bundle) + seq![
        step(HostCallView::MakeFifo(fifo_file(id)), RuleView::Required),
    ] + save_steps(record_of(fresh(id, bundle)), id)
}

/// The configuration file of a bundle.
pub open spec fn config_file(bundle: Seq<u8>) -> Seq<u8> {
    joined(bundle, encode_utf8("config.json"@))
}

/// The root file system of a bundle.
pub open spec fn rootfs_dir(bundle: Seq<u8>) -> Seq<u8> {
    joined(bundle, encode_utf8("rootfs"@))
}

/// The steps that read a bundle's configuration: there must be one.
pub open spec fn config_steps(bundle: Seq<u8>) -> Seq<StepView> {
    seq![
        step(
            HostCallView::Exists(config_file(bundle)),
            RuleView::Expect {
                flag: true,
                otherwise: RuntimeErrorView::ConfigNotFound(config_file(bundle)),
            },
        ),
        step(HostCallView::ReadText(config_file(bundle)), RuleView::Text),
    ]
}

/// A step that is taken only for a container with a terminal.
pub open spec fn terminal_steps(terminal: bool, call: HostCallView) -> Seq<StepView> {
    if terminal {
        seq![step(call, RuleView::Required)]
    } else {
        Seq::empty()
    }
}

/// The steps that fork a container's process off, with the means by which it
/// and its parent will talk.
pub open spec fn fork_steps(terminal: bool) -> Seq<StepView> {
    terminal_steps(terminal, HostCallView::OpenTerminal) + seq![
        step(HostCallView::OpenPipe, RuleView::Required),
        step(HostCallView::Fork, RuleView::Process),
    ]
}

/// The steps of the parent of a container's process: the process is put under
/// its limits and the container recorded as running; then the process is told
/// to go on, and waited for.
pub open spec fn supervise_steps(c: ContainerView, launch: LaunchView, pid: u32) -> Seq<
    StepView,
> {
    limit_steps(group_of(c.id), launch.linux, pid) + save_steps(record_of(started(c, pid)), c.id)
        + terminal_steps(launch.terminal, HostCallView::RelayTerminal) + seq![
        step(HostCallView::SendSignal, RuleView::Required),
        step(HostCallView::Wait(pid), RuleView::Exit),
    ]
}

/// No particular way of mounting.
pub open spec fn plain() -> MountFlags {
    MountFlags { private: false, bind: false, recursive: false }
}

/// The namespaces that a container gets of its own.
pub open spec fn own_namespaces() -> Seq<Namespace> {
    seq![
        Namespace::Mount,
        Namespace::Uts,
        Namespace::Ipc,
        Namespace::Network,
        Namespace::Pid,
    ]
}

/// The steps of a container's process before there is a first process in it:
/// it leaves the host's namespaces, makes the bundle's root file system its
/// root, lets go of the old one, waits for its parent, and forks.
pub open spec fn isolate_steps(bundle: Seq<u8>) -> Seq<StepView> {
    let rootfs = rootfs_dir(bundle);
    let put_old = joined(rootfs, encode_utf8(".old_root"@));
    let old_root = encode_utf8("/.old_root"@);
    seq![
        step(HostCallView::Unshare(own_namespaces()), RuleView::Required),
        step(
            HostCallView::Mount {
                source: None,
                target: encode_utf8("/"@),
                kind: None,
                flags: MountFlags { private: true, bind: false, recursive: true },
            },
            RuleView::Required,
        ),
        step(
            HostCallView::Mount {
                source: Some(rootfs),
                target: rootfs,
                kind: None,
                flags: MountFlags { private: false, bind: true, recursive: true },
            },
            RuleView::Required,
        ),
        step(HostCallView::ChangeDir(rootfs), RuleView::Required),
        step(HostCallView::CreateDirAll(put_old), RuleView::Optional),
        step(
            HostCallView::PivotRoot { new_root: encode_utf8("."@), put_old },
            RuleView::Required,
        ),
        step(HostCallView::ChangeDir(encode_utf8("/"@)), RuleView::Required),
        step(HostCallView::Detach(old_root), RuleView::Required),
        step(HostCallView::RemoveDir(old_root), RuleView::Optional),
        step(HostCallView::AwaitSignal, RuleView::Optional),
        step(HostCallView::Fork, RuleView::Process),
    ]
}

/// The steps that mount a virtual file system of the kernel.
pub open spec fn virtual_steps(source: Seq<char>, target: Seq<char>, kind: Seq<char>) -> Seq<
    StepView,
> {
    seq![
        step(HostCallView::CreateDirAll(encode_utf8(target)), RuleView::Optional),
        step(
            HostCallView::Mount {
                source: Some(encode_utf8(source)),
                target: encode_utf8(target),
                kind: Some(kind),
                flags: plain(),
            },
            RuleView::Required,
        ),
    ]
}

/// The program that arguments name: the first of them, where there is one.
pub open spec fn program_of(args: Seq<Seq<u8>>) -> Option<Seq<u8>> {
    if args.len() > 0 {
        Some(args[0])
    } else {
        None
    }
}

/// The steps of the first process in a container: it takes its terminal,
/// mounts the kernel's file systems, goes to its working directory and turns
/// into the program.
pub open spec fn enter_steps(launch: LaunchView) -> Seq<StepView> {
    terminal_steps(launch.terminal, HostCallView::AttachTerminal) + virtual_steps(
        "proc"@,
        "/proc"@,
        "proc"@,
    ) + virtual_steps("sysfs"@, "/sys"@, "sysfs"@) + seq![
        step(HostCallView::ChangeDir(encode_utf8(launch.cwd)), RuleView::Required),
        step(
            HostCallView::Exec {
                program: program_of(launch.args),
                args: launch.args,
                env: launch.env,
            },
            RuleView::Required,
        ),
    ]
}

/// Why a container in a state cannot be started, where it cannot.
pub open spec fn start_refusal(state: ContainerState) -> Option<RuntimeErrorView> {
    if state == ContainerState::Created {
        None
    } else {
        Some(
            RuntimeErrorView::InvalidState(
                "容器必须处于 Created 状态才能启动,当前: "@ + state_name(state),
            ),
        )
    }
}

fn push_terminal(steps: &mut Vec<Step>, terminal: bool, call: HostCall)
    ensures
        steps_view(final(steps)@) == steps_view(old(steps)@) + terminal_steps(terminal, call@),
{
    if terminal {
        push_step(steps, call, Rule::Required);
    }
    assert(steps_view(steps@) =~= steps_view(old(steps)@) + terminal_steps(terminal, call@));
}

fn push_virtual(steps: &mut Vec<Step>, source: &str, target: &str, kind: &str)
    ensures
        steps_view(final(steps)@) == steps_view(old(steps)@) + virtual_steps(
            source@,
            target@,
            kind@,
        ),
{
    push_step(steps, HostCall::CreateDirAll(UnixPath::from_text(target)), Rule::Optional);
    push_step(
        steps,
        HostCall::Mount {
            source: Some(UnixPath::from_text(source)),
            target: UnixPath::from_text(target),
            kind: Some(kind.to_string()),
            flags: MountFlags { private: false, bind: false, recursive: false },
        },
        Rule::Required,
    );
    assert(steps_view(steps@) =~= steps_view(old(steps)@) + virtual_steps(
        source@,
        target@,
        kind@,
    ));
}

/// The steps that fork a container's process off, as [`fork_steps`] says.
pub fn fork_script(terminal: bool) -> (s: Script)
    ensures
        s@ == fork_steps(terminal),
{
    let mut steps: Vec<Step> = Vec::new();
    assert(steps_view(steps@) =~= Seq::empty());
    push_terminal(&mut steps, terminal, HostCall::OpenTerminal);
    push_step(&mut steps, HostCall::OpenPipe, Rule::Required);
    push_step(&mut steps, HostCall::Fork, Rule::Process);
    assert(steps_view(steps@) =~= fork_steps(terminal));
    Script::new(steps)
}

/// The steps that wait for the first process in a container.
pub open spec fn reap_steps(pid: u32) -> Seq<StepView> {
    seq![step(HostCallView::Wait(pid), RuleView::Exit)]
}

/// Waits for the first process in a container.
pub fn reap_script(pid: u32) -> (s: Script)
    ensures
        s@ == reap_steps(pid),
{
    let mut steps: Vec<Step> = Vec::new();
    assert(steps_view(steps@) =~= Seq::empty());
    push_step(&mut steps, HostCall::Wait(pid), Rule::Exit);
    assert(steps_view(steps@) =~= reap_steps(pid));
    Script::new(steps)
}

/// Turns the first process in a container into the program, as
/// [`enter_steps`] says.
pub fn enter_script(launch: Launch) -> (s: Script)
    ensures
        s@ == enter_steps(launch@),
{
    let mut steps: Vec<Step> = Vec::new();
    assert(steps_view(steps@) =~= Seq::empty());
    push_terminal(&mut steps, launch.terminal, HostCall::AttachTerminal);
    push_virtual(&mut steps, "proc", "/proc", "proc");
    push_virtual(&mut steps, "sysfs", "/sys", "sysfs");
    push_step(
        &mut steps,
        HostCall::ChangeDir(UnixPath::from_text(launch.cwd.as_str())),
        Rule::Required,
    );
    let program = if launch.args.len() > 0 {
        Some(launch.args[0].clone())
    } else {
        None
    };
    push_step(
        &mut steps,
        HostCall::Exec { program, args: launch.args, env: launch.env },
        Rule::Required,
    );
    assert(steps_view(steps@) =~= enter_steps(launch@));
    Script::new(steps)
}

impl Container {
    /// The container that a record tells of, as [`container_of`] says.
    pub fn try_from(record: OciState) -> (r: Result<Container, RuntimeError>)
        ensures
            match container_of(record@) {
                Ok(c) => r matches Ok(x) && x@ == c,
                Err(e) => r matches Err(x) && x@ == e,
            },
    {
        match ContainerState::from_word(&record.status) {
            Some(state) => Ok(
                Container {
                    id: record.id,
                    bundle: UnixPath::from_text(record.bundle.as_str()),
                    state,
                    pid: match record.pid {
                        Some(p) => Some(p as u32),
                        None => None,
                    },
                },
            ),
            None => Err(
                RuntimeError::InvalidState("未知状态: ".to_string().concat(record.status.as_str())),
            ),
        }
    }

    /// Applies an action of the life cycle. A refused action changes nothing.
    pub fn apply_action(&mut self, action: Action) -> (r: Result<(), RuntimeError>)
        ensures
            match next_state(old(self).state, action) {
                Some(next) => r is Ok && final(self)@ == (ContainerView {
                    state: next,
                    ..old(self)@
                }),
                None => r == Err::<(), RuntimeError>(
                    RuntimeError::InvalidAction { state: old(self).state, action },
                ) && *final(self) == *old(self),
            },
    {
        match self.state.apply(action) {
            Ok(Some(next)) => {
                self.state = next;
                Ok(())
            },
            Ok(None) => Ok(()),
            Err(e) => Err(e),
        }
    }

    /// Writes the container's record to its state file.
    pub fn save(&self) -> (s: Script)
        ensures
            s@ == save_steps(record_of(self@), self.id@),
    {
        OciState::from(self).save(self.id.as_str())
    }

    /// Creates a container: the container, and the steps that have to be
    /// taken before there is one.
    pub(crate) fn create_script(id: String, bundle: UnixPath) -> (r: (Container, Script))
        ensures
            r.0@ == fresh(id@, bundle@),
            r.1@ == create_steps(id@, bundle@),
    {
        let mut container = Container { id, bundle, state: ContainerState::Creating, pid: None };
        let _ = container.apply_action(Action::Create);
        let mut steps: Vec<Step> = Vec::new();
        assert(steps_view(steps@) =~= Seq::empty());
        push_step(
            &mut steps,
            HostCall::IsDir(container.bundle.clone()),
            Rule::Expect {
                flag: true,
                otherwise: RuntimeError::InvalidBundle(container.bundle.clone()),
            },
        );
        push_step(
            &mut steps,
            HostCall::Exists(container_dir(container.id.as_str())),
            Rule::Expect {
                flag: false,
                otherwise: RuntimeError::ContainerAlreadyExists(container.id.clone()),
            },
        );
        push_step(
            &mut steps,
            HostCall::CreateDirAll(container_dir(container.id.as_str())),
            Rule::Required,
        );
        container.push_config(&mut steps);
        push_step(
            &mut steps,
            HostCall::MakeFifo(exec_fifo_path(container.id.as_str())),
            Rule::Required,
        );
        append_steps(&mut steps, OciState::from(&container).save_list(container.id.as_str()));
        assert(steps_view(steps@) =~= create_steps(id@, bundle@));
        (container, Script::new(steps))
    }

    fn push_config(&self, steps: &mut Vec<Step>)
        ensures
            steps_view(final(steps)@) == steps_view(old(steps)@) + config_steps(self.bundle@),
    {
        let path = self.bundle.join("config.json");
        push_step(
            steps,
            HostCall::Exists(path.clone()),
            Rule::Expect { flag: true, otherwise: RuntimeError::ConfigNotFound(path.clone()) },
        );
        push_step(steps, HostCall::ReadText(path), Rule::Text);
        assert(steps_view(steps@) =~= steps_view(old(steps)@) + config_steps(self.bundle@));
    }

    /// Reads the configuration of the container's bundle.
    pub(crate) fn config_script(&self) -> (s: Script)
        ensures
            s@ == config_steps(self.bundle@),
    {
        let mut steps: Vec<Step> = Vec::new();
        assert(steps_view(steps@) =~= Seq::empty());
        self.push_config(&mut steps);
        assert(steps_view(steps@) =~= config_steps(self.bundle@));
        Script::new(steps)
    }

    /// What the parent of the container's process has to do. The container
    /// runs from here on; it must not have run before.
    pub fn handle_parent(&mut self, child: u32, launch: &Launch) -> (r: Result<
        Script,
        RuntimeError,
    >)
        ensures
            match next_state(old(self).state, Action::Start) {
                Some(_) => r matches Ok(s) && s@ == supervise_steps(old(self)@, launch@, child)
                    && final(self)@ == started(old(self)@, child),
                None => r == Err::<Script, RuntimeError>(
                    RuntimeError::InvalidAction { state: old(self).state, action: Action::Start },
                ) && final(self)@ == (ContainerView { pid: Some(child), ..old(self)@ }),
            },
    {
        self.pid = Some(child);
        match self.apply_action(Action::Start) {
            Ok(_) => {},
            Err(e) => return Err(e),
        }
        let mut steps = CgroupManager::new(self.id.as_str()).limit_list(&launch.linux, child);
        append_steps(&mut steps, OciState::from(self).save_list(self.id.as_str()));
        push_terminal(&mut steps, launch.terminal, HostCall::RelayTerminal);
        push_step(&mut steps, HostCall::SendSignal, Rule::Required);
        push_step(&mut steps, HostCall::Wait(child), Rule::Exit);
        assert(steps_view(steps@) =~= supervise_steps(old(self)@, launch@, child));
        proof {
            lemma_limits_runnable(group_of(self.id@), launch.linux, child);
        }
        Ok(Script::new(steps))
    }

    /// What has to be done when the container's process has ended. The
    /// container is stopped from here on; it must have been running.
    pub fn handle_exit(&mut self) -> (r: Result<Script, RuntimeError>)
        ensures
            match next_state(old(self).state, Action::Kill) {
                Some(_) => r matches Ok(s) && s@ == save_steps(
                    record_of(ended(old(self)@)),
                    old(self).id@,
                ) && final(self)@ == ended(old(self)@),
                None => r == Err::<Script, RuntimeError>(
                    RuntimeError::InvalidAction { state: old(self).state, action: Action::Kill },
                ) && *final(self) == *old(self),
            },
    {
        match self.apply_action(Action::Kill) {
            Ok(_) => Ok(self.save()),
            Err(e) => Err(e),
        }
    }

    /// What the container's process has to do before there is a first process
    /// in the container, as [`isolate_steps`] says.
    pub fn handle_child(&self) -> (s: Script)
        ensures
            s@ == isolate_steps(self.bundle@),
    {
        let rootfs = self.bundle.join("rootfs");
        let mut namespaces: Vec<Namespace> = Vec::new();
        namespaces.push(Namespace::Mount);
        namespaces.push(Namespace::Uts);
        namespaces.push(Namespace::Ipc);
        namespaces.push(Namespace::Network);
        namespaces.push(Namespace::Pid);
        assert(namespaces@ =~= own_namespaces());
        let mut steps: Vec<Step> = Vec::new();
        assert(steps_view(steps@) =~= Seq::empty());
        push_step(&mut steps, HostCall::Unshare(namespaces), Rule::Required);
        push_step(
            &mut steps,
            HostCall::Mount {
                source: None,
                target: UnixPath::from_text("/"),
                kind: None,
                flags: MountFlags { private: true, bind: false, recursive: true },
            },
            Rule::Required,
        );
        push_step(
            &mut steps,
            HostCall::Mount {
                source: Some(rootfs.clone()),
                target: rootfs.clone(),
                kind: None,
                flags: MountFlags { private: false, bind: true, recursive: true },
            },
            Rule::Required,
        );
        push_step(&mut steps, HostCall::ChangeDir(rootfs.clone()), Rule::Required);
        push_step(&mut steps, HostCall::CreateDirAll(rootfs.join(".old_root")), Rule::Optional);
        push_step(
            &mut steps,
            HostCall::PivotRoot {
                new_root: UnixPath::from_text("."),
                put_old: rootfs.join(".old_root"),
            },
            Rule::Required,
        );
        push_step(&mut steps, HostCall::ChangeDir(UnixPath::from_text("/")), Rule::Required);
        push_step(&mut steps, HostCall::Detach(UnixPath::from_text("/.old_root")), Rule::Required);
        push_step(
            &mut steps,
            HostCall::RemoveDir(UnixPath::from_text("/.old_root")),
            Rule::Optional,
        );
        push_step(&mut steps, HostCall::AwaitSignal, Rule::Optional);
        push_step(&mut steps, HostCall::Fork, Rule::Process);
        assert(steps_view(steps@) =~= isolate_steps(self.bundle@));
        Script::new(steps)
    }
}

} // verus!
