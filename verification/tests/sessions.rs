use nix::errno::Errno;

use runsys::cli::{Cli, Commands};
use runsys::runtime::container::Container;
use runsys::runtime::error::RuntimeError;
use runsys::runtime::host::{Failure, HostCall, Namespace, Reply};
use runsys::runtime::path::UnixPath;
use runsys::runtime::record::OciState;
use runsys::runtime::session::{Session, Turn};
use runsys::runtime::state::ContainerState;

fn text(p: &UnixPath) -> String {
    String::from_utf8(p.bytes.clone()).unwrap()
}

fn create() -> Session {
    Container::create("mycontainer".to_string(), UnixPath::from_text("/bundle"))
}

fn container(state: ContainerState) -> Container {
    Container {
        id: "mycontainer".to_string(),
        bundle: UnixPath::from_text("/bundle"),
        state,
        pid: None,
    }
}

fn pending(turn: Turn) -> Session {
    match turn {
        Turn::Pending(s) => s,
        other => panic!("{other:?}"),
    }
}

fn config(terminal: bool) -> String {
    format!(
        r#"{{"process": {{"terminal": {terminal}, "user": {{"uid": 0, "gid": 0}},
            "args": ["/bin/sh", "-c"], "env": ["A=B"], "cwd": "/srv"}},
            "linux": {{"resources": {{"pids": {{"limit": 9}}}}}}}}"#
    )
}

fn show(call: &HostCall) -> String {
    match call {
        HostCall::IsDir(p) => format!("is dir {}", text(p)),
        HostCall::Exists(p) => format!("exists {}", text(p)),
        HostCall::CreateDirAll(p) => format!("mkdir {}", text(p)),
        HostCall::RemoveDir(p) => format!("rmdir {}", text(p)),
        HostCall::MakeFifo(p) => format!("mkfifo {}", text(p)),
        HostCall::ReadText(p) => format!("read {}", text(p)),
        HostCall::ReadState(p) => format!("load {}", text(p)),
        HostCall::WriteText { path, text: t } => format!("{} {t}", text(path)),
        HostCall::WriteState { path, state } => {
            format!("{} {} {:?}", text(path), state.status, state.pid)
        }
        HostCall::OpenForWriting(p) => format!("open {}", text(p)),
        HostCall::WriteOpened(t) => format!("write {t}"),
        HostCall::OpenTerminal => "open terminal".to_string(),
        HostCall::OpenPipe => "open pipe".to_string(),
        HostCall::Fork => "fork".to_string(),
        HostCall::SendSignal => "send signal".to_string(),
        HostCall::AwaitSignal => "await signal".to_string(),
        HostCall::RelayTerminal => "relay terminal".to_string(),
        HostCall::AttachTerminal => "attach terminal".to_string(),
        HostCall::Wait(pid) => format!("wait {pid}"),
        HostCall::Unshare(n) => format!("unshare {n:?}"),
        HostCall::Mount { source, target, kind, flags } => format!(
            "mount {:?} {} {:?} {}{}{}",
            source.as_ref().map(text),
            text(target),
            kind,
            if flags.private { "p" } else { "-" },
            if flags.bind { "b" } else { "-" },
            if flags.recursive { "r" } else { "-" },
        ),
        HostCall::ChangeDir(p) => format!("cd {}", text(p)),
        HostCall::PivotRoot { new_root, put_old } => {
            format!("pivot {} {}", text(new_root), text(put_old))
        }
        HostCall::Detach(p) => format!("detach {}", text(p)),
        HostCall::Exec { program, args, env } => {
            let list = |l: &[runsys::runtime::config::CText]| {
                l.iter().map(|c| String::from_utf8(c.bytes().clone()).unwrap()).collect::<Vec<_>>()
            };
            let program = program.as_ref().map(|p| String::from_utf8(p.bytes().clone()).unwrap());
            format!("exec {:?} {:?} {:?}", program, list(args), list(env))
        }
    }
}

/// Runs a session on a host where nothing fails. The forks are answered one
/// after the other.
fn run(session: Session, config: &str, forks: &[Option<u32>]) -> (Vec<String>, Turn) {
    let mut calls = vec![];
    let mut forks = forks.iter();
    let mut session = session;
    loop {
        calls.push(show(session.call()));
        let reply = match session.call() {
            HostCall::IsDir(_) => Reply::Flag(true),
            HostCall::Exists(p) => Reply::Flag(text(p).ends_with(".json")),
            HostCall::ReadText(_) => Reply::Text(config.to_string()),
            HostCall::ReadState(_) => {
                Reply::Record(OciState::from(&container(ContainerState::Created)))
            }
            HostCall::Fork => Reply::Forked(*forks.next().unwrap()),
            HostCall::Wait(_) => Reply::Exited(Some(3)),
            _ => Reply::Done,
        };
        match session.resume(reply) {
            Turn::Pending(s) => session = s,
            end => return (calls, end),
        }
    }
}

const GROUP: [&str; 6] = [
    "open /sys/fs/cgroup/cgroup.subtree_control",
    "write +cpu +cpuset +memory +pids +io",
    "exists /sys/fs/cgroup/mycontainer",
    "mkdir /sys/fs/cgroup/mycontainer",
    "/sys/fs/cgroup/mycontainer/pids.max 9",
    "/sys/fs/cgroup/mycontainer/cgroup.procs 77",
];

#[test]
fn creation_of_a_container() {
    let (calls, end) = run(create(), "", &[]);
    assert_eq!(
        calls,
        [
            "is dir /bundle",
            "exists /run/runsys/mycontainer",
            "mkdir /run/runsys/mycontainer",
            "exists /bundle/config.json",
            "read /bundle/config.json",
            "mkfifo /run/runsys/mycontainer/exec.fifo",
            "mkdir /run/runsys/mycontainer",
            "/run/runsys/mycontainer/state.json created None",
        ]
    );
    match end {
        Turn::Created(c) => {
            assert_eq!(c.id, "mycontainer");
            assert_eq!(text(&c.bundle), "/bundle");
            assert_eq!(c.state, ContainerState::Created);
            assert_eq!(c.pid, None);
        }
        other => panic!("{other:?}"),
    }
}

#[test]
fn bundle_that_is_no_directory() {
    match create().resume(Reply::Flag(false)) {
        Turn::Failed(RuntimeError::InvalidBundle(p)) => assert_eq!(text(&p), "/bundle"),
        other => panic!("{other:?}"),
    }
}

#[test]
fn identifier_that_is_taken() {
    let s = pending(create().resume(Reply::Flag(true)));
    match s.resume(Reply::Flag(true)) {
        Turn::Failed(RuntimeError::ContainerAlreadyExists(id)) => assert_eq!(id, "mycontainer"),
        other => panic!("{other:?}"),
    }
}

#[test]
fn creation_without_a_configuration() {
    let s = pending(create().resume(Reply::Flag(true)));
    let s = pending(s.resume(Reply::Flag(false)));
    let s = pending(s.resume(Reply::Done));
    assert_eq!(show(s.call()), "exists /bundle/config.json");
    match s.resume(Reply::Flag(false)) {
        Turn::Failed(RuntimeError::ConfigNotFound(p)) => assert_eq!(text(&p), "/bundle/config.json"),
        other => panic!("{other:?}"),
    }
}

#[test]
fn failed_creation_is_reported() {
    let s = pending(create().resume(Reply::Flag(true)));
    let s = pending(s.resume(Reply::Flag(false)));
    let e = std::io::Error::from(std::io::ErrorKind::PermissionDenied);
    let r = s.resume(Reply::Failed(Failure::Io(e)));
    assert!(matches!(r, Turn::Failed(RuntimeError::IoError(_))));
}

#[test]
fn unfit_reply_leaves_the_session() {
    let s = pending(create().resume(Reply::Done));
    assert_eq!(show(s.call()), "is dir /bundle");
    let s = pending(s.resume(Reply::Forked(None)));
    assert_eq!(show(s.call()), "is dir /bundle");
}

#[test]
fn loading_of_a_container() {
    let (calls, end) = run(Container::load("mycontainer"), "", &[]);
    assert_eq!(
        calls,
        [
            "exists /run/runsys/mycontainer/state.json",
            "load /run/runsys/mycontainer/state.json",
        ]
    );
    match end {
        Turn::Loaded(c) => {
            assert_eq!(c.id, "mycontainer");
            assert_eq!(text(&c.bundle), "/bundle");
            assert_eq!(c.state, ContainerState::Created);
        }
        other => panic!("{other:?}"),
    }
}

#[test]
fn loading_of_an_unknown_container() {
    match Container::load("nobody").resume(Reply::Flag(false)) {
        Turn::Failed(RuntimeError::ContainerNotFound(id)) => assert_eq!(id, "nobody"),
        other => panic!("{other:?}"),
    }
}

#[test]
fn loading_of_another_record() {
    let s = pending(Container::load("other").resume(Reply::Flag(true)));
    let o = OciState::from(&container(ContainerState::Created));
    let r = s.resume(Reply::Record(o));
    assert!(matches!(r, Turn::Failed(RuntimeError::IdMismatch { .. })));
}

#[test]
fn loading_of_a_record_that_cannot_be_read() {
    let s = pending(Container::load("other").resume(Reply::Flag(true)));
    let e = serde_json::from_str::<serde_json::Value>("{").unwrap_err();
    let r = s.resume(Reply::Failed(Failure::Json(e)));
    assert!(matches!(r, Turn::Failed(RuntimeError::SerializationError(_))));
}

#[test]
fn parent_of_a_container() {
    let s = container(ContainerState::Created).start().unwrap();
    let (calls, end) = run(s, &config(false), &[Some(77)]);
    let mut want = vec![
        "exists /bundle/config.json",
        "read /bundle/config.json",
        "open pipe",
        "fork",
    ];
    want.extend(GROUP);
    want.extend([
        "mkdir /run/runsys/mycontainer",
        "/run/runsys/mycontainer/state.json running Some(77)",
        "send signal",
        "wait 77",
        "mkdir /run/runsys/mycontainer",
        "/run/runsys/mycontainer/state.json stopped Some(77)",
    ]);
    assert_eq!(calls, want);
    match end {
        Turn::Ended(c) => {
            assert_eq!(c.state, ContainerState::Stopped);
            assert_eq!(c.pid, Some(77));
            assert!(c.start().is_err());
        }
        other => panic!("{other:?}"),
    }
}

#[test]
fn parent_of_a_container_with_a_terminal() {
    let s = container(ContainerState::Created).start().unwrap();
    let (calls, _) = run(s, &config(true), &[Some(77)]);
    assert_eq!(calls[2], "open terminal");
    let n = calls.iter().position(|c| c == "relay terminal").unwrap();
    assert_eq!(calls[n + 1], "send signal");
    assert_eq!(calls[n - 1], "/run/runsys/mycontainer/state.json running Some(77)");
}

#[test]
fn process_of_a_container() {
    let s = container(ContainerState::Created).start().unwrap();
    let (calls, end) = run(s, &config(false), &[None, Some(12)]);
    assert_eq!(
        calls[4..],
        [
            "unshare [Mount, Uts, Ipc, Network, Pid]",
            "mount None / None p-r",
            "mount Some(\"/bundle/rootfs\") /bundle/rootfs None -br",
            "cd /bundle/rootfs",
            "mkdir /bundle/rootfs/.old_root",
            "pivot . /bundle/rootfs/.old_root",
            "cd /",
            "detach /.old_root",
            "rmdir /.old_root",
            "await signal",
            "fork",
            "wait 12",
        ]
    );
    assert!(matches!(end, Turn::Exit(3)));
}

#[test]
fn first_process_in_a_container() {
    let s = container(ContainerState::Created).start().unwrap();
    let (calls, end) = run(s, &config(true), &[None, None]);
    assert_eq!(
        calls[16..],
        [
            "attach terminal",
            "mkdir /proc",
            "mount Some(\"proc\") /proc Some(\"proc\") ---",
            "mkdir /sys",
            "mount Some(\"sysfs\") /sys Some(\"sysfs\") ---",
            "cd /srv",
            "exec Some(\"/bin/sh\") [\"/bin/sh\", \"-c\"] [\"A=B\"]",
        ]
    );
    assert!(matches!(end, Turn::Exit(1)));
}

#[test]
fn no_arguments_name_no_program() {
    let s = container(ContainerState::Created).start().unwrap();
    let config = r#"{"process": {"user": {"uid": 0, "gid": 0}, "cwd": "/"}}"#;
    let (calls, _) = run(s, config, &[None, None]);
    assert_eq!(calls.last().unwrap(), "exec None [] []");
}

#[test]
fn killed_process_counts_as_a_failure() {
    let s = container(ContainerState::Created).start().unwrap();
    let s = pending(s.resume(Reply::Flag(true)));
    let s = pending(s.resume(Reply::Text(config(false))));
    let s = pending(s.resume(Reply::Done));
    let mut s = pending(s.resume(Reply::Forked(None)));
    while !matches!(s.call(), HostCall::Fork) {
        s = pending(s.resume(Reply::Done));
    }
    let s = pending(s.resume(Reply::Forked(Some(12))));
    assert!(matches!(s.resume(Reply::Exited(None)), Turn::Exit(1)));
}

#[test]
fn fifo_that_cannot_be_made() {
    let s = pending(create().resume(Reply::Flag(true)));
    let s = pending(s.resume(Reply::Flag(false)));
    let s = pending(s.resume(Reply::Done));
    let s = pending(s.resume(Reply::Flag(true)));
    let s = pending(s.resume(Reply::Text(String::new())));
    assert_eq!(show(s.call()), "mkfifo /run/runsys/mycontainer/exec.fifo");
    let r = s.resume(Reply::Failed(Failure::Os(Errno::EEXIST)));
    assert!(matches!(r, Turn::Failed(RuntimeError::NixError(Errno::EEXIST))));
}

#[test]
fn refused_start_leaves_the_container() {
    let c = container(ContainerState::Paused);
    assert!(c.start().is_err());
    assert_eq!(c.state, ContainerState::Paused);
    assert_eq!(c.id, "mycontainer");
}

#[test]
fn program_that_cannot_be_run() {
    let s = container(ContainerState::Created).start().unwrap();
    let s = pending(s.resume(Reply::Flag(true)));
    let s = pending(s.resume(Reply::Text(config(false))));
    let s = pending(s.resume(Reply::Done));
    let mut s = pending(s.resume(Reply::Forked(None)));
    assert!(matches!(s.call(), HostCall::Unshare(n) if n.contains(&Namespace::Pid)));
    while !matches!(s.call(), HostCall::Exec { .. }) {
        let reply = match s.call() {
            HostCall::Fork => Reply::Forked(None),
            // What may fail does.
            HostCall::CreateDirAll(_) | HostCall::RemoveDir(_) | HostCall::AwaitSignal => {
                Reply::Failed(Failure::Os(Errno::EIO))
            }
            _ => Reply::Done,
        };
        s = pending(s.resume(reply));
    }
    match s.resume(Reply::Failed(Failure::Os(Errno::ENOENT))) {
        Turn::Failed(RuntimeError::NixError(e)) => assert_eq!(e, Errno::ENOENT),
        other => panic!("{other:?}"),
    }
}

#[test]
fn failed_fork_is_reported() {
    let s = container(ContainerState::Created).start().unwrap();
    let s = pending(s.resume(Reply::Flag(true)));
    let s = pending(s.resume(Reply::Text(config(false))));
    let s = pending(s.resume(Reply::Done));
    let r = s.resume(Reply::Failed(Failure::Os(Errno::EAGAIN)));
    assert!(matches!(r, Turn::Failed(RuntimeError::NixError(Errno::EAGAIN))));
}

#[test]
fn failed_limits_stop_the_start() {
    let s = container(ContainerState::Created).start().unwrap();
    let s = pending(s.resume(Reply::Flag(true)));
    let s = pending(s.resume(Reply::Text(config(false))));
    let s = pending(s.resume(Reply::Done));
    let s = pending(s.resume(Reply::Forked(Some(77))));
    let e = std::io::Error::from(std::io::ErrorKind::NotFound);
    let r = s.resume(Reply::Failed(Failure::Io(e)));
    assert!(matches!(r, Turn::Failed(RuntimeError::CgroupError(_))));
}

#[test]
fn bundle_without_a_configuration() {
    let s = container(ContainerState::Created).start().unwrap();
    match s.resume(Reply::Flag(false)) {
        Turn::Failed(RuntimeError::ConfigNotFound(p)) => assert_eq!(text(&p), "/bundle/config.json"),
        other => panic!("{other:?}"),
    }
}

#[test]
fn bundle_with_a_broken_configuration() {
    let s = container(ContainerState::Created).start().unwrap();
    let s = pending(s.resume(Reply::Flag(true)));
    let r = s.resume(Reply::Text("{".to_string()));
    assert!(matches!(r, Turn::Failed(RuntimeError::ConfigParseError(_))));
}

#[test]
fn only_created_containers_start() {
    for state in [
        ContainerState::Creating,
        ContainerState::Running,
        ContainerState::Stopped,
        ContainerState::Paused,
    ] {
        match container(state).start() {
            Err(RuntimeError::InvalidState(m)) => {
                assert_eq!(m, format!("容器必须处于 Created 状态才能启动,当前: {state:?}"));
            }
            other => panic!("{other:?}"),
        }
    }
}

#[test]
fn commands_open_sessions() {
    assert!(Cli { command: None }.into_session().is_none());
    let command = Commands::Create {
        id: "mycontainer".to_string(),
        bundle: UnixPath::from_text("/bundle"),
    };
    let s = Cli { command: Some(command) }.into_session().unwrap();
    assert_eq!(show(s.call()), "is dir /bundle");
    let command = Commands::Start { id: "mycontainer".to_string() };
    let s = Cli { command: Some(command) }.into_session().unwrap();
    let (calls, end) = run(s, &config(false), &[Some(77)]);
    assert_eq!(calls[1], "load /run/runsys/mycontainer/state.json");
    assert_eq!(calls[2], "exists /bundle/config.json");
    assert!(matches!(end, Turn::Ended(_)));
}

#[test]
fn ended_process_is_recorded_or_refused() {
    let mut c = container(ContainerState::Running);
    assert!(c.handle_exit().is_ok());
    assert_eq!(c.state, ContainerState::Stopped);
    let r = c.handle_exit();
    assert!(matches!(r, Err(RuntimeError::InvalidAction { .. })));
}
