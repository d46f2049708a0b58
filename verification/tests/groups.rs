use runsys::runtime::cgroup::CgroupManager;
use runsys::runtime::config::{CpuConfig, LinuxConfig, MemoryConfig, PidsConfig, ResourceConfig};
use runsys::runtime::error::RuntimeError;
use runsys::runtime::host::{Failure, HostCall, Reply};
use runsys::runtime::script::{Progress, Script};

fn text(bytes: &[u8]) -> String {
    String::from_utf8(bytes.to_vec()).unwrap()
}

fn show(call: &HostCall) -> String {
    match call {
        HostCall::Exists(p) => format!("exists {}", text(&p.bytes)),
        HostCall::CreateDirAll(p) => format!("mkdir {}", text(&p.bytes)),
        HostCall::OpenForWriting(p) => format!("open {}", text(&p.bytes)),
        HostCall::WriteOpened(t) => format!("write {t}"),
        HostCall::WriteText { path, text: t } => format!("{} {t}", text(&path.bytes)),
        other => panic!("{other:?}"),
    }
}

fn calls(script: Script, present: bool) -> Vec<String> {
    let mut out = vec![];
    let mut script = script;
    loop {
        out.push(show(script.call()));
        let reply = match script.call() {
            HostCall::Exists(_) => Reply::Flag(present),
            _ => Reply::Done,
        };
        match script.resume(reply) {
            Progress::Pending(s) => script = s,
            Progress::Finished(_) => return out,
            Progress::Failed(e) => panic!("{e:?}"),
        }
    }
}

fn limits(
    memory: Option<MemoryConfig>,
    cpu: Option<CpuConfig>,
    pids: Option<PidsConfig>,
) -> Option<LinuxConfig> {
    Some(LinuxConfig { resources: Some(ResourceConfig { memory, cpu, pids }) })
}

fn failed() -> Reply {
    Reply::Failed(Failure::Io(std::io::Error::from(std::io::ErrorKind::PermissionDenied)))
}

#[test]
fn group_of_a_container() {
    assert_eq!(text(&CgroupManager::new("abc").root_path().bytes), "/sys/fs/cgroup/abc");
    assert_eq!(text(&CgroupManager::new("/x").root_path().bytes), "/x");
}

#[test]
fn clone_of_a_group_is_that_group() {
    let group = CgroupManager::new("abc");
    assert_eq!(group.clone().root_path().bytes, group.root_path().bytes);
}

#[test]
fn all_limits_are_applied() {
    let linux = limits(
        Some(MemoryConfig { limit: Some(268435456), reservation: Some(-1) }),
        Some(CpuConfig { quota: Some(50000), period: Some(100000), shares: Some(512) }),
        Some(PidsConfig { limit: 64 }),
    );
    assert_eq!(
        calls(CgroupManager::new("abc").apply_limits(&linux, 4321), false),
        [
            "open /sys/fs/cgroup/cgroup.subtree_control",
            "write +cpu +cpuset +memory +pids +io",
            "exists /sys/fs/cgroup/abc",
            "mkdir /sys/fs/cgroup/abc",
            "/sys/fs/cgroup/abc/memory.max 268435456",
            "/sys/fs/cgroup/abc/memory.low -1",
            "/sys/fs/cgroup/abc/cpu.max 50000 100000",
            "/sys/fs/cgroup/abc/cpu.weight 512",
            "/sys/fs/cgroup/abc/pids.max 64",
            "/sys/fs/cgroup/abc/cgroup.procs 4321",
        ]
    );
}

#[test]
fn present_group_is_not_made() {
    assert_eq!(
        calls(CgroupManager::new("abc").apply_limits(&None, 5), true),
        [
            "open /sys/fs/cgroup/cgroup.subtree_control",
            "write +cpu +cpuset +memory +pids +io",
            "exists /sys/fs/cgroup/abc",
            "/sys/fs/cgroup/abc/cgroup.procs 5",
        ]
    );
}

#[test]
fn bandwidth_needs_quota_and_period() {
    for (quota, period) in [(None, None), (Some(1), None), (None, Some(1))] {
        let linux = limits(None, Some(CpuConfig { quota, period, shares: None }), None);
        let all = calls(CgroupManager::new("abc").apply_limits(&linux, 5), true);
        assert!(all.iter().all(|c| !c.contains("cpu.max")));
        assert_eq!(all.len(), 4);
    }
}

#[test]
fn failed_limit_is_reported() {
    let script = CgroupManager::new("abc").apply_limits(&None, 5);
    assert!(matches!(script.resume(failed()), Progress::Failed(RuntimeError::CgroupError(_))));
}

#[test]
fn refused_controllers_are_left_off() {
    let script = CgroupManager::new("abc").apply_limits(&None, 5);
    let script = match script.resume(Reply::Done) {
        Progress::Pending(s) => s,
        _ => panic!("ended"),
    };
    match script.resume(failed()) {
        Progress::Pending(s) => assert_eq!(show(s.call()), "exists /sys/fs/cgroup/abc"),
        _ => panic!("ended"),
    }
}
