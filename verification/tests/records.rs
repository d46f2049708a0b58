use runsys::runtime::container::Container;
use runsys::runtime::error::RuntimeError;
use runsys::runtime::host::{HostCall, Reply};
use runsys::runtime::path::UnixPath;
use runsys::runtime::record::OciState;
use runsys::runtime::script::{Progress, Script};
use runsys::runtime::state::ContainerState;

fn container(pid: Option<u32>) -> Container {
    Container {
        id: "mycontainer".to_string(),
        bundle: UnixPath::from_text("/path/to/bundle"),
        state: ContainerState::Created,
        pid,
    }
}

fn pending(p: Progress) -> Script {
    match p {
        Progress::Pending(s) => s,
        _ => panic!("the script ended"),
    }
}

#[test]
fn record_of_a_container() {
    let o = OciState::from(&container(None));
    assert_eq!(o.oci_version, "1.0.2");
    assert_eq!(o.id, "mycontainer");
    assert_eq!(o.status, "created");
    assert_eq!(o.pid, None);
    assert_eq!(o.bundle, "/path/to/bundle");
}

#[test]
fn record_and_back() {
    for pid in [None, Some(0), Some(41), Some(u32::MAX), Some(1 << 31)] {
        let c = container(pid);
        let d = Container::try_from(OciState::from(&c)).unwrap();
        assert_eq!(d.id, c.id);
        assert_eq!(d.bundle.bytes, c.bundle.bytes);
        assert_eq!(d.state, c.state);
        assert_eq!(d.pid, c.pid);
    }
    assert_eq!(OciState::from(&container(Some(u32::MAX))).pid, Some(-1));
}

#[test]
fn record_of_an_ill_formed_bundle() {
    let mut c = container(None);
    c.bundle = UnixPath { bytes: vec![b'/', 0xff] };
    let o = OciState::from(&c);
    assert_eq!(o.bundle, "/\u{fffd}");
    assert_eq!(Container::try_from(o).unwrap().bundle.bytes, "/\u{fffd}".as_bytes());
}

#[test]
fn unknown_status_is_refused() {
    let mut o = OciState::from(&container(None));
    o.status = "dead".to_string();
    match Container::try_from(o) {
        Err(RuntimeError::InvalidState(m)) => assert_eq!(m, "未知状态: dead"),
        other => panic!("{other:?}"),
    }
}

#[test]
fn record_of_another_identifier_is_refused() {
    let o = OciState::from(&container(None));
    match o.loaded("other") {
        Err(RuntimeError::IdMismatch { expected, got }) => {
            assert_eq!(expected, "other");
            assert_eq!(got, "mycontainer");
        }
        other => panic!("{other:?}"),
    }
    let o = OciState::from(&container(None));
    assert_eq!(o.loaded("mycontainer").unwrap().id, "mycontainer");
}

#[test]
fn save_makes_the_directory_and_writes() {
    let s = container(Some(3)).save();
    match s.call() {
        HostCall::CreateDirAll(p) => assert_eq!(p.bytes, b"/run/runsys/mycontainer"),
        other => panic!("{other:?}"),
    }
    let s = pending(s.resume(Reply::Done));
    match s.call() {
        HostCall::WriteState { path, state } => {
            assert_eq!(path.bytes, b"/run/runsys/mycontainer/state.json");
            assert_eq!(state.pid, Some(3));
            assert_eq!(state.status, "created");
        }
        other => panic!("{other:?}"),
    }
    assert!(matches!(s.resume(Reply::Done), Progress::Finished(Reply::Done)));
}

#[test]
fn save_under_a_given_identifier() {
    let s = OciState::from(&container(None)).save("x/");
    match s.call() {
        HostCall::CreateDirAll(p) => assert_eq!(p.bytes, b"/run/runsys/x"),
        other => panic!("{other:?}"),
    }
}

#[test]
fn load_asks_before_it_reads() {
    let s = OciState::load("mycontainer");
    match s.call() {
        HostCall::Exists(p) => assert_eq!(p.bytes, b"/run/runsys/mycontainer/state.json"),
        other => panic!("{other:?}"),
    }
    let s = pending(s.resume(Reply::Flag(true)));
    match s.call() {
        HostCall::ReadState(p) => assert_eq!(p.bytes, b"/run/runsys/mycontainer/state.json"),
        other => panic!("{other:?}"),
    }
    let r = s.resume(Reply::Record(OciState::from(&container(None))));
    assert!(matches!(r, Progress::Finished(Reply::Record(_))));
}

#[test]
fn load_of_an_unknown_identifier() {
    match OciState::load("nobody").resume(Reply::Flag(false)) {
        Progress::Failed(RuntimeError::ContainerNotFound(id)) => assert_eq!(id, "nobody"),
        _ => panic!("found"),
    }
}

#[test]
fn clones_keep_their_fields() {
    let o = OciState::from(&container(Some(9)));
    let p = o.clone();
    assert_eq!(
        (p.oci_version, p.id, p.status, p.pid, p.bundle),
        (o.oci_version, o.id, o.status, o.pid, o.bundle)
    );
    let c = container(Some(9));
    let d = c.clone();
    assert_eq!((d.id, d.bundle.bytes, d.state, d.pid), (c.id, c.bundle.bytes, c.state, c.pid));
}
