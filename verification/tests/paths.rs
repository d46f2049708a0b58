use std::path::Path;

use runsys::runtime::path::UnixPath;
use runsys::runtime::record::{container_dir, exec_fifo_path, runtime_root, state_path};
use runsys::runtime::text::{signed_decimal, unsigned_decimal};

fn text(p: &UnixPath) -> String {
    String::from_utf8(p.bytes.clone()).unwrap()
}

#[test]
fn locations_of_a_container() {
    assert_eq!(text(&runtime_root()), "/run/runsys");
    assert_eq!(text(&container_dir("mycontainer")), "/run/runsys/mycontainer");
    assert_eq!(text(&state_path("mycontainer")), "/run/runsys/mycontainer/state.json");
    assert_eq!(text(&exec_fifo_path("mycontainer")), "/run/runsys/mycontainer/exec.fifo");
}

#[test]
fn locations_of_odd_identifiers() {
    assert_eq!(text(&state_path("")), "/run/runsys/state.json");
    assert_eq!(text(&state_path("/etc")), "/etc/state.json");
    assert_eq!(text(&state_path("a/")), "/run/runsys/a/state.json");
}

#[test]
fn state_files_of_two_identifiers_differ() {
    assert_ne!(state_path("a").bytes, state_path("b").bytes);
    assert_ne!(state_path("a").bytes, state_path("a/a").bytes);
}

#[test]
fn join_is_that_of_std() {
    let bases = ["", "/", "a", "a/", "/a", "/a/b", "/a/b/", "./x"];
    let parts = ["", "/", "b", "b/c", "/b", "..", "é"];
    for base in bases {
        for part in parts {
            let ours = UnixPath::from_text(base).join(part);
            let theirs = Path::new(base).join(part);
            assert_eq!(text(&ours), theirs.to_str().unwrap(), "{base:?} {part:?}");
        }
    }
}

#[test]
fn parent_is_that_of_std() {
    let paths = [
        "", "/", "//", "/.", "/./", ".", "./", "./.", "..", "../", "a", "a/", "a/.", "a//.//",
        "./a", "./a/", "/a", "/a/", "/a/b", "/a//b", "/a/./b", "/a/b/..", "/a/b/.", "a/b",
        "/run/x", "/run/./x", "/run/x/..",
        ".a", ".a/b", "..a", "/run/runsys/x/state.json", "/run/runsys//state.json",
        "/run/runsys/x/./state.json",
    ];
    for path in paths {
        let ours = UnixPath::from_text(path).parent().map(|p| text(&p));
        let theirs = Path::new(path).parent().map(|p| p.to_str().unwrap().to_string());
        assert_eq!(ours, theirs, "{path:?}");
    }
}

#[test]
fn parent_of_a_state_file_is_the_container_dir() {
    let parent = state_path("mycontainer").parent().unwrap();
    assert_eq!(parent.bytes, container_dir("mycontainer").bytes);
}

#[test]
fn path_text_replaces_ill_formed_bytes() {
    assert_eq!(UnixPath::from_text("/é").to_string_lossy(), "/é");
    let odd = UnixPath { bytes: vec![b'/', 0xff, b'a'] };
    assert_eq!(odd.to_string_lossy(), "/\u{fffd}a");
}

#[test]
fn clone_of_a_path_has_its_bytes() {
    let odd = UnixPath { bytes: vec![b'/', 0xff, b'a'] };
    assert_eq!(odd.clone().bytes, odd.bytes);
}

#[test]
fn decimals() {
    for n in [0u64, 7, 10, 42, 99, 100, 1024, u64::MAX] {
        assert_eq!(unsigned_decimal(n), n.to_string());
    }
    for n in [0i64, -1, 5, -10, 268435456, i64::MIN, i64::MAX] {
        assert_eq!(signed_decimal(n), n.to_string());
    }
    assert_eq!(signed_decimal(-120), "-120");
}
