use runsys::runtime::config::{read_config, CText, Launch};
use runsys::runtime::error::RuntimeError;

const EXAMPLE: &str = r#"{
  "ociVersion": "1.2.1",
  "process": {
    "terminal": true,
    "user": { "uid": 0, "gid": 0 },
    "args": ["/bin/sh"],
    "env": [
      "PATH=/usr/local/sbin:/usr/local/bin:/usr/sbin:/usr/bin:/sbin:/bin",
      "TERM=xterm"
    ],
    "cwd": "/"
  },
  "root": { "path": "rootfs", "readonly": true },
  "hostname": "runc",
  "linux": {
    "resources": {
      "memory": { "limit": 268435456 },
      "cpu": { "quota": 100000, "period": 100000 }
    }
  }
}"#;

fn launch(text: &str) -> Result<Launch, RuntimeError> {
    Launch::new(&read_config(text)?)
}

fn process(fields: &str) -> String {
    format!(r#"{{"process": {{"user": {{"uid": 0, "gid": 0}}, {fields}}}}}"#)
}

fn texts(list: &[CText]) -> Vec<String> {
    list.iter().map(|c| String::from_utf8(c.bytes().clone()).unwrap()).collect()
}

#[test]
fn example_is_launched() {
    let l = launch(EXAMPLE).unwrap();
    assert_eq!(texts(&l.args), ["/bin/sh"]);
    assert_eq!(
        texts(&l.env),
        ["PATH=/usr/local/sbin:/usr/local/bin:/usr/sbin:/usr/bin:/sbin:/bin", "TERM=xterm"]
    );
    assert_eq!(l.cwd, "/");
    assert!(l.terminal);
    let r = l.linux.unwrap().resources.unwrap();
    let m = r.memory.unwrap();
    assert_eq!((m.limit, m.reservation), (Some(268435456), None));
    let c = r.cpu.unwrap();
    assert_eq!((c.quota, c.period, c.shares), (Some(100000), Some(100000), None));
    assert!(r.pids.is_none());
}

#[test]
fn all_limits_are_read() {
    let text = r#"{"linux": {"resources": {
        "memory": {"limit": -1, "reservation": 5},
        "cpu": {"quota": -7, "period": 8, "shares": 9},
        "pids": {"limit": 10}}}}"#;
    let c = read_config(text).unwrap();
    assert!(c.process.is_none());
    let r = c.linux.unwrap().resources.unwrap();
    let m = r.memory.unwrap();
    assert_eq!((m.limit, m.reservation), (Some(-1), Some(5)));
    let p = r.cpu.unwrap();
    assert_eq!((p.quota, p.period, p.shares), (Some(-7), Some(8), Some(9)));
    assert_eq!(r.pids.unwrap().limit, 10);
}

#[test]
fn defaults_of_a_launch() {
    let l = launch(&process(r#""cwd": """#)).unwrap();
    assert!(l.args.is_empty());
    assert!(l.env.is_empty());
    assert_eq!(l.cwd, "/");
    assert!(!l.terminal);
    assert!(l.linux.is_none());
    let l = launch(&process(r#""cwd": "/srv", "terminal": false"#)).unwrap();
    assert_eq!(l.cwd, "/srv");
    assert!(!l.terminal);
}

#[test]
fn text_that_is_no_configuration() {
    for text in ["", "{", "[1]", r#"{"process": {}}"#, r#"{"linux": 3}"#] {
        assert!(matches!(read_config(text), Err(RuntimeError::ConfigParseError(_))), "{text}");
    }
}

#[test]
fn parse_errors_are_those_of_the_parser() {
    for text in ["", "{", "[1]", r#"{"process": {}}"#, r#"{"linux": 3}"#] {
        let theirs = serde_json::from_str::<oci_spec::runtime::Spec>(text).unwrap_err();
        match read_config(text) {
            Err(RuntimeError::ConfigParseError(ours)) => {
                assert_eq!(ours.to_string(), theirs.to_string());
                assert_eq!((ours.line(), ours.column()), (theirs.line(), theirs.column()));
            }
            other => panic!("{other:?}"),
        }
    }
}

#[test]
fn clone_of_a_c_text_has_its_bytes() {
    let c = CText::new("/bin/sh").unwrap();
    assert_eq!(c.clone().bytes(), c.bytes());
}

#[test]
fn configuration_without_a_process() {
    match launch("{}") {
        Err(RuntimeError::InvalidState(m)) => assert_eq!(m, "config.json 缺少 process 配置"),
        other => panic!("{other:?}"),
    }
}

#[test]
fn zero_bytes_are_refused() {
    match launch(&process(r#""cwd": "/", "args": ["ok", "a\u0000b\u0000"], "env": ["\u0000"]"#)) {
        Err(RuntimeError::CStringError(e)) => {
            assert_eq!(e.position, 1);
            assert_eq!(e.bytes, b"a\0b\0");
        }
        other => panic!("{other:?}"),
    }
    match launch(&process(r#""cwd": "/", "args": ["ok"], "env": ["K=V", "é\u0000"]"#)) {
        Err(RuntimeError::CStringError(e)) => {
            assert_eq!(e.position, 2);
            assert_eq!(e.bytes, "é\0".as_bytes());
        }
        other => panic!("{other:?}"),
    }
}

#[test]
fn c_texts_hold_no_zero_byte() {
    for text in ["", "a", "é", "A=B"] {
        assert_eq!(CText::new(text).unwrap().bytes().as_slice(), text.as_bytes());
    }
    for (text, position) in [("a\0", 1), ("\0", 0), ("ab\0c\0", 2), ("é\0", 2)] {
        let e = CText::new(text).unwrap_err();
        assert_eq!(e.position, position);
        assert_eq!(e.bytes, text.as_bytes());
    }
}
