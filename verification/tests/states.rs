use runsys::runtime::action::Action;
use runsys::runtime::container::Container;
use runsys::runtime::error::RuntimeError;
use runsys::runtime::path::UnixPath;
use runsys::runtime::state::ContainerState;

const STATES: [ContainerState; 5] = [
    ContainerState::Creating,
    ContainerState::Created,
    ContainerState::Running,
    ContainerState::Stopped,
    ContainerState::Paused,
];

const ACTIONS: [Action; 5] =
    [Action::Create, Action::Start, Action::Pause, Action::Resume, Action::Kill];

fn container(state: ContainerState) -> Container {
    Container {
        id: "c".to_string(),
        bundle: UnixPath::from_text("/b"),
        state,
        pid: Some(7),
    }
}

#[test]
fn every_action_in_every_state() {
    let allowed = [
        ("Creating", "Create", ContainerState::Created),
        ("Created", "Start", ContainerState::Running),
        ("Running", "Pause", ContainerState::Paused),
        ("Paused", "Resume", ContainerState::Running),
        ("Running", "Kill", ContainerState::Stopped),
        ("Paused", "Kill", ContainerState::Stopped),
    ];
    for state in STATES {
        for action in ACTIONS {
            let s = format!("{state:?}");
            let a = format!("{action:?}");
            let want = allowed.iter().find(|x| x.0 == s && x.1 == a).map(|x| x.2);
            match (state.apply(action), want) {
                (Ok(Some(next)), Some(w)) => assert_eq!(next, w),
                (Err(RuntimeError::InvalidAction { state: s2, action: a2 }), None) => {
                    assert_eq!(s2, state);
                    assert_eq!(format!("{a2:?}"), a);
                }
                other => panic!("{s} {a}: {other:?}"),
            }
        }
    }
}

#[test]
fn words_and_names_of_states() {
    let all = [
        (ContainerState::Creating, "creating", "Creating"),
        (ContainerState::Created, "created", "Created"),
        (ContainerState::Running, "running", "Running"),
        (ContainerState::Stopped, "stopped", "Stopped"),
        (ContainerState::Paused, "paused", "Paused"),
    ];
    for (state, word, name) in all {
        assert_eq!(state.to_string(), word);
        assert_eq!(state.name(), name);
        assert_eq!(ContainerState::from_word(&word.to_string()), Some(state));
    }
    assert_eq!(ContainerState::from_word(&"Running".to_string()), None);
    assert_eq!(ContainerState::from_word(&String::new()), None);
}

#[test]
fn resume_undoes_pause() {
    let mut c = container(ContainerState::Running);
    assert!(c.apply_action(Action::Pause).is_ok());
    assert_eq!(c.state, ContainerState::Paused);
    assert!(c.apply_action(Action::Resume).is_ok());
    assert_eq!(c.state, ContainerState::Running);
    assert_eq!(c.pid, Some(7));
    assert_eq!(c.id, "c");
}

#[test]
fn refused_action_changes_nothing() {
    let mut c = container(ContainerState::Stopped);
    let r = c.apply_action(Action::Start);
    assert!(matches!(
        r,
        Err(RuntimeError::InvalidAction { state: ContainerState::Stopped, action: Action::Start })
    ));
    assert_eq!(c.state, ContainerState::Stopped);
    assert_eq!(c.pid, Some(7));
}
