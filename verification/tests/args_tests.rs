use rstimer::args::{Action, Args};
use rstimer::error::Error;

fn argv(parts: &[&str]) -> Vec<String> {
    parts.iter().map(|p| p.to_string()).collect()
}

#[test]
fn no_arguments_mean_no_action_and_no_session() {
    let args = Args::parse(argv(&["rstimer"])).unwrap();
    assert!(args.action.is_none());
    assert!(args.session.is_none());
}

#[test]
fn flags_select_their_actions() {
    for flag in ["-h", "--help"] {
        let args = Args::parse(argv(&["rstimer", flag])).unwrap();
        assert_eq!(args.action, Some(Action::Help));
        assert!(args.session.is_none());
    }
    for flag in ["-a", "--add"] {
        let args = Args::parse(argv(&["rstimer", flag])).unwrap();
        assert_eq!(args.action, Some(Action::Add));
    }
    for flag in ["-l", "--list"] {
        let args = Args::parse(argv(&["rstimer", flag])).unwrap();
        assert_eq!(args.action, Some(Action::List));
    }
}

#[test]
fn a_plain_argument_is_a_session_name() {
    let args = Args::parse(argv(&["rstimer", "my3x3"])).unwrap();
    assert!(args.action.is_none());
    assert_eq!(args.session.as_deref(), Some("my3x3"));
}

#[test]
fn more_than_one_argument_is_an_error() {
    let r = Args::parse(argv(&["rstimer", "-a", "name"]));
    match r {
        Err(Error::Msg(m)) => assert_eq!(m, "Invalid number of arguments"),
        other => panic!("expected a usage error, got {:?}", other),
    }
}

#[test]
fn error_messages_describe_the_kinds() {
    assert_eq!(
        Error::AlreadyExists.message(),
        "session with this name already exists"
    );
    assert_eq!(Error::NoSuchSession.message(), "non existing session");
    assert_eq!(Error::Exit.message(), "exit");
    assert_eq!(Error::Io("boom".to_string()).message(), "boom");
}
