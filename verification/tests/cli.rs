use mini_env::cli::{launch_for, Args, Launch};

fn args(mode: Option<&str>, operate: Option<&str>, key: Option<&str>, value: Option<&str>) -> Args {
    Args {
        mode: mode.map(|s| s.to_string()),
        operate: operate.map(|s| s.to_string()),
        key: key.map(|s| s.to_string()),
        value: value.map(|s| s.to_string()),
    }
}

#[test]
fn no_mode_opens_settings() {
    assert!(matches!(launch_for(args(None, None, None, None)), Launch::Settings));
    assert!(matches!(launch_for(args(None, Some("modify"), Some("K"), None)), Launch::Settings));
}

#[test]
fn cmd_mode_sets_system_variable() {
    match launch_for(args(Some("cmd"), Some("modify"), Some("PATH"), Some("C:\\a"))) {
        Launch::SetEnv { operate, system, key, value } => {
            assert_eq!(operate, "modify");
            assert!(system);
            assert_eq!(key, "PATH");
            assert_eq!(value, "C:\\a");
        }
        other => panic!("unexpected {:?}", other),
    }
}

#[test]
fn cmd_mode_defaults() {
    match launch_for(args(Some("cmd"), None, None, Some("v"))) {
        Launch::SetEnv { operate, key, .. } => {
            assert_eq!(operate, "new");
            assert_eq!(key, "");
        }
        other => panic!("unexpected {:?}", other),
    }
}

#[test]
fn ui_mode_opens_dialog() {
    match launch_for(args(Some("ui"), Some("new"), Some("ignored"), Some("C:\\b"))) {
        Launch::EnvDialog { operate, value } => {
            assert_eq!(operate, "new");
            assert_eq!(value, "C:\\b");
        }
        other => panic!("unexpected {:?}", other),
    }
}

#[test]
fn unknown_mode_does_nothing() {
    assert!(matches!(launch_for(args(Some("CMD"), None, None, Some("v"))), Launch::Nothing));
}
