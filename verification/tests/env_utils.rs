use mini_env::env_utils::{parse_operation, plan_env_update, EnvOperation, RegistryRoot};
use mini_env::text::same_text;

#[test]
fn operation_word_new_writes_afresh() {
    assert_eq!(parse_operation("new"), EnvOperation::New);
    assert_eq!(parse_operation("modify"), EnvOperation::Modify);
    assert_eq!(parse_operation("New"), EnvOperation::Modify);
    assert_eq!(parse_operation(""), EnvOperation::Modify);
}

#[test]
fn system_update_targets_machine_environment() {
    let u = plan_env_update("new", true, "JAVA_HOME", "C:\\jdk");
    assert_eq!(u.root, RegistryRoot::LocalMachine);
    assert_eq!(u.subkey, "SYSTEM\\CurrentControlSet\\Control\\Session Manager\\Environment");
    assert_eq!(u.name, "JAVA_HOME");
    assert_eq!(u.value, "C:\\jdk");
    assert_eq!(u.operation, EnvOperation::New);
    assert!(!u.needs_current_value());
}

#[test]
fn user_update_targets_user_environment() {
    let u = plan_env_update("modify", false, "PATH", "D:\\tools");
    assert_eq!(u.root, RegistryRoot::CurrentUser);
    assert_eq!(u.subkey, "Environment");
    assert_eq!(u.operation, EnvOperation::Modify);
    assert!(u.needs_current_value());
}

#[test]
fn new_value_replaces_current() {
    let u = plan_env_update("new", true, "X", "v2");
    assert_eq!(u.data_to_write(None), "v2");
    assert_eq!(u.data_to_write(Some("v1")), "v2");
}

#[test]
fn modify_appends_with_semicolon() {
    let u = plan_env_update("modify", true, "PATH", "D:\\tools");
    assert_eq!(u.data_to_write(Some("C:\\bin;C:\\x")), "C:\\bin;C:\\x;D:\\tools");
    assert_eq!(u.data_to_write(Some("")), ";D:\\tools");
}

#[test]
fn same_text_compares_characters() {
    assert!(same_text("环境", "环境"));
    assert!(!same_text("cmd", "cmd "));
    assert!(same_text("", ""));
}
