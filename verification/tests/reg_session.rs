use std::collections::{BTreeMap, BTreeSet};

use mini_env::menu_plan::{add_menu_plan, clearing_plan, registration_plan};
use mini_env::reg_session::{NoticeKind, Outcome, RegAction, RegSession, Step};

fn short(a: &RegAction) -> String {
    match a {
        RegAction::Open { path, must_succeed } => format!("open {} {}", path, must_succeed),
        RegAction::Create { parent, child } => format!("create {} / {}", parent, child),
        RegAction::SetValue { key, name, data } => format!("set {} [{}] = {}", key, name, data),
        RegAction::DeleteTree { parent, child } => format!("delete {} / {}", parent, child),
        RegAction::Notify { notice } => format!("notify {}", notice.text),
        RegAction::LocateProgram => "locate".to_string(),
        RegAction::Finished => "finished".to_string(),
    }
}

/// Runs a session, failing the actions whose positions are in `fail`; the
/// program is found at `E`.
fn run(mut s: RegSession, fail: &[usize]) -> Vec<String> {
    let mut out = Vec::new();
    let mut outcome = Outcome::Succeeded;
    loop {
        let a = s.next(outcome);
        let done = matches!(a, RegAction::Finished);
        if matches!(a, RegAction::LocateProgram) {
            s.program_located("E");
        }
        out.push(short(&a));
        if done {
            break;
        }
        outcome = if fail.contains(&(out.len() - 1)) { Outcome::Failed } else { Outcome::Succeeded };
    }
    out
}

#[test]
fn all_success_replays_plan() {
    let out = run(RegSession::new(registration_plan("K")), &[]);
    assert_eq!(out.len(), 31);
    assert_eq!(out[0], "open Directory\\shell true");
    assert_eq!(out[1], "create Directory\\shell / miniEnv");
    assert_eq!(out[2], "open Directory\\shell\\miniEnv true");
    assert_eq!(out[3], "locate");
    assert_eq!(out[4], "set Directory\\shell\\miniEnv [select_keys] = K");
    assert_eq!(out[6], "set Directory\\shell\\miniEnv [Icon] = E");
    assert_eq!(out[29], "notify 注册完成");
    assert_eq!(out[30], "finished");
}

#[test]
fn failed_menu_creation_skips_to_report() {
    let out = run(RegSession::new(registration_plan("K")), &[1]);
    assert_eq!(
        out,
        vec![
            "open Directory\\shell true".to_string(),
            "create Directory\\shell / miniEnv".to_string(),
            "notify 注册完成".to_string(),
            "finished".to_string(),
        ]
    );
}

#[test]
fn failed_entry_creation_skips_only_that_entry() {
    // action 8 creates the first entry; its six nested steps are skipped
    let out = run(RegSession::new(registration_plan("K")), &[8]);
    assert_eq!(out[8], "create Directory\\shell\\miniEnv / shell\\add_to_path");
    assert_eq!(out[9], "create Directory\\shell\\miniEnv / shell\\add_to_current_UI");
    assert_eq!(out.len(), 31 - 6);
}

#[test]
fn failed_command_creation_skips_command_value() {
    // action 12 creates the `command` key of the first entry
    let out = run(RegSession::new(registration_plan("K")), &[12]);
    assert_eq!(out[12], "create Directory\\shell\\miniEnv\\shell\\add_to_path / command");
    assert_eq!(out[13], "create Directory\\shell\\miniEnv / shell\\add_to_current_UI");
}

#[test]
fn failed_writes_are_ignored() {
    let a = run(RegSession::new(registration_plan("K")), &[4, 10]);
    let b = run(RegSession::new(registration_plan("K")), &[]);
    assert_eq!(a, b);
}

#[test]
fn unregistered_menu_shows_fallback() {
    let out = run(RegSession::new(add_menu_plan("PATH", "T")), &[0]);
    assert_eq!(
        out,
        vec![
            "open Directory\\shell\\miniEnv false".to_string(),
            "notify 请先注册右键菜单".to_string(),
            "finished".to_string(),
        ]
    );
}

#[test]
fn registered_menu_adds_entry() {
    let out = run(RegSession::new(add_menu_plan("PATH", "T")), &[]);
    assert_eq!(out.len(), 11);
    assert_eq!(out[1], "locate");
    assert_eq!(out[2], "create Directory\\shell\\miniEnv / shell\\add_to_path");
    assert_eq!(out[9], "notify 已将 T 添加到右键菜单");
}

#[test]
fn clearing_runs_three_actions() {
    let out = run(RegSession::new(clearing_plan()), &[1]);
    assert_eq!(
        out,
        vec![
            "open Directory\\shell true".to_string(),
            "delete Directory\\shell / miniEnv".to_string(),
            "notify 清理完成".to_string(),
            "finished".to_string(),
        ]
    );
}

#[test]
fn finished_stays_finished() {
    let mut s = RegSession::new(Vec::new());
    assert!(matches!(s.next(Outcome::Succeeded), RegAction::Finished));
    assert!(matches!(s.next(Outcome::Failed), RegAction::Finished));
    assert_eq!(NoticeKind::Error, NoticeKind::Error);
}

#[test]
fn location_without_request_changes_nothing() {
    let mut s = RegSession::new(clearing_plan());
    s.program_located("E");
    assert!(matches!(s.next(Outcome::Succeeded), RegAction::Open { .. }));
}

/// An in-memory registry: existing keys and string values by (key, name), with
/// key and value names compared without case, as Windows does.
#[derive(Clone, Debug, PartialEq, Default)]
struct Registry {
    keys: BTreeSet<String>,
    values: BTreeMap<(String, String), String>,
}

impl Registry {
    fn fold(s: &str) -> String {
        s.to_uppercase()
    }

    fn create(&mut self, parent: &str, child: &str) {
        let mut path = Registry::fold(parent);
        for part in child.split('\\') {
            path = format!("{}\\{}", path, Registry::fold(part));
            self.keys.insert(path.clone());
        }
    }

    fn within(k: &str, p: &str) -> bool {
        k == p || k.starts_with(&format!("{}\\", p))
    }

    /// Runs a plan with every action succeeding and the program found at `E`.
    fn apply(&mut self, plan: Vec<Step>) {
        let mut s = RegSession::new(plan);
        loop {
            match s.next(Outcome::Succeeded) {
                RegAction::Open { path, .. } => {
                    assert!(self.keys.contains(&Registry::fold(&path)), "{}", path)
                }
                RegAction::Create { parent, child } => self.create(&parent, &child),
                RegAction::SetValue { key, name, data } => {
                    self.keys.insert(Registry::fold(&key));
                    self.values.insert((Registry::fold(&key), Registry::fold(&name)), data);
                }
                RegAction::DeleteTree { parent, child } => {
                    let p = Registry::fold(&format!("{}\\{}", parent, child));
                    self.keys.retain(|k| !Registry::within(k, &p));
                    self.values.retain(|(k, _), _| !Registry::within(k, &p));
                }
                RegAction::Notify { .. } => {}
                RegAction::LocateProgram => s.program_located("E"),
                RegAction::Finished => break,
            }
        }
    }
}

fn base() -> Registry {
    let mut r = Registry::default();
    r.keys.insert("DIRECTORY".to_string());
    r.keys.insert("DIRECTORY\\SHELL".to_string());
    r.keys.insert("DIRECTORY\\SHELL\\OTHER".to_string());
    r.values.insert(("DIRECTORY\\SHELL\\OTHER".to_string(), "MUIVERB".to_string()), "x".to_string());
    r
}

#[test]
fn registering_twice_is_registering_once() {
    let mut once = base();
    once.apply(registration_plan("K"));
    let mut twice = once.clone();
    twice.apply(registration_plan("K"));
    assert_eq!(once, twice);
    assert!(once.keys.contains("DIRECTORY\\SHELL\\MINIENV\\SHELL"));
}

#[test]
fn adding_twice_is_adding_once() {
    let mut once = base();
    once.apply(registration_plan("K"));
    once.apply(add_menu_plan("GOPATH", "go"));
    let mut twice = once.clone();
    twice.apply(add_menu_plan("GOPATH", "go"));
    assert_eq!(once, twice);
}

#[test]
fn registering_again_keeps_added_entries() {
    let mut r = base();
    r.apply(registration_plan("K"));
    r.apply(add_menu_plan("GOPATH", "go"));
    let before = r.clone();
    r.apply(registration_plan("K"));
    assert_eq!(r, before);
    assert!(r.keys.contains("DIRECTORY\\SHELL\\MINIENV\\SHELL\\ADD_TO_GOPATH"));
}

#[test]
fn clearing_undoes_registration_and_additions() {
    let start = base();
    let mut r = start.clone();
    r.apply(registration_plan("K"));
    r.apply(add_menu_plan("GOPATH", "go"));
    r.apply(add_menu_plan("TEMP", "tmp"));
    r.apply(clearing_plan());
    assert_eq!(r, start);
}

#[test]
fn adding_path_after_registration_changes_nothing() {
    let mut r = base();
    r.apply(registration_plan("K"));
    let before = r.clone();
    r.apply(add_menu_plan("PATH", "添加到PATH环境变量"));
    assert_eq!(r, before);
}

#[test]
fn adding_entry_is_local() {
    let mut r = base();
    r.apply(registration_plan("K"));
    let before = r.clone();
    r.apply(add_menu_plan("GOPATH", "go"));
    let entry = "DIRECTORY\\SHELL\\MINIENV\\SHELL\\ADD_TO_GOPATH";
    for k in r.keys.difference(&before.keys) {
        assert!(k == entry || k.starts_with(&format!("{}\\", entry)), "{}", k);
    }
    for (kn, v) in &r.values {
        if !kn.0.starts_with(entry) {
            assert_eq!(before.values.get(kn), Some(v));
        }
    }
    assert!(r.keys.contains(entry));
}

#[test]
fn registering_again_overwrites_case_variant_entry() {
    let mut r = base();
    r.apply(registration_plan("K"));
    // an entry whose name differs from a registered one only by case
    r.apply(add_menu_plan("CURRENT_ui", "c"));
    r.apply(registration_plan("K"));
    let key = "DIRECTORY\\SHELL\\MINIENV\\SHELL\\ADD_TO_CURRENT_UI".to_string();
    assert_eq!(r.values.get(&(key, "MUIVERB".to_string())), Some(&"添加到当前环境变量(ui)".to_string()));
}
