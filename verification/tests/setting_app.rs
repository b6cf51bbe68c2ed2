use mini_env::menu_plan::{
    add_menu_plan, clearing_plan, located_plan, registration_body_plan, registration_plan,
};
use mini_env::reg_session::{NoticeKind, ProgramUse, RegTask, Step};
use mini_env::setting_app::{
    check_menu_fields, check_menu_request, registration_commands, variable_command,
    variable_command_named, MenuError, MyCommand,
};

fn describe(s: &Step) -> String {
    let t = match &s.task {
        RegTask::Open { path, fallback } => match fallback {
            Some(n) => format!("open {} else {:?} {}|{}", path, n.kind, n.title, n.text),
            None => format!("open {}", path),
        },
        RegTask::Create { parent, child } => format!("create {} / {}", parent, child),
        RegTask::SetValue { key, name, data } => format!("set {} [{}] = {}", key, name, data),
        RegTask::DeleteTree { parent, child } => format!("delete {} / {}", parent, child),
        RegTask::Notify { notice } => format!("notify {:?} {}|{}", notice.kind, notice.title, notice.text),
        RegTask::Locate { purpose } => match purpose {
            ProgramUse::Register { select_keys } => format!("locate register {}", select_keys),
            ProgramUse::AddEntry { env_name, title } => format!("locate add {} {}", env_name, title),
        },
    };
    format!("{} {}", s.depth, t)
}

#[test]
fn command_setters_and_getters() {
    let mut c = MyCommand::default();
    assert_eq!(c.get_name(), "");
    assert_eq!(c.get_title(), "");
    assert_eq!(c.get_command(), "");
    assert_eq!(c.get_icon(), "");
    c.set_name("n");
    c.set_title("t");
    c.set_command("c");
    c.set_icon("i");
    assert_eq!(c.get_name(), "n");
    assert_eq!(c.get_title(), "t");
    assert_eq!(c.get_command(), "c");
    assert_eq!(c.get_icon(), "i");
    c.set_title("t2");
    assert_eq!(c.get_name(), "n");
    assert_eq!(c.get_title(), "t2");
    assert_eq!(c.get_command(), "c");
    assert_eq!(c.get_icon(), "i");
}

#[test]
fn registration_commands_match_menu() {
    let v = registration_commands("C:\\me.exe");
    assert_eq!(v.len(), 3);
    assert_eq!(v[0].get_name(), "add_to_path");
    assert_eq!(v[0].get_title(), "添加到PATH环境变量");
    assert_eq!(v[0].get_command(), "C:\\me.exe --mode cmd --operate modify --key PATH --value %1");
    assert_eq!(v[0].get_icon(), "C:\\me.exe");
    assert_eq!(v[1].get_name(), "add_to_current_UI");
    assert_eq!(v[1].get_title(), "添加到当前环境变量(ui)");
    assert_eq!(v[1].get_command(), "C:\\me.exe --mode ui --operate modify --value %1");
    assert_eq!(v[2].get_name(), "add_to_new_UI");
    assert_eq!(v[2].get_title(), "添加到新的环境变量(ui)");
    assert_eq!(v[2].get_command(), "C:\\me.exe --mode ui --operate new --value %1");
    assert_eq!(v[2].get_icon(), "C:\\me.exe");
}

#[test]
fn variable_command_lowercases_name() {
    let c = variable_command("me.exe", "JAVA_Home", "Java");
    assert_eq!(c.get_name(), "add_to_java_home");
    assert_eq!(c.get_title(), "Java");
    assert_eq!(c.get_command(), "me.exe --mode cmd --operate modify --key JAVA_Home --value %1");
    assert_eq!(c.get_icon(), "me.exe");
    let d = variable_command_named("me.exe", "X", "given", "T");
    assert_eq!(d.get_name(), "add_to_given");
}

#[test]
fn menu_request_checks_in_order() {
    let keys = vec!["Path".to_string(), "TEMP".to_string()];
    assert_eq!(check_menu_request("", "", &keys), Err(MenuError::MissingEnvName));
    assert_eq!(check_menu_request("", "t", &keys), Err(MenuError::MissingEnvName));
    assert_eq!(check_menu_request("PATH", "", &keys), Err(MenuError::MissingMenuTitle));
    assert_eq!(check_menu_request("path", "t", &keys), Ok(()));
    assert_eq!(check_menu_request("temp", "t", &keys), Ok(()));
    assert_eq!(check_menu_request("HOME", "t", &keys), Err(MenuError::UnknownEnv));
    assert_eq!(check_menu_request("HOME", "t", &vec![]), Err(MenuError::UnknownEnv));
}

#[test]
fn menu_error_messages() {
    assert_eq!(MenuError::MissingEnvName.title(), "错误");
    assert_eq!(MenuError::MissingEnvName.message("X"), "请填写环境变量名称");
    assert_eq!(MenuError::MissingMenuTitle.message("X"), "请填写菜单名称");
    assert_eq!(MenuError::UnknownEnv.message("FOO"), "环境变量 FOO 不存在");
}

fn entry_lines(d: u8, name: &str, title: &str, command: &str, icon: &str) -> Vec<String> {
    let key = format!("Directory\\shell\\miniEnv\\shell\\{}", name);
    vec![
        format!("{} create Directory\\shell\\miniEnv / shell\\{}", d, name),
        format!("{} open {}", d + 1, key),
        format!("{} set {} [MUIVerb] = {}", d + 1, key, title),
        format!("{} set {} [Icon] = {}", d + 1, key, icon),
        format!("{} create {} / command", d + 1, key),
        format!("{} open {}\\command", d + 2, key),
        format!("{} set {}\\command [] = {}", d + 2, key, command),
    ]
}

#[test]
fn menu_fields_checked_first() {
    assert_eq!(check_menu_fields("", "t"), Err(MenuError::MissingEnvName));
    assert_eq!(check_menu_fields("", ""), Err(MenuError::MissingEnvName));
    assert_eq!(check_menu_fields("X", ""), Err(MenuError::MissingMenuTitle));
    assert_eq!(check_menu_fields("X", "t"), Ok(()));
}

#[test]
fn registration_plan_steps() {
    let got: Vec<String> = registration_plan("PATH,JAVA_HOME").iter().map(describe).collect();
    let want = vec![
        "0 open Directory\\shell".to_string(),
        "0 create Directory\\shell / miniEnv".to_string(),
        "1 open Directory\\shell\\miniEnv".to_string(),
        "1 locate register PATH,JAVA_HOME".to_string(),
        "0 notify Info 提示|注册完成".to_string(),
    ];
    assert_eq!(got, want);
}

#[test]
fn registration_body_steps() {
    let got: Vec<String> = registration_body_plan("E.exe", "PATH,JAVA_HOME").iter().map(describe).collect();
    let mut want = vec![
        "1 set Directory\\shell\\miniEnv [select_keys] = PATH,JAVA_HOME".to_string(),
        "1 set Directory\\shell\\miniEnv [MUIVerb] = Mini Env".to_string(),
        "1 set Directory\\shell\\miniEnv [Icon] = E.exe".to_string(),
        "1 set Directory\\shell\\miniEnv [SubCommands] = ".to_string(),
    ];
    want.extend(entry_lines(1, "add_to_path", "添加到PATH环境变量", "E.exe --mode cmd --operate modify --key PATH --value %1", "E.exe"));
    want.extend(entry_lines(1, "add_to_current_UI", "添加到当前环境变量(ui)", "E.exe --mode ui --operate modify --value %1", "E.exe"));
    want.extend(entry_lines(1, "add_to_new_UI", "添加到新的环境变量(ui)", "E.exe --mode ui --operate new --value %1", "E.exe"));
    assert_eq!(got, want);
    let again: Vec<String> = located_plan(&ProgramUse::Register { select_keys: "PATH,JAVA_HOME".to_string() }, "E.exe")
        .iter()
        .map(describe)
        .collect();
    assert_eq!(again, want);
}

#[test]
fn clearing_plan_steps() {
    let got: Vec<String> = clearing_plan().iter().map(describe).collect();
    assert_eq!(
        got,
        vec![
            "0 open Directory\\shell".to_string(),
            "0 delete Directory\\shell / miniEnv".to_string(),
            "0 notify Info 提示|清理完成".to_string(),
        ]
    );
}

#[test]
fn add_menu_plan_steps() {
    let got: Vec<String> = add_menu_plan("GoPath", "加到GOPATH").iter().map(describe).collect();
    let want = vec![
        "0 open Directory\\shell\\miniEnv else Error 错误|请先注册右键菜单".to_string(),
        "1 locate add GoPath 加到GOPATH".to_string(),
        "1 notify Info 提示|已将 加到GOPATH 添加到右键菜单".to_string(),
    ];
    assert_eq!(got, want);
    let body: Vec<String> = located_plan(
        &ProgramUse::AddEntry { env_name: "GoPath".to_string(), title: "加到GOPATH".to_string() },
        "E.exe",
    )
    .iter()
    .map(describe)
    .collect();
    assert_eq!(
        body,
        entry_lines(1, "add_to_gopath", "加到GOPATH", "E.exe --mode cmd --operate modify --key GoPath --value %1", "E.exe")
    );
    assert_eq!(NoticeKind::Info, NoticeKind::Info);
}
