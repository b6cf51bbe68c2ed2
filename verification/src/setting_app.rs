use vstd::prelude::*;

use crate::text::{join2, join3, lowercase_of, to_lower, to_upper, uppercase_of};

verus! {

/// One entry of the context menu: the sub-key name, the caption, the command
/// line that Explorer runs, and the icon.
pub struct MyCommand {
    name: String,
    title: String,
    command: String,
    icon: String,
}

/// The abstract content of a [`MyCommand`].
pub struct CommandView {
    pub name: Seq<char>,
    pub title: Seq<char>,
    pub command: Seq<char>,
    pub icon: Seq<char>,
}

impl CommandView {
    /// This entry with another name.
    pub open spec fn with_name(self, name: Seq<char>) -> CommandView {
        CommandView { name, title: self.title, command: self.command, icon: self.icon }
    }

    /// This entry with another caption.
    pub open spec fn with_title(self, title: Seq<char>) -> CommandView {
        CommandView { name: self.name, title, command: self.command, icon: self.icon }
    }

    /// This entry with another command line.
    pub open spec fn with_command(self, command: Seq<char>) -> CommandView {
        CommandView { name: self.name, title: self.title, command, icon: self.icon }
    }

    /// This entry with another icon.
    pub open spec fn with_icon(self, icon: Seq<char>) -> CommandView {
        CommandView { name: self.name, title: self.title, command: self.command, icon }
    }
}

impl View for MyCommand {
    type V = CommandView;

    closed spec fn view(&self) -> CommandView {
        CommandView {
            name: self.name@,
            title: self.title@,
            command: self.command@,
            icon: self.icon@,
        }
    }
}

impl Default for MyCommand {
    /// An entry whose four fields are empty.
    fn default() -> (c: MyCommand)
        ensures
            c@ == (CommandView {
                name: Seq::empty(),
                title: Seq::empty(),
                command: Seq::empty(),
                icon: Seq::empty(),
            }),
    {
        MyCommand { name: String::new(), title: String::new(), command: String::new(), icon: String::new() }
    }
}

impl MyCommand {
    /// Sets the sub-key name.
    pub fn set_name(&mut self, name: &str)
        ensures
            final(self)@ == old(self)@.with_name(name@),
    {
        self.name = name.to_owned();
    }

    /// Sets the caption.
    pub fn set_title(&mut self, title: &str)
        ensures
            final(self)@ == old(self)@.with_title(title@),
    {
        self.title = title.to_owned();
    }

    /// Sets the command line.
    pub fn set_command(&mut self, command: &str)
        ensures
            final(self)@ == old(self)@.with_command(command@),
    {
        self.command = command.to_owned();
    }

    /// Sets the icon.
    pub fn set_icon(&mut self, icon: &str)
        ensures
            final(self)@ == old(self)@.with_icon(icon@),
    {
        self.icon = icon.to_owned();
    }

    /// The sub-key name.
    pub fn get_name(&self) -> (r: &str)
        ensures
            r@ == self@.name,
    {
        self.name.as_str()
    }

    /// The caption.
    pub fn get_title(&self) -> (r: &str)
        ensures
            r@ == self@.title,
    {
        self.title.as_str()
    }

    /// The command line.
    pub fn get_command(&self) -> (r: &str)
        ensures
            r@ == self@.command,
    {
        self.command.as_str()
    }

    /// The icon.
    pub fn get_icon(&self) -> (r: &str)
        ensures
            r@ == self@.icon,
    {
        self.icon.as_str()
    }
}

/// Setting a field of an entry changes that field to the given text and leaves
/// the other three as they were.
pub proof fn law_command_fields_independent(c: CommandView, s: Seq<char>)
    ensures
        c.with_name(s).name == s,
        c.with_name(s).with_name(c.name) == c,
        c.with_title(s).title == s,
        c.with_title(s).with_title(c.title) == c,
        c.with_command(s).command == s,
        c.with_command(s).with_command(c.command) == c,
        c.with_icon(s).icon == s,
        c.with_icon(s).with_icon(c.icon) == c,
        c.with_name(s).title == c.title && c.with_name(s).command == c.command
            && c.with_name(s).icon == c.icon,
        c.with_title(s).name == c.name && c.with_title(s).command == c.command
            && c.with_title(s).icon == c.icon,
        c.with_command(s).name == c.name && c.with_command(s).title == c.title
            && c.with_command(s).icon == c.icon,
        c.with_icon(s).name == c.name && c.with_icon(s).title == c.title
            && c.with_icon(s).command == c.command,
{
}

} // verus!

verus! {

/// Key under `HKEY_CLASSES_ROOT` that holds the context menu of folders.
pub open spec fn shell_key() -> Seq<char> {
    "Directory\\shell"@
}

/// Name of this program's cascading menu under [`shell_key`].
pub open spec fn menu_key_name() -> Seq<char> {
    "miniEnv"@
}

/// Path of this program's cascading menu.
pub open spec fn menu_key() -> Seq<char> {
    shell_key() + "\\"@ + menu_key_name()
}

/// Path of the entry `name`, relative to the menu key.
pub open spec fn entry_key_name(name: Seq<char>) -> Seq<char> {
    "shell\\"@ + name
}

/// Path of the entry `name`.
pub open spec fn entry_key(name: Seq<char>) -> Seq<char> {
    menu_key() + "\\"@ + entry_key_name(name)
}

/// Path of the key that holds the command line of the entry `name`.
pub open spec fn entry_command_key(name: Seq<char>) -> Seq<char> {
    entry_key(name) + "\\"@ + "command"@
}

/// The command line that appends the folder (`%1`) to the system variable `key`.
pub open spec fn append_command_line(exe: Seq<char>, key: Seq<char>) -> Seq<char> {
    exe + " --mode cmd --operate modify --key "@ + key + " --value %1"@
}

/// The command line that opens the dialog to append the folder to a variable.
pub open spec fn dialog_append_command_line(exe: Seq<char>) -> Seq<char> {
    exe + " --mode ui --operate modify --value %1"@
}

/// The command line that opens the dialog to create a variable from the folder.
pub open spec fn dialog_new_command_line(exe: Seq<char>) -> Seq<char> {
    exe + " --mode ui --operate new --value %1"@
}

/// The three entries that registering the menu installs, for the program at `exe`.
pub open spec fn registration_entries(exe: Seq<char>) -> Seq<CommandView> {
    seq![
        CommandView {
            name: "add_to_path"@,
            title: "添加到PATH环境变量"@,
            command: append_command_line(exe, "PATH"@),
            icon: exe,
        },
        CommandView {
            name: "add_to_current_UI"@,
            title: "添加到当前环境变量(ui)"@,
            command: dialog_append_command_line(exe),
            icon: exe,
        },
        CommandView {
            name: "add_to_new_UI"@,
            title: "添加到新的环境变量(ui)"@,
            command: dialog_new_command_line(exe),
            icon: exe,
        },
    ]
}

/// The entry that appends the folder to the variable `env_name`, given the
/// lower-case form of that name.
pub open spec fn variable_entry(
    exe: Seq<char>,
    env_name: Seq<char>,
    env_name_lower: Seq<char>,
    title: Seq<char>,
) -> CommandView {
    CommandView {
        name: "add_to_"@ + env_name_lower,
        title,
        command: append_command_line(exe, env_name),
        icon: exe,
    }
}

pub(crate) fn menu_key_string() -> (r: String)
    ensures
        r@ == menu_key(),
{
    join3("Directory\\shell", "\\", "miniEnv")
}

pub(crate) fn entry_key_string(name: &str) -> (r: String)
    ensures
        r@ == entry_key(name@),
{
    let m = menu_key_string();
    let relative = join2("shell\\", name);
    join3(m.as_str(), "\\", relative.as_str())
}

fn append_command_string(exe: &str, key: &str) -> (r: String)
    ensures
        r@ == append_command_line(exe@, key@),
{
    let head = join3(exe, " --mode cmd --operate modify --key ", key);
    join2(head.as_str(), " --value %1")
}

/// A menu entry built field by field.
fn make_command(name: &str, title: &str, command: &str, icon: &str) -> (c: MyCommand)
    ensures
        c@ == (CommandView { name: name@, title: title@, command: command@, icon: icon@ }),
{
    let mut c = MyCommand::default();
    c.set_name(name);
    c.set_title(title);
    c.set_command(command);
    c.set_icon(icon);
    c
}

/// The three entries that registering the menu installs, for the program at `exe`.
pub fn registration_commands(exe: &str) -> (v: Vec<MyCommand>)
    ensures
        v@.len() == 3,
        forall|i: int| 0 <= i < 3 ==> #[trigger] v@[i]@ == registration_entries(exe@)[i],
{
    let mut v: Vec<MyCommand> = Vec::new();
    let path_command = append_command_string(exe, "PATH");
    v.push(make_command("add_to_path", "添加到PATH环境变量", path_command.as_str(), exe));
    let current_command = join2(exe, " --mode ui --operate modify --value %1");
    v.push(
        make_command("add_to_current_UI", "添加到当前环境变量(ui)", current_command.as_str(), exe),
    );
    let new_command = join2(exe, " --mode ui --operate new --value %1");
    v.push(make_command("add_to_new_UI", "添加到新的环境变量(ui)", new_command.as_str(), exe));
    v
}

/// The entry that appends the folder to the variable `env_name`, captioned
/// `title`, given the lower-case form of the variable's name.
pub fn variable_command_named(exe: &str, env_name: &str, env_name_lower: &str, title: &str) -> (c:
    MyCommand)
    ensures
        c@ == variable_entry(exe@, env_name@, env_name_lower@, title@),
{
    let name = join2("add_to_", env_name_lower);
    let command = append_command_string(exe, env_name);
    make_command(name.as_str(), title, command.as_str(), exe)
}

/// The entry that appends the folder to the variable `env_name`, captioned `title`.
pub fn variable_command(exe: &str, env_name: &str, title: &str) -> (c: MyCommand)
    ensures
        c@ == variable_entry(exe@, env_name@, lowercase_of(env_name@), title@),
{
    let lower = to_lower(env_name);
    variable_command_named(exe, env_name, lower.as_str(), title)
}

} // verus!

verus! {

/// Why a request to add a variable entry to the menu is refused.
#[derive(PartialEq, Eq, Structural, Clone, Copy, Debug)]
pub enum MenuError {
    /// No variable name was typed.
    MissingEnvName,
    /// No caption was typed.
    MissingMenuTitle,
    /// No environment variable has that name (ignoring case).
    UnknownEnv,
}

/// The message that explains a refusal of a request for the variable `env_name`.
pub open spec fn menu_error_text(e: MenuError, env_name: Seq<char>) -> Seq<char> {
    match e {
        MenuError::MissingEnvName => "请填写环境变量名称"@,
        MenuError::MissingMenuTitle => "请填写菜单名称"@,
        MenuError::UnknownEnv => "环境变量 "@ + env_name + " 不存在"@,
    }
}

impl MenuError {
    /// The title of the message box that reports the refusal.
    pub fn title(&self) -> (r: String)
        ensures
            r@ == "错误"@,
    {
        "错误".to_owned()
    }

    /// The message that explains the refusal of a request for `env_name`.
    pub fn message(&self, env_name: &str) -> (r: String)
        ensures
            r@ == menu_error_text(*self, env_name@),
    {
        match self {
            MenuError::MissingEnvName => "请填写环境变量名称".to_owned(),
            MenuError::MissingMenuTitle => "请填写菜单名称".to_owned(),
            MenuError::UnknownEnv => join3("环境变量 ", env_name, " 不存在"),
        }
    }
}

/// The characters of each string.
pub open spec fn texts_view(v: Seq<String>) -> Seq<Seq<char>> {
    v.map_values(|s: String| s@)
}

/// Whether some variable among `env_keys` has the name `env_name`, compared in
/// upper case.
pub open spec fn env_listed(env_name: Seq<char>, env_keys: Seq<Seq<char>>) -> bool {
    exists|i: int| 0 <= i < env_keys.len() && uppercase_of(#[trigger] env_keys[i]) == uppercase_of(env_name)
}

/// The verdict on a request to add an entry for `env_name` captioned `title`,
/// when the environment holds the variables named `env_keys`.
pub open spec fn menu_request_verdict(
    env_name: Seq<char>,
    title: Seq<char>,
    env_keys: Seq<Seq<char>>,
) -> Result<(), MenuError> {
    if env_name.len() == 0 {
        Err(MenuError::MissingEnvName)
    } else if title.len() == 0 {
        Err(MenuError::MissingMenuTitle)
    } else if env_listed(env_name, env_keys) {
        Ok(())
    } else {
        Err(MenuError::UnknownEnv)
    }
}

/// Whether `name` is one of `names`.
pub fn name_listed(name: &str, names: &Vec<String>) -> (found: bool)
    ensures
        found == exists|i: int| 0 <= i < names@.len() && #[trigger] names@[i]@ == name@,
{
    let target = name.to_owned();
    let n = names.len();
    for i in 0..n
        invariant
            n == names@.len(),
            target@ == name@,
            forall|j: int| 0 <= j < i ==> #[trigger] names@[j]@ != name@,
    {
        if names[i] == target {
            return true;
        }
    }
    false
}

/// Checks a request to add an entry for the variable `env_name` captioned
/// `title`; `env_keys` are the names of the variables in the environment.
pub fn check_menu_request(env_name: &str, title: &str, env_keys: &Vec<String>) -> (r: Result<
    (),
    MenuError,
>)
    ensures
        r == menu_request_verdict(env_name@, title@, texts_view(env_keys@)),
{
    if env_name.is_empty() {
        return Err(MenuError::MissingEnvName);
    }
    if title.is_empty() {
        return Err(MenuError::MissingMenuTitle);
    }
    let mut upper_keys: Vec<String> = Vec::new();
    let n = env_keys.len();
    for i in 0..n
        invariant
            n == env_keys@.len(),
            upper_keys@.len() == i,
            forall|j: int| 0 <= j < i ==> #[trigger] upper_keys@[j]@ == uppercase_of(env_keys@[j]@),
    {
        upper_keys.push(to_upper(env_keys[i].as_str()));
    }
    let upper_name = to_upper(env_name);
    let found = name_listed(upper_name.as_str(), &upper_keys);
    proof {
        let keys = texts_view(env_keys@);
        if found {
            let i = choose|i: int| 0 <= i < upper_keys@.len() && #[trigger] upper_keys@[i]@ == upper_name@;
            assert(keys[i] == env_keys@[i]@);
            assert(uppercase_of(keys[i]) == uppercase_of(env_name@));
        } else {
            assert forall|i: int| 0 <= i < keys.len() implies uppercase_of(#[trigger] keys[i]) != uppercase_of(env_name@) by {
                assert(keys[i] == env_keys@[i]@);
                assert(upper_keys@[i]@ == uppercase_of(env_keys@[i]@));
            }
        }
    }
    if found {
        Ok(())
    } else {
        Err(MenuError::UnknownEnv)
    }
}

/// Checks the fields of a request to add an entry, before the environment is
/// consulted: a variable name and a caption must both be typed.
pub fn check_menu_fields(env_name: &str, title: &str) -> (r: Result<(), MenuError>)
    ensures
        r == (if env_name@.len() == 0 {
            Err(MenuError::MissingEnvName)
        } else if title@.len() == 0 {
            Err(MenuError::MissingMenuTitle)
        } else {
            Ok(())
        }),
{
    if env_name.is_empty() {
        Err(MenuError::MissingEnvName)
    } else if title.is_empty() {
        Err(MenuError::MissingMenuTitle)
    } else {
        Ok(())
    }
}

} // verus!

verus! {

/// With a name and a caption typed, a request is accepted whenever any
/// variable of the environment, at any position, has the name in upper case.
pub proof fn law_menu_request_accepts_listed(
    env_name: Seq<char>,
    title: Seq<char>,
    env_keys: Seq<Seq<char>>,
    i: int,
)
    requires
        env_name.len() > 0,
        title.len() > 0,
        0 <= i < env_keys.len(),
        uppercase_of(env_keys[i]) == uppercase_of(env_name),
    ensures
        menu_request_verdict(env_name, title, env_keys) == Ok::<(), MenuError>(()),
{
}

/// With a name and a caption typed, a request is refused as unknown exactly
/// when no variable of the environment has the name in upper case.
pub proof fn law_menu_request_refuses_unlisted(
    env_name: Seq<char>,
    title: Seq<char>,
    env_keys: Seq<Seq<char>>,
)
    requires
        env_name.len() > 0,
        title.len() > 0,
        forall|i: int| 0 <= i < env_keys.len() ==> uppercase_of(#[trigger] env_keys[i]) != uppercase_of(env_name),
    ensures
        menu_request_verdict(env_name, title, env_keys) == Err::<(), MenuError>(MenuError::UnknownEnv),
{
}

/// The verdict does not depend on the order of the environment's variables:
/// it is the same for any rearrangement of them.
pub proof fn law_menu_request_order_free(
    env_name: Seq<char>,
    title: Seq<char>,
    a: Seq<Seq<char>>,
    b: Seq<Seq<char>>,
)
    requires
        a.to_multiset() == b.to_multiset(),
    ensures
        menu_request_verdict(env_name, title, a) == menu_request_verdict(env_name, title, b),
{
    broadcast use vstd::seq_lib::group_to_multiset_ensures;
    if env_name.len() > 0 && title.len() > 0 {
        if env_listed(env_name, a) {
            let i = choose|i: int| 0 <= i < a.len() && uppercase_of(#[trigger] a[i]) == uppercase_of(env_name);
            assert(a.contains(a[i]));
            assert(b.to_multiset().count(a[i]) > 0);
            assert(b.contains(a[i]));
            let j = choose|j: int| 0 <= j < b.len() && b[j] == a[i];
            assert(uppercase_of(b[j]) == uppercase_of(env_name));
        }
        if env_listed(env_name, b) {
            let i = choose|i: int| 0 <= i < b.len() && uppercase_of(#[trigger] b[i]) == uppercase_of(env_name);
            assert(b.contains(b[i]));
            assert(a.to_multiset().count(b[i]) > 0);
            assert(a.contains(b[i]));
            let j = choose|j: int| 0 <= j < a.len() && a[j] == b[i];
            assert(uppercase_of(a[j]) == uppercase_of(env_name));
        }
    }
}

/// The entry added for a variable has the typed caption unchanged, the name
/// `add_to_` followed by the given lower-case name, the program as its icon,
/// and a command line that appends the folder to exactly that variable.
pub proof fn law_variable_entry_fields(
    exe: Seq<char>,
    env_name: Seq<char>,
    env_name_lower: Seq<char>,
    title: Seq<char>,
)
    ensures
        variable_entry(exe, env_name, env_name_lower, title).title == title,
        variable_entry(exe, env_name, env_name_lower, title).name == "add_to_"@ + env_name_lower,
        variable_entry(exe, env_name, env_name_lower, title).icon == exe,
        variable_entry(exe, env_name, env_name_lower, title).command == exe
            + " --mode cmd --operate modify --key "@ + env_name + " --value %1"@,
{
}

} // verus!
