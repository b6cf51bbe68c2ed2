use vstd::prelude::*;

use crate::text::{join3, same_text};

verus! {

/// The registry hives this program works in.
#[derive(PartialEq, Eq, Structural, Clone, Copy, Debug)]
pub enum RegistryRoot {
    /// `HKEY_LOCAL_MACHINE`: system-wide settings.
    LocalMachine,
    /// `HKEY_CURRENT_USER`: settings of the logged-in user.
    CurrentUser,
    /// `HKEY_CLASSES_ROOT`: file and folder associations, the context menu.
    ClassesRoot,
}

/// What a request does to an environment variable.
#[derive(PartialEq, Eq, Structural, Clone, Copy, Debug)]
pub enum EnvOperation {
    /// The variable is (re)written with the given value.
    New,
    /// The given value is appended to the current one, separated by `;`.
    Modify,
}

/// Key under `HKEY_LOCAL_MACHINE` that holds the system environment.
pub open spec fn system_env_subkey() -> Seq<char> {
    "SYSTEM\\CurrentControlSet\\Control\\Session Manager\\Environment"@
}

/// Key under `HKEY_CURRENT_USER` that holds the user environment.
pub open spec fn user_env_subkey() -> Seq<char> {
    "Environment"@
}

/// The operation that the command-line word `operate` asks for: exactly the
/// word `new` writes afresh, every other word appends.
pub open spec fn operation_of(operate: Seq<char>) -> EnvOperation {
    if operate == "new"@ {
        EnvOperation::New
    } else {
        EnvOperation::Modify
    }
}

/// Reads the operation word of a request.
pub fn parse_operation(operate: &str) -> (op: EnvOperation)
    ensures
        op == operation_of(operate@),
{
    if same_text(operate, "new") {
        EnvOperation::New
    } else {
        EnvOperation::Modify
    }
}

/// A planned update of one environment variable in the registry.
pub struct EnvUpdate {
    /// Hive that holds the environment block.
    pub root: RegistryRoot,
    /// Path of the environment key inside `root`.
    pub subkey: String,
    /// Name of the variable (the registry value's name).
    pub name: String,
    /// Value given by the request.
    pub value: String,
    /// Whether `value` replaces or extends the current value.
    pub operation: EnvOperation,
}

/// Decides where and how a request to set an environment variable is written:
/// the system environment when `is_system`, else the user environment.
pub fn plan_env_update(operate: &str, is_system: bool, key: &str, value: &str) -> (u: EnvUpdate)
    ensures
        u.root == (if is_system { RegistryRoot::LocalMachine } else { RegistryRoot::CurrentUser }),
        u.subkey@ == (if is_system { system_env_subkey() } else { user_env_subkey() }),
        u.name@ == key@,
        u.value@ == value@,
        u.operation == operation_of(operate@),
{
    let operation = parse_operation(operate);
    if is_system {
        EnvUpdate {
            root: RegistryRoot::LocalMachine,
            subkey: String::from_str(
                "SYSTEM\\CurrentControlSet\\Control\\Session Manager\\Environment",
            ),
            name: String::from_str(key),
            value: String::from_str(value),
            operation,
        }
    } else {
        EnvUpdate {
            root: RegistryRoot::CurrentUser,
            subkey: String::from_str("Environment"),
            name: String::from_str(key),
            value: String::from_str(value),
            operation,
        }
    }
}

/// The data that an update stores, given the variable's current data:
/// the new value itself, or the current data, `;` and the new value.
pub open spec fn stored_data(op: EnvOperation, current: Seq<char>, value: Seq<char>) -> Seq<char> {
    match op {
        EnvOperation::New => value,
        EnvOperation::Modify => current + ";"@ + value,
    }
}

impl EnvUpdate {
    /// Whether the variable's current data must be read before writing.
    pub fn needs_current_value(&self) -> (r: bool)
        ensures
            r == (self.operation == EnvOperation::Modify),
    {
        match self.operation {
            EnvOperation::New => false,
            EnvOperation::Modify => true,
        }
    }

    /// The data to write. `current` is the variable's current data; it is read
    /// (and so present) whenever the update appends.
    pub fn data_to_write(&self, current: Option<&str>) -> (r: String)
        requires
            self.operation == EnvOperation::Modify ==> current.is_some(),
        ensures
            r@ == stored_data(
                self.operation,
                match current {
                    Some(c) => c@,
                    None => Seq::empty(),
                },
                self.value@,
            ),
    {
        match self.operation {
            EnvOperation::New => String::from_str(self.value.as_str()),
            EnvOperation::Modify => {
                let c = current.unwrap();
                join3(c, ";", self.value.as_str())
            },
        }
    }
}

} // verus!

verus! {

/// Appending never loses what the variable held: the current data stays in
/// front, followed by `;` and the new value.
pub proof fn law_append_keeps_current(current: Seq<char>, value: Seq<char>)
    ensures
        stored_data(EnvOperation::Modify, current, value).subrange(0, current.len() as int)
            == current,
        stored_data(EnvOperation::Modify, current, value)[current.len() as int] == ';',
        stored_data(EnvOperation::Modify, current, value).subrange(
            current.len() as int + 1,
            stored_data(EnvOperation::Modify, current, value).len() as int,
        ) == value,
{
    let s = stored_data(EnvOperation::Modify, current, value);
    reveal_strlit(";");
    assert(s.subrange(0, current.len() as int) =~= current);
    assert(s.subrange(current.len() as int + 1, s.len() as int) =~= value);
}

/// Writing afresh stores the given value, whatever the variable held before.
pub proof fn law_new_ignores_current(c1: Seq<char>, c2: Seq<char>, value: Seq<char>)
    ensures
        stored_data(EnvOperation::New, c1, value) == value,
        stored_data(EnvOperation::New, c1, value) == stored_data(EnvOperation::New, c2, value),
{
}

} // verus!
