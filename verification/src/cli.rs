use vstd::prelude::*;

use crate::env_utils::{operation_of, EnvOperation};
use crate::text::same_text;

verus! {

/// The command-line options of the program.
#[derive(Debug)]
pub struct Args {
    /// `cmd` or `ui`; absent to open the settings window.
    pub mode: Option<String>,
    /// `new` or `modify`; `new` when absent.
    pub operate: Option<String>,
    /// Name of the environment variable; empty when absent.
    pub key: Option<String>,
    /// The value (usually a folder); needed whenever `mode` is given.
    pub value: Option<String>,
}

/// The abstract content of [`Args`].
pub struct ArgsView {
    pub mode: Option<Seq<char>>,
    pub operate: Option<Seq<char>>,
    pub key: Option<Seq<char>>,
    pub value: Option<Seq<char>>,
}

/// The characters of an optional string.
pub open spec fn opt_text(o: Option<String>) -> Option<Seq<char>> {
    match o {
        Some(s) => Some(s@),
        None => None,
    }
}

impl View for Args {
    type V = ArgsView;

    open spec fn view(&self) -> ArgsView {
        ArgsView {
            mode: opt_text(self.mode),
            operate: opt_text(self.operate),
            key: opt_text(self.key),
            value: opt_text(self.value),
        }
    }
}

/// What the program does when started with given options.
#[derive(Debug)]
pub enum Launch {
    /// Set the variable `key` directly, in the system environment when `system`.
    SetEnv { operate: String, system: bool, key: String, value: String },
    /// Open the dialog that sets a variable from `value`.
    EnvDialog { operate: String, value: String },
    /// Open the settings window that manages the context menu.
    Settings,
    /// An unknown mode: do nothing.
    Nothing,
}

/// The abstract content of a [`Launch`].
pub enum LaunchView {
    SetEnv { operate: Seq<char>, system: bool, key: Seq<char>, value: Seq<char> },
    EnvDialog { operate: Seq<char>, value: Seq<char> },
    Settings,
    Nothing,
}

impl View for Launch {
    type V = LaunchView;

    open spec fn view(&self) -> LaunchView {
        match self {
            Launch::SetEnv { operate, system, key, value } => LaunchView::SetEnv {
                operate: operate@,
                system: *system,
                key: key@,
                value: value@,
            },
            Launch::EnvDialog { operate, value } => LaunchView::EnvDialog {
                operate: operate@,
                value: value@,
            },
            Launch::Settings => LaunchView::Settings,
            Launch::Nothing => LaunchView::Nothing,
        }
    }
}

/// What the options `a` start: with no mode the settings window; with mode
/// `cmd` a direct update of the system environment; with mode `ui` the dialog;
/// with any other mode nothing. The operation defaults to `new`, the variable
/// name to the empty text.
pub open spec fn launch_of(a: ArgsView) -> LaunchView {
    match a.mode {
        None => LaunchView::Settings,
        Some(mode) => {
            let operate = match a.operate {
                Some(o) => o,
                None => "new"@,
            };
            let key = match a.key {
                Some(k) => k,
                None => Seq::empty(),
            };
            let value = a.value->0;
            if mode == "cmd"@ {
                LaunchView::SetEnv { operate, system: true, key, value }
            } else if mode == "ui"@ {
                LaunchView::EnvDialog { operate, value }
            } else {
                LaunchView::Nothing
            }
        },
    }
}

/// Decides what the program does with the options `args`. A mode needs a value.
pub fn launch_for(args: Args) -> (l: Launch)
    requires
        args.mode.is_some() ==> args.value.is_some(),
    ensures
        l@ == launch_of(args@),
{
    match args.mode {
        None => Launch::Settings,
        Some(mode) => {
            let operate = match args.operate {
                Some(o) => o,
                None => "new".to_owned(),
            };
            let key = match args.key {
                Some(k) => k,
                None => String::new(),
            };
            let value = args.value.unwrap();
            if same_text(mode.as_str(), "cmd") {
                Launch::SetEnv { operate, system: true, key, value }
            } else if same_text(mode.as_str(), "ui") {
                Launch::EnvDialog { operate, value }
            } else {
                Launch::Nothing
            }
        },
    }
}

} // verus!

verus! {

/// The options that the context-menu entries pass (`--mode cmd --operate
/// modify --key K --value V`) append `V` to the system variable `K`; without
/// `--operate` the variable is written afresh.
pub proof fn law_menu_options_append(k: Seq<char>, v: Seq<char>)
    ensures
        launch_of(
            ArgsView { mode: Some("cmd"@), operate: Some("modify"@), key: Some(k), value: Some(v) },
        ) == (LaunchView::SetEnv { operate: "modify"@, system: true, key: k, value: v }),
        operation_of("modify"@) == EnvOperation::Modify,
        launch_of(ArgsView { mode: Some("cmd"@), operate: None, key: Some(k), value: Some(v) })
            == (LaunchView::SetEnv { operate: "new"@, system: true, key: k, value: v }),
        operation_of("new"@) == EnvOperation::New,
{
    reveal_strlit("cmd");
    reveal_strlit("ui");
    reveal_strlit("modify");
    reveal_strlit("new");
    assert("modify"@.len() != "new"@.len());
    assert("cmd"@.len() != "ui"@.len());
}

} // verus!

verus! {

/// What each mode starts, for every option value: mode `ui` opens the dialog
/// with the given operation word (`new` only when none is given) and the given
/// value; mode `cmd` sets the given variable in the system environment with the
/// given operation word and value; no mode opens the settings window.
pub proof fn law_launch_modes(
    o: Seq<char>,
    k: Option<Seq<char>>,
    key: Seq<char>,
    v: Seq<char>,
    other_o: Option<Seq<char>>,
)
    ensures
        launch_of(ArgsView { mode: Some("ui"@), operate: Some(o), key: k, value: Some(v) }) == (
        LaunchView::EnvDialog { operate: o, value: v }),
        launch_of(ArgsView { mode: Some("ui"@), operate: None, key: k, value: Some(v) }) == (
        LaunchView::EnvDialog { operate: "new"@, value: v }),
        launch_of(ArgsView { mode: Some("cmd"@), operate: Some(o), key: Some(key), value: Some(v) })
            == (LaunchView::SetEnv { operate: o, system: true, key, value: v }),
        launch_of(ArgsView { mode: Some("cmd"@), operate: Some(o), key: None, value: Some(v) }) == (
        LaunchView::SetEnv { operate: o, system: true, key: Seq::empty(), value: v }),
        launch_of(ArgsView { mode: None, operate: other_o, key: k, value: None })
            == LaunchView::Settings,
{
    reveal_strlit("cmd");
    reveal_strlit("ui");
    assert("cmd"@.len() != "ui"@.len());
}

} // verus!
