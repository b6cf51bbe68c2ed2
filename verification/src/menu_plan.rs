use vstd::prelude::*;

use crate::reg_session::{
    create_step, delete_step, lemma_chained_concat, may_follow, notify_step, open_step, push_step,
    set_step, steps_chained, steps_view, well_formed_plan, Notice, NoticeKind, NoticeView,
    ProgramUse, RegTask, Step, StepView, TaskView, UseView, after_successes, fresh_session,
    located_state, next_state, Outcome,
};
use crate::setting_app::{
    entry_command_key, entry_key, entry_key_name, entry_key_string, menu_key, menu_key_name,
    menu_key_string, registration_commands, registration_entries, shell_key, variable_command,
    variable_entry, CommandView, MyCommand,
};
use crate::reg_effect::{
    case_map, fold_step, fold_steps, fold_text, keys_added, lemma_fold_concat,
    lemma_fold_steps_concat, lemma_fold_subkey, lemma_written_concat, values_written,
    lemma_last_write, lemma_writes_concat,
    adds_keys_only, created_keys, delete_tree, deletes_nothing, keys_added_by, lemma_additions_only,
    lemma_bounds_concat, lemma_created_within, lemma_delete_undoes, lemma_effect_concat,
    lemma_effect_without_deletes, lemma_idempotent_without_deletes, lemma_within_extend, plan_effect, step_effect,
    subkey_path, values_written_by, within, writes_values_only, RegistryView,
};
use crate::text::{join2, join3, lowercase_of};

verus! {

/// A step that asks for the path of this program.
pub open spec fn locate_step(purpose: UseView, d: u8) -> StepView {
    StepView { depth: d, task: TaskView::Locate { purpose } }
}

/// The steps that install the entry `c` under the menu key, the first of them
/// at depth `d`: create the entry's key, write its caption and icon, create its
/// `command` key and write the command line there.
pub open spec fn entry_steps(c: CommandView, d: u8) -> Seq<StepView> {
    let key = entry_key(c.name);
    let command_key = entry_command_key(c.name);
    seq![
        create_step(menu_key(), entry_key_name(c.name), d),
        open_step(key, None, (d + 1) as u8),
        set_step(key, "MUIVerb"@, c.title, (d + 1) as u8),
        set_step(key, "Icon"@, c.icon, (d + 1) as u8),
        create_step(key, "command"@, (d + 1) as u8),
        open_step(command_key, None, (d + 2) as u8),
        set_step(command_key, ""@, c.command, (d + 2) as u8),
    ]
}

/// The plan that registers the menu: open the folder menu key, create the
/// menu key and open it, then ask for the program's path (the settings and
/// entries that need it follow), and finally report completion.
pub open spec fn registration_steps(select_keys: Seq<char>) -> Seq<StepView> {
    seq![
        open_step(shell_key(), None, 0),
        create_step(shell_key(), menu_key_name(), 0),
        open_step(menu_key(), None, 1),
        locate_step(UseView::Register { select_keys }, 1),
        notify_step(NoticeKind::Info, "提示"@, "注册完成"@, 0),
    ]
}

/// The steps of a registration that need the program at `exe`: write the
/// menu's settings (`select_keys` is the text typed for the variables offered),
/// then install the three entries.
pub open spec fn registration_body(exe: Seq<char>, select_keys: Seq<char>) -> Seq<StepView> {
    let entries = registration_entries(exe);
    seq![
        set_step(menu_key(), "select_keys"@, select_keys, 1),
        set_step(menu_key(), "MUIVerb"@, "Mini Env"@, 1),
        set_step(menu_key(), "Icon"@, exe, 1),
        set_step(menu_key(), "SubCommands"@, ""@, 1),
    ] + entry_steps(entries[0], 1) + entry_steps(entries[1], 1) + entry_steps(entries[2], 1)
}

/// The steps that remove the menu, then report completion.
pub open spec fn clearing_steps() -> Seq<StepView> {
    seq![
        open_step(shell_key(), None, 0),
        delete_step(shell_key(), menu_key_name(), 0),
        notify_step(NoticeKind::Info, "提示"@, "清理完成"@, 0),
    ]
}

/// What is shown when an entry is added before the menu is registered.
pub open spec fn unregistered_notice() -> NoticeView {
    NoticeView { kind: NoticeKind::Error, title: "错误"@, text: "请先注册右键菜单"@ }
}

/// The plan that adds the entry for the variable `env_name` captioned `title`:
/// open the menu key (showing the unregistered notice when that fails), ask for
/// the program's path (the entry's steps follow), then report it.
pub open spec fn entry_adding_steps(env_name: Seq<char>, title: Seq<char>) -> Seq<StepView> {
    seq![
        open_step(menu_key(), Some(unregistered_notice()), 0),
        locate_step(UseView::AddEntry { env_name, title }, 1),
        notify_step(NoticeKind::Info, "提示"@, "已将 "@ + title + " 添加到右键菜单"@, 1),
    ]
}

/// The steps that the program's path `exe` makes possible for a use.
pub open spec fn located_steps(u: UseView, exe: Seq<char>) -> Seq<StepView> {
    match u {
        UseView::Register { select_keys } => registration_body(exe, select_keys),
        UseView::AddEntry { env_name, title } => entry_steps(
            variable_entry(exe, env_name, lowercase_of(env_name), title),
            1,
        ),
    }
}

/// The steps handed out by a registration in which every action succeeds and
/// the program is found at `exe`.
pub open spec fn registration_run(exe: Seq<char>, select_keys: Seq<char>) -> Seq<StepView> {
    registration_steps(select_keys).take(4) + registration_body(exe, select_keys)
        + registration_steps(select_keys).skip(4)
}

/// The steps handed out when adding the entry for `env_name` captioned `title`
/// with every action succeeding and the program found at `exe`.
pub open spec fn entry_adding_run(exe: Seq<char>, env_name: Seq<char>, title: Seq<char>) -> Seq<
    StepView,
> {
    entry_adding_run_named(exe, env_name, lowercase_of(env_name), title)
}

/// The steps handed out when adding the entry for `env_name` captioned `title`,
/// given the lower-case form `env_name_lower` of the name, with every action
/// succeeding and the program found at `exe`.
pub open spec fn entry_adding_run_named(
    exe: Seq<char>,
    env_name: Seq<char>,
    env_name_lower: Seq<char>,
    title: Seq<char>,
) -> Seq<StepView> {
    entry_adding_steps(env_name, title).take(2) + entry_steps(
        variable_entry(exe, env_name, env_name_lower, title),
        1,
    ) + entry_adding_steps(env_name, title).skip(2)
}

fn info_notice(title: &str, text: &str) -> (n: Notice)
    ensures
        n@ == (NoticeView { kind: NoticeKind::Info, title: title@, text: text@ }),
{
    Notice { kind: NoticeKind::Info, title: title.to_owned(), text: text.to_owned() }
}

/// Appends the steps that install the entry `c`, starting at depth `d`.
fn push_entry_steps(plan: &mut Vec<Step>, c: &MyCommand, d: u8)
    requires
        d <= 253,
    ensures
        steps_view(final(plan)@) == steps_view(old(plan)@) + entry_steps(c@, d),
{
    let name = c.get_name();
    let menu = menu_key_string();
    let key = entry_key_string(name);
    let command_key = join3(key.as_str(), "\\", "command");
    push_step(
        plan,
        Step { depth: d, task: RegTask::Create { parent: menu, child: join2("shell\\", name) } },
    );
    push_step(
        plan,
        Step { depth: d + 1, task: RegTask::Open { path: key.clone(), fallback: None } },
    );
    push_step(
        plan,
        Step {
            depth: d + 1,
            task: RegTask::SetValue {
                key: key.clone(),
                name: "MUIVerb".to_owned(),
                data: c.get_title().to_owned(),
            },
        },
    );
    push_step(
        plan,
        Step {
            depth: d + 1,
            task: RegTask::SetValue {
                key: key.clone(),
                name: "Icon".to_owned(),
                data: c.get_icon().to_owned(),
            },
        },
    );
    push_step(
        plan,
        Step {
            depth: d + 1,
            task: RegTask::Create { parent: key, child: "command".to_owned() },
        },
    );
    push_step(
        plan,
        Step { depth: d + 2, task: RegTask::Open { path: command_key.clone(), fallback: None } },
    );
    push_step(
        plan,
        Step {
            depth: d + 2,
            task: RegTask::SetValue {
                key: command_key,
                name: "".to_owned(),
                data: c.get_command().to_owned(),
            },
        },
    );
    assert(steps_view(plan@) =~= steps_view(old(plan)@) + entry_steps(c@, d));
}

fn push_menu_setting(plan: &mut Vec<Step>, name: &str, data: &str)
    ensures
        steps_view(final(plan)@) == steps_view(old(plan)@).push(
            set_step(menu_key(), name@, data@, 1),
        ),
{
    push_step(
        plan,
        Step {
            depth: 1,
            task: RegTask::SetValue {
                key: menu_key_string(),
                name: name.to_owned(),
                data: data.to_owned(),
            },
        },
    );
}

/// The plan that registers the context menu; `select_keys` is the text typed
/// for the variables the menu offers.
pub fn registration_plan(select_keys: &str) -> (plan: Vec<Step>)
    ensures
        steps_view(plan@) == registration_steps(select_keys@),
{
    let mut plan: Vec<Step> = Vec::new();
    push_step(
        &mut plan,
        Step { depth: 0, task: RegTask::Open { path: "Directory\\shell".to_owned(), fallback: None } },
    );
    push_step(
        &mut plan,
        Step {
            depth: 0,
            task: RegTask::Create {
                parent: "Directory\\shell".to_owned(),
                child: "miniEnv".to_owned(),
            },
        },
    );
    push_step(
        &mut plan,
        Step { depth: 1, task: RegTask::Open { path: menu_key_string(), fallback: None } },
    );
    push_step(
        &mut plan,
        Step {
            depth: 1,
            task: RegTask::Locate {
                purpose: ProgramUse::Register { select_keys: select_keys.to_owned() },
            },
        },
    );
    push_step(
        &mut plan,
        Step { depth: 0, task: RegTask::Notify { notice: info_notice("提示", "注册完成") } },
    );
    assert(steps_view(plan@) =~= registration_steps(select_keys@));
    plan
}

/// The steps of a registration that need the program at `exe`.
pub fn registration_body_plan(exe: &str, select_keys: &str) -> (plan: Vec<Step>)
    ensures
        steps_view(plan@) == registration_body(exe@, select_keys@),
{
    let mut plan: Vec<Step> = Vec::new();
    push_menu_setting(&mut plan, "select_keys", select_keys);
    push_menu_setting(&mut plan, "MUIVerb", "Mini Env");
    push_menu_setting(&mut plan, "Icon", exe);
    push_menu_setting(&mut plan, "SubCommands", "");
    let commands = registration_commands(exe);
    push_entry_steps(&mut plan, &commands[0], 1);
    push_entry_steps(&mut plan, &commands[1], 1);
    push_entry_steps(&mut plan, &commands[2], 1);
    proof {
        let e = registration_entries(exe@);
        assert(commands@[0]@ == e[0]);
        assert(commands@[1]@ == e[1]);
        assert(commands@[2]@ == e[2]);
    }
    assert(steps_view(plan@) =~= registration_body(exe@, select_keys@));
    plan
}

/// The plan that removes the context menu.
pub fn clearing_plan() -> (plan: Vec<Step>)
    ensures
        steps_view(plan@) == clearing_steps(),
{
    let mut plan: Vec<Step> = Vec::new();
    push_step(
        &mut plan,
        Step { depth: 0, task: RegTask::Open { path: "Directory\\shell".to_owned(), fallback: None } },
    );
    push_step(
        &mut plan,
        Step {
            depth: 0,
            task: RegTask::DeleteTree {
                parent: "Directory\\shell".to_owned(),
                child: "miniEnv".to_owned(),
            },
        },
    );
    push_step(
        &mut plan,
        Step { depth: 0, task: RegTask::Notify { notice: info_notice("提示", "清理完成") } },
    );
    assert(steps_view(plan@) =~= clearing_steps());
    plan
}

/// The plan that adds to a registered menu the entry that appends the folder
/// to the variable `env_name`, captioned `title`.
pub fn add_menu_plan(env_name: &str, title: &str) -> (plan: Vec<Step>)
    ensures
        steps_view(plan@) == entry_adding_steps(env_name@, title@),
{
    let mut plan: Vec<Step> = Vec::new();
    let fallback = Notice {
        kind: NoticeKind::Error,
        title: "错误".to_owned(),
        text: "请先注册右键菜单".to_owned(),
    };
    push_step(
        &mut plan,
        Step { depth: 0, task: RegTask::Open { path: menu_key_string(), fallback: Some(fallback) } },
    );
    push_step(
        &mut plan,
        Step {
            depth: 1,
            task: RegTask::Locate {
                purpose: ProgramUse::AddEntry {
                    env_name: env_name.to_owned(),
                    title: title.to_owned(),
                },
            },
        },
    );
    let text = join3("已将 ", title, " 添加到右键菜单");
    push_step(
        &mut plan,
        Step { depth: 1, task: RegTask::Notify { notice: info_notice("提示", text.as_str()) } },
    );
    assert(steps_view(plan@) =~= entry_adding_steps(env_name@, title@));
    plan
}

/// The steps that the program's path `exe` makes possible for the use `u`.
pub fn located_plan(u: &ProgramUse, exe: &str) -> (plan: Vec<Step>)
    ensures
        steps_view(plan@) == located_steps(u@, exe@),
{
    match u {
        ProgramUse::Register { select_keys } => registration_body_plan(exe, select_keys.as_str()),
        ProgramUse::AddEntry { env_name, title } => {
            let c = variable_command(exe, env_name.as_str(), title.as_str());
            let mut plan: Vec<Step> = Vec::new();
            push_entry_steps(&mut plan, &c, 1);
            assert(steps_view(plan@) =~= entry_steps(c@, 1));
            plan
        },
    }
}

} // verus!

verus! {

proof fn lemma_entry_steps_chained(c: CommandView, d: u8)
    requires
        d <= 253,
    ensures
        steps_chained(entry_steps(c, d)),
        entry_steps(c, d).len() == 7,
        entry_steps(c, d)[0].depth == d,
        entry_steps(c, d).last().depth == d + 2,
{
    let p = entry_steps(c, d);
    assert forall|i: int| #![trigger p[i]] 0 < i < p.len() implies may_follow(p[i - 1], p[i]) by {
        assert(0 < i < 7);
    }
}

proof fn lemma_registration_body_chained(exe: Seq<char>, select_keys: Seq<char>)
    ensures
        steps_chained(registration_body(exe, select_keys)),
        registration_body(exe, select_keys)[0].depth == 1,
        registration_body(exe, select_keys).last().depth == 3,
        registration_body(exe, select_keys).len() == 25,
{
    let e = registration_entries(exe);
    let head = seq![
        set_step(menu_key(), "select_keys"@, select_keys, 1),
        set_step(menu_key(), "MUIVerb"@, "Mini Env"@, 1),
        set_step(menu_key(), "Icon"@, exe, 1),
        set_step(menu_key(), "SubCommands"@, ""@, 1),
    ];
    assert forall|i: int| #![trigger head[i]] 0 < i < head.len() implies may_follow(head[i - 1], head[i]) by {
        assert(0 < i < 4);
    }
    lemma_entry_steps_chained(e[0], 1);
    lemma_entry_steps_chained(e[1], 1);
    lemma_entry_steps_chained(e[2], 1);
    lemma_chained_concat(head, entry_steps(e[0], 1));
    let p1 = head + entry_steps(e[0], 1);
    assert(p1.last() == entry_steps(e[0], 1).last());
    lemma_chained_concat(p1, entry_steps(e[1], 1));
    let p2 = p1 + entry_steps(e[1], 1);
    assert(p2.last() == entry_steps(e[1], 1).last());
    lemma_chained_concat(p2, entry_steps(e[2], 1));
    let p3 = p2 + entry_steps(e[2], 1);
    assert(p3.last() == entry_steps(e[2], 1).last());
    assert(registration_body(exe, select_keys) == p3);
    assert(p3[0] == head[0]);
}

/// Every plan this program runs is well formed, and stays so once the steps
/// that need the program's path are put in: it starts at depth 0, and a step is
/// nested one level deeper than the step before it only right below an `Open`
/// or a `Create`, so a failed gate cancels exactly the work that needed it.
pub proof fn law_plans_well_formed(
    exe: Seq<char>,
    select_keys: Seq<char>,
    env_name: Seq<char>,
    title: Seq<char>,
)
    ensures
        well_formed_plan(registration_steps(select_keys)),
        well_formed_plan(registration_run(exe, select_keys)),
        well_formed_plan(clearing_steps()),
        well_formed_plan(entry_adding_steps(env_name, title)),
        well_formed_plan(entry_adding_run(exe, env_name, title)),
{
    let r = registration_steps(select_keys);
    assert forall|i: int| #![trigger r[i]] 0 < i < r.len() implies may_follow(r[i - 1], r[i]) by {
        assert(0 < i < 5);
    }
    let rh = r.take(4);
    let rt = r.skip(4);
    assert forall|i: int| #![trigger rh[i]] 0 < i < rh.len() implies may_follow(rh[i - 1], rh[i]) by {
        assert(rh[i] == r[i] && rh[i - 1] == r[i - 1]);
    }
    assert(steps_chained(rt));
    let body = registration_body(exe, select_keys);
    lemma_registration_body_chained(exe, select_keys);
    lemma_chained_concat(rh, body);
    assert((rh + body).last() == body.last());
    lemma_chained_concat(rh + body, rt);
    assert((rh + body + rt)[0] == r[0]);

    let cl = clearing_steps();
    assert forall|i: int| #![trigger cl[i]] 0 < i < cl.len() implies may_follow(cl[i - 1], cl[i]) by {
        assert(0 < i < 3);
    }

    let a = entry_adding_steps(env_name, title);
    assert forall|i: int| #![trigger a[i]] 0 < i < a.len() implies may_follow(a[i - 1], a[i]) by {
        assert(0 < i < 3);
    }
    let ah = a.take(2);
    let at = a.skip(2);
    assert forall|i: int| #![trigger ah[i]] 0 < i < ah.len() implies may_follow(ah[i - 1], ah[i]) by {
        assert(ah[i] == a[i] && ah[i - 1] == a[i - 1]);
    }
    assert(steps_chained(at));
    let c = variable_entry(exe, env_name, lowercase_of(env_name), title);
    let ab = located_steps(UseView::AddEntry { env_name, title }, exe);
    lemma_entry_steps_chained(c, 1);
    lemma_chained_concat(ah, ab);
    assert((ah + ab).last() == ab.last());
    lemma_chained_concat(ah + ab, at);
    assert((ah + ab + at)[0] == a[0]);
}

} // verus!

verus! {

/// A name as the registry compares it, under the character map `g`.
pub open spec fn folded(s: Seq<char>, g: spec_fn(char) -> char) -> Seq<char> {
    fold_text(s, g)
}

/// Whether a registration writes the value `kn` (key, name), as the registry
/// compares them: one of the four settings of the menu key, or a value of the
/// key or `command` key of one of its three entries.
pub open spec fn registration_writes(kn: (Seq<char>, Seq<char>), g: spec_fn(char) -> char) -> bool {
    let m = folded(menu_key(), g);
    ||| kn.0 == m && (kn.1 == folded("select_keys"@, g) || kn.1 == folded("MUIVerb"@, g)
        || kn.1 == folded("Icon"@, g) || kn.1 == folded("SubCommands"@, g))
    ||| kn.0 == folded(entry_key("add_to_path"@), g)
    ||| kn.0 == folded(entry_command_key("add_to_path"@), g)
    ||| kn.0 == folded(entry_key("add_to_current_UI"@), g)
    ||| kn.0 == folded(entry_command_key("add_to_current_UI"@), g)
    ||| kn.0 == folded(entry_key("add_to_new_UI"@), g)
    ||| kn.0 == folded(entry_command_key("add_to_new_UI"@), g)
}

/// The steps of any number of entry additions, each given as the program's
/// path, the variable's name and the caption.
pub open spec fn adding_runs(adds: Seq<(Seq<char>, Seq<char>, Seq<char>)>) -> Seq<StepView>
    decreases adds.len(),
{
    if adds.len() == 0 {
        Seq::empty()
    } else {
        entry_adding_run(adds[0].0, adds[0].1, adds[0].2) + adding_runs(adds.drop_first())
    }
}

/// Steps that only open keys, ask for the program's path or show messages add
/// no key and write no value.
proof fn lemma_inert_steps(p: Seq<StepView>)
    requires
        forall|i: int|
            0 <= i < p.len() ==> (#[trigger] p[i].task is Open || p[i].task is Locate
                || p[i].task is Notify),
    ensures
        deletes_nothing(p),
        adds_keys_only(p, |k: Seq<char>| false),
        writes_values_only(p, |kn: (Seq<char>, Seq<char>)| false),
        keys_added(p) == Set::<Seq<char>>::empty(),
        values_written(p) == Map::<(Seq<char>, Seq<char>), Seq<char>>::empty(),
{
    assert forall|i: int| 0 <= i < p.len() implies !(#[trigger] p[i].task is DeleteTree) by {}
    assert forall|i: int, k: Seq<char>|
        0 <= i < p.len() && #[trigger] keys_added_by(p[i]).contains(k) implies false by {}
    assert forall|i: int, kn: (Seq<char>, Seq<char>)|
        0 <= i < p.len() && #[trigger] values_written_by(p[i]).dom().contains(kn) implies false by {}
    lemma_additions_only(p, |k: Seq<char>| false, |kn: (Seq<char>, Seq<char>)| false);
    assert(keys_added(p) =~= Set::<Seq<char>>::empty());
    assert(values_written(p) =~= Map::<(Seq<char>, Seq<char>), Seq<char>>::empty());
}

/// Creating a name without separators makes exactly one key.
proof fn lemma_created_single(p: Seq<char>, s: Seq<char>, g: spec_fn(char) -> char)
    requires
        case_map(g),
        s.len() > 0,
        forall|i: int| 0 <= i < s.len() ==> s[i] != '\\',
    ensures
        forall|k: Seq<char>|
            created_keys(p, folded(s, g)).contains(k) ==> k == subkey_path(p, folded(s, g)),
{
    let c = folded(s, g);
    lemma_fold_concat(s, Seq::empty(), g);
    assert forall|k: Seq<char>| created_keys(p, c).contains(k) implies k == subkey_path(p, c) by {
        let i = choose|i: int|
            0 < i <= c.len() && (i == c.len() || c[i] == '\\') && k == #[trigger] subkey_path(
                p,
                c.take(i),
            );
        if i < c.len() {
            assert(c[i] == g(s[i]));
            assert(s[i] != '\\');
        }
        assert(c.take(i) =~= c);
    }
}

/// The folded steps of an entry delete nothing, make keys only within the
/// menu key, and write values only into the entry's key and `command` key.
proof fn lemma_entry_steps_folded(c: CommandView, d: u8, g: spec_fn(char) -> char)
    requires
        case_map(g),
    ensures
        deletes_nothing(fold_steps(entry_steps(c, d), g)),
        adds_keys_only(
            fold_steps(entry_steps(c, d), g),
            |k: Seq<char>| within(k, folded(menu_key(), g)),
        ),
        writes_values_only(
            fold_steps(entry_steps(c, d), g),
            |kn: (Seq<char>, Seq<char>)|
                kn.0 == folded(entry_key(c.name), g) || kn.0 == folded(entry_command_key(c.name), g),
        ),
        fold_steps(entry_steps(c, d), g).len() == 7,
{
    let p = entry_steps(c, d);
    let q = fold_steps(p, g);
    let m = folded(menu_key(), g);
    let key = folded(entry_key(c.name), g);
    lemma_fold_subkey(menu_key(), entry_key_name(c.name), g);
    lemma_fold_subkey(entry_key(c.name), "command"@, g);
    assert(within(m, m));
    lemma_within_extend(m, m, folded(entry_key_name(c.name), g));
    lemma_created_within(m, folded(entry_key_name(c.name), g), m);
    lemma_created_within(key, folded("command"@, g), m);
    assert forall|i: int| 0 <= i < q.len() implies !(#[trigger] q[i].task is DeleteTree) by {
        assert(0 <= i < 7);
        assert(q[i] == fold_step(p[i], g));
    }
    assert forall|i: int, k: Seq<char>|
        0 <= i < q.len() && #[trigger] keys_added_by(q[i]).contains(k) implies within(k, m) by {
        assert(0 <= i < 7);
        assert(q[i] == fold_step(p[i], g));
    }
    assert forall|i: int, kn: (Seq<char>, Seq<char>)|
        0 <= i < q.len() && #[trigger] values_written_by(q[i]).dom().contains(kn) implies (kn.0
        == key || kn.0 == folded(entry_command_key(c.name), g)) by {
        assert(0 <= i < 7);
        assert(q[i] == fold_step(p[i], g));
    }
}

/// The folded steps of an entry stay within what `ko` and `vo` allow, when
/// they allow the menu key's subtree and the entry's two keys.
proof fn lemma_entry_steps_bounded(
    c: CommandView,
    g: spec_fn(char) -> char,
    ko: spec_fn(Seq<char>) -> bool,
    vo: spec_fn((Seq<char>, Seq<char>)) -> bool,
)
    requires
        case_map(g),
        forall|k: Seq<char>| within(k, folded(menu_key(), g)) ==> #[trigger] ko(k),
        forall|kn: (Seq<char>, Seq<char>)|
            (kn.0 == folded(entry_key(c.name), g) || kn.0 == folded(entry_command_key(c.name), g))
                ==> #[trigger] vo(kn),
    ensures
        deletes_nothing(fold_steps(entry_steps(c, 1), g)),
        adds_keys_only(fold_steps(entry_steps(c, 1), g), ko),
        writes_values_only(fold_steps(entry_steps(c, 1), g), vo),
{
    lemma_entry_steps_folded(c, 1, g);
    let q = fold_steps(entry_steps(c, 1), g);
    assert forall|i: int, k: Seq<char>|
        0 <= i < q.len() && #[trigger] keys_added_by(q[i]).contains(k) implies ko(k) by {
        assert(within(k, folded(menu_key(), g)));
    }
    assert forall|i: int, kn: (Seq<char>, Seq<char>)|
        0 <= i < q.len() && #[trigger] values_written_by(q[i]).dom().contains(kn) implies vo(kn) by {
        assert(kn.0 == folded(entry_key(c.name), g) || kn.0 == folded(entry_command_key(c.name), g));
    }
}

proof fn lemma_registration_run_folded(exe: Seq<char>, select_keys: Seq<char>, g: spec_fn(char) -> char)
    requires
        case_map(g),
    ensures
        deletes_nothing(fold_steps(registration_run(exe, select_keys), g)),
        adds_keys_only(
            fold_steps(registration_run(exe, select_keys), g),
            |k: Seq<char>| within(k, folded(menu_key(), g)),
        ),
        writes_values_only(
            fold_steps(registration_run(exe, select_keys), g),
            |kn: (Seq<char>, Seq<char>)| within(kn.0, folded(menu_key(), g)) && registration_writes(kn, g),
        ),
{
    let ko = |k: Seq<char>| within(k, folded(menu_key(), g));
    let vo = |kn: (Seq<char>, Seq<char>)| within(kn.0, folded(menu_key(), g)) && registration_writes(kn, g);
    let m = folded(menu_key(), g);
    let e = registration_entries(exe);
    let r = registration_steps(select_keys);
    let rh = fold_steps(r.take(4), g);
    let rt = fold_steps(r.skip(4), g);
    assert(within(m, m));
    reveal_strlit("miniEnv");
    assert forall|i: int| 0 <= i < menu_key_name().len() implies menu_key_name()[i] != '\\' by {}
    lemma_created_single(folded(shell_key(), g), menu_key_name(), g);
    lemma_fold_subkey(shell_key(), menu_key_name(), g);
    assert forall|i: int| 0 <= i < rh.len() implies !(#[trigger] rh[i].task is DeleteTree) by {
        assert(rh[i] == fold_step(r[i], g));
    }
    assert forall|i: int, k: Seq<char>|
        0 <= i < rh.len() && #[trigger] keys_added_by(rh[i]).contains(k) implies ko(k) by {
        assert(rh[i] == fold_step(r[i], g));
        assert(0 <= i < 4);
        if i == 1 {
            assert(keys_added_by(rh[1]) == created_keys(
                folded(shell_key(), g),
                folded(menu_key_name(), g),
            ));
            assert(k == subkey_path(folded(shell_key(), g), folded(menu_key_name(), g)));
            assert(k == m);
        }
    }
    assert forall|i: int, kn: (Seq<char>, Seq<char>)|
        0 <= i < rh.len() && #[trigger] values_written_by(rh[i]).dom().contains(kn) implies vo(kn) by {
        assert(rh[i] == fold_step(r[i], g));
    }
    assert forall|i: int| 0 <= i < rt.len() implies !(#[trigger] rt[i].task is DeleteTree) by {
        assert(rt[i] == fold_step(r[i + 4], g));
    }
    assert forall|i: int, k: Seq<char>|
        0 <= i < rt.len() && #[trigger] keys_added_by(rt[i]).contains(k) implies ko(k) by {
        assert(rt[i] == fold_step(r[i + 4], g));
    }
    assert forall|i: int, kn: (Seq<char>, Seq<char>)|
        0 <= i < rt.len() && #[trigger] values_written_by(rt[i]).dom().contains(kn) implies vo(kn) by {
        assert(rt[i] == fold_step(r[i + 4], g));
    }
    let head0 = seq![
        set_step(menu_key(), "select_keys"@, select_keys, 1),
        set_step(menu_key(), "MUIVerb"@, "Mini Env"@, 1),
        set_step(menu_key(), "Icon"@, exe, 1),
        set_step(menu_key(), "SubCommands"@, ""@, 1),
    ];
    let head = fold_steps(head0, g);
    assert forall|i: int| 0 <= i < head.len() implies !(#[trigger] head[i].task is DeleteTree) by {
        assert(0 <= i < 4);
        assert(head[i] == fold_step(head0[i], g));
    }
    assert forall|i: int, k: Seq<char>|
        0 <= i < head.len() && #[trigger] keys_added_by(head[i]).contains(k) implies ko(k) by {
        assert(0 <= i < 4);
        assert(head[i] == fold_step(head0[i], g));
    }
    assert forall|i: int, kn: (Seq<char>, Seq<char>)|
        0 <= i < head.len() && #[trigger] values_written_by(head[i]).dom().contains(kn) implies vo(
        kn,
    ) by {
        assert(0 <= i < 4);
        assert(head[i] == fold_step(head0[i], g));
    }
    lemma_fold_subkey(menu_key(), entry_key_name(e[0].name), g);
    lemma_fold_subkey(menu_key(), entry_key_name(e[1].name), g);
    lemma_fold_subkey(menu_key(), entry_key_name(e[2].name), g);
    lemma_fold_subkey(entry_key(e[0].name), "command"@, g);
    lemma_fold_subkey(entry_key(e[1].name), "command"@, g);
    lemma_fold_subkey(entry_key(e[2].name), "command"@, g);
    lemma_within_extend(m, m, folded(entry_key_name(e[0].name), g));
    lemma_within_extend(m, m, folded(entry_key_name(e[1].name), g));
    lemma_within_extend(m, m, folded(entry_key_name(e[2].name), g));
    lemma_within_extend(folded(entry_key(e[0].name), g), m, folded("command"@, g));
    lemma_within_extend(folded(entry_key(e[1].name), g), m, folded("command"@, g));
    lemma_within_extend(folded(entry_key(e[2].name), g), m, folded("command"@, g));
    lemma_entry_steps_bounded(e[0], g, ko, vo);
    lemma_entry_steps_bounded(e[1], g, ko, vo);
    lemma_entry_steps_bounded(e[2], g, ko, vo);
    let e0 = fold_steps(entry_steps(e[0], 1), g);
    let e1 = fold_steps(entry_steps(e[1], 1), g);
    let e2 = fold_steps(entry_steps(e[2], 1), g);
    assert(deletes_nothing(e0) && deletes_nothing(e1) && deletes_nothing(e2));
    lemma_bounds_concat(rh, head, ko, vo);
    lemma_bounds_concat(rh + head, e0, ko, vo);
    lemma_bounds_concat(rh + head + e0, e1, ko, vo);
    lemma_bounds_concat(rh + head + e0 + e1, e2, ko, vo);
    lemma_bounds_concat(rh + head + e0 + e1 + e2, rt, ko, vo);
    let whole = r.take(4) + head0 + entry_steps(e[0], 1) + entry_steps(e[1], 1) + entry_steps(
        e[2],
        1,
    ) + r.skip(4);
    assert(registration_run(exe, select_keys) =~= whole);
    assert(fold_steps(whole, g) =~= rh + head + e0 + e1 + e2 + rt);
}

proof fn lemma_entry_adding_run_folded(
    exe: Seq<char>,
    env_name: Seq<char>,
    env_name_lower: Seq<char>,
    title: Seq<char>,
    g: spec_fn(char) -> char,
)
    requires
        case_map(g),
    ensures
        deletes_nothing(fold_steps(entry_adding_run_named(exe, env_name, env_name_lower, title), g)),
        adds_keys_only(
            fold_steps(entry_adding_run_named(exe, env_name, env_name_lower, title), g),
            |k: Seq<char>| within(k, folded(menu_key(), g)),
        ),
        writes_values_only(
            fold_steps(entry_adding_run_named(exe, env_name, env_name_lower, title), g),
            |kn: (Seq<char>, Seq<char>)|
                within(kn.0, folded(menu_key(), g)) && within(
                    kn.0,
                    folded(entry_key("add_to_"@ + env_name_lower), g),
                ),
        ),
        fold_steps(entry_adding_run_named(exe, env_name, env_name_lower, title), g) == fold_steps(
            entry_adding_steps(env_name, title).take(2),
            g,
        ) + fold_steps(entry_steps(variable_entry(exe, env_name, env_name_lower, title), 1), g)
            + fold_steps(entry_adding_steps(env_name, title).skip(2), g),
{
    let ko = |k: Seq<char>| within(k, folded(menu_key(), g));
    let name = "add_to_"@ + env_name_lower;
    let key = folded(entry_key(name), g);
    let vo = |kn: (Seq<char>, Seq<char>)| within(kn.0, folded(menu_key(), g)) && within(kn.0, key);
    let m = folded(menu_key(), g);
    let a = entry_adding_steps(env_name, title);
    let ah = a.take(2);
    let at = a.skip(2);
    let c = variable_entry(exe, env_name, env_name_lower, title);
    lemma_inert_steps(ah);
    lemma_inert_steps(at);
    lemma_inert_steps(fold_steps(ah, g));
    lemma_inert_steps(fold_steps(at, g));
    lemma_entry_steps_folded(c, 1, g);
    lemma_fold_subkey(menu_key(), entry_key_name(name), g);
    lemma_fold_subkey(entry_key(name), "command"@, g);
    lemma_within_extend(m, m, folded(entry_key_name(name), g));
    lemma_within_extend(key, m, folded("command"@, g));
    assert(within(key, key));
    lemma_within_extend(key, key, folded("command"@, g));
    let q = fold_steps(entry_steps(c, 1), g);
    assert forall|i: int, kn: (Seq<char>, Seq<char>)|
        0 <= i < q.len() && #[trigger] values_written_by(q[i]).dom().contains(kn) implies vo(kn) by {
        assert(kn.0 == key || kn.0 == folded(entry_command_key(name), g));
    }
    lemma_bounds_concat(fold_steps(ah, g), q, ko, vo);
    lemma_bounds_concat(fold_steps(ah, g) + q, fold_steps(at, g), ko, vo);
    lemma_fold_steps_concat(ah, entry_steps(c, 1), g);
    lemma_fold_steps_concat(ah + entry_steps(c, 1), at, g);
}

proof fn lemma_adding_runs_folded(adds: Seq<(Seq<char>, Seq<char>, Seq<char>)>, g: spec_fn(char) -> char)
    requires
        case_map(g),
    ensures
        deletes_nothing(fold_steps(adding_runs(adds), g)),
        adds_keys_only(fold_steps(adding_runs(adds), g), |k: Seq<char>| within(k, folded(menu_key(), g))),
        writes_values_only(
            fold_steps(adding_runs(adds), g),
            |kn: (Seq<char>, Seq<char>)| within(kn.0, folded(menu_key(), g)),
        ),
    decreases adds.len(),
{
    let ko = |k: Seq<char>| within(k, folded(menu_key(), g));
    let vo = |kn: (Seq<char>, Seq<char>)| within(kn.0, folded(menu_key(), g));
    if adds.len() == 0 {
        lemma_inert_steps(fold_steps(adding_runs(adds), g));
        assert forall|i: int, kn: (Seq<char>, Seq<char>)|
            0 <= i < fold_steps(adding_runs(adds), g).len() && #[trigger] values_written_by(
                fold_steps(adding_runs(adds), g)[i],
            ).dom().contains(kn) implies vo(kn) by {}
    } else {
        let first = entry_adding_run(adds[0].0, adds[0].1, adds[0].2);
        lemma_entry_adding_run_folded(adds[0].0, adds[0].1, lowercase_of(adds[0].1), adds[0].2, g);
        lemma_adding_runs_folded(adds.drop_first(), g);
        let f1 = fold_steps(first, g);
        assert forall|i: int, kn: (Seq<char>, Seq<char>)|
            0 <= i < f1.len() && #[trigger] values_written_by(f1[i]).dom().contains(kn) implies vo(
            kn,
        ) by {}
        lemma_bounds_concat(f1, fold_steps(adding_runs(adds.drop_first()), g), ko, vo);
        lemma_fold_steps_concat(first, adding_runs(adds.drop_first()), g);
    }
}

/// Adding the same entry twice, with the same inputs and every action
/// succeeding, leaves the registry as adding it once: keys are not duplicated
/// and the values are overwritten with the same data. Key and value names are
/// compared under the registry's character map `g`.
pub proof fn law_adding_entry_twice_same(
    exe: Seq<char>,
    env_name: Seq<char>,
    title: Seq<char>,
    r: RegistryView,
    g: spec_fn(char) -> char,
)
    requires
        case_map(g),
    ensures
        plan_effect(
            fold_steps(entry_adding_run(exe, env_name, title), g),
            plan_effect(fold_steps(entry_adding_run(exe, env_name, title), g), r),
        ) == plan_effect(fold_steps(entry_adding_run(exe, env_name, title), g), r),
{
    lemma_entry_adding_run_folded(exe, env_name, lowercase_of(env_name), title, g);
    lemma_idempotent_without_deletes(fold_steps(entry_adding_run(exe, env_name, title), g), r);
}

/// Registering twice, with the same inputs and every action succeeding, leaves
/// the registry as registering once.
pub proof fn law_registering_twice_same(
    exe: Seq<char>,
    select_keys: Seq<char>,
    r: RegistryView,
    g: spec_fn(char) -> char,
)
    requires
        case_map(g),
    ensures
        plan_effect(
            fold_steps(registration_run(exe, select_keys), g),
            plan_effect(fold_steps(registration_run(exe, select_keys), g), r),
        ) == plan_effect(fold_steps(registration_run(exe, select_keys), g), r),
{
    lemma_registration_run_folded(exe, select_keys, g);
    lemma_idempotent_without_deletes(fold_steps(registration_run(exe, select_keys), g), r);
}

/// Registering removes nothing: every key stays, and every value stays as it
/// was unless it is one of the four settings of the menu key or lies in the key
/// or `command` key of one of the three registered entries (names compared
/// under the registry's character map `g`); so other values of the menu key,
/// and entries added earlier under other names, survive.
pub proof fn law_registration_keeps_others(
    exe: Seq<char>,
    select_keys: Seq<char>,
    r: RegistryView,
    g: spec_fn(char) -> char,
)
    requires
        case_map(g),
    ensures
        forall|k: Seq<char>|
            r.keys.contains(k) ==> #[trigger] plan_effect(
                fold_steps(registration_run(exe, select_keys), g),
                r,
            ).keys.contains(k),
        forall|kn: (Seq<char>, Seq<char>)|
            r.values.dom().contains(kn) && !registration_writes(kn, g) ==> {
                &&& plan_effect(fold_steps(registration_run(exe, select_keys), g), r).values.dom().contains(
                    kn,
                )
                &&& #[trigger] plan_effect(
                    fold_steps(registration_run(exe, select_keys), g),
                    r,
                ).values[kn] == r.values[kn]
            },
{
    let p = fold_steps(registration_run(exe, select_keys), g);
    lemma_registration_run_folded(exe, select_keys, g);
    lemma_effect_without_deletes(p, r);
    lemma_additions_only(
        p,
        |k: Seq<char>| within(k, folded(menu_key(), g)),
        |kn: (Seq<char>, Seq<char>)| within(kn.0, folded(menu_key(), g)) && registration_writes(kn, g),
    );
}

/// Clearing undoes registering and any number of entry additions made after it
/// (every action succeeding), when the registry held nothing at or below the
/// menu key before, names compared under the registry's character map `g`.
pub proof fn law_clearing_undoes(
    r: RegistryView,
    exe: Seq<char>,
    select_keys: Seq<char>,
    adds: Seq<(Seq<char>, Seq<char>, Seq<char>)>,
    g: spec_fn(char) -> char,
)
    requires
        case_map(g),
        forall|k: Seq<char>| #[trigger] r.keys.contains(k) ==> !within(k, folded(menu_key(), g)),
        forall|kn: (Seq<char>, Seq<char>)| #[trigger] r.values.dom().contains(kn) ==> !within(
            kn.0,
            folded(menu_key(), g),
        ),
    ensures
        plan_effect(
            fold_steps(clearing_steps(), g),
            plan_effect(
                fold_steps(adding_runs(adds), g),
                plan_effect(fold_steps(registration_run(exe, select_keys), g), r),
            ),
        ) == r,
{
    let m = folded(menu_key(), g);
    let ko = |k: Seq<char>| within(k, m);
    let vo = |kn: (Seq<char>, Seq<char>)| within(kn.0, m);
    let reg = fold_steps(registration_run(exe, select_keys), g);
    let more = fold_steps(adding_runs(adds), g);
    lemma_registration_run_folded(exe, select_keys, g);
    lemma_adding_runs_folded(adds, g);
    assert forall|i: int, kn: (Seq<char>, Seq<char>)|
        0 <= i < reg.len() && #[trigger] values_written_by(reg[i]).dom().contains(kn) implies vo(
        kn,
    ) by {}
    lemma_bounds_concat(reg, more, ko, vo);
    lemma_effect_concat(reg, more, r);
    lemma_delete_undoes(reg + more, m, r);
    let x = plan_effect(more, plan_effect(reg, r));
    let cl = fold_steps(clearing_steps(), g);
    lemma_fold_subkey(shell_key(), menu_key_name(), g);
    let y = delete_tree(x, m);
    assert(cl[0] == fold_step(clearing_steps()[0], g));
    assert(cl[1] == fold_step(clearing_steps()[1], g));
    assert(cl[2] == fold_step(clearing_steps()[2], g));
    assert(step_effect(cl[0], x).keys =~= x.keys);
    assert(step_effect(cl[0], x).values =~= x.values);
    assert(step_effect(cl[1], x) == y);
    assert(step_effect(cl[2], y).keys =~= y.keys);
    assert(step_effect(cl[2], y).values =~= y.values);
    assert(plan_effect(cl, x) == plan_effect(cl.drop_first(), x));
    assert(plan_effect(cl.drop_first(), x) == plan_effect(cl.drop_first().drop_first(), y));
    assert(plan_effect(cl.drop_first().drop_first(), y) == plan_effect(
        cl.drop_first().drop_first().drop_first(),
        y,
    ));
    assert(cl.drop_first().drop_first().drop_first().len() == 0);
}

/// Adding an entry stays local: every key stays, the only keys it makes are the
/// `shell` key below the menu key and keys at or below the entry's own key, and
/// the only values it changes or makes lie at or below the entry's own key.
/// Stated for the entry named after `env_name_lower`, the lower-case form of the
/// variable's name, when that form holds no `\`.
pub proof fn law_adding_entry_local(
    exe: Seq<char>,
    env_name: Seq<char>,
    env_name_lower: Seq<char>,
    title: Seq<char>,
    r: RegistryView,
    g: spec_fn(char) -> char,
)
    requires
        case_map(g),
        forall|i: int| 0 <= i < env_name_lower.len() ==> env_name_lower[i] != '\\',
    ensures
        forall|k: Seq<char>|
            r.keys.contains(k) ==> #[trigger] plan_effect(
                fold_steps(entry_adding_run_named(exe, env_name, env_name_lower, title), g),
                r,
            ).keys.contains(k),
        forall|k: Seq<char>|
            #[trigger] plan_effect(
                fold_steps(entry_adding_run_named(exe, env_name, env_name_lower, title), g),
                r,
            ).keys.contains(k) && !r.keys.contains(k) ==> k == subkey_path(
                folded(menu_key(), g),
                folded("shell"@, g),
            ) || within(k, folded(entry_key("add_to_"@ + env_name_lower), g)),
        forall|kn: (Seq<char>, Seq<char>)|
            !within(kn.0, folded(entry_key("add_to_"@ + env_name_lower), g)) ==> (#[trigger] plan_effect(
                fold_steps(entry_adding_run_named(exe, env_name, env_name_lower, title), g),
                r,
            ).values.dom().contains(kn) == r.values.dom().contains(kn) && (r.values.dom().contains(
                kn,
            ) ==> plan_effect(
                fold_steps(entry_adding_run_named(exe, env_name, env_name_lower, title), g),
                r,
            ).values[kn] == r.values[kn])),
{
    let name = "add_to_"@ + env_name_lower;
    let m = folded(menu_key(), g);
    let key = folded(entry_key(name), g);
    let sh = subkey_path(m, folded("shell"@, g));
    let ko = |k: Seq<char>| k == sh || within(k, key);
    let vo = |kn: (Seq<char>, Seq<char>)| within(kn.0, key);
    let c = variable_entry(exe, env_name, env_name_lower, title);
    let run = entry_adding_run_named(exe, env_name, env_name_lower, title);
    lemma_entry_adding_run_folded(exe, env_name, env_name_lower, title, g);
    let a = entry_adding_steps(env_name, title);
    let fh = fold_steps(a.take(2), g);
    let ft = fold_steps(a.skip(2), g);
    let q = fold_steps(entry_steps(c, 1), g);
    lemma_inert_steps(a.take(2));
    lemma_inert_steps(a.skip(2));
    lemma_inert_steps(fh);
    lemma_inert_steps(ft);
    // the keys that the entry's steps make
    let child = entry_key_name(name);
    let fc = folded(child, g);
    reveal_strlit("shell\\");
    reveal_strlit("shell");
    reveal_strlit("add_to_");
    assert(name.len() == env_name_lower.len() + 7);
    assert(child.len() == name.len() + 6);
    lemma_fold_concat("shell\\"@, name, g);
    lemma_fold_concat("add_to_"@, env_name_lower, g);
    lemma_fold_subkey(menu_key(), child, g);
    lemma_fold_subkey(entry_key(name), "command"@, g);
    assert(within(key, key));
    lemma_created_within(key, folded("command"@, g), key);
    assert forall|k: Seq<char>| created_keys(m, fc).contains(k) implies ko(k) by {
        let i = choose|i: int|
            0 < i <= fc.len() && (i == fc.len() || fc[i] == '\\') && k == #[trigger] subkey_path(
                m,
                fc.take(i),
            );
        if i == fc.len() {
            assert(fc.take(i) =~= fc);
        } else {
            assert(fc[i] == g(child[i]));
            if i < 5 {
                assert(child[i] == "shell\\"@[i]);
                assert(g(child[i]) != '\\');
            } else if i == 5 {
                assert(fc.take(5) =~= folded("shell"@, g));
            } else {
                assert(child[i] == name[i - 6]);
                if i - 6 >= 7 {
                    assert(name[i - 6] == env_name_lower[i - 13]);
                    assert(env_name_lower[i - 13] != '\\');
                } else {
                    assert(name[i - 6] == "add_to_"@[i - 6]);
                }
                assert(g(child[i]) != '\\');
            }
        }
    }
    assert forall|i: int, k: Seq<char>|
        0 <= i < q.len() && #[trigger] keys_added_by(q[i]).contains(k) implies ko(k) by {
        assert(0 <= i < 7);
        assert(q[i] == fold_step(entry_steps(c, 1)[i], g));
        lemma_within_extend(key, key, folded("command"@, g));
    }
    assert forall|i: int, kn: (Seq<char>, Seq<char>)|
        0 <= i < q.len() && #[trigger] values_written_by(q[i]).dom().contains(kn) implies vo(kn) by {
        assert(kn.0 == key || kn.0 == folded(entry_command_key(name), g));
        lemma_within_extend(key, key, folded("command"@, g));
    }
    assert forall|i: int, k: Seq<char>|
        0 <= i < fh.len() && #[trigger] keys_added_by(fh[i]).contains(k) implies ko(k) by {}
    assert forall|i: int, kn: (Seq<char>, Seq<char>)|
        0 <= i < fh.len() && #[trigger] values_written_by(fh[i]).dom().contains(kn) implies vo(kn) by {}
    assert forall|i: int, k: Seq<char>|
        0 <= i < ft.len() && #[trigger] keys_added_by(ft[i]).contains(k) implies ko(k) by {}
    assert forall|i: int, kn: (Seq<char>, Seq<char>)|
        0 <= i < ft.len() && #[trigger] values_written_by(ft[i]).dom().contains(kn) implies vo(kn) by {}
    lemma_entry_steps_folded(c, 1, g);
    lemma_bounds_concat(fh, q, ko, vo);
    lemma_bounds_concat(fh + q, ft, ko, vo);
    let p = fold_steps(run, g);
    assert(p == fh + q + ft);
    lemma_effect_without_deletes(p, r);
    lemma_additions_only(p, ko, vo);
}

/// Adding the `PATH` entry with its standard caption after registering, every
/// action succeeding and the program found at the same `exe`, leaves the
/// registry as registration left it: it rewrites the entry that registration
/// wrote with the same data. Stated with the lower-case form `path` of the
/// variable's name given.
pub proof fn law_adding_path_after_registration_changes_nothing(
    exe: Seq<char>,
    select_keys: Seq<char>,
    r: RegistryView,
    g: spec_fn(char) -> char,
)
    requires
        case_map(g),
    ensures
        plan_effect(
            fold_steps(entry_adding_run_named(exe, "PATH"@, "path"@, "添加到PATH环境变量"@), g),
            plan_effect(fold_steps(registration_run(exe, select_keys), g), r),
        ) == plan_effect(fold_steps(registration_run(exe, select_keys), g), r),
        entry_adding_run_named(exe, "PATH"@, "path"@, "添加到PATH环境变量"@).last() == notify_step(
            NoticeKind::Info,
            "提示"@,
            "已将 "@ + "添加到PATH环境变量"@ + " 添加到右键菜单"@,
            1,
        ),
{
    let e = registration_entries(exe);
    let title = "添加到PATH环境变量"@;
    reveal_strlit("add_to_");
    reveal_strlit("path");
    reveal_strlit("add_to_path");
    assert("add_to_"@ + "path"@ =~= "add_to_path"@);
    assert(variable_entry(exe, "PATH"@, "path"@, title) == e[0]);
    let reg = registration_run(exe, select_keys);
    let add = entry_adding_run_named(exe, "PATH"@, "path"@, title);
    lemma_registration_run_folded(exe, select_keys, g);
    lemma_entry_adding_run_folded(exe, "PATH"@, "path"@, title, g);
    // registration written as: prefix, the PATH entry, the rest
    let r0 = registration_steps(select_keys);
    let head0 = seq![
        set_step(menu_key(), "select_keys"@, select_keys, 1),
        set_step(menu_key(), "MUIVerb"@, "Mini Env"@, 1),
        set_step(menu_key(), "Icon"@, exe, 1),
        set_step(menu_key(), "SubCommands"@, ""@, 1),
    ];
    let pre = r0.take(4) + head0;
    let mid = entry_steps(e[0], 1);
    let post = entry_steps(e[1], 1) + entry_steps(e[2], 1) + r0.skip(4);
    assert(reg =~= pre + mid + post);
    lemma_fold_steps_concat(pre + mid, post, g);
    lemma_fold_steps_concat(pre, mid, g);
    let fpre = fold_steps(pre, g);
    let fmid = fold_steps(mid, g);
    let fpost = fold_steps(post, g);
    lemma_written_concat(fpre + fmid, fpost);
    lemma_written_concat(fpre, fmid);
    // the adding run has the same writes as the PATH entry of the registration
    let a = entry_adding_steps("PATH"@, title);
    let fah = fold_steps(a.take(2), g);
    let fat = fold_steps(a.skip(2), g);
    lemma_inert_steps(a.take(2));
    lemma_inert_steps(a.skip(2));
    lemma_inert_steps(fah);
    lemma_inert_steps(fat);
    lemma_written_concat(fah + fmid, fat);
    lemma_written_concat(fah, fmid);
    let fadd = fold_steps(add, g);
    assert(fadd == fah + fmid + fat);
    assert(values_written(fadd) =~= values_written(fmid));
    assert(keys_added(fadd) =~= keys_added(fmid));
    // the rest of the registration writes nothing that the PATH entry writes
    let k0 = folded(entry_key("add_to_path"@), g);
    let c0 = folded(entry_command_key("add_to_path"@), g);
    lemma_entry_steps_folded(e[0], 1, g);
    lemma_additions_only(
        fmid,
        |k: Seq<char>| within(k, folded(menu_key(), g)),
        |kn: (Seq<char>, Seq<char>)| kn.0 == k0 || kn.0 == c0,
    );
    lemma_entry_steps_folded(e[1], 1, g);
    lemma_entry_steps_folded(e[2], 1, g);
    let f1 = fold_steps(entry_steps(e[1], 1), g);
    let f2 = fold_steps(entry_steps(e[2], 1), g);
    let f3 = fold_steps(r0.skip(4), g);
    lemma_inert_steps(r0.skip(4));
    lemma_inert_steps(f3);
    let k1 = folded(entry_key("add_to_current_UI"@), g);
    let c1 = folded(entry_command_key("add_to_current_UI"@), g);
    let k2 = folded(entry_key("add_to_new_UI"@), g);
    let c2 = folded(entry_command_key("add_to_new_UI"@), g);
    let other = |kn: (Seq<char>, Seq<char>)| kn.0 == k1 || kn.0 == c1 || kn.0 == k2 || kn.0 == c2;
    assert forall|i: int, kn: (Seq<char>, Seq<char>)|
        0 <= i < f1.len() && #[trigger] values_written_by(f1[i]).dom().contains(kn) implies other(
        kn,
    ) by {}
    assert forall|i: int, kn: (Seq<char>, Seq<char>)|
        0 <= i < f2.len() && #[trigger] values_written_by(f2[i]).dom().contains(kn) implies other(
        kn,
    ) by {}
    assert forall|i: int, kn: (Seq<char>, Seq<char>)|
        0 <= i < f3.len() && #[trigger] values_written_by(f3[i]).dom().contains(kn) implies other(
        kn,
    ) by {}
    let ko = |k: Seq<char>| within(k, folded(menu_key(), g));
    lemma_bounds_concat(f1, f2, ko, other);
    lemma_bounds_concat(f1 + f2, f3, ko, other);
    lemma_fold_steps_concat(entry_steps(e[1], 1), entry_steps(e[2], 1), g);
    lemma_fold_steps_concat(entry_steps(e[1], 1) + entry_steps(e[2], 1), r0.skip(4), g);
    assert(fpost == f1 + f2 + f3);
    lemma_additions_only(fpost, ko, other);
    // the keys differ in length, so no written key of the rest is one of the PATH entry's
    reveal_strlit("add_to_path");
    reveal_strlit("add_to_current_UI");
    reveal_strlit("add_to_new_UI");
    reveal_strlit("shell\\");
    reveal_strlit("command");
    reveal_strlit("\\");
    lemma_fold_concat(entry_key("add_to_path"@), Seq::empty(), g);
    lemma_fold_concat(entry_command_key("add_to_path"@), Seq::empty(), g);
    lemma_fold_concat(entry_key("add_to_current_UI"@), Seq::empty(), g);
    lemma_fold_concat(entry_command_key("add_to_current_UI"@), Seq::empty(), g);
    lemma_fold_concat(entry_key("add_to_new_UI"@), Seq::empty(), g);
    lemma_fold_concat(entry_command_key("add_to_new_UI"@), Seq::empty(), g);
    assert(k0.len() != k1.len() && k0.len() != c1.len() && k0.len() != k2.len() && k0.len()
        != c2.len());
    assert(c0.len() != k1.len() && c0.len() != c1.len() && c0.len() != k2.len() && c0.len()
        != c2.len());
    // put together
    let wr = values_written(fold_steps(reg, g));
    let wm = values_written(fmid);
    assert(fold_steps(reg, g) == fpre + fmid + fpost);
    assert forall|kn: (Seq<char>, Seq<char>)| wm.dom().contains(kn) implies wr.dom().contains(kn)
        && wr[kn] == wm[kn] by {
        assert(kn.0 == k0 || kn.0 == c0);
        if values_written(fpost).dom().contains(kn) {
            assert(other(kn));
        }
    }
    let fr = fold_steps(reg, g);
    lemma_effect_without_deletes(fr, r);
    let after = plan_effect(fr, r);
    lemma_effect_without_deletes(fadd, after);
    assert(keys_added(fmid).subset_of(keys_added(fr)));
    assert(plan_effect(fadd, after).keys =~= after.keys);
    assert(plan_effect(fadd, after).values =~= after.values);
    assert(add.last() == a.skip(2)[0]);
}

} // verus!
verus! {

/// The runs above are what sessions hand out: a registration session whose
/// first four actions succeed asks for the program's path, and once given `exe`
/// it holds exactly the rest of `registration_run`; an adding session does the
/// same after two actions with the rest of `entry_adding_run`.
pub proof fn law_sessions_follow_runs(
    exe: Seq<char>,
    select_keys: Seq<char>,
    env_name: Seq<char>,
    title: Seq<char>,
)
    ensures
        after_successes(fresh_session(registration_steps(select_keys)), 4).locating == Some(
            UseView::Register { select_keys },
        ),
        located_state(after_successes(fresh_session(registration_steps(select_keys)), 4), exe).pending
            == registration_run(exe, select_keys).skip(4),
        after_successes(fresh_session(entry_adding_steps(env_name, title)), 2).locating == Some(
            UseView::AddEntry { env_name, title },
        ),
        located_state(after_successes(fresh_session(entry_adding_steps(env_name, title)), 2), exe).pending
            == entry_adding_run(exe, env_name, title).skip(2),
{
    reveal_with_fuel(after_successes, 5);
    let r = registration_steps(select_keys);
    let s1 = next_state(fresh_session(r), Outcome::Succeeded).0;
    let s2 = next_state(s1, Outcome::Succeeded).0;
    let s3 = next_state(s2, Outcome::Succeeded).0;
    let s4 = next_state(s3, Outcome::Succeeded).0;
    assert(s1.pending =~= r.skip(1));
    assert(s2.pending =~= r.skip(2));
    assert(s3.pending =~= r.skip(3));
    assert(s4.pending =~= r.skip(4));
    assert(located_state(s4, exe).pending =~= registration_run(exe, select_keys).skip(4));
    let a = entry_adding_steps(env_name, title);
    let t1 = next_state(fresh_session(a), Outcome::Succeeded).0;
    let t2 = next_state(t1, Outcome::Succeeded).0;
    assert(t1.pending =~= a.skip(1));
    assert(t2.pending =~= a.skip(2));
    assert(located_state(t2, exe).pending =~= entry_adding_run(exe, env_name, title).skip(2));
}

} // verus!

verus! {

/// An entry's keys are longer than the menu key, so they differ from it.
proof fn lemma_entry_keys_longer(n: Seq<char>, g: spec_fn(char) -> char)
    ensures
        folded(entry_key(n), g).len() > folded(menu_key(), g).len(),
        folded(entry_command_key(n), g).len() > folded(entry_key(n), g).len(),
{
    reveal_strlit("\\");
    reveal_strlit("shell\\");
    reveal_strlit("command");
    lemma_fold_concat(entry_key(n), Seq::empty(), g);
    lemma_fold_concat(entry_command_key(n), Seq::empty(), g);
    lemma_fold_concat(menu_key(), Seq::empty(), g);
}

/// The entries and the final report of a registration write nothing into the
/// menu key itself.
proof fn lemma_registration_entries_skip_menu(
    exe: Seq<char>,
    select_keys: Seq<char>,
    g: spec_fn(char) -> char,
    kn: (Seq<char>, Seq<char>),
)
    requires
        case_map(g),
        kn.0 == folded(menu_key(), g),
    ensures
        writes_values_only(
            fold_steps(
                entry_steps(registration_entries(exe)[0], 1) + entry_steps(
                    registration_entries(exe)[1],
                    1,
                ) + entry_steps(registration_entries(exe)[2], 1) + registration_steps(
                    select_keys,
                ).skip(4),
                g,
            ),
            |q: (Seq<char>, Seq<char>)| q != kn,
        ),
{
    let e = registration_entries(exe);
    let nk = |q: (Seq<char>, Seq<char>)| q != kn;
    lemma_entry_steps_folded(e[0], 1, g);
    lemma_entry_steps_folded(e[1], 1, g);
    lemma_entry_steps_folded(e[2], 1, g);
    lemma_entry_keys_longer(e[0].name, g);
    lemma_entry_keys_longer(e[1].name, g);
    lemma_entry_keys_longer(e[2].name, g);
    let f0 = fold_steps(entry_steps(e[0], 1), g);
    let f1 = fold_steps(entry_steps(e[1], 1), g);
    let f2 = fold_steps(entry_steps(e[2], 1), g);
    let rt = registration_steps(select_keys).skip(4);
    let f3 = fold_steps(rt, g);
    assert forall|i: int, q: (Seq<char>, Seq<char>)|
        0 <= i < f0.len() && #[trigger] values_written_by(f0[i]).dom().contains(q) implies nk(q) by {
        assert(q.0 == folded(entry_key(e[0].name), g) || q.0 == folded(entry_command_key(e[0].name), g));
    }
    assert forall|i: int, q: (Seq<char>, Seq<char>)|
        0 <= i < f1.len() && #[trigger] values_written_by(f1[i]).dom().contains(q) implies nk(q) by {
        assert(q.0 == folded(entry_key(e[1].name), g) || q.0 == folded(entry_command_key(e[1].name), g));
    }
    assert forall|i: int, q: (Seq<char>, Seq<char>)|
        0 <= i < f2.len() && #[trigger] values_written_by(f2[i]).dom().contains(q) implies nk(q) by {
        assert(q.0 == folded(entry_key(e[2].name), g) || q.0 == folded(entry_command_key(e[2].name), g));
    }
    lemma_inert_steps(f3);
    assert forall|i: int, q: (Seq<char>, Seq<char>)|
        0 <= i < f3.len() && #[trigger] values_written_by(f3[i]).dom().contains(q) implies nk(q) by {}
    lemma_writes_concat(f0, f1, nk);
    lemma_writes_concat(f0 + f1, f2, nk);
    lemma_writes_concat(f0 + f1 + f2, f3, nk);
    lemma_fold_steps_concat(entry_steps(e[0], 1), entry_steps(e[1], 1), g);
    lemma_fold_steps_concat(entry_steps(e[0], 1) + entry_steps(e[1], 1), entry_steps(e[2], 1), g);
    lemma_fold_steps_concat(
        entry_steps(e[0], 1) + entry_steps(e[1], 1) + entry_steps(e[2], 1),
        rt,
        g,
    );
}

/// Registering writes the menu's four settings as given, whatever the text:
/// `select_keys` holds the typed text unchanged, `MUIVerb` is `Mini Env`, `Icon`
/// is the program's path and `SubCommands` is empty. Stated for a character map
/// `g` under which the four setting names stay distinct, as the registry keeps them.
pub proof fn law_registration_writes_settings(
    exe: Seq<char>,
    select_keys: Seq<char>,
    r: RegistryView,
    g: spec_fn(char) -> char,
)
    requires
        case_map(g),
        folded("select_keys"@, g) != folded("MUIVerb"@, g),
        folded("select_keys"@, g) != folded("Icon"@, g),
        folded("select_keys"@, g) != folded("SubCommands"@, g),
        folded("MUIVerb"@, g) != folded("Icon"@, g),
        folded("MUIVerb"@, g) != folded("SubCommands"@, g),
        folded("Icon"@, g) != folded("SubCommands"@, g),
    ensures
        ({
            let after = plan_effect(fold_steps(registration_run(exe, select_keys), g), r);
            let m = folded(menu_key(), g);
            &&& after.values.dom().contains((m, folded("select_keys"@, g)))
            &&& after.values[(m, folded("select_keys"@, g))] == select_keys
            &&& after.values.dom().contains((m, folded("MUIVerb"@, g)))
            &&& after.values[(m, folded("MUIVerb"@, g))] == "Mini Env"@
            &&& after.values.dom().contains((m, folded("Icon"@, g)))
            &&& after.values[(m, folded("Icon"@, g))] == exe
            &&& after.values.dom().contains((m, folded("SubCommands"@, g)))
            &&& after.values[(m, folded("SubCommands"@, g))] == ""@
        }),
{
    let e = registration_entries(exe);
    let r0 = registration_steps(select_keys);
    let m = folded(menu_key(), g);
    let head0 = seq![
        set_step(menu_key(), "select_keys"@, select_keys, 1),
        set_step(menu_key(), "MUIVerb"@, "Mini Env"@, 1),
        set_step(menu_key(), "Icon"@, exe, 1),
        set_step(menu_key(), "SubCommands"@, ""@, 1),
    ];
    let tail = entry_steps(e[0], 1) + entry_steps(e[1], 1) + entry_steps(e[2], 1) + r0.skip(4);
    let run = registration_run(exe, select_keys);
    assert(run =~= r0.take(4) + head0 + tail);
    lemma_registration_run_folded(exe, select_keys, g);
    let fpre = fold_steps(r0.take(4), g);
    let fh = fold_steps(head0, g);
    let ft = fold_steps(tail, g);
    lemma_fold_steps_concat(r0.take(4) + head0, tail, g);
    lemma_fold_steps_concat(r0.take(4), head0, g);
    let fr = fold_steps(run, g);
    assert(fr == fpre + fh + ft);
    let names = seq!["select_keys"@, "MUIVerb"@, "Icon"@, "SubCommands"@];
    let datas = seq![select_keys, "Mini Env"@, exe, ""@];
    assert forall|j: int| 0 <= j < 4 implies {
        let kn = (m, folded(#[trigger] names[j], g));
        &&& plan_effect(fr, r).values.dom().contains(kn)
        &&& plan_effect(fr, r).values[kn] == datas[j]
    } by {
        let kn = (m, folded(names[j], g));
        let nk = |q: (Seq<char>, Seq<char>)| q != kn;
        assert(fh[j] == fold_step(head0[j], g));
        let b = fh.skip(j + 1) + ft;
        lemma_registration_entries_skip_menu(exe, select_keys, g, kn);
        let hb = fh.skip(j + 1);
        assert forall|i: int, q: (Seq<char>, Seq<char>)|
            0 <= i < hb.len() && #[trigger] values_written_by(hb[i]).dom().contains(q) implies nk(
            q,
        ) by {
            assert(hb[i] == fh[i + j + 1]);
            assert(fh[i + j + 1] == fold_step(head0[i + j + 1], g));
        }
        lemma_writes_concat(hb, ft, nk);
        assert(fr =~= (fpre + fh.take(j)) + seq![fh[j]] + b);
        lemma_last_write(fpre + fh.take(j), fh[j], b, kn, r);
    }
    assert(names[0] == "select_keys"@);
    assert(names[1] == "MUIVerb"@);
    assert(names[2] == "Icon"@);
    assert(names[3] == "SubCommands"@);
}

/// Adding an entry writes, under the entry's key, the typed caption unchanged as
/// `MUIVerb` and the program's path as `Icon`, and under its `command` key a
/// command line that appends the folder to exactly the named variable.
pub proof fn law_added_entry_values(
    exe: Seq<char>,
    env_name: Seq<char>,
    env_name_lower: Seq<char>,
    title: Seq<char>,
    r: RegistryView,
    g: spec_fn(char) -> char,
)
    requires
        case_map(g),
    ensures
        ({
            let after = plan_effect(
                fold_steps(entry_adding_run_named(exe, env_name, env_name_lower, title), g),
                r,
            );
            let key = folded(entry_key("add_to_"@ + env_name_lower), g);
            let command_key = folded(entry_command_key("add_to_"@ + env_name_lower), g);
            &&& after.values.dom().contains((key, folded("MUIVerb"@, g)))
            &&& after.values[(key, folded("MUIVerb"@, g))] == title
            &&& after.values.dom().contains((key, folded("Icon"@, g)))
            &&& after.values[(key, folded("Icon"@, g))] == exe
            &&& after.values.dom().contains((command_key, folded(""@, g)))
            &&& after.values[(command_key, folded(""@, g))] == exe
                + " --mode cmd --operate modify --key "@ + env_name + " --value %1"@
        }),
{
    let name = "add_to_"@ + env_name_lower;
    let c = variable_entry(exe, env_name, env_name_lower, title);
    let key = folded(entry_key(name), g);
    let command_key = folded(entry_command_key(name), g);
    lemma_entry_adding_run_folded(exe, env_name, env_name_lower, title, g);
    lemma_entry_keys_longer(name, g);
    reveal_strlit("MUIVerb");
    reveal_strlit("Icon");
    reveal_strlit("");
    lemma_fold_concat("MUIVerb"@, Seq::empty(), g);
    lemma_fold_concat("Icon"@, Seq::empty(), g);
    let a = entry_adding_steps(env_name, title);
    let fh = fold_steps(a.take(2), g);
    let fat = fold_steps(a.skip(2), g);
    let ce = entry_steps(c, 1);
    let q = fold_steps(ce, g);
    let fr = fold_steps(entry_adding_run_named(exe, env_name, env_name_lower, title), g);
    assert(fr == fh + q + fat);
    lemma_inert_steps(fat);
    let names = seq![(key, folded("MUIVerb"@, g)), (key, folded("Icon"@, g)), (command_key, folded(""@, g))];
    let places = seq![2int, 3int, 6int];
    let datas = seq![title, exe, exe + " --mode cmd --operate modify --key "@ + env_name + " --value %1"@];
    assert forall|j: int| 0 <= j < 3 implies {
        &&& plan_effect(fr, r).values.dom().contains(#[trigger] names[j])
        &&& plan_effect(fr, r).values[names[j]] == datas[j]
    } by {
        let kn = names[j];
        let p = places[j];
        let nk = |x: (Seq<char>, Seq<char>)| x != kn;
        assert(q[p] == fold_step(ce[p], g));
        let qb = q.skip(p + 1);
        assert forall|i: int, x: (Seq<char>, Seq<char>)|
            0 <= i < qb.len() && #[trigger] values_written_by(qb[i]).dom().contains(x) implies nk(
            x,
        ) by {
            assert(qb[i] == q[i + p + 1]);
            assert(q[i + p + 1] == fold_step(ce[i + p + 1], g));
        }
        assert forall|i: int, x: (Seq<char>, Seq<char>)|
            0 <= i < fat.len() && #[trigger] values_written_by(fat[i]).dom().contains(x) implies nk(
            x,
        ) by {}
        lemma_writes_concat(qb, fat, nk);
        assert(fr =~= (fh + q.take(p)) + seq![q[p]] + (qb + fat));
        lemma_last_write(fh + q.take(p), q[p], qb + fat, kn, r);
    }
    assert(names[0] == (key, folded("MUIVerb"@, g)));
    assert(names[1] == (key, folded("Icon"@, g)));
    assert(names[2] == (command_key, folded(""@, g)));
}

} // verus!
