use vstd::prelude::*;

use crate::menu_plan::{located_plan, located_steps};

verus! {

/// How a message box looks.
#[derive(PartialEq, Eq, Structural, Clone, Copy, Debug)]
pub enum NoticeKind {
    /// An informational message box.
    Info,
    /// An error message box.
    Error,
}

/// A message shown to the user in a modal box.
#[derive(Debug)]
pub struct Notice {
    pub kind: NoticeKind,
    pub title: String,
    pub text: String,
}

/// The abstract content of a [`Notice`].
pub struct NoticeView {
    pub kind: NoticeKind,
    pub title: Seq<char>,
    pub text: Seq<char>,
}

impl View for Notice {
    type V = NoticeView;

    open spec fn view(&self) -> NoticeView {
        NoticeView { kind: self.kind, title: self.title@, text: self.text@ }
    }
}

/// One registry operation, with key paths relative to `HKEY_CLASSES_ROOT`.
#[derive(Debug)]
pub enum RegTask {
    /// Open the key at `path` with full access. With no `fallback` a failure
    /// cannot be recovered from; with one, the fallback is shown instead and
    /// the steps nested under this one are skipped.
    Open { path: String, fallback: Option<Notice> },
    /// Create the key `child` under the key at `parent`; when that fails the
    /// steps nested under this one are skipped.
    Create { parent: String, child: String },
    /// Write the string value `name` = `data` into the key at `key`.
    SetValue { key: String, name: String, data: String },
    /// Delete `child` and everything below it from the key at `parent`.
    DeleteTree { parent: String, child: String },
    /// Show a message box.
    Notify { notice: Notice },
    /// Find the path of this program; the steps that need it follow once it
    /// is known.
    Locate { purpose: ProgramUse },
}

/// What the path of this program is needed for.
#[derive(Debug)]
pub enum ProgramUse {
    /// Writing the menu's settings and its three entries; `select_keys` is the
    /// text typed for the variables the menu offers.
    Register { select_keys: String },
    /// Adding the entry that appends to the variable `env_name`, captioned `title`.
    AddEntry { env_name: String, title: String },
}

/// The abstract content of a [`ProgramUse`].
pub enum UseView {
    Register { select_keys: Seq<char> },
    AddEntry { env_name: Seq<char>, title: Seq<char> },
}

impl View for ProgramUse {
    type V = UseView;

    open spec fn view(&self) -> UseView {
        match self {
            ProgramUse::Register { select_keys } => UseView::Register { select_keys: select_keys@ },
            ProgramUse::AddEntry { env_name, title } => UseView::AddEntry {
                env_name: env_name@,
                title: title@,
            },
        }
    }
}

/// The abstract content of a [`RegTask`].
pub enum TaskView {
    Open { path: Seq<char>, fallback: Option<NoticeView> },
    Create { parent: Seq<char>, child: Seq<char> },
    SetValue { key: Seq<char>, name: Seq<char>, data: Seq<char> },
    DeleteTree { parent: Seq<char>, child: Seq<char> },
    Notify { notice: NoticeView },
    Locate { purpose: UseView },
}

impl View for RegTask {
    type V = TaskView;

    open spec fn view(&self) -> TaskView {
        match self {
            RegTask::Open { path, fallback } => TaskView::Open {
                path: path@,
                fallback: match fallback {
                    Some(n) => Some(n@),
                    None => None,
                },
            },
            RegTask::Create { parent, child } => TaskView::Create {
                parent: parent@,
                child: child@,
            },
            RegTask::SetValue { key, name, data } => TaskView::SetValue {
                key: key@,
                name: name@,
                data: data@,
            },
            RegTask::DeleteTree { parent, child } => TaskView::DeleteTree {
                parent: parent@,
                child: child@,
            },
            RegTask::Notify { notice } => TaskView::Notify { notice: notice@ },
            RegTask::Locate { purpose } => TaskView::Locate { purpose: purpose@ },
        }
    }
}

/// A task of a plan together with its nesting depth: a step runs only if the
/// nearest earlier step of smaller depth (an `Open` or a `Create`) succeeded.
#[derive(Debug)]
pub struct Step {
    pub depth: u8,
    pub task: RegTask,
}

/// The abstract content of a [`Step`].
pub struct StepView {
    pub depth: u8,
    pub task: TaskView,
}

impl View for Step {
    type V = StepView;

    open spec fn view(&self) -> StepView {
        StepView { depth: self.depth, task: self.task@ }
    }
}

/// The abstract content of a sequence of steps.
pub open spec fn steps_view(steps: Seq<Step>) -> Seq<StepView> {
    steps.map_values(|s: Step| s@)
}

/// Whether a task can fail in a way that cancels the steps nested under it.
pub open spec fn is_gate(t: TaskView) -> bool {
    t is Open || t is Create
}

/// A plan is well formed when it starts at depth 0 and each step is at most one
/// level deeper than the step before it, and only right below a gate.
pub open spec fn well_formed_plan(p: Seq<StepView>) -> bool {
    &&& p.len() > 0 ==> p[0].depth == 0
    &&& steps_chained(p)
}

/// Whether `next` may directly follow `prev` in a plan: it is not deeper, or it
/// is one level deeper and `prev` is a gate.
pub open spec fn may_follow(prev: StepView, next: StepView) -> bool {
    next.depth <= prev.depth || (next.depth == prev.depth + 1 && is_gate(prev.task))
}

/// Whether each step of `p` may follow the one before it.
pub open spec fn steps_chained(p: Seq<StepView>) -> bool {
    forall|i: int| #![trigger p[i]] 0 < i < p.len() ==> may_follow(p[i - 1], p[i])
}

/// Two chained sequences joined where the second may follow the first stay chained.
pub proof fn lemma_chained_concat(a: Seq<StepView>, b: Seq<StepView>)
    requires
        steps_chained(a),
        steps_chained(b),
        a.len() > 0 && b.len() > 0 ==> may_follow(a.last(), b[0]),
    ensures
        steps_chained(a + b),
{
    let c = a + b;
    assert forall|i: int| #![trigger c[i]] 0 < i < c.len() implies may_follow(c[i - 1], c[i]) by {
        if i < a.len() {
            assert(c[i] == a[i] && c[i - 1] == a[i - 1]);
        } else if i == a.len() {
            assert(c[i] == b[0] && c[i - 1] == a.last());
        } else {
            assert(c[i] == b[i - a.len()] && c[i - 1] == b[i - 1 - a.len()]);
        }
    }
}

} // verus!

verus! {

/// What became of the action that the session handed out last.
#[derive(PartialEq, Eq, Structural, Clone, Copy, Debug)]
pub enum Outcome {
    Succeeded,
    Failed,
}

/// The next thing to do, as handed to whoever performs registry work.
#[derive(Debug)]
pub enum RegAction {
    /// Open the key at `path`; when `must_succeed`, a failure is fatal.
    Open { path: String, must_succeed: bool },
    /// Create `child` under the key at `parent`.
    Create { parent: String, child: String },
    /// Write the string value `name` = `data` into the key at `key`.
    SetValue { key: String, name: String, data: String },
    /// Delete `child` and all below it from the key at `parent`.
    DeleteTree { parent: String, child: String },
    /// Show a message box.
    Notify { notice: Notice },
    /// Find the path of this program and hand it to `RegSession::program_located`.
    LocateProgram,
    /// The plan is done; nothing more will be handed out.
    Finished,
}

/// The abstract content of a [`RegAction`].
pub enum ActionView {
    Open { path: Seq<char>, must_succeed: bool },
    Create { parent: Seq<char>, child: Seq<char> },
    SetValue { key: Seq<char>, name: Seq<char>, data: Seq<char> },
    DeleteTree { parent: Seq<char>, child: Seq<char> },
    Notify { notice: NoticeView },
    LocateProgram,
    Finished,
}

impl View for RegAction {
    type V = ActionView;

    open spec fn view(&self) -> ActionView {
        match self {
            RegAction::Open { path, must_succeed } => ActionView::Open {
                path: path@,
                must_succeed: *must_succeed,
            },
            RegAction::Create { parent, child } => ActionView::Create {
                parent: parent@,
                child: child@,
            },
            RegAction::SetValue { key, name, data } => ActionView::SetValue {
                key: key@,
                name: name@,
                data: data@,
            },
            RegAction::DeleteTree { parent, child } => ActionView::DeleteTree {
                parent: parent@,
                child: child@,
            },
            RegAction::Notify { notice } => ActionView::Notify { notice: notice@ },
            RegAction::LocateProgram => ActionView::LocateProgram,
            RegAction::Finished => ActionView::Finished,
        }
    }
}

/// What the most recent `Open` or `Create` left pending: its depth, and the
/// notice to show if it failed.
struct Gate {
    depth: u8,
    fallback: Option<Notice>,
}

/// The abstract content of a gate.
pub struct GateView {
    pub depth: u8,
    pub fallback: Option<NoticeView>,
}

/// Runs a plan of registry steps one action at a time: each call reports what
/// became of the previous action and receives the next one.
pub struct RegSession {
    pending: Vec<Step>,
    gate: Option<Gate>,
    locating: Option<ProgramUse>,
}

/// The abstract state of a [`RegSession`]: the steps still to run, and the
/// depth and fallback of the last action when that action was an `Open` or a `Create`.
pub struct SessionView {
    pub pending: Seq<StepView>,
    pub gate: Option<GateView>,
    /// What the path of this program is wanted for, right after a `Locate` step.
    pub locating: Option<UseView>,
}

impl View for RegSession {
    type V = SessionView;

    closed spec fn view(&self) -> SessionView {
        SessionView {
            pending: steps_view(self.pending@),
            gate: match self.gate {
                Some(g) => Some(
                    GateView {
                        depth: g.depth,
                        fallback: match g.fallback {
                            Some(n) => Some(n@),
                            None => None,
                        },
                    },
                ),
                None => None,
            },
            locating: match self.locating {
                Some(u) => Some(u@),
                None => None,
            },
        }
    }
}

/// `p` without its leading steps that are deeper than `d`: what is left when a
/// gate at depth `d` fails.
pub open spec fn skip_nested(p: Seq<StepView>, d: u8) -> Seq<StepView>
    decreases p.len(),
{
    if p.len() > 0 && p[0].depth > d {
        skip_nested(p.drop_first(), d)
    } else {
        p
    }
}

/// The action that performs a task.
pub open spec fn action_of(t: TaskView) -> ActionView {
    match t {
        TaskView::Open { path, fallback } => ActionView::Open {
            path,
            must_succeed: fallback is None,
        },
        TaskView::Create { parent, child } => ActionView::Create { parent, child },
        TaskView::SetValue { key, name, data } => ActionView::SetValue { key, name, data },
        TaskView::DeleteTree { parent, child } => ActionView::DeleteTree { parent, child },
        TaskView::Notify { notice } => ActionView::Notify { notice },
        TaskView::Locate { .. } => ActionView::LocateProgram,
    }
}

/// Depth and fallback that a step leaves pending when it is handed out, if it
/// is an `Open` or a `Create`.
pub open spec fn gate_of(s: StepView) -> Option<GateView> {
    match s.task {
        TaskView::Open { fallback, .. } => Some(GateView { depth: s.depth, fallback }),
        TaskView::Create { .. } => Some(GateView { depth: s.depth, fallback: None }),
        _ => None,
    }
}

/// What a step asks the path of this program for, if it is a `Locate` step.
pub open spec fn locate_of(s: StepView) -> Option<UseView> {
    match s.task {
        TaskView::Locate { purpose } => Some(purpose),
        _ => None,
    }
}

/// One transition of a session: a failed gate drops the steps nested under it
/// and, if it carries a fallback notice, hands that out; otherwise the first
/// pending step is handed out, or `Finished` when none is left.
pub open spec fn next_state(s: SessionView, o: Outcome) -> (SessionView, ActionView) {
    let failed_gate = o == Outcome::Failed && s.gate is Some;
    let rest = if failed_gate {
        skip_nested(s.pending, s.gate->0.depth)
    } else {
        s.pending
    };
    if failed_gate && s.gate->0.fallback is Some {
        (
            SessionView { pending: rest, gate: None, locating: None },
            ActionView::Notify { notice: s.gate->0.fallback->0 },
        )
    } else if rest.len() == 0 {
        (SessionView { pending: rest, gate: None, locating: None }, ActionView::Finished)
    } else {
        (
            SessionView {
                pending: rest.drop_first(),
                gate: gate_of(rest[0]),
                locating: locate_of(rest[0]),
            },
            action_of(rest[0].task),
        )
    }
}

proof fn lemma_steps_view_remove_first(v: Seq<Step>)
    requires
        v.len() > 0,
    ensures
        steps_view(v.remove(0)) == steps_view(v).drop_first(),
{
    assert(steps_view(v.remove(0)) =~= steps_view(v).drop_first());
}

impl RegSession {
    /// A session that will hand out the steps of `plan` in order.
    pub fn new(plan: Vec<Step>) -> (s: RegSession)
        ensures
            s@ == fresh_session(steps_view(plan@)),
    {
        RegSession { pending: plan, gate: None, locating: None }
    }

    /// Drops the leading pending steps that are deeper than `d`.
    fn skip_nested_steps(&mut self, d: u8)
        ensures
            steps_view(final(self).pending@) == skip_nested(steps_view(old(self).pending@), d),
            final(self).gate == old(self).gate,
            final(self).locating == old(self).locating,
    {
        while self.pending.len() > 0 && self.pending[0].depth > d
            invariant
                skip_nested(steps_view(self.pending@), d) == skip_nested(
                    steps_view(old(self).pending@),
                    d,
                ),
                self.gate == old(self).gate,
                self.locating == old(self).locating,
            decreases self.pending.len(),
        {
            proof {
                lemma_steps_view_remove_first(self.pending@);
            }
            self.pending.remove(0);
        }
    }

    /// Hands the path `exe` of this program to a session that has just asked
    /// for it: the steps that need the path are run next. Otherwise nothing
    /// changes.
    pub fn program_located(&mut self, exe: &str)
        ensures
            final(self)@ == located_state(old(self)@, exe@),
    {
        let locating = self.locating.take();
        match locating {
            Some(u) => {
                let mut steps = located_plan(&u, exe);
                let ghost first = steps_view(steps@);
                let ghost rest = steps_view(self.pending@);
                steps.append(&mut self.pending);
                assert(steps_view(steps@) =~= first + rest);
                self.pending = steps;
            },
            None => {},
        }
    }

    /// Reports what became of the last action (anything, on the first call) and
    /// returns the next one.
    pub fn next(&mut self, outcome: Outcome) -> (a: RegAction)
        ensures
            (final(self)@, a@) == next_state(old(self)@, outcome),
    {
        let gate = self.gate.take();
        self.locating = None;
        match gate {
            Some(g) => {
                if outcome == Outcome::Failed {
                    self.skip_nested_steps(g.depth);
                    match g.fallback {
                        Some(n) => {
                            return RegAction::Notify { notice: n };
                        },
                        None => {},
                    }
                }
            },
            None => {},
        }
        if self.pending.len() == 0 {
            return RegAction::Finished;
        }
        proof {
            lemma_steps_view_remove_first(self.pending@);
        }
        let step = self.pending.remove(0);
        let depth = step.depth;
        match step.task {
            RegTask::Open { path, fallback } => {
                let must_succeed = fallback.is_none();
                self.gate = Some(Gate { depth, fallback });
                RegAction::Open { path, must_succeed }
            },
            RegTask::Create { parent, child } => {
                self.gate = Some(Gate { depth, fallback: None });
                RegAction::Create { parent, child }
            },
            RegTask::SetValue { key, name, data } => RegAction::SetValue { key, name, data },
            RegTask::DeleteTree { parent, child } => RegAction::DeleteTree { parent, child },
            RegTask::Notify { notice } => RegAction::Notify { notice },
            RegTask::Locate { purpose } => {
                self.locating = Some(purpose);
                RegAction::LocateProgram
            },
        }
    }
}

} // verus!

verus! {

/// A step that opens the key at `path`.
pub open spec fn open_step(path: Seq<char>, fallback: Option<NoticeView>, d: u8) -> StepView {
    StepView { depth: d, task: TaskView::Open { path, fallback } }
}

/// A step that creates `child` under `parent`.
pub open spec fn create_step(parent: Seq<char>, child: Seq<char>, d: u8) -> StepView {
    StepView { depth: d, task: TaskView::Create { parent, child } }
}

/// A step that writes `name` = `data` into the key at `key`.
pub open spec fn set_step(key: Seq<char>, name: Seq<char>, data: Seq<char>, d: u8) -> StepView {
    StepView { depth: d, task: TaskView::SetValue { key, name, data } }
}

/// A step that deletes `child` with all below it from `parent`.
pub open spec fn delete_step(parent: Seq<char>, child: Seq<char>, d: u8) -> StepView {
    StepView { depth: d, task: TaskView::DeleteTree { parent, child } }
}

/// A step that shows a message box.
pub open spec fn notify_step(kind: NoticeKind, title: Seq<char>, text: Seq<char>, d: u8) -> StepView {
    StepView { depth: d, task: TaskView::Notify { notice: NoticeView { kind, title, text } } }
}

/// Appends one step to a plan.
pub(crate) fn push_step(plan: &mut Vec<Step>, s: Step)
    ensures
        steps_view(final(plan)@) == steps_view(old(plan)@).push(s@),
{
    let ghost v = s@;
    plan.push(s);
    assert(steps_view(plan@) =~= steps_view(old(plan)@).push(v));
}

} // verus!

verus! {

/// The steps that a failed gate at depth `d` drops from `p` are exactly its
/// leading steps deeper than `d`: what remains is a suffix of `p` that starts
/// with a step no deeper than `d`, or is empty.
pub proof fn law_failed_gate_skips_nested(p: Seq<StepView>, d: u8) -> (k: int)
    ensures
        0 <= k <= p.len(),
        skip_nested(p, d) == p.skip(k),
        forall|j: int| 0 <= j < k ==> #[trigger] p[j].depth > d,
        k < p.len() ==> p[k].depth <= d,
    decreases p.len(),
{
    if p.len() > 0 && p[0].depth > d {
        let k1 = law_failed_gate_skips_nested(p.drop_first(), d);
        assert forall|j: int| 0 <= j < k1 + 1 implies #[trigger] p[j].depth > d by {
            if j > 0 {
                assert(p[j] == p.drop_first()[j - 1]);
            }
        }
        assert(p.drop_first().skip(k1) =~= p.skip(k1 + 1));
        if k1 + 1 < p.len() {
            assert(p[k1 + 1] == p.drop_first()[k1]);
        }
        k1 + 1
    } else {
        assert(p.skip(0) =~= p);
        0
    }
}

/// While every action succeeds, a session hands out the steps of its plan in
/// order, each exactly once.
pub proof fn law_success_follows_plan(s: SessionView)
    requires
        s.pending.len() > 0,
    ensures
        next_state(s, Outcome::Succeeded) == (
        SessionView {
            pending: s.pending.drop_first(),
            gate: gate_of(s.pending[0]),
            locating: locate_of(s.pending[0]),
        },
        action_of(s.pending[0].task),
        ),
{
}

/// Only gates can fail in a way that matters: after an action that is not an
/// `Open` or a `Create`, a failure is treated as a success.
pub proof fn law_only_gates_fail(s: SessionView)
    requires
        s.gate is None,
    ensures
        next_state(s, Outcome::Failed) == next_state(s, Outcome::Succeeded),
{
}

/// Once a session has finished it stays finished, whatever is reported.
pub proof fn law_finished_is_final(s: SessionView, o1: Outcome, o2: Outcome)
    requires
        next_state(s, o1).1 is Finished,
    ensures
        next_state(next_state(s, o1).0, o2).1 is Finished,
{
}

/// A call of `next` never adds steps: it leaves at most as many pending steps
/// as before, and one fewer when it hands out a step of the plan.
pub proof fn law_pending_shrinks(s: SessionView, o: Outcome)
    ensures
        next_state(s, o).0.pending.len() <= s.pending.len(),
        !(next_state(s, o).1 is Finished) && !(next_state(s, o).1 is Notify && o == Outcome::Failed
            && s.gate is Some && s.gate->0.fallback is Some) ==> next_state(s, o).0.pending.len()
            < s.pending.len(),
{
    if o == Outcome::Failed && s.gate is Some {
        let k = law_failed_gate_skips_nested(s.pending, s.gate->0.depth);
    }
}

} // verus!

verus! {

/// A session that has just been given the steps `p`.
pub open spec fn fresh_session(p: Seq<StepView>) -> SessionView {
    SessionView { pending: p, gate: None, locating: None }
}

/// The state after `n` calls of `next` that each report success.
pub open spec fn after_successes(s: SessionView, n: nat) -> SessionView
    decreases n,
{
    if n == 0 {
        s
    } else {
        after_successes(next_state(s, Outcome::Succeeded).0, (n - 1) as nat)
    }
}

/// The state after the program's path `exe` is handed over.
pub open spec fn located_state(s: SessionView, exe: Seq<char>) -> SessionView {
    match s.locating {
        Some(u) => SessionView { pending: located_steps(u, exe) + s.pending, gate: s.gate, locating: None },
        None => s,
    }
}

} // verus!
