//! What a plan does to the registry when every one of its actions succeeds.
use vstd::prelude::*;

use crate::reg_session::{StepView, TaskView};

verus! {

/// The part of the registry that plans touch: the keys that exist (as paths)
/// and the string values, indexed by key path and value name.
pub struct RegistryView {
    pub keys: Set<Seq<char>>,
    pub values: Map<(Seq<char>, Seq<char>), Seq<char>>,
}

/// The path of `child` below `parent`.
pub open spec fn subkey_path(parent: Seq<char>, child: Seq<char>) -> Seq<char> {
    parent + "\\"@ + child
}

/// Whether the key `k` is `p` or lies below it.
pub open spec fn within(k: Seq<char>, p: Seq<char>) -> bool {
    k == p || (p + "\\"@).is_prefix_of(k)
}

/// The keys that creating `child` (a relative path) below `parent` makes exist:
/// the key itself and each intermediate key on the way to it.
pub open spec fn created_keys(parent: Seq<char>, child: Seq<char>) -> Set<Seq<char>> {
    Set::new(
        |k: Seq<char>|
            exists|i: int|
                0 < i <= child.len() && (i == child.len() || child[i] == '\\') && k
                    == #[trigger] subkey_path(parent, child.take(i)),
    )
}

/// The keys that a step makes exist: those it creates, and the key it writes a
/// value into.
pub open spec fn keys_added_by(s: StepView) -> Set<Seq<char>> {
    match s.task {
        TaskView::Create { parent, child } => created_keys(parent, child),
        TaskView::SetValue { key, .. } => set![key],
        _ => Set::empty(),
    }
}

/// The value that a step writes, if it writes one.
pub open spec fn values_written_by(s: StepView) -> Map<(Seq<char>, Seq<char>), Seq<char>> {
    match s.task {
        TaskView::SetValue { key, name, data } => map![(key, name) => data],
        _ => Map::empty(),
    }
}

/// The registry without the key `p` and everything below it.
pub open spec fn delete_tree(r: RegistryView, p: Seq<char>) -> RegistryView {
    RegistryView {
        keys: r.keys.filter(|k: Seq<char>| !within(k, p)),
        values: r.values.restrict(
            Set::new(|kn: (Seq<char>, Seq<char>)| !within(kn.0, p)),
        ),
    }
}

/// What a step that succeeds does to the registry. Opening a key, asking for
/// the program's path and showing a message change nothing.
pub open spec fn step_effect(s: StepView, r: RegistryView) -> RegistryView {
    match s.task {
        TaskView::DeleteTree { parent, child } => delete_tree(r, subkey_path(parent, child)),
        _ => RegistryView {
            keys: r.keys + keys_added_by(s),
            values: r.values.union_prefer_right(values_written_by(s)),
        },
    }
}

/// What the steps `p`, run in order and all succeeding, do to the registry.
pub open spec fn plan_effect(p: Seq<StepView>, r: RegistryView) -> RegistryView
    decreases p.len(),
{
    if p.len() == 0 {
        r
    } else {
        plan_effect(p.drop_first(), step_effect(p[0], r))
    }
}

/// All keys that the steps `p` make exist.
pub open spec fn keys_added(p: Seq<StepView>) -> Set<Seq<char>>
    decreases p.len(),
{
    if p.len() == 0 {
        Set::empty()
    } else {
        keys_added_by(p[0]) + keys_added(p.drop_first())
    }
}

/// The values that the steps `p` leave written: the last write of each.
pub open spec fn values_written(p: Seq<StepView>) -> Map<(Seq<char>, Seq<char>), Seq<char>>
    decreases p.len(),
{
    if p.len() == 0 {
        Map::empty()
    } else {
        values_written_by(p[0]).union_prefer_right(values_written(p.drop_first()))
    }
}

/// Whether no step of `p` deletes anything.
pub open spec fn deletes_nothing(p: Seq<StepView>) -> bool {
    forall|i: int| 0 <= i < p.len() ==> !(#[trigger] p[i].task is DeleteTree)
}

/// Whether every key that the steps of `p` make exist satisfies `ok`.
pub open spec fn adds_keys_only(p: Seq<StepView>, ok: spec_fn(Seq<char>) -> bool) -> bool {
    forall|i: int, k: Seq<char>|
        0 <= i < p.len() && #[trigger] keys_added_by(p[i]).contains(k) ==> ok(k)
}

/// Whether every value that the steps of `p` write, as (key, name), satisfies `ok`.
pub open spec fn writes_values_only(
    p: Seq<StepView>,
    ok: spec_fn((Seq<char>, Seq<char>)) -> bool,
) -> bool {
    forall|i: int, kn: (Seq<char>, Seq<char>)|
        0 <= i < p.len() && #[trigger] values_written_by(p[i]).dom().contains(kn) ==> ok(kn)
}

/// Steps that delete nothing add keys and overwrite values, and nothing else.
pub proof fn lemma_effect_without_deletes(p: Seq<StepView>, r: RegistryView)
    requires
        deletes_nothing(p),
    ensures
        plan_effect(p, r) == (RegistryView {
            keys: r.keys + keys_added(p),
            values: r.values.union_prefer_right(values_written(p)),
        }),
    decreases p.len(),
{
    if p.len() == 0 {
        assert(r.keys + keys_added(p) =~= r.keys);
        assert(r.values.union_prefer_right(values_written(p)) =~= r.values);
    } else {
        let q = p.drop_first();
        assert(!(p[0].task is DeleteTree));
        assert forall|i: int| 0 <= i < q.len() implies !(#[trigger] q[i].task is DeleteTree) by {
            assert(q[i] == p[i + 1]);
        }
        let r1 = step_effect(p[0], r);
        lemma_effect_without_deletes(q, r1);
        assert(r1.keys + keys_added(q) =~= r.keys + keys_added(p));
        assert(r1.values.union_prefer_right(values_written(q)) =~= r.values.union_prefer_right(
            values_written(p),
        ));
    }
}

/// Running `a` then `b` is running their concatenation.
pub proof fn lemma_effect_concat(a: Seq<StepView>, b: Seq<StepView>, r: RegistryView)
    ensures
        plan_effect(a + b, r) == plan_effect(b, plan_effect(a, r)),
    decreases a.len(),
{
    if a.len() == 0 {
        assert(a + b =~= b);
    } else {
        assert((a + b).drop_first() =~= a.drop_first() + b);
        assert((a + b)[0] == a[0]);
        lemma_effect_concat(a.drop_first(), b, step_effect(a[0], r));
    }
}

/// Steps that delete nothing reach the same registry when run twice as when run once.
pub proof fn lemma_idempotent_without_deletes(p: Seq<StepView>, r: RegistryView)
    requires
        deletes_nothing(p),
    ensures
        plan_effect(p, plan_effect(p, r)) == plan_effect(p, r),
{
    lemma_effect_without_deletes(p, r);
    lemma_effect_without_deletes(p, plan_effect(p, r));
    assert(r.keys + keys_added(p) + keys_added(p) =~= r.keys + keys_added(p));
    assert(r.values.union_prefer_right(values_written(p)).union_prefer_right(values_written(p))
        =~= r.values.union_prefer_right(values_written(p)));
}

/// The keys that steps add and the values they write obey what each step obeys.
pub proof fn lemma_additions_only(
    p: Seq<StepView>,
    keys_ok: spec_fn(Seq<char>) -> bool,
    values_ok: spec_fn((Seq<char>, Seq<char>)) -> bool,
)
    requires
        adds_keys_only(p, keys_ok),
        writes_values_only(p, values_ok),
    ensures
        forall|k: Seq<char>| keys_added(p).contains(k) ==> keys_ok(k),
        forall|kn: (Seq<char>, Seq<char>)| values_written(p).dom().contains(kn) ==> values_ok(kn),
    decreases p.len(),
{
    if p.len() > 0 {
        let q = p.drop_first();
        assert forall|i: int, k: Seq<char>|
            0 <= i < q.len() && #[trigger] keys_added_by(q[i]).contains(k) implies keys_ok(k) by {
            assert(q[i] == p[i + 1]);
        }
        assert forall|i: int, kn: (Seq<char>, Seq<char>)|
            0 <= i < q.len() && #[trigger] values_written_by(q[i]).dom().contains(
                kn,
            ) implies values_ok(kn) by {
            assert(q[i] == p[i + 1]);
        }
        lemma_additions_only(q, keys_ok, values_ok);
        assert(keys_added(p) == keys_added_by(p[0]) + keys_added(q));
        assert(values_written(p) == values_written_by(p[0]).union_prefer_right(values_written(q)));
        assert forall|k: Seq<char>| keys_added(p).contains(k) implies keys_ok(k) by {
            if keys_added_by(p[0]).contains(k) {
                assert(0 <= 0 < p.len() && keys_added_by(p[0]).contains(k));
            } else {
                assert(keys_added(q).contains(k));
            }
        }
        assert forall|kn: (Seq<char>, Seq<char>)|
            values_written(p).dom().contains(kn) implies values_ok(kn) by {
            if values_written_by(p[0]).dom().contains(kn) {
                assert(0 <= 0 < p.len() && values_written_by(p[0]).dom().contains(kn));
            } else {
                assert(values_written(q).dom().contains(kn));
            }
        }
    }
}

/// Deleting the key `m` undoes steps that delete nothing and touch only `m`
/// and what lies below it, when the registry held nothing there before.
pub proof fn lemma_delete_undoes(p: Seq<StepView>, m: Seq<char>, r: RegistryView)
    requires
        deletes_nothing(p),
        adds_keys_only(p, |k: Seq<char>| within(k, m)),
        writes_values_only(p, |kn: (Seq<char>, Seq<char>)| within(kn.0, m)),
        forall|k: Seq<char>| r.keys.contains(k) ==> !within(k, m),
        forall|kn: (Seq<char>, Seq<char>)| r.values.dom().contains(kn) ==> !within(kn.0, m),
    ensures
        delete_tree(plan_effect(p, r), m) == r,
{
    lemma_effect_without_deletes(p, r);
    lemma_additions_only(p, |k: Seq<char>| within(k, m), |kn: (Seq<char>, Seq<char>)| within(kn.0, m));
    let after = plan_effect(p, r);
    let d = delete_tree(after, m);
    assert(d.keys =~= r.keys);
    assert(d.values =~= r.values);
}

/// A key below one that is `m` or lies below it lies below `m` too.
pub proof fn lemma_within_extend(p: Seq<char>, m: Seq<char>, t: Seq<char>)
    requires
        within(p, m),
    ensures
        within(subkey_path(p, t), m),
{
    let k = subkey_path(p, t);
    let pre = m + "\\"@;
    if p == m {
        assert(k.take(pre.len() as int) =~= pre);
    } else {
        assert(p.take(pre.len() as int) == pre);
        assert(k.take(pre.len() as int) =~= p.take(pre.len() as int));
    }
}

} // verus!

verus! {

/// Joined step sequences delete nothing and stay within what each part stays within.
pub proof fn lemma_bounds_concat(
    a: Seq<StepView>,
    b: Seq<StepView>,
    keys_ok: spec_fn(Seq<char>) -> bool,
    values_ok: spec_fn((Seq<char>, Seq<char>)) -> bool,
)
    requires
        deletes_nothing(a),
        deletes_nothing(b),
        adds_keys_only(a, keys_ok),
        adds_keys_only(b, keys_ok),
        writes_values_only(a, values_ok),
        writes_values_only(b, values_ok),
    ensures
        deletes_nothing(a + b),
        adds_keys_only(a + b, keys_ok),
        writes_values_only(a + b, values_ok),
{
    let c = a + b;
    assert forall|i: int| 0 <= i < c.len() implies !(#[trigger] c[i].task is DeleteTree) by {
        if i < a.len() {
            assert(c[i] == a[i]);
        } else {
            assert(c[i] == b[i - a.len()]);
        }
    }
    assert forall|i: int, k: Seq<char>|
        0 <= i < c.len() && #[trigger] keys_added_by(c[i]).contains(k) implies keys_ok(k) by {
        if i < a.len() {
            assert(c[i] == a[i]);
        } else {
            assert(c[i] == b[i - a.len()]);
        }
    }
    assert forall|i: int, kn: (Seq<char>, Seq<char>)|
        0 <= i < c.len() && #[trigger] values_written_by(c[i]).dom().contains(kn) implies values_ok(kn) by {
        if i < a.len() {
            assert(c[i] == a[i]);
        } else {
            assert(c[i] == b[i - a.len()]);
        }
    }
}

/// Creating below a key that lies within `m` only makes keys within `m`.
pub proof fn lemma_created_within(parent: Seq<char>, child: Seq<char>, m: Seq<char>)
    requires
        within(parent, m),
    ensures
        forall|k: Seq<char>| created_keys(parent, child).contains(k) ==> within(k, m),
{
    assert forall|k: Seq<char>| created_keys(parent, child).contains(k) implies within(k, m) by {
        let i = choose|i: int|
            0 < i <= child.len() && (i == child.len() || child[i] == '\\') && k == #[trigger] subkey_path(
                parent,
                child.take(i),
            );
        lemma_within_extend(parent, m, child.take(i));
    }
}

} // verus!

verus! {

/// Whether `g` can be the character map under which the registry compares
/// key and value names: it sends the path separator `\` to itself and no
/// other character to it.
pub open spec fn case_map(g: spec_fn(char) -> char) -> bool {
    forall|c: char| #[trigger] g(c) == '\\' <==> c == '\\'
}

/// A name as the registry compares it: each character mapped by `g`.
pub open spec fn fold_text(s: Seq<char>, g: spec_fn(char) -> char) -> Seq<char> {
    s.map_values(|c: char| g(c))
}

/// A step with its key paths and value names as the registry compares them.
pub open spec fn fold_step(s: StepView, g: spec_fn(char) -> char) -> StepView {
    StepView {
        depth: s.depth,
        task: match s.task {
            TaskView::Open { path, fallback } => TaskView::Open { path: fold_text(path, g), fallback },
            TaskView::Create { parent, child } => TaskView::Create {
                parent: fold_text(parent, g),
                child: fold_text(child, g),
            },
            TaskView::SetValue { key, name, data } => TaskView::SetValue {
                key: fold_text(key, g),
                name: fold_text(name, g),
                data,
            },
            TaskView::DeleteTree { parent, child } => TaskView::DeleteTree {
                parent: fold_text(parent, g),
                child: fold_text(child, g),
            },
            other => other,
        },
    }
}

/// Steps with their key paths and value names as the registry compares them.
pub open spec fn fold_steps(p: Seq<StepView>, g: spec_fn(char) -> char) -> Seq<StepView> {
    p.map_values(|s: StepView| fold_step(s, g))
}

/// Folding keeps lengths and splits over concatenation.
pub proof fn lemma_fold_concat(a: Seq<char>, b: Seq<char>, g: spec_fn(char) -> char)
    ensures
        fold_text(a + b, g) == fold_text(a, g) + fold_text(b, g),
        fold_text(a, g).len() == a.len(),
{
    assert(fold_text(a + b, g) =~= fold_text(a, g) + fold_text(b, g));
}

/// Folding a path below `p` gives the folded path below the folded `p`.
pub proof fn lemma_fold_subkey(p: Seq<char>, c: Seq<char>, g: spec_fn(char) -> char)
    requires
        case_map(g),
    ensures
        fold_text(subkey_path(p, c), g) == subkey_path(fold_text(p, g), fold_text(c, g)),
{
    reveal_strlit("\\");
    lemma_fold_concat(p + "\\"@, c, g);
    lemma_fold_concat(p, "\\"@, g);
    assert(g('\\') == '\\');
    assert(fold_text("\\"@, g) =~= "\\"@);
}

/// Folded steps join like the steps they come from.
pub proof fn lemma_fold_steps_concat(a: Seq<StepView>, b: Seq<StepView>, g: spec_fn(char) -> char)
    ensures
        fold_steps(a + b, g) == fold_steps(a, g) + fold_steps(b, g),
{
    assert(fold_steps(a + b, g) =~= fold_steps(a, g) + fold_steps(b, g));
}

/// The values written by joined steps: those of the second part win.
pub proof fn lemma_written_concat(a: Seq<StepView>, b: Seq<StepView>)
    ensures
        values_written(a + b) == values_written(a).union_prefer_right(values_written(b)),
        keys_added(a + b) == keys_added(a) + keys_added(b),
    decreases a.len(),
{
    if a.len() == 0 {
        assert(a + b =~= b);
        assert(values_written(a).union_prefer_right(values_written(b)) =~= values_written(b));
        assert(keys_added(a) + keys_added(b) =~= keys_added(b));
    } else {
        assert((a + b).drop_first() =~= a.drop_first() + b);
        assert((a + b)[0] == a[0]);
        lemma_written_concat(a.drop_first(), b);
        assert(values_written(a + b) =~= values_written(a).union_prefer_right(values_written(b)));
        assert(keys_added(a + b) =~= keys_added(a) + keys_added(b));
    }
}

} // verus!

verus! {

/// Joined steps write only what both parts may write.
pub proof fn lemma_writes_concat(
    a: Seq<StepView>,
    b: Seq<StepView>,
    ok: spec_fn((Seq<char>, Seq<char>)) -> bool,
)
    requires
        writes_values_only(a, ok),
        writes_values_only(b, ok),
    ensures
        writes_values_only(a + b, ok),
{
    let c = a + b;
    assert forall|i: int, kn: (Seq<char>, Seq<char>)|
        0 <= i < c.len() && #[trigger] values_written_by(c[i]).dom().contains(kn) implies ok(kn) by {
        if i < a.len() {
            assert(c[i] == a[i]);
        } else {
            assert(c[i] == b[i - a.len()]);
        }
    }
}

/// The values that steps leave written obey what each step's writes obey.
pub proof fn lemma_values_only(p: Seq<StepView>, ok: spec_fn((Seq<char>, Seq<char>)) -> bool)
    requires
        writes_values_only(p, ok),
    ensures
        forall|kn: (Seq<char>, Seq<char>)| values_written(p).dom().contains(kn) ==> ok(kn),
    decreases p.len(),
{
    if p.len() > 0 {
        let q = p.drop_first();
        assert forall|i: int, kn: (Seq<char>, Seq<char>)|
            0 <= i < q.len() && #[trigger] values_written_by(q[i]).dom().contains(kn) implies ok(kn) by {
            assert(q[i] == p[i + 1]);
        }
        lemma_values_only(q, ok);
        assert forall|kn: (Seq<char>, Seq<char>)| values_written(p).dom().contains(kn) implies ok(kn) by {
            if values_written_by(p[0]).dom().contains(kn) {
                assert(0 <= 0 < p.len() && values_written_by(p[0]).dom().contains(kn));
            } else {
                assert(values_written(q).dom().contains(kn));
            }
        }
    }
}

/// The last write wins: after steps `a`, then `x`, then steps `b` that never
/// write the value `kn` that `x` writes, the registry holds `x`'s data there.
pub proof fn lemma_last_write(
    a: Seq<StepView>,
    x: StepView,
    b: Seq<StepView>,
    kn: (Seq<char>, Seq<char>),
    r: RegistryView,
)
    requires
        deletes_nothing(a + seq![x] + b),
        values_written_by(x).dom().contains(kn),
        writes_values_only(b, |q: (Seq<char>, Seq<char>)| q != kn),
    ensures
        plan_effect(a + seq![x] + b, r).values.dom().contains(kn),
        plan_effect(a + seq![x] + b, r).values[kn] == values_written_by(x)[kn],
{
    let p = a + seq![x] + b;
    lemma_effect_without_deletes(p, r);
    lemma_written_concat(a + seq![x], b);
    lemma_written_concat(a, seq![x]);
    let one = seq![x];
    assert(one.drop_first().len() == 0);
    assert(values_written(one) == values_written_by(x).union_prefer_right(values_written(one.drop_first())));
    assert(values_written(one) =~= values_written_by(x));
    lemma_values_only(b, |q: (Seq<char>, Seq<char>)| q != kn);
    assert(!values_written(b).dom().contains(kn));
}

} // verus!
