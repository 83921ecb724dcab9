use vstd::prelude::*;
use vstd::arithmetic::div_mod::{lemma_fundamental_div_mod, lemma_mod_multiples_vanish, lemma_small_mod, lemma_mod_equivalence, lemma_mod_pos_bound, lemma_add_mod_noop, lemma_mod_twice};
use crate::actor::{TaskCommand, model_wf, add_model, add_command, remove_model, remove_command, probe_model};
use crate::cycle::{unique_keys, has_key, cycle_insert, cycle_remove, cycle_status, cursor_slot, cursor_next, key_position, lemma_key_position, lemma_insert_unique, lemma_remove_unique, lemma_other_status_kept};
use crate::status::StreamStatus;

verus! {

/// One registry operation: `(true, p, url)` adds source `url` of platform `p`,
/// `(false, p, url)` removes it.
pub open spec fn apply_op(m: Map<u64, Seq<(Seq<char>, StreamStatus)>>, op: (bool, u64, Seq<char>)) -> Map<
    u64,
    Seq<(Seq<char>, StreamStatus)>,
> {
    if op.0 {
        add_model(m, op.1, op.2)
    } else {
        remove_model(m, op.1, op.2)
    }
}

/// The task command that an operation yields.
pub open spec fn op_command(m: Map<u64, Seq<(Seq<char>, StreamStatus)>>, op: (bool, u64, Seq<char>)) -> TaskCommand {
    if op.0 {
        add_command(m, op.1)
    } else {
        remove_command(m, op.1, op.2)
    }
}

/// The registry after a sequence of operations on an empty one.
pub open spec fn run_ops(ops: Seq<(bool, u64, Seq<char>)>) -> Map<u64, Seq<(Seq<char>, StreamStatus)>>
    decreases ops.len(),
{
    if ops.len() == 0 {
        Map::empty()
    } else {
        apply_op(run_ops(ops.drop_last()), ops.last())
    }
}

/// How a command changes the number of running monitor tasks.
pub open spec fn task_delta(c: TaskCommand) -> int {
    match c {
        TaskCommand::Nothing => 0,
        TaskCommand::Spawn(_) => 1,
        TaskCommand::Abort(_) => -1,
    }
}

/// The number of monitor tasks running after a sequence of operations, that
/// is, those spawned minus those aborted.
pub open spec fn live_tasks(ops: Seq<(bool, u64, Seq<char>)>) -> int
    decreases ops.len(),
{
    if ops.len() == 0 {
        0
    } else {
        live_tasks(ops.drop_last()) + task_delta(op_command(run_ops(ops.drop_last()), ops.last()))
    }
}

/// One operation keeps the registry well formed and changes the number of
/// platforms by what its task command starts or stops.
proof fn lemma_step(m: Map<u64, Seq<(Seq<char>, StreamStatus)>>, op: (bool, u64, Seq<char>))
    requires
        model_wf(m),
    ensures
        model_wf(apply_op(m, op)),
        apply_op(m, op).dom().len() == m.dom().len() + task_delta(op_command(m, op)),
{
    let (add, p, url) = op;
    let r = apply_op(m, op);
    if add {
        if m.contains_key(p) {
            assert(r.dom() =~= m.dom());
        } else {
            assert(seq![(url, StreamStatus::Idle)][0].0 == url);
        }
        assert forall|q: u64| #[trigger] r.contains_key(q) implies crate::cycle::unique_keys(r[q])
            && r[q].len() > 0 by {
            if q == p && m.contains_key(p) && !has_key(m[p], url) {
                assert(m[p].push((url, StreamStatus::Idle)) == cycle_insert(m[p], url, StreamStatus::Idle));
                lemma_insert_unique(m[p], url, StreamStatus::Idle);
            }
        }
    } else {
        if m.contains_key(p) {
            lemma_remove_unique(m[p], url);
            if cycle_remove(m[p], url).len() != 0 {
                assert(r.dom() =~= m.dom());
            }
        }
        assert forall|q: u64| #[trigger] r.contains_key(q) implies crate::cycle::unique_keys(r[q])
            && r[q].len() > 0 by {
            if q == p && m.contains_key(p) {
                lemma_remove_unique(m[p], url);
            }
        }
    }
}

/// For every sequence of adds and removes from an empty registry, the number
/// of running monitor tasks equals the number of platforms in the registry,
/// and each of those platforms has at least one registered source.
pub proof fn lemma_live_tasks_match_platforms(ops: Seq<(bool, u64, Seq<char>)>)
    ensures
        model_wf(run_ops(ops)),
        forall|p: u64| #[trigger] run_ops(ops).contains_key(p) ==> run_ops(ops)[p].len() > 0,
        live_tasks(ops) == run_ops(ops).dom().len(),
    decreases ops.len(),
{
    if ops.len() == 0 {
        assert(run_ops(ops).dom() =~= Set::<u64>::empty());
    } else {
        lemma_live_tasks_match_platforms(ops.drop_last());
        lemma_step(run_ops(ops.drop_last()), ops.last());
    }
}

/// Removing the only source of a platform aborts that platform's task and
/// leaves every other platform, with its sources and its task, as it was.
pub proof fn lemma_remove_only_source(
    m: Map<u64, Seq<(Seq<char>, StreamStatus)>>,
    p: u64,
    url: Seq<char>,
    s: StreamStatus,
)
    requires
        model_wf(m),
        m.contains_key(p),
        m[p] == seq![(url, s)],
    ensures
        remove_command(m, p, url) == TaskCommand::Abort(p),
        remove_model(m, p, url) == m.remove(p),
        forall|q: u64| q != p ==> (remove_model(m, p, url).contains_key(q) <==> m.contains_key(q)),
        forall|q: u64| q != p && m.contains_key(q) ==> remove_model(m, p, url)[q] == m[q],
{
    assert(m[p][0].0 == url);
    lemma_key_position(m[p], url);
    assert(cycle_remove(m[p], url).len() == 0);
}

/// A probe never brings a source back to `Idle`: the only status it changes
/// is that of the probed source, from `Idle` to `Downloading`.
pub proof fn lemma_probe_never_reverts(
    m: Map<u64, Seq<(Seq<char>, StreamStatus)>>,
    p: u64,
    url: Seq<char>,
    live: bool,
    q: u64,
    w: Seq<char>,
)
    requires
        model_wf(m),
        m.contains_key(q),
    ensures
        probe_model(m, p, url, live).contains_key(q),
        cycle_status(probe_model(m, p, url, live)[q], w) == Some(StreamStatus::Idle) ==> cycle_status(m[q], w)
            == Some(StreamStatus::Idle),
        cycle_status(probe_model(m, p, url, live)[q], w) != cycle_status(m[q], w) ==> {
            &&& q == p
            &&& w == url
            &&& cycle_status(m[q], w) == Some(StreamStatus::Idle)
            &&& cycle_status(probe_model(m, p, url, live)[q], w) == Some(StreamStatus::Downloading)
        },
{
    let r = probe_model(m, p, url, live);
    if r != m && q == p {
        let e = m[p];
        let ins = cycle_insert(e, url, StreamStatus::Downloading);
        if w == url {
            lemma_key_position(e, url);
            lemma_insert_unique(e, url, StreamStatus::Downloading);
            lemma_key_position(ins, url);
            let i = key_position(e, url);
            assert(ins[i] == (url, StreamStatus::Downloading));
        } else {
            lemma_other_status_kept(e, w, url, StreamStatus::Downloading);
        }
    }
}

/// Adding or removing any other source leaves a registered source where it
/// is, with the status it had.
pub proof fn lemma_other_ops_keep_status(
    m: Map<u64, Seq<(Seq<char>, StreamStatus)>>,
    p: u64,
    u: Seq<char>,
    op: (bool, u64, Seq<char>),
)
    requires
        model_wf(m),
        m.contains_key(p),
        cycle_status(m[p], u).is_some(),
        !(op.1 == p && op.2 == u),
    ensures
        apply_op(m, op).contains_key(p),
        cycle_status(apply_op(m, op)[p], u) == cycle_status(m[p], u),
{
    if op.1 == p {
        let e = m[p];
        lemma_other_status_kept(e, u, op.2, StreamStatus::Idle);
        assert(e.push((op.2, StreamStatus::Idle)) == cycle_insert(e, op.2, StreamStatus::Idle) || has_key(e, op.2));
        if !op.0 {
            let rem = cycle_remove(e, op.2);
            lemma_remove_unique(e, op.2);
            lemma_key_position(rem, u);
        }
    }
}

/// Adding a source that is already registered changes nothing: it keeps its
/// one entry, its place and its status, whatever that status is, and no task
/// is started.
pub proof fn lemma_add_present(m: Map<u64, Seq<(Seq<char>, StreamStatus)>>, p: u64, url: Seq<char>)
    requires
        model_wf(m),
        m.contains_key(p),
        has_key(m[p], url),
    ensures
        add_model(m, p, url) == m,
        add_command(m, p) == TaskCommand::Nothing,
{
}

/// Adding the same source twice in a row is the same as adding it once: one
/// entry for it, the second add changes nothing, and no second task starts.
pub proof fn lemma_add_idempotent(m: Map<u64, Seq<(Seq<char>, StreamStatus)>>, p: u64, url: Seq<char>)
    requires
        model_wf(m),
    ensures
        add_model(add_model(m, p, url), p, url) == add_model(m, p, url),
        add_command(add_model(m, p, url), p) == TaskCommand::Nothing,
        has_key(add_model(m, p, url)[p], url),
        unique_keys(add_model(m, p, url)[p]),
{
    let m1 = add_model(m, p, url);
    if m.contains_key(p) {
        if !has_key(m[p], url) {
            assert(m[p].push((url, StreamStatus::Idle)) == cycle_insert(m[p], url, StreamStatus::Idle));
            lemma_insert_unique(m[p], url, StreamStatus::Idle);
        }
    } else {
        assert(m1[p][0].0 == url);
    }
}

/// The cursor after `k` polls of a cycle of `len` entries, from cursor `c`.
pub open spec fn cursor_after(c: usize, len: int, k: nat) -> usize
    decreases k,
{
    if k == 0 {
        c
    } else {
        cursor_next(cursor_after(c, len, (k - 1) as nat), len)
    }
}

/// The position that poll number `k` (from zero) lands on, from cursor `c`.
pub open spec fn polled_slot(c: usize, len: int, k: nat) -> int {
    cursor_slot(cursor_after(c, len, k) as int, len)
}

/// Whether some of the `len` polls from cursor `c` lands on position `j`.
pub open spec fn visited(c: usize, len: int, j: int) -> bool {
    exists|k: nat| k < len && #[trigger] polled_slot(c, len, k) == j
}

proof fn lemma_polled_slot(c: usize, len: int, k: nat)
    requires
        0 < len <= usize::MAX,
    ensures
        polled_slot(c, len, k) == cursor_slot(c + k, len),
        k > 0 ==> 1 <= cursor_after(c, len, k) <= len,
    decreases k,
{
    if k > 0 {
        let k1 = (k - 1) as nat;
        lemma_polled_slot(c, len, k1);
        let x = cursor_after(c, len, k1) as int;
        lemma_mod_pos_bound(x, len);
        assert(cursor_after(c, len, k) as int == x % len + 1);
        lemma_add_mod_noop(c + k1, 1, len);
        lemma_add_mod_noop(x, 1, len);
        lemma_add_mod_noop(x % len, 1, len);
        lemma_mod_pos_bound(c + k1, len);
        lemma_mod_twice(x, len);
        lemma_mod_twice(c + k1, len);
        assert((x % len + 1) % len == (x + 1) % len);
        assert((x + 1) % len == (c + k) % len);
    }
}

/// Polling a cycle of `len` sources `len` times in a row, from any cursor,
/// visits every position exactly once: poll number `k` lands on
/// `(c + k) mod len`. As this holds from every cursor, it holds of every
/// window of `len` consecutive polls.
pub proof fn lemma_round_robin(c: usize, len: int)
    requires
        0 < len <= usize::MAX,
    ensures
        forall|k: nat| #[trigger] polled_slot(c, len, k) == cursor_slot(c + k, len),
        forall|j: int| 0 <= j < len ==> #[trigger] visited(c, len, j),
        forall|k1: nat, k2: nat|
            k1 < len && k2 < len && #[trigger] polled_slot(c, len, k1) == #[trigger] polled_slot(c, len, k2)
                ==> k1 == k2,
{
    assert forall|k: nat| #[trigger] polled_slot(c, len, k) == cursor_slot(c + k, len) by {
        lemma_polled_slot(c, len, k);
    }
    assert forall|j: int| 0 <= j < len implies #[trigger] visited(c, len, j) by {
        let ci = c as int;
        let r = ci % len;
        lemma_fundamental_div_mod(ci, len);
        lemma_mod_pos_bound(ci, len);
        let q = ci / len;
        let k = if j >= r { j - r } else { j - r + len };
        let a = if j >= r { q } else { q + 1 };
        assert(ci + k == len * a + j) by (nonlinear_arith)
            requires ci == len * q + r, k == (if j >= r { j - r } else { j - r + len }),
                a == (if j >= r { q } else { q + 1 });
        lemma_mod_multiples_vanish(a, j, len);
        lemma_small_mod(j as nat, len as nat);
        lemma_polled_slot(c, len, k as nat);
        assert(polled_slot(c, len, k as nat) == j);
    }
    assert forall|k1: nat, k2: nat|
        k1 < len && k2 < len && #[trigger] polled_slot(c, len, k1) == #[trigger] polled_slot(c, len, k2)
        implies k1 == k2 by {
        lemma_polled_slot(c, len, k1);
        lemma_polled_slot(c, len, k2);
        lemma_mod_equivalence(c + k1, c + k2, len);
        if k1 > k2 {
            lemma_small_mod((k1 - k2) as nat, len as nat);
            assert((c + k1) - (c + k2) == k1 - k2);
        } else if k2 > k1 {
            lemma_mod_equivalence(c + k2, c + k1, len);
            lemma_small_mod((k2 - k1) as nat, len as nat);
            assert((c + k2) - (c + k1) == k2 - k1);
        }
    }
}

} // verus!
