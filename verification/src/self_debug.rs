//! Self-debugging runs on a VM queue: run summaries, archiving finished
//! runs into history, and strategy statistics.

use vstd::prelude::*;
use crate::text::{
    chars_eq, chars_of, concat, decimal, lex_lt, lex_order, lemma_lex_total, lemma_lex_trans, str_eq,
    u64_to_decimal, i64_to_decimal, int_decimal,
    string_of, strings_view, trim, trim_chars, trim_seq,
};
use crate::vm_queue::{VmExecQueueItem, sd_kind, is_self_debug_kind};

verus! {

/// A summary of one self-debug run.
#[derive(Debug, Clone)]
pub struct VmSelfDebugRunSummary {
    pub run_id: String,
    pub total: usize,
    pub pending: usize,
    pub paused: usize,
    pub running: usize,
    pub done: usize,
    pub failed: usize,
    pub canceled: usize,
    pub updated_at_unix: u64,
}

/// Task counts of a run and its latest activity time.
pub struct RunStats {
    pub total: nat,
    pub pending: nat,
    pub paused: nat,
    pub running: nat,
    pub done: nat,
    pub failed: nat,
    pub canceled: nat,
    pub updated: nat,
}

/// No task yet.
pub open spec fn zero_stats() -> RunStats {
    RunStats { total: 0, pending: 0, paused: 0, running: 0, done: 0, failed: 0, canceled: 0, updated: 0 }
}

/// A task that belongs to a self-debug run.
pub open spec fn qualifies(it: VmExecQueueItem) -> bool {
    trim_seq(it.run_id@).len() > 0 && sd_kind(it.run_kind@)
}

/// The latest of a task's finish, start and creation times.
pub open spec fn item_time(it: VmExecQueueItem) -> nat {
    let a = if it.finished_at_unix > it.started_at_unix { it.finished_at_unix } else { it.started_at_unix };
    (if a > it.created_at_unix { a } else { it.created_at_unix }) as nat
}

/// Counts one more task.
pub open spec fn bump(s: RunStats, it: VmExecQueueItem) -> RunStats {
    let st = it.status@;
    RunStats {
        total: s.total + 1,
        pending: s.pending + if st == "pending"@ { 1nat } else { 0 },
        paused: s.paused + if st == "paused"@ { 1nat } else { 0 },
        running: s.running + if st == "running"@ { 1nat } else { 0 },
        done: s.done + if st == "done"@ { 1nat } else { 0 },
        failed: s.failed + if st == "failed"@ { 1nat } else { 0 },
        canceled: s.canceled + if st == "canceled"@ { 1nat } else { 0 },
        updated: if item_time(it) > s.updated { item_time(it) } else { s.updated },
    }
}

/// The statistics of the run `rid` over the tasks.
pub open spec fn run_stats(items: Seq<VmExecQueueItem>, rid: Seq<char>) -> RunStats
    decreases items.len(),
{
    if items.len() == 0 {
        zero_stats()
    } else {
        let s = run_stats(items.drop_last(), rid);
        let it = items.last();
        if qualifies(it) && trim_seq(it.run_id@) == rid {
            bump(s, it)
        } else {
            s
        }
    }
}

/// Some task belongs to the run `rid`.
pub open spec fn run_listed(items: Seq<VmExecQueueItem>, rid: Seq<char>) -> bool {
    exists|k: int| 0 <= k < items.len() && qualifies(#[trigger] items[k]) && trim_seq(items[k].run_id@) == rid
}

/// The statistics a summary reports.
pub open spec fn summary_stats(s: VmSelfDebugRunSummary) -> RunStats {
    RunStats {
        total: s.total as nat,
        pending: s.pending as nat,
        paused: s.paused as nat,
        running: s.running as nat,
        done: s.done as nat,
        failed: s.failed as nat,
        canceled: s.canceled as nat,
        updated: s.updated_at_unix as nat,
    }
}

/// Summaries are listed most recently updated first, then by run id descending.
pub open spec fn run_before(a: VmSelfDebugRunSummary, b: VmSelfDebugRunSummary) -> bool {
    a.updated_at_unix > b.updated_at_unix || (a.updated_at_unix == b.updated_at_unix && lex_lt(b.run_id@, a.run_id@))
}

proof fn lemma_stats_unlisted(items: Seq<VmExecQueueItem>, rid: Seq<char>)
    requires
        !run_listed(items, rid),
    ensures
        run_stats(items, rid) == zero_stats(),
    decreases items.len(),
{
    if items.len() > 0 {
        assert(!run_listed(items.drop_last(), rid)) by {
            if run_listed(items.drop_last(), rid) {
                let k = choose|k: int| 0 <= k < items.drop_last().len() && qualifies(#[trigger] items.drop_last()[k]) && trim_seq(items.drop_last()[k].run_id@) == rid;
                assert(items[k] == items.drop_last()[k]);
            }
        }
        lemma_stats_unlisted(items.drop_last(), rid);
        assert(items[items.len() - 1] == items.last());
    }
}

proof fn lemma_stats_bound(items: Seq<VmExecQueueItem>, rid: Seq<char>)
    ensures
        run_stats(items, rid).total <= items.len(),
        run_stats(items, rid).pending <= run_stats(items, rid).total,
        run_stats(items, rid).paused <= run_stats(items, rid).total,
        run_stats(items, rid).running <= run_stats(items, rid).total,
        run_stats(items, rid).done <= run_stats(items, rid).total,
        run_stats(items, rid).failed <= run_stats(items, rid).total,
        run_stats(items, rid).canceled <= run_stats(items, rid).total,
        run_stats(items, rid).updated <= u64::MAX,
    decreases items.len(),
{
    if items.len() > 0 {
        lemma_stats_bound(items.drop_last(), rid);
    }
}

fn status_is(it: &VmExecQueueItem, s: &str) -> (b: bool)
    ensures
        b == (it.status@ == s@),
{
    str_eq(it.status.as_str(), s)
}

fn bump_summary(s: &mut VmSelfDebugRunSummary, it: &VmExecQueueItem)
    requires
        old(s).total < usize::MAX,
        old(s).pending <= old(s).total,
        old(s).paused <= old(s).total,
        old(s).running <= old(s).total,
        old(s).done <= old(s).total,
        old(s).failed <= old(s).total,
        old(s).canceled <= old(s).total,
    ensures
        final(s).run_id@ == old(s).run_id@,
        summary_stats(*final(s)) == bump(summary_stats(*old(s)), *it),
{
    s.total = s.total + 1;
    if status_is(it, "pending") {
        s.pending = s.pending + 1;
    }
    if status_is(it, "paused") {
        s.paused = s.paused + 1;
    }
    if status_is(it, "running") {
        s.running = s.running + 1;
    }
    if status_is(it, "done") {
        s.done = s.done + 1;
    }
    if status_is(it, "failed") {
        s.failed = s.failed + 1;
    }
    if status_is(it, "canceled") {
        s.canceled = s.canceled + 1;
    }
    let a = if it.finished_at_unix > it.started_at_unix { it.finished_at_unix } else { it.started_at_unix };
    let t = if a > it.created_at_unix { a } else { it.created_at_unix };
    if t > s.updated_at_unix {
        s.updated_at_unix = t;
    }
}

proof fn lemma_stats_step(items: Seq<VmExecQueueItem>, i: int, rid: Seq<char>)
    requires
        0 <= i < items.len(),
    ensures
        run_stats(items.take(i + 1), rid) == (if qualifies(items[i]) && trim_seq(items[i].run_id@) == rid {
            bump(run_stats(items.take(i), rid), items[i])
        } else {
            run_stats(items.take(i), rid)
        }),
        run_listed(items.take(i + 1), rid) == (run_listed(items.take(i), rid) || (qualifies(items[i]) && trim_seq(items[i].run_id@) == rid)),
{
    let t = items.take(i + 1);
    assert(t.drop_last() =~= items.take(i));
    assert(t.last() == items[i]);
    if run_listed(t, rid) {
        let k = choose|k: int| 0 <= k < t.len() && qualifies(#[trigger] t[k]) && trim_seq(t[k].run_id@) == rid;
        if k < i {
            assert(items.take(i)[k] == t[k]);
        }
    }
    if run_listed(items.take(i), rid) {
        let k = choose|k: int| 0 <= k < items.take(i).len() && qualifies(#[trigger] items.take(i)[k]) && trim_seq(items.take(i)[k].run_id@) == rid;
        assert(t[k] == items.take(i)[k]);
    }
    if qualifies(items[i]) && trim_seq(items[i].run_id@) == rid {
        assert(t[i] == items[i]);
    }
}

fn find_summary(acc: &Vec<VmSelfDebugRunSummary>, key: &Vec<char>) -> (r: Option<usize>)
    ensures
        r matches Some(p) ==> p < acc.len() && acc@[p as int].run_id@ == key@,
        r is None ==> forall|p: int| 0 <= p < acc.len() ==> acc@[p].run_id@ != key@,
{
    let mut p: usize = 0;
    while p < acc.len()
        invariant
            p <= acc.len(),
            forall|q: int| 0 <= q < p ==> acc@[q].run_id@ != key@,
        decreases acc.len() - p,
    {
        if chars_eq(&chars_of(acc[p].run_id.as_str()), key) {
            return Some(p);
        }
        p += 1;
    }
    None
}

/// The run summaries as `collect_self_debug_runs` lists them.
pub open spec fn runs_listing(items: Seq<VmExecQueueItem>, r: Seq<VmSelfDebugRunSummary>) -> bool {
    &&& forall|p: int| 0 <= p < r.len() ==> run_listed(items, (#[trigger] r[p]).run_id@) && summary_stats(r[p]) == run_stats(items, r[p].run_id@)
    &&& forall|rid: Seq<char>| run_listed(items, rid) ==> exists|p: int| 0 <= p < r.len() && (#[trigger] r[p]).run_id@ == rid
    &&& forall|p: int, q: int| 0 <= p < q < r.len() ==> run_before(#[trigger] r[p], #[trigger] r[q])
}

fn accumulate_runs(items: &[VmExecQueueItem]) -> (acc: Vec<VmSelfDebugRunSummary>)
    ensures
        forall|p: int| 0 <= p < acc.len() ==> run_listed(items@, (#[trigger] acc@[p]).run_id@) && summary_stats(acc@[p]) == run_stats(items@, acc@[p].run_id@),
        forall|rid: Seq<char>| run_listed(items@, rid) ==> exists|p: int| 0 <= p < acc.len() && (#[trigger] acc@[p]).run_id@ == rid,
        forall|p: int, q: int| 0 <= p < q < acc.len() ==> (#[trigger] acc@[p]).run_id@ != (#[trigger] acc@[q]).run_id@,
{
    let mut acc: Vec<VmSelfDebugRunSummary> = Vec::new();
    let mut i: usize = 0;
    while i < items.len()
        invariant
            i <= items.len(),
            forall|p: int| 0 <= p < acc.len() ==> run_listed(items@.take(i as int), (#[trigger] acc@[p]).run_id@) && summary_stats(acc@[p]) == run_stats(items@.take(i as int), acc@[p].run_id@),
            forall|rid: Seq<char>| #[trigger] run_listed(items@.take(i as int), rid) ==> exists|p: int| 0 <= p < acc.len() && (#[trigger] acc@[p]).run_id@ == rid,
            forall|p: int, q: int| 0 <= p < q < acc.len() ==> (#[trigger] acc@[p]).run_id@ != (#[trigger] acc@[q]).run_id@,
        decreases items.len() - i,
    {
        let it = &items[i];
        let key = trim_chars(&chars_of(it.run_id.as_str()));
        let ghost before = acc@;
        let ghost t0 = items@.take(i as int);
        let ghost t1 = items@.take(i + 1);
        let ghost hit = qualifies(items@[i as int]);
        let ghost mut pos: int = -1;
        if key.len() > 0 && is_self_debug_kind(it.run_kind.as_str()) {
            match find_summary(&acc, &key) {
                Some(p) => {
                    let mut sm = acc.remove(p);
                    proof {
                        lemma_stats_bound(t0, key@);
                    }
                    bump_summary(&mut sm, it);
                    acc.insert(p, sm);
                    proof {
                        pos = p as int;
                    }
                },
                None => {
                    proof {
                        if run_listed(t0, key@) {
                            let q = choose|q: int| 0 <= q < before.len() && (#[trigger] before[q]).run_id@ == key@;
                        }
                        lemma_stats_unlisted(t0, key@);
                    }
                    let mut sm = VmSelfDebugRunSummary {
                        run_id: string_of(key.as_slice()),
                        total: 0,
                        pending: 0,
                        paused: 0,
                        running: 0,
                        done: 0,
                        failed: 0,
                        canceled: 0,
                        updated_at_unix: 0,
                    };
                    bump_summary(&mut sm, it);
                    acc.push(sm);
                    proof {
                        pos = before.len() as int;
                    }
                },
            }
        }
        proof {
            assert(hit == (key@.len() > 0 && sd_kind(items@[i as int].run_kind@)));
            assert(pos >= 0 <==> hit);
            assert(hit ==> 0 <= pos < acc.len() && acc@[pos].run_id@ == key@);
            assert(hit ==> summary_stats(acc@[pos]) == bump(run_stats(t0, key@), items@[i as int]));
            assert(forall|q: int| 0 <= q < acc.len() && q != pos ==> acc@[q] == before[q]);
            assert forall|q: int| 0 <= q < acc.len() implies run_listed(t1, (#[trigger] acc@[q]).run_id@) && summary_stats(acc@[q]) == run_stats(t1, acc@[q].run_id@) by {
                lemma_stats_step(items@, i as int, acc@[q].run_id@);
                if q != pos {
                    assert(acc@[q] == before[q]);
                    if hit {
                        if pos < before.len() {
                            assert(before[pos].run_id@ == key@);
                        }
                    }
                }
            }
            assert forall|rid: Seq<char>| #[trigger] run_listed(t1, rid) implies exists|p: int| 0 <= p < acc.len() && (#[trigger] acc@[p]).run_id@ == rid by {
                lemma_stats_step(items@, i as int, rid);
                if run_listed(t0, rid) {
                    let q = choose|q: int| 0 <= q < before.len() && (#[trigger] before[q]).run_id@ == rid;
                    if q != pos {
                        assert(acc@[q] == before[q]);
                    }
                    assert(acc@[q].run_id@ == rid);
                } else {
                    assert(acc@[pos].run_id@ == rid);
                }
            }
            assert forall|p: int, q: int| 0 <= p < q < acc.len() implies (#[trigger] acc@[p]).run_id@ != (#[trigger] acc@[q]).run_id@ by {
                if p != pos && q != pos {
                    assert(acc@[p] == before[p] && acc@[q] == before[q]);
                } else if hit && pos == before.len() {
                    if p == pos {
                        assert(acc@[q] == before[q]);
                    } else {
                        assert(acc@[p] == before[p]);
                    }
                } else if p == pos {
                    assert(acc@[q] == before[q]);
                    assert(acc@[p].run_id@ == before[p].run_id@);
                } else {
                    assert(acc@[p] == before[p]);
                    assert(acc@[q].run_id@ == before[q].run_id@);
                }
            }
        }
        i += 1;
    }
    assert(items@.take(items.len() as int) =~= items@);
    acc
}

proof fn lemma_run_before_trans(a: VmSelfDebugRunSummary, b: VmSelfDebugRunSummary, c: VmSelfDebugRunSummary)
    requires
        run_before(a, b),
        run_before(b, c),
    ensures
        run_before(a, c),
{
    if a.updated_at_unix == b.updated_at_unix && b.updated_at_unix == c.updated_at_unix {
        lemma_lex_trans(c.run_id@, b.run_id@, a.run_id@);
    }
}

proof fn lemma_run_before_total(a: VmSelfDebugRunSummary, b: VmSelfDebugRunSummary)
    requires
        a.run_id@ != b.run_id@,
    ensures
        run_before(a, b) || run_before(b, a),
        !(run_before(a, b) && run_before(b, a)),
{
    lemma_lex_total(a.run_id@, b.run_id@);
}

fn runs_in_order(a: &VmSelfDebugRunSummary, b: &VmSelfDebugRunSummary) -> (r: bool)
    ensures
        r == run_before(*a, *b),
{
    if a.updated_at_unix > b.updated_at_unix {
        return true;
    }
    if a.updated_at_unix < b.updated_at_unix {
        return false;
    }
    lex_order(&chars_of(b.run_id.as_str()), &chars_of(a.run_id.as_str())) == -1
}

/// Strictly sorted by `run_before`.
pub open spec fn runs_sorted(v: Seq<VmSelfDebugRunSummary>) -> bool {
    forall|p: int, q: int| 0 <= p < q < v.len() ==> run_before(#[trigger] v[p], #[trigger] v[q])
}

fn insert_sorted(out: &mut Vec<VmSelfDebugRunSummary>, e: VmSelfDebugRunSummary)
    requires
        runs_sorted(old(out)@),
        forall|k: int| 0 <= k < old(out)@.len() ==> (#[trigger] old(out)@[k]).run_id@ != e.run_id@,
    ensures
        runs_sorted(final(out)@),
        exists|p: int| 0 <= p <= old(out)@.len() && final(out)@ == old(out)@.insert(p, e),
{
    let mut p: usize = 0;
    while p < out.len() && runs_in_order(&out[p], &e)
        invariant
            p <= out.len(),
            out@ == old(out)@,
            forall|k: int| 0 <= k < p ==> run_before(#[trigger] out@[k], e),
        decreases out.len() - p,
    {
        p += 1;
    }
    proof {
        if p < out.len() {
            lemma_run_before_total(out@[p as int], e);
            assert forall|k: int| p < k < out.len() implies run_before(e, #[trigger] out@[k]) by {
                lemma_run_before_trans(e, out@[p as int], out@[k]);
            }
        }
    }
    let ghost before = out@;
    out.insert(p, e);
    proof {
        assert forall|a: int, b: int| 0 <= a < b < out.len() implies run_before(#[trigger] out@[a], #[trigger] out@[b]) by {
            if a < p && b < p {
                assert(out@[a] == before[a] && out@[b] == before[b]);
            } else if a < p && b == p {
            } else if a < p {
                assert(out@[a] == before[a] && out@[b] == before[b - 1]);
                lemma_run_before_trans(before[a], e, before[b - 1]);
            } else if a == p {
                assert(out@[b] == before[b - 1]);
            } else {
                assert(out@[a] == before[a - 1] && out@[b] == before[b - 1]);
            }
        }
        assert(out@ == before.insert(p as int, e));
    }
}

/// Every element of `out` is one of `orig[lo..]`, and every one of those is in `out`.
pub open spec fn holds_tail(out: Seq<VmSelfDebugRunSummary>, orig: Seq<VmSelfDebugRunSummary>, lo: int) -> bool {
    &&& forall|k: int| 0 <= k < out.len() ==> exists|m: int| lo <= m < orig.len() && #[trigger] out[k] == #[trigger] orig[m]
    &&& forall|m: int| lo <= m < orig.len() ==> exists|k: int| 0 <= k < out.len() && #[trigger] out[k] == #[trigger] orig[m]
}

proof fn lemma_holds_tail_insert(before: Seq<VmSelfDebugRunSummary>, orig: Seq<VmSelfDebugRunSummary>, n0: int, p: int)
    requires
        1 <= n0 <= orig.len(),
        0 <= p <= before.len(),
        holds_tail(before, orig, n0),
    ensures
        holds_tail(before.insert(p, orig[n0 - 1]), orig, n0 - 1),
{
    let e = orig[n0 - 1];
    let out = before.insert(p, e);
    assert forall|k: int| 0 <= k < out.len() implies exists|m: int| n0 - 1 <= m < orig.len() && #[trigger] out[k] == #[trigger] orig[m] by {
        if k < p {
            let m = choose|m: int| n0 <= m < orig.len() && #[trigger] before[k] == #[trigger] orig[m];
            assert(out[k] == orig[m]);
        } else if k == p {
            assert(out[k] == orig[n0 - 1]);
        } else {
            let m = choose|m: int| n0 <= m < orig.len() && #[trigger] before[k - 1] == #[trigger] orig[m];
            assert(out[k] == orig[m]);
        }
    }
    assert forall|m: int| n0 - 1 <= m < orig.len() implies exists|k: int| 0 <= k < out.len() && #[trigger] out[k] == #[trigger] orig[m] by {
        if m == n0 - 1 {
            assert(out[p] == orig[m]);
        } else {
            let k = choose|k: int| 0 <= k < before.len() && #[trigger] before[k] == #[trigger] orig[m];
            if k < p {
                assert(out[k] == orig[m]);
            } else {
                assert(out[k + 1] == orig[m]);
            }
        }
    }
}

fn sort_runs(input: Vec<VmSelfDebugRunSummary>) -> (out: Vec<VmSelfDebugRunSummary>)
    requires
        forall|p: int, q: int| 0 <= p < q < input.len() ==> (#[trigger] input@[p]).run_id@ != (#[trigger] input@[q]).run_id@,
    ensures
        holds_tail(out@, input@, 0),
        runs_sorted(out@),
{
    let ghost orig = input@;
    let mut acc = input;
    let mut out: Vec<VmSelfDebugRunSummary> = Vec::new();
    while acc.len() > 0
        invariant
            acc@ == orig.take(acc.len() as int),
            acc.len() <= orig.len(),
            forall|p: int, q: int| 0 <= p < q < orig.len() ==> (#[trigger] orig[p]).run_id@ != (#[trigger] orig[q]).run_id@,
            holds_tail(out@, orig, acc.len() as int),
            runs_sorted(out@),
        decreases acc.len(),
    {
        let ghost n0 = acc.len() as int;
        let e = acc.pop().unwrap();
        assert(e == orig[n0 - 1]);
        assert(acc@ =~= orig.take(n0 - 1));
        proof {
            assert forall|k: int| 0 <= k < out.len() implies (#[trigger] out@[k]).run_id@ != e.run_id@ by {
                let m = choose|m: int| n0 <= m < orig.len() && #[trigger] out@[k] == #[trigger] orig[m];
                assert(orig[n0 - 1].run_id@ != orig[m].run_id@);
            }
        }
        let ghost before = out@;
        insert_sorted(&mut out, e);
        proof {
            let p = choose|p: int| 0 <= p <= before.len() && out@ == before.insert(p, e);
            lemma_holds_tail_insert(before, orig, n0, p);
        }
    }
    out
}

/// Summarizes the self-debug runs on a queue: one summary per run id with
/// its task counts and latest activity, newest first (ties by run id, descending).
pub fn collect_self_debug_runs(items: &[VmExecQueueItem]) -> (r: Vec<VmSelfDebugRunSummary>)
    ensures
        runs_listing(items@, r@),
{
    let acc = accumulate_runs(items);
    let ghost a = acc@;
    let out = sort_runs(acc);
    proof {
        assert forall|p: int| 0 <= p < out.len() implies run_listed(items@, (#[trigger] out@[p]).run_id@) && summary_stats(out@[p]) == run_stats(items@, out@[p].run_id@) by {
            let m = choose|m: int| 0 <= m < a.len() && #[trigger] out@[p] == #[trigger] a[m];
            assert(run_listed(items@, a[m].run_id@));
        }
        assert forall|rid: Seq<char>| run_listed(items@, rid) implies exists|p: int| 0 <= p < out.len() && (#[trigger] out@[p]).run_id@ == rid by {
            let m = choose|m: int| 0 <= m < a.len() && (#[trigger] a[m]).run_id@ == rid;
            let k = choose|k: int| 0 <= k < out.len() && #[trigger] out@[k] == #[trigger] a[m];
        }
    }
    out
}

/// What was learned from the failed steps of a run.
#[derive(Debug, Clone)]
pub struct SelfDebugContextData {
    pub failed_steps: usize,
    pub categories: Vec<String>,
    pub key_lines: Vec<String>,
    pub context_text: String,
}

impl SelfDebugContextData {
    /// Nothing learned.
    pub fn empty() -> (r: SelfDebugContextData)
        ensures
            r.failed_steps == 0,
            r.categories@.len() == 0,
            r.key_lines@.len() == 0,
            r.context_text@.len() == 0,
    {
        SelfDebugContextData { failed_steps: 0, categories: Vec::new(), key_lines: Vec::new(), context_text: String::new() }
    }
}

/// An archived self-debug run.
#[derive(Debug, Clone)]
pub struct VmSelfDebugHistoryEntry {
    pub summary: VmSelfDebugRunSummary,
    pub archived_at_unix: u64,
    pub failed_steps: usize,
    pub categories: Vec<String>,
    pub key_lines: Vec<String>,
    pub context_text: String,
}

/// Keeps the first `max_entries` history entries (all when `max_entries` is 0).
pub fn trim_history_entries(entries: &mut Vec<VmSelfDebugHistoryEntry>, max_entries: usize)
    ensures
        final(entries)@ == (if max_entries == 0 || old(entries)@.len() <= max_entries {
            old(entries)@
        } else {
            old(entries)@.take(max_entries as int)
        }),
{
    if max_entries == 0 || entries.len() <= max_entries {
        return;
    }
    entries.truncate(max_entries);
}

/// The view of a history entry: run id, run statistics, archive time,
/// failed steps, categories, key lines and context text.
pub struct HistView {
    pub run_id: Seq<char>,
    pub stats: RunStats,
    pub archived: u64,
    pub failed_steps: nat,
    pub categories: Seq<Seq<char>>,
    pub key_lines: Seq<Seq<char>>,
    pub text: Seq<char>,
}

/// The view of a history entry.
pub open spec fn hist_view(e: VmSelfDebugHistoryEntry) -> HistView {
    HistView {
        run_id: e.summary.run_id@,
        stats: summary_stats(e.summary),
        archived: e.archived_at_unix,
        failed_steps: e.failed_steps as nat,
        categories: strings_view(e.categories@),
        key_lines: strings_view(e.key_lines@),
        text: e.context_text@,
    }
}

/// The views of a history.
pub open spec fn hist_views(h: Seq<VmSelfDebugHistoryEntry>) -> Seq<HistView> {
    h.map_values(|e: VmSelfDebugHistoryEntry| hist_view(e))
}

/// The view of the entry recording `summary` archived at `at` with `ctx`.
pub open spec fn new_entry_view(summary: VmSelfDebugRunSummary, at: u64, ctx: SelfDebugContextData) -> HistView {
    HistView {
        run_id: summary.run_id@,
        stats: summary_stats(summary),
        archived: at,
        failed_steps: ctx.failed_steps as nat,
        categories: strings_view(ctx.categories@),
        key_lines: strings_view(ctx.key_lines@),
        text: ctx.context_text@,
    }
}

/// Index of the first entry at or after `i` with run id `rid`, or the length.
pub open spec fn first_with_id(h: Seq<HistView>, rid: Seq<char>, i: int) -> int
    decreases h.len() - i,
{
    if i < 0 || i >= h.len() {
        h.len() as int
    } else if h[i].run_id == rid {
        i
    } else {
        first_with_id(h, rid, i + 1)
    }
}

/// Replaces the first entry with the same run id, or appends.
pub open spec fn upsert_hv(h: Seq<HistView>, v: HistView) -> Seq<HistView> {
    let k = first_with_id(h, v.run_id, 0);
    if k < h.len() {
        h.update(k, v)
    } else {
        h.push(v)
    }
}

/// Replaces the history entry of the same run, or appends one.
pub fn upsert_history_entry(
    history: &mut Vec<VmSelfDebugHistoryEntry>,
    summary: VmSelfDebugRunSummary,
    archived_at_unix: u64,
    ctx: SelfDebugContextData,
)
    ensures
        hist_views(final(history)@) == upsert_hv(hist_views(old(history)@), new_entry_view(summary, archived_at_unix, ctx)),
{
    let ghost hv = hist_views(history@);
    let ghost v = new_entry_view(summary, archived_at_unix, ctx);
    let key = chars_of(summary.run_id.as_str());
    let mut i: usize = 0;
    while i < history.len()
        invariant
            i <= history.len(),
            history@ == old(history)@,
            hv == hist_views(history@),
            v == new_entry_view(summary, archived_at_unix, ctx),
            key@ == summary.run_id@,
            first_with_id(hv, summary.run_id@, 0) == first_with_id(hv, summary.run_id@, i as int),
        decreases history.len() - i,
    {
        if chars_eq(&chars_of(history[i].summary.run_id.as_str()), &key) {
            let e = VmSelfDebugHistoryEntry {
                summary,
                archived_at_unix,
                failed_steps: ctx.failed_steps,
                categories: ctx.categories,
                key_lines: ctx.key_lines,
                context_text: ctx.context_text,
            };
            let ghost ge = e;
            let ghost h0 = history@;
            let _ = history.remove(i);
            history.insert(i, e);
            assert(history@ =~= h0.update(i as int, ge));
            assert(hist_views(history@) =~= hv.update(i as int, v));
            return;
        }
        i += 1;
    }
    history.push(VmSelfDebugHistoryEntry {
        summary,
        archived_at_unix,
        failed_steps: ctx.failed_steps,
        categories: ctx.categories,
        key_lines: ctx.key_lines,
        context_text: ctx.context_text,
    });
    assert(hist_views(history@) =~= hv.push(v));
}

/// A failed or canceled task of the self-debug run `run_id`.
pub open spec fn is_failed_step(it: VmExecQueueItem, run_id: Seq<char>) -> bool {
    sd_kind(it.run_kind@) && it.run_id@ == run_id && (it.status@ == "failed"@ || it.status@ == "canceled"@)
}

/// Task `a` sorts after task `b`: created later, or at the same time with a larger id.
pub open spec fn step_after(a: VmExecQueueItem, b: VmExecQueueItem) -> bool {
    a.created_at_unix > b.created_at_unix || (a.created_at_unix == b.created_at_unix && lex_lt(b.id@, a.id@))
}

/// Inserts index `x` into the sorted indices `s`, after every task that does not sort after it.
pub open spec fn stable_insert(items: Seq<VmExecQueueItem>, s: Seq<int>, x: int) -> Seq<int>
    decreases s.len(),
{
    if s.len() == 0 {
        seq![x]
    } else if step_after(items[s.last()], items[x]) {
        stable_insert(items, s.drop_last(), x).push(s.last())
    } else {
        s.push(x)
    }
}

/// The indices of the run's failed steps among the first `n` tasks, stably
/// sorted by creation time, then id.
pub open spec fn failed_steps(items: Seq<VmExecQueueItem>, run_id: Seq<char>, n: int) -> Seq<int>
    decreases n,
{
    if n <= 0 || n > items.len() {
        Seq::empty()
    } else {
        let s = failed_steps(items, run_id, n - 1);
        if is_failed_step(items[n - 1], run_id) {
            stable_insert(items, s, n - 1)
        } else {
            s
        }
    }
}

proof fn lemma_stable_insert_props(items: Seq<VmExecQueueItem>, s: Seq<int>, x: int, bound: int)
    requires
        forall|k: int| 0 <= k < s.len() ==> 0 <= #[trigger] s[k] < bound,
        0 <= x < bound,
    ensures
        stable_insert(items, s, x).len() == s.len() + 1,
        forall|k: int| 0 <= k < stable_insert(items, s, x).len() ==> 0 <= #[trigger] stable_insert(items, s, x)[k] < bound,
    decreases s.len(),
{
    if s.len() > 0 && step_after(items[s.last()], items[x]) {
        lemma_stable_insert_props(items, s.drop_last(), x, bound);
        let r = stable_insert(items, s.drop_last(), x);
        assert forall|k: int| 0 <= k < r.push(s.last()).len() implies 0 <= #[trigger] r.push(s.last())[k] < bound by {
            if k < r.len() {
                assert(r.push(s.last())[k] == r[k]);
            }
        }
    } else if s.len() > 0 {
        assert forall|k: int| 0 <= k < s.push(x).len() implies 0 <= #[trigger] s.push(x)[k] < bound by {
            if k < s.len() {
                assert(s.push(x)[k] == s[k]);
            }
        }
    }
}

proof fn lemma_failed_steps_props(items: Seq<VmExecQueueItem>, run_id: Seq<char>, n: int)
    requires
        0 <= n <= items.len(),
    ensures
        failed_steps(items, run_id, n).len() <= n,
        forall|k: int| 0 <= k < failed_steps(items, run_id, n).len() ==> 0 <= #[trigger] failed_steps(items, run_id, n)[k] < n,
    decreases n,
{
    if n > 0 {
        lemma_failed_steps_props(items, run_id, n - 1);
        let s = failed_steps(items, run_id, n - 1);
        if is_failed_step(items[n - 1], run_id) {
            lemma_stable_insert_props(items, s, n - 1, n);
        }
    }
}

fn step_is_after(items: &[VmExecQueueItem], a: usize, b: usize) -> (r: bool)
    requires
        a < items.len(),
        b < items.len(),
    ensures
        r == step_after(items@[a as int], items@[b as int]),
{
    if items[a].created_at_unix > items[b].created_at_unix {
        return true;
    }
    if items[a].created_at_unix < items[b].created_at_unix {
        return false;
    }
    lex_order(&chars_of(items[b].id.as_str()), &chars_of(items[a].id.as_str())) == -1
}

fn insert_step(items: &[VmExecQueueItem], s: &mut Vec<usize>, x: usize)
    requires
        x < items.len(),
        forall|k: int| 0 <= k < old(s)@.len() ==> #[trigger] old(s)@[k] < items.len(),
    ensures
        final(s)@.map_values(|v: usize| v as int) == stable_insert(items@, old(s)@.map_values(|v: usize| v as int), x as int),
    decreases old(s)@.len(),
{
    if s.len() == 0 {
        s.push(x);
        assert(s@.map_values(|v: usize| v as int) =~= seq![x as int]);
        return;
    }
    let last = s[s.len() - 1];
    let ghost sv = old(s)@.map_values(|v: usize| v as int);
    assert(sv.last() == last as int);
    if step_is_after(items, last, x) {
        s.pop();
        assert(s@.map_values(|v: usize| v as int) =~= sv.drop_last());
        insert_step(items, s, x);
        let ghost mid = s@;
        s.push(last);
        assert(s@.map_values(|v: usize| v as int) =~= mid.map_values(|v: usize| v as int).push(last as int));
    } else {
        s.push(x);
        assert(s@.map_values(|v: usize| v as int) =~= sv.push(x as int));
    }
}

/// The indices of the run's failed steps, sorted by creation time, then id.
pub fn failed_step_indices(items: &[VmExecQueueItem], run_id: &str) -> (r: Vec<usize>)
    ensures
        r@.map_values(|v: usize| v as int) == failed_steps(items@, run_id@, items@.len() as int),
{
    let mut s: Vec<usize> = Vec::new();
    let mut i: usize = 0;
    assert(s@.map_values(|v: usize| v as int) =~= Seq::<int>::empty());
    while i < items.len()
        invariant
            i <= items.len(),
            s@.map_values(|v: usize| v as int) == failed_steps(items@, run_id@, i as int),
            forall|k: int| 0 <= k < s@.len() ==> #[trigger] s@[k] < i,
        decreases items.len() - i,
    {
        let it = &items[i];
        let failed = is_self_debug_kind(it.run_kind.as_str()) && str_eq(it.run_id.as_str(), run_id)
            && (str_eq(it.status.as_str(), "failed") || str_eq(it.status.as_str(), "canceled"));
        if failed {
            insert_step(items, &mut s, i);
        }
        i += 1;
        proof {
            lemma_failed_steps_props(items@, run_id@, i as int);
            assert forall|k: int| 0 <= k < s@.len() implies #[trigger] s@[k] < i by {
                assert(s@.map_values(|v: usize| v as int)[k] == s@[k] as int);
            }
        }
    }
    s
}

/// The category a failed step is counted under.
pub open spec fn step_cat(it: VmExecQueueItem) -> Seq<char> {
    let t = trim_seq(it.failure_category@);
    if t.len() == 0 {
        "unknown_failure"@
    } else {
        t
    }
}

/// How many of the steps fall under category `c`.
pub open spec fn cat_count(items: Seq<VmExecQueueItem>, ss: Seq<int>, c: Seq<char>) -> nat
    decreases ss.len(),
{
    if ss.len() == 0 {
        0
    } else {
        cat_count(items, ss.drop_last(), c) + if step_cat(items[ss.last()]) == c { 1nat } else { 0 }
    }
}

/// The categories of the steps, each once, in order of first appearance.
pub open spec fn distinct_cats(items: Seq<VmExecQueueItem>, ss: Seq<int>) -> Seq<Seq<char>>
    decreases ss.len(),
{
    if ss.len() == 0 {
        Seq::empty()
    } else {
        let d = distinct_cats(items, ss.drop_last());
        let c = step_cat(items[ss.last()]);
        if d.contains(c) {
            d
        } else {
            d.push(c)
        }
    }
}

/// `category:count` for each category of the steps.
pub open spec fn cat_entries(items: Seq<VmExecQueueItem>, ss: Seq<int>) -> Seq<Seq<char>> {
    distinct_cats(items, ss).map_values(|c: Seq<char>| c + ":"@ + decimal(cat_count(items, ss, c)))
}

fn step_category(it: &VmExecQueueItem) -> (r: Vec<char>)
    ensures
        r@ == step_cat(*it),
{
    let t = trim_chars(&chars_of(it.failure_category.as_str()));
    if t.len() == 0 {
        chars_of("unknown_failure")
    } else {
        t
    }
}

/// Inserts `x` into `s` after every element not greater than it.
pub open spec fn lex_insert(s: Seq<Seq<char>>, x: Seq<char>) -> Seq<Seq<char>>
    decreases s.len(),
{
    if s.len() > 0 && lex_lt(x, s.last()) {
        lex_insert(s.drop_last(), x).push(s.last())
    } else {
        s.push(x)
    }
}

/// Sorts strings ascending (insertion sort; equal strings keep their order).
pub open spec fn lex_sort(s: Seq<Seq<char>>) -> Seq<Seq<char>>
    decreases s.len(),
{
    if s.len() == 0 {
        Seq::empty()
    } else {
        lex_insert(lex_sort(s.drop_last()), s.last())
    }
}

fn insert_lex(out: &mut Vec<String>, x: String)
    ensures
        strings_view(final(out)@) == lex_insert(strings_view(old(out)@), x@),
    decreases old(out)@.len(),
{
    let ghost ov = strings_view(out@);
    if out.len() > 0 {
        let last = out.pop().unwrap();
        assert(strings_view(out@) =~= ov.drop_last());
        assert(last@ == ov.last());
        if lex_order(&chars_of(x.as_str()), &chars_of(last.as_str())) == -1 {
            insert_lex(out, x);
            push_str(out, last);
        } else {
            push_str(out, last);
            push_str(out, x);
            assert(strings_view(out@) =~= ov.push(x@));
        }
    } else {
        push_str(out, x);
        assert(strings_view(out@) =~= ov.push(x@));
    }
}

/// The view of a list of indices.
pub open spec fn idx_view(v: Seq<usize>) -> Seq<int> {
    v.map_values(|x: usize| x as int)
}

/// The `category:count` entries of the steps, sorted.
pub fn category_summary(items: &[VmExecQueueItem], ss: &Vec<usize>) -> (r: Vec<String>)
    requires
        forall|k: int| 0 <= k < ss@.len() ==> #[trigger] ss@[k] < items@.len(),
    ensures
        strings_view(r@) == lex_sort(cat_entries(items@, idx_view(ss@))),
{
    let ghost sv = idx_view(ss@);
    let mut cats: Vec<Vec<char>> = Vec::new();
    let mut counts: Vec<usize> = Vec::new();
    let mut j: usize = 0;
    assert(sv.take(0) =~= Seq::<int>::empty());
    assert(crate::text::char_vecs_view(cats@) =~= Seq::<Seq<char>>::empty());
    while j < ss.len()
        invariant
            sv == idx_view(ss@),
            forall|k: int| 0 <= k < ss@.len() ==> #[trigger] ss@[k] < items@.len(),
            j <= ss.len(),
            crate::text::char_vecs_view(cats@) == distinct_cats(items@, sv.take(j as int)),
            counts@.len() == cats@.len(),
            forall|k: int| 0 <= k < cats@.len() ==> #[trigger] counts@[k] == cat_count(items@, sv.take(j as int), cats@[k]@),
            forall|k: int| 0 <= k < counts@.len() ==> #[trigger] counts@[k] <= j,
            forall|p: int, q: int| 0 <= p < q < cats@.len() ==> (#[trigger] cats@[p])@ != (#[trigger] cats@[q])@,
        decreases ss.len() - j,
    {
        let ghost t0 = sv.take(j as int);
        let ghost t1 = sv.take(j + 1);
        assert(t1.drop_last() =~= t0);
        assert(t1.last() == ss@[j as int] as int);
        let c = step_category(&items[ss[j]]);
        let ghost cv = crate::text::char_vecs_view(cats@);
        let mut k: usize = 0;
        while k < cats.len() && !chars_eq(&cats[k], &c)
            invariant
                k <= cats.len(),
                cv == crate::text::char_vecs_view(cats@),
                forall|q: int| 0 <= q < k ==> cats@[q]@ != c@,
            decreases cats.len() - k,
        {
            k += 1;
        }
        let found = k < cats.len();
        if found {
            let v = counts[k];
            counts.set(k, v + 1);
            assert(cv[k as int] == c@);
            assert(cv.contains(c@));
        } else {
            proof {
                if cv.contains(c@) {
                    let q = choose|q: int| 0 <= q < cv.len() && cv[q] == c@;
                    assert(cats@[q]@ == c@);
                }
            }
            let ghost before = cats@;
            cats.push(c);
            counts.push(1);
            assert(crate::text::char_vecs_view(cats@) =~= cv.push(step_cat(items@[sv[j as int]])));
            proof {
                assert(cat_count(items@, t0, c@) == 0) by {
                    lemma_cat_count_absent(items@, t0, c@);
                }
            }
        }
        j += 1;
        proof {
            assert(c@ == step_cat(items@[t1.last()]));
            assert forall|q: int| 0 <= q < cats@.len() implies #[trigger] counts@[q] == cat_count(items@, t1, cats@[q]@) by {
                if q < cv.len() {
                    assert(cats@[q]@ == cv[q]);
                    if found && q != k {
                        assert(cats@[q]@ != cats@[k as int]@);
                    }
                }
            }
        }
    }
    assert(sv.take(ss.len() as int) =~= sv);
    let mut entries: Vec<String> = Vec::new();
    let mut k: usize = 0;
    let ghost dc = distinct_cats(items@, sv);
    while k < cats.len()
        invariant
            k <= cats.len(),
            crate::text::char_vecs_view(cats@) == dc,
            dc == distinct_cats(items@, sv),
            counts@.len() == cats@.len(),
            forall|q: int| 0 <= q < cats@.len() ==> #[trigger] counts@[q] == cat_count(items@, sv, cats@[q]@),
            strings_view(entries@) == cat_entries(items@, sv).take(k as int),
        decreases cats.len() - k,
    {
        let a = string_of(cats[k].as_slice());
        let b = concat(a.as_str(), ":");
        let n = u64_to_decimal(counts[k] as u64);
        let e = concat(b.as_str(), n.as_str());
        let ghost before = entries@;
        entries.push(e);
        assert(dc[k as int] == cats@[k as int]@);
        assert(cat_entries(items@, sv).len() == dc.len());
        assert(cat_entries(items@, sv)[k as int] == dc[k as int] + ":"@ + decimal(cat_count(items@, sv, dc[k as int])));
        assert(e@ == cat_entries(items@, sv)[k as int]);
        assert(strings_view(entries@) =~= strings_view(before).push(cat_entries(items@, sv)[k as int]));
        k += 1;
        assert(strings_view(entries@) =~= cat_entries(items@, sv).take(k as int));
    }
    assert(cat_entries(items@, sv).take(cats.len() as int) =~= cat_entries(items@, sv));
    let mut out: Vec<String> = Vec::new();
    let mut m: usize = 0;
    let ghost ev = strings_view(entries@);
    assert(strings_view(out@) =~= Seq::<Seq<char>>::empty());
    assert(ev.take(0) =~= Seq::<Seq<char>>::empty());
    while m < entries.len()
        invariant
            m <= entries.len(),
            ev == strings_view(entries@),
            strings_view(out@) == lex_sort(ev.take(m as int)),
        decreases entries.len() - m,
    {
        assert(ev.take(m + 1).drop_last() =~= ev.take(m as int));
        let x = entries[m].clone();
        assert(x@ == ev[m as int]);
        insert_lex(&mut out, x);
        m += 1;
    }
    assert(ev.take(entries.len() as int) =~= ev);
    out
}

proof fn lemma_cat_count_absent(items: Seq<VmExecQueueItem>, ss: Seq<int>, c: Seq<char>)
    requires
        !distinct_cats(items, ss).contains(c),
    ensures
        cat_count(items, ss, c) == 0,
    decreases ss.len(),
{
    if ss.len() > 0 {
        let d = distinct_cats(items, ss.drop_last());
        let x = step_cat(items[ss.last()]);
        if d.contains(c) {
            let q = choose|q: int| 0 <= q < d.len() && d[q] == c;
            if d.contains(x) {
                assert(distinct_cats(items, ss)[q] == c);
            } else {
                assert(distinct_cats(items, ss)[q] == c);
            }
        }
        if x == c {
            if !d.contains(x) {
                assert(distinct_cats(items, ss)[d.len() as int] == c);
            }
        }
        lemma_cat_count_absent(items, ss.drop_last(), c);
    }
}

/// One key line offered to the context: trimmed, kept when non-empty, new
/// and fewer than 20 lines are kept.
pub open spec fn add_ctx_line(out: Seq<Seq<char>>, line: Seq<char>) -> Seq<Seq<char>> {
    let t = trim_seq(line);
    if out.len() >= 20 || t.len() == 0 || out.contains(t) {
        out
    } else {
        out.push(t)
    }
}

/// Key lines offered in order.
pub open spec fn add_ctx_lines(out: Seq<Seq<char>>, ls: Seq<Seq<char>>) -> Seq<Seq<char>>
    decreases ls.len(),
{
    if ls.len() == 0 {
        out
    } else {
        add_ctx_line(add_ctx_lines(out, ls.drop_last()), ls.last())
    }
}

/// The key lines of the first `n` sorted failed steps.
pub open spec fn ctx_key_lines(items: Seq<VmExecQueueItem>, ss: Seq<int>, n: int) -> Seq<Seq<char>>
    decreases n,
{
    if n <= 0 || n > ss.len() {
        Seq::empty()
    } else {
        add_ctx_lines(ctx_key_lines(items, ss, n - 1), strings_view(items[ss[n - 1]].failure_key_lines@))
    }
}

fn seq_has(v: &Vec<String>, t: &Vec<char>) -> (b: bool)
    ensures
        b == strings_view(v@).contains(t@),
{
    let mut i: usize = 0;
    while i < v.len()
        invariant
            i <= v.len(),
            forall|k: int| 0 <= k < i ==> strings_view(v@)[k] != t@,
        decreases v.len() - i,
    {
        if chars_eq(&chars_of(v[i].as_str()), t) {
            assert(strings_view(v@)[i as int] == t@);
            return true;
        }
        i += 1;
    }
    false
}

/// Collects up to 20 distinct key lines from the failed steps, in order.
pub fn collect_ctx_key_lines(items: &[VmExecQueueItem], ss: &Vec<usize>) -> (r: Vec<String>)
    requires
        forall|k: int| 0 <= k < ss@.len() ==> #[trigger] ss@[k] < items@.len(),
    ensures
        strings_view(r@) == ctx_key_lines(items@, idx_view(ss@), ss@.len() as int),
{
    let ghost sv = idx_view(ss@);
    let mut out: Vec<String> = Vec::new();
    let mut i: usize = 0;
    assert(strings_view(out@) =~= Seq::<Seq<char>>::empty());
    while i < ss.len()
        invariant
            sv == idx_view(ss@),
            forall|k: int| 0 <= k < ss@.len() ==> #[trigger] ss@[k] < items@.len(),
            i <= ss.len(),
            strings_view(out@) == ctx_key_lines(items@, sv, i as int),
        decreases ss.len() - i,
    {
        let kl = &items[ss[i]].failure_key_lines;
        let ghost lv = strings_view(kl@);
        let ghost base = strings_view(out@);
        let mut j: usize = 0;
        assert(lv.take(0) =~= Seq::<Seq<char>>::empty());
        while j < kl.len()
            invariant
                j <= kl.len(),
                lv == strings_view(kl@),
                strings_view(out@) == add_ctx_lines(base, lv.take(j as int)),
            decreases kl.len() - j,
        {
            assert(lv.take(j + 1).drop_last() =~= lv.take(j as int));
            let t = trim_chars(&chars_of(kl[j].as_str()));
            if out.len() < 20 && t.len() > 0 && !seq_has(&out, &t) {
                let ghost before = out@;
                out.push(string_of(t.as_slice()));
                assert(strings_view(out@) =~= strings_view(before).push(t@));
            }
            j += 1;
        }
        assert(lv.take(kl.len() as int) =~= lv);
        i += 1;
    }
    out
}

/// How a step's category is shown: as stored, or `unknown_failure` when blank.
pub open spec fn cat_display(it: VmExecQueueItem) -> Seq<char> {
    if trim_seq(it.failure_category@).len() == 0 {
        "unknown_failure"@
    } else {
        it.failure_category@
    }
}

/// The lines describing the `idx`-th most recent failed step.
pub open spec fn step_block(it: VmExecQueueItem, idx: nat) -> Seq<Seq<char>> {
    let head = seq![
        "#"@ + decimal(idx + 1) + " kind="@ + it.run_kind@ + " status="@ + it.status@ + " exit="@ + int_decimal(it.exit_code as int) + " category="@ + cat_display(it),
        "cmd="@ + it.command@,
    ];
    let with_msg = if trim_seq(it.message@).len() > 0 {
        head.push("msg="@ + trim_seq(it.message@))
    } else {
        head
    };
    if trim_seq(it.output_preview@).len() > 0 {
        with_msg.push("out="@ + crate::vm::tail_spec(it.output_preview@, 500))
    } else {
        with_msg
    }
}

/// The blocks of the `m` most recent failed steps, newest first.
pub open spec fn recent_blocks(items: Seq<VmExecQueueItem>, ss: Seq<int>, m: nat) -> Seq<Seq<char>>
    decreases m,
{
    if m == 0 {
        Seq::empty()
    } else {
        recent_blocks(items, ss, (m - 1) as nat) + step_block(items[ss[ss.len() - m]], (m - 1) as nat)
    }
}

/// The lines of a run's context text.
pub open spec fn context_lines(items: Seq<VmExecQueueItem>, ss: Seq<int>, run_id: Seq<char>, cats: Seq<Seq<char>>, keys: Seq<Seq<char>>) -> Seq<Seq<char>> {
    let m: nat = if ss.len() < 8 { ss.len() } else { 8 };
    let head = seq![
        "run_id="@ + run_id,
        "failed_steps="@ + decimal(ss.len()),
        "categories="@ + crate::protocol::join_spec(cats, ", "@),
        Seq::<char>::empty(),
        "recent_failed_steps:"@,
    ];
    let body = head + recent_blocks(items, ss, m);
    if keys.len() > 0 {
        body + seq![Seq::<char>::empty(), "key_failure_lines:"@] + keys.map_values(|l: Seq<char>| "- "@ + l)
    } else {
        body
    }
}

fn push_str(lines: &mut Vec<String>, s: String)
    ensures
        strings_view(final(lines)@) == strings_view(old(lines)@).push(s@),
{
    let ghost before = lines@;
    lines.push(s);
    assert(strings_view(lines@) =~= strings_view(before).push(s@));
}

fn push_step_block(lines: &mut Vec<String>, it: &VmExecQueueItem, idx: usize)
    requires
        idx < 8,
    ensures
        strings_view(final(lines)@) == strings_view(old(lines)@) + step_block(*it, idx as nat),
{
    let ghost base = strings_view(lines@);
    let n = u64_to_decimal((idx + 1) as u64);
    let e = i64_to_decimal(it.exit_code as i64);
    let cat: String = if trim_chars(&chars_of(it.failure_category.as_str())).len() == 0 {
        String::from_str("unknown_failure")
    } else {
        it.failure_category.clone()
    };
    let a1 = concat("#", n.as_str());
    let a2 = concat(a1.as_str(), " kind=");
    let a3 = concat(a2.as_str(), it.run_kind.as_str());
    let a4 = concat(a3.as_str(), " status=");
    let a5 = concat(a4.as_str(), it.status.as_str());
    let a6 = concat(a5.as_str(), " exit=");
    let a7 = concat(a6.as_str(), e.as_str());
    let a8 = concat(a7.as_str(), " category=");
    let a9 = concat(a8.as_str(), cat.as_str());
    push_str(lines, a9);
    push_str(lines, concat("cmd=", it.command.as_str()));
    let ghost head = strings_view(lines@);
    let m = trim(it.message.as_str());
    if chars_of(m.as_str()).len() > 0 {
        push_str(lines, concat("msg=", m.as_str()));
    }
    let o = chars_of(it.output_preview.as_str());
    if trim_chars(&o).len() > 0 {
        let t = crate::vm::tail_text(it.output_preview.as_str(), 500);
        push_str(lines, concat("out=", t.as_str()));
    }
    assert(strings_view(lines@) =~= base + step_block(*it, idx as nat));
}

/// The context gathered from a run's failed steps, for diagnosis and history.
pub open spec fn context_spec(items: Seq<VmExecQueueItem>, run_id: Seq<char>, c: SelfDebugContextData) -> bool {
    let ss = failed_steps(items, run_id, items.len() as int);
    let keys = ctx_key_lines(items, ss, ss.len() as int);
    &&& c.failed_steps == ss.len()
    &&& strings_view(c.categories@) == lex_sort(cat_entries(items, ss))
    &&& strings_view(c.key_lines@) == keys
    &&& c.context_text@ == crate::protocol::join_spec(context_lines(items, ss, run_id, strings_view(c.categories@), keys), "\n"@)
}

/// Gathers the context of a self-debug run from its failed or canceled
/// steps: how many, their categories, up to 20 key lines, and a text
/// describing the 8 most recent; `None` for a blank run id or no failed step.
pub fn build_self_debug_context_data(items: &[VmExecQueueItem], run_id: &str) -> (r: Option<SelfDebugContextData>)
    ensures
        trim_seq(run_id@).len() == 0 || failed_steps(items@, run_id@, items@.len() as int).len() == 0 ==> r is None,
        !(trim_seq(run_id@).len() == 0 || failed_steps(items@, run_id@, items@.len() as int).len() == 0) ==> (r matches Some(c) && context_spec(items@, run_id@, c)),
{
    if trim_chars(&chars_of(run_id)).len() == 0 {
        return None;
    }
    let ss = failed_step_indices(items, run_id);
    let ghost sv = idx_view(ss@);
    proof {
        lemma_failed_steps_props(items@, run_id@, items@.len() as int);
        assert forall|k: int| 0 <= k < ss@.len() implies #[trigger] ss@[k] < items@.len() by {
            assert(sv[k] == ss@[k] as int);
        }
    }
    if ss.len() == 0 {
        return None;
    }
    let categories = category_summary(items, &ss);
    let key_lines = collect_ctx_key_lines(items, &ss);
    let mut lines: Vec<String> = Vec::new();
    assert(strings_view(lines@) =~= Seq::<Seq<char>>::empty());
    push_str(&mut lines, concat("run_id=", run_id));
    push_str(&mut lines, concat("failed_steps=", u64_to_decimal(ss.len() as u64).as_str()));
    push_str(&mut lines, concat("categories=", crate::protocol::join_strings(&categories, ", ").as_str()));
    push_str(&mut lines, String::new());
    push_str(&mut lines, String::from_str("recent_failed_steps:"));
    let m: usize = if ss.len() < 8 { ss.len() } else { 8 };
    let ghost head = strings_view(lines@);
    let mut idx: usize = 0;
    while idx < m
        invariant
            idx <= m,
            m <= ss.len(),
            m <= 8,
            sv == idx_view(ss@),
            forall|k: int| 0 <= k < ss@.len() ==> #[trigger] ss@[k] < items@.len(),
            strings_view(lines@) == head + recent_blocks(items@, sv, idx as nat),
        decreases m - idx,
    {
        let pos = ss.len() - 1 - idx;
        assert(sv[sv.len() - (idx + 1)] == ss@[pos as int] as int);
        push_step_block(&mut lines, &items[ss[pos]], idx);
        idx += 1;
        assert(head + recent_blocks(items@, sv, idx as nat) =~= head + recent_blocks(items@, sv, (idx - 1) as nat) + step_block(items@[sv[sv.len() - idx]], (idx - 1) as nat));
    }
    if key_lines.len() > 0 {
        let ghost body = strings_view(lines@);
        push_str(&mut lines, String::new());
        push_str(&mut lines, String::from_str("key_failure_lines:"));
        let mut k: usize = 0;
        let ghost kv = strings_view(key_lines@);
        while k < key_lines.len()
            invariant
                k <= key_lines.len(),
                kv == strings_view(key_lines@),
                strings_view(lines@) == body + seq![Seq::<char>::empty(), "key_failure_lines:"@] + kv.map_values(|l: Seq<char>| "- "@ + l).take(k as int),
            decreases key_lines.len() - k,
        {
            push_str(&mut lines, concat("- ", key_lines[k].as_str()));
            k += 1;
            assert(strings_view(lines@) =~= body + seq![Seq::<char>::empty(), "key_failure_lines:"@] + kv.map_values(|l: Seq<char>| "- "@ + l).take(k as int));
        }
        assert(kv.map_values(|l: Seq<char>| "- "@ + l).take(key_lines.len() as int) =~= kv.map_values(|l: Seq<char>| "- "@ + l));
    }
    assert(sv.len() == ss@.len());
    proof {
        reveal_strlit("");
    }
    let text = crate::protocol::join_strings(&lines, "\n");
    assert(strings_view(lines@) =~= context_lines(items@, sv, run_id@, strings_view(categories@), strings_view(key_lines@)));
    Some(SelfDebugContextData { failed_steps: ss.len(), categories, key_lines, context_text: text })
}

/// The context recorded for run `rid`: empty when it has no failed steps.
pub open spec fn ctx_view_of(items: Seq<VmExecQueueItem>, rid: Seq<char>) -> (nat, Seq<Seq<char>>, Seq<Seq<char>>, Seq<char>) {
    let ss = failed_steps(items, rid, items.len() as int);
    if trim_seq(rid).len() == 0 || ss.len() == 0 {
        (0, Seq::empty(), Seq::empty(), Seq::empty())
    } else {
        let keys = ctx_key_lines(items, ss, ss.len() as int);
        let cats = lex_sort(cat_entries(items, ss));
        (ss.len(), cats, keys, crate::protocol::join_spec(context_lines(items, ss, rid, cats, keys), "\n"@))
    }
}

/// A run with nothing left to do.
pub open spec fn run_finished(s: VmSelfDebugRunSummary) -> bool {
    s.pending == 0 && s.paused == 0 && s.running == 0 && trim_seq(s.run_id@).len() > 0
}

/// The history after archiving the finished runs among `runs`, in order, at `now`.
pub open spec fn archive_fold(h: Seq<HistView>, runs: Seq<VmSelfDebugRunSummary>, items: Seq<VmExecQueueItem>, now: u64) -> Seq<HistView>
    decreases runs.len(),
{
    if runs.len() == 0 {
        h
    } else {
        let h2 = archive_fold(h, runs.drop_last(), items, now);
        let s = runs.last();
        if run_finished(s) {
            let c = ctx_view_of(items, s.run_id@);
            upsert_hv(h2, HistView {
                run_id: s.run_id@,
                stats: summary_stats(s),
                archived: now,
                failed_steps: c.0,
                categories: c.1,
                key_lines: c.2,
                text: c.3,
            })
        } else {
            h2
        }
    }
}

/// How many of the runs are finished.
pub open spec fn count_finished(runs: Seq<VmSelfDebugRunSummary>) -> nat
    decreases runs.len(),
{
    if runs.len() == 0 {
        0
    } else {
        count_finished(runs.drop_last()) + if run_finished(runs.last()) { 1nat } else { 0 }
    }
}

/// The ids of the finished runs, in order.
pub open spec fn finished_ids(runs: Seq<VmSelfDebugRunSummary>) -> Seq<Seq<char>>
    decreases runs.len(),
{
    if runs.len() == 0 {
        Seq::empty()
    } else {
        let d = finished_ids(runs.drop_last());
        if run_finished(runs.last()) {
            d.push(runs.last().run_id@)
        } else {
            d
        }
    }
}

/// A task of a finished run, removed when archiving.
pub open spec fn archived_away(x: VmExecQueueItem, ids: Seq<Seq<char>>) -> bool {
    sd_kind(x.run_kind@) && ids.contains(x.run_id@)
}

/// The tasks that stay after archiving.
pub open spec fn kept_items(items: Seq<VmExecQueueItem>, ids: Seq<Seq<char>>) -> Seq<VmExecQueueItem>
    decreases items.len(),
{
    if items.len() == 0 {
        Seq::empty()
    } else {
        let k = kept_items(items.drop_last(), ids);
        if archived_away(items.last(), ids) {
            k
        } else {
            k.push(items.last())
        }
    }
}

proof fn lemma_kept_all(items: Seq<VmExecQueueItem>)
    ensures
        kept_items(items, Seq::empty()) == items,
    decreases items.len(),
{
    if items.len() > 0 {
        lemma_kept_all(items.drop_last());
        assert(items.drop_last().push(items.last()) =~= items);
    }
}

proof fn lemma_fold_none_finished(h: Seq<HistView>, runs: Seq<VmSelfDebugRunSummary>, items: Seq<VmExecQueueItem>, now: u64)
    requires
        count_finished(runs) == 0,
    ensures
        archive_fold(h, runs, items, now) == h,
        finished_ids(runs) == Seq::<Seq<char>>::empty(),
    decreases runs.len(),
{
    if runs.len() > 0 {
        lemma_fold_none_finished(h, runs.drop_last(), items, now);
    }
}

fn copy_summary(s: &VmSelfDebugRunSummary) -> (r: VmSelfDebugRunSummary)
    ensures
        r.run_id@ == s.run_id@,
        summary_stats(r) == summary_stats(*s),
{
    VmSelfDebugRunSummary {
        run_id: s.run_id.clone(),
        total: s.total,
        pending: s.pending,
        paused: s.paused,
        running: s.running,
        done: s.done,
        failed: s.failed,
        canceled: s.canceled,
        updated_at_unix: s.updated_at_unix,
    }
}

fn summary_finished(s: &VmSelfDebugRunSummary) -> (b: bool)
    ensures
        b == run_finished(*s),
{
    s.pending == 0 && s.paused == 0 && s.running == 0 && trim_chars(&chars_of(s.run_id.as_str())).len() > 0
}

/// Archives the finished self-debug runs at `now`: each gets a history
/// entry (replacing one for the same run) with its context, and its tasks
/// leave the queue. Returns how many runs and tasks were archived.
pub fn archive_completed_self_debug_runs(
    items: &mut Vec<VmExecQueueItem>,
    history: &mut Vec<VmSelfDebugHistoryEntry>,
    now: u64,
) -> (r: (usize, usize))
    ensures
        exists|runs: Seq<VmSelfDebugRunSummary>| {
            &&& runs_listing(old(items)@, runs)
            &&& r.0 == count_finished(runs)
            &&& hist_views(final(history)@) == archive_fold(hist_views(old(history)@), runs, old(items)@, now)
            &&& final(items)@ == kept_items(old(items)@, finished_ids(runs))
        },
        r.1 == old(items)@.len() - final(items)@.len(),
{
    let runs = collect_self_debug_runs(items.as_slice());
    let ghost rv = runs@;
    let ghost orig = items@;
    let ghost hv0 = hist_views(history@);
    let mut ids: Vec<Vec<char>> = Vec::new();
    let mut count: usize = 0;
    let mut p: usize = 0;
    assert(rv.take(0) =~= Seq::<VmSelfDebugRunSummary>::empty());
    assert(crate::text::char_vecs_view(ids@) =~= Seq::<Seq<char>>::empty());
    while p < runs.len()
        invariant
            rv == runs@,
            p <= runs.len(),
            count <= p,
            count == count_finished(rv.take(p as int)),
            crate::text::char_vecs_view(ids@) == finished_ids(rv.take(p as int)),
        decreases runs.len() - p,
    {
        assert(rv.take(p + 1).drop_last() =~= rv.take(p as int));
        if summary_finished(&runs[p]) {
            count += 1;
            let ghost before = ids@;
            ids.push(chars_of(runs[p].run_id.as_str()));
            assert(crate::text::char_vecs_view(ids@) =~= crate::text::char_vecs_view(before).push(rv[p as int].run_id@));
        }
        p += 1;
    }
    assert(rv.take(runs.len() as int) =~= rv);
    if count == 0 {
        proof {
            lemma_fold_none_finished(hv0, rv, orig, now);
            lemma_kept_all(orig);
        }
        return (0, 0);
    }
    let mut q: usize = 0;
    while q < runs.len()
        invariant
            rv == runs@,
            orig == items@,
            q <= runs.len(),
            hist_views(history@) == archive_fold(hv0, rv.take(q as int), orig, now),
        decreases runs.len() - q,
    {
        assert(rv.take(q + 1).drop_last() =~= rv.take(q as int));
        if summary_finished(&runs[q]) {
            let ctx = match build_self_debug_context_data(items.as_slice(), runs[q].run_id.as_str()) {
                Some(c) => c,
                None => SelfDebugContextData::empty(),
            };
            let sm = copy_summary(&runs[q]);
            proof {
                let c = ctx_view_of(orig, rv[q as int].run_id@);
                assert(strings_view(ctx.categories@) =~= c.1);
                assert(strings_view(ctx.key_lines@) =~= c.2);
                assert(ctx.context_text@ =~= c.3);
                assert(new_entry_view(sm, now, ctx) == HistView {
                    run_id: rv[q as int].run_id@,
                    stats: summary_stats(rv[q as int]),
                    archived: now,
                    failed_steps: c.0,
                    categories: c.1,
                    key_lines: c.2,
                    text: c.3,
                });
            }
            upsert_history_entry(history, sm, now, ctx);
        }
        q += 1;
    }
    assert(rv.take(runs.len() as int) =~= rv);
    let before_len = items.len();
    let mut rest: Vec<VmExecQueueItem> = Vec::new();
    std::mem::swap(items, &mut rest);
    let ghost idv = crate::text::char_vecs_view(ids@);
    let mut k: usize = 0;
    assert(orig.take(0) =~= Seq::<VmExecQueueItem>::empty());
    while rest.len() > 0
        invariant
            k <= orig.len(),
            before_len == orig.len(),
            rest@ == orig.skip(k as int),
            idv == crate::text::char_vecs_view(ids@),
            items@ == kept_items(orig.take(k as int), idv),
            items@.len() <= k,
        decreases rest.len(),
    {
        let x = rest.remove(0);
        assert(x == orig[k as int]);
        assert(rest@ =~= orig.skip(k + 1));
        assert(orig.take(k + 1).drop_last() =~= orig.take(k as int));
        let xid = chars_of(x.run_id.as_str());
        let mut j: usize = 0;
        while j < ids.len() && !chars_eq(&ids[j], &xid)
            invariant
                j <= ids.len(),
                idv == crate::text::char_vecs_view(ids@),
                forall|m: int| 0 <= m < j ==> idv[m] != xid@,
            decreases ids.len() - j,
        {
            j += 1;
        }
        proof {
            if j < ids.len() {
                assert(idv[j as int] == xid@);
                assert(idv.contains(x.run_id@));
            } else if idv.contains(x.run_id@) {
                let m = choose|m: int| 0 <= m < idv.len() && idv[m] == x.run_id@;
                assert(idv[m] != xid@);
            }
        }
        let away = is_self_debug_kind(x.run_kind.as_str()) && j < ids.len();
        if !away {
            items.push(x);
        }
        k += 1;
    }
    assert(orig.skip(k as int).len() == 0);
    assert(orig.take(k as int) =~= orig);
    (count, before_len - items.len())
}

} // verus!
