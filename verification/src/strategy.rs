//! Repair strategies of self-debug runs: how well each failure category's
//! strategy verified, the priority boost that earns, and the command rules.

use vstd::prelude::*;
use crate::text::{
    bytes_exceed, chars_eq, chars_of, lex_lt, lex_order, lemma_lex_total, lemma_lex_trans, str_eq,
    string_of, trim_chars, trim_seq, utf8_len,
};
use crate::vm_queue::{VmExecQueueItem, default_strategy_command_for_failure_category, default_strategy_spec};

verus! {

/// How the strategy verifications of one failure category went.
#[derive(Debug, Clone)]
pub struct VmSelfDebugStrategyStat {
    pub category: String,
    pub attempts: usize,
    pub verified_success: usize,
    pub verified_fail: usize,
    pub pending: usize,
}

/// The counts of a statistic row.
pub open spec fn stat_counts(s: VmSelfDebugStrategyStat) -> (nat, nat, nat, nat) {
    (s.attempts as nat, s.verified_success as nat, s.verified_fail as nat, s.pending as nat)
}

/// Blank after trimming.
pub open spec fn blank(s: Seq<char>) -> bool {
    trim_seq(s).len() == 0
}

/// A task that verifies a strategy after it ran.
pub open spec fn verify_kind(it: VmExecQueueItem) -> bool {
    it.run_kind@ == "self_debug_verify_after_strategy"@
}

/// The failure category recorded for task id `key` by the last of the first
/// `n` items that has a non-blank id equal to `key` and a non-blank category.
pub open spec fn trigger_category(items: Seq<VmExecQueueItem>, n: int, key: Seq<char>) -> Option<Seq<char>>
    decreases n,
{
    if n <= 0 {
        None
    } else {
        let it = items[n - 1];
        if !blank(it.id@) && !blank(it.failure_category@) && it.id@ == key {
            Some(it.failure_category@)
        } else {
            trigger_category(items, n - 1, key)
        }
    }
}

/// The category a verification task counts under: that of its (trimmed)
/// trigger task, or `unknown_failure`.
pub open spec fn strategy_category(items: Seq<VmExecQueueItem>, it: VmExecQueueItem) -> Seq<char> {
    match trigger_category(items, items.len() as int, trim_seq(it.trigger_task_id@)) {
        Some(c) => c,
        None => "unknown_failure"@,
    }
}

/// Attempts, successes, failures (failed or canceled) and open ones
/// (pending or running) of category `c` among the first `n` items.
pub open spec fn strat_counts(items: Seq<VmExecQueueItem>, n: int, c: Seq<char>) -> (nat, nat, nat, nat)
    decreases n,
{
    if n <= 0 {
        (0, 0, 0, 0)
    } else {
        let r = strat_counts(items, n - 1, c);
        let it = items[n - 1];
        if verify_kind(it) && strategy_category(items, it) == c {
            let st = it.status@;
            (
                r.0 + 1,
                if st == "done"@ { r.1 + 1 } else { r.1 },
                if st == "failed"@ || st == "canceled"@ { r.2 + 1 } else { r.2 },
                if st == "pending"@ || st == "running"@ { r.3 + 1 } else { r.3 },
            )
        } else {
            r
        }
    }
}

proof fn lemma_counts_bound(items: Seq<VmExecQueueItem>, n: int, c: Seq<char>)
    requires
        0 <= n,
    ensures
        strat_counts(items, n, c).0 <= n,
        strat_counts(items, n, c).1 <= strat_counts(items, n, c).0,
        strat_counts(items, n, c).2 <= strat_counts(items, n, c).0,
        strat_counts(items, n, c).3 <= strat_counts(items, n, c).0,
    decreases n,
{
    if n > 0 {
        lemma_counts_bound(items, n - 1, c);
    }
}

/// Row `a` comes before row `b`: more attempts first, then by category.
pub open spec fn stat_before(a: VmSelfDebugStrategyStat, b: VmSelfDebugStrategyStat) -> bool {
    a.attempts > b.attempts || (a.attempts == b.attempts && lex_lt(a.category@, b.category@))
}

/// The rows as `collect_self_debug_strategy_stats` lists them: one per
/// category with an attempt, each with its counts, in `stat_before` order.
pub open spec fn stats_listing(items: Seq<VmExecQueueItem>, r: Seq<VmSelfDebugStrategyStat>) -> bool {
    &&& forall|p: int| 0 <= p < r.len() ==> strat_counts(items, items.len() as int, (#[trigger] r[p]).category@).0 > 0
            && stat_counts(r[p]) == strat_counts(items, items.len() as int, r[p].category@)
    &&& forall|c: Seq<char>| strat_counts(items, items.len() as int, c).0 > 0 ==> exists|p: int| 0 <= p < r.len() && (#[trigger] r[p]).category@ == c
    &&& forall|p: int, q: int| 0 <= p < q < r.len() ==> stat_before(#[trigger] r[p], #[trigger] r[q])
}

/// The category recorded for trigger task `key` (see `trigger_category`).
fn category_for(items: &[VmExecQueueItem], key: &Vec<char>) -> (r: Vec<char>)
    ensures
        r@ == (match trigger_category(items@, items@.len() as int, key@) {
            Some(c) => c,
            None => "unknown_failure"@,
        }),
{
    let mut n: usize = items.len();
    while n > 0
        invariant
            n <= items.len(),
            trigger_category(items@, items@.len() as int, key@) == trigger_category(items@, n as int, key@),
        decreases n,
    {
        let it = &items[n - 1];
        let id = chars_of(it.id.as_str());
        let cat = chars_of(it.failure_category.as_str());
        if trim_chars(&id).len() > 0 && trim_chars(&cat).len() > 0 && chars_eq(&id, key) {
            return cat;
        }
        n -= 1;
    }
    chars_of("unknown_failure")
}

fn bump_stat(s: &mut VmSelfDebugStrategyStat, status: &str)
    requires
        old(s).attempts < usize::MAX,
        old(s).verified_success <= old(s).attempts,
        old(s).verified_fail <= old(s).attempts,
        old(s).pending <= old(s).attempts,
    ensures
        final(s).category@ == old(s).category@,
        stat_counts(*final(s)) == (
            old(s).attempts as nat + 1,
            if status@ == "done"@ { old(s).verified_success as nat + 1 } else { old(s).verified_success as nat },
            if status@ == "failed"@ || status@ == "canceled"@ { old(s).verified_fail as nat + 1 } else { old(s).verified_fail as nat },
            if status@ == "pending"@ || status@ == "running"@ { old(s).pending as nat + 1 } else { old(s).pending as nat },
        ),
{
    s.attempts = s.attempts + 1;
    if str_eq(status, "done") {
        s.verified_success = s.verified_success + 1;
    }
    if str_eq(status, "failed") || str_eq(status, "canceled") {
        s.verified_fail = s.verified_fail + 1;
    }
    if str_eq(status, "pending") || str_eq(status, "running") {
        s.pending = s.pending + 1;
    }
}

fn find_stat(acc: &Vec<VmSelfDebugStrategyStat>, key: &Vec<char>) -> (r: Option<usize>)
    ensures
        r matches Some(p) ==> p < acc.len() && acc@[p as int].category@ == key@,
        r is None ==> forall|p: int| 0 <= p < acc.len() ==> acc@[p].category@ != key@,
{
    let mut p: usize = 0;
    while p < acc.len()
        invariant
            p <= acc.len(),
            forall|q: int| 0 <= q < p ==> acc@[q].category@ != key@,
        decreases acc.len() - p,
    {
        if chars_eq(&chars_of(acc[p].category.as_str()), key) {
            return Some(p);
        }
        p += 1;
    }
    None
}

proof fn lemma_counts_zero_unlisted(items: Seq<VmExecQueueItem>, n: int, c: Seq<char>)
    requires
        0 <= n,
        strat_counts(items, n, c).0 == 0,
    ensures
        strat_counts(items, n, c) == (0nat, 0nat, 0nat, 0nat),
{
    lemma_counts_bound(items, n, c);
}

fn accumulate_stats(items: &[VmExecQueueItem]) -> (acc: Vec<VmSelfDebugStrategyStat>)
    ensures
        forall|p: int| 0 <= p < acc.len() ==> strat_counts(items@, items@.len() as int, (#[trigger] acc@[p]).category@).0 > 0
            && stat_counts(acc@[p]) == strat_counts(items@, items@.len() as int, acc@[p].category@),
        forall|c: Seq<char>| strat_counts(items@, items@.len() as int, c).0 > 0 ==> exists|p: int| 0 <= p < acc.len() && (#[trigger] acc@[p]).category@ == c,
        forall|p: int, q: int| 0 <= p < q < acc.len() ==> (#[trigger] acc@[p]).category@ != (#[trigger] acc@[q]).category@,
{
    let mut acc: Vec<VmSelfDebugStrategyStat> = Vec::new();
    let mut i: usize = 0;
    while i < items.len()
        invariant
            i <= items.len(),
            forall|p: int| 0 <= p < acc.len() ==> strat_counts(items@, i as int, (#[trigger] acc@[p]).category@).0 > 0
                && stat_counts(acc@[p]) == strat_counts(items@, i as int, acc@[p].category@),
            forall|c: Seq<char>| #[trigger] strat_counts(items@, i as int, c).0 > 0 ==> exists|p: int| 0 <= p < acc.len() && (#[trigger] acc@[p]).category@ == c,
            forall|p: int, q: int| 0 <= p < q < acc.len() ==> (#[trigger] acc@[p]).category@ != (#[trigger] acc@[q]).category@,
        decreases items.len() - i,
    {
        let it = &items[i];
        let ghost before = acc@;
        let ghost hit = verify_kind(items@[i as int]);
        let ghost mut pos: int = -1;
        let ghost mut key_v: Seq<char> = Seq::empty();
        if str_eq(it.run_kind.as_str(), "self_debug_verify_after_strategy") {
            let trig = trim_chars(&chars_of(it.trigger_task_id.as_str()));
            let key = category_for(items, &trig);
            proof {
                key_v = key@;
                assert(key@ == strategy_category(items@, items@[i as int]));
            }
            match find_stat(&acc, &key) {
                Some(p) => {
                    let mut sm = acc.remove(p);
                    proof {
                        lemma_counts_bound(items@, i as int, key@);
                    }
                    bump_stat(&mut sm, it.status.as_str());
                    acc.insert(p, sm);
                    proof {
                        pos = p as int;
                    }
                },
                None => {
                    proof {
                        if strat_counts(items@, i as int, key@).0 > 0 {
                            let q = choose|q: int| 0 <= q < before.len() && (#[trigger] before[q]).category@ == key@;
                        }
                        lemma_counts_zero_unlisted(items@, i as int, key@);
                    }
                    let mut sm = VmSelfDebugStrategyStat {
                        category: string_of(key.as_slice()),
                        attempts: 0,
                        verified_success: 0,
                        verified_fail: 0,
                        pending: 0,
                    };
                    bump_stat(&mut sm, it.status.as_str());
                    acc.push(sm);
                    proof {
                        pos = before.len() as int;
                    }
                },
            }
        }
        proof {
            let n1 = i + 1;
            assert(pos >= 0 <==> hit);
            assert(hit ==> 0 <= pos < acc.len() && acc@[pos].category@ == key_v);
            assert(forall|q: int| 0 <= q < acc.len() && q != pos ==> acc@[q] == before[q]);
            assert forall|q: int| 0 <= q < acc.len() implies strat_counts(items@, n1 as int, (#[trigger] acc@[q]).category@).0 > 0
                && stat_counts(acc@[q]) == strat_counts(items@, n1 as int, acc@[q].category@) by {
                if q != pos {
                    assert(acc@[q] == before[q]);
                    if hit && pos < before.len() {
                        assert(before[pos].category@ == key_v);
                    }
                }
            }
            assert forall|c: Seq<char>| #[trigger] strat_counts(items@, n1 as int, c).0 > 0 implies exists|p: int| 0 <= p < acc.len() && (#[trigger] acc@[p]).category@ == c by {
                if strat_counts(items@, i as int, c).0 > 0 {
                    let q = choose|q: int| 0 <= q < before.len() && (#[trigger] before[q]).category@ == c;
                    if q != pos {
                        assert(acc@[q] == before[q]);
                    }
                    assert(acc@[q].category@ == c);
                } else {
                    assert(acc@[pos].category@ == c);
                }
            }
            assert forall|p: int, q: int| 0 <= p < q < acc.len() implies (#[trigger] acc@[p]).category@ != (#[trigger] acc@[q]).category@ by {
                if p != pos && q != pos {
                    assert(acc@[p] == before[p] && acc@[q] == before[q]);
                } else if hit && pos == before.len() {
                    if p == pos {
                        assert(acc@[q] == before[q]);
                    } else {
                        assert(acc@[p] == before[p]);
                    }
                } else if p == pos {
                    assert(acc@[q] == before[q]);
                    assert(acc@[p].category@ == before[p].category@);
                } else {
                    assert(acc@[p] == before[p]);
                    assert(acc@[q].category@ == before[q].category@);
                }
            }
        }
        i += 1;
    }
    acc
}

proof fn lemma_stat_before_trans(a: VmSelfDebugStrategyStat, b: VmSelfDebugStrategyStat, c: VmSelfDebugStrategyStat)
    requires
        stat_before(a, b),
        stat_before(b, c),
    ensures
        stat_before(a, c),
{
    if a.attempts == b.attempts && b.attempts == c.attempts {
        lemma_lex_trans(a.category@, b.category@, c.category@);
    }
}

proof fn lemma_stat_before_total(a: VmSelfDebugStrategyStat, b: VmSelfDebugStrategyStat)
    requires
        a.category@ != b.category@,
    ensures
        stat_before(a, b) || stat_before(b, a),
        !(stat_before(a, b) && stat_before(b, a)),
{
    lemma_lex_total(a.category@, b.category@);
}

fn stats_in_order(a: &VmSelfDebugStrategyStat, b: &VmSelfDebugStrategyStat) -> (r: bool)
    ensures
        r == stat_before(*a, *b),
{
    if a.attempts > b.attempts {
        return true;
    }
    if a.attempts < b.attempts {
        return false;
    }
    lex_order(&chars_of(a.category.as_str()), &chars_of(b.category.as_str())) == -1
}

/// Strictly sorted by `stat_before`.
pub open spec fn stats_sorted(v: Seq<VmSelfDebugStrategyStat>) -> bool {
    forall|p: int, q: int| 0 <= p < q < v.len() ==> stat_before(#[trigger] v[p], #[trigger] v[q])
}

fn insert_stat_sorted(out: &mut Vec<VmSelfDebugStrategyStat>, e: VmSelfDebugStrategyStat)
    requires
        stats_sorted(old(out)@),
        forall|k: int| 0 <= k < old(out)@.len() ==> (#[trigger] old(out)@[k]).category@ != e.category@,
    ensures
        stats_sorted(final(out)@),
        exists|p: int| 0 <= p <= old(out)@.len() && final(out)@ == old(out)@.insert(p, e),
{
    let mut p: usize = 0;
    while p < out.len() && stats_in_order(&out[p], &e)
        invariant
            p <= out.len(),
            out@ == old(out)@,
            forall|k: int| 0 <= k < p ==> stat_before(#[trigger] out@[k], e),
        decreases out.len() - p,
    {
        p += 1;
    }
    proof {
        if p < out.len() {
            lemma_stat_before_total(out@[p as int], e);
            assert forall|k: int| p < k < out.len() implies stat_before(e, #[trigger] out@[k]) by {
                lemma_stat_before_trans(e, out@[p as int], out@[k]);
            }
        }
    }
    let ghost before = out@;
    out.insert(p, e);
    proof {
        assert forall|a: int, b: int| 0 <= a < b < out.len() implies stat_before(#[trigger] out@[a], #[trigger] out@[b]) by {
            if a < p && b < p {
                assert(out@[a] == before[a] && out@[b] == before[b]);
            } else if a < p && b == p {
            } else if a < p {
                assert(out@[a] == before[a] && out@[b] == before[b - 1]);
                lemma_stat_before_trans(before[a], e, before[b - 1]);
            } else if a == p {
                assert(out@[b] == before[b - 1]);
            } else {
                assert(out@[a] == before[a - 1] && out@[b] == before[b - 1]);
            }
        }
        assert(out@ == before.insert(p as int, e));
    }
}

/// Every element of `out` is one of `orig[lo..]`, and every one of those is in `out`.
pub open spec fn stats_hold_tail(out: Seq<VmSelfDebugStrategyStat>, orig: Seq<VmSelfDebugStrategyStat>, lo: int) -> bool {
    &&& forall|k: int| 0 <= k < out.len() ==> exists|m: int| lo <= m < orig.len() && #[trigger] out[k] == #[trigger] orig[m]
    &&& forall|m: int| lo <= m < orig.len() ==> exists|k: int| 0 <= k < out.len() && #[trigger] out[k] == #[trigger] orig[m]
}

proof fn lemma_hold_tail_insert(before: Seq<VmSelfDebugStrategyStat>, orig: Seq<VmSelfDebugStrategyStat>, n0: int, p: int)
    requires
        1 <= n0 <= orig.len(),
        0 <= p <= before.len(),
        stats_hold_tail(before, orig, n0),
    ensures
        stats_hold_tail(before.insert(p, orig[n0 - 1]), orig, n0 - 1),
{
    let e = orig[n0 - 1];
    let out = before.insert(p, e);
    assert forall|k: int| 0 <= k < out.len() implies exists|m: int| n0 - 1 <= m < orig.len() && #[trigger] out[k] == #[trigger] orig[m] by {
        if k < p {
            let m = choose|m: int| n0 <= m < orig.len() && #[trigger] before[k] == #[trigger] orig[m];
            assert(out[k] == orig[m]);
        } else if k == p {
            assert(out[k] == orig[n0 - 1]);
        } else {
            let m = choose|m: int| n0 <= m < orig.len() && #[trigger] before[k - 1] == #[trigger] orig[m];
            assert(out[k] == orig[m]);
        }
    }
    assert forall|m: int| n0 - 1 <= m < orig.len() implies exists|k: int| 0 <= k < out.len() && #[trigger] out[k] == #[trigger] orig[m] by {
        if m == n0 - 1 {
            assert(out[p] == orig[m]);
        } else {
            let k = choose|k: int| 0 <= k < before.len() && #[trigger] before[k] == #[trigger] orig[m];
            if k < p {
                assert(out[k] == orig[m]);
            } else {
                assert(out[k + 1] == orig[m]);
            }
        }
    }
}

fn sort_stats(input: Vec<VmSelfDebugStrategyStat>) -> (out: Vec<VmSelfDebugStrategyStat>)
    requires
        forall|p: int, q: int| 0 <= p < q < input.len() ==> (#[trigger] input@[p]).category@ != (#[trigger] input@[q]).category@,
    ensures
        stats_hold_tail(out@, input@, 0),
        stats_sorted(out@),
{
    let ghost orig = input@;
    let mut acc = input;
    let mut out: Vec<VmSelfDebugStrategyStat> = Vec::new();
    while acc.len() > 0
        invariant
            acc@ == orig.take(acc.len() as int),
            acc.len() <= orig.len(),
            forall|p: int, q: int| 0 <= p < q < orig.len() ==> (#[trigger] orig[p]).category@ != (#[trigger] orig[q]).category@,
            stats_hold_tail(out@, orig, acc.len() as int),
            stats_sorted(out@),
        decreases acc.len(),
    {
        let ghost n0 = acc.len() as int;
        let e = acc.pop().unwrap();
        assert(e == orig[n0 - 1]);
        assert(acc@ =~= orig.take(n0 - 1));
        proof {
            assert forall|k: int| 0 <= k < out.len() implies (#[trigger] out@[k]).category@ != e.category@ by {
                let m = choose|m: int| n0 <= m < orig.len() && #[trigger] out@[k] == #[trigger] orig[m];
                assert(orig[n0 - 1].category@ != orig[m].category@);
            }
        }
        let ghost before = out@;
        insert_stat_sorted(&mut out, e);
        proof {
            let p = choose|p: int| 0 <= p <= before.len() && out@ == before.insert(p, e);
            lemma_hold_tail_insert(before, orig, n0, p);
        }
    }
    out
}

/// How the strategy verifications went, per failure category of the task
/// that triggered them: one row per category, most attempts first, ties by
/// category.
pub fn collect_self_debug_strategy_stats(items: &[VmExecQueueItem]) -> (r: Vec<VmSelfDebugStrategyStat>)
    ensures
        stats_listing(items@, r@),
{
    let acc = accumulate_stats(items);
    let ghost a = acc@;
    let ghost n = items@.len() as int;
    let out = sort_stats(acc);
    proof {
        assert forall|p: int| 0 <= p < out.len() implies strat_counts(items@, n, (#[trigger] out@[p]).category@).0 > 0
            && stat_counts(out@[p]) == strat_counts(items@, n, out@[p].category@) by {
            let m = choose|m: int| 0 <= m < a.len() && #[trigger] out@[p] == #[trigger] a[m];
            assert(strat_counts(items@, n, a[m].category@).0 > 0);
        }
        assert forall|c: Seq<char>| strat_counts(items@, n, c).0 > 0 implies exists|p: int| 0 <= p < out.len() && (#[trigger] out@[p]).category@ == c by {
            let m = choose|m: int| 0 <= m < a.len() && (#[trigger] a[m]).category@ == c;
            let k = choose|k: int| 0 <= k < out.len() && #[trigger] out@[k] == #[trigger] a[m];
        }
    }
    out
}

/// The priority boost earned by category `c`'s strategy: nothing below three
/// attempts or without a settled verification; otherwise 3, 2 or 1 for a
/// success rate of at least 80, 60 or 40 percent of the settled ones.
pub open spec fn boost_spec(items: Seq<VmExecQueueItem>, c: Seq<char>) -> i32 {
    let k = strat_counts(items, items.len() as int, c);
    let denom = k.1 + k.2;
    if k.0 < 3 || denom == 0 {
        0
    } else if k.1 * 100 >= 80 * denom {
        3
    } else if k.1 * 100 >= 60 * denom {
        2
    } else if k.1 * 100 >= 40 * denom {
        1
    } else {
        0
    }
}

/// The priority boost that the statistics of `category`'s strategy earn
/// (see `boost_spec`; the success rate is compared exactly, as a fraction).
pub fn strategy_priority_boost_by_stats(items: &[VmExecQueueItem], category: &str) -> (b: i32)
    ensures
        b == boost_spec(items@, category@),
{
    let stats = collect_self_debug_strategy_stats(items);
    let key = chars_of(category);
    let ghost n = items@.len() as int;
    let mut p: usize = 0;
    while p < stats.len() && !chars_eq(&chars_of(stats[p].category.as_str()), &key)
        invariant
            p <= stats.len(),
            key@ == category@,
            forall|q: int| 0 <= q < p ==> stats@[q].category@ != category@,
        decreases stats.len() - p,
    {
        p += 1;
    }
    if p == stats.len() {
        proof {
            if strat_counts(items@, n, category@).0 > 0 {
                let q = choose|q: int| 0 <= q < stats.len() && (#[trigger] stats@[q]).category@ == category@;
            }
        }
        return 0;
    }
    let row = &stats[p];
    assert(stat_counts(*row) == strat_counts(items@, n, category@));
    if row.attempts < 3 {
        return 0;
    }
    proof {
        lemma_counts_bound(items@, n, category@);
    }
    let ok = row.verified_success as u128;
    let denom = row.verified_success as u128 + row.verified_fail as u128;
    if denom == 0 {
        return 0;
    }
    if ok * 100 >= 80 * denom {
        3
    } else if ok * 100 >= 60 * denom {
        2
    } else if ok * 100 >= 40 * denom {
        1
    } else {
        0
    }
}

/// The views of rule pairs.
pub open spec fn rules_view(raw: Seq<(String, String)>) -> Seq<(Seq<char>, Seq<char>)> {
    raw.map_values(|p: (String, String)| (p.0@, p.1@))
}

/// The command of the first rule for category `k`, if any.
pub open spec fn rule_lookup(raw: Seq<(Seq<char>, Seq<char>)>, k: Seq<char>) -> Option<Seq<char>>
    decreases raw.len(),
{
    if raw.len() == 0 {
        None
    } else if raw[0].0 == k {
        Some(raw[0].1)
    } else {
        rule_lookup(raw.drop_first(), k)
    }
}

/// The failure categories that may carry a strategy rule, in order.
pub open spec fn allowed_rule_keys() -> Seq<Seq<char>> {
    seq![
        "build_error"@,
        "missing_dependency"@,
        "permission"@,
        "runtime_exception"@,
        "test_failure"@,
        "timeout"@,
        "unknown_failure"@,
    ]
}

/// The sanitized rules for `keys`: for each key with a rule whose trimmed
/// command is non-empty and at most 2000 bytes, the key and that command.
pub open spec fn sanitized_rules(raw: Seq<(Seq<char>, Seq<char>)>, keys: Seq<Seq<char>>) -> Seq<(Seq<char>, Seq<char>)>
    decreases keys.len(),
{
    if keys.len() == 0 {
        Seq::empty()
    } else {
        let prev = sanitized_rules(raw, keys.drop_last());
        let k = keys.last();
        match rule_lookup(raw, k) {
            Some(v) => {
                let t = trim_seq(v);
                if t.len() > 0 && utf8_len(t) <= 2000 {
                    prev.push((k, t))
                } else {
                    prev
                }
            },
            None => prev,
        }
    }
}

fn find_rule(raw: &[(String, String)], key: &str) -> (r: Option<usize>)
    ensures
        r matches Some(i) ==> i < raw.len() && rule_lookup(rules_view(raw@), key@) == Some(raw@[i as int].1@),
        r is None ==> rule_lookup(rules_view(raw@), key@) is None,
{
    let ghost rv = rules_view(raw@);
    let mut i: usize = 0;
    assert(rv.skip(0) =~= rv);
    while i < raw.len()
        invariant
            i <= raw.len(),
            rv == rules_view(raw@),
            rule_lookup(rv, key@) == rule_lookup(rv.skip(i as int), key@),
        decreases raw.len() - i,
    {
        assert(rv.skip(i as int)[0] == rv[i as int]);
        if str_eq(raw[i].0.as_str(), key) {
            return Some(i);
        }
        assert(rv.skip(i as int).drop_first() =~= rv.skip(i + 1));
        i += 1;
    }
    None
}

/// Keeps the rules of the allowed categories (see `sanitized_rules`), in
/// category order, each command trimmed.
pub fn sanitize_strategy_rules(raw: &[(String, String)]) -> (r: Vec<(String, String)>)
    ensures
        rules_view(r@) == sanitized_rules(rules_view(raw@), allowed_rule_keys()),
{
    let keys: Vec<&str> = vec![
        "build_error",
        "missing_dependency",
        "permission",
        "runtime_exception",
        "test_failure",
        "timeout",
        "unknown_failure",
    ];
    let ghost kv = keys@.map_values(|k: &str| k@);
    assert(kv =~= allowed_rule_keys());
    let mut out: Vec<(String, String)> = Vec::new();
    let mut i: usize = 0;
    assert(kv.take(0) =~= Seq::<Seq<char>>::empty());
    assert(rules_view(out@) =~= Seq::<(Seq<char>, Seq<char>)>::empty());
    while i < keys.len()
        invariant
            i <= keys.len(),
            kv == keys@.map_values(|k: &str| k@),
            rules_view(out@) == sanitized_rules(rules_view(raw@), kv.take(i as int)),
        decreases keys.len() - i,
    {
        let key = keys[i];
        assert(kv.take(i + 1).drop_last() =~= kv.take(i as int));
        assert(kv.take(i + 1).last() == key@);
        match find_rule(raw, key) {
            Some(j) => {
                let t = trim_chars(&chars_of(raw[j].1.as_str()));
                if t.len() > 0 && !bytes_exceed(&t, 2000) {
                    let ghost before = rules_view(out@);
                    out.push((key.to_owned(), string_of(t.as_slice())));
                    assert(rules_view(out@) =~= before.push((key@, t@)));
                }
            },
            None => {},
        }
        i += 1;
    }
    assert(kv.take(keys.len() as int) =~= kv);
    out
}

/// The command a strategy runs for `category`: its rule's trimmed command
/// when that is non-empty, else the built-in default.
pub open spec fn strategy_command_spec(rules: Seq<(Seq<char>, Seq<char>)>, category: Seq<char>) -> Seq<char> {
    match rule_lookup(rules, category) {
        Some(v) => if trim_seq(v).len() > 0 { trim_seq(v) } else { default_strategy_spec(category) },
        None => default_strategy_spec(category),
    }
}

/// The command the strategy for `category` runs under the rules `rules`
/// (see `strategy_command_spec`).
pub fn strategy_command_for_failure_category(rules: &[(String, String)], category: &str) -> (r: String)
    ensures
        r@ == strategy_command_spec(rules_view(rules@), category@),
{
    if let Some(j) = find_rule(rules, category) {
        let t = trim_chars(&chars_of(rules[j].1.as_str()));
        if t.len() > 0 {
            return string_of(t.as_slice());
        }
    }
    default_strategy_command_for_failure_category(category).to_owned()
}

/// The boost a strategy's statistics earn is between 0 and 3.
pub proof fn strategy_boost_in_range(items: Seq<VmExecQueueItem>, c: Seq<char>)
    ensures
        0 <= boost_spec(items, c) <= 3,
{
}

} // verus!
