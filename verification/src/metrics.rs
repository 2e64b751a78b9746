//! Metrics of the runtime: latency percentiles, recent failure categories
//! and the success counts of recent minutes.

use vstd::prelude::*;
use crate::text::{chars_eq, chars_of, lex_lt, lex_order, lemma_lex_total, lemma_lex_trans, string_of, strings_view};
use crate::analytics::{
    RuntimeStatus, done_recent_counts, recent_counts, readiness_level, readiness_level_spec, readiness_score,
    readiness_score_spec, release_blockers, release_blockers_spec, release_actions, release_actions_spec,
    release_gate, release_gate_spec,
};

verus! {

broadcast use vstd::seq_lib::group_to_multiset_ensures;

/// Ascending order.
pub open spec fn nondecreasing(s: Seq<u32>) -> bool {
    forall|i: int, j: int| 0 <= i <= j < s.len() ==> s[i] <= s[j]
}

fn sorted_copy(v: &[u32]) -> (out: Vec<u32>)
    ensures
        nondecreasing(out@),
        out@.to_multiset() == v@.to_multiset(),
        out@.len() == v@.len(),
{
    let mut out: Vec<u32> = Vec::new();
    let mut i: usize = 0;
    assert(v@.take(0) =~= Seq::<u32>::empty());
    while i < v.len()
        invariant
            i <= v.len(),
            nondecreasing(out@),
            out@.len() == i,
            out@.to_multiset() == v@.take(i as int).to_multiset(),
        decreases v.len() - i,
    {
        let x = v[i];
        let mut p: usize = 0;
        while p < out.len() && out[p] <= x
            invariant
                p <= out.len(),
                forall|k: int| 0 <= k < p ==> out@[k] <= x,
            decreases out.len() - p,
        {
            p += 1;
        }
        let ghost before = out@;
        out.insert(p, x);
        proof {
            assert(v@.take(i + 1) =~= v@.take(i as int).push(x));
            assert forall|a: int, b: int| 0 <= a <= b < out@.len() implies out@[a] <= out@[b] by {
                if b < p {
                    assert(out@[a] == before[a] && out@[b] == before[b]);
                } else if b == p {
                    if a < p {
                        assert(out@[a] == before[a]);
                    }
                } else if a < p {
                    assert(out@[a] == before[a] && out@[b] == before[b - 1]);
                } else if a == p {
                    assert(out@[b] == before[b - 1]);
                    assert(before[p as int] > x);
                } else {
                    assert(out@[a] == before[a - 1] && out@[b] == before[b - 1]);
                }
            }
        }
        i += 1;
    }
    assert(v@.take(v.len() as int) =~= v@);
    out
}

/// The rank a percentile `p` picks among `n` samples (from 0).
pub open spec fn percentile_rank(n: nat, p: nat) -> int {
    ((n - 1) * (if p > 100 { 100 } else { p })) / 100
}

/// `r` is the `p`-th percentile of the samples: the sample of rank
/// `percentile_rank` in ascending order; nothing without samples or for 0.
pub open spec fn is_percentile(r: Option<u32>, samples: Seq<u32>, p: nat) -> bool {
    &&& (samples.len() == 0 || p == 0 ==> r is None)
    &&& (samples.len() > 0 && p > 0 ==> (r matches Some(x) && exists|s: Seq<u32>| {
            &&& nondecreasing(s)
            &&& s.to_multiset() == samples.to_multiset()
            &&& #[trigger] s[percentile_rank(samples.len(), p)] == x
        }))
}

/// The `p`-th percentile of the samples: the sample of rank
/// `percentile_rank` in ascending order; nothing without samples or for 0.
pub fn percentile_ms(samples: &[u32], p: usize) -> (r: Option<u32>)
    ensures
        is_percentile(r, samples@, p as nat),
{
    if samples.len() == 0 || p == 0 {
        return None;
    }
    let v = sorted_copy(samples);
    let n = v.len() as u128;
    let pp: u128 = if p > 100 { 100 } else { p as u128 };
    assert((n - 1) * pp <= 0xffff_ffff_ffff_ffff_u128 * 100) by (nonlinear_arith)
        requires n - 1 <= 0xffff_ffff_ffff_ffff_u128, pp <= 100;
    let idx128 = ((n - 1) * pp) / 100;
    proof {
        assert((n - 1) * pp <= (n - 1) * 100) by (nonlinear_arith)
            requires pp <= 100, n >= 1;
        assert(((n - 1) * pp) / 100 <= n - 1) by (nonlinear_arith)
            requires (n - 1) * pp <= (n - 1) * 100, n >= 1;
    }
    let idx = idx128 as usize;
    assert(idx as int == percentile_rank(samples@.len(), p as nat));
    let x = v[idx];
    assert(v@[idx as int] == x);
    Some(x)
}

/// A failure category and how often it occurred.
#[derive(Debug, Clone)]
pub struct CategoryCount {
    pub category: String,
    pub count: u64,
}

/// How often `c` occurs among the first `n` records within `window` seconds
/// before `now` (a record from the future counts as now).
pub open spec fn recent_count(h: Seq<(u64, String)>, n: int, window: u64, now: u64, c: Seq<char>) -> nat
    decreases n,
{
    if n <= 0 {
        0
    } else {
        let r = recent_count(h, n - 1, window, now, c);
        let (ts, cat) = h[n - 1];
        let age: int = if now >= ts { now - ts } else { 0 };
        if age <= window && cat@ == c { r + 1 } else { r }
    }
}

proof fn lemma_recent_bound(h: Seq<(u64, String)>, n: int, window: u64, now: u64, c: Seq<char>)
    requires
        0 <= n,
    ensures
        recent_count(h, n, window, now, c) <= n,
    decreases n,
{
    if n > 0 {
        lemma_recent_bound(h, n - 1, window, now, c);
    }
}

/// Row `a` comes before row `b`: more occurrences first, then by category.
pub open spec fn count_before(a: CategoryCount, b: CategoryCount) -> bool {
    a.count > b.count || (a.count == b.count && lex_lt(a.category@, b.category@))
}

/// All rows of the recent categories, one per category, in `count_before` order.
pub open spec fn counts_listing(h: Seq<(u64, String)>, window: u64, now: u64, r: Seq<CategoryCount>) -> bool {
    &&& forall|p: int| 0 <= p < r.len() ==> recent_count(h, h.len() as int, window, now, (#[trigger] r[p]).category@) > 0
            && r[p].count == recent_count(h, h.len() as int, window, now, r[p].category@)
    &&& forall|c: Seq<char>| recent_count(h, h.len() as int, window, now, c) > 0 ==> exists|p: int| 0 <= p < r.len() && (#[trigger] r[p]).category@ == c
    &&& forall|p: int, q: int| 0 <= p < q < r.len() ==> count_before(#[trigger] r[p], #[trigger] r[q])
}

fn find_category(acc: &Vec<CategoryCount>, key: &Vec<char>) -> (r: Option<usize>)
    ensures
        r matches Some(p) ==> p < acc.len() && acc@[p as int].category@ == key@,
        r is None ==> forall|p: int| 0 <= p < acc.len() ==> acc@[p].category@ != key@,
{
    let mut p: usize = 0;
    while p < acc.len()
        invariant
            p <= acc.len(),
            forall|q: int| 0 <= q < p ==> acc@[q].category@ != key@,
        decreases acc.len() - p,
    {
        if chars_eq(&chars_of(acc[p].category.as_str()), key) {
            return Some(p);
        }
        p += 1;
    }
    None
}

fn accumulate_counts(h: &[(u64, String)], window: u64, now: u64) -> (acc: Vec<CategoryCount>)
    ensures
        forall|p: int| 0 <= p < acc.len() ==> recent_count(h@, h@.len() as int, window, now, (#[trigger] acc@[p]).category@) > 0
            && acc@[p].count == recent_count(h@, h@.len() as int, window, now, acc@[p].category@),
        forall|c: Seq<char>| recent_count(h@, h@.len() as int, window, now, c) > 0 ==> exists|p: int| 0 <= p < acc.len() && (#[trigger] acc@[p]).category@ == c,
        forall|p: int, q: int| 0 <= p < q < acc.len() ==> (#[trigger] acc@[p]).category@ != (#[trigger] acc@[q]).category@,
{
    let mut acc: Vec<CategoryCount> = Vec::new();
    let mut i: usize = 0;
    while i < h.len()
        invariant
            i <= h.len(),
            forall|p: int| 0 <= p < acc.len() ==> recent_count(h@, i as int, window, now, (#[trigger] acc@[p]).category@) > 0
                && acc@[p].count == recent_count(h@, i as int, window, now, acc@[p].category@),
            forall|c: Seq<char>| #[trigger] recent_count(h@, i as int, window, now, c) > 0 ==> exists|p: int| 0 <= p < acc.len() && (#[trigger] acc@[p]).category@ == c,
            forall|p: int, q: int| 0 <= p < q < acc.len() ==> (#[trigger] acc@[p]).category@ != (#[trigger] acc@[q]).category@,
        decreases h.len() - i,
    {
        let (ts, cat) = (h[i].0, &h[i].1);
        let ghost before = acc@;
        let age = if now >= ts { now - ts } else { 0 };
        let ghost hit = age <= window;
        let ghost mut pos: int = -1;
        let key = chars_of(cat.as_str());
        if age <= window {
            match find_category(&acc, &key) {
                Some(p) => {
                    let mut row = acc.remove(p);
                    proof {
                        lemma_recent_bound(h@, i as int, window, now, key@);
                    }
                    assert(row.count < i + 1);
                    row.count = row.count + 1;
                    acc.insert(p, row);
                    proof {
                        pos = p as int;
                    }
                },
                None => {
                    proof {
                        if recent_count(h@, i as int, window, now, key@) > 0 {
                            let q = choose|q: int| 0 <= q < before.len() && (#[trigger] before[q]).category@ == key@;
                        }
                    }
                    acc.push(CategoryCount { category: string_of(key.as_slice()), count: 1 });
                    proof {
                        pos = before.len() as int;
                    }
                },
            }
        }
        proof {
            let n1 = i + 1;
            assert(h@[i as int].1@ == key@);
            assert(pos >= 0 <==> hit);
            assert(hit ==> 0 <= pos < acc.len() && acc@[pos].category@ == key@);
            assert(forall|q: int| 0 <= q < acc.len() && q != pos ==> acc@[q] == before[q]);
            assert forall|q: int| 0 <= q < acc.len() implies recent_count(h@, n1 as int, window, now, (#[trigger] acc@[q]).category@) > 0
                && acc@[q].count == recent_count(h@, n1 as int, window, now, acc@[q].category@) by {
                if q != pos {
                    assert(acc@[q] == before[q]);
                    if hit && pos < before.len() {
                        assert(before[pos].category@ == key@);
                    }
                }
            }
            assert forall|c: Seq<char>| #[trigger] recent_count(h@, n1 as int, window, now, c) > 0 implies exists|p: int| 0 <= p < acc.len() && (#[trigger] acc@[p]).category@ == c by {
                if recent_count(h@, i as int, window, now, c) > 0 {
                    let q = choose|q: int| 0 <= q < before.len() && (#[trigger] before[q]).category@ == c;
                    if q != pos {
                        assert(acc@[q] == before[q]);
                    }
                    assert(acc@[q].category@ == c);
                } else {
                    assert(acc@[pos].category@ == c);
                }
            }
            assert forall|p: int, q: int| 0 <= p < q < acc.len() implies (#[trigger] acc@[p]).category@ != (#[trigger] acc@[q]).category@ by {
                if p != pos && q != pos {
                    assert(acc@[p] == before[p] && acc@[q] == before[q]);
                } else if hit && pos == before.len() {
                    if p == pos {
                        assert(acc@[q] == before[q]);
                    } else {
                        assert(acc@[p] == before[p]);
                    }
                } else if p == pos {
                    assert(acc@[q] == before[q]);
                    assert(acc@[p].category@ == before[p].category@);
                } else {
                    assert(acc@[p] == before[p]);
                    assert(acc@[q].category@ == before[q].category@);
                }
            }
        }
        i += 1;
    }
    acc
}

proof fn lemma_count_trans(a: CategoryCount, b: CategoryCount, c: CategoryCount)
    requires
        count_before(a, b),
        count_before(b, c),
    ensures
        count_before(a, c),
{
    if a.count == b.count && b.count == c.count {
        lemma_lex_trans(a.category@, b.category@, c.category@);
    }
}

fn insert_count(out: &mut Vec<CategoryCount>, e: CategoryCount)
    requires
        forall|p: int, q: int| 0 <= p < q < old(out)@.len() ==> count_before(#[trigger] old(out)@[p], #[trigger] old(out)@[q]),
        forall|k: int| 0 <= k < old(out)@.len() ==> (#[trigger] old(out)@[k]).category@ != e.category@,
    ensures
        forall|p: int, q: int| 0 <= p < q < final(out)@.len() ==> count_before(#[trigger] final(out)@[p], #[trigger] final(out)@[q]),
        exists|p: int| 0 <= p <= old(out)@.len() && final(out)@ == old(out)@.insert(p, e),
{
    let mut p: usize = 0;
    while p < out.len() && (out[p].count > e.count
        || (out[p].count == e.count && lex_order(&chars_of(out[p].category.as_str()), &chars_of(e.category.as_str())) == -1))
        invariant
            p <= out.len(),
            out@ == old(out)@,
            forall|k: int| 0 <= k < p ==> count_before(#[trigger] out@[k], e),
        decreases out.len() - p,
    {
        p += 1;
    }
    proof {
        if p < out.len() {
            lemma_lex_total(out@[p as int].category@, e.category@);
            assert forall|k: int| p < k < out.len() implies count_before(e, #[trigger] out@[k]) by {
                lemma_count_trans(e, out@[p as int], out@[k]);
            }
        }
    }
    let ghost before = out@;
    out.insert(p, e);
    proof {
        assert forall|a: int, b: int| 0 <= a < b < out.len() implies count_before(#[trigger] out@[a], #[trigger] out@[b]) by {
            if a < p && b < p {
                assert(out@[a] == before[a] && out@[b] == before[b]);
            } else if a < p && b == p {
            } else if a < p {
                assert(out@[a] == before[a] && out@[b] == before[b - 1]);
                lemma_count_trans(before[a], e, before[b - 1]);
            } else if a == p {
                assert(out@[b] == before[b - 1]);
            } else {
                assert(out@[a] == before[a - 1] && out@[b] == before[b - 1]);
            }
        }
        assert(out@ == before.insert(p as int, e));
    }
}

/// Every element of `out` is one of `orig[lo..]`, and every one of those is in `out`.
pub open spec fn counts_hold_tail(out: Seq<CategoryCount>, orig: Seq<CategoryCount>, lo: int) -> bool {
    &&& forall|k: int| 0 <= k < out.len() ==> exists|m: int| lo <= m < orig.len() && #[trigger] out[k] == #[trigger] orig[m]
    &&& forall|m: int| lo <= m < orig.len() ==> exists|k: int| 0 <= k < out.len() && #[trigger] out[k] == #[trigger] orig[m]
}

proof fn lemma_counts_hold_insert(before: Seq<CategoryCount>, orig: Seq<CategoryCount>, n0: int, p: int)
    requires
        1 <= n0 <= orig.len(),
        0 <= p <= before.len(),
        counts_hold_tail(before, orig, n0),
    ensures
        counts_hold_tail(before.insert(p, orig[n0 - 1]), orig, n0 - 1),
{
    let e = orig[n0 - 1];
    let out = before.insert(p, e);
    assert forall|k: int| 0 <= k < out.len() implies exists|m: int| n0 - 1 <= m < orig.len() && #[trigger] out[k] == #[trigger] orig[m] by {
        if k < p {
            let m = choose|m: int| n0 <= m < orig.len() && #[trigger] before[k] == #[trigger] orig[m];
            assert(out[k] == orig[m]);
        } else if k == p {
            assert(out[k] == orig[n0 - 1]);
        } else {
            let m = choose|m: int| n0 <= m < orig.len() && #[trigger] before[k - 1] == #[trigger] orig[m];
            assert(out[k] == orig[m]);
        }
    }
    assert forall|m: int| n0 - 1 <= m < orig.len() implies exists|k: int| 0 <= k < out.len() && #[trigger] out[k] == #[trigger] orig[m] by {
        if m == n0 - 1 {
            assert(out[p] == orig[m]);
        } else {
            let k = choose|k: int| 0 <= k < before.len() && #[trigger] before[k] == #[trigger] orig[m];
            if k < p {
                assert(out[k] == orig[m]);
            } else {
                assert(out[k + 1] == orig[m]);
            }
        }
    }
}

fn sort_counts(input: Vec<CategoryCount>) -> (out: Vec<CategoryCount>)
    requires
        forall|p: int, q: int| 0 <= p < q < input.len() ==> (#[trigger] input@[p]).category@ != (#[trigger] input@[q]).category@,
    ensures
        counts_hold_tail(out@, input@, 0),
        forall|p: int, q: int| 0 <= p < q < out@.len() ==> count_before(#[trigger] out@[p], #[trigger] out@[q]),
{
    let ghost orig = input@;
    let mut acc = input;
    let mut out: Vec<CategoryCount> = Vec::new();
    while acc.len() > 0
        invariant
            acc@ == orig.take(acc.len() as int),
            acc.len() <= orig.len(),
            forall|p: int, q: int| 0 <= p < q < orig.len() ==> (#[trigger] orig[p]).category@ != (#[trigger] orig[q]).category@,
            counts_hold_tail(out@, orig, acc.len() as int),
            forall|p: int, q: int| 0 <= p < q < out@.len() ==> count_before(#[trigger] out@[p], #[trigger] out@[q]),
        decreases acc.len(),
    {
        let ghost n0 = acc.len() as int;
        let e = acc.pop().unwrap();
        assert(e == orig[n0 - 1]);
        assert(acc@ =~= orig.take(n0 - 1));
        proof {
            assert forall|k: int| 0 <= k < out.len() implies (#[trigger] out@[k]).category@ != e.category@ by {
                let m = choose|m: int| n0 <= m < orig.len() && #[trigger] out@[k] == #[trigger] orig[m];
                assert(orig[n0 - 1].category@ != orig[m].category@);
            }
        }
        let ghost before = out@;
        insert_count(&mut out, e);
        proof {
            let p = choose|p: int| 0 <= p <= before.len() && out@ == before.insert(p, e);
            lemma_counts_hold_insert(before, orig, n0, p);
        }
    }
    out
}

/// The most frequent categories of the records within `window_secs` before
/// `now`: the first 8 rows of `counts_listing`.
pub fn digest_recent_counts(history: &[(u64, String)], window_secs: u64, now: u64) -> (r: Vec<CategoryCount>)
    ensures
        exists|all: Seq<CategoryCount>| counts_listing(history@, window_secs, now, all)
            && r@ == (if all.len() > 8 { all.take(8) } else { all }),
{
    let acc = accumulate_counts(history, window_secs, now);
    let ghost a = acc@;
    let mut out = sort_counts(acc);
    let ghost all = out@;
    proof {
        let h = history@;
        let n = h.len() as int;
        assert forall|p: int| 0 <= p < all.len() implies recent_count(h, n, window_secs, now, (#[trigger] all[p]).category@) > 0
            && all[p].count == recent_count(h, n, window_secs, now, all[p].category@) by {
            let m = choose|m: int| 0 <= m < a.len() && #[trigger] all[p] == #[trigger] a[m];
            assert(recent_count(h, n, window_secs, now, a[m].category@) > 0);
        }
        assert forall|c: Seq<char>| recent_count(h, n, window_secs, now, c) > 0 implies exists|p: int| 0 <= p < all.len() && (#[trigger] all[p]).category@ == c by {
            let m = choose|m: int| 0 <= m < a.len() && (#[trigger] a[m]).category@ == c;
            let k = choose|k: int| 0 <= k < all.len() && #[trigger] all[k] == #[trigger] a[m];
        }
        assert(counts_listing(h, window_secs, now, all));
    }
    if out.len() > 8 {
        out.truncate(8);
    }
    out
}

/// The successes and records among `h` whose time lies in `[start, end)`.
pub open spec fn bucket_counts(h: Seq<(u64, bool)>, start: u64, end: u64) -> (nat, nat)
    decreases h.len(),
{
    if h.len() == 0 {
        (0, 0)
    } else {
        let r = bucket_counts(h.drop_last(), start, end);
        let (ts, ok) = h.last();
        if start <= ts && ts < end {
            (if ok { r.0 + 1 } else { r.0 }, r.1 + 1)
        } else {
            r
        }
    }
}

proof fn lemma_bucket_bound(h: Seq<(u64, bool)>, start: u64, end: u64)
    ensures
        bucket_counts(h, start, end).0 <= bucket_counts(h, start, end).1,
        bucket_counts(h, start, end).1 <= h.len(),
    decreases h.len(),
{
    if h.len() > 0 {
        lemma_bucket_bound(h.drop_last(), start, end);
    }
}

/// `a - b`, or 0 below 0.
pub open spec fn sat_sub(a: int, b: int) -> int {
    if a >= b { a - b } else { 0 }
}

/// The bucket of minute `m` (1 = the last one) as (minute, successes, records).
pub open spec fn minute_bucket(h: Seq<(u64, bool)>, m: nat, bucket_secs: u64, now: u64) -> (nat, nat, nat) {
    let start = sat_sub(now as int, m * bucket_secs);
    let end = sat_sub(now as int, (m - 1) * bucket_secs);
    let c = bucket_counts(h, start as u64, end as u64);
    (m, c.0, c.1)
}

fn count_bucket(h: &[(u64, bool)], start: u64, end: u64) -> (r: (u64, u64))
    ensures
        (r.0 as nat, r.1 as nat) == bucket_counts(h@, start, end),
{
    let mut ok: u64 = 0;
    let mut total: u64 = 0;
    let mut i: usize = 0;
    assert(h@.take(0) =~= Seq::<(u64, bool)>::empty());
    while i < h.len()
        invariant
            i <= h.len(),
            (ok as nat, total as nat) == bucket_counts(h@.take(i as int), start, end),
        decreases h.len() - i,
    {
        assert(h@.take(i + 1).drop_last() =~= h@.take(i as int));
        proof {
            lemma_bucket_bound(h@.take(i as int), start, end);
        }
        let (ts, is_ok) = h[i];
        if ts >= start && ts < end {
            total = total + 1;
            if is_ok {
                ok = ok + 1;
            }
        }
        i += 1;
    }
    assert(h@.take(h.len() as int) =~= h@);
    (ok, total)
}

fn sat_mul_sub(now: u64, k: u64, bucket_secs: u64) -> (r: u64)
    ensures
        r as int == sat_sub(now as int, k * bucket_secs),
{
    assert(k as u128 * bucket_secs as u128 <= 0xffff_ffff_ffff_ffff_u128 * 0xffff_ffff_ffff_ffff_u128) by (nonlinear_arith)
        requires k <= 0xffff_ffff_ffff_ffff_u64, bucket_secs <= 0xffff_ffff_ffff_ffff_u64;
    let prod: u128 = k as u128 * bucket_secs as u128;
    if prod >= now as u128 {
        0
    } else {
        (now as u128 - prod) as u64
    }
}

/// The successes and records of each of the last `minutes` buckets of
/// `bucket_secs` seconds before `now`, oldest first, with how many buckets
/// ago each one ends.
pub fn success_counts_series(history: &[(u64, bool)], minutes: u32, bucket_secs: u64, now: u64) -> (r: Vec<(u32, u64, u64)>)
    ensures
        r@.len() == minutes,
        forall|j: int| 0 <= j < minutes ==> {
            let b = minute_bucket(history@, (minutes - j) as nat, bucket_secs, now);
            &&& (#[trigger] r@[j]).0 as nat == b.0
            &&& r@[j].1 as nat == b.1
            &&& r@[j].2 as nat == b.2
        },
{
    let mut out: Vec<(u32, u64, u64)> = Vec::new();
    let mut i: u32 = minutes;
    while i > 0
        invariant
            i <= minutes,
            out@.len() == minutes - i,
            forall|j: int| 0 <= j < out@.len() ==> {
                let b = minute_bucket(history@, (minutes - j) as nat, bucket_secs, now);
                &&& (#[trigger] out@[j]).0 as nat == b.0
                &&& out@[j].1 as nat == b.1
                &&& out@[j].2 as nat == b.2
            },
        decreases i,
    {
        let k = i - 1;
        let start = sat_mul_sub(now, k as u64 + 1, bucket_secs);
        let end = sat_mul_sub(now, k as u64, bucket_secs);
        let (ok, total) = count_bucket(history, start, end);
        out.push((i, ok, total));
        i = k;
    }
    out
}

/// A percentile is one of the samples.
pub proof fn percentile_is_a_sample(samples: Seq<u32>, s: Seq<u32>, p: nat)
    requires
        samples.len() > 0,
        p > 0,
        s.to_multiset() == samples.to_multiset(),
    ensures
        samples.contains(s[percentile_rank(samples.len(), p)]),
{
    let k = percentile_rank(samples.len(), p);
    assert(((samples.len() - 1) * (if p > 100 { 100 } else { p })) / 100 <= samples.len() - 1) by (nonlinear_arith)
        requires samples.len() >= 1;
    assert(s.len() == samples.len()) by {
        s.to_multiset_ensures();
        samples.to_multiset_ensures();
    }
    let x = s[k];
    assert(s.contains(x));
    s.to_multiset_ensures();
    samples.to_multiset_ensures();
    assert(s.to_multiset().count(x) > 0);
    assert(samples.to_multiset().count(x) > 0);
}

/// The dashboard's figures at one moment.
#[derive(Debug)]
pub struct MetricsSnapshot {
    pub unix_time: u64,
    pub event_buffer_len: usize,
    pub next_event_id: usize,
    pub running: bool,
    pub total_events: u64,
    pub total_logs: u64,
    pub total_done_ok: u64,
    pub total_done_fail: u64,
    pub last_error: String,
    pub api_p50_ms: Option<u32>,
    pub api_p95_ms: Option<u32>,
    pub eval_p50_ms: Option<u32>,
    pub eval_p95_ms: Option<u32>,
    pub done_5m_ok: u64,
    pub done_5m_fail: u64,
    pub readiness: String,
    pub readiness_score: u8,
    pub blockers: Vec<String>,
    pub actions: Vec<String>,
    pub gate_threshold: u8,
    pub gate_passed: bool,
    pub gate_reason: String,
    pub digest_5m: Vec<CategoryCount>,
    pub root_causes_5m: Vec<CategoryCount>,
    pub success_series_5m: Vec<(u32, u64, u64)>,
}

/// The window of the recent figures, in seconds.
pub const RECENT_WINDOW_SECS: u64 = 300;

/// The figures of the dashboard: the counters of `runtime`; the outcomes
/// of the last five minutes; the p50 and p95 latencies; the readiness
/// level and score; the release blockers (with `rate_label`, the recent
/// success rate as the caller prints it), actions and gate; the most
/// frequent failure categories and root causes of the last five minutes;
/// and the outcomes of each of the last five minutes.
pub fn build_metrics(runtime: &RuntimeStatus, events_len: usize, next_id: usize, now: u64,
    rate_label: &str, gate_threshold: u8) -> (r: MetricsSnapshot)
    ensures
        r.unix_time == now && r.event_buffer_len == events_len && r.next_event_id == next_id,
        r.running == runtime.running && r.total_events == runtime.total_events && r.total_logs == runtime.total_logs,
        r.total_done_ok == runtime.total_done_ok && r.total_done_fail == runtime.total_done_fail,
        r.last_error@ == runtime.last_error@,
        is_percentile(r.api_p50_ms, runtime.api_ms_samples@, 50),
        is_percentile(r.api_p95_ms, runtime.api_ms_samples@, 95),
        is_percentile(r.eval_p50_ms, runtime.eval_ms_samples@, 50),
        is_percentile(r.eval_p95_ms, runtime.eval_ms_samples@, 95),
        (r.done_5m_ok as nat, r.done_5m_fail as nat) == recent_counts(runtime.done_history@, RECENT_WINDOW_SECS as nat, now as nat),
        r.readiness@ == readiness_level_spec(runtime.running, runtime.total_done_ok, runtime.total_done_fail, r.done_5m_ok, r.done_5m_fail),
        r.readiness_score == readiness_score_spec(runtime.running, runtime.last_error@, r.done_5m_ok as nat,
            r.done_5m_fail as nat, r.api_p95_ms, r.eval_p95_ms),
        strings_view(r.blockers@) == release_blockers_spec(runtime.last_error@, r.done_5m_ok as nat,
            r.done_5m_fail as nat, rate_label@, r.eval_p95_ms),
        strings_view(r.actions@) == release_actions_spec(runtime.last_error@, r.api_p95_ms, r.eval_p95_ms),
        r.gate_threshold == gate_threshold,
        (r.gate_passed, r.gate_reason@) == release_gate_spec(r.readiness_score, gate_threshold, strings_view(r.blockers@), runtime.running),
        exists|all: Seq<CategoryCount>| counts_listing(runtime.digest_history@, RECENT_WINDOW_SECS, now, all)
            && r.digest_5m@ == (if all.len() > 8 { all.take(8) } else { all }),
        exists|all: Seq<CategoryCount>| counts_listing(runtime.root_cause_history@, RECENT_WINDOW_SECS, now, all)
            && r.root_causes_5m@ == (if all.len() > 8 { all.take(8) } else { all }),
        r.success_series_5m@.len() == 5,
        forall|j: int| 0 <= j < 5 ==> {
            let b = minute_bucket(runtime.done_history@, (5 - j) as nat, 60, now);
            &&& (#[trigger] r.success_series_5m@[j]).0 as nat == b.0
            &&& r.success_series_5m@[j].1 as nat == b.1
            &&& r.success_series_5m@[j].2 as nat == b.2
        },
{
    let (ok5, fail5) = done_recent_counts(runtime.done_history.as_slice(), RECENT_WINDOW_SECS, now);
    assert(runtime.done_history.len() <= u64::MAX);
    let api_p50 = percentile_ms(runtime.api_ms_samples.as_slice(), 50);
    let api_p95 = percentile_ms(runtime.api_ms_samples.as_slice(), 95);
    let eval_p50 = percentile_ms(runtime.eval_ms_samples.as_slice(), 50);
    let eval_p95 = percentile_ms(runtime.eval_ms_samples.as_slice(), 95);
    let readiness = readiness_level(runtime, ok5, fail5);
    let score = readiness_score(runtime, ok5, fail5, api_p95, eval_p95);
    let blockers = release_blockers(runtime, ok5, fail5, rate_label, eval_p95);
    let actions = release_actions(runtime, api_p95, eval_p95);
    let (gate_passed, gate_reason) = release_gate(score, gate_threshold, blockers.as_slice(), runtime.running);
    let digest = digest_recent_counts(runtime.digest_history.as_slice(), RECENT_WINDOW_SECS, now);
    let roots = digest_recent_counts(runtime.root_cause_history.as_slice(), RECENT_WINDOW_SECS, now);
    let series = success_counts_series(runtime.done_history.as_slice(), 5, 60, now);
    MetricsSnapshot {
        unix_time: now,
        event_buffer_len: events_len,
        next_event_id: next_id,
        running: runtime.running,
        total_events: runtime.total_events,
        total_logs: runtime.total_logs,
        total_done_ok: runtime.total_done_ok,
        total_done_fail: runtime.total_done_fail,
        last_error: runtime.last_error.clone(),
        api_p50_ms: api_p50,
        api_p95_ms: api_p95,
        eval_p50_ms: eval_p50,
        eval_p95_ms: eval_p95,
        done_5m_ok: ok5,
        done_5m_fail: fail5,
        readiness: String::from_str(readiness),
        readiness_score: score,
        blockers: blockers,
        actions: actions,
        gate_threshold: gate_threshold,
        gate_passed: gate_passed,
        gate_reason: gate_reason,
        digest_5m: digest,
        root_causes_5m: roots,
        success_series_5m: series,
    }
}

} // verus!
