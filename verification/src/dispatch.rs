//! Dispatching queued VM tasks: which VMs get a worker next, and the trace
//! of each dispatch decision.

use vstd::prelude::*;
use crate::text::{chars_of, lex_lt, lex_order, lemma_lex_total, lemma_lex_trans, str_eq};
use crate::vm_policy::VmPolicyScheduler;
use crate::vm_queue::{VmExecQueueItem, aged_priority_spec, effective_priority_with_aging};

verus! {

/// The most dispatch decisions the trace keeps.
pub const VM_DISPATCH_TRACE_MAX_ENTRIES: usize = 120;

/// How a VM with pending work ranks for dispatch.
#[derive(Debug, Clone)]
pub struct DispatchCandidateScore {
    pub vm_name: String,
    pub base_priority: i32,
    pub effective_priority: i32,
    pub oldest_pending_age_sec: u64,
    pub oldest_created: u64,
}

/// A task that may start now.
pub open spec fn ready(it: VmExecQueueItem, now: u64) -> bool {
    it.status@ == "pending"@ && now >= it.next_run_after_unix
}

/// Some task of the queue is running.
pub open spec fn has_running(items: Seq<VmExecQueueItem>) -> bool {
    exists|j: int| 0 <= j < items.len() && (#[trigger] items[j]).status@ == "running"@
}

/// The best base and aged priorities and the oldest creation time of the
/// ready tasks among the first `n`; -101, -101 and `u64::MAX` when none is.
pub open spec fn best_ready(items: Seq<VmExecQueueItem>, n: int, now: u64, step: u64, boost: i32) -> (int, int, int)
    decreases n,
{
    if n <= 0 {
        (-101, -101, u64::MAX as int)
    } else {
        let r = best_ready(items, n - 1, now, step, boost);
        let it = items[n - 1];
        if ready(it, now) {
            let e = aged_priority_spec(it.priority, it.created_at_unix, now, step, boost);
            (
                if it.priority > r.0 { it.priority as int } else { r.0 },
                if e > r.1 { e } else { r.1 },
                if it.created_at_unix < r.2 { it.created_at_unix as int } else { r.2 },
            )
        } else {
            r
        }
    }
}

/// `c` is the candidate of VM `name` with queue `items`: no task running,
/// some task ready, and the scores of the ready ones.
pub open spec fn is_candidate(c: DispatchCandidateScore, name: Seq<char>, items: Seq<VmExecQueueItem>, now: u64, s: VmPolicyScheduler) -> bool {
    let b = best_ready(items, items.len() as int, now, s.priority_aging_step_sec, s.priority_aging_max_boost);
    &&& c.vm_name@ == name
    &&& c.base_priority == b.0
    &&& c.effective_priority == b.1
    &&& c.oldest_created == b.2
    &&& c.oldest_pending_age_sec == (if b.2 == u64::MAX { 0 } else if now >= b.2 { now - b.2 } else { 0 })
}

/// VM `name` with queue `items` is a candidate: nothing running, something ready.
pub open spec fn wants_dispatch(items: Seq<VmExecQueueItem>, now: u64, s: VmPolicyScheduler) -> bool {
    !has_running(items) && best_ready(items, items.len() as int, now, s.priority_aging_step_sec, s.priority_aging_max_boost).1 >= -100
}

proof fn lemma_best_bounds(items: Seq<VmExecQueueItem>, n: int, now: u64, step: u64, boost: i32)
    requires
        0 <= n,
    ensures
        ({
            let b = best_ready(items, n, now, step, boost);
            &&& i32::MIN <= b.0 <= i32::MAX
            &&& -101 <= b.1 <= 100
            &&& 0 <= b.2 <= u64::MAX
        }),
    decreases n,
{
    if n > 0 {
        lemma_best_bounds(items, n - 1, now, step, boost);
    }
}

/// The candidate score of one VM's queue, or `None` when a task is running
/// or none is ready.
pub fn dispatch_candidate(vm_name: &str, items: &[VmExecQueueItem], now: u64, s: &VmPolicyScheduler) -> (r: Option<DispatchCandidateScore>)
    ensures
        wants_dispatch(items@, now, *s) ==> (r matches Some(c) && is_candidate(c, vm_name@, items@, now, *s)),
        !wants_dispatch(items@, now, *s) ==> r is None,
{
    let mut j: usize = 0;
    while j < items.len()
        invariant
            j <= items.len(),
            forall|k: int| 0 <= k < j ==> (#[trigger] items@[k]).status@ != "running"@,
        decreases items.len() - j,
    {
        if str_eq(items[j].status.as_str(), "running") {
            assert(has_running(items@));
            return None;
        }
        j += 1;
    }
    let step = s.priority_aging_step_sec;
    let boost = s.priority_aging_max_boost;
    let mut best_base: i32 = -101;
    let mut best_eff: i32 = -101;
    let mut oldest: u64 = u64::MAX;
    let mut i: usize = 0;
    while i < items.len()
        invariant
            i <= items.len(),
            step == s.priority_aging_step_sec,
            boost == s.priority_aging_max_boost,
            best_ready(items@, i as int, now, step, boost) == (best_base as int, best_eff as int, oldest as int),
        decreases items.len() - i,
    {
        let it = &items[i];
        if str_eq(it.status.as_str(), "pending") && now >= it.next_run_after_unix {
            if it.priority > best_base {
                best_base = it.priority;
            }
            let e = effective_priority_with_aging(it, now, step, boost);
            if e > best_eff {
                best_eff = e;
            }
            if it.created_at_unix < oldest {
                oldest = it.created_at_unix;
            }
        }
        i += 1;
    }
    proof {
        assert(!has_running(items@));
    }
    if best_eff < -100 {
        return None;
    }
    let age = if oldest == u64::MAX { 0 } else if now >= oldest { now - oldest } else { 0 };
    Some(DispatchCandidateScore {
        vm_name: vm_name.to_owned(),
        base_priority: best_base,
        effective_priority: best_eff,
        oldest_pending_age_sec: age,
        oldest_created: oldest,
    })
}

/// Candidate `a` goes before `b`: higher aged priority, then older work,
/// then by VM name.
pub open spec fn cand_before(a: DispatchCandidateScore, b: DispatchCandidateScore) -> bool {
    a.effective_priority > b.effective_priority || (a.effective_priority == b.effective_priority && (
        a.oldest_created < b.oldest_created || (a.oldest_created == b.oldest_created && lex_lt(a.vm_name@, b.vm_name@))))
}

proof fn lemma_cand_trans(a: DispatchCandidateScore, b: DispatchCandidateScore, c: DispatchCandidateScore)
    requires
        cand_before(a, b),
        cand_before(b, c),
    ensures
        cand_before(a, c),
{
    if a.effective_priority == b.effective_priority && b.effective_priority == c.effective_priority
        && a.oldest_created == b.oldest_created && b.oldest_created == c.oldest_created {
        lemma_lex_trans(a.vm_name@, b.vm_name@, c.vm_name@);
    }
}

proof fn lemma_cand_total(a: DispatchCandidateScore, b: DispatchCandidateScore)
    requires
        a.vm_name@ != b.vm_name@,
    ensures
        cand_before(a, b) || cand_before(b, a),
        !(cand_before(a, b) && cand_before(b, a)),
{
    lemma_lex_total(a.vm_name@, b.vm_name@);
}

fn cand_in_order(a: &DispatchCandidateScore, b: &DispatchCandidateScore) -> (r: bool)
    ensures
        r == cand_before(*a, *b),
{
    if a.effective_priority != b.effective_priority {
        return a.effective_priority > b.effective_priority;
    }
    if a.oldest_created != b.oldest_created {
        return a.oldest_created < b.oldest_created;
    }
    lex_order(&chars_of(a.vm_name.as_str()), &chars_of(b.vm_name.as_str())) == -1
}

/// Strictly ordered by `cand_before`.
pub open spec fn cands_sorted(v: Seq<DispatchCandidateScore>) -> bool {
    forall|p: int, q: int| 0 <= p < q < v.len() ==> cand_before(#[trigger] v[p], #[trigger] v[q])
}

fn insert_cand(out: &mut Vec<DispatchCandidateScore>, e: DispatchCandidateScore)
    requires
        cands_sorted(old(out)@),
        forall|k: int| 0 <= k < old(out)@.len() ==> (#[trigger] old(out)@[k]).vm_name@ != e.vm_name@,
    ensures
        cands_sorted(final(out)@),
        exists|p: int| 0 <= p <= old(out)@.len() && final(out)@ == old(out)@.insert(p, e),
{
    let mut p: usize = 0;
    while p < out.len() && cand_in_order(&out[p], &e)
        invariant
            p <= out.len(),
            out@ == old(out)@,
            forall|k: int| 0 <= k < p ==> cand_before(#[trigger] out@[k], e),
        decreases out.len() - p,
    {
        p += 1;
    }
    proof {
        if p < out.len() {
            lemma_cand_total(out@[p as int], e);
            assert forall|k: int| p < k < out.len() implies cand_before(e, #[trigger] out@[k]) by {
                lemma_cand_trans(e, out@[p as int], out@[k]);
            }
        }
    }
    let ghost before = out@;
    out.insert(p, e);
    proof {
        assert forall|a: int, b: int| 0 <= a < b < out.len() implies cand_before(#[trigger] out@[a], #[trigger] out@[b]) by {
            if a < p && b < p {
                assert(out@[a] == before[a] && out@[b] == before[b]);
            } else if a < p && b == p {
            } else if a < p {
                assert(out@[a] == before[a] && out@[b] == before[b - 1]);
                lemma_cand_trans(before[a], e, before[b - 1]);
            } else if a == p {
                assert(out@[b] == before[b - 1]);
            } else {
                assert(out@[a] == before[a - 1] && out@[b] == before[b - 1]);
            }
        }
        assert(out@ == before.insert(p as int, e));
    }
}

/// The VM names of the queues are pairwise distinct.
pub open spec fn distinct_names(queues: Seq<(String, Vec<VmExecQueueItem>)>) -> bool {
    forall|a: int, b: int| 0 <= a < b < queues.len() ==> (#[trigger] queues[a]).0@ != (#[trigger] queues[b]).0@
}

/// `c` is the candidate of one of the first `k` queues.
pub open spec fn cand_source(queues: Seq<(String, Vec<VmExecQueueItem>)>, k: int, now: u64, s: VmPolicyScheduler, c: DispatchCandidateScore) -> bool {
    exists|m: int| 0 <= m < k && wants_dispatch(queues[m].1@, now, s) && #[trigger] is_candidate(c, queues[m].0@, queues[m].1@, now, s)
}

/// `r` lists one candidate per VM that wants dispatch, in `cand_before` order.
pub open spec fn candidates_listing(queues: Seq<(String, Vec<VmExecQueueItem>)>, now: u64, s: VmPolicyScheduler, r: Seq<DispatchCandidateScore>) -> bool {
    &&& forall|p: int| 0 <= p < r.len() ==> cand_source(queues, queues.len() as int, now, s, #[trigger] r[p])
    &&& forall|k: int| 0 <= k < queues.len() && wants_dispatch((#[trigger] queues[k]).1@, now, s) ==> exists|p: int| 0 <= p < r.len() && (#[trigger] r[p]).vm_name@ == queues[k].0@
    &&& forall|p: int, q: int| 0 <= p < q < r.len() ==> (#[trigger] r[p]).vm_name@ != (#[trigger] r[q]).vm_name@
    &&& cands_sorted(r)
}

/// The candidates of the first `k` queues are exactly those in `out`.
pub open spec fn listed_upto(queues: Seq<(String, Vec<VmExecQueueItem>)>, k: int, now: u64, s: VmPolicyScheduler, out: Seq<DispatchCandidateScore>) -> bool {
    &&& forall|p: int| 0 <= p < out.len() ==> cand_source(queues, k, now, s, #[trigger] out[p])
    &&& forall|m: int| 0 <= m < k && wants_dispatch((#[trigger] queues[m]).1@, now, s) ==> exists|p: int| 0 <= p < out.len() && (#[trigger] out[p]).vm_name@ == queues[m].0@
}

proof fn lemma_fresh_name(queues: Seq<(String, Vec<VmExecQueueItem>)>, k: int, now: u64, s: VmPolicyScheduler, out: Seq<DispatchCandidateScore>)
    requires
        0 <= k < queues.len(),
        distinct_names(queues),
        listed_upto(queues, k, now, s, out),
    ensures
        forall|p: int| 0 <= p < out.len() ==> (#[trigger] out[p]).vm_name@ != queues[k].0@,
{
    assert forall|p: int| 0 <= p < out.len() implies (#[trigger] out[p]).vm_name@ != queues[k].0@ by {
        let m = choose|m: int| 0 <= m < k && wants_dispatch(queues[m].1@, now, s) && #[trigger] is_candidate(out[p], queues[m].0@, queues[m].1@, now, s);
        assert(queues[m].0@ != queues[k].0@);
    }
}

proof fn lemma_listed_insert(
    queues: Seq<(String, Vec<VmExecQueueItem>)>,
    k: int,
    now: u64,
    s: VmPolicyScheduler,
    before: Seq<DispatchCandidateScore>,
    pos: int,
    c: DispatchCandidateScore,
)
    requires
        0 <= k < queues.len(),
        0 <= pos <= before.len(),
        listed_upto(queues, k, now, s, before),
        wants_dispatch(queues[k].1@, now, s),
        is_candidate(c, queues[k].0@, queues[k].1@, now, s),
    ensures
        listed_upto(queues, k + 1, now, s, before.insert(pos, c)),
{
    let out = before.insert(pos, c);
    assert forall|p: int| 0 <= p < out.len() implies cand_source(queues, k + 1, now, s, #[trigger] out[p]) by {
        if p == pos {
            assert(out[p] == c);
            assert(is_candidate(out[p], queues[k].0@, queues[k].1@, now, s));
        } else {
            let q = if p < pos { p } else { p - 1 };
            assert(out[p] == before[q]);
            assert(cand_source(queues, k, now, s, before[q]));
            let m = choose|m: int| 0 <= m < k && wants_dispatch(queues[m].1@, now, s) && #[trigger] is_candidate(before[q], queues[m].0@, queues[m].1@, now, s);
            assert(is_candidate(out[p], queues[m].0@, queues[m].1@, now, s));
        }
    }
    assert forall|m: int| 0 <= m < k + 1 && wants_dispatch((#[trigger] queues[m]).1@, now, s) implies exists|p: int| 0 <= p < out.len() && (#[trigger] out[p]).vm_name@ == queues[m].0@ by {
        if m == k {
            assert(out[pos].vm_name@ == queues[m].0@);
        } else {
            let p = choose|p: int| 0 <= p < before.len() && (#[trigger] before[p]).vm_name@ == queues[m].0@;
            if p < pos {
                assert(out[p] == before[p]);
            } else {
                assert(out[p + 1] == before[p]);
            }
        }
    }
}

proof fn lemma_listed_skip(queues: Seq<(String, Vec<VmExecQueueItem>)>, k: int, now: u64, s: VmPolicyScheduler, out: Seq<DispatchCandidateScore>)
    requires
        0 <= k < queues.len(),
        listed_upto(queues, k, now, s, out),
        !wants_dispatch(queues[k].1@, now, s),
    ensures
        listed_upto(queues, k + 1, now, s, out),
{
    assert forall|p: int| 0 <= p < out.len() implies cand_source(queues, k + 1, now, s, #[trigger] out[p]) by {
        assert(cand_source(queues, k, now, s, out[p]));
        let m = choose|m: int| 0 <= m < k && wants_dispatch(queues[m].1@, now, s) && #[trigger] is_candidate(out[p], queues[m].0@, queues[m].1@, now, s);
        assert(is_candidate(out[p], queues[m].0@, queues[m].1@, now, s));
    }
    assert forall|m: int| 0 <= m < k + 1 && wants_dispatch((#[trigger] queues[m]).1@, now, s) implies exists|p: int| 0 <= p < out.len() && (#[trigger] out[p]).vm_name@ == queues[m].0@ by {
        assert(m != k);
    }
}

proof fn lemma_names_insert(before: Seq<DispatchCandidateScore>, pos: int, c: DispatchCandidateScore)
    requires
        0 <= pos <= before.len(),
        forall|p: int, q: int| 0 <= p < q < before.len() ==> (#[trigger] before[p]).vm_name@ != (#[trigger] before[q]).vm_name@,
        forall|p: int| 0 <= p < before.len() ==> (#[trigger] before[p]).vm_name@ != c.vm_name@,
    ensures
        forall|p: int, q: int| 0 <= p < q < before.insert(pos, c).len() ==> (#[trigger] before.insert(pos, c)[p]).vm_name@ != (#[trigger] before.insert(pos, c)[q]).vm_name@,
{
    let out = before.insert(pos, c);
    assert forall|p: int, q: int| 0 <= p < q < out.len() implies (#[trigger] out[p]).vm_name@ != (#[trigger] out[q]).vm_name@ by {
        if p != pos && q != pos {
            let pp = if p < pos { p } else { p - 1 };
            let qq = if q < pos { q } else { q - 1 };
            assert(out[p] == before[pp] && out[q] == before[qq]);
        } else if p == pos {
            assert(out[q] == before[q - 1]);
        } else {
            assert(out[p] == before[p]);
        }
    }
}

/// Ranks the VMs for dispatch, given each VM's name and queue: one
/// candidate per VM with no task running and a task ready, highest aged
/// priority first, then oldest ready work, then by name.
pub fn select_dispatch_vm_candidates_with_score(
    queues: &[(String, Vec<VmExecQueueItem>)],
    s: &VmPolicyScheduler,
    now: u64,
) -> (r: Vec<DispatchCandidateScore>)
    requires
        distinct_names(queues@),
    ensures
        candidates_listing(queues@, now, *s, r@),
{
    let mut out: Vec<DispatchCandidateScore> = Vec::new();
    let mut k: usize = 0;
    while k < queues.len()
        invariant
            k <= queues.len(),
            distinct_names(queues@),
            listed_upto(queues@, k as int, now, *s, out@),
            forall|p: int, q: int| 0 <= p < q < out@.len() ==> (#[trigger] out@[p]).vm_name@ != (#[trigger] out@[q]).vm_name@,
            cands_sorted(out@),
        decreases queues.len() - k,
    {
        let q = &queues[k];
        match dispatch_candidate(q.0.as_str(), q.1.as_slice(), now, s) {
            Some(c) => {
                proof {
                    lemma_fresh_name(queues@, k as int, now, *s, out@);
                }
                let ghost before = out@;
                let ghost cv = c;
                insert_cand(&mut out, c);
                proof {
                    let pos = choose|pos: int| 0 <= pos <= before.len() && out@ == before.insert(pos, cv);
                    lemma_listed_insert(queues@, k as int, now, *s, before, pos, cv);
                    lemma_names_insert(before, pos, cv);
                }
            },
            None => {
                proof {
                    lemma_listed_skip(queues@, k as int, now, *s, out@);
                }
            },
        }
        k += 1;
    }
    out
}

/// A candidate as the dispatch trace records it.
#[derive(Debug, Clone)]
pub struct VmExecDispatchTraceCandidate {
    pub vm_name: String,
    pub base_priority: i32,
    pub effective_priority: i32,
    pub oldest_pending_age_sec: u64,
    pub selected: bool,
}

/// One dispatch decision.
#[derive(Debug, Clone)]
pub struct VmExecDispatchTraceEntry {
    pub created_at_unix: u64,
    pub running_total_before: usize,
    pub running_limit: usize,
    pub available_slots: usize,
    pub selected_vms: Vec<String>,
    pub candidates: Vec<VmExecDispatchTraceCandidate>,
}

/// The running tasks of a queue.
pub open spec fn running_in(items: Seq<VmExecQueueItem>) -> nat
    decreases items.len(),
{
    if items.len() == 0 {
        0
    } else {
        running_in(items.drop_last()) + if items.last().status@ == "running"@ { 1nat } else { 0nat }
    }
}

/// The running tasks of the first `n` queues.
pub open spec fn running_total(queues: Seq<(String, Vec<VmExecQueueItem>)>, n: int) -> nat
    decreases n,
{
    if n <= 0 {
        0
    } else {
        running_total(queues, n - 1) + running_in(queues[n - 1].1@)
    }
}

proof fn lemma_running_in_bound(items: Seq<VmExecQueueItem>)
    ensures
        running_in(items) <= items.len(),
    decreases items.len(),
{
    if items.len() > 0 {
        lemma_running_in_bound(items.drop_last());
    }
}

proof fn lemma_running_total_mono(queues: Seq<(String, Vec<VmExecQueueItem>)>, a: int, b: int)
    requires
        0 <= a <= b,
    ensures
        running_total(queues, a) <= running_total(queues, b),
    decreases b - a,
{
    if a < b {
        lemma_running_total_mono(queues, a, b - 1);
    }
}

fn count_running(items: &[VmExecQueueItem]) -> (n: usize)
    ensures
        n == running_in(items@),
{
    let mut n: usize = 0;
    let mut i: usize = 0;
    assert(items@.take(0) =~= Seq::<VmExecQueueItem>::empty());
    while i < items.len()
        invariant
            i <= items.len(),
            n == running_in(items@.take(i as int)),
        decreases items.len() - i,
    {
        assert(items@.take(i + 1).drop_last() =~= items@.take(i as int));
        proof {
            lemma_running_in_bound(items@.take(i as int));
        }
        if str_eq(items[i].status.as_str(), "running") {
            n += 1;
        }
        i += 1;
    }
    assert(items@.take(items.len() as int) =~= items@);
    n
}

/// How many tasks run on all the VMs, given each VM's queue.
pub fn count_running_exec_tasks_all_vms(queues: &[(String, Vec<VmExecQueueItem>)]) -> (n: usize)
    requires
        running_total(queues@, queues@.len() as int) <= usize::MAX,
    ensures
        n == running_total(queues@, queues@.len() as int),
{
    let mut n: usize = 0;
    let mut k: usize = 0;
    while k < queues.len()
        invariant
            k <= queues.len(),
            n == running_total(queues@, k as int),
            running_total(queues@, queues@.len() as int) <= usize::MAX,
        decreases queues.len() - k,
    {
        proof {
            lemma_running_total_mono(queues@, k + 1, queues@.len() as int);
        }
        n = n + count_running(queues[k].1.as_slice());
        k += 1;
    }
    n
}

/// The trace of a dispatch at `now` with `total` tasks running out of
/// `limit`, given the ranked candidates `c`: when no slot is free, nothing
/// is selected and no candidate is listed; otherwise the first free-slots
/// candidates are selected, and every candidate is listed, marked selected
/// or not.
pub open spec fn trace_spec(e: VmExecDispatchTraceEntry, now: u64, total: nat, limit: usize, c: Seq<DispatchCandidateScore>) -> bool {
    let slots: int = if total >= limit { 0 } else { limit - total };
    &&& e.created_at_unix == now
    &&& e.running_total_before == total
    &&& e.running_limit == limit
    &&& e.available_slots == slots
    &&& (total >= limit ==> e.selected_vms@.len() == 0 && e.candidates@.len() == 0)
    &&& (total < limit ==> {
        &&& e.selected_vms@.len() == if slots < c.len() { slots } else { c.len() as int }
        &&& forall|p: int| 0 <= p < e.selected_vms@.len() ==> (#[trigger] e.selected_vms@[p])@ == c[p].vm_name@
        &&& e.candidates@.len() == c.len()
        &&& forall|p: int| 0 <= p < c.len() ==> {
            let t = #[trigger] e.candidates@[p];
            &&& t.vm_name@ == c[p].vm_name@
            &&& t.base_priority == c[p].base_priority
            &&& t.effective_priority == c[p].effective_priority
            &&& t.oldest_pending_age_sec == c[p].oldest_pending_age_sec
            &&& t.selected == (p < slots)
        }
    })
}

/// `e` records a dispatch at `now` under `limit` over the ranked
/// candidates of the queues (see `trace_spec`).
pub open spec fn dispatch_outcome(queues: Seq<(String, Vec<VmExecQueueItem>)>, s: VmPolicyScheduler, limit: usize, now: u64, e: VmExecDispatchTraceEntry) -> bool {
    exists|c: Seq<DispatchCandidateScore>| {
        &&& (running_total(queues, queues.len() as int) < limit ==> candidates_listing(queues, now, s, c))
        &&& #[trigger] trace_spec(e, now, running_total(queues, queues.len() as int), limit, c)
    }
}

/// Decides a dispatch at `now` under a limit of `running_limit` running
/// tasks, given each VM's name and queue: the VMs to start a worker for,
/// and the trace entry of the decision (see `trace_spec`).
pub fn plan_dispatch(
    queues: &[(String, Vec<VmExecQueueItem>)],
    s: &VmPolicyScheduler,
    running_limit: usize,
    now: u64,
) -> (r: (Vec<String>, VmExecDispatchTraceEntry))
    requires
        distinct_names(queues@),
        running_total(queues@, queues@.len() as int) <= usize::MAX,
    ensures
        dispatch_outcome(queues@, *s, running_limit, now, r.1),
        r.0@.len() == r.1.selected_vms@.len(),
        forall|p: int| 0 <= p < r.0@.len() ==> (#[trigger] r.0@[p])@ == r.1.selected_vms@[p]@,
{
    let total = count_running_exec_tasks_all_vms(queues);
    if total >= running_limit {
        let e = VmExecDispatchTraceEntry {
            created_at_unix: now,
            running_total_before: total,
            running_limit,
            available_slots: 0,
            selected_vms: Vec::new(),
            candidates: Vec::new(),
        };
        let ghost c0 = Seq::<DispatchCandidateScore>::empty();
        assert(trace_spec(e, now, running_total(queues@, queues@.len() as int), running_limit, c0));
        assert(dispatch_outcome(queues@, *s, running_limit, now, e));
        return (Vec::new(), e);
    }
    let slots = running_limit - total;
    let scores = select_dispatch_vm_candidates_with_score(queues, s, now);
    let mut selected: Vec<String> = Vec::new();
    let mut selected2: Vec<String> = Vec::new();
    let mut cands: Vec<VmExecDispatchTraceCandidate> = Vec::new();
    let mut p: usize = 0;
    while p < scores.len()
        invariant
            p <= scores.len(),
            selected@.len() == (if slots < p { slots as int } else { p as int }),
            selected2@.len() == selected@.len(),
            forall|j: int| 0 <= j < selected@.len() ==> (#[trigger] selected@[j])@ == scores@[j].vm_name@,
            forall|j: int| 0 <= j < selected2@.len() ==> (#[trigger] selected2@[j])@ == scores@[j].vm_name@,
            cands@.len() == p,
            forall|j: int| 0 <= j < p ==> {
                let t = #[trigger] cands@[j];
                &&& t.vm_name@ == scores@[j].vm_name@
                &&& t.base_priority == scores@[j].base_priority
                &&& t.effective_priority == scores@[j].effective_priority
                &&& t.oldest_pending_age_sec == scores@[j].oldest_pending_age_sec
                &&& t.selected == (j < slots)
            },
        decreases scores.len() - p,
    {
        let c = &scores[p];
        if p < slots {
            selected.push(c.vm_name.clone());
            selected2.push(c.vm_name.clone());
        }
        cands.push(VmExecDispatchTraceCandidate {
            vm_name: c.vm_name.clone(),
            base_priority: c.base_priority,
            effective_priority: c.effective_priority,
            oldest_pending_age_sec: c.oldest_pending_age_sec,
            selected: p < slots,
        });
        p += 1;
    }
    let e = VmExecDispatchTraceEntry {
        created_at_unix: now,
        running_total_before: total,
        running_limit,
        available_slots: slots,
        selected_vms: selected2,
        candidates: cands,
    };
    assert(trace_spec(e, now, total as nat, running_limit, scores@));
    assert(dispatch_outcome(queues@, *s, running_limit, now, e));
    (selected, e)
}

/// The trace after recording `e`: only the newest entries are kept.
pub open spec fn trace_after(entries: Seq<VmExecDispatchTraceEntry>, e: VmExecDispatchTraceEntry) -> Seq<VmExecDispatchTraceEntry> {
    let all = entries.push(e);
    if all.len() > VM_DISPATCH_TRACE_MAX_ENTRIES {
        all.skip(all.len() - VM_DISPATCH_TRACE_MAX_ENTRIES)
    } else {
        all
    }
}

/// Records a dispatch decision, dropping the oldest beyond the limit.
pub fn append_dispatch_trace_entry(entries: &mut Vec<VmExecDispatchTraceEntry>, e: VmExecDispatchTraceEntry)
    ensures
        final(entries)@ == trace_after(old(entries)@, e),
{
    entries.push(e);
    let ghost all = entries@;
    if entries.len() > VM_DISPATCH_TRACE_MAX_ENTRIES {
        let drop_count = entries.len() - VM_DISPATCH_TRACE_MAX_ENTRIES;
        let mut rest: Vec<VmExecDispatchTraceEntry> = Vec::new();
        std::mem::swap(entries, &mut rest);
        let mut i: usize = 0;
        while rest.len() > 0
            invariant
                i <= all.len(),
                all.len() <= usize::MAX,
                rest@ == all.skip(i as int),
                drop_count == all.len() - VM_DISPATCH_TRACE_MAX_ENTRIES,
                entries@ == (if i <= drop_count { Seq::<VmExecDispatchTraceEntry>::empty() } else { all.subrange(drop_count as int, i as int) }),
            decreases rest.len(),
        {
            let x = rest.remove(0);
            assert(x == all[i as int]);
            assert(rest@ =~= all.skip(i + 1));
            if i >= drop_count {
                let ghost before = entries@;
                entries.push(x);
                assert(entries@ =~= all.subrange(drop_count as int, i + 1));
            }
            i += 1;
        }
        assert(all.skip(i as int).len() == 0);
        assert(entries@ =~= all.skip(drop_count as int));
    }
}

/// The dispatch trace never holds more than its limit of entries, and a
/// recorded decision is always its newest entry.
pub proof fn dispatch_trace_bounded(entries: Seq<VmExecDispatchTraceEntry>, e: VmExecDispatchTraceEntry)
    requires
        entries.len() <= VM_DISPATCH_TRACE_MAX_ENTRIES,
    ensures
        trace_after(entries, e).len() <= VM_DISPATCH_TRACE_MAX_ENTRIES,
        trace_after(entries, e).last() == e,
{
}

} // verus!
