//! Running queued VM tasks: which task runs next, how it starts, and what a
//! finished run does to the queue (retries, early stops, strategies).

use vstd::prelude::*;
use crate::text::{lex_lt, lex_order, lemma_lex_trans, lemma_lex_irrefl, chars_of, decimal, int_decimal, i64_to_decimal, str_eq, trim_chars, trim_seq, u64_to_decimal, strings_view};
use crate::vm::{build_exec_output_preview, preview_spec};
use crate::self_debug::VmSelfDebugHistoryEntry;
use crate::vm_policy::VmPolicyScheduler;
use crate::vm_queue::{VmExecQueueItem, sd_kind, is_self_debug_kind, aged_priority_spec, backoff_spec, classify_failure, classify_failure_spec, effective_priority_with_aging, injected_count_spec, queue_item_from_values, retry_backoff_secs, strategy_injected_count, time_id_spec};
use crate::strategy::{boost_spec, rules_view, strategy_command_for_failure_category, strategy_command_spec, strategy_priority_boost_by_stats};

verus! {

/// What running a command on a VM gave.
#[derive(Debug, Clone)]
pub struct VmExecResponse {
    pub ok: bool,
    pub exit_code: i32,
    pub stdout: String,
    pub stderr: String,
    pub message: String,
}

/// A task that may start now.
pub open spec fn startable(it: VmExecQueueItem, now: u64) -> bool {
    it.status@ == "pending"@ && now >= it.next_run_after_unix
}

/// Task `i` goes before task `j` (`j < i`): a higher aged priority, or the
/// same and created earlier.
pub open spec fn outranks(a: VmExecQueueItem, b: VmExecQueueItem, now: u64, s: VmPolicyScheduler) -> bool {
    let pa = aged_priority_spec(a.priority, a.created_at_unix, now, s.priority_aging_step_sec, s.priority_aging_max_boost);
    let pb = aged_priority_spec(b.priority, b.created_at_unix, now, s.priority_aging_step_sec, s.priority_aging_max_boost);
    pa > pb || (pa == pb && a.created_at_unix < b.created_at_unix)
}

/// The task to run next among the first `n`: the startable one with the
/// highest aged priority, then the oldest, then the first.
pub open spec fn next_pending_spec(items: Seq<VmExecQueueItem>, n: int, now: u64, s: VmPolicyScheduler) -> Option<int>
    decreases n,
{
    if n <= 0 {
        None
    } else {
        let best = next_pending_spec(items, n - 1, now, s);
        if startable(items[n - 1], now) && (best is None || outranks(items[n - 1], items[best->Some_0], now, s)) {
            Some(n - 1)
        } else {
            best
        }
    }
}

proof fn lemma_next_pending_range(items: Seq<VmExecQueueItem>, n: int, now: u64, s: VmPolicyScheduler)
    requires
        0 <= n,
    ensures
        next_pending_spec(items, n, now, s) matches Some(k) ==> 0 <= k < n,
    decreases n,
{
    if n > 0 {
        lemma_next_pending_range(items, n - 1, now, s);
    }
}

/// The index of the task to run next (see `next_pending_spec`).
pub fn select_next_pending(items: &[VmExecQueueItem], now: u64, s: &VmPolicyScheduler) -> (r: Option<usize>)
    ensures
        match next_pending_spec(items@, items@.len() as int, now, *s) {
            Some(k) => r == Some(k as usize),
            None => r is None,
        },
{
    let mut best: Option<usize> = None;
    let mut best_p: i32 = 0;
    let mut i: usize = 0;
    while i < items.len()
        invariant
            i <= items.len(),
            match next_pending_spec(items@, i as int, now, *s) {
                Some(k) => best == Some(k as usize) && k < i && best_p == aged_priority_spec(items@[k].priority,
                    items@[k].created_at_unix, now, s.priority_aging_step_sec, s.priority_aging_max_boost),
                None => best is None,
            },
        decreases items.len() - i,
    {
        proof {
            lemma_next_pending_range(items@, i as int, now, *s);
        }
        let it = &items[i];
        if str_eq(it.status.as_str(), "pending") && now >= it.next_run_after_unix {
            let p = effective_priority_with_aging(it, now, s.priority_aging_step_sec, s.priority_aging_max_boost);
            match best {
                None => {
                    best = Some(i);
                    best_p = p;
                },
                Some(b) => {
                    if p > best_p || (p == best_p && it.created_at_unix < items[b].created_at_unix) {
                        best = Some(i);
                        best_p = p;
                    }
                },
            }
        }
        i += 1;
    }
    best
}

/// Some task of the queue is running.
pub open spec fn queue_busy(items: Seq<VmExecQueueItem>) -> bool {
    exists|i: int| 0 <= i < items.len() && (#[trigger] items[i]).status@ == "running"@
}

/// The task a VM runs next: none while one of its tasks is running, else
/// the one `next_pending_spec` picks.
pub fn next_task_to_run(items: &[VmExecQueueItem], now: u64, s: &VmPolicyScheduler) -> (r: Option<usize>)
    ensures
        queue_busy(items@) ==> r is None,
        !queue_busy(items@) ==> match next_pending_spec(items@, items@.len() as int, now, *s) {
            Some(k) => r == Some(k as usize),
            None => r is None,
        },
{
    let mut i: usize = 0;
    while i < items.len()
        invariant
            i <= items.len(),
            forall|j: int| 0 <= j < i ==> (#[trigger] items@[j]).status@ != "running"@,
        decreases items.len() - i,
    {
        if str_eq(items[i].status.as_str(), "running") {
            return None;
        }
        i += 1;
    }
    select_next_pending(items, now, s)
}

/// The timeout a task runs with (30 s by default, at most an hour) and how
/// long to wait for the VM (at most 10 minutes).
pub open spec fn launch_params_spec(it: VmExecQueueItem) -> (u64, u64) {
    (
        if it.timeout_sec == 0 { 30 } else if it.timeout_sec > 3600 { 3600 } else { it.timeout_sec },
        if it.wait_ready_sec > 600 { 600 } else { it.wait_ready_sec },
    )
}

/// What starting a task hands to the runner: its id, command, risk level
/// and tags, timeout and wait.
#[derive(Debug, Clone)]
pub struct TaskLaunch {
    pub task_id: String,
    pub command: String,
    pub risk_level: String,
    pub risk_tags: Vec<String>,
    pub timeout_sec: u64,
    pub wait_ready_sec: u64,
}

/// Marks task `idx` running since `now`, and says how to run it.
pub fn start_task(items: &mut Vec<VmExecQueueItem>, idx: usize, now: u64) -> (r: TaskLaunch)
    requires
        idx < old(items)@.len(),
    ensures
        final(items)@.len() == old(items)@.len(),
        forall|j: int| 0 <= j < old(items)@.len() && j != idx ==> final(items)@[j] == old(items)@[j],
        ({
            let o = old(items)@[idx as int];
            let n = final(items)@[idx as int];
            &&& n.status@ == "running"@
            &&& n.started_at_unix == now
            &&& n == VmExecQueueItem { status: n.status, started_at_unix: now, ..o }
        }),
        r.task_id@ == old(items)@[idx as int].id@,
        r.command@ == old(items)@[idx as int].command@,
        r.risk_level@ == old(items)@[idx as int].command_risk_level@,
        strings_view(r.risk_tags@) == strings_view(old(items)@[idx as int].command_risk_tags@),
        (r.timeout_sec, r.wait_ready_sec) == launch_params_spec(old(items)@[idx as int]),
{
    let mut it = items.remove(idx);
    it.status = String::from_str("running");
    it.started_at_unix = now;
    let timeout = if it.timeout_sec == 0 { 30 } else if it.timeout_sec > 3600 { 3600 } else { it.timeout_sec };
    let wait = if it.wait_ready_sec > 600 { 600 } else { it.wait_ready_sec };
    let mut tags: Vec<String> = Vec::new();
    let mut k: usize = 0;
    while k < it.command_risk_tags.len()
        invariant
            k <= it.command_risk_tags.len(),
            strings_view(tags@) == strings_view(it.command_risk_tags@).take(k as int),
        decreases it.command_risk_tags.len() - k,
    {
        let ghost before = strings_view(tags@);
        tags.push(String::from_str(it.command_risk_tags[k].as_str()));
        assert(strings_view(tags@) =~= before.push(it.command_risk_tags@[k as int]@));
        assert(strings_view(it.command_risk_tags@).take(k + 1) =~= strings_view(it.command_risk_tags@).take(k as int).push(it.command_risk_tags@[k as int]@));
        k += 1;
    }
    assert(strings_view(it.command_risk_tags@).take(it.command_risk_tags.len() as int) =~= strings_view(it.command_risk_tags@));
    let r = TaskLaunch {
        task_id: String::from_str(it.id.as_str()),
        command: String::from_str(it.command.as_str()),
        risk_level: String::from_str(it.command_risk_level.as_str()),
        risk_tags: tags,
        timeout_sec: timeout,
        wait_ready_sec: wait,
    };
    items.insert(idx, it);
    r
}

/// The index of the first task with id `id`, or the length.
pub open spec fn task_index(items: Seq<VmExecQueueItem>, id: Seq<char>) -> int
    decreases items.len(),
{
    if items.len() == 0 {
        0
    } else if items[0].id@ == id {
        0
    } else {
        1 + task_index(items.drop_first(), id)
    }
}

proof fn lemma_task_index(items: Seq<VmExecQueueItem>, id: Seq<char>)
    ensures
        0 <= task_index(items, id) <= items.len(),
        task_index(items, id) < items.len() ==> items[task_index(items, id)].id@ == id,
        forall|j: int| 0 <= j < task_index(items, id) ==> items[j].id@ != id,
    decreases items.len(),
{
    if items.len() > 0 && items[0].id@ != id {
        lemma_task_index(items.drop_first(), id);
        assert forall|j: int| 0 <= j < task_index(items, id) implies items[j].id@ != id by {
            if j > 0 {
                assert(items[j] == items.drop_first()[j - 1]);
            }
        }
    }
}

fn find_task(items: &Vec<VmExecQueueItem>, id: &str) -> (r: usize)
    ensures
        r == task_index(items@, id@),
{
    proof {
        lemma_task_index(items@, id@);
    }
    let mut i: usize = 0;
    while i < items.len() && !str_eq(items[i].id.as_str(), id)
        invariant
            i <= items.len(),
            forall|j: int| 0 <= j < i ==> items@[j].id@ != id@,
        decreases items.len() - i,
    {
        i += 1;
    }
    proof {
        let k = task_index(items@, id@);
        if (i as int) < k {
            assert(items@[i as int].id@ != id@);
        }
        if k < i {
            assert(items@[k].id@ != id@);
        }
    }
    i
}

/// The message of a task that will be retried after `why`.
pub open spec fn retry_note(why: Seq<char>, count: u32, max: u32) -> Seq<char> {
    why + "auto-retry "@ + decimal(count as nat) + "/"@ + decimal(max as nat) + " after "@ + decimal(backoff_spec(count)) + "s"@
}

fn retry_note_text(why: &str, count: u32, max: u32) -> (r: String)
    ensures
        r@ == retry_note(why@, count, max),
{
    let mut s = String::from_str(why);
    s.append("auto-retry ");
    s.append(u64_to_decimal(count as u64).as_str());
    s.append("/");
    s.append(u64_to_decimal(max as u64).as_str());
    s.append(" after ");
    s.append(u64_to_decimal(retry_backoff_secs(count)).as_str());
    s.append("s");
    s
}

/// A task whose VM did not become reachable: retried later while it has
/// retries left, else failed with the error.
pub open spec fn ssh_not_ready_spec(o: VmExecQueueItem, n: VmExecQueueItem, err: Seq<char>, now: u64) -> bool {
    if o.retry_count < o.retry_max {
        let c = (o.retry_count + 1) as u32;
        &&& n.status@ == "pending"@
        &&& n.message@ == retry_note("ssh not ready, "@, c, o.retry_max)
        &&& n == VmExecQueueItem {
            retry_count: c,
            status: n.status,
            started_at_unix: 0,
            finished_at_unix: 0,
            exit_code: -1i32,
            next_run_after_unix: (now + backoff_spec(c)) as u64,
            message: n.message,
            ..o
        }
    } else {
        &&& n.status@ == "failed"@
        &&& n.message@ == err
        &&& n == VmExecQueueItem { status: n.status, finished_at_unix: now, exit_code: -1i32, message: n.message, ..o }
    }
}

/// Records that the VM of task `task_id` was not reachable (see
/// `ssh_not_ready_spec`); other tasks stay as they are.
pub fn record_ssh_not_ready(items: &mut Vec<VmExecQueueItem>, task_id: &str, err: &str, now: u64)
    requires
        now <= u64::MAX - 300,
    ensures
        final(items)@.len() == old(items)@.len(),
        ({
            let k = task_index(old(items)@, task_id@);
            &&& forall|j: int| 0 <= j < old(items)@.len() && j != k ==> final(items)@[j] == old(items)@[j]
            &&& k < old(items)@.len() ==> ssh_not_ready_spec(old(items)@[k], final(items)@[k], err@, now)
        }),
{
    let k = find_task(items, task_id);
    if k >= items.len() {
        return;
    }
    let mut it = items.remove(k);
    if it.retry_count < it.retry_max {
        it.retry_count = it.retry_count + 1;
        it.status = String::from_str("pending");
        it.started_at_unix = 0;
        it.finished_at_unix = 0;
        it.exit_code = -1;
        proof {
            assert(backoff_spec(it.retry_count) <= 300);
        }
        it.next_run_after_unix = now + retry_backoff_secs(it.retry_count);
        it.message = retry_note_text("ssh not ready, ", it.retry_count, it.retry_max);
    } else {
        it.status = String::from_str("failed");
        it.finished_at_unix = now;
        it.exit_code = -1;
        it.message = String::from_str(err);
    }
    items.insert(k, it);
}

/// A run that ends with the task queued again: it failed, was not
/// canceled nor asked for an early stop, and has retries left.
pub open spec fn will_retry(it: VmExecQueueItem, resp: VmExecResponse) -> bool {
    resp.exit_code != -2 && !(resp.exit_code == 10 && it.run_kind@ == "self_debug"@) && !resp.ok
        && it.retry_count < it.retry_max
}

/// The status a run leaves its task in: canceled (exit -2), done (exit 10
/// of a self-debug step asks for an early stop, or success), pending again
/// while retries are left, else failed.
pub open spec fn finished_status(it: VmExecQueueItem, resp: VmExecResponse) -> Seq<char> {
    if resp.exit_code == -2 {
        "canceled"@
    } else if resp.exit_code == 10 && it.run_kind@ == "self_debug"@ {
        "done"@
    } else if resp.ok {
        "done"@
    } else if it.retry_count < it.retry_max {
        "pending"@
    } else {
        "failed"@
    }
}

/// Task `n` is task `o` after a run that gave `resp` at `now`: its exit
/// code, output preview and failure classification are recorded, and it is
/// retried (with a note and a backoff) or finished per `finished_status`.
pub open spec fn exec_recorded(o: VmExecQueueItem, n: VmExecQueueItem, resp: VmExecResponse, now: u64) -> bool {
    let (cat, sig, lines) = classify_failure_spec(resp.exit_code, resp.stderr@, resp.stdout@, resp.message@);
    let st = finished_status(o, resp);
    let retrying = will_retry(o, resp);
    let c = (if retrying { o.retry_count + 1 } else { o.retry_count as int }) as u32;
    &&& n.status@ == st
    &&& n.output_preview@ == preview_spec(resp.stdout@, resp.stderr@, 1200)
    &&& n.failure_category@ == cat
    &&& n.failure_signature@ == sig
    &&& strings_view(n.failure_key_lines@) == lines
    &&& n.message@ == (if retrying {
        retry_note("attempt failed (exit="@ + int_decimal(resp.exit_code as int) + "); "@, c, o.retry_max)
    } else {
        resp.message@
    })
    &&& n == VmExecQueueItem {
        status: n.status,
        finished_at_unix: if retrying { 0 } else { now },
        exit_code: resp.exit_code,
        message: n.message,
        output_preview: n.output_preview,
        failure_category: n.failure_category,
        failure_signature: n.failure_signature,
        failure_key_lines: n.failure_key_lines,
        retry_count: c,
        started_at_unix: if retrying { 0 } else { o.started_at_unix },
        next_run_after_unix: if retrying { (now + backoff_spec(c)) as u64 } else { 0 },
        ..o
    }
}

/// A failed self-debug step that may earn a repair strategy: its run id,
/// failure category, priority, failure signature, id and command.
#[derive(Debug, Clone)]
pub struct StrategyCandidate {
    pub run_id: String,
    pub category: String,
    pub priority: i32,
    pub signature: String,
    pub task_id: String,
    pub command: String,
}

/// What recording a run learned: the run id and kind of its task (empty
/// when the task is gone), and the strategy candidate if it failed.
#[derive(Debug, Clone)]
pub struct ExecRecord {
    pub run_id: String,
    pub run_kind: String,
    pub candidate: Option<StrategyCandidate>,
}

/// The task earns a strategy candidate: a failed self-debug step of a run.
pub open spec fn candidate_spec(n: VmExecQueueItem, c: Option<StrategyCandidate>) -> bool {
    if n.status@ == "failed"@ && n.run_kind@ == "self_debug"@ && trim_seq(n.run_id@).len() > 0 {
        c matches Some(x) && x.run_id@ == n.run_id@ && x.category@ == n.failure_category@ && x.priority == n.priority
            && x.signature@ == n.failure_signature@ && x.task_id@ == n.id@ && x.command@ == n.command@
    } else {
        c is None
    }
}

fn copy_strings(v: &Vec<String>) -> (r: Vec<String>)
    ensures
        strings_view(r@) == strings_view(v@),
{
    let mut out: Vec<String> = Vec::new();
    let mut k: usize = 0;
    while k < v.len()
        invariant
            k <= v.len(),
            strings_view(out@) == strings_view(v@).take(k as int),
        decreases v.len() - k,
    {
        let ghost before = strings_view(out@);
        out.push(String::from_str(v[k].as_str()));
        assert(strings_view(out@) =~= before.push(v@[k as int]@));
        assert(strings_view(v@).take(k + 1) =~= strings_view(v@).take(k as int).push(v@[k as int]@));
        k += 1;
    }
    assert(strings_view(v@).take(v.len() as int) =~= strings_view(v@));
    out
}

/// Records the run of task `task_id` that gave `resp` at `now` (see
/// `exec_recorded`); other tasks stay as they are.
pub fn record_exec_result(items: &mut Vec<VmExecQueueItem>, task_id: &str, resp: &VmExecResponse, now: u64) -> (r: ExecRecord)
    requires
        now <= u64::MAX - 300,
    ensures
        final(items)@.len() == old(items)@.len(),
        ({
            let k = task_index(old(items)@, task_id@);
            &&& forall|j: int| 0 <= j < old(items)@.len() && j != k ==> final(items)@[j] == old(items)@[j]
            &&& k < old(items)@.len() ==> {
                &&& exec_recorded(old(items)@[k], final(items)@[k], *resp, now)
                &&& r.run_id@ == old(items)@[k].run_id@
                &&& r.run_kind@ == old(items)@[k].run_kind@
                &&& candidate_spec(final(items)@[k], r.candidate)
            }
            &&& k >= old(items)@.len() ==> r.run_id@.len() == 0 && r.run_kind@.len() == 0 && r.candidate is None
        }),
{
    let k = find_task(items, task_id);
    if k >= items.len() {
        return ExecRecord { run_id: String::new(), run_kind: String::new(), candidate: None };
    }
    let mut it = items.remove(k);
    it.finished_at_unix = now;
    it.exit_code = resp.exit_code;
    it.message = String::from_str(resp.message.as_str());
    it.output_preview = build_exec_output_preview(resp.stdout.as_str(), resp.stderr.as_str(), 1200);
    let (cat, sig, lines) = classify_failure(resp.exit_code, resp.stderr.as_str(), resp.stdout.as_str(), resp.message.as_str());
    it.failure_category = cat;
    it.failure_signature = sig;
    it.failure_key_lines = lines;
    it.next_run_after_unix = 0;
    if resp.exit_code == -2 {
        it.status = String::from_str("canceled");
    } else if resp.exit_code == 10 && str_eq(it.run_kind.as_str(), "self_debug") {
        it.status = String::from_str("done");
    } else if resp.ok {
        it.status = String::from_str("done");
    } else if it.retry_count < it.retry_max {
        it.retry_count = it.retry_count + 1;
        it.started_at_unix = 0;
        it.finished_at_unix = 0;
        proof {
            assert(backoff_spec(it.retry_count) <= 300);
        }
        it.next_run_after_unix = now + retry_backoff_secs(it.retry_count);
        let mut why = String::from_str("attempt failed (exit=");
        why.append(i64_to_decimal(resp.exit_code as i64).as_str());
        why.append("); ");
        it.message = retry_note_text(why.as_str(), it.retry_count, it.retry_max);
        it.status = String::from_str("pending");
    } else {
        it.status = String::from_str("failed");
    }
    let candidate = if str_eq(it.status.as_str(), "failed") && str_eq(it.run_kind.as_str(), "self_debug")
        && trim_chars(&chars_of(it.run_id.as_str())).len() > 0 {
        Some(StrategyCandidate {
            run_id: String::from_str(it.run_id.as_str()),
            category: String::from_str(it.failure_category.as_str()),
            priority: it.priority,
            signature: String::from_str(it.failure_signature.as_str()),
            task_id: String::from_str(it.id.as_str()),
            command: String::from_str(it.command.as_str()),
        })
    } else {
        None
    };
    let r = ExecRecord {
        run_id: String::from_str(it.run_id.as_str()),
        run_kind: String::from_str(it.run_kind.as_str()),
        candidate,
    };
    items.insert(k, it);
    r
}

/// A task that the early-stop gate of run `run_id` cancels: another
/// pending self-debug step of the run.
pub open spec fn early_stop_target(it: VmExecQueueItem, task_id: Seq<char>, run_id: Seq<char>) -> bool {
    it.id@ != task_id && it.run_kind@ == "self_debug"@ && it.run_id@ == run_id && it.status@ == "pending"@
}

/// Task `n` is task `o` after the early-stop gate of run `run_id` at `now`.
pub open spec fn early_stopped(o: VmExecQueueItem, n: VmExecQueueItem, task_id: Seq<char>, run_id: Seq<char>, now: u64) -> bool {
    if early_stop_target(o, task_id, run_id) {
        &&& n.status@ == "canceled"@
        &&& n.message@ == "canceled by early-stop gate"@
        &&& n == VmExecQueueItem { status: n.status, finished_at_unix: now, exit_code: -2i32, message: n.message, ..o }
    } else {
        n == o
    }
}

/// When a self-debug step of a run asked for an early stop (exit 10), the
/// run's other pending self-debug steps are canceled; says whether it did.
pub fn apply_early_stop_gate(items: &mut Vec<VmExecQueueItem>, task_id: &str, exit_code: i32, rec: &ExecRecord, now: u64) -> (b: bool)
    ensures
        b == (exit_code == 10 && rec.run_kind@ == "self_debug"@ && trim_seq(rec.run_id@).len() > 0),
        final(items)@.len() == old(items)@.len(),
        forall|j: int| 0 <= j < old(items)@.len() ==> if b {
            early_stopped(old(items)@[j], #[trigger] final(items)@[j], task_id@, rec.run_id@, now)
        } else {
            final(items)@[j] == old(items)@[j]
        },
{
    if !(exit_code == 10 && str_eq(rec.run_kind.as_str(), "self_debug") && trim_chars(&chars_of(rec.run_id.as_str())).len() > 0) {
        return false;
    }
    let mut j: usize = 0;
    while j < items.len()
        invariant
            j <= items.len(),
            items@.len() == old(items)@.len(),
            forall|m: int| 0 <= m < j ==> early_stopped(old(items)@[m], #[trigger] items@[m], task_id@, rec.run_id@, now),
            forall|m: int| j <= m < items@.len() ==> items@[m] == old(items)@[m],
        decreases items.len() - j,
    {
        let hit = !str_eq(items[j].id.as_str(), task_id) && str_eq(items[j].run_kind.as_str(), "self_debug")
            && str_eq(items[j].run_id.as_str(), rec.run_id.as_str()) && str_eq(items[j].status.as_str(), "pending");
        if hit {
            let mut it = items.remove(j);
            it.status = String::from_str("canceled");
            it.finished_at_unix = now;
            it.exit_code = -2;
            it.message = String::from_str("canceled by early-stop gate");
            items.insert(j, it);
        }
        j += 1;
    }
    true
}

/// A task injected for a strategy: a fresh pending task created at some
/// time, running `cmd` with `prio`, belonging to the candidate's run as a
/// step of `kind`, with the run's budget and the given message.
pub open spec fn injected_task(
    it: VmExecQueueItem,
    cmd: Seq<char>,
    prio: i32,
    c: StrategyCandidate,
    kind: Seq<char>,
    budget: u64,
    message: Seq<char>,
) -> bool {
    &&& it.run_id@ == c.run_id@
    &&& it.run_kind@ == kind
    &&& it.run_max_runtime_sec == budget
    &&& it.strategy_signature@ == c.signature@
    &&& it.trigger_task_id@ == c.task_id@
    &&& it.message@ == message
    &&& exists|secs: u64, nanos: u32| it.id@ == time_id_spec("q-"@, secs, nanos) && it.created_at_unix == secs
    &&& it.command@ == cmd
    &&& it.status@ == "pending"@
    &&& it.timeout_sec == 180
    &&& it.wait_ready_sec == 0
    &&& it.priority == prio
    &&& it.retry_max == 0
    &&& it.retry_count == 0
    &&& it.next_run_after_unix == 0
    &&& it.started_at_unix == 0
    &&& it.finished_at_unix == 0
    &&& it.exit_code == 0
    &&& it.output_preview@.len() == 0
    &&& it.failure_category@.len() == 0
    &&& it.failure_signature@.len() == 0
    &&& it.failure_key_lines@.len() == 0
    &&& (it.command_risk_level@, strings_view(it.command_risk_tags@)) == crate::vm_queue::risk_spec(cmd)
}

/// The priority of a strategy's tasks: one above the failed step, plus the
/// boost the category's statistics earn, within [-100, 100].
pub open spec fn strategy_priority(p: i32, boost: i32) -> i32 {
    let v = p + 1 + boost;
    (if v < -100 { -100 } else if v > 100 { 100 } else { v }) as i32
}

/// The run budget of the first task with id `id` (0 when none has it).
pub open spec fn budget_of(items: Seq<VmExecQueueItem>, id: Seq<char>) -> u64 {
    let k = task_index(items, id);
    if k < items.len() { items[k].run_max_runtime_sec } else { 0 }
}

/// What became of a strategy candidate.
#[derive(Debug, Clone, Copy, PartialEq, Eq, Structural)]
pub enum StrategyOutcome {
    NoCandidate,
    Injected,
    SkippedLimit,
}

fn with_suffix(it: VmExecQueueItem, suffix: &str) -> (r: VmExecQueueItem)
    ensures
        r.message@ == it.message@ + suffix@,
        r == (VmExecQueueItem { message: r.message, ..it }),
{
    let mut it = it;
    let mut m = String::from_str(it.message.as_str());
    m.append(suffix);
    it.message = m;
    it
}

/// Task `n` is `o` with `suffix` added to its message.
pub open spec fn noted(o: VmExecQueueItem, n: VmExecQueueItem, suffix: Seq<char>) -> bool {
    n.message@ == o.message@ + suffix && n == VmExecQueueItem { message: n.message, ..o }
}

/// The queue after a strategy decision on candidate `c`: each task as
/// before except the candidate's step, whose message is `noted`.
pub open spec fn queue_noted(old_items: Seq<VmExecQueueItem>, new_items: Seq<VmExecQueueItem>, id: Seq<char>, suffix: Seq<char>) -> bool {
    let k = task_index(old_items, id);
    &&& forall|j: int| 0 <= j < old_items.len() && j != k ==> new_items[j] == old_items[j]
    &&& k < old_items.len() ==> noted(old_items[k], new_items[k], suffix)
}

fn note_task(items: &mut Vec<VmExecQueueItem>, id: &str, suffix: &str)
    ensures
        final(items)@.len() == old(items)@.len(),
        queue_noted(old(items)@, final(items)@, id@, suffix@),
{
    let k = find_task(items, id);
    if k < items.len() {
        let it = items.remove(k);
        let it2 = with_suffix(it, suffix);
        items.insert(k, it2);
    }
}

/// Decides on a strategy for a failed self-debug step: none when the run
/// timed out or already had two strategies for this failure signature (the
/// step's message then says so); otherwise the step's message says a
/// strategy was injected, and two tasks join the queue: the category's
/// strategy command (see `strategy_command_spec`) and a rerun of the failed
/// command (or the test script), both at `strategy_priority`.
pub fn inject_strategy(
    items: &mut Vec<VmExecQueueItem>,
    cand: &Option<StrategyCandidate>,
    run_timed_out: bool,
    rules: &[(String, String)],
) -> (r: StrategyOutcome)
    ensures
        match cand {
            None => r == StrategyOutcome::NoCandidate && final(items)@ == old(items)@,
            Some(c) => if !run_timed_out && injected_count_spec(old(items)@, c.run_id@, c.signature@) < 2 {
                let prio = strategy_priority(c.priority, boost_spec(old(items)@, c.category@));
                let budget = budget_of(old(items)@, c.task_id@);
                let n = old(items)@.len();
                &&& r == StrategyOutcome::Injected
                &&& final(items)@.len() == n + 2
                &&& queue_noted(old(items)@, final(items)@.take(n as int), c.task_id@, " [strategy-injected]"@)
                &&& injected_task(final(items)@[n as int], strategy_command_spec(rules_view(rules@), c.category@), prio, *c,
                    "self_debug_strategy"@, budget,
                    "auto strategy task injected for category="@ + c.category@ + " priority_boost="@
                        + int_decimal(boost_spec(old(items)@, c.category@) as int))
                &&& injected_task(final(items)@[n + 1int], if trim_seq(c.command@).len() == 0 { "bash scripts/run_tests.sh"@ } else { c.command@ },
                    prio, *c, "self_debug_verify_after_strategy"@, budget, "auto verify-after-strategy task injected"@)
            } else {
                &&& r == StrategyOutcome::SkippedLimit
                &&& final(items)@.len() == old(items)@.len()
                &&& queue_noted(old(items)@, final(items)@, c.task_id@, " [strategy-skip-limit]"@)
            },
        },
{
    let c = match cand {
        None => return StrategyOutcome::NoCandidate,
        Some(c) => c,
    };
    if run_timed_out || strategy_injected_count(items.as_slice(), c.run_id.as_str(), c.signature.as_str()) >= 2 {
        note_task(items, c.task_id.as_str(), " [strategy-skip-limit]");
        return StrategyOutcome::SkippedLimit;
    }
    let ghost orig = items@;
    let k = find_task(items, c.task_id.as_str());
    proof {
        lemma_task_index(orig, c.task_id@);
    }
    let budget = if k < items.len() { items[k].run_max_runtime_sec } else { 0 };
    let boost = strategy_priority_boost_by_stats(items.as_slice(), c.category.as_str());
    let v: i64 = c.priority as i64 + 1 + boost as i64;
    let prio: i32 = if v < -100 { -100 } else if v > 100 { 100 } else { v as i32 };
    note_task(items, c.task_id.as_str(), " [strategy-injected]");
    let ghost noted_items = items@;
    let cmd = strategy_command_for_failure_category(rules, c.category.as_str());
    let mut s_item = queue_item_from_values(cmd.as_str(), 180, 0, prio, 0);
    s_item.run_id = String::from_str(c.run_id.as_str());
    s_item.run_kind = String::from_str("self_debug_strategy");
    s_item.run_max_runtime_sec = budget;
    s_item.strategy_signature = String::from_str(c.signature.as_str());
    s_item.trigger_task_id = String::from_str(c.task_id.as_str());
    let mut msg = String::from_str("auto strategy task injected for category=");
    msg.append(c.category.as_str());
    msg.append(" priority_boost=");
    msg.append(i64_to_decimal(boost as i64).as_str());
    s_item.message = msg;
    items.push(s_item);
    let verify_cmd = if trim_chars(&chars_of(c.command.as_str())).len() == 0 {
        String::from_str("bash scripts/run_tests.sh")
    } else {
        String::from_str(c.command.as_str())
    };
    let mut v_item = queue_item_from_values(verify_cmd.as_str(), 180, 0, prio, 0);
    v_item.run_id = String::from_str(c.run_id.as_str());
    v_item.run_kind = String::from_str("self_debug_verify_after_strategy");
    v_item.run_max_runtime_sec = budget;
    v_item.strategy_signature = String::from_str(c.signature.as_str());
    v_item.trigger_task_id = String::from_str(c.task_id.as_str());
    v_item.message = String::from_str("auto verify-after-strategy task injected");
    items.push(v_item);
    proof {
        assert(items@.take(orig.len() as int) =~= noted_items);
    }
    StrategyOutcome::Injected
}

broadcast use vstd::seq_lib::group_to_multiset_ensures;

/// History entry `a` is listed before `b`: archived later, then updated
/// later, then by run id descending.
pub open spec fn hist_before(a: VmSelfDebugHistoryEntry, b: VmSelfDebugHistoryEntry) -> bool {
    a.archived_at_unix > b.archived_at_unix || (a.archived_at_unix == b.archived_at_unix && (
        a.summary.updated_at_unix > b.summary.updated_at_unix || (a.summary.updated_at_unix == b.summary.updated_at_unix
            && lex_lt(b.summary.run_id@, a.summary.run_id@))))
}

proof fn lemma_hist_trans(a: VmSelfDebugHistoryEntry, b: VmSelfDebugHistoryEntry, c: VmSelfDebugHistoryEntry)
    requires
        hist_before(a, b),
        hist_before(b, c),
    ensures
        hist_before(a, c),
{
    if a.archived_at_unix == b.archived_at_unix && b.archived_at_unix == c.archived_at_unix
        && a.summary.updated_at_unix == b.summary.updated_at_unix && b.summary.updated_at_unix == c.summary.updated_at_unix {
        lemma_lex_trans(c.summary.run_id@, b.summary.run_id@, a.summary.run_id@);
    }
}

fn hist_in_order(a: &VmSelfDebugHistoryEntry, b: &VmSelfDebugHistoryEntry) -> (r: bool)
    ensures
        r == hist_before(*a, *b),
{
    if a.archived_at_unix != b.archived_at_unix {
        return a.archived_at_unix > b.archived_at_unix;
    }
    if a.summary.updated_at_unix != b.summary.updated_at_unix {
        return a.summary.updated_at_unix > b.summary.updated_at_unix;
    }
    lex_order(&chars_of(b.summary.run_id.as_str()), &chars_of(a.summary.run_id.as_str())) == -1
}

/// No entry is listed after one that should follow it.
pub open spec fn hist_sorted(v: Seq<VmSelfDebugHistoryEntry>) -> bool {
    forall|i: int, j: int| 0 <= i < j < v.len() ==> !hist_before(#[trigger] v[j], #[trigger] v[i])
}

/// Two entries that the order cannot tell apart: same archive time, same
/// update time, same run id.
pub open spec fn hist_key_eq(a: VmSelfDebugHistoryEntry, b: VmSelfDebugHistoryEntry) -> bool {
    a.archived_at_unix == b.archived_at_unix && a.summary.updated_at_unix == b.summary.updated_at_unix
        && a.summary.run_id@ == b.summary.run_id@
}

/// `perm` tells where each entry of `after` stood in `before`: it picks
/// every position once, and entries the order cannot tell apart keep their
/// relative order.
pub open spec fn hist_stable_perm(before: Seq<VmSelfDebugHistoryEntry>, after: Seq<VmSelfDebugHistoryEntry>, perm: Seq<int>) -> bool {
    &&& perm.len() == after.len() && after.len() == before.len()
    &&& forall|k: int| 0 <= k < perm.len() ==> 0 <= #[trigger] perm[k] < before.len()
    &&& forall|k: int, l: int| 0 <= k < l < perm.len() ==> #[trigger] perm[k] != #[trigger] perm[l]
    &&& forall|k: int| 0 <= k < after.len() ==> #[trigger] after[k] == before[perm[k]]
    &&& forall|k: int, l: int| 0 <= k < l < after.len() && hist_key_eq(#[trigger] after[k], #[trigger] after[l])
            ==> perm[k] < perm[l]
}

/// Sorts the history, newest archive first (see `hist_before`); entries the
/// order cannot tell apart keep their order, and none is lost.
pub fn sort_history_entries(entries: &mut Vec<VmSelfDebugHistoryEntry>)
    ensures
        hist_sorted(final(entries)@),
        exists|perm: Seq<int>| hist_stable_perm(old(entries)@, final(entries)@, perm),
{
    let mut input: Vec<VmSelfDebugHistoryEntry> = Vec::new();
    std::mem::swap(entries, &mut input);
    let ghost orig = input@;
    let ghost mut k: int = 0;
    let ghost mut perm: Seq<int> = Seq::empty();
    while input.len() > 0
        invariant
            0 <= k <= orig.len(),
            input@ == orig.skip(k),
            hist_sorted(entries@),
            entries@.len() == k,
            perm.len() == k,
            forall|m: int| 0 <= m < perm.len() ==> 0 <= #[trigger] perm[m] < k,
            forall|m: int, l: int| 0 <= m < l < perm.len() ==> #[trigger] perm[m] != #[trigger] perm[l],
            forall|m: int| 0 <= m < entries@.len() ==> #[trigger] entries@[m] == orig[perm[m]],
            forall|m: int, l: int| 0 <= m < l < entries@.len() && hist_key_eq(#[trigger] entries@[m], #[trigger] entries@[l])
                ==> perm[m] < perm[l],
        decreases input.len(),
    {
        let e = input.remove(0);
        proof {
            assert(e == orig[k]);
            assert(input@ =~= orig.skip(k + 1));
        }
        let mut p: usize = 0;
        while p < entries.len() && !hist_in_order(&e, &entries[p])
            invariant
                p <= entries.len(),
                forall|m: int| 0 <= m < p ==> !hist_before(e, #[trigger] entries@[m]),
            decreases entries.len() - p,
        {
            p += 1;
        }
        let ghost before = entries@;
        let ghost old_perm = perm;
        proof {
            lemma_lex_irrefl(e.summary.run_id@);
            if p < before.len() {
                assert forall|m: int| p <= m < before.len() implies !hist_before(#[trigger] before[m], e) by {
                    if hist_before(before[m], e) {
                        lemma_hist_trans(before[m], e, before[p as int]);
                        if m == p {
                            lemma_hist_trans(e, before[p as int], e);
                        }
                    }
                }
                assert forall|m: int| p <= m < before.len() implies !hist_key_eq(e, #[trigger] before[m]) by {
                    if hist_key_eq(e, before[m]) {
                        assert(hist_before(before[m], before[p as int]));
                        if m == p {
                            lemma_lex_irrefl(before[m].summary.run_id@);
                        }
                    }
                }
            }
        }
        entries.insert(p, e);
        proof {
            perm = old_perm.insert(p as int, k);
            assert forall|m: int| 0 <= m < entries@.len() implies #[trigger] entries@[m] == orig[perm[m]] by {
                if m < p {
                    assert(entries@[m] == before[m] && perm[m] == old_perm[m]);
                } else if m > p {
                    assert(entries@[m] == before[m - 1] && perm[m] == old_perm[m - 1]);
                }
            }
            assert forall|m: int| 0 <= m < perm.len() implies 0 <= #[trigger] perm[m] < k + 1 by {
                if m < p {
                    assert(perm[m] == old_perm[m]);
                } else if m > p {
                    assert(perm[m] == old_perm[m - 1]);
                }
            }
            assert forall|m: int, l: int| 0 <= m < l < perm.len() implies #[trigger] perm[m] != #[trigger] perm[l] by {
                if m < p && l < p {
                    assert(perm[m] == old_perm[m] && perm[l] == old_perm[l]);
                } else if m < p && l == p {
                    assert(perm[m] == old_perm[m]);
                } else if m < p {
                    assert(perm[m] == old_perm[m] && perm[l] == old_perm[l - 1]);
                } else if m == p {
                    assert(perm[l] == old_perm[l - 1]);
                } else {
                    assert(perm[m] == old_perm[m - 1] && perm[l] == old_perm[l - 1]);
                }
            }
            assert forall|i: int, j: int| 0 <= i < j < entries@.len() implies !hist_before(#[trigger] entries@[j], #[trigger] entries@[i]) by {
                if i < p && j < p {
                    assert(entries@[i] == before[i] && entries@[j] == before[j]);
                } else if i < p && j == p {
                    assert(entries@[i] == before[i]);
                } else if i < p {
                    assert(entries@[i] == before[i] && entries@[j] == before[j - 1]);
                } else if i == p {
                    assert(entries@[j] == before[j - 1]);
                } else {
                    assert(entries@[i] == before[i - 1] && entries@[j] == before[j - 1]);
                }
            }
            assert forall|i: int, j: int| 0 <= i < j < entries@.len() && hist_key_eq(#[trigger] entries@[i], #[trigger] entries@[j])
                implies perm[i] < perm[j] by {
                if j < p {
                    assert(entries@[i] == before[i] && entries@[j] == before[j]);
                    assert(perm[i] == old_perm[i] && perm[j] == old_perm[j]);
                } else if j == p {
                    assert(perm[i] == old_perm[i]);
                } else if i < p {
                    assert(entries@[i] == before[i] && entries@[j] == before[j - 1]);
                    assert(perm[i] == old_perm[i] && perm[j] == old_perm[j - 1]);
                } else if i == p {
                    assert(entries@[j] == before[j - 1]);
                } else {
                    assert(entries@[i] == before[i - 1] && entries@[j] == before[j - 1]);
                    assert(perm[i] == old_perm[i - 1] && perm[j] == old_perm[j - 1]);
                }
            }
            k = k + 1;
        }
    }
    proof {
        assert(hist_stable_perm(orig, entries@, perm));
    }
}

/// The run of a finished task is held to its time budget when it is a
/// self-debug run with an id.
pub fn run_budget_applies(rec: &ExecRecord) -> (b: bool)
    ensures
        b == (trim_seq(rec.run_id@).len() > 0 && sd_kind(rec.run_kind@)),
{
    trim_chars(&chars_of(rec.run_id.as_str())).len() > 0 && is_self_debug_kind(rec.run_kind.as_str())
}

/// Where a VM task can run: a running QEMU VM with an SSH port.
pub open spec fn exec_target_spec(backend: Seq<char>, power_state: Seq<char>, ssh_port: Option<u16>) -> Result<u16, Seq<char>> {
    if backend != "qemu"@ {
        Err("vm exec queue only supports qemu backend"@)
    } else if power_state != "running"@ {
        Err("vm is not running"@)
    } else {
        match ssh_port {
            Some(p) => if p == 0 { Err("vm ssh port is not set"@) } else { Ok(p) },
            None => Err("vm ssh port is not set"@),
        }
    }
}

/// Checks that a VM can run queued tasks (see `exec_target_spec`); gives
/// its SSH port.
pub fn check_exec_target(backend: &str, power_state: &str, ssh_port: Option<u16>) -> (r: Result<u16, String>)
    ensures
        match exec_target_spec(backend@, power_state@, ssh_port) {
            Ok(p) => r == Ok::<u16, String>(p),
            Err(e) => r matches Err(m) && m@ == e,
        },
{
    if !str_eq(backend, "qemu") {
        return Err(String::from_str("vm exec queue only supports qemu backend"));
    }
    if !str_eq(power_state, "running") {
        return Err(String::from_str("vm is not running"));
    }
    let port = match ssh_port {
        Some(p) => p,
        None => 0,
    };
    if port == 0 {
        return Err(String::from_str("vm ssh port is not set"));
    }
    Ok(port)
}


/// The aged priority of a task.
pub open spec fn aged(it: VmExecQueueItem, now: u64, s: VmPolicyScheduler) -> int {
    aged_priority_spec(it.priority, it.created_at_unix, now, s.priority_aging_step_sec, s.priority_aging_max_boost)
}

/// A task that may run now: pending, and past its retry time.
pub open spec fn runnable_now(it: VmExecQueueItem, now: u64) -> bool {
    it.status@ == "pending"@ && now >= it.next_run_after_unix
}

/// `k` is the first-come task of highest aged priority among the runnable
/// tasks of `items` below `n`.
pub open spec fn first_come_highest(items: Seq<VmExecQueueItem>, n: int, k: int, now: u64, s: VmPolicyScheduler) -> bool {
    &&& 0 <= k < n
    &&& runnable_now(items[k], now)
    &&& forall|j: int| 0 <= j < n && #[trigger] runnable_now(items[j], now) ==> {
        &&& aged(items[j], now, s) <= aged(items[k], now, s)
        &&& (aged(items[j], now, s) == aged(items[k], now, s) ==> items[k].created_at_unix < items[j].created_at_unix
            || (items[k].created_at_unix == items[j].created_at_unix && k <= j))
    }
}

proof fn lemma_pick_prefix(items: Seq<VmExecQueueItem>, n: int, now: u64, s: VmPolicyScheduler)
    requires
        0 <= n <= items.len(),
    ensures
        match next_pending_spec(items, n, now, s) {
            Some(k) => first_come_highest(items, n, k, now, s),
            None => forall|j: int| 0 <= j < n ==> !runnable_now(#[trigger] items[j], now),
        },
    decreases n,
{
    if n > 0 {
        lemma_pick_prefix(items, n - 1, now, s);
        let best = next_pending_spec(items, n - 1, now, s);
        let last = n - 1;
        match best {
            None => {
                if runnable_now(items[last], now) {
                    assert forall|j: int| 0 <= j < n && #[trigger] runnable_now(items[j], now) implies {
                        &&& aged(items[j], now, s) <= aged(items[last], now, s)
                        &&& (aged(items[j], now, s) == aged(items[last], now, s) ==> items[last].created_at_unix < items[j].created_at_unix
                            || (items[last].created_at_unix == items[j].created_at_unix && last <= j))
                    } by {
                        if j < last {
                            assert(!runnable_now(items[j], now));
                        }
                    }
                }
            },
            Some(b) => {
                if runnable_now(items[last], now) && outranks(items[last], items[b], now, s) {
                    assert forall|j: int| 0 <= j < n && #[trigger] runnable_now(items[j], now) implies {
                        &&& aged(items[j], now, s) <= aged(items[last], now, s)
                        &&& (aged(items[j], now, s) == aged(items[last], now, s) ==> items[last].created_at_unix < items[j].created_at_unix
                            || (items[last].created_at_unix == items[j].created_at_unix && last <= j))
                    } by {
                        if j < last {
                            assert(runnable_now(items[j], now));
                        }
                    }
                } else {
                    assert forall|j: int| 0 <= j < n && #[trigger] runnable_now(items[j], now) implies {
                        &&& aged(items[j], now, s) <= aged(items[b], now, s)
                        &&& (aged(items[j], now, s) == aged(items[b], now, s) ==> items[b].created_at_unix < items[j].created_at_unix
                            || (items[b].created_at_unix == items[j].created_at_unix && b <= j))
                    } by {
                        if j < last {
                            assert(runnable_now(items[j], now));
                        }
                    }
                }
            },
        }
    }
}

/// The task picked to run next is runnable, no runnable task has a higher
/// aged priority, and among runnable tasks of the same aged priority it is
/// the oldest (the first of equally old ones); when none is picked, no task
/// is runnable.
pub proof fn next_task_is_oldest_of_highest_priority(items: Seq<VmExecQueueItem>, now: u64, s: VmPolicyScheduler)
    ensures
        match next_pending_spec(items, items.len() as int, now, s) {
            Some(k) => first_come_highest(items, items.len() as int, k, now, s),
            None => forall|j: int| 0 <= j < items.len() ==> !runnable_now(#[trigger] items[j], now),
        },
{
    lemma_pick_prefix(items, items.len() as int, now, s);
}

} // verus!
