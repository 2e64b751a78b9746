//! The per-VM execution queue: task records, timeouts, the watchdog,
//! command risk and failure classification, and priorities.

use vstd::prelude::*;
use crate::text::{chars_of, chars_slice, chars_start_with, concat, contains, contains_lit, decimal, lines, split_lines, str_eq, string_of, strings_view, char_vecs_view, trim, trim_chars, trim_seq, u64_to_decimal, starts_with};
use crate::vm::{ascii_lower_chars, ascii_lower_seq, is_ascii_alnum, ascii_alnum};

verus! {

/// One task of a VM's execution queue.
#[derive(Debug, Clone)]
pub struct VmExecQueueItem {
    pub id: String,
    pub command: String,
    pub status: String,
    pub created_at_unix: u64,
    pub timeout_sec: u64,
    pub wait_ready_sec: u64,
    pub priority: i32,
    pub retry_max: u32,
    pub retry_count: u32,
    pub next_run_after_unix: u64,
    pub started_at_unix: u64,
    pub finished_at_unix: u64,
    pub exit_code: i32,
    pub message: String,
    pub output_preview: String,
    pub failure_category: String,
    pub failure_signature: String,
    pub failure_key_lines: Vec<String>,
    pub run_id: String,
    pub run_kind: String,
    pub run_max_runtime_sec: u64,
    pub command_risk_level: String,
    pub command_risk_tags: Vec<String>,
    pub strategy_signature: String,
    pub trigger_task_id: String,
}

/// The risk level and tags of a command.
pub open spec fn medium_patterns() -> Seq<(Seq<char>, Seq<char>)> {
    seq![
        ("sudo "@, "privilege"@),
        ("apt-get "@, "pkg-manager"@),
        ("dnf "@, "pkg-manager"@),
        ("yum "@, "pkg-manager"@),
        ("apk "@, "pkg-manager"@),
        ("pip install"@, "pkg-manager"@),
        ("npm install"@, "pkg-manager"@),
        ("cargo install"@, "pkg-manager"@),
        ("chmod "@, "permission"@),
        ("chown "@, "permission"@),
        ("systemctl "@, "service"@),
    ]
}

/// The patterns of high-risk commands and their tags.
pub open spec fn high_patterns() -> Seq<(Seq<char>, Seq<char>)> {
    seq![
        ("rm -rf /"@, "destructive"@),
        ("mkfs"@, "filesystem"@),
        ("dd if="@, "disk-write"@),
        ("shutdown"@, "system-power"@),
        ("reboot"@, "system-power"@),
        ("userdel "@, "account"@),
        ("groupdel "@, "account"@),
        ("iptables "@, "network-firewall"@),
        ("nft "@, "network-firewall"@),
        ("curl "@, "network-download"@),
        ("wget "@, "network-download"@),
    ]
}

/// All risk patterns, medium first.
pub open spec fn risk_patterns() -> Seq<(Seq<char>, Seq<char>)> {
    medium_patterns() + high_patterns()
}

/// Tags of the patterns found among the first `n` patterns, each tag once, in order.
pub open spec fn risk_tags(low: Seq<char>, n: nat) -> Seq<Seq<char>>
    decreases n,
{
    if n == 0 {
        Seq::empty()
    } else {
        let rest = risk_tags(low, (n - 1) as nat);
        let (pat, tag) = risk_patterns()[n - 1];
        if contains(low, pat) && !rest.contains(tag) {
            rest.push(tag)
        } else {
            rest
        }
    }
}

/// Whether some of the patterns `from..to` occurs.
pub open spec fn any_pattern(low: Seq<char>, from: int, to: int) -> bool {
    exists|i: int| from <= i < to && contains(low, #[trigger] risk_patterns()[i].0)
}

/// The risk classification of a command: its level and the tags found.
pub open spec fn risk_spec(cmd: Seq<char>) -> (Seq<char>, Seq<Seq<char>>) {
    let t = trim_seq(cmd);
    if t.len() == 0 {
        ("low"@, Seq::empty())
    } else {
        let low = ascii_lower_seq(t);
        let level = if any_pattern(low, 11, 22) {
            "high"@
        } else if any_pattern(low, 0, 11) {
            "medium"@
        } else {
            "low"@
        };
        (level, risk_tags(low, 22))
    }
}

fn risk_pattern(i: usize) -> (r: (&'static str, &'static str))
    requires
        i < 22,
    ensures
        (r.0@, r.1@) == risk_patterns()[i as int],
{
    assert(risk_patterns().len() == 22);
    match i {
        0 => ("sudo ", "privilege"),
        1 => ("apt-get ", "pkg-manager"),
        2 => ("dnf ", "pkg-manager"),
        3 => ("yum ", "pkg-manager"),
        4 => ("apk ", "pkg-manager"),
        5 => ("pip install", "pkg-manager"),
        6 => ("npm install", "pkg-manager"),
        7 => ("cargo install", "pkg-manager"),
        8 => ("chmod ", "permission"),
        9 => ("chown ", "permission"),
        10 => ("systemctl ", "service"),
        11 => ("rm -rf /", "destructive"),
        12 => ("mkfs", "filesystem"),
        13 => ("dd if=", "disk-write"),
        14 => ("shutdown", "system-power"),
        15 => ("reboot", "system-power"),
        16 => ("userdel ", "account"),
        17 => ("groupdel ", "account"),
        18 => ("iptables ", "network-firewall"),
        19 => ("nft ", "network-firewall"),
        20 => ("curl ", "network-download"),
        _ => ("wget ", "network-download"),
    }
}

fn strings_contain(v: &Vec<String>, t: &str) -> (b: bool)
    ensures
        b == strings_view(v@).contains(t@),
{
    let mut i: usize = 0;
    while i < v.len()
        invariant
            i <= v.len(),
            forall|k: int| 0 <= k < i ==> strings_view(v@)[k] != t@,
        decreases v.len() - i,
    {
        if str_eq(v[i].as_str(), t) {
            assert(strings_view(v@)[i as int] == t@);
            return true;
        }
        i += 1;
    }
    false
}

/// Classifies how risky a shell command is: `high` for destructive,
/// power, account, firewall or download commands, `medium` for privilege,
/// package, permission or service commands, else `low`; with the tags found.
pub fn classify_command_risk(cmd: &str) -> (r: (String, Vec<String>))
    ensures
        (r.0@, strings_view(r.1@)) == risk_spec(cmd@),
{
    let t = trim_chars(&chars_of(cmd));
    if t.len() == 0 {
        let v: Vec<String> = Vec::new();
        assert(strings_view(v@) =~= Seq::<Seq<char>>::empty());
        return (String::from_str("low"), v);
    }
    let low = ascii_lower_chars(&t);
    let mut tags: Vec<String> = Vec::new();
    let mut score: u8 = 0;
    let mut i: usize = 0;
    assert(strings_view(tags@) =~= risk_tags(low@, 0));
    while i < 22
        invariant
            i <= 22,
            strings_view(tags@) == risk_tags(low@, i as nat),
            score == (if any_pattern(low@, 11, i as int) {
                2u8
            } else if any_pattern(low@, 0, if i < 11 { i as int } else { 11 }) {
                1u8
            } else {
                0u8
            }),
        decreases 22 - i,
    {
        let (pat, tag) = risk_pattern(i);
        let hit = contains_lit(&low, pat);
        if hit {
            if i >= 11 {
                score = 2;
            } else if score < 1 {
                score = 1;
            }
            if !strings_contain(&tags, tag) {
                let ghost before = tags@;
                tags.push(String::from_str(tag));
                assert(strings_view(tags@) =~= strings_view(before).push(tag@));
            }
        }
        assert(any_pattern(low@, 11, i + 1) == (any_pattern(low@, 11, i as int) || (i >= 11 && contains(low@, risk_patterns()[i as int].0))));
        assert(i < 11 ==> any_pattern(low@, 0, i + 1) == (any_pattern(low@, 0, i as int) || contains(low@, risk_patterns()[i as int].0)));
        i += 1;
    }
    let level = if score == 0 {
        "low"
    } else if score == 1 {
        "medium"
    } else {
        "high"
    };
    (String::from_str(level), tags)
}

/// The current Unix time in seconds and the nanoseconds within that second.
/// Trusted: reads `SystemTime::now()`; nothing is promised about the values,
/// except that the nanoseconds are below one billion.
#[verifier::external_body]
pub(crate) fn now_secs_nanos() -> (r: (u64, u32))
    ensures
        r.1 < 1_000_000_000,
{
    match std::time::SystemTime::now().duration_since(std::time::UNIX_EPOCH) {
        Ok(d) => (d.as_secs(), d.subsec_nanos()),
        Err(_) => (0, 0),
    }
}

/// A time-based identifier `<prefix><secs>-<nanos>`.
pub open spec fn time_id_spec(prefix: Seq<char>, secs: u64, nanos: u32) -> Seq<char> {
    prefix + decimal(secs as nat) + "-"@ + decimal(nanos as nat)
}

/// Formats a time-based identifier.
pub fn time_id(prefix: &str, secs: u64, nanos: u32) -> (r: String)
    ensures
        r@ == time_id_spec(prefix@, secs, nanos),
{
    let a = u64_to_decimal(secs);
    let b = u64_to_decimal(nanos as u64);
    let x = concat(prefix, a.as_str());
    let y = concat(x.as_str(), "-");
    concat(y.as_str(), b.as_str())
}

/// A fresh queue task id `q-<secs>-<nanos>`.
pub fn queue_task_id() -> (r: String)
    ensures
        exists|secs: u64, nanos: u32| r@ == time_id_spec("q-"@, secs, nanos),
{
    let (secs, nanos) = now_secs_nanos();
    time_id("q-", secs, nanos)
}

/// A fresh self-debug run id `sd-<secs>-<nanos>`.
pub fn self_debug_run_id() -> (r: String)
    ensures
        exists|secs: u64, nanos: u32| r@ == time_id_spec("sd-"@, secs, nanos),
{
    let (secs, nanos) = now_secs_nanos();
    time_id("sd-", secs, nanos)
}

/// A fresh pending task: no retries, outcome or run yet, risk classified.
pub open spec fn fresh_item(
    it: VmExecQueueItem,
    id: Seq<char>,
    now: u64,
    cmd: Seq<char>,
    timeout_sec: u64,
    wait_ready_sec: u64,
    priority: i32,
    retry_max: u32,
) -> bool {
    &&& fresh_core(it, id, now, cmd, timeout_sec, wait_ready_sec, priority, retry_max)
    &&& it.run_id@.len() == 0
    &&& it.run_kind@.len() == 0
    &&& it.run_max_runtime_sec == 0
}

/// A fresh pending task apart from its run: no retries or outcome yet, risk classified.
pub open spec fn fresh_core(
    it: VmExecQueueItem,
    id: Seq<char>,
    now: u64,
    cmd: Seq<char>,
    timeout_sec: u64,
    wait_ready_sec: u64,
    priority: i32,
    retry_max: u32,
) -> bool {
    &&& it.id@ == id
    &&& it.command@ == cmd
    &&& it.status@ == "pending"@
    &&& it.created_at_unix == now
    &&& it.timeout_sec == timeout_sec
    &&& it.wait_ready_sec == wait_ready_sec
    &&& it.priority == priority
    &&& it.retry_max == retry_max
    &&& it.retry_count == 0
    &&& it.next_run_after_unix == 0
    &&& it.started_at_unix == 0
    &&& it.finished_at_unix == 0
    &&& it.exit_code == 0
    &&& it.message@.len() == 0
    &&& it.output_preview@.len() == 0
    &&& it.failure_category@.len() == 0
    &&& it.failure_signature@.len() == 0
    &&& it.failure_key_lines@.len() == 0
    &&& (it.command_risk_level@, strings_view(it.command_risk_tags@)) == risk_spec(cmd)
    &&& it.strategy_signature@.len() == 0
    &&& it.trigger_task_id@.len() == 0
}

/// A pending task with the given id and creation time.
pub fn build_queue_item(
    id: String,
    now: u64,
    cmd: &str,
    timeout_sec: u64,
    wait_ready_sec: u64,
    priority: i32,
    retry_max: u32,
) -> (it: VmExecQueueItem)
    ensures
        fresh_item(it, id@, now, cmd@, timeout_sec, wait_ready_sec, priority, retry_max),
{
    let (risk_level, risk_tags) = classify_command_risk(cmd);
    VmExecQueueItem {
        id,
        command: String::from_str(cmd),
        status: String::from_str("pending"),
        created_at_unix: now,
        timeout_sec,
        wait_ready_sec,
        priority,
        retry_max,
        retry_count: 0,
        next_run_after_unix: 0,
        started_at_unix: 0,
        finished_at_unix: 0,
        exit_code: 0,
        message: String::new(),
        output_preview: String::new(),
        failure_category: String::new(),
        failure_signature: String::new(),
        failure_key_lines: Vec::new(),
        run_id: String::new(),
        run_kind: String::new(),
        run_max_runtime_sec: 0,
        command_risk_level: risk_level,
        command_risk_tags: risk_tags,
        strategy_signature: String::new(),
        trigger_task_id: String::new(),
    }
}

/// A new pending task created now, with a fresh id.
pub fn queue_item_from_values(
    cmd: &str,
    timeout_sec: u64,
    wait_ready_sec: u64,
    priority: i32,
    retry_max: u32,
) -> (it: VmExecQueueItem)
    ensures
        exists|secs: u64, nanos: u32| fresh_item(it, time_id_spec("q-"@, secs, nanos), secs, cmd@, timeout_sec, wait_ready_sec, priority, retry_max),
{
    let (secs, nanos) = now_secs_nanos();
    let id = time_id("q-", secs, nanos);
    build_queue_item(id, secs, cmd, timeout_sec, wait_ready_sec, priority, retry_max)
}

/// The timeout a task runs with: 30 s when unset, else 1 to 3600 s.
pub open spec fn effective_timeout_spec(timeout_sec: u64) -> u64 {
    if timeout_sec == 0 {
        30
    } else if timeout_sec > 3600 {
        3600
    } else {
        timeout_sec
    }
}

/// The timeout a task runs with.
pub fn effective_task_timeout_sec(item: &VmExecQueueItem) -> (r: u64)
    ensures
        r == effective_timeout_spec(item.timeout_sec),
{
    if item.timeout_sec == 0 {
        30
    } else if item.timeout_sec > 3600 {
        3600
    } else {
        item.timeout_sec
    }
}

/// A running task past its timeout plus `grace_sec`.
pub open spec fn hard_timed_out_spec(item: VmExecQueueItem, now: u64, grace_sec: u64) -> bool {
    item.status@ == "running"@ && item.started_at_unix != 0 && now > sat_add_u64(
        sat_add_u64(item.started_at_unix as nat, effective_timeout_spec(item.timeout_sec) as nat),
        grace_sec as nat,
    )
}

/// `a + b` capped at `u64::MAX`.
pub open spec fn sat_add_u64(a: nat, b: nat) -> nat {
    if a + b > u64::MAX {
        u64::MAX as nat
    } else {
        a + b
    }
}

/// Whether a running task overran its timeout plus the grace period.
pub fn is_running_task_hard_timed_out(item: &VmExecQueueItem, now: u64, grace_sec: u64) -> (b: bool)
    ensures
        b == hard_timed_out_spec(*item, now, grace_sec),
{
    if !str_eq(item.status.as_str(), "running") || item.started_at_unix == 0 {
        return false;
    }
    let timeout = effective_task_timeout_sec(item);
    let deadline = item.started_at_unix.saturating_add(timeout).saturating_add(grace_sec);
    now > deadline
}

/// The message left on a task the watchdog recovered.
pub open spec fn watchdog_message(timeout: u64, grace_sec: u64) -> Seq<char> {
    "watchdog hard-timeout recovered task (timeout="@ + decimal(timeout as nat) + "s+"@ + decimal(
        grace_sec as nat,
    ) + "s)"@
}

/// `b` is `a` marked failed by the watchdog at `now`.
pub open spec fn recovered_item(a: VmExecQueueItem, b: VmExecQueueItem, now: u64, grace_sec: u64) -> bool {
    &&& b.status@ == "failed"@
    &&& b.finished_at_unix == now
    &&& b.exit_code == -1
    &&& b.next_run_after_unix == 0
    &&& b.message@ == watchdog_message(effective_timeout_spec(a.timeout_sec), grace_sec)
    &&& b.id == a.id && b.command == a.command && b.created_at_unix == a.created_at_unix
    &&& b.timeout_sec == a.timeout_sec && b.wait_ready_sec == a.wait_ready_sec
    &&& b.priority == a.priority && b.retry_max == a.retry_max && b.retry_count == a.retry_count
    &&& b.started_at_unix == a.started_at_unix && b.output_preview == a.output_preview
    &&& b.failure_category == a.failure_category && b.failure_signature == a.failure_signature
    &&& b.failure_key_lines == a.failure_key_lines && b.run_id == a.run_id && b.run_kind == a.run_kind
    &&& b.run_max_runtime_sec == a.run_max_runtime_sec && b.command_risk_level == a.command_risk_level
    &&& b.command_risk_tags == a.command_risk_tags && b.strategy_signature == a.strategy_signature
    &&& b.trigger_task_id == a.trigger_task_id
}

/// How many of the items the watchdog recovers.
pub open spec fn count_timed_out(items: Seq<VmExecQueueItem>, now: u64, grace_sec: u64) -> nat
    decreases items.len(),
{
    if items.len() == 0 {
        0
    } else {
        count_timed_out(items.drop_last(), now, grace_sec) + (if hard_timed_out_spec(items.last(), now, grace_sec) {
            1nat
        } else {
            0nat
        })
    }
}

/// Marks every running task past its hard timeout as failed; returns how many.
pub fn recover_stale_running_tasks_in_queue(items: &mut Vec<VmExecQueueItem>, now: u64, grace_sec: u64) -> (n: usize)
    ensures
        final(items)@.len() == old(items)@.len(),
        n == count_timed_out(old(items)@, now, grace_sec),
        forall|k: int| 0 <= k < old(items)@.len() ==> if hard_timed_out_spec(#[trigger] old(items)@[k], now, grace_sec) {
            recovered_item(old(items)@[k], final(items)@[k], now, grace_sec)
        } else {
            final(items)@[k] == old(items)@[k]
        },
{
    let ghost orig = items@;
    let mut recovered: usize = 0;
    let mut i: usize = 0;
    while i < items.len()
        invariant
            items@.len() == orig.len(),
            i <= items@.len(),
            recovered == count_timed_out(orig.take(i as int), now, grace_sec),
            recovered <= i,
            forall|k: int| i <= k < orig.len() ==> items@[k] == orig[k],
            forall|k: int| 0 <= k < i ==> if hard_timed_out_spec(#[trigger] orig[k], now, grace_sec) {
                recovered_item(orig[k], items@[k], now, grace_sec)
            } else {
                items@[k] == orig[k]
            },
        decreases orig.len() - i,
    {
        assert(orig.take(i + 1).drop_last() =~= orig.take(i as int));
        if is_running_task_hard_timed_out(&items[i], now, grace_sec) {
            let timeout = effective_task_timeout_sec(&items[i]);
            let t = u64_to_decimal(timeout);
            let g = u64_to_decimal(grace_sec);
            let m1 = concat("watchdog hard-timeout recovered task (timeout=", t.as_str());
            let m2 = concat(m1.as_str(), "s+");
            let m3 = concat(m2.as_str(), g.as_str());
            let msg = concat(m3.as_str(), "s)");
            let mut item = items.remove(i);
            item.status = String::from_str("failed");
            item.finished_at_unix = now;
            item.exit_code = -1;
            item.next_run_after_unix = 0;
            item.message = msg;
            let ghost mid = items@;
            items.insert(i, item);
            assert forall|k: int| i < k < orig.len() implies items@[k] == orig[k] by {
                assert(items@[k] == mid[k - 1]);
            }
            recovered += 1;
        }
        i += 1;
    }
    assert(orig.take(orig.len() as int) =~= orig);
    recovered
}

/// How many tasks the watchdog recovered, and the latest time it did.
pub open spec fn watchdog_stats_spec(items: Seq<VmExecQueueItem>) -> (nat, nat)
    decreases items.len(),
{
    if items.len() == 0 {
        (0, 0)
    } else {
        let (n, last) = watchdog_stats_spec(items.drop_last());
        let it = items.last();
        if starts_with(it.message@, "watchdog hard-timeout recovered task"@) {
            (n + 1, if last < it.finished_at_unix { it.finished_at_unix as nat } else { last })
        } else {
            (n, last)
        }
    }
}

/// Counts watchdog recoveries and the time of the latest.
pub fn queue_watchdog_recovery_stats(items: &[VmExecQueueItem]) -> (r: (usize, u64))
    ensures
        (r.0 as nat, r.1 as nat) == watchdog_stats_spec(items@),
{
    let mut total: usize = 0;
    let mut last: u64 = 0;
    let prefix = chars_of("watchdog hard-timeout recovered task");
    let mut i: usize = 0;
    while i < items.len()
        invariant
            prefix@ == "watchdog hard-timeout recovered task"@,
            i <= items.len(),
            total <= i,
            (total as nat, last as nat) == watchdog_stats_spec(items@.take(i as int)),
        decreases items.len() - i,
    {
        assert(items@.take(i + 1).drop_last() =~= items@.take(i as int));
        if chars_start_with(&chars_of(items[i].message.as_str()), &prefix) {
            total += 1;
            if last < items[i].finished_at_unix {
                last = items[i].finished_at_unix;
            }
        }
        i += 1;
    }
    assert(items@.take(items.len() as int) =~= items@);
    (total, last)
}

/// A self-debug run id: trimmed, 1 to 64 characters, letters, digits, `-`, `_`.
pub open spec fn run_id_spec(raw: Seq<char>) -> Option<Seq<char>> {
    let v = trim_seq(raw);
    if v.len() == 0 || v.len() > 64 {
        None
    } else if forall|i: int| 0 <= i < v.len() ==> (is_ascii_alnum(#[trigger] v[i]) || v[i] == '-' || v[i] == '_') {
        Some(v)
    } else {
        None
    }
}

/// Validates a self-debug run id.
pub fn sanitize_self_debug_run_id(raw: &str) -> (r: Option<String>)
    ensures
        match run_id_spec(raw@) {
            Some(s) => r matches Some(x) && x@ == s,
            None => r is None,
        },
{
    let v = trim_chars(&chars_of(raw));
    if v.len() == 0 || v.len() > 64 {
        return None;
    }
    let mut i: usize = 0;
    while i < v.len()
        invariant
            i <= v.len(),
            v@ == trim_seq(raw@),
            !(v@.len() == 0 || v@.len() > 64),
            forall|k: int| 0 <= k < i ==> (is_ascii_alnum(#[trigger] v@[k]) || v@[k] == '-' || v@[k] == '_'),
        decreases v.len() - i,
    {
        let c = v[i];
        if !(ascii_alnum(c) || c == '-' || c == '_') {
            assert(!(is_ascii_alnum(v@[i as int]) || v@[i as int] == '-' || v@[i as int] == '_'));
            return None;
        }
        i += 1;
    }
    Some(string_of(v.as_slice()))
}

/// Two to the power `e`.
pub open spec fn two_pow(e: nat) -> nat
    decreases e,
{
    if e == 0 {
        1
    } else {
        2 * two_pow((e - 1) as nat)
    }
}

/// Seconds to wait before retry number `retry_count`: 5, 10, 20, ... capped at 300.
pub open spec fn backoff_spec(retry_count: u32) -> nat {
    let e: nat = if retry_count <= 1 {
        0
    } else if retry_count - 1 > 6 {
        6
    } else {
        (retry_count - 1) as nat
    };
    if 5 * two_pow(e) > 300 {
        300
    } else {
        5 * two_pow(e)
    }
}

/// The retry backoff in seconds.
pub fn retry_backoff_secs(retry_count: u32) -> (r: u64)
    ensures
        r == backoff_spec(retry_count),
{
    let exp: u32 = if retry_count <= 1 {
        0
    } else if retry_count - 1 > 6 {
        6
    } else {
        retry_count - 1
    };
    let p: u64 = match exp {
        0 => 1,
        1 => 2,
        2 => 4,
        3 => 8,
        4 => 16,
        5 => 32,
        _ => 64,
    };
    proof {
        reveal_with_fuel(two_pow, 7);
    }
    let v = 5 * p;
    if v > 300 {
        300
    } else {
        v
    }
}

/// Whether a run kind belongs to self-debugging.
pub open spec fn sd_kind(kind: Seq<char>) -> bool {
    kind == "self_debug"@ || kind == "self_debug_strategy"@ || kind == "self_debug_verify_after_strategy"@
}

/// Whether a run kind belongs to self-debugging.
pub fn is_self_debug_kind(kind: &str) -> (b: bool)
    ensures
        b == sd_kind(kind@),
{
    str_eq(kind, "self_debug") || str_eq(kind, "self_debug_strategy") || str_eq(kind, "self_debug_verify_after_strategy")
}

/// Statuses of tasks that are still to be done.
pub open spec fn active_status(s: Seq<char>) -> bool {
    s == "pending"@ || s == "running"@ || s == "paused"@
}

/// Whether a status is pending, running or paused.
pub fn is_queue_active_status(status: &str) -> (b: bool)
    ensures
        b == active_status(status@),
{
    str_eq(status, "pending") || str_eq(status, "running") || str_eq(status, "paused")
}

/// Whether an active task already runs the same (trimmed) command.
pub open spec fn has_active_duplicate(items: Seq<VmExecQueueItem>, command: Seq<char>) -> bool {
    let target = trim_seq(command);
    target.len() > 0 && exists|i: int| 0 <= i < items.len() && active_status(#[trigger] items[i].status@) && trim_seq(items[i].command@) == target
}

/// Whether the queue already holds an active task with this command.
pub fn queue_has_active_duplicate(items: &[VmExecQueueItem], command: &str) -> (b: bool)
    ensures
        b == has_active_duplicate(items@, command@),
{
    let target = trim_chars(&chars_of(command));
    if target.len() == 0 {
        return false;
    }
    let mut i: usize = 0;
    while i < items.len()
        invariant
            i <= items.len(),
            target@ == trim_seq(command@),
            target@.len() > 0,
            forall|k: int| 0 <= k < i ==> !(active_status(#[trigger] items@[k].status@) && trim_seq(items@[k].command@) == target@),
        decreases items.len() - i,
    {
        if is_queue_active_status(items[i].status.as_str()) && crate::text::chars_eq(&trim_chars(&chars_of(items[i].command.as_str())), &target) {
            assert(active_status(items@[i as int].status@) && trim_seq(items@[i as int].command@) == target@);
            return true;
        }
        i += 1;
    }
    false
}

/// Priority boost for waiting: one per `step_sec` waited, 0 to `max_boost`.
pub open spec fn aging_boost_spec(created: u64, now: u64, step_sec: u64, max_boost: i32) -> int {
    if created == 0 || now <= created {
        0
    } else {
        let step: int = if step_sec < 1 { 1 } else { step_sec as int };
        let steps: int = ((now - created) as int) / step;
        let cap: int = if max_boost < 0 { 0 } else { max_boost as int };
        if steps > cap {
            cap
        } else {
            steps
        }
    }
}

/// The priority boost a task gains by waiting.
pub fn priority_aging_boost(created_at_unix: u64, now: u64, step_sec: u64, max_boost: i32) -> (r: i32)
    ensures
        r == aging_boost_spec(created_at_unix, now, step_sec, max_boost),
        0 <= r,
        max_boost >= 0 ==> r <= max_boost,
{
    if created_at_unix == 0 || now <= created_at_unix {
        return 0;
    }
    let waited = now - created_at_unix;
    let step = if step_sec < 1 {
        1
    } else {
        step_sec
    };
    let steps = waited / step;
    let cap: i32 = if max_boost < 0 {
        0
    } else {
        max_boost
    };
    if steps > cap as u64 {
        cap
    } else {
        steps as i32
    }
}

/// The priority a task is scheduled with: its own plus the aging boost, within -100 to 100.
pub open spec fn aged_priority_spec(priority: i32, created: u64, now: u64, step_sec: u64, max_boost: i32) -> int {
    let p = priority + aging_boost_spec(created, now, step_sec, max_boost);
    if p < -100 {
        -100
    } else if p > 100 {
        100
    } else {
        p
    }
}

/// The priority a task is scheduled with.
pub fn effective_priority_with_aging(item: &VmExecQueueItem, now: u64, step_sec: u64, max_boost: i32) -> (r: i32)
    ensures
        r == aged_priority_spec(item.priority, item.created_at_unix, now, step_sec, max_boost),
{
    let boost = priority_aging_boost(item.created_at_unix, now, step_sec, max_boost);
    let p: i64 = item.priority as i64 + boost as i64;
    if p < -100 {
        -100
    } else if p > 100 {
        100
    } else {
        p as i32
    }
}

/// How many strategy tasks of a run were injected for a failure signature.
pub open spec fn injected_count_spec(items: Seq<VmExecQueueItem>, run_id: Seq<char>, signature: Seq<char>) -> nat
    decreases items.len(),
{
    if items.len() == 0 {
        0
    } else {
        let x = items.last();
        injected_count_spec(items.drop_last(), run_id, signature) + (if x.run_id@ == run_id && x.run_kind@ == "self_debug_strategy"@ && x.strategy_signature@ == signature {
            1nat
        } else {
            0nat
        })
    }
}

/// Counts the strategy tasks of a run injected for a signature.
pub fn strategy_injected_count(items: &[VmExecQueueItem], run_id: &str, signature: &str) -> (n: usize)
    ensures
        n == injected_count_spec(items@, run_id@, signature@),
{
    let mut n: usize = 0;
    let mut i: usize = 0;
    while i < items.len()
        invariant
            i <= items.len(),
            n <= i,
            n == injected_count_spec(items@.take(i as int), run_id@, signature@),
        decreases items.len() - i,
    {
        assert(items@.take(i + 1).drop_last() =~= items@.take(i as int));
        let x = &items[i];
        if str_eq(x.run_id.as_str(), run_id) && str_eq(x.run_kind.as_str(), "self_debug_strategy") && str_eq(x.strategy_signature.as_str(), signature) {
            n += 1;
        }
        i += 1;
    }
    assert(items@.take(items.len() as int) =~= items@);
    n
}

/// The default remedy command for a failure category.
pub open spec fn default_strategy_spec(category: Seq<char>) -> Seq<char> {
    if category == "missing_dependency"@ {
        "sh -lc 'if command -v apt-get >/dev/null 2>&1; then export DEBIAN_FRONTEND=noninteractive; apt-get update && apt-get install -y build-essential git curl python3 python3-pip nodejs npm || true; elif command -v dnf >/dev/null 2>&1; then dnf install -y gcc gcc-c++ make git curl python3 python3-pip nodejs npm || true; elif command -v yum >/dev/null 2>&1; then yum install -y gcc gcc-c++ make git curl python3 python3-pip nodejs npm || true; elif command -v apk >/dev/null 2>&1; then apk add --no-cache build-base git curl python3 py3-pip nodejs npm || true; else echo no-supported-pkg-manager; fi'"@
    } else if category == "permission"@ {
        "sh -lc 'chmod -R u+rw . 2>/dev/null || true; find . -type d -exec chmod u+rwx {} + 2>/dev/null || true'"@
    } else if category == "timeout"@ {
        "sh -lc 'echo [self-debug][strategy] timeout-diagnostics; ps aux --sort=-%cpu | head -n 20; ps aux --sort=-%mem | head -n 20'"@
    } else if category == "build_error"@ {
        "sh -lc 'echo [self-debug][strategy] build-error-context; git status --short; git diff --stat'"@
    } else if category == "test_failure"@ {
        "sh -lc 'echo [self-debug][strategy] test-failure-context; git status --short; git diff --stat'"@
    } else if category == "runtime_exception"@ {
        "sh -lc 'echo [self-debug][strategy] runtime-exception-context; git status --short; git diff --stat'"@
    } else {
        "sh -lc 'echo [self-debug][strategy] generic-failure-context; git status --short; git diff --stat'"@
    }
}

/// The default remedy command for a failure category.
pub fn default_strategy_command_for_failure_category(category: &str) -> (r: &'static str)
    ensures
        r@ == default_strategy_spec(category@),
{
    if str_eq(category, "missing_dependency") {
        "sh -lc 'if command -v apt-get >/dev/null 2>&1; then export DEBIAN_FRONTEND=noninteractive; apt-get update && apt-get install -y build-essential git curl python3 python3-pip nodejs npm || true; elif command -v dnf >/dev/null 2>&1; then dnf install -y gcc gcc-c++ make git curl python3 python3-pip nodejs npm || true; elif command -v yum >/dev/null 2>&1; then yum install -y gcc gcc-c++ make git curl python3 python3-pip nodejs npm || true; elif command -v apk >/dev/null 2>&1; then apk add --no-cache build-base git curl python3 py3-pip nodejs npm || true; else echo no-supported-pkg-manager; fi'"
    } else if str_eq(category, "permission") {
        "sh -lc 'chmod -R u+rw . 2>/dev/null || true; find . -type d -exec chmod u+rwx {} + 2>/dev/null || true'"
    } else if str_eq(category, "timeout") {
        "sh -lc 'echo [self-debug][strategy] timeout-diagnostics; ps aux --sort=-%cpu | head -n 20; ps aux --sort=-%mem | head -n 20'"
    } else if str_eq(category, "build_error") {
        "sh -lc 'echo [self-debug][strategy] build-error-context; git status --short; git diff --stat'"
    } else if str_eq(category, "test_failure") {
        "sh -lc 'echo [self-debug][strategy] test-failure-context; git status --short; git diff --stat'"
    } else if str_eq(category, "runtime_exception") {
        "sh -lc 'echo [self-debug][strategy] runtime-exception-context; git status --short; git diff --stat'"
    } else {
        "sh -lc 'echo [self-debug][strategy] generic-failure-context; git status --short; git diff --stat'"
    }
}

/// A lower-cased line that reports a failure.
pub open spec fn failure_hit(low: Seq<char>) -> bool {
    contains(low, "error"@) || contains(low, "failed"@) || contains(low, "panic"@) || contains(
        low,
        "exception"@,
    ) || contains(low, "timeout"@) || contains(low, "not found"@) || contains(
        low,
        "permission denied"@,
    ) || contains(low, "assert"@)
}

/// At most the first `n` characters.
pub open spec fn take_chars(t: Seq<char>, n: nat) -> Seq<char> {
    if t.len() <= n {
        t
    } else {
        t.take(n as int)
    }
}

/// One step of failure-line collection (at most 6 lines of 220 characters).
pub open spec fn add_failure_line(out: Seq<Seq<char>>, line: Seq<char>) -> Seq<Seq<char>> {
    let t = trim_seq(line);
    if out.len() >= 6 || t.len() == 0 {
        out
    } else if failure_hit(ascii_lower_seq(t)) {
        out.push(take_chars(t, 220))
    } else {
        out
    }
}

/// Failure-line collection over lines.
pub open spec fn add_failure_lines(out: Seq<Seq<char>>, ls: Seq<Seq<char>>) -> Seq<Seq<char>>
    decreases ls.len(),
{
    if ls.len() == 0 {
        out
    } else {
        add_failure_lines(add_failure_line(out, ls[0]), ls.drop_first())
    }
}

proof fn lemma_add_failure_lines_concat(out: Seq<Seq<char>>, a: Seq<Seq<char>>, b: Seq<Seq<char>>)
    ensures
        add_failure_lines(out, a + b) == add_failure_lines(add_failure_lines(out, a), b),
    decreases a.len(),
{
    if a.len() == 0 {
        assert(a + b =~= b);
    } else {
        assert((a + b).drop_first() =~= a.drop_first() + b);
        assert((a + b)[0] == a[0]);
        lemma_add_failure_lines_concat(add_failure_line(out, a[0]), a.drop_first(), b);
    }
}

/// The key failure lines of a task: from standard error, standard output and
/// the message, or the trimmed message itself when none is found.
pub open spec fn failure_key_lines_spec(stderr: Seq<char>, stdout: Seq<char>, message: Seq<char>) -> Seq<Seq<char>> {
    let out = add_failure_lines(Seq::empty(), lines(stderr) + lines(stdout) + lines(message));
    if out.len() == 0 && trim_seq(message).len() > 0 {
        seq![take_chars(trim_seq(message), 220)]
    } else {
        out
    }
}

fn take_chars_exec(t: &Vec<char>, n: usize) -> (r: Vec<char>)
    ensures
        r@ == take_chars(t@, n as nat),
{
    if t.len() <= n {
        t.clone()
    } else {
        let r = chars_slice(t, 0, n);
        assert(r@ =~= t@.take(n as int));
        r
    }
}

fn add_failure_lines_from(out: &mut Vec<String>, src: &str)
    ensures
        strings_view(final(out)@) == add_failure_lines(strings_view(old(out)@), lines(src@)),
{
    let ls = split_lines(&chars_of(src));
    let ghost lv = lines(src@);
    let mut j: usize = 0;
    assert(lv.skip(0) =~= lv);
    while j < ls.len()
        invariant
            char_vecs_view(ls@) == lv,
            j <= ls.len(),
            add_failure_lines(strings_view(old(out)@), lv) == add_failure_lines(strings_view(out@), lv.skip(j as int)),
        decreases ls.len() - j,
    {
        assert(lv.skip(j as int)[0] == ls@[j as int]@);
        assert(lv.skip(j as int).drop_first() =~= lv.skip(j + 1));
        let t = trim_chars(&ls[j]);
        if out.len() < 6 && t.len() > 0 {
            let low = ascii_lower_chars(&t);
            if contains_lit(&low, "error") || contains_lit(&low, "failed") || contains_lit(&low, "panic")
                || contains_lit(&low, "exception") || contains_lit(&low, "timeout") || contains_lit(&low, "not found")
                || contains_lit(&low, "permission denied") || contains_lit(&low, "assert") {
                let k = take_chars_exec(&t, 220);
                let ghost before = out@;
                out.push(string_of(k.as_slice()));
                assert(strings_view(out@) =~= strings_view(before).push(k@));
            }
        }
        j += 1;
    }
    assert(lv.skip(ls.len() as int) =~= Seq::<Seq<char>>::empty());
}

/// Picks the lines that explain a task failure.
pub fn extract_failure_key_lines(stderr: &str, stdout: &str, message: &str) -> (r: Vec<String>)
    ensures
        strings_view(r@) == failure_key_lines_spec(stderr@, stdout@, message@),
{
    let mut out: Vec<String> = Vec::new();
    assert(strings_view(out@) =~= Seq::<Seq<char>>::empty());
    add_failure_lines_from(&mut out, stderr);
    add_failure_lines_from(&mut out, stdout);
    add_failure_lines_from(&mut out, message);
    proof {
        lemma_add_failure_lines_concat(Seq::empty(), lines(stderr@), lines(stdout@));
        lemma_add_failure_lines_concat(Seq::empty(), lines(stderr@) + lines(stdout@), lines(message@));
    }
    if out.len() == 0 {
        let m = trim_chars(&chars_of(message));
        if m.len() > 0 {
            let k = take_chars_exec(&m, 220);
            out.push(string_of(k.as_slice()));
            assert(strings_view(out@) =~= seq![k@]);
        }
    }
    out
}

/// The category of a failed task, from its lower-cased output and message.
pub open spec fn failure_category_spec(exit_code: i32, full: Seq<char>) -> Seq<char> {
    if contains(full, "timeout"@) || exit_code == 124 || exit_code == 137 {
        "timeout"@
    } else if contains(full, "permission denied"@) {
        "permission"@
    } else if contains(full, "not found"@) || contains(full, "no such file"@) || contains(full, "command not found"@) {
        "missing_dependency"@
    } else if contains(full, "assert"@) || contains(full, "test failed"@) || contains(full, "failures:"@) {
        "test_failure"@
    } else if contains(full, "panic"@) || contains(full, "exception"@) || contains(full, "traceback"@) {
        "runtime_exception"@
    } else if contains(full, "compile"@) || contains(full, "syntax error"@) || contains(full, "cannot find"@) {
        "build_error"@
    } else {
        "unknown_failure"@
    }
}

/// A task's failure category, signature and key lines: nothing for exit
/// codes 0 and 10, `canceled` for -2, else classified from the output.
pub open spec fn classify_failure_spec(exit_code: i32, stderr: Seq<char>, stdout: Seq<char>, message: Seq<char>) -> (Seq<char>, Seq<char>, Seq<Seq<char>>) {
    if exit_code == 0 || exit_code == 10 {
        (Seq::empty(), Seq::empty(), Seq::empty())
    } else if exit_code == -2 {
        ("canceled"@, "execution canceled"@, Seq::empty())
    } else {
        let full = ascii_lower_seq(stderr) + "\n"@ + ascii_lower_seq(stdout) + "\n"@ + ascii_lower_seq(message);
        let key = failure_key_lines_spec(stderr, stdout, message);
        let sig = if key.len() > 0 {
            key[0]
        } else {
            take_chars(trim_seq(message), 160)
        };
        (failure_category_spec(exit_code, full), sig, key)
    }
}

/// Classifies why a task failed.
pub fn classify_failure(exit_code: i32, stderr: &str, stdout: &str, message: &str) -> (r: (String, String, Vec<String>))
    ensures
        (r.0@, r.1@, strings_view(r.2@)) == classify_failure_spec(exit_code, stderr@, stdout@, message@),
{
    if exit_code == 0 || exit_code == 10 {
        let v: Vec<String> = Vec::new();
        assert(strings_view(v@) =~= Seq::<Seq<char>>::empty());
        return (String::new(), String::new(), v);
    }
    if exit_code == -2 {
        let v: Vec<String> = Vec::new();
        assert(strings_view(v@) =~= Seq::<Seq<char>>::empty());
        return (String::from_str("canceled"), String::from_str("execution canceled"), v);
    }
    let mut full = ascii_lower_chars(&chars_of(stderr));
    full.push('\n');
    let mut b = ascii_lower_chars(&chars_of(stdout));
    full.append(&mut b);
    full.push('\n');
    let mut c = ascii_lower_chars(&chars_of(message));
    full.append(&mut c);
    proof {
        reveal_strlit("\n");
    }
    assert(full@ =~= ascii_lower_seq(stderr@) + "\n"@ + ascii_lower_seq(stdout@) + "\n"@ + ascii_lower_seq(message@));
    let category = if contains_lit(&full, "timeout") || exit_code == 124 || exit_code == 137 {
        "timeout"
    } else if contains_lit(&full, "permission denied") {
        "permission"
    } else if contains_lit(&full, "not found") || contains_lit(&full, "no such file") || contains_lit(&full, "command not found") {
        "missing_dependency"
    } else if contains_lit(&full, "assert") || contains_lit(&full, "test failed") || contains_lit(&full, "failures:") {
        "test_failure"
    } else if contains_lit(&full, "panic") || contains_lit(&full, "exception") || contains_lit(&full, "traceback") {
        "runtime_exception"
    } else if contains_lit(&full, "compile") || contains_lit(&full, "syntax error") || contains_lit(&full, "cannot find") {
        "build_error"
    } else {
        "unknown_failure"
    };
    let key_lines = extract_failure_key_lines(stderr, stdout, message);
    let signature = if key_lines.len() > 0 {
        assert(strings_view(key_lines@)[0] == key_lines@[0]@);
        key_lines[0].clone()
    } else {
        let m = trim_chars(&chars_of(message));
        string_of(take_chars_exec(&m, 160).as_slice())
    };
    (String::from_str(category), signature, key_lines)
}

/// A task of the self-debug run `run_id`.
pub open spec fn in_run(it: VmExecQueueItem, run_id: Seq<char>) -> bool {
    it.run_id@ == run_id && sd_kind(it.run_kind@)
}

/// The earliest creation time among the run's tasks (`u64::MAX` when none).
pub open spec fn run_min_created(items: Seq<VmExecQueueItem>, run_id: Seq<char>) -> nat
    decreases items.len(),
{
    if items.len() == 0 {
        u64::MAX as nat
    } else {
        let m = run_min_created(items.drop_last(), run_id);
        let it = items.last();
        if in_run(it, run_id) && it.created_at_unix < m {
            it.created_at_unix as nat
        } else {
            m
        }
    }
}

/// The largest run time limit among the run's tasks (0 when none).
pub open spec fn run_max_runtime(items: Seq<VmExecQueueItem>, run_id: Seq<char>) -> nat
    decreases items.len(),
{
    if items.len() == 0 {
        0
    } else {
        let m = run_max_runtime(items.drop_last(), run_id);
        let it = items.last();
        if in_run(it, run_id) && it.run_max_runtime_sec > m {
            it.run_max_runtime_sec as nat
        } else {
            m
        }
    }
}

/// Whether the run has exceeded its time limit at `now`.
pub open spec fn run_timed_out(items: Seq<VmExecQueueItem>, run_id: Seq<char>, now: u64) -> bool {
    let max_rt = run_max_runtime(items, run_id);
    let min_c = run_min_created(items, run_id);
    trim_seq(run_id).len() > 0 && max_rt != 0 && min_c != u64::MAX && (if now >= min_c {
        now - min_c
    } else {
        0
    }) >= max_rt
}

/// A run task that has not started or is paused.
pub open spec fn cancelable(it: VmExecQueueItem, run_id: Seq<char>) -> bool {
    in_run(it, run_id) && (it.status@ == "pending"@ || it.status@ == "paused"@)
}

/// `b` is `a` canceled by the run time limit at `now`.
pub open spec fn canceled_item(a: VmExecQueueItem, b: VmExecQueueItem, now: u64) -> bool {
    &&& b.status@ == "canceled"@
    &&& b.finished_at_unix == now
    &&& b.exit_code == -2
    &&& b.message@ == "canceled by run max_runtime timeout"@
    &&& b.id == a.id && b.command == a.command && b.created_at_unix == a.created_at_unix
    &&& b.timeout_sec == a.timeout_sec && b.wait_ready_sec == a.wait_ready_sec
    &&& b.priority == a.priority && b.retry_max == a.retry_max && b.retry_count == a.retry_count
    &&& b.next_run_after_unix == a.next_run_after_unix
    &&& b.started_at_unix == a.started_at_unix && b.output_preview == a.output_preview
    &&& b.failure_category == a.failure_category && b.failure_signature == a.failure_signature
    &&& b.failure_key_lines == a.failure_key_lines && b.run_id == a.run_id && b.run_kind == a.run_kind
    &&& b.run_max_runtime_sec == a.run_max_runtime_sec && b.command_risk_level == a.command_risk_level
    &&& b.command_risk_tags == a.command_risk_tags && b.strategy_signature == a.strategy_signature
    &&& b.trigger_task_id == a.trigger_task_id
}

/// Cancels the waiting tasks of a self-debug run that exceeded its time
/// limit; returns the limit when something was canceled.
pub fn enforce_self_debug_run_timeout(items: &mut Vec<VmExecQueueItem>, run_id: &str, now: u64) -> (r: Option<u64>)
    ensures
        final(items)@.len() == old(items)@.len(),
        run_timed_out(old(items)@, run_id@, now) ==> forall|k: int| 0 <= k < old(items)@.len() ==> if cancelable(#[trigger] old(items)@[k], run_id@) {
            canceled_item(old(items)@[k], final(items)@[k], now)
        } else {
            final(items)@[k] == old(items)@[k]
        },
        !run_timed_out(old(items)@, run_id@, now) ==> final(items)@ == old(items)@,
        r == (if run_timed_out(old(items)@, run_id@, now) && exists|k: int| 0 <= k < old(items)@.len() && cancelable(#[trigger] old(items)@[k], run_id@) {
            Some(run_max_runtime(old(items)@, run_id@) as u64)
        } else {
            None
        }),
{
    let ghost orig = items@;
    if trim_chars(&chars_of(run_id)).len() == 0 {
        return None;
    }
    let mut min_created: u64 = u64::MAX;
    let mut max_runtime: u64 = 0;
    let mut i: usize = 0;
    while i < items.len()
        invariant
            items@ == orig,
            i <= items.len(),
            min_created == run_min_created(orig.take(i as int), run_id@),
            max_runtime == run_max_runtime(orig.take(i as int), run_id@),
        decreases items.len() - i,
    {
        assert(orig.take(i + 1).drop_last() =~= orig.take(i as int));
        if str_eq(items[i].run_id.as_str(), run_id) && is_self_debug_kind(items[i].run_kind.as_str()) {
            if items[i].created_at_unix < min_created {
                min_created = items[i].created_at_unix;
            }
            if items[i].run_max_runtime_sec > max_runtime {
                max_runtime = items[i].run_max_runtime_sec;
            }
        }
        i += 1;
    }
    assert(orig.take(orig.len() as int) =~= orig);
    if max_runtime == 0 || min_created == u64::MAX {
        return None;
    }
    if now.saturating_sub(min_created) < max_runtime {
        return None;
    }
    let mut changed: usize = 0;
    let mut j: usize = 0;
    while j < items.len()
        invariant
            items@.len() == orig.len(),
            j <= items@.len(),
            changed <= j,
            changed == 0 <==> !(exists|k: int| 0 <= k < j && cancelable(#[trigger] orig[k], run_id@)),
            forall|k: int| j <= k < orig.len() ==> items@[k] == orig[k],
            forall|k: int| 0 <= k < j ==> if cancelable(#[trigger] orig[k], run_id@) {
                canceled_item(orig[k], items@[k], now)
            } else {
                items@[k] == orig[k]
            },
        decreases orig.len() - j,
    {
        let matches = str_eq(items[j].run_id.as_str(), run_id) && is_self_debug_kind(items[j].run_kind.as_str())
            && (str_eq(items[j].status.as_str(), "pending") || str_eq(items[j].status.as_str(), "paused"));
        assert(items@[j as int] == orig[j as int]);
        assert(matches == cancelable(orig[j as int], run_id@));
        if matches {
            let mut item = items.remove(j);
            item.status = String::from_str("canceled");
            item.finished_at_unix = now;
            item.exit_code = -2;
            item.message = String::from_str("canceled by run max_runtime timeout");
            let ghost mid = items@;
            items.insert(j, item);
            assert forall|k: int| j < k < orig.len() implies items@[k] == orig[k] by {
                assert(items@[k] == mid[k - 1]);
            }
            changed += 1;
        }
        j += 1;
    }
    if changed == 0 {
        return None;
    }
    Some(max_runtime)
}

/// A task of a batch request.
#[derive(Debug, Clone)]
pub struct VmExecBatchTaskPayload {
    pub command: String,
    pub timeout_sec: u64,
    pub wait_ready_sec: u64,
    pub priority: i32,
    pub retry_max: u32,
}

/// The settings a batch task runs with: its own when set (clamped), else the defaults.
pub open spec fn batch_settings(
    task: VmExecBatchTaskPayload,
    default_timeout_sec: u64,
    default_wait_ready_sec: u64,
    default_priority: i32,
    default_retry_max: u32,
) -> (u64, u64, i32, u32) {
    (
        if task.timeout_sec == 0 { default_timeout_sec } else if task.timeout_sec > 3600 { 3600 } else { task.timeout_sec },
        if task.wait_ready_sec == 0 { default_wait_ready_sec } else if task.wait_ready_sec > 600 { 600 } else { task.wait_ready_sec },
        if task.priority == 0 { default_priority } else if task.priority < -100 { -100i32 } else if task.priority > 100 { 100i32 } else { task.priority },
        if task.retry_max == 0 { default_retry_max } else if task.retry_max > 10 { 10 } else { task.retry_max },
    )
}

/// Turns a batch task into a queue task with settings filled in; `None` for a blank command.
pub fn normalize_batch_task(
    task: &VmExecBatchTaskPayload,
    default_timeout_sec: u64,
    default_wait_ready_sec: u64,
    default_priority: i32,
    default_retry_max: u32,
) -> (r: Option<VmExecQueueItem>)
    ensures
        trim_seq(task.command@).len() == 0 ==> r is None,
        trim_seq(task.command@).len() > 0 ==> (r matches Some(it) && ({
            let (t, w, p, m) = batch_settings(*task, default_timeout_sec, default_wait_ready_sec, default_priority, default_retry_max);
            exists|secs: u64, nanos: u32| fresh_item(it, time_id_spec("q-"@, secs, nanos), secs, trim_seq(task.command@), t, w, p, m)
        })),
{
    let cmd = trim(task.command.as_str());
    if chars_of(cmd.as_str()).len() == 0 {
        return None;
    }
    let timeout_sec = if task.timeout_sec == 0 {
        default_timeout_sec
    } else if task.timeout_sec > 3600 {
        3600
    } else {
        task.timeout_sec
    };
    let wait_ready_sec = if task.wait_ready_sec == 0 {
        default_wait_ready_sec
    } else if task.wait_ready_sec > 600 {
        600
    } else {
        task.wait_ready_sec
    };
    let priority = if task.priority == 0 {
        default_priority
    } else if task.priority < -100 {
        -100
    } else if task.priority > 100 {
        100
    } else {
        task.priority
    };
    let retry_max = if task.retry_max == 0 {
        default_retry_max
    } else if task.retry_max > 10 {
        10
    } else {
        task.retry_max
    };
    Some(queue_item_from_values(cmd.as_str(), timeout_sec, wait_ready_sec, priority, retry_max))
}


/// A task refused for permissions is a permission failure: for an exit code
/// other than 0, 10, -2, 124 and 137 whose lower-cased stderr, stdout and
/// message contain `permission denied` but not `timeout`, the category is
/// `permission`.
pub proof fn permission_denied_is_permission(exit_code: i32, stderr: Seq<char>, stdout: Seq<char>, message: Seq<char>)
    requires
        exit_code != 0 && exit_code != 10 && exit_code != -2 && exit_code != 124 && exit_code != 137,
        contains(ascii_lower_seq(stderr) + "\n"@ + ascii_lower_seq(stdout) + "\n"@ + ascii_lower_seq(message), "permission denied"@),
        !contains(ascii_lower_seq(stderr) + "\n"@ + ascii_lower_seq(stdout) + "\n"@ + ascii_lower_seq(message), "timeout"@),
    ensures
        classify_failure_spec(exit_code, stderr, stdout, message).0 == "permission"@,
{
}

} // verus!
