//! Runtime statistics of the web console: samples, histories, readiness and
//! the release gate.

use vstd::prelude::*;
use crate::text::{
    chars_of, concat, contains, contains_lit, decimal, find_chars, find_seq, first_non_ws, is_ws,
    char_is_ws, lower_chars, lowercase, parse_unsigned, parse_unsigned_exec, starts_with,
    strip_prefix_chars, strip_suffix_chars, ends_with, string_of, strings_view, trim_chars,
    trim_seq, u64_to_decimal, chars_slice,
};
use crate::protocol::{join_spec, join_strings};

verus! {

/// Counters and histories the console keeps about agent runs.
#[derive(Debug, Clone)]
pub struct RuntimeStatus {
    pub running: bool,
    pub last_start_unix: u64,
    pub last_workspace: String,
    pub last_goal: String,
    pub total_events: u64,
    pub total_logs: u64,
    pub total_done_ok: u64,
    pub total_done_fail: u64,
    pub last_error: String,
    pub api_ms_samples: Vec<u32>,
    pub eval_ms_samples: Vec<u32>,
    pub done_history: Vec<(u64, bool)>,
    pub digest_history: Vec<(u64, String)>,
    pub root_cause_history: Vec<(u64, String)>,
}

impl Default for RuntimeStatus {
    /// Idle, with nothing recorded.
    fn default() -> (r: RuntimeStatus)
        ensures
            !r.running,
            r.last_start_unix == 0,
            r.last_workspace@.len() == 0,
            r.last_goal@.len() == 0,
            r.total_events == 0,
            r.total_logs == 0,
            r.total_done_ok == 0,
            r.total_done_fail == 0,
            r.last_error@.len() == 0,
            r.api_ms_samples@.len() == 0,
            r.eval_ms_samples@.len() == 0,
            r.done_history@.len() == 0,
            r.digest_history@.len() == 0,
            r.root_cause_history@.len() == 0,
    {
        RuntimeStatus {
            running: false,
            last_start_unix: 0,
            last_workspace: String::new(),
            last_goal: String::new(),
            total_events: 0,
            total_logs: 0,
            total_done_ok: 0,
            total_done_fail: 0,
            last_error: String::new(),
            api_ms_samples: Vec::new(),
            eval_ms_samples: Vec::new(),
            done_history: Vec::new(),
            digest_history: Vec::new(),
            root_cause_history: Vec::new(),
        }
    }
}

/// `s` with `x` appended, keeping only the newest `max_len` entries.
pub open spec fn bounded_push<T>(s: Seq<T>, x: T, max_len: nat) -> Seq<T> {
    let t = s.push(x);
    if t.len() > max_len {
        t.skip(t.len() - max_len)
    } else {
        t
    }
}

/// Appends `x`, dropping the oldest entries beyond `max_len`.
pub fn push_bounded<T>(v: &mut Vec<T>, x: T, max_len: usize)
    ensures
        final(v)@ == bounded_push(old(v)@, x, max_len as nat),
{
    v.push(x);
    if v.len() > max_len {
        let drop_n = v.len() - max_len;
        let tail = v.split_off(drop_n);
        *v = tail;
    }
}

/// Records a duration sample, keeping the newest `max_len`.
pub fn push_sample(samples: &mut Vec<u32>, value: u32, max_len: usize)
    ensures
        final(samples)@ == bounded_push(old(samples)@, value, max_len as nat),
{
    push_bounded(samples, value, max_len)
}

/// Records a failure category or signature with its time, keeping the newest `max_len`.
pub fn push_digest(history: &mut Vec<(u64, String)>, ts: u64, category: String, max_len: usize)
    ensures
        final(history)@ == bounded_push(old(history)@, (ts, category), max_len as nat),
{
    push_bounded(history, (ts, category), max_len)
}

/// Records the outcome of a run with its time, keeping the newest `max_len`.
pub fn push_done_history(history: &mut Vec<(u64, bool)>, ts: u64, ok: bool, max_len: usize)
    ensures
        final(history)@ == bounded_push(old(history)@, (ts, ok), max_len as nat),
{
    push_bounded(history, (ts, ok), max_len)
}

/// A duration in a log line `<prefix><n>ms`, `n` a `u32` up to blanks.
pub open spec fn perf_ms_spec(line: Seq<char>, prefix: Seq<char>) -> Option<nat> {
    if starts_with(line, prefix) {
        let tail = line.skip(prefix.len() as int);
        if ends_with(tail, "ms"@) {
            parse_unsigned(trim_seq(tail.take(tail.len() - 2)), u32::MAX as nat)
        } else {
            None
        }
    } else {
        None
    }
}

/// Reads `<n>ms` after the number part of a line.
fn ms_value(tail: &Vec<char>) -> (r: Option<u32>)
    ensures
        match (if ends_with(tail@, "ms"@) {
            parse_unsigned(trim_seq(tail@.take(tail@.len() - 2)), u32::MAX as nat)
        } else {
            None
        }) {
            Some(v) => r == Some(v as u32),
            None => r is None,
        },
{
    let ms = chars_of("ms");
    proof {
        reveal_strlit("ms");
    }
    match strip_suffix_chars(tail, &ms) {
        None => None,
        Some(n) => {
            let t = trim_chars(&n);
            let ts = string_of(t.as_slice());
            match parse_unsigned_exec(ts.as_str(), 4294967295) {
                Some(v) => Some(v as u32),
                None => None,
            }
        },
    }
}

/// Reads a duration such as `[Perf] deepseek_api=1234ms` after `prefix`.
pub fn parse_perf_ms(line: &str, prefix: &str) -> (r: Option<u32>)
    ensures
        match perf_ms_spec(line@, prefix@) {
            Some(v) => r == Some(v as u32),
            None => r is None,
        },
{
    let l = chars_of(line);
    let p = chars_of(prefix);
    match strip_prefix_chars(&l, &p) {
        None => None,
        Some(tail) => ms_value(&tail),
    }
}

/// A duration in an evaluation timing line `[Perf] eval_<stage>=<n>ms`.
pub open spec fn eval_ms_spec(line: Seq<char>) -> Option<nat> {
    if starts_with(line, "[Perf] eval_"@) {
        match find_seq(line, "="@) {
            Some(idx) => {
                let tail = line.skip(idx + 1);
                if ends_with(tail, "ms"@) {
                    parse_unsigned(trim_seq(tail.take(tail.len() - 2)), u32::MAX as nat)
                } else {
                    None
                }
            },
            None => None,
        }
    } else {
        None
    }
}

/// Reads the duration of an evaluation timing line.
pub fn parse_eval_ms(line: &str) -> (r: Option<u32>)
    ensures
        match eval_ms_spec(line@) {
            Some(v) => r == Some(v as u32),
            None => r is None,
        },
{
    let l = chars_of(line);
    let p = chars_of("[Perf] eval_");
    if strip_prefix_chars(&l, &p).is_none() {
        return None;
    }
    let eq = chars_of("=");
    proof {
        reveal_strlit("=");
    }
    assert(eq@.len() == 1);
    match find_chars(&l, &eq) {
        None => None,
        Some(idx) => {
            let tail = chars_slice(&l, idx + 1, l.len());
            assert(tail@ =~= l@.skip(idx + 1));
            ms_value(&tail)
        },
    }
}

/// Index of the first whitespace at or after `i` (or the length).
pub open spec fn next_ws(s: Seq<char>, i: int) -> int
    decreases s.len() - i,
{
    if i < 0 || i >= s.len() {
        s.len() as int
    } else if is_ws(s[i]) {
        i
    } else {
        next_ws(s, i + 1)
    }
}

/// The failure category of an `[Eval-Digest] category=<c> ...` line: its first word.
pub open spec fn digest_category_spec(line: Seq<char>) -> Option<Seq<char>> {
    let prefix = "[Eval-Digest] category="@;
    if starts_with(line, prefix) {
        let tail = line.skip(prefix.len() as int);
        let a = first_non_ws(tail, 0);
        if a >= tail.len() {
            None
        } else {
            Some(tail.subrange(a, next_ws(tail, a)))
        }
    } else {
        None
    }
}

proof fn lemma_next_ws(s: Seq<char>, i: int)
    requires
        0 <= i <= s.len(),
    ensures
        i <= next_ws(s, i) <= s.len(),
    decreases s.len() - i,
{
    if i < s.len() && !is_ws(s[i]) {
        lemma_next_ws(s, i + 1);
    }
}

proof fn lemma_first_non_ws(s: Seq<char>, i: int)
    requires
        0 <= i <= s.len(),
    ensures
        i <= first_non_ws(s, i) <= s.len(),
    decreases s.len() - i,
{
    if i < s.len() && is_ws(s[i]) {
        lemma_first_non_ws(s, i + 1);
    }
}

/// Reads the category of an evaluation digest log line.
pub fn parse_eval_digest_category(line: &str) -> (r: Option<String>)
    ensures
        match digest_category_spec(line@) {
            Some(c) => r is Some && r->0@ == c,
            None => r is None,
        },
{
    let l = chars_of(line);
    let p = chars_of("[Eval-Digest] category=");
    match strip_prefix_chars(&l, &p) {
        None => None,
        Some(tail) => {
            let n = tail.len();
            let mut a: usize = 0;
            while a < n && char_is_ws(tail[a])
                invariant
                    n == tail.len(),
                    a <= n,
                    first_non_ws(tail@, a as int) == first_non_ws(tail@, 0),
                decreases n - a,
            {
                a += 1;
            }
            if a >= n {
                return None;
            }
            let mut b: usize = a;
            while b < n && !char_is_ws(tail[b])
                invariant
                    n == tail.len(),
                    a <= b <= n,
                    next_ws(tail@, b as int) == next_ws(tail@, a as int),
                decreases n - b,
            {
                b += 1;
            }
            let w = chars_slice(&tail, a, b);
            Some(string_of(w.as_slice()))
        },
    }
}

/// The signature in an `... signature=<s>` line: trimmed, at most 120 characters.
pub open spec fn digest_signature_spec(line: Seq<char>) -> Option<Seq<char>> {
    match find_seq(line, " signature="@) {
        Some(idx) => {
            let sig = trim_seq(line.skip(idx + 11));
            if sig.len() == 0 {
                None
            } else if sig.len() > 120 {
                Some(sig.take(120))
            } else {
                Some(sig)
            }
        },
        None => None,
    }
}

/// Reads the failure signature of an evaluation digest log line.
pub fn parse_eval_digest_signature(line: &str) -> (r: Option<String>)
    ensures
        match digest_signature_spec(line@) {
            Some(c) => r is Some && r->0@ == c,
            None => r is None,
        },
{
    let l = chars_of(line);
    let key = chars_of(" signature=");
    proof {
        reveal_strlit(" signature=");
    }
    assert(key@.len() == 11);
    match find_chars(&l, &key) {
        None => None,
        Some(idx) => {
            let rest = chars_slice(&l, idx + 11, l.len());
            assert(rest@ =~= l@.skip(idx + 11));
            let sig = trim_chars(&rest);
            if sig.len() == 0 {
                return None;
            }
            if sig.len() > 120 {
                let t = chars_slice(&sig, 0, 120);
                assert(t@ =~= sig@.take(120));
                return Some(string_of(t.as_slice()));
            }
            Some(string_of(sig.as_slice()))
        },
    }
}

/// `a - b`, or 0 when `b > a`.
pub open spec fn sat_sub(a: nat, b: nat) -> nat {
    if a >= b {
        (a - b) as nat
    } else {
        0
    }
}

/// Outcomes in `h` at most `window` seconds before `now`: (successes, failures).
pub open spec fn recent_counts(h: Seq<(u64, bool)>, window: nat, now: nat) -> (nat, nat)
    decreases h.len(),
{
    if h.len() == 0 {
        (0, 0)
    } else {
        let (ok, fail) = recent_counts(h.drop_last(), window, now);
        let (ts, is_ok) = h.last();
        if sat_sub(now, ts as nat) <= window {
            if is_ok {
                (ok + 1, fail)
            } else {
                (ok, fail + 1)
            }
        } else {
            (ok, fail)
        }
    }
}

/// Counts the successes and failures within the last `window_secs` seconds.
pub fn done_recent_counts(history: &[(u64, bool)], window_secs: u64, now: u64) -> (r: (u64, u64))
    ensures
        r.0 as nat == recent_counts(history@, window_secs as nat, now as nat).0,
        r.1 as nat == recent_counts(history@, window_secs as nat, now as nat).1,
        r.0 + r.1 <= history@.len(),
{
    let mut ok: u64 = 0;
    let mut fail: u64 = 0;
    let mut i: usize = 0;
    while i < history.len()
        invariant
            i <= history.len(),
            ok + fail <= i,
            (ok as nat, fail as nat) == recent_counts(history@.take(i as int), window_secs as nat, now as nat),
        decreases history.len() - i,
    {
        assert(history@.take(i + 1).drop_last() =~= history@.take(i as int));
        let (ts, is_ok) = history[i];
        if now.saturating_sub(ts) <= window_secs {
            if is_ok {
                ok += 1;
            } else {
                fail += 1;
            }
        }
        i += 1;
    }
    assert(history@.take(history.len() as int) =~= history@);
    (ok, fail)
}

/// The readiness level shown on the dashboard.
pub open spec fn readiness_level_spec(
    running: bool,
    total_ok: u64,
    total_fail: u64,
    ok5: u64,
    fail5: u64,
) -> Seq<char> {
    if running {
        "running"@
    } else if fail5 > 0 {
        "red"@
    } else if ok5 > 0 {
        "green"@
    } else if total_fail > total_ok {
        "yellow"@
    } else {
        "idle"@
    }
}

/// The readiness level: running, red after recent failures, green after
/// recent successes, yellow when failures dominate overall, else idle.
pub fn readiness_level(runtime: &RuntimeStatus, done_5m_ok: u64, done_5m_fail: u64) -> (r: &'static str)
    ensures
        r@ == readiness_level_spec(
            runtime.running,
            runtime.total_done_ok,
            runtime.total_done_fail,
            done_5m_ok,
            done_5m_fail,
        ),
{
    if runtime.running {
        return "running";
    }
    if done_5m_fail > 0 {
        return "red";
    }
    if done_5m_ok > 0 {
        return "green";
    }
    if runtime.total_done_fail > runtime.total_done_ok {
        return "yellow";
    }
    "idle"
}

/// The readiness score (0 to 100). The recent success rate is
/// `ok5 * 100 / (ok5 + fail5)`, compared without rounding.
pub open spec fn readiness_score_spec(
    running: bool,
    last_error: Seq<char>,
    ok5: nat,
    fail5: nat,
    api_p95: Option<u32>,
    eval_p95: Option<u32>,
) -> int {
    let total = ok5 + fail5;
    100 - (if running {
        10int
    } else {
        0
    }) - (if fail5 > 0 {
        30int
    } else {
        0
    }) - (if total > 0 && ok5 * 100 < 60 * total {
        25int
    } else if total > 0 && ok5 * 100 < 85 * total {
        10
    } else {
        0
    }) - (if total == 0 {
        5int
    } else {
        0
    }) - (if api_p95 matches Some(v) && v > 60000 {
        10int
    } else {
        0
    }) - (if eval_p95 matches Some(v) && v > 120000 {
        15int
    } else {
        0
    }) - (if trim_seq(last_error).len() > 0 {
        5int
    } else {
        0
    })
}

/// Scores how ready the project is for release.
pub fn readiness_score(
    runtime: &RuntimeStatus,
    done_5m_ok: u64,
    done_5m_fail: u64,
    api_p95_ms: Option<u32>,
    eval_p95_ms: Option<u32>,
) -> (r: u8)
    requires
        done_5m_ok + done_5m_fail <= u64::MAX,
    ensures
        r == readiness_score_spec(
            runtime.running,
            runtime.last_error@,
            done_5m_ok as nat,
            done_5m_fail as nat,
            api_p95_ms,
            eval_p95_ms,
        ),
{
    let mut score: i32 = 100;
    if runtime.running {
        score -= 10;
    }
    if done_5m_fail > 0 {
        score -= 30;
    }
    let total: u128 = done_5m_ok as u128 + done_5m_fail as u128;
    let ok100: u128 = done_5m_ok as u128 * 100;
    if total > 0 && ok100 < 60 * total {
        score -= 25;
    } else if total > 0 && ok100 < 85 * total {
        score -= 10;
    }
    if total == 0 {
        score -= 5;
    }
    if let Some(v) = api_p95_ms {
        if v > 60000 {
            score -= 10;
        }
    }
    if let Some(v) = eval_p95_ms {
        if v > 120000 {
            score -= 15;
        }
    }
    if trim_chars(&chars_of(runtime.last_error.as_str())).len() > 0 {
        score -= 5;
    }
    score as u8
}

/// The release blockers: recent failures, a recent success rate under 80%
/// (shown as `rate_label`), a slow evaluation p95, and a session error.
pub open spec fn release_blockers_spec(
    last_error: Seq<char>,
    ok5: nat,
    fail5: nat,
    rate_label: Seq<char>,
    eval_p95: Option<u32>,
) -> Seq<Seq<char>> {
    let total = ok5 + fail5;
    let a: Seq<Seq<char>> = if fail5 > 0 {
        seq!["最近5分钟存在失败结果"@]
    } else {
        Seq::empty()
    };
    let b = if total > 0 && ok5 * 100 < 80 * total {
        a.push("最近5分钟成功率偏低: "@ + rate_label + "%"@)
    } else {
        a
    };
    let c = match eval_p95 {
        Some(v) => if v > 120000 {
            b.push("评测耗时 p95 过高: "@ + decimal(v as nat) + "ms"@)
        } else {
            b
        },
        None => b,
    };
    if contains(lowercase(last_error), "session error"@) {
        c.push("最近会话出现 Session error"@)
    } else {
        c
    }
}

/// What blocks a release. `rate_label` is the recent success rate printed
/// with one decimal by the caller.
pub fn release_blockers(
    runtime: &RuntimeStatus,
    done_5m_ok: u64,
    done_5m_fail: u64,
    rate_label: &str,
    eval_p95_ms: Option<u32>,
) -> (r: Vec<String>)
    ensures
        strings_view(r@) == release_blockers_spec(
            runtime.last_error@,
            done_5m_ok as nat,
            done_5m_fail as nat,
            rate_label@,
            eval_p95_ms,
        ),
{
    let mut out: Vec<String> = Vec::new();
    let ghost s0 = strings_view(out@);
    if done_5m_fail > 0 {
        out.push(String::from_str("最近5分钟存在失败结果"));
    }
    let ghost s1 = strings_view(out@);
    assert(s1 =~= (if done_5m_fail > 0 {
        seq!["最近5分钟存在失败结果"@]
    } else {
        Seq::<Seq<char>>::empty()
    }));
    let total: u128 = done_5m_ok as u128 + done_5m_fail as u128;
    if total > 0 && (done_5m_ok as u128) * 100 < 80 * total {
        let a = concat("最近5分钟成功率偏低: ", rate_label);
        out.push(concat(a.as_str(), "%"));
        assert(strings_view(out@) =~= s1.push(a@ + "%"@));
    }
    let ghost s2 = strings_view(out@);
    if let Some(v) = eval_p95_ms {
        if v > 120000 {
            let n = u64_to_decimal(v as u64);
            let a = concat("评测耗时 p95 过高: ", n.as_str());
            out.push(concat(a.as_str(), "ms"));
            assert(strings_view(out@) =~= s2.push(a@ + "ms"@));
        }
    }
    let ghost s3 = strings_view(out@);
    let low = lower_chars(&chars_of(runtime.last_error.as_str()));
    if contains_lit(&low, "session error") {
        out.push(String::from_str("最近会话出现 Session error"));
        assert(strings_view(out@) =~= s3.push("最近会话出现 Session error"@));
    }
    out
}

/// Suggested next steps before a release.
pub open spec fn release_actions_spec(last_error: Seq<char>, api_p95: Option<u32>, eval_p95: Option<u32>) -> Seq<Seq<char>> {
    let a: Seq<Seq<char>> = if api_p95 matches Some(v) && v > 60000 {
        seq!["检查网络质量，或提高 AUTOCODING_API_TIMEOUT_SECS"@]
    } else {
        Seq::empty()
    };
    let b = if eval_p95 matches Some(v) && v > 120000 {
        a.push("检查评测脚本性能，必要时提高 AUTOCODING_EVAL_TIMEOUT_SECS"@)
    } else {
        a
    };
    let c = if trim_seq(last_error).len() > 0 {
        b.push("根据 last_error 优先修复根因，再继续迭代"@)
    } else {
        b
    };
    if c.len() == 0 {
        seq!["当前无明显阻断，可进行灰度发布"@]
    } else {
        c
    }
}

/// Suggests actions from the latency percentiles and the last error.
pub fn release_actions(runtime: &RuntimeStatus, api_p95_ms: Option<u32>, eval_p95_ms: Option<u32>) -> (r: Vec<String>)
    ensures
        strings_view(r@) == release_actions_spec(runtime.last_error@, api_p95_ms, eval_p95_ms),
{
    let mut out: Vec<String> = Vec::new();
    if let Some(v) = api_p95_ms {
        if v > 60000 {
            out.push(String::from_str("检查网络质量，或提高 AUTOCODING_API_TIMEOUT_SECS"));
        }
    }
    let ghost s1 = strings_view(out@);
    assert(s1 =~= (if api_p95_ms matches Some(v) && v > 60000 {
        seq!["检查网络质量，或提高 AUTOCODING_API_TIMEOUT_SECS"@]
    } else {
        Seq::<Seq<char>>::empty()
    }));
    if let Some(v) = eval_p95_ms {
        if v > 120000 {
            out.push(String::from_str("检查评测脚本性能，必要时提高 AUTOCODING_EVAL_TIMEOUT_SECS"));
            assert(strings_view(out@) =~= s1.push("检查评测脚本性能，必要时提高 AUTOCODING_EVAL_TIMEOUT_SECS"@));
        }
    }
    let ghost s2 = strings_view(out@);
    if trim_chars(&chars_of(runtime.last_error.as_str())).len() > 0 {
        out.push(String::from_str("根据 last_error 优先修复根因，再继续迭代"));
        assert(strings_view(out@) =~= s2.push("根据 last_error 优先修复根因，再继续迭代"@));
    }
    if out.len() == 0 {
        out.push(String::from_str("当前无明显阻断，可进行灰度发布"));
        assert(strings_view(out@) =~= seq!["当前无明显阻断，可进行灰度发布"@]);
    }
    out
}

/// The release gate: refused while running, with blockers, or under the threshold.
pub open spec fn release_gate_spec(score: u8, threshold: u8, blockers: Seq<Seq<char>>, running: bool) -> (bool, Seq<char>) {
    if running {
        (false, "任务仍在运行中"@)
    } else if blockers.len() > 0 {
        (false, join_spec(blockers, "；"@))
    } else if score < threshold {
        (false, "readiness_score="@ + decimal(score as nat) + " 低于阈值 "@ + decimal(threshold as nat))
    } else {
        (true, "通过发布门禁"@)
    }
}

/// Decides whether a release may go ahead, and why.
pub fn release_gate(readiness_score: u8, gate_threshold: u8, blockers: &[String], running: bool) -> (r: (bool, String))
    ensures
        (r.0, r.1@) == release_gate_spec(readiness_score, gate_threshold, strings_view(blockers@), running),
{
    if running {
        return (false, String::from_str("任务仍在运行中"));
    }
    if blockers.len() > 0 {
        let mut v: Vec<String> = Vec::new();
        let mut i: usize = 0;
        while i < blockers.len()
            invariant
                i <= blockers.len(),
                strings_view(v@) == strings_view(blockers@).take(i as int),
            decreases blockers.len() - i,
        {
            let ghost before = v@;
            v.push(blockers[i].clone());
            assert(strings_view(v@) =~= strings_view(before).push(blockers@[i as int]@));
            i += 1;
            assert(strings_view(v@) =~= strings_view(blockers@).take(i as int));
        }
        assert(strings_view(blockers@).take(blockers.len() as int) =~= strings_view(blockers@));
        return (false, join_strings(&v, "；"));
    }
    if readiness_score < gate_threshold {
        let a = u64_to_decimal(readiness_score as u64);
        let b = u64_to_decimal(gate_threshold as u64);
        let m1 = concat("readiness_score=", a.as_str());
        let m2 = concat(m1.as_str(), " 低于阈值 ");
        return (false, concat(m2.as_str(), b.as_str()));
    }
    (true, String::from_str("通过发布门禁"))
}

} // verus!
