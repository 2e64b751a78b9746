//! Decisions of the coding session: retrying, reverting, validating patches,
//! reading limits, and the repair heuristics carried between iterations.

use vstd::prelude::*;
use crate::failure::{FailureDigest, severity_spec, failure_severity, fatal_marker_spec, eval_has_fatal_runtime_marker, joined_output};
use crate::models::{ClarifyAnswer, EvalResult, SessionState};
use crate::chat::{ChatMessage, messages_view};
use crate::text::{chars_of, concat, contains, contains_lit, lower_chars, lowercase, parse_unsigned, parse_unsigned_exec, str_eq, string_of, to_lower, trim_chars, trim_seq, chars_contain, split_char, split_seq, strings_view, char_vecs_view};

verus! {

/// Whether a session error (given by its message) is worth retrying.
pub open spec fn retryable_session_message(low: Seq<char>) -> bool {
    contains(low, "timed out"@) || contains(low, "timeout"@) || contains(
        low,
        "read streaming chunk"@,
    ) || contains(low, "connection reset"@) || contains(low, "connection refused"@) || contains(
        low,
        "temporarily unavailable"@,
    ) || contains(low, "broken pipe"@) || contains(low, "http status not success: 408"@)
        || contains(low, "http status not success: 429"@) || contains(
        low,
        "http status not success: 502"@,
    ) || contains(low, "http status not success: 503"@) || contains(
        low,
        "http status not success: 504"@,
    )
}

/// Whether the session error with message `err` is transient and worth retrying.
pub fn should_retry_session_error(err: &str) -> (b: bool)
    ensures
        b == retryable_session_message(lowercase(err@)),
{
    let v = chars_of(err);
    let s = lower_chars(&v);
    contains_lit(&s, "timed out") || contains_lit(&s, "timeout") || contains_lit(
        &s,
        "read streaming chunk",
    ) || contains_lit(&s, "connection reset") || contains_lit(&s, "connection refused")
        || contains_lit(&s, "temporarily unavailable") || contains_lit(&s, "broken pipe")
        || contains_lit(&s, "http status not success: 408") || contains_lit(
        &s,
        "http status not success: 429",
    ) || contains_lit(&s, "http status not success: 502") || contains_lit(
        &s,
        "http status not success: 503",
    ) || contains_lit(&s, "http status not success: 504")
}

/// A configured unsigned value when it parses and lies in `[lo, hi]`, else `default`.
pub open spec fn bounded_setting(raw: Option<Seq<char>>, max: nat, lo: nat, hi: nat, default: nat) -> nat {
    match raw {
        Some(s) => match parse_unsigned(s, max) {
            Some(v) => if lo <= v && v <= hi {
                v
            } else {
                default
            },
            None => default,
        },
        None => default,
    }
}

/// The view of an optional string.
pub open spec fn opt_view(raw: Option<&str>) -> Option<Seq<char>> {
    match raw {
        Some(s) => Some(s@),
        None => None,
    }
}

/// Reads an unsigned setting: parsed as the type whose largest value is
/// `max`, kept when within `[lo, hi]`, otherwise `default`.
pub fn bounded_setting_exec(raw: Option<&str>, max: u64, lo: u64, hi: u64, default: u64) -> (r: u64)
    ensures
        r == bounded_setting(opt_view(raw), max as nat, lo as nat, hi as nat, default as nat),
{
    match raw {
        Some(s) => match parse_unsigned_exec(s, max) {
            Some(v) => if lo <= v && v <= hi {
                v
            } else {
                default
            },
            None => default,
        },
        None => default,
    }
}

/// How many times a failed session is retried (`AUTOCODING_SESSION_RETRY_MAX`,
/// at most 8, default 2).
pub fn session_retry_max_attempts(raw: Option<&str>) -> (r: u32)
    ensures
        r == bounded_setting(opt_view(raw), u32::MAX as nat, 0, 8, 2),
{
    bounded_setting_exec(raw, 4294967295, 0, 8, 2) as u32
}

/// The delay in milliseconds before retry number `attempt`: the base delay
/// (`AUTOCODING_SESSION_RETRY_BASE_MS`, 200 to 10000, default 1200) times the
/// attempt number (at least 1), saturating.
pub fn session_retry_delay_ms(attempt: u32, raw_base: Option<&str>) -> (r: u64)
    ensures
        ({
            let base = bounded_setting(opt_view(raw_base), u64::MAX as nat, 200, 10000, 1200);
            let factor: nat = if attempt < 1 {
                1
            } else {
                attempt as nat
            };
            r == (if base * factor > u64::MAX {
                u64::MAX as nat
            } else {
                base * factor
            })
        }),
{
    let base = bounded_setting_exec(raw_base, 18446744073709551615, 200, 10000, 1200);
    let factor: u64 = if attempt < 1 {
        1
    } else {
        attempt as u64
    };
    assert(base * factor <= 10000 * 4294967295) by (nonlinear_arith)
        requires
            base <= 10000,
            factor <= 4294967295,
    ;
    base * factor
}

/// The largest number of history messages (`AUTOCODING_HISTORY_MAX_MESSAGES`,
/// 10 to 200, default 40).
pub fn read_history_max_messages(raw: Option<&str>) -> (r: usize)
    ensures
        r == bounded_setting(opt_view(raw), usize::MAX as nat, 10, 200, 40),
{
    bounded_setting_exec(raw, usize::MAX as u64, 10, 200, 40) as usize
}

/// The largest number of history bytes (`AUTOCODING_HISTORY_MAX_CHARS`,
/// 10000 to 2000000, default 70000).
pub fn read_history_max_chars(raw: Option<&str>) -> (r: usize)
    ensures
        r == bounded_setting(opt_view(raw), usize::MAX as nat, 10000, 2000000, 70000),
{
    bounded_setting_exec(raw, usize::MAX as u64, 10000, 2000000, 70000) as usize
}

/// Keywords from a comma-separated list: each piece trimmed and lower-cased,
/// empty ones dropped.
pub open spec fn keywords_of(pieces: Seq<Seq<char>>) -> Seq<Seq<char>>
    decreases pieces.len(),
{
    if pieces.len() == 0 {
        Seq::empty()
    } else {
        let rest = keywords_of(pieces.drop_last());
        let k = lowercase(trim_seq(pieces.last()));
        if k.len() > 0 {
            rest.push(k)
        } else {
            rest
        }
    }
}

/// The keyword list configured by `raw`.
pub open spec fn keyword_list(raw: Option<Seq<char>>) -> Seq<Seq<char>> {
    match raw {
        Some(s) => keywords_of(split_seq(s, ',')),
        None => Seq::empty(),
    }
}

/// Parses a comma-separated keyword list.
pub fn read_keyword_list(raw: Option<&str>) -> (r: Vec<String>)
    ensures
        strings_view(r@) == keyword_list(opt_view(raw)),
{
    let mut out: Vec<String> = Vec::new();
    match raw {
        None => {
            assert(strings_view(out@) =~= Seq::<Seq<char>>::empty());
            out
        },
        Some(s) => {
            let pieces = split_char(&chars_of(s), ',');
            let ghost ps = split_seq(s@, ',');
            let mut i: usize = 0;
            assert(strings_view(out@) =~= Seq::<Seq<char>>::empty());
            assert(ps.take(0) =~= Seq::<Seq<char>>::empty());
            while i < pieces.len()
                invariant
                    char_vecs_view(pieces@) == ps,
                    i <= pieces.len(),
                    strings_view(out@) == keywords_of(ps.take(i as int)),
                decreases pieces.len() - i,
            {
                let t = trim_chars(&pieces[i]);
                let k = lower_chars(&t);
                let ghost before = out@;
                assert(ps.take(i + 1).drop_last() =~= ps.take(i as int));
                assert(ps.take(i + 1).last() == pieces@[i as int]@);
                if k.len() > 0 {
                    out.push(string_of(k.as_slice()));
                    assert(strings_view(out@) =~= strings_view(before).push(k@));
                }
                i += 1;
            }
            assert(ps.take(pieces.len() as int) =~= ps);
            out
        },
    }
}

/// Some keyword of `keys` occurs in `hay`.
pub open spec fn any_keyword_in(hay: Seq<char>, keys: Seq<Seq<char>>) -> bool {
    exists|i: int| 0 <= i < keys.len() && contains(hay, #[trigger] keys[i])
}

fn any_keyword_in_exec(hay: &Vec<char>, keys: &Vec<String>) -> (b: bool)
    ensures
        b == any_keyword_in(hay@, strings_view(keys@)),
{
    let mut i: usize = 0;
    while i < keys.len()
        invariant
            i <= keys.len(),
            forall|k: int| 0 <= k < i ==> !contains(hay@, #[trigger] strings_view(keys@)[k]),
        decreases keys.len() - i,
    {
        let k = chars_of(keys[i].as_str());
        if chars_contain(hay, &k) {
            assert(strings_view(keys@)[i as int] == k@);
            return true;
        }
        i += 1;
    }
    false
}

/// Whether a failure signature may trigger an automatic revert: no deny
/// keyword occurs in it, and some allow keyword does unless none is given.
pub open spec fn signature_allowed_spec(sig: Seq<char>, deny: Seq<Seq<char>>, allow: Seq<Seq<char>>) -> bool {
    let low = lowercase(sig);
    if deny.len() > 0 && any_keyword_in(low, deny) {
        false
    } else if allow.len() == 0 {
        true
    } else {
        any_keyword_in(low, allow)
    }
}

/// Whether `signature` passes the deny and allow keyword lists.
pub fn auto_revert_signature_allowed(signature: &str, deny: &Vec<String>, allow: &Vec<String>) -> (b: bool)
    ensures
        b == signature_allowed_spec(signature@, strings_view(deny@), strings_view(allow@)),
{
    let sig = lower_chars(&chars_of(signature));
    if deny.len() > 0 && any_keyword_in_exec(&sig, deny) {
        return false;
    }
    if allow.len() == 0 {
        return true;
    }
    any_keyword_in_exec(&sig, allow)
}

/// A boolean flag: `1`, `true`, `yes` or `on` (any case) are true, any other
/// value false, and an absent one `default`.
pub open spec fn flag_spec(raw: Option<Seq<char>>, default: bool) -> bool {
    match raw {
        Some(s) => {
            let l = lowercase(s);
            l == "1"@ || l == "true"@ || l == "yes"@ || l == "on"@
        },
        None => default,
    }
}

/// Parses a boolean flag.
pub fn bool_flag(raw: Option<&str>, default: bool) -> (b: bool)
    ensures
        b == flag_spec(opt_view(raw), default),
{
    match raw {
        Some(s) => {
            let l = to_lower(s);
            let l = l.as_str();
            str_eq(l, "1") || str_eq(l, "true") || str_eq(l, "yes") || str_eq(l, "on")
        },
        None => default,
    }
}

/// The auto-revert profile: the one the session set (already lower-cased),
/// else the configured one when it is `conservative`, `balanced` or
/// `aggressive` (any case), else `balanced`.
pub open spec fn profile_spec(current: Option<Seq<char>>, raw: Option<Seq<char>>) -> Seq<char> {
    match current {
        Some(p) => p,
        None => match raw {
            Some(s) => {
                let l = lowercase(s);
                if l == "conservative"@ || l == "balanced"@ || l == "aggressive"@ {
                    l
                } else {
                    "balanced"@
                }
            },
            None => "balanced"@,
        },
    }
}

/// Decides the auto-revert profile.
pub fn auto_revert_profile(current: Option<&str>, raw: Option<&str>) -> (r: String)
    ensures
        r@ == profile_spec(opt_view(current), opt_view(raw)),
{
    match current {
        Some(p) => String::from_str(p),
        None => match raw {
            Some(s) => {
                let l = to_lower(s);
                if str_eq(l.as_str(), "conservative") || str_eq(l.as_str(), "balanced") || str_eq(
                    l.as_str(),
                    "aggressive",
                ) {
                    l
                } else {
                    String::from_str("balanced")
                }
            },
            None => String::from_str("balanced"),
        },
    }
}

/// A per-profile default.
pub open spec fn by_profile(profile: Seq<char>, conservative: nat, aggressive: nat, other: nat) -> nat {
    if profile == "conservative"@ {
        conservative
    } else if profile == "aggressive"@ {
        aggressive
    } else {
        other
    }
}

fn by_profile_exec(profile: &str, conservative: u64, aggressive: u64, other: u64) -> (r: u64)
    ensures
        r == by_profile(profile@, conservative as nat, aggressive as nat, other as nat),
{
    if str_eq(profile, "conservative") {
        conservative
    } else if str_eq(profile, "aggressive") {
        aggressive
    } else {
        other
    }
}

/// A setting read as `max`-bounded unsigned within `[lo, hi]`, else the profile default.
pub open spec fn profile_setting(
    raw: Option<Seq<char>>,
    max: nat,
    lo: nat,
    hi: nat,
    profile: Seq<char>,
    c: nat,
    a: nat,
    o: nat,
) -> nat {
    let fallback = by_profile(profile, c, a, o);
    match raw {
        Some(s) => match parse_unsigned(s, max) {
            Some(v) => if lo <= v && v <= hi {
                v
            } else {
                fallback
            },
            None => fallback,
        },
        None => fallback,
    }
}

/// Repeats of one failure before reverting (2 to 20; by profile 4, 2, else 3).
pub fn auto_revert_repeat_count(raw: Option<&str>, profile: &str) -> (r: u32)
    ensures
        r == profile_setting(opt_view(raw), u32::MAX as nat, 2, 20, profile@, 4, 2, 3),
{
    let d = by_profile_exec(profile, 4, 2, 3);
    bounded_setting_exec(raw, 4294967295, 2, 20, d) as u32
}

/// Least severity that allows a revert (0 to 3; by profile 3, 1, else 2).
pub fn auto_revert_min_severity(raw: Option<&str>, profile: &str) -> (r: u8)
    ensures
        r == profile_setting(opt_view(raw), u8::MAX as nat, 0, 3, profile@, 3, 1, 2),
{
    let d = by_profile_exec(profile, 3, 1, 2);
    bounded_setting_exec(raw, 255, 0, 3, d) as u8
}

/// Least severity increase counted as worsening (0 to 3; by profile 2, 0, else 1).
pub fn auto_revert_min_worse_delta(raw: Option<&str>, profile: &str) -> (r: u8)
    ensures
        r == profile_setting(opt_view(raw), u8::MAX as nat, 0, 3, profile@, 2, 0, 1),
{
    let d = by_profile_exec(profile, 2, 0, 1);
    bounded_setting_exec(raw, 255, 0, 3, d) as u8
}

/// Iterations to wait after a revert (0 to 20; by profile 3, 1, else 2).
pub fn auto_revert_cooldown_iters(raw: Option<&str>, profile: &str) -> (r: u32)
    ensures
        r == profile_setting(opt_view(raw), u32::MAX as nat, 0, 20, profile@, 3, 1, 2),
{
    let d = by_profile_exec(profile, 3, 1, 2);
    bounded_setting_exec(raw, 4294967295, 0, 20, d) as u32
}

/// What the session remembers of earlier evaluation failures.
pub struct RepairHeuristics {
    pub total_patches: u32,
    pub consecutive_eval_failures: u32,
    pub consecutive_same_failure: u32,
    pub last_failure_signature: String,
    pub last_failure_severity: u8,
    pub last_failure_category: String,
    pub last_auto_revert_iter: u32,
}

impl RepairHeuristics {
    /// No failure seen yet.
    pub fn new() -> (r: RepairHeuristics)
        ensures
            r.total_patches == 0,
            r.consecutive_eval_failures == 0,
            r.consecutive_same_failure == 0,
            r.last_failure_signature@ == Seq::<char>::empty(),
            r.last_failure_severity == 0,
            r.last_failure_category@ == Seq::<char>::empty(),
            r.last_auto_revert_iter == 0,
    {
        RepairHeuristics {
            total_patches: 0,
            consecutive_eval_failures: 0,
            consecutive_same_failure: 0,
            last_failure_signature: String::new(),
            last_failure_severity: 0,
            last_failure_category: String::new(),
            last_auto_revert_iter: 0,
        }
    }

    /// Forgets the failure streak after a passing evaluation.
    pub fn record_success(&mut self)
        ensures
            final(self).total_patches == old(self).total_patches,
            final(self).last_auto_revert_iter == old(self).last_auto_revert_iter,
            final(self).consecutive_eval_failures == 0,
            final(self).consecutive_same_failure == 0,
            final(self).last_failure_signature@ == Seq::<char>::empty(),
            final(self).last_failure_severity == 0,
            final(self).last_failure_category@ == Seq::<char>::empty(),
    {
        self.consecutive_eval_failures = 0;
        self.consecutive_same_failure = 0;
        self.last_failure_signature = String::new();
        self.last_failure_severity = 0;
        self.last_failure_category = String::new();
    }

    /// Records a failed evaluation: the streak grows, and the same-failure
    /// streak grows when the signature is non-empty and repeats, else restarts at 1.
    pub fn record_failure(&mut self, digest: &FailureDigest)
        requires
            old(self).consecutive_eval_failures < u32::MAX,
            old(self).consecutive_same_failure < u32::MAX,
        ensures
            final(self).total_patches == old(self).total_patches,
            final(self).last_auto_revert_iter == old(self).last_auto_revert_iter,
            final(self).consecutive_eval_failures == old(self).consecutive_eval_failures + 1,
            final(self).consecutive_same_failure == (if digest.signature@.len() > 0
                && digest.signature@ == old(self).last_failure_signature@ {
                old(self).consecutive_same_failure + 1
            } else {
                1
            }),
            final(self).last_failure_signature@ == digest.signature@,
            final(self).last_failure_severity == severity_spec(digest.category@),
            final(self).last_failure_category@ == digest.category@,
    {
        let severity = failure_severity(digest.category.as_str());
        self.consecutive_eval_failures = self.consecutive_eval_failures + 1;
        let sig = chars_of(digest.signature.as_str());
        if sig.len() > 0 && str_eq(digest.signature.as_str(), self.last_failure_signature.as_str()) {
            self.consecutive_same_failure = self.consecutive_same_failure + 1;
        } else {
            self.consecutive_same_failure = 1;
        }
        self.last_failure_signature = digest.signature.clone();
        self.last_failure_severity = severity;
        self.last_failure_category = digest.category.clone();
    }

    /// Records a failure of the confirming re-run after a passing evaluation:
    /// both streaks restart at 1.
    pub fn record_verify_failure(&mut self, digest: &FailureDigest)
        ensures
            final(self).total_patches == old(self).total_patches,
            final(self).last_auto_revert_iter == old(self).last_auto_revert_iter,
            final(self).consecutive_eval_failures == 1,
            final(self).consecutive_same_failure == 1,
            final(self).last_failure_signature@ == digest.signature@,
            final(self).last_failure_severity == severity_spec(digest.category@),
            final(self).last_failure_category@ == digest.category@,
    {
        self.consecutive_eval_failures = 1;
        self.consecutive_same_failure = 1;
        self.last_failure_signature = digest.signature.clone();
        self.last_failure_severity = failure_severity(digest.category.as_str());
        self.last_failure_category = digest.category.clone();
    }
}

/// The automatic-revert configuration, read once per session.
pub struct AutoRevertSettings {
    pub on_repeat: bool,
    pub cooldown_iters: u32,
    pub repeat_count: u32,
    pub min_severity: u8,
    pub on_worse: bool,
    pub min_worse_delta: u8,
    pub deny: Vec<String>,
    pub allow: Vec<String>,
}

/// Whether the last patch is reverted automatically after this failure.
pub open spec fn should_auto_revert_spec(
    s: AutoRevertSettings,
    repair: RepairHeuristics,
    category: Seq<char>,
    signature: Seq<char>,
    previous_severity: u8,
    iter: u32,
) -> bool {
    if !s.on_repeat {
        false
    } else if repair.last_auto_revert_iter > 0 && iter < repair.last_auto_revert_iter
        + s.cooldown_iters {
        false
    } else {
        let now = severity_spec(category);
        let severity_gate = now >= s.min_severity;
        let repeated_gate = repair.consecutive_same_failure >= s.repeat_count;
        let raised = if previous_severity + s.min_worse_delta > 255 {
            255
        } else {
            previous_severity + s.min_worse_delta
        };
        let worsened_gate = s.on_worse && now >= raised;
        let signature_gate = signature_allowed_spec(
            signature,
            strings_view(s.deny@),
            strings_view(s.allow@),
        );
        (repeated_gate || worsened_gate) && severity_gate && signature_gate
    }
}

/// Decides whether to revert the last patch after a failed evaluation:
/// outside the cooldown, when the failure repeated often enough or got worse,
/// is severe enough and its signature passes the keyword lists.
pub fn should_auto_revert(
    s: &AutoRevertSettings,
    repair: &RepairHeuristics,
    digest: &FailureDigest,
    previous_severity: u8,
    iter: u32,
) -> (b: bool)
    ensures
        b == should_auto_revert_spec(
            *s,
            *repair,
            digest.category@,
            digest.signature@,
            previous_severity,
            iter,
        ),
{
    if !s.on_repeat {
        return false;
    }
    if repair.last_auto_revert_iter > 0 && (iter as u64) < (repair.last_auto_revert_iter as u64)
        + (s.cooldown_iters as u64) {
        return false;
    }
    let now = failure_severity(digest.category.as_str());
    let severity_gate = now >= s.min_severity;
    let repeated_gate = repair.consecutive_same_failure >= s.repeat_count;
    let raised = previous_severity.saturating_add(s.min_worse_delta);
    let worsened_gate = s.on_worse && now >= raised;
    let signature_gate = auto_revert_signature_allowed(digest.signature.as_str(), &s.deny, &s.allow);
    (repeated_gate || worsened_gate) && severity_gate && signature_gate
}

/// The verdict on a patch given as a unified diff.
pub open spec fn patch_diff_verdict(summary: Seq<char>, diff: Seq<char>) -> Result<(), Seq<char>> {
    if trim_seq(summary).len() == 0 {
        Err("summary 不能为空"@)
    } else if trim_seq(diff).len() == 0 {
        Err("diff 不能为空"@)
    } else {
        Ok(())
    }
}

/// Checks that a diff patch has a summary and a non-blank diff.
pub fn validate_patch_payload(summary: &str, diff: &str) -> (r: Result<(), String>)
    ensures
        crate::patch::result_view(r) == patch_diff_verdict(summary@, diff@),
{
    let s = trim_chars(&chars_of(summary));
    if s.len() == 0 {
        return Err(String::from_str("summary 不能为空"));
    }
    let d = trim_chars(&chars_of(diff));
    if d.len() == 0 {
        return Err(String::from_str("diff 不能为空"));
    }
    Ok(())
}

/// The advice given to the model when its diff did not apply.
pub open spec fn apply_hint_spec(low: Seq<char>) -> Seq<char> {
    if contains(low, "patch failed"@) || contains(low, "does not apply"@) {
        "hunk 与当前文件不匹配，请缩小改动范围并更新 hunk 上下文后重试。"@
    } else if contains(low, "corrupt patch"@) || contains(low, "malformed patch"@) {
        "diff 格式损坏，请输出标准 unified diff（包含 diff --git / --- / +++ / @@）。"@
    } else if contains(low, "no such file"@) {
        "目标文件路径不正确，请核对 b/<path> 与仓库实际相对路径。"@
    } else {
        "请输出更小、更精确、可直接应用的 unified diff。"@
    }
}

/// Advice for the model after `git apply` failed with `err`.
pub fn apply_failure_hint(err: &str) -> (r: &'static str)
    ensures
        r@ == apply_hint_spec(lowercase(err@)),
{
    let t = lower_chars(&chars_of(err));
    if contains_lit(&t, "patch failed") || contains_lit(&t, "does not apply") {
        return "hunk 与当前文件不匹配，请缩小改动范围并更新 hunk 上下文后重试。";
    }
    if contains_lit(&t, "corrupt patch") || contains_lit(&t, "malformed patch") {
        return "diff 格式损坏，请输出标准 unified diff（包含 diff --git / --- / +++ / @@）。";
    }
    if contains_lit(&t, "no such file") {
        return "目标文件路径不正确，请核对 b/<path> 与仓库实际相对路径。";
    }
    "请输出更小、更精确、可直接应用的 unified diff。"
}

/// `parts` joined by `sep`.
pub open spec fn join_spec(parts: Seq<Seq<char>>, sep: Seq<char>) -> Seq<char>
    decreases parts.len(),
{
    if parts.len() == 0 {
        Seq::empty()
    } else if parts.len() == 1 {
        parts[0]
    } else {
        join_spec(parts.drop_last(), sep) + sep + parts.last()
    }
}

/// Joins strings with a separator, as `[String]::join` does.
pub fn join_strings(parts: &Vec<String>, sep: &str) -> (r: String)
    ensures
        r@ == join_spec(strings_view(parts@), sep@),
{
    let ghost pv = strings_view(parts@);
    let mut out = String::new();
    let mut i: usize = 0;
    while i < parts.len()
        invariant
            pv == strings_view(parts@),
            i <= parts.len(),
            out@ == join_spec(pv.take(i as int), sep@),
        decreases parts.len() - i,
    {
        assert(pv.take(i + 1).drop_last() =~= pv.take(i as int));
        if i > 0 {
            let t = concat(out.as_str(), sep);
            out = concat(t.as_str(), parts[i].as_str());
        } else {
            assert(pv.take(1) =~= seq![pv[0]]);
            out = parts[i].clone();
        }
        i += 1;
    }
    assert(pv.take(parts.len() as int) =~= pv);
    out
}

/// The feedback text of the first answer with id `feedback`: its text, else
/// its single choice, else its choices joined by `, `.
pub open spec fn feedback_spec(answers: Seq<ClarifyAnswer>) -> Seq<char>
    decreases answers.len(),
{
    if answers.len() == 0 {
        Seq::empty()
    } else if answers[0].id@ == "feedback"@ {
        let a = answers[0];
        if a.text@.len() > 0 {
            a.text@
        } else if a.single@.len() > 0 {
            a.single@
        } else if a.multi@.len() > 0 {
            join_spec(strings_view(a.multi@), ", "@)
        } else {
            Seq::empty()
        }
    } else {
        feedback_spec(answers.drop_first())
    }
}

/// The user's feedback after a passing evaluation.
pub fn extract_feedback_text(answers: &[ClarifyAnswer]) -> (r: String)
    ensures
        r@ == feedback_spec(answers@),
{
    let mut i: usize = 0;
    assert(answers@.skip(0) =~= answers@);
    while i < answers.len()
        invariant
            i <= answers.len(),
            feedback_spec(answers@) == feedback_spec(answers@.skip(i as int)),
        decreases answers.len() - i,
    {
        assert(answers@.skip(i as int)[0] == answers@[i as int]);
        assert(answers@.skip(i as int).drop_first() =~= answers@.skip(i + 1));
        let a = &answers[i];
        if str_eq(a.id.as_str(), "feedback") {
            if chars_of(a.text.as_str()).len() > 0 {
                return a.text.clone();
            }
            if chars_of(a.single.as_str()).len() > 0 {
                return a.single.clone();
            }
            if a.multi.len() > 0 {
                return join_strings(&a.multi, ", ");
            }
            return String::new();
        }
        i += 1;
    }
    assert(answers@.skip(i as int).len() == 0);
    String::new()
}

/// Whether an evaluation passed: exit code 0 and no fatal runtime marker.
pub fn eval_passed(result: &EvalResult) -> (b: bool)
    ensures
        b == (result.exit_code == 0 && !fatal_marker_spec(
            lowercase(joined_output(result.stdout@, result.stderr@)),
        )),
{
    result.exit_code == 0 && !eval_has_fatal_runtime_marker(result.stdout.as_str(), result.stderr.as_str())
}

/// A checkpoint of the session at `iteration`, stamped `now`.
pub fn build_session_state(
    goal: &str,
    model: &str,
    eval_cmd: &str,
    messages: &Vec<ChatMessage>,
    iteration: u32,
    status: &str,
    now: u64,
) -> (r: SessionState)
    ensures
        r.schema_version == 2,
        r.goal@ == goal@,
        r.model@ == model@,
        r.eval_cmd@ == eval_cmd@,
        r.iteration == iteration,
        r.last_status@ == status@,
        r.updated_at_unix == now,
        r.message_count == messages.len(),
        messages_view(r.messages@) == messages_view(messages@),
{
    let mut copy: Vec<ChatMessage> = Vec::new();
    let mut i: usize = 0;
    while i < messages.len()
        invariant
            i <= messages.len(),
            messages_view(copy@) == messages_view(messages@).take(i as int),
        decreases messages.len() - i,
    {
        let ghost before = copy@;
        copy.push(messages[i].duplicate());
        assert(messages_view(copy@) =~= messages_view(before).push(messages_view(messages@)[i as int]));
        i += 1;
        assert(messages_view(copy@) =~= messages_view(messages@).take(i as int));
    }
    assert(messages_view(messages@).take(messages.len() as int) =~= messages_view(messages@));
    SessionState {
        schema_version: 2,
        goal: String::from_str(goal),
        model: String::from_str(model),
        eval_cmd: String::from_str(eval_cmd),
        iteration,
        last_status: String::from_str(status),
        updated_at_unix: now,
        message_count: messages.len(),
        messages: copy,
    }
}

} // verus!
