//! Task plans for VM execution: the batches of the built-in and custom
//! profiles, and the cycles of a self-debug plan.

use vstd::prelude::*;
use crate::text::{chars_eq, chars_of, concat, decimal, str_eq, string_of, strings_view, trim_chars, trim_seq, u64_to_decimal};
use crate::vm::{ProfileRuntimeOptions, opt_str, prepend_workdir, with_workdir_spec, normalize_profile_workdir, workdir_spec,
    default_test_cmd_for_profile, default_test_cmd_spec};
use crate::vm_queue::VmExecBatchTaskPayload;

verus! {

/// `o`'s value, or `d`.
pub open spec fn or_default(o: Option<Seq<char>>, d: Seq<char>) -> Seq<char> {
    match o {
        Some(v) => v,
        None => d,
    }
}

/// The commands of a built-in profile before the workdir prefix; `None`
/// for another profile.
pub open spec fn builtin_profile_commands(profile: Seq<char>, test_cmd: Option<Seq<char>>) -> Option<Seq<Seq<char>>> {
    let p = trim_seq(profile);
    if p == "rust-self-debug-basic"@ {
        Some(seq!["pwd"@, "git status --short"@, or_default(test_cmd, "bash scripts/run_tests.sh"@), "cargo check"@, "cargo test -q"@])
    } else if p == "python-self-debug-basic"@ {
        Some(seq!["pwd"@, "git status --short"@, "python3 -m pip --version"@, or_default(test_cmd, "python3 -m pytest -q"@)])
    } else if p == "node-self-debug-basic"@ {
        Some(seq!["pwd"@, "git status --short"@, "npm --version"@, or_default(test_cmd, "npm test -- --watch=false"@)])
    } else {
        None
    }
}

/// `tasks` run `cmds` in order, each in the workdir, with default settings.
pub open spec fn tasks_run(tasks: Seq<VmExecBatchTaskPayload>, cmds: Seq<Seq<char>>, workdir: Option<Seq<char>>) -> bool {
    &&& tasks.len() == cmds.len()
    &&& forall|i: int| 0 <= i < tasks.len() ==> {
        &&& (#[trigger] tasks[i]).command@ == with_workdir_spec(cmds[i], workdir)
        &&& tasks[i].timeout_sec == 0
        &&& tasks[i].wait_ready_sec == 0
        &&& tasks[i].priority == 0
        &&& tasks[i].retry_max == 0
    }
}

fn opt_as_str(o: &Option<String>) -> (r: Option<&str>)
    ensures
        crate::protocol::opt_view(r) == opt_str(*o),
{
    match o {
        Some(w) => Some(w.as_str()),
        None => None,
    }
}

fn tasks_from(cmds: &Vec<String>, workdir: Option<&str>) -> (r: Vec<VmExecBatchTaskPayload>)
    ensures
        tasks_run(r@, strings_view(cmds@), crate::protocol::opt_view(workdir)),
{
    let mut out: Vec<VmExecBatchTaskPayload> = Vec::new();
    let mut i: usize = 0;
    while i < cmds.len()
        invariant
            i <= cmds.len(),
            tasks_run(out@, strings_view(cmds@).take(i as int), crate::protocol::opt_view(workdir)),
        decreases cmds.len() - i,
    {
        let t = VmExecBatchTaskPayload {
            command: prepend_workdir(cmds[i].as_str(), workdir),
            timeout_sec: 0,
            wait_ready_sec: 0,
            priority: 0,
            retry_max: 0,
        };
        out.push(t);
        assert(strings_view(cmds@).take(i + 1) =~= strings_view(cmds@).take(i as int).push(cmds@[i as int]@));
        i += 1;
    }
    assert(strings_view(cmds@).take(cmds.len() as int) =~= strings_view(cmds@));
    out
}

fn push_str(v: &mut Vec<String>, s: &str)
    ensures
        strings_view(final(v)@) == strings_view(old(v)@).push(s@),
{
    v.push(s.to_owned());
    assert(strings_view(v@) =~= strings_view(old(v)@).push(s@));
}

/// The tasks of a built-in profile (see `builtin_profile_commands`), each
/// prefixed with the options' workdir; `None` for another profile.
pub fn build_builtin_profile_batch_tasks(profile: &str, opts: &ProfileRuntimeOptions) -> (r: Option<Vec<VmExecBatchTaskPayload>>)
    ensures
        match builtin_profile_commands(profile@, opt_str(opts.test_cmd)) {
            Some(cmds) => r matches Some(t) && tasks_run(t@, cmds, opt_str(opts.workdir)),
            None => r is None,
        },
{
    let p = trim_chars(&chars_of(profile));
    let wd = opt_as_str(&opts.workdir);
    let tc = opt_as_str(&opts.test_cmd);
    let mut cmds: Vec<String> = Vec::new();
    assert(strings_view(cmds@) =~= Seq::<Seq<char>>::empty());
    if chars_eq(&p, &chars_of("rust-self-debug-basic")) {
        push_str(&mut cmds, "pwd");
        push_str(&mut cmds, "git status --short");
        push_str(&mut cmds, match tc { Some(t) => t, None => "bash scripts/run_tests.sh" });
        push_str(&mut cmds, "cargo check");
        push_str(&mut cmds, "cargo test -q");
    } else if chars_eq(&p, &chars_of("python-self-debug-basic")) {
        push_str(&mut cmds, "pwd");
        push_str(&mut cmds, "git status --short");
        push_str(&mut cmds, "python3 -m pip --version");
        push_str(&mut cmds, match tc { Some(t) => t, None => "python3 -m pytest -q" });
    } else if chars_eq(&p, &chars_of("node-self-debug-basic")) {
        push_str(&mut cmds, "pwd");
        push_str(&mut cmds, "git status --short");
        push_str(&mut cmds, "npm --version");
        push_str(&mut cmds, match tc { Some(t) => t, None => "npm test -- --watch=false" });
    } else {
        return None;
    }
    let ghost want = builtin_profile_commands(profile@, opt_str(opts.test_cmd))->Some_0;
    assert(strings_view(cmds@) =~= want);
    Some(tasks_from(&cmds, wd))
}

/// The commands of the first custom profile named `profile`.
pub open spec fn custom_lookup(custom: Seq<(String, Vec<String>)>, profile: Seq<char>) -> Option<Seq<Seq<char>>>
    decreases custom.len(),
{
    if custom.len() == 0 {
        None
    } else if custom[0].0@ == profile {
        Some(strings_view(custom[0].1@))
    } else {
        custom_lookup(custom.drop_first(), profile)
    }
}

/// The tasks of a profile: a built-in one's, else those of the custom
/// profile of that name when it has commands; `None` otherwise.
pub open spec fn profile_tasks_spec(custom: Seq<(String, Vec<String>)>, profile: Seq<char>, opts: ProfileRuntimeOptions) -> Option<Seq<Seq<char>>> {
    match builtin_profile_commands(profile, opt_str(opts.test_cmd)) {
        Some(c) => Some(c),
        None => match custom_lookup(custom, profile) {
            Some(c) => if c.len() > 0 { Some(c) } else { None },
            None => None,
        },
    }
}

/// The tasks of `profile` (see `profile_tasks_spec`), given the custom
/// profiles as (name, commands) pairs.
pub fn build_profile_batch_tasks(
    custom: &[(String, Vec<String>)],
    profile: &str,
    opts: &ProfileRuntimeOptions,
) -> (r: Option<Vec<VmExecBatchTaskPayload>>)
    ensures
        match profile_tasks_spec(custom@, profile@, *opts) {
            Some(cmds) => r matches Some(t) && tasks_run(t@, cmds, opt_str(opts.workdir)),
            None => r is None,
        },
{
    let b = build_builtin_profile_batch_tasks(profile, opts);
    if b.is_some() {
        return b;
    }
    let mut i: usize = 0;
    assert(custom@.skip(0) =~= custom@);
    while i < custom.len()
        invariant
            i <= custom.len(),
            builtin_profile_commands(profile@, opt_str(opts.test_cmd)) is None,
            custom_lookup(custom@, profile@) == custom_lookup(custom@.skip(i as int), profile@),
        decreases custom.len() - i,
    {
        assert(custom@.skip(i as int)[0] == custom@[i as int]);
        if str_eq(custom[i].0.as_str(), profile) {
            let cmds = &custom[i].1;
            assert(custom_lookup(custom@.skip(i as int), profile@) == Some(strings_view(custom@[i as int].1@)));
            if cmds.len() == 0 {
                return None;
            }
            let wd = opt_as_str(&opts.workdir);
            return Some(tasks_from(cmds, wd));
        }
        assert(custom@.skip(i as int).drop_first() =~= custom@.skip(i + 1));
        i += 1;
    }
    None
}

/// A request for a self-debug plan.
#[derive(Debug, Clone)]
pub struct VmSelfDebugPlanPayload {
    pub name: String,
    pub run_id: String,
    pub profile: String,
    pub cycles: u32,
    pub workdir: String,
    pub test_cmd: String,
    pub fix_cmd: String,
    pub verify_cmd: String,
    pub success_streak_target: u32,
    pub fail_streak_target: u32,
    pub max_task_budget: u32,
    pub max_runtime_sec: u64,
    pub timeout_sec: u64,
    pub wait_ready_sec: u64,
    pub priority: i32,
    pub retry_max: u32,
}

/// `v` or its default when zero, kept within `[lo, hi]`.
pub open spec fn or_clamped(v: u32, dflt: u32, lo: u32, hi: u32) -> u32 {
    if v == 0 {
        dflt
    } else if v < lo {
        lo
    } else if v > hi {
        hi
    } else {
        v
    }
}

fn clamp_or(v: u32, dflt: u32, lo: u32, hi: u32) -> (r: u32)
    requires
        lo <= hi,
    ensures
        r == or_clamped(v, dflt, lo, hi),
{
    if v == 0 {
        dflt
    } else if v < lo {
        lo
    } else if v > hi {
        hi
    } else {
        v
    }
}

/// `s` with each `'` written as `'"'"'`, for use inside single quotes.
pub open spec fn quote_escape(s: Seq<char>) -> Seq<char>
    decreases s.len(),
{
    if s.len() == 0 {
        Seq::empty()
    } else {
        quote_escape(s.drop_last()) + if s.last() == '\'' { "'\"'\"'"@ } else { seq![s.last()] }
    }
}

fn escape_quotes(s: &str) -> (r: String)
    ensures
        r@ == quote_escape(s@),
{
    let v = chars_of(s);
    let esc = chars_of("'\"'\"'");
    let mut out: Vec<char> = Vec::new();
    let mut i: usize = 0;
    assert(v@.take(0) =~= Seq::<char>::empty());
    while i < v.len()
        invariant
            i <= v.len(),
            esc@ == "'\"'\"'"@,
            out@ == quote_escape(v@.take(i as int)),
        decreases v.len() - i,
    {
        assert(v@.take(i + 1).drop_last() =~= v@.take(i as int));
        assert(v@.take(i + 1).last() == v@[i as int]);
        let ghost before = out@;
        if v[i] == '\'' {
            let mut j: usize = 0;
            while j < esc.len()
                invariant
                    j <= esc.len(),
                    out@ == before + esc@.take(j as int),
                decreases esc.len() - j,
            {
                out.push(esc[j]);
                assert(esc@.take(j + 1) =~= esc@.take(j as int).push(esc@[j as int]));
                j += 1;
            }
            assert(esc@.take(esc.len() as int) =~= esc@);
        } else {
            out.push(v[i]);
            assert(out@ =~= before + seq![v@[i as int]]);
        }
        i += 1;
    }
    assert(v@.take(v.len() as int) =~= v@);
    string_of(out.as_slice())
}

/// The command that resets the streak counters before the first cycle.
pub open spec fn plan_init_cmd() -> Seq<char> {
    "sh -lc \"mkdir -p .kacf && echo 0 > .kacf/self_debug_success_streak && echo 0 > .kacf/self_debug_fail_streak\""@
}

/// The command that ends the plan early once a streak asked for it.
pub open spec fn plan_stop_cmd() -> Seq<char> {
    "sh -lc \"if [ -f .kacf/self_debug_stop_request ]; then echo '[self-debug] early-stop flag detected'; exit 10; fi\""@
}

/// The banner of cycle `i` of `n`, with `word` `start` or `end`.
pub open spec fn cycle_banner(i: nat, n: nat, word: Seq<char>) -> Seq<char> {
    "echo '[self-debug] cycle "@ + decimal(i) + "/"@ + decimal(n) + " "@ + word + "'"@
}

/// The verification gate: runs the verify command and keeps the success and
/// failure streaks, asking for an early stop when one reaches its target.
pub open spec fn verify_gate(verify: Seq<char>, success: nat, fail: nat) -> Seq<char> {
    "sh -lc '"@ + quote_escape(verify)
    + " && s=$(cat .kacf/self_debug_success_streak 2>/dev/null || echo 0); f=$(cat .kacf/self_debug_fail_streak 2>/dev/null || echo 0); s=$((s+1)); f=0; echo $s > .kacf/self_debug_success_streak; echo $f > .kacf/self_debug_fail_streak; echo \"[self-debug] verify success streak=$s/"@
    + decimal(success) + "\"; if [ \"$s\" -ge \""@ + decimal(success)
    + "\" ]; then echo \"[self-debug] success streak reached, request early stop\"; touch .kacf/self_debug_stop_request; fi' || sh -lc 's=$(cat .kacf/self_debug_success_streak 2>/dev/null || echo 0); f=$(cat .kacf/self_debug_fail_streak 2>/dev/null || echo 0); s=0; f=$((f+1)); echo $s > .kacf/self_debug_success_streak; echo $f > .kacf/self_debug_fail_streak; echo \"[self-debug] verify fail streak=$f/"@
    + decimal(fail) + "\"; if [ \"$f\" -ge \""@ + decimal(fail)
    + "\" ]; then echo \"[self-debug] fail streak reached, request early stop\"; touch .kacf/self_debug_stop_request; fi; exit 0'"@
}

/// The commands of the first `k` of `n` cycles, after the reset.
pub open spec fn plan_cmds(k: nat, n: nat, test: Seq<char>, fix: Seq<char>, gate: Seq<char>) -> Seq<Seq<char>>
    decreases k,
{
    if k == 0 {
        seq![plan_init_cmd()]
    } else {
        plan_cmds((k - 1) as nat, n, test, fix, gate) + seq![
            cycle_banner(k, n, "start"@),
            test,
            fix,
            gate,
            plan_stop_cmd(),
            cycle_banner(k, n, "end"@),
        ]
    }
}

/// The error for a workdir that is not allowed.
pub open spec fn bad_workdir_msg() -> Seq<char> {
    "invalid workdir: only [a-zA-Z0-9_./-], must start with / or ."@
}

/// The outcome of a self-debug plan request: an error for a bad workdir,
/// then for a missing fix command; otherwise the commands of its cycles
/// (3 by default, at most 30), with the profile's default test command and
/// the test command as the default verify command, streak targets 2 and 3
/// by default (at most 10).
pub open spec fn plan_spec(b: VmSelfDebugPlanPayload) -> Result<Seq<Seq<char>>, Seq<char>> {
    let profile = if trim_seq(b.profile@).len() == 0 { "rust-self-debug-basic"@ } else { trim_seq(b.profile@) };
    let cycles = or_clamped(b.cycles, 3, 1, 30);
    let test = if trim_seq(b.test_cmd@).len() == 0 { default_test_cmd_spec(profile) } else { trim_seq(b.test_cmd@) };
    let fix = trim_seq(b.fix_cmd@);
    let verify = if trim_seq(b.verify_cmd@).len() == 0 { test } else { trim_seq(b.verify_cmd@) };
    let success = or_clamped(b.success_streak_target, 2, 1, 10);
    let fail = or_clamped(b.fail_streak_target, 3, 1, 10);
    if trim_seq(b.workdir@).len() > 0 && workdir_spec(b.workdir@) is None {
        Err(bad_workdir_msg())
    } else if fix.len() == 0 {
        Err("fix_cmd is required for self-debug plan"@)
    } else {
        Ok(plan_cmds(cycles as nat, cycles as nat, test, fix, verify_gate(verify, success as nat, fail as nat)))
    }
}

fn cat3(a: &str, b: &str, c: &str) -> (r: String)
    ensures
        r@ == a@ + b@ + c@,
{
    let x = concat(a, b);
    concat(x.as_str(), c)
}

fn banner(i: u32, n: u32, word: &str) -> (r: String)
    ensures
        r@ == cycle_banner(i as nat, n as nat, word@),
{
    let a = cat3("echo '[self-debug] cycle ", u64_to_decimal(i as u64).as_str(), "/");
    let b = cat3(a.as_str(), u64_to_decimal(n as u64).as_str(), " ");
    cat3(b.as_str(), word, "'")
}

fn gate_cmd(verify: &str, success: u32, fail: u32) -> (r: String)
    ensures
        r@ == verify_gate(verify@, success as nat, fail as nat),
{
    let s = u64_to_decimal(success as u64);
    let f = u64_to_decimal(fail as u64);
    let a = cat3("sh -lc '", escape_quotes(verify).as_str(),
        " && s=$(cat .kacf/self_debug_success_streak 2>/dev/null || echo 0); f=$(cat .kacf/self_debug_fail_streak 2>/dev/null || echo 0); s=$((s+1)); f=0; echo $s > .kacf/self_debug_success_streak; echo $f > .kacf/self_debug_fail_streak; echo \"[self-debug] verify success streak=$s/");
    let b = cat3(a.as_str(), s.as_str(), "\"; if [ \"$s\" -ge \"");
    let c = cat3(b.as_str(), s.as_str(),
        "\" ]; then echo \"[self-debug] success streak reached, request early stop\"; touch .kacf/self_debug_stop_request; fi' || sh -lc 's=$(cat .kacf/self_debug_success_streak 2>/dev/null || echo 0); f=$(cat .kacf/self_debug_fail_streak 2>/dev/null || echo 0); s=0; f=$((f+1)); echo $s > .kacf/self_debug_success_streak; echo $f > .kacf/self_debug_fail_streak; echo \"[self-debug] verify fail streak=$f/");
    let d = cat3(c.as_str(), f.as_str(), "\"; if [ \"$f\" -ge \"");
    let r = cat3(d.as_str(), f.as_str(),
        "\" ]; then echo \"[self-debug] fail streak reached, request early stop\"; touch .kacf/self_debug_stop_request; fi; exit 0'");
    r
}

/// The tasks of a self-debug plan (see `plan_spec`), each in the plan's
/// workdir.
pub fn build_self_debug_tasks(body: &VmSelfDebugPlanPayload) -> (r: Result<Vec<VmExecBatchTaskPayload>, String>)
    ensures
        match plan_spec(*body) {
            Ok(cmds) => r matches Ok(t) && tasks_run(t@, cmds, workdir_spec(body.workdir@)),
            Err(e) => r matches Err(m) && m@ == e,
        },
{
    let pt = trim_chars(&chars_of(body.profile.as_str()));
    let profile = if pt.len() == 0 { "rust-self-debug-basic".to_owned() } else { string_of(pt.as_slice()) };
    let cycles = clamp_or(body.cycles, 3, 1, 30);
    let workdir = normalize_profile_workdir(body.workdir.as_str());
    if trim_chars(&chars_of(body.workdir.as_str())).len() > 0 && workdir.is_none() {
        return Err("invalid workdir: only [a-zA-Z0-9_./-], must start with / or .".to_owned());
    }
    let tt = trim_chars(&chars_of(body.test_cmd.as_str()));
    let test_cmd = if tt.len() == 0 { default_test_cmd_for_profile(profile.as_str()).to_owned() } else { string_of(tt.as_slice()) };
    let ft = trim_chars(&chars_of(body.fix_cmd.as_str()));
    if ft.len() == 0 {
        return Err("fix_cmd is required for self-debug plan".to_owned());
    }
    let fix_cmd = string_of(ft.as_slice());
    let vt = trim_chars(&chars_of(body.verify_cmd.as_str()));
    let verify_cmd = if vt.len() == 0 { string_of(chars_of(test_cmd.as_str()).as_slice()) } else { string_of(vt.as_slice()) };
    let success_target = clamp_or(body.success_streak_target, 2, 1, 10);
    let fail_target = clamp_or(body.fail_streak_target, 3, 1, 10);
    let gate = gate_cmd(verify_cmd.as_str(), success_target, fail_target);
    let stop = "sh -lc \"if [ -f .kacf/self_debug_stop_request ]; then echo '[self-debug] early-stop flag detected'; exit 10; fi\"";
    let mut cmds: Vec<String> = Vec::new();
    push_str(&mut cmds, "sh -lc \"mkdir -p .kacf && echo 0 > .kacf/self_debug_success_streak && echo 0 > .kacf/self_debug_fail_streak\"");
    assert(strings_view(cmds@) =~= plan_cmds(0, cycles as nat, test_cmd@, fix_cmd@, gate@));
    let mut i: u32 = 1;
    while i <= cycles
        invariant
            1 <= i <= cycles + 1,
            cycles <= 30,
            strings_view(cmds@) == plan_cmds((i - 1) as nat, cycles as nat, test_cmd@, fix_cmd@, gate@),
            stop@ == plan_stop_cmd(),
        decreases cycles + 1 - i,
    {
        let ghost before = strings_view(cmds@);
        push_str(&mut cmds, banner(i, cycles, "start").as_str());
        push_str(&mut cmds, test_cmd.as_str());
        push_str(&mut cmds, fix_cmd.as_str());
        push_str(&mut cmds, gate.as_str());
        push_str(&mut cmds, stop);
        push_str(&mut cmds, banner(i, cycles, "end").as_str());
        assert(strings_view(cmds@) =~= plan_cmds(i as nat, cycles as nat, test_cmd@, fix_cmd@, gate@));
        i += 1;
    }
    let wd = opt_as_str(&workdir);
    Ok(tasks_from(&cmds, wd))
}

} // verus!
