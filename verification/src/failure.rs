//! Classification of evaluation failures and the repair strategy that follows.

use vstd::prelude::*;
use crate::text::{
    bytes_exceed, char_vecs_view, concat, i64_to_decimal, int_decimal, str_eq, chars_eq, chars_of, contains, contains_lit, lines, lower_chars,
    lowercase, split_lines, string_of, strings_view, trim_chars, trim_seq, utf8_len,
};

verus! {

/// What an evaluation failure came down to.
pub struct FailureDigest {
    pub category: String,
    pub signature: String,
    pub key_lines: Vec<String>,
}

/// Guidance handed to the model for a repair attempt.
#[derive(Clone, Copy)]
pub struct RepairStrategy {
    pub root_cause_focus: &'static str,
    pub patch_scope: &'static str,
    pub test_focus: &'static str,
    pub extra_checks: &'static str,
}

/// The category of a failure, decided on the lower-cased joined output.
pub open spec fn category_spec(exit_code: i32, lowered: Seq<char>) -> Seq<char> {
    if exit_code == -2 || contains(lowered, "timed out"@) || contains(lowered, "timeout"@) {
        "timeout"@
    } else if contains(lowered, "error["@) || contains(lowered, "could not compile"@) {
        "compile_error"@
    } else if contains(lowered, "test result: failed"@) || contains(lowered, "failures:"@)
        || contains(lowered, "assertion failed"@) {
        "test_failure"@
    } else if contains(lowered, "panicked"@) || contains(lowered, "traceback"@) {
        "runtime_crash"@
    } else {
        "runtime_or_logic_failure"@
    }
}

/// Standard output and standard error joined by a newline.
pub open spec fn joined_output(stdout: Seq<char>, stderr: Seq<char>) -> Seq<char> {
    stdout + seq!['\n'] + stderr
}

/// A lower-cased line that names an error.
pub open spec fn is_key_hit(low: Seq<char>) -> bool {
    contains(low, "error"@) || contains(low, "failed"@) || contains(low, "panic"@) || contains(
        low,
        "assert"@,
    ) || contains(low, "exception"@) || contains(low, "traceback"@) || contains(
        low,
        "timeout"@,
    ) || contains(low, "could not compile"@) || contains(low, "caused by"@)
}

/// One step of key-line collection.
pub open spec fn add_key_line(out: Seq<Seq<char>>, line: Seq<char>, limit: nat) -> Seq<
    Seq<char>,
> {
    let l = trim_seq(line);
    if out.len() >= limit || l.len() == 0 || utf8_len(l) > 220 {
        out
    } else if is_key_hit(lowercase(l)) && !out.contains(l) {
        out.push(l)
    } else {
        out
    }
}

/// Key-line collection over a list of lines.
pub open spec fn add_key_lines(out: Seq<Seq<char>>, ls: Seq<Seq<char>>, limit: nat) -> Seq<
    Seq<char>,
>
    decreases ls.len(),
{
    if ls.len() == 0 {
        out
    } else {
        add_key_lines(add_key_line(out, ls[0], limit), ls.drop_first(), limit)
    }
}

/// The key lines of a run: standard error first, then standard output.
pub open spec fn key_lines_spec(stdout: Seq<char>, stderr: Seq<char>, limit: nat) -> Seq<
    Seq<char>,
> {
    add_key_lines(Seq::empty(), lines(stderr) + lines(stdout), limit)
}

/// Once `limit` lines are collected nothing more is added.
proof fn lemma_add_key_lines_full(out: Seq<Seq<char>>, ls: Seq<Seq<char>>, limit: nat)
    requires
        out.len() >= limit,
    ensures
        add_key_lines(out, ls, limit) == out,
    decreases ls.len(),
{
    if ls.len() > 0 {
        lemma_add_key_lines_full(out, ls.drop_first(), limit);
    }
}

/// Whether the lower-cased line names an error.
fn key_hit(low: &Vec<char>) -> (b: bool)
    ensures
        b == is_key_hit(low@),
{
    contains_lit(low, "error") || contains_lit(low, "failed") || contains_lit(low, "panic")
        || contains_lit(low, "assert") || contains_lit(low, "exception") || contains_lit(
        low,
        "traceback",
    ) || contains_lit(low, "timeout") || contains_lit(low, "could not compile") || contains_lit(
        low,
        "caused by",
    )
}

fn add_key_line_chars(out: &mut Vec<String>, line: &Vec<char>, limit: usize)
    ensures
        strings_view(final(out)@) == add_key_line(strings_view(old(out)@), line@, limit as nat),
{
    if out.len() >= limit {
        return;
    }
    let l = trim_chars(line);
    if l.len() == 0 || bytes_exceed(&l, 220) {
        return;
    }
    let low = lower_chars(&l);
    if !key_hit(&low) {
        return;
    }
    let mut i: usize = 0;
    while i < out.len()
        invariant
            i <= out.len(),
            out@ == old(out)@,
            out.len() < limit,
            l@ == trim_seq(line@),
            l@.len() > 0,
            utf8_len(l@) <= 220,
            is_key_hit(lowercase(l@)),
            forall|k: int| 0 <= k < i ==> out@[k]@ != l@,
        decreases out.len() - i,
    {
        let o = chars_of(out[i].as_str());
        if chars_eq(&o, &l) {
            assert(strings_view(out@)[i as int] == l@);
            assert(strings_view(out@).contains(l@));
            return;
        }
        i += 1;
    }
    let ghost before = out@;
    assert(!strings_view(before).contains(l@)) by {
        if strings_view(before).contains(l@) {
            let k = choose|k: int| 0 <= k < strings_view(before).len() && strings_view(before)[k] == l@;
            assert(before[k]@ == l@);
        }
    }
    out.push(string_of(l.as_slice()));
    assert(strings_view(out@) =~= strings_view(before).push(l@));
}

/// Adds `line`, trimmed, to `out` when it names an error, is not already
/// there, is at most 220 bytes long and `out` holds fewer than `limit` lines.
pub fn maybe_add_key_line(out: &mut Vec<String>, line: &str, limit: usize)
    ensures
        strings_view(final(out)@) == add_key_line(strings_view(old(out)@), line@, limit as nat),
{
    let v = chars_of(line);
    add_key_line_chars(out, &v, limit);
}

/// Collects up to `limit` distinct key lines, from standard error first.
pub fn collect_key_lines(stdout: &str, stderr: &str, limit: usize) -> (r: Vec<String>)
    ensures
        strings_view(r@) == key_lines_spec(stdout@, stderr@, limit as nat),
{
    let e = split_lines(&chars_of(stderr));
    let o = split_lines(&chars_of(stdout));
    let ghost le = lines(stderr@);
    let ghost lo = lines(stdout@);
    let mut out: Vec<String> = Vec::new();
    let mut j: usize = 0;
    assert(le.skip(0) =~= le);
    assert(strings_view(out@) =~= Seq::<Seq<char>>::empty());
    while j < e.len()
        invariant
            char_vecs_view(e@) == le,
            char_vecs_view(o@) == lo,
            j <= e.len(),
            key_lines_spec(stdout@, stderr@, limit as nat) == add_key_lines(
                strings_view(out@),
                le.skip(j as int) + lo,
                limit as nat,
            ),
        decreases e.len() - j,
    {
        let ghost rest = le.skip(j as int) + lo;
        assert(rest[0] == e@[j as int]@);
        assert(rest.drop_first() =~= le.skip(j + 1) + lo);
        add_key_line_chars(&mut out, &e[j], limit);
        j += 1;
        if out.len() >= limit {
            proof {
                lemma_add_key_lines_full(strings_view(out@), le.skip(j as int) + lo, limit as nat);
            }
            return out;
        }
    }
    let mut j: usize = 0;
    assert(le.skip(e.len() as int) + lo =~= lo.skip(0));
    while j < o.len()
        invariant
            char_vecs_view(o@) == lo,
            j <= o.len(),
            key_lines_spec(stdout@, stderr@, limit as nat) == add_key_lines(
                strings_view(out@),
                lo.skip(j as int),
                limit as nat,
            ),
        decreases o.len() - j,
    {
        let ghost rest = lo.skip(j as int);
        assert(rest[0] == o@[j as int]@);
        assert(rest.drop_first() =~= lo.skip(j + 1));
        add_key_line_chars(&mut out, &o[j], limit);
        j += 1;
        if out.len() >= limit {
            proof {
                lemma_add_key_lines_full(strings_view(out@), lo.skip(j as int), limit as nat);
            }
            return out;
        }
    }
    assert(lo.skip(o.len() as int) =~= Seq::<Seq<char>>::empty());
    out
}

/// The signature of a failure: its first key line, else the exit code.
pub open spec fn signature_spec(exit_code: i32, key_lines: Seq<Seq<char>>) -> Seq<char> {
    if key_lines.len() > 0 {
        key_lines[0]
    } else {
        "exit_code="@ + int_decimal(exit_code as int)
    }
}

fn category_of(exit_code: i32, lowered: &Vec<char>) -> (r: &'static str)
    ensures
        r@ == category_spec(exit_code, lowered@),
{
    if exit_code == -2 || contains_lit(lowered, "timed out") || contains_lit(lowered, "timeout") {
        "timeout"
    } else if contains_lit(lowered, "error[") || contains_lit(lowered, "could not compile") {
        "compile_error"
    } else if contains_lit(lowered, "test result: failed") || contains_lit(lowered, "failures:")
        || contains_lit(lowered, "assertion failed") {
        "test_failure"
    } else if contains_lit(lowered, "panicked") || contains_lit(lowered, "traceback") {
        "runtime_crash"
    } else {
        "runtime_or_logic_failure"
    }
}

/// Lower-cased `stdout`, a newline, then `stderr`.
fn lowered_joined(stdout: &str, stderr: &str) -> (r: Vec<char>)
    ensures
        r@ == lowercase(joined_output(stdout@, stderr@)),
{
    let mut v = chars_of(stdout);
    v.push('\n');
    let mut e = chars_of(stderr);
    v.append(&mut e);
    assert(v@ =~= joined_output(stdout@, stderr@));
    lower_chars(&v)
}

/// Classifies a failed evaluation and picks its key lines (at most 8) and signature.
pub fn digest_eval_failure(exit_code: i32, stdout: &str, stderr: &str) -> (d: FailureDigest)
    ensures
        d.category@ == category_spec(exit_code, lowercase(joined_output(stdout@, stderr@))),
        strings_view(d.key_lines@) == key_lines_spec(stdout@, stderr@, 8),
        d.signature@ == signature_spec(exit_code, key_lines_spec(stdout@, stderr@, 8)),
{
    let lowered = lowered_joined(stdout, stderr);
    let category = category_of(exit_code, &lowered);
    let key_lines = collect_key_lines(stdout, stderr, 8);
    let signature = if key_lines.len() > 0 {
        assert(strings_view(key_lines@)[0] == key_lines@[0]@);
        key_lines[0].clone()
    } else {
        let code = i64_to_decimal(exit_code as i64);
        concat("exit_code=", code.as_str())
    };
    FailureDigest { category: String::from_str(category), signature, key_lines }
}

/// Whether the output shows a crash of the program under test.
pub open spec fn fatal_marker_spec(lowered: Seq<char>) -> bool {
    contains(lowered, "thread 'main' panicked"@) || contains(lowered, " panicked at "@)
        || contains(lowered, "xopendisplay() failed"@) || contains(lowered, "segmentation fault"@)
        || contains(lowered, "stack backtrace:"@) || contains(lowered, "fatal runtime error"@)
}

/// Whether an evaluation's output holds a fatal runtime marker.
pub fn eval_has_fatal_runtime_marker(stdout: &str, stderr: &str) -> (b: bool)
    ensures
        b == fatal_marker_spec(lowercase(joined_output(stdout@, stderr@))),
{
    let l = lowered_joined(stdout, stderr);
    contains_lit(&l, "thread 'main' panicked") || contains_lit(&l, " panicked at ")
        || contains_lit(&l, "xopendisplay() failed") || contains_lit(&l, "segmentation fault")
        || contains_lit(&l, "stack backtrace:") || contains_lit(&l, "fatal runtime error")
}

/// Severity of a failure category: 3 for compile errors and crashes, 2 for
/// test and logic failures, 1 otherwise.
pub open spec fn severity_spec(category: Seq<char>) -> u8 {
    if category == "compile_error"@ {
        3
    } else if category == "runtime_crash"@ {
        3
    } else if category == "test_failure"@ {
        2
    } else if category == "runtime_or_logic_failure"@ {
        2
    } else {
        1
    }
}

/// Severity of a failure category.
pub fn failure_severity(category: &str) -> (r: u8)
    ensures
        r == severity_spec(category@),
        1 <= r <= 3,
{
    if str_eq(category, "compile_error") {
        3
    } else if str_eq(category, "runtime_crash") {
        3
    } else if str_eq(category, "test_failure") {
        2
    } else if str_eq(category, "runtime_or_logic_failure") {
        2
    } else {
        1
    }
}

/// Whether the failure category got more severe.
pub fn category_changed_worse(previous: &str, current: &str) -> (b: bool)
    ensures
        b == (severity_spec(current@) > severity_spec(previous@)),
{
    failure_severity(current) > failure_severity(previous)
}

/// The repair strategy for a category before escalation.
pub open spec fn base_strategy(category: Seq<char>) -> (Seq<char>, Seq<char>, Seq<char>, Seq<char>) {
    if category == "compile_error"@ {
        (
            "先定位首个编译错误（通常是类型/导入/签名不一致），不要同时修多个模块。"@,
            "优先改动直接报错文件与其最小依赖，避免重构。"@,
            "先确保可编译，再恢复测试通过。"@,
            "检查 Cargo.toml、feature flag、模块路径与公开可见性。"@,
        )
    } else if category == "runtime_crash"@ {
        (
            "优先修复 panic/崩溃根因，先保程序可运行。"@,
            "只改崩溃路径与必要防御逻辑（边界检查/空值处理）。"@,
            "补充能稳定复现崩溃的最小测试，防止回归。"@,
            "检查初始化顺序、资源句柄、并发共享状态。"@,
        )
    } else if category == "test_failure"@ {
        (
            "先确认失败测试的预期与实现是否一致，再最小修复。"@,
            "优先修改业务逻辑或断言之一，不要同时大改两者。"@,
            "为修复点补充针对性测试，避免仅修表面现象。"@,
            "排查时间/随机性/顺序依赖导致的不稳定测试。"@,
        )
    } else if category == "timeout"@ {
        (
            "定位卡住阶段（构建、启动、测试等待），修复阻塞点。"@,
            "最小化调整循环/等待/IO，必要时加入超时保护。"@,
            "增加快速失败路径，确保脚本能在预期时间结束。"@,
            "检查死循环、等待条件、端口占用与外部依赖可用性。"@,
        )
    } else {
        (
            "先给出可验证根因，再最小修复。"@,
            "控制改动面，先恢复主路径正确性。"@,
            "补充能复现问题的检查，再验证修复。"@,
            "检查日志中首个错误与后续连锁错误的因果关系。"@,
        )
    }
}

/// The patch scope once the same failure repeated.
pub open spec fn repeated_scope() -> Seq<char> {
    "同签名重复失败：必须缩小为单一根因修复，不允许大范围重写。"@
}

/// The extra checks once evaluations failed many times in a row.
pub open spec fn many_failures_checks() -> Seq<char> {
    "连续失败较多：额外核对评测脚本、入口参数、环境依赖与缓存状态。"@
}

fn base_strategy_exec(category: &str) -> (r: RepairStrategy)
    ensures
        (r.root_cause_focus@, r.patch_scope@, r.test_focus@, r.extra_checks@) == base_strategy(
            category@,
        ),
{
    if str_eq(category, "compile_error") {
        RepairStrategy {
            root_cause_focus: "先定位首个编译错误（通常是类型/导入/签名不一致），不要同时修多个模块。",
            patch_scope: "优先改动直接报错文件与其最小依赖，避免重构。",
            test_focus: "先确保可编译，再恢复测试通过。",
            extra_checks: "检查 Cargo.toml、feature flag、模块路径与公开可见性。",
        }
    } else if str_eq(category, "runtime_crash") {
        RepairStrategy {
            root_cause_focus: "优先修复 panic/崩溃根因，先保程序可运行。",
            patch_scope: "只改崩溃路径与必要防御逻辑（边界检查/空值处理）。",
            test_focus: "补充能稳定复现崩溃的最小测试，防止回归。",
            extra_checks: "检查初始化顺序、资源句柄、并发共享状态。",
        }
    } else if str_eq(category, "test_failure") {
        RepairStrategy {
            root_cause_focus: "先确认失败测试的预期与实现是否一致，再最小修复。",
            patch_scope: "优先修改业务逻辑或断言之一，不要同时大改两者。",
            test_focus: "为修复点补充针对性测试，避免仅修表面现象。",
            extra_checks: "排查时间/随机性/顺序依赖导致的不稳定测试。",
        }
    } else if str_eq(category, "timeout") {
        RepairStrategy {
            root_cause_focus: "定位卡住阶段（构建、启动、测试等待），修复阻塞点。",
            patch_scope: "最小化调整循环/等待/IO，必要时加入超时保护。",
            test_focus: "增加快速失败路径，确保脚本能在预期时间结束。",
            extra_checks: "检查死循环、等待条件、端口占用与外部依赖可用性。",
        }
    } else {
        RepairStrategy {
            root_cause_focus: "先给出可验证根因，再最小修复。",
            patch_scope: "控制改动面，先恢复主路径正确性。",
            test_focus: "补充能复现问题的检查，再验证修复。",
            extra_checks: "检查日志中首个错误与后续连锁错误的因果关系。",
        }
    }
}

/// The repair strategy for a failure category, narrowed after repeated
/// identical failures (2 or more) and widened after many failures (4 or more).
pub fn repair_strategy_for(
    category: &str,
    consecutive_eval_failures: u32,
    consecutive_same_failure: u32,
) -> (r: RepairStrategy)
    ensures
        r.root_cause_focus@ == base_strategy(category@).0,
        r.test_focus@ == base_strategy(category@).2,
        r.patch_scope@ == (if consecutive_same_failure >= 2 {
            repeated_scope()
        } else {
            base_strategy(category@).1
        }),
        r.extra_checks@ == (if consecutive_eval_failures >= 4 {
            many_failures_checks()
        } else {
            base_strategy(category@).3
        }),
{
    let mut strategy = base_strategy_exec(category);
    if consecutive_same_failure >= 2 {
        strategy.patch_scope = "同签名重复失败：必须缩小为单一根因修复，不允许大范围重写。";
    }
    if consecutive_eval_failures >= 4 {
        strategy.extra_checks = "连续失败较多：额外核对评测脚本、入口参数、环境依赖与缓存状态。";
    }
    strategy
}


/// A failing test run is a test failure, not a crash: when the exit code is
/// not -2 and the lower-cased output names neither a timeout nor a compile
/// error, but reports failed tests (`test result: failed`, `failures:` or
/// `assertion failed`), the category is `test_failure` of severity 2, also
/// where the output shows panics or a traceback (failing tests panic).
pub proof fn failing_tests_are_test_failures(exit_code: i32, stdout: Seq<char>, stderr: Seq<char>)
    requires
        exit_code != -2,
        !contains(lowercase(joined_output(stdout, stderr)), "timed out"@),
        !contains(lowercase(joined_output(stdout, stderr)), "timeout"@),
        !contains(lowercase(joined_output(stdout, stderr)), "error["@),
        !contains(lowercase(joined_output(stdout, stderr)), "could not compile"@),
        contains(lowercase(joined_output(stdout, stderr)), "test result: failed"@)
            || contains(lowercase(joined_output(stdout, stderr)), "failures:"@)
            || contains(lowercase(joined_output(stdout, stderr)), "assertion failed"@),
    ensures
        category_spec(exit_code, lowercase(joined_output(stdout, stderr))) == "test_failure"@,
        severity_spec(category_spec(exit_code, lowercase(joined_output(stdout, stderr)))) == 2,
{
    reveal_strlit("test_failure");
    reveal_strlit("compile_error");
    reveal_strlit("runtime_crash");
    assert("test_failure"@ != "compile_error"@ && "test_failure"@ != "runtime_crash"@) by {
        assert("test_failure"@[0] != "compile_error"@[0]);
        assert("test_failure"@[0] != "runtime_crash"@[0]);
    }
}

} // verus!
