//! The prompts sent to the model.

use vstd::prelude::*;
use crate::text::{chars_of, concat, decimal, i64_to_decimal, int_decimal, str_eq, strings_view, trim, trim_seq, u64_to_decimal};
use crate::protocol::{join_spec, join_strings};
use crate::patch::{truncate, truncate_spec};
use crate::models::EvalResult;
use crate::failure::FailureDigest;

verus! {

/// The fixed rules of the agent's system prompt.
pub open spec fn base_rules() -> Seq<char> {
    "你是一个“自编程代理”。你必须严格遵守：\n1) 你每次回复只能输出一个 JSON 对象，禁止输出 Markdown、解释、代码块围栏、自然语言。\n2) 允许输出的 JSON 只能有两种形式：\n   A) {\"kind\":\"clarify\",\"questions\":[{\"id\":\"q1\",\"question\":\"...\",\"type\":\"single|multi|text\",\"options\":[\"...\"]}]}\n      用于向用户提出疑问或选项，问题应尽量关键、简洁。\n   B) {\"kind\":\"patch\",\"summary\":\"...\",\"diff\":\"UNIFIED_DIFF_WITH_HUNKS\"}\n      用于生成或修改代码文件，diff 必须是标准 unified diff（含 hunk）。\n3) diff 必须可应用：包含 `diff --git` 与 hunk（`@@`），path 必须是相对路径，不允许写出工作区。\n4) 模型应在必要时创建或更新一个自动评测脚本（如 scripts/run_tests.sh），该脚本必须包含：编译项目、运行程序、按照项目要求自动操作程序、检测是否存在错误或未满足目标的情况。脚本应返回非零退出码以指示失败，并提供足够的日志供模型分析。\n5) 按照“小步迭代”原则生成补丁：先生成最小可运行版本，再逐步完善和修复 bug。\n6) 当评测脚本通过后，请在 summary 中提示已完成目标，并在下一轮中询问用户是否满意、是否有改进建议。若用户给出改进意见，请根据建议继续迭代。\n7) 当你收到“评测失败”反馈时，你必须优先分析失败根因，并针对关键错误行修复。禁止无关重构，禁止一次性改太多文件。\n8) 如果同类错误连续出现，你必须优先修复测试脚本/构建脚本与入口参数的不一致问题，并在 patch 中显式更新对应脚本，防止同类错误再次出现。\n"@
}

fn base_rules_exec() -> (r: &'static str)
    ensures
        r@ == base_rules(),
{
    "你是一个“自编程代理”。你必须严格遵守：\n1) 你每次回复只能输出一个 JSON 对象，禁止输出 Markdown、解释、代码块围栏、自然语言。\n2) 允许输出的 JSON 只能有两种形式：\n   A) {\"kind\":\"clarify\",\"questions\":[{\"id\":\"q1\",\"question\":\"...\",\"type\":\"single|multi|text\",\"options\":[\"...\"]}]}\n      用于向用户提出疑问或选项，问题应尽量关键、简洁。\n   B) {\"kind\":\"patch\",\"summary\":\"...\",\"diff\":\"UNIFIED_DIFF_WITH_HUNKS\"}\n      用于生成或修改代码文件，diff 必须是标准 unified diff（含 hunk）。\n3) diff 必须可应用：包含 `diff --git` 与 hunk（`@@`），path 必须是相对路径，不允许写出工作区。\n4) 模型应在必要时创建或更新一个自动评测脚本（如 scripts/run_tests.sh），该脚本必须包含：编译项目、运行程序、按照项目要求自动操作程序、检测是否存在错误或未满足目标的情况。脚本应返回非零退出码以指示失败，并提供足够的日志供模型分析。\n5) 按照“小步迭代”原则生成补丁：先生成最小可运行版本，再逐步完善和修复 bug。\n6) 当评测脚本通过后，请在 summary 中提示已完成目标，并在下一轮中询问用户是否满意、是否有改进建议。若用户给出改进意见，请根据建议继续迭代。\n7) 当你收到“评测失败”反馈时，你必须优先分析失败根因，并针对关键错误行修复。禁止无关重构，禁止一次性改太多文件。\n8) 如果同类错误连续出现，你必须优先修复测试脚本/构建脚本与入口参数的不一致问题，并在 patch 中显式更新对应脚本，防止同类错误再次出现。\n"
}

/// The language rule for a (trimmed) language tag, when it is one of the known ones.
pub open spec fn known_language_rule(tag: Seq<char>) -> Option<Seq<char>> {
    if tag == "zh"@ || tag == "zh-CN"@ || tag == "zh-Hans"@ {
        Some("9) 输出语言强约束：所有面向用户的文本（如 summary、clarify.question、done message）必须使用简体中文；代码、命令、路径保持原样。"@)
    } else if tag == "en"@ {
        Some("9) Output language constraint: all user-facing text fields (e.g. summary, clarify.question, done message) must be in English; keep code/commands/paths unchanged."@)
    } else if tag.len() == 0 {
        Some("9) 输出语言强约束：所有面向用户的文本（如 summary、clarify.question、done message）必须跟随当前用户所选语言；代码、命令、路径保持原样。"@)
    } else {
        None
    }
}

/// The system prompt for a language tag, with the unattended-mode rule when asked.
pub open spec fn system_prompt_spec(language: Seq<char>, unattended_mode: bool) -> Seq<char> {
    let tag = trim_seq(language);
    match known_language_rule(tag) {
        Some(rule) => base_rules() + "\n"@ + rule + (if unattended_mode {
            "\n10) 无人值守模式已开启：禁止输出 `kind=clarify`。必须直接基于合理默认假设持续输出 `kind=patch` 自我迭代直至收敛。"@
        } else {
            Seq::empty()
        }),
        None => base_rules() + "\n9) Output language constraint: all user-facing text fields (e.g. summary, clarify.question, done message) must follow language tag `"@ + tag + "`; keep code/commands/paths unchanged."@ + (if unattended_mode {
            "\n10) Unattended mode is ON: do not output `kind=clarify` at all. Always proceed with reasonable defaults and keep self-iterating with `kind=patch` until convergence."@
        } else {
            Seq::empty()
        }),
    }
}

/// Builds the system prompt.
pub fn system_prompt(language: &str, unattended_mode: bool) -> (r: String)
    ensures
        r@ == system_prompt_spec(language@, unattended_mode),
{
    let t = trim(language);
    let ts = t.as_str();
    let base = base_rules_exec();
    let known: Option<&'static str> = if str_eq(ts, "zh") || str_eq(ts, "zh-CN") || str_eq(ts, "zh-Hans") {
        Some("9) 输出语言强约束：所有面向用户的文本（如 summary、clarify.question、done message）必须使用简体中文；代码、命令、路径保持原样。")
    } else if str_eq(ts, "en") {
        Some("9) Output language constraint: all user-facing text fields (e.g. summary, clarify.question, done message) must be in English; keep code/commands/paths unchanged.")
    } else if chars_of(ts).len() == 0 {
        Some("9) 输出语言强约束：所有面向用户的文本（如 summary、clarify.question、done message）必须跟随当前用户所选语言；代码、命令、路径保持原样。")
    } else {
        None
    };
    match known {
        Some(rule) => {
            let a = concat(base, "\n");
            let b = concat(a.as_str(), rule);
            if unattended_mode {
                concat(b.as_str(), "\n10) 无人值守模式已开启：禁止输出 `kind=clarify`。必须直接基于合理默认假设持续输出 `kind=patch` 自我迭代直至收敛。")
            } else {
                proof {
                    assert(b@ + Seq::<char>::empty() =~= b@);
                }
                b
            }
        },
        None => {
            let a = concat(base, "\n9) Output language constraint: all user-facing text fields (e.g. summary, clarify.question, done message) must follow language tag `");
            let b = concat(a.as_str(), ts);
            let c = concat(b.as_str(), "`; keep code/commands/paths unchanged.");
            if unattended_mode {
                concat(c.as_str(), "\n10) Unattended mode is ON: do not output `kind=clarify` at all. Always proceed with reasonable defaults and keep self-iterating with `kind=patch` until convergence.")
            } else {
                proof {
                    assert(c@ + Seq::<char>::empty() =~= c@);
                }
                c
            }
        },
    }
}


/// The hint about repeated failures.
pub open spec fn repeated_hint(same: u32) -> Seq<char> {
    if same >= 2 {
        "检测到同类错误重复出现。你必须先写出根因，再给出最小修复，并补充/修正测试以防回归。"@
    } else {
        "请基于错误日志做最小必要修复。"@
    }
}

/// The extra checks asked for after many failures.
pub open spec fn strictness_hint(fails: u32) -> Seq<char> {
    if fails >= 3 {
        "你需要额外检查：依赖版本、构建脚本、入口参数、测试脚本本身是否错误。"@
    } else {
        ""@
    }
}

/// Key lines as a bullet list, or a placeholder when there are none.
pub open spec fn key_lines_text(key_lines: Seq<Seq<char>>) -> Seq<char> {
    if key_lines.len() == 0 {
        "（无）"@
    } else {
        join_spec(key_lines.map_values(|x: Seq<char>| "- "@ + x), "\n"@)
    }
}

/// The repair prompt after a failed evaluation.
pub open spec fn repair_prompt_spec(
    eval_cmd: Seq<char>,
    iter: u32,
    exit_code: i32,
    stdout: Seq<char>,
    stderr: Seq<char>,
    category: Seq<char>,
    signature: Seq<char>,
    key_lines: Seq<Seq<char>>,
    fails: u32,
    same: u32,
    diff: Seq<char>,
) -> Seq<char> {
    "本地评测失败，请继续修复。\n迭代轮次: "@ + decimal(iter as nat) + "\n命令: "@ + eval_cmd + "\nexit_code: "@ + int_decimal(exit_code as int) + "\n错误类别: "@ + category + "\n失败签名: "@ + signature + "\n连续失败次数: "@ + decimal(fails as nat) + "\n同签名重复次数: "@ + decimal(same as nat) + "\n\n关键错误行:\n"@ + key_lines_text(key_lines) + "\n\n最近补丁 diff 摘要:\n"@ + (if diff.len() == 0 { "（当前 diff 不可用）"@ } else { diff }) + "\n\nstdout:\n"@ + truncate_spec(stdout, 8000) + "\n\nstderr:\n"@ + truncate_spec(stderr, 8000) + "\n\n修复要求:\n1) "@ + repeated_hint(same) + "\n2) 先修复导致失败的直接原因，再处理次要问题。\n3) 如果评测脚本本身不准确，先修正评测脚本再修代码。\n4) 输出必须是 kind=patch JSON，且只输出 JSON。\n5) 小步修改，避免大面积重写。\n6) 修复后必须确保 `"@ + eval_cmd + "` 可通过。"@ + strictness_hint(fails)
}

fn key_lines_text_exec(key_lines: &Vec<String>) -> (r: String)
    ensures
        r@ == key_lines_text(strings_view(key_lines@)),
{
    if key_lines.len() == 0 {
        return String::from_str("（无）");
    }
    let mut items: Vec<String> = Vec::new();
    let mut i: usize = 0;
    while i < key_lines.len()
        invariant
            i <= key_lines.len(),
            strings_view(items@) == strings_view(key_lines@).take(i as int).map_values(
                |x: Seq<char>| "- "@ + x,
            ),
        decreases key_lines.len() - i,
    {
        let ghost before = items@;
        items.push(concat("- ", key_lines[i].as_str()));
        assert(strings_view(items@) =~= strings_view(before).push("- "@ + key_lines@[i as int]@));
        i += 1;
        assert(strings_view(items@) =~= strings_view(key_lines@).take(i as int).map_values(
            |x: Seq<char>| "- "@ + x,
        ));
    }
    assert(strings_view(key_lines@).take(key_lines.len() as int) =~= strings_view(key_lines@));
    join_strings(&items, "\n")
}

/// Builds the prompt that asks the model to repair a failed evaluation.
pub fn build_repair_prompt(
    eval_cmd: &str,
    iter: u32,
    result: &EvalResult,
    digest: &FailureDigest,
    fails: u32,
    same: u32,
    diff_for_feedback: &str,
) -> (r: String)
    ensures
        r@ == repair_prompt_spec(
            eval_cmd@,
            iter,
            result.exit_code,
            result.stdout@,
            result.stderr@,
            digest.category@,
            digest.signature@,
            strings_view(digest.key_lines@),
            fails,
            same,
            diff_for_feedback@,
        ),
{
    let repeated = if same >= 2 {
        "检测到同类错误重复出现。你必须先写出根因，再给出最小修复，并补充/修正测试以防回归。"
    } else {
        "请基于错误日志做最小必要修复。"
    };
    let strict = if fails >= 3 {
        "你需要额外检查：依赖版本、构建脚本、入口参数、测试脚本本身是否错误。"
    } else {
        ""
    };
    let keys = key_lines_text_exec(&digest.key_lines);
    let diff_text = if chars_of(diff_for_feedback).len() == 0 {
        "（当前 diff 不可用）"
    } else {
        diff_for_feedback
    };
    let iter_s = u64_to_decimal(iter as u64);
    let exit_s = i64_to_decimal(result.exit_code as i64);
    let fails_s = u64_to_decimal(fails as u64);
    let same_s = u64_to_decimal(same as u64);
    let out_s = truncate(result.stdout.as_str(), 8000);
    let err_s = truncate(result.stderr.as_str(), 8000);
    let mut out = String::from_str("本地评测失败，请继续修复。\n迭代轮次: ");
    out = concat(out.as_str(), iter_s.as_str());
    out = concat(out.as_str(), "\n命令: ");
    out = concat(out.as_str(), eval_cmd);
    out = concat(out.as_str(), "\nexit_code: ");
    out = concat(out.as_str(), exit_s.as_str());
    out = concat(out.as_str(), "\n错误类别: ");
    out = concat(out.as_str(), digest.category.as_str());
    out = concat(out.as_str(), "\n失败签名: ");
    out = concat(out.as_str(), digest.signature.as_str());
    out = concat(out.as_str(), "\n连续失败次数: ");
    out = concat(out.as_str(), fails_s.as_str());
    out = concat(out.as_str(), "\n同签名重复次数: ");
    out = concat(out.as_str(), same_s.as_str());
    out = concat(out.as_str(), "\n\n关键错误行:\n");
    out = concat(out.as_str(), keys.as_str());
    out = concat(out.as_str(), "\n\n最近补丁 diff 摘要:\n");
    out = concat(out.as_str(), diff_text);
    out = concat(out.as_str(), "\n\nstdout:\n");
    out = concat(out.as_str(), out_s.as_str());
    out = concat(out.as_str(), "\n\nstderr:\n");
    out = concat(out.as_str(), err_s.as_str());
    out = concat(out.as_str(), "\n\n修复要求:\n1) ");
    out = concat(out.as_str(), repeated);
    out = concat(out.as_str(), "\n2) 先修复导致失败的直接原因，再处理次要问题。\n3) 如果评测脚本本身不准确，先修正评测脚本再修代码。\n4) 输出必须是 kind=patch JSON，且只输出 JSON。\n5) 小步修改，避免大面积重写。\n6) 修复后必须确保 `");
    out = concat(out.as_str(), eval_cmd);
    out = concat(out.as_str(), "` 可通过。");
    out = concat(out.as_str(), strict);
    out
}

} // verus!
