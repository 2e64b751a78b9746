//! The coding session as a state machine: from the state and what just
//! happened (a model reply, a patch check, an evaluation, an answer), the
//! next state and the one piece of outside work to do next.

use vstd::prelude::*;
use crate::chat::{ChatMessage, messages_view};
use crate::events::question_view;
use crate::failure::{
    category_spec, digest_eval_failure, fatal_marker_spec, joined_output, key_lines_spec,
    severity_spec, signature_spec, category_changed_worse,
};
use crate::history::{
    compact_assistant_text, compact_patch_history, compact_spec, content_sizes, history_within,
    patch_history_spec, sum_sizes, trim_message_history_for_speed, trimmed_history,
};
use crate::models::{ClarifyAnswer, ClarifyQuestion, EvalResult};
use crate::patch::{extract_json, extract_json_spec, truncate, truncate_spec};
use crate::prompts::{build_repair_prompt, repair_prompt_spec};
use crate::protocol::{
    apply_failure_hint, apply_hint_spec, eval_passed, extract_feedback_text, feedback_spec,
    patch_diff_verdict, should_auto_revert, AutoRevertSettings, RepairHeuristics,
    validate_patch_payload,
};
use crate::session::{
    feedback_satisfied, improvement_message, reply_too_large, retry_message, retry_text,
    satisfied_spec, RetryReason,
};
use crate::text::{byte_boundary, concat, is_byte_boundary, lowercase, trim, trim_seq, utf8_len};

verus! {

/// How many iterations a session may run.
pub const MAX_ITERATIONS: u32 = 30;

/// What the model's JSON turned out to be.
pub enum ModelReplyParse {
    /// It did not match the protocol; the parser's message.
    Invalid(String),
    /// Clarifying questions.
    Clarify(Vec<ClarifyQuestion>),
    /// A patch: its summary and unified diff.
    Patch { summary: String, diff: String },
}

/// What happened since the last step.
pub enum SessionEvent {
    /// The last action (a checkpoint, a revert, or nothing) is done.
    Continue,
    /// The model replied with this text.
    ModelReply(String),
    /// The JSON of the reply was read.
    Parsed(ModelReplyParse),
    /// The user answered the clarifying questions (the answers as JSON).
    ClarifyAnswered(String),
    /// `git apply --check` accepted the diff, or refused it with this message.
    PatchChecked(Result<(), String>),
    /// `git apply` applied the diff, or failed with this message.
    PatchApplied(Result<(), String>),
    /// The patch was committed; the diff of that commit, where one was had.
    Committed(Option<String>),
    /// The evaluation ran.
    Evaluated(EvalResult),
    /// The confirming re-run of the evaluation ran.
    Verified(EvalResult),
    /// The user answered the question whether the result is satisfying.
    FeedbackGiven(Vec<ClarifyAnswer>),
    /// The user stopped the session.
    Stopped,
}

/// The outside work to do next.
pub enum SessionAction {
    /// Save a checkpoint with this status, then continue.
    Checkpoint(String),
    /// Nothing outside; continue.
    Proceed,
    /// Send the conversation to the model.
    CallModel,
    /// Read this JSON as a protocol reply.
    ParseReply(String),
    /// Ask the user these questions.
    AskClarify(Vec<ClarifyQuestion>),
    /// Ask the user whether the result is satisfying.
    AskFeedback,
    /// Check whether this diff applies.
    CheckPatch(String),
    /// Apply this diff.
    ApplyPatch(String),
    /// Commit the applied patch with this message and report its diff.
    Commit(String),
    /// Run the evaluation.
    RunEval,
    /// Run the evaluation once more to confirm it.
    RunVerify,
    /// Revert the last commit, then continue.
    Revert,
    /// The session ended.
    Done { success: bool, message: String },
    /// The session was stopped; end without a report.
    Stop,
    /// The event does not fit the state; nothing to do.
    Wait,
}

/// Where the session stands.
pub enum SessionPhase {
    /// Between iterations.
    Begin,
    /// An iteration started; the model is called next.
    StartIteration,
    /// Waiting for the model.
    AwaitReply,
    /// Waiting for the reply (trimmed) and its JSON to be read.
    AwaitParse { raw: String, content: String },
    /// Waiting for answers to the questions in this reply.
    AwaitClarify { content: String },
    /// Waiting for the check of a patch.
    AwaitCheck { content: String, summary: String, diff: String, history: String },
    /// Waiting for a patch to be applied.
    AwaitApply { content: String, summary: String, diff: String, history: String },
    /// Waiting for the commit of the applied patch.
    AwaitCommit { history: String },
    /// Waiting for the evaluation.
    AwaitEval { history: String, feedback_diff: String },
    /// Waiting for the confirming re-run.
    AwaitVerify { history: String, feedback_diff: String },
    /// Waiting for the user's verdict.
    AwaitFeedback { history: String },
    /// Waiting for the revert of the last commit.
    AfterRevert,
    /// The session ends with this report after the checkpoint.
    Finish { success: bool, message: String },
    /// The session is over.
    Finished,
}

/// What stays fixed during a session.
pub struct SessionConfig {
    pub eval_cmd: String,
    pub unattended: bool,
    pub max_messages: usize,
    pub max_chars: usize,
    pub revert: AutoRevertSettings,
}

/// The state of a session between steps.
pub struct SessionLoopState {
    pub messages: Vec<ChatMessage>,
    pub iter: u32,
    pub phase: SessionPhase,
    pub repair: RepairHeuristics,
}

/// The repair bookkeeping as plain values.
pub struct RepairView {
    pub total: u32,
    pub fails: u32,
    pub same: u32,
    pub sig: Seq<char>,
    pub sev: u8,
    pub cat: Seq<char>,
    pub last_revert: u32,
}

/// The view of the repair bookkeeping.
pub open spec fn repair_view(r: RepairHeuristics) -> RepairView {
    RepairView {
        total: r.total_patches,
        fails: r.consecutive_eval_failures,
        same: r.consecutive_same_failure,
        sig: r.last_failure_signature@,
        sev: r.last_failure_severity,
        cat: r.last_failure_category@,
        last_revert: r.last_auto_revert_iter,
    }
}

/// The view of a phase.
pub enum PhaseView {
    Begin,
    StartIteration,
    AwaitReply,
    AwaitParse(Seq<char>, Seq<char>),
    AwaitClarify(Seq<char>),
    AwaitCheck(Seq<char>, Seq<char>, Seq<char>, Seq<char>),
    AwaitApply(Seq<char>, Seq<char>, Seq<char>, Seq<char>),
    AwaitCommit(Seq<char>),
    AwaitEval(Seq<char>, Seq<char>),
    AwaitVerify(Seq<char>, Seq<char>),
    AwaitFeedback(Seq<char>),
    AfterRevert,
    Finish(bool, Seq<char>),
    Finished,
}

/// The view of a phase.
pub open spec fn phase_view(p: SessionPhase) -> PhaseView {
    match p {
        SessionPhase::Begin => PhaseView::Begin,
        SessionPhase::StartIteration => PhaseView::StartIteration,
        SessionPhase::AwaitReply => PhaseView::AwaitReply,
        SessionPhase::AwaitParse { raw, content } => PhaseView::AwaitParse(raw@, content@),
        SessionPhase::AwaitClarify { content } => PhaseView::AwaitClarify(content@),
        SessionPhase::AwaitCheck { content, summary, diff, history } => PhaseView::AwaitCheck(
            content@,
            summary@,
            diff@,
            history@,
        ),
        SessionPhase::AwaitApply { content, summary, diff, history } => PhaseView::AwaitApply(
            content@,
            summary@,
            diff@,
            history@,
        ),
        SessionPhase::AwaitCommit { history } => PhaseView::AwaitCommit(history@),
        SessionPhase::AwaitEval { history, feedback_diff } => PhaseView::AwaitEval(
            history@,
            feedback_diff@,
        ),
        SessionPhase::AwaitVerify { history, feedback_diff } => PhaseView::AwaitVerify(
            history@,
            feedback_diff@,
        ),
        SessionPhase::AwaitFeedback { history } => PhaseView::AwaitFeedback(history@),
        SessionPhase::AfterRevert => PhaseView::AfterRevert,
        SessionPhase::Finish { success, message } => PhaseView::Finish(success, message@),
        SessionPhase::Finished => PhaseView::Finished,
    }
}

/// The view of the session state.
pub struct LoopView {
    pub messages: Seq<(Seq<char>, Seq<char>)>,
    pub iter: u32,
    pub phase: PhaseView,
    pub repair: RepairView,
}

/// The view of the session state.
pub open spec fn loop_view(s: SessionLoopState) -> LoopView {
    LoopView {
        messages: messages_view(s.messages@),
        iter: s.iter,
        phase: phase_view(s.phase),
        repair: repair_view(s.repair),
    }
}

/// The view of an action.
pub enum ActionView {
    Checkpoint(Seq<char>),
    Proceed,
    CallModel,
    ParseReply(Seq<char>),
    AskClarify(Seq<(Seq<char>, Seq<char>, Seq<char>, Seq<Seq<char>>)>),
    AskFeedback,
    CheckPatch(Seq<char>),
    ApplyPatch(Seq<char>),
    Commit(Seq<char>),
    RunEval,
    RunVerify,
    Revert,
    Done(bool, Seq<char>),
    Stop,
    Wait,
}

/// The view of an action.
pub open spec fn action_view(a: SessionAction) -> ActionView {
    match a {
        SessionAction::Checkpoint(s) => ActionView::Checkpoint(s@),
        SessionAction::Proceed => ActionView::Proceed,
        SessionAction::CallModel => ActionView::CallModel,
        SessionAction::ParseReply(s) => ActionView::ParseReply(s@),
        SessionAction::AskClarify(q) => ActionView::AskClarify(
            q@.map_values(|x: ClarifyQuestion| question_view(x)),
        ),
        SessionAction::AskFeedback => ActionView::AskFeedback,
        SessionAction::CheckPatch(s) => ActionView::CheckPatch(s@),
        SessionAction::ApplyPatch(s) => ActionView::ApplyPatch(s@),
        SessionAction::Commit(s) => ActionView::Commit(s@),
        SessionAction::RunEval => ActionView::RunEval,
        SessionAction::RunVerify => ActionView::RunVerify,
        SessionAction::Revert => ActionView::Revert,
        SessionAction::Done { success, message } => ActionView::Done(success, message@),
        SessionAction::Stop => ActionView::Stop,
        SessionAction::Wait => ActionView::Wait,
    }
}

/// A user message.
pub open spec fn user_msg(t: Seq<char>) -> (Seq<char>, Seq<char>) {
    ("user"@, t)
}

/// An assistant message.
pub open spec fn assistant_msg(t: Seq<char>) -> (Seq<char>, Seq<char>) {
    ("assistant"@, t)
}

/// The report when the iterations ran out.
pub open spec fn max_iterations_message() -> Seq<char> {
    "达到最大迭代次数仍未收敛"@
}

/// The report of an unattended session whose evaluation passed.
pub open spec fn unattended_done_message() -> Seq<char> {
    "无人值守模式评测通过，自动结束"@
}

/// The report of a session the user is satisfied with.
pub open spec fn satisfied_done_message() -> Seq<char> {
    "用户满意，项目完成"@
}

/// What the model is told after the user answered its questions.
pub open spec fn clarify_answer_text(answers_json: Seq<char>) -> Seq<char> {
    "这是用户对澄清问题的回答(JSON)：\n"@ + answers_json
        + "\n\n现在请输出 kind=patch 的 JSON，给出最小可运行实现。要求：\n- 只输出 JSON（不要 markdown）\n- diff 必须是 unified diff（包含 `diff --git` 与 `@@` hunk）\n- 尽量小步提交，方便迭代。"@
}

/// What the model is told when the confirming re-run failed.
pub open spec fn verify_failed_text(prompt: Seq<char>) -> Seq<char> {
    "你上一次补丁在主评测通过，但在回归复测失败。请优先修复不稳定/漏测问题。\n"@ + prompt
}

/// What the model is told after an automatic revert.
pub open spec fn reverted_text() -> Seq<char> {
    "检测到你连续产生同一错误，系统已自动回滚最近一次补丁。请基于根因做更小步修复，避免重复失败。"@
}

/// What the model is told when the failure got more severe.
pub open spec fn worse_text() -> Seq<char> {
    "错误类别较上一轮恶化，请先恢复到可编译/可运行状态，再进行功能迭代。"@
}

/// What the model is told of the user's improvement request.
pub open spec fn improvement_text(feedback: Seq<char>) -> Seq<char> {
    "用户反馈："@ + trim_seq(feedback) + "。请根据反馈改进代码，生成新的 patch JSON（严格按照协议输出 JSON）。"@
}

/// The failure category of an evaluation.
pub open spec fn eval_category(r: EvalResult) -> Seq<char> {
    category_spec(r.exit_code, lowercase(joined_output(r.stdout@, r.stderr@)))
}

/// The failure signature of an evaluation.
pub open spec fn eval_signature(r: EvalResult) -> Seq<char> {
    signature_spec(r.exit_code, key_lines_spec(r.stdout@, r.stderr@, 8))
}

/// Whether an evaluation passed.
pub open spec fn eval_ok(r: EvalResult) -> bool {
    r.exit_code == 0 && !fatal_marker_spec(lowercase(joined_output(r.stdout@, r.stderr@)))
}

/// The repair prompt for a failed evaluation.
pub open spec fn repair_text(
    cfg: SessionConfig,
    iter: u32,
    r: EvalResult,
    fails: u32,
    same: u32,
    feedback_diff: Seq<char>,
) -> Seq<char> {
    repair_prompt_spec(
        cfg.eval_cmd@,
        iter,
        r.exit_code,
        r.stdout@,
        r.stderr@,
        eval_category(r),
        eval_signature(r),
        key_lines_spec(r.stdout@, r.stderr@, 8),
        fails,
        same,
        feedback_diff,
    )
}

/// The history after the trimming at the start of an iteration.
pub open spec fn trimmed_for_iteration(m: Seq<(Seq<char>, Seq<char>)>, max_m: nat, max_c: nat) -> Seq<(Seq<char>, Seq<char>)> {
    let kept = trimmed_history(m, max_m, max_c);
    if m.len() == 0 || history_within(m, max_m, max_c) || kept.len() == m.len() {
        m
    } else {
        kept
    }
}

/// The bookkeeping after a failed evaluation.
pub open spec fn failed_repair(r: RepairView, cat: Seq<char>, sig: Seq<char>) -> RepairView {
    RepairView {
        fails: (r.fails + 1) as u32,
        same: if sig.len() > 0 && sig == r.sig { (r.same + 1) as u32 } else { 1 },
        sig: sig,
        sev: severity_spec(cat),
        cat: cat,
        ..r
    }
}

/// Whether the last patch is reverted (see `should_auto_revert_spec`).
pub open spec fn revert_decision(
    s: AutoRevertSettings,
    r: RepairView,
    cat: Seq<char>,
    sig: Seq<char>,
    previous_severity: u8,
    iter: u32,
) -> bool {
    if !s.on_repeat {
        false
    } else if r.last_revert > 0 && iter < r.last_revert + s.cooldown_iters {
        false
    } else {
        let now = severity_spec(cat);
        let raised = if previous_severity + s.min_worse_delta > 255 {
            255
        } else {
            previous_severity + s.min_worse_delta
        };
        (r.same >= s.repeat_count || (s.on_worse && now >= raised)) && now >= s.min_severity
            && crate::protocol::signature_allowed_spec(
            sig,
            crate::text::strings_view(s.deny@),
            crate::text::strings_view(s.allow@),
        )
    }
}

/// Between iterations: stop when the iterations ran out, else trim the
/// history and start the next one.
pub open spec fn begin_spec(cfg: SessionConfig, s: LoopView) -> (LoopView, ActionView) {
    if s.iter >= MAX_ITERATIONS {
        (
            LoopView { phase: PhaseView::Finish(false, max_iterations_message()), ..s },
            ActionView::Checkpoint("max_iterations_reached"@),
        )
    } else {
        (
            LoopView {
                messages: trimmed_for_iteration(
                    s.messages,
                    cfg.max_messages as nat,
                    cfg.max_chars as nat,
                ),
                iter: (s.iter + 1) as u32,
                phase: PhaseView::StartIteration,
                ..s
            },
            ActionView::Checkpoint("iteration_started"@),
        )
    }
}

/// A reply came: refuse it when too large or without JSON, else read its JSON.
pub open spec fn reply_spec(s: LoopView, raw: Seq<char>) -> (LoopView, ActionView) {
    let t = trim_seq(raw);
    if utf8_len(t) > 200000 {
        (
            LoopView {
                messages: s.messages.push(assistant_msg(compact_spec(t, 12000))).push(
                    user_msg(retry_text(RetryReason::ReplyTooLarge, Seq::empty())),
                ),
                phase: PhaseView::Begin,
                ..s
            },
            ActionView::Proceed,
        )
    } else {
        match extract_json_spec(t) {
            None => (
                LoopView {
                    messages: s.messages.push(assistant_msg(compact_spec(t, 12000))).push(
                        user_msg(retry_text(RetryReason::NotJson, "未找到合法 JSON 段"@)),
                    ),
                    phase: PhaseView::Begin,
                    ..s
                },
                ActionView::Proceed,
            ),
            Some(c) => (LoopView { phase: PhaseView::AwaitParse(t, c), ..s }, ActionView::ParseReply(c)),
        }
    }
}

/// The reply's JSON was read.
pub open spec fn parsed_spec(cfg: SessionConfig, s: LoopView, raw: Seq<char>, content: Seq<char>, p: ModelReplyParse) -> (LoopView, ActionView) {
    match p {
        ModelReplyParse::Invalid(e) => (
            LoopView {
                messages: s.messages.push(assistant_msg(compact_spec(raw, 12000))).push(
                    user_msg(retry_text(RetryReason::BadJson, e@)),
                ),
                phase: PhaseView::Begin,
                ..s
            },
            ActionView::Proceed,
        ),
        ModelReplyParse::Clarify(qs) => if cfg.unattended {
            (
                LoopView {
                    messages: s.messages.push(assistant_msg(content)).push(
                        user_msg(retry_text(RetryReason::UnattendedClarify, Seq::empty())),
                    ),
                    phase: PhaseView::Begin,
                    ..s
                },
                ActionView::Checkpoint("unattended_clarify_redirected"@),
            )
        } else {
            (
                LoopView { phase: PhaseView::AwaitClarify(content), ..s },
                ActionView::AskClarify(qs@.map_values(|x: ClarifyQuestion| question_view(x))),
            )
        },
        ModelReplyParse::Patch { summary, diff } => {
            let h = patch_history_spec(summary@, Seq::empty(), content);
            let rep = RepairView {
                total: if s.repair.total < u32::MAX { (s.repair.total + 1) as u32 } else { u32::MAX },
                ..s.repair
            };
            match patch_diff_verdict(summary@, diff@) {
                Err(e) => (
                    LoopView {
                        messages: s.messages.push(assistant_msg(content)).push(
                            user_msg(retry_text(RetryReason::InvalidPatch, e)),
                        ),
                        phase: PhaseView::Begin,
                        repair: rep,
                        ..s
                    },
                    ActionView::Checkpoint("invalid_patch_payload"@),
                ),
                Ok(_) => (
                    LoopView {
                        phase: PhaseView::AwaitCheck(content, summary@, diff@, h),
                        repair: rep,
                        ..s
                    },
                    ActionView::CheckPatch(diff@),
                ),
            }
        },
    }
}

/// The detail told to the model when a diff did not apply.
pub open spec fn apply_detail(e: Seq<char>) -> Seq<char> {
    truncate_spec(e, 1200) + "。"@ + apply_hint_spec(lowercase(e))
}

/// An evaluation ran.
pub open spec fn evaluated_spec(cfg: SessionConfig, s: LoopView, h: Seq<char>, fd: Seq<char>, r: EvalResult) -> (LoopView, ActionView) {
    if eval_ok(r) {
        (
            LoopView {
                phase: PhaseView::AwaitVerify(h, fd),
                repair: RepairView {
                    fails: 0,
                    same: 0,
                    sig: Seq::empty(),
                    sev: 0,
                    cat: Seq::empty(),
                    ..s.repair
                },
                ..s
            },
            ActionView::RunVerify,
        )
    } else {
        let cat = eval_category(r);
        let sig = eval_signature(r);
        let rep = if s.repair.fails < u32::MAX && s.repair.same < u32::MAX {
            failed_repair(s.repair, cat, sig)
        } else {
            s.repair
        };
        let m1 = s.messages.push(assistant_msg(h)).push(
            user_msg(repair_text(cfg, s.iter, r, rep.fails, rep.same, fd)),
        );
        if revert_decision(cfg.revert, rep, cat, sig, s.repair.sev, s.iter) {
            let m2 = m1.push(user_msg(reverted_text()));
            let m3 = if severity_spec(cat) > severity_spec(s.repair.cat) {
                m2.push(user_msg(worse_text()))
            } else {
                m2
            };
            (
                LoopView {
                    messages: m3,
                    phase: PhaseView::AfterRevert,
                    repair: RepairView { last_revert: s.iter, ..rep },
                    ..s
                },
                ActionView::Revert,
            )
        } else {
            (
                LoopView { messages: m1, phase: PhaseView::Begin, repair: rep, ..s },
                ActionView::Checkpoint("eval_failed_waiting_fix"@),
            )
        }
    }
}

/// The confirming re-run ran.
pub open spec fn verified_spec(cfg: SessionConfig, s: LoopView, h: Seq<char>, fd: Seq<char>, r: EvalResult) -> (LoopView, ActionView) {
    if !eval_ok(r) {
        let cat = eval_category(r);
        let sig = eval_signature(r);
        (
            LoopView {
                messages: s.messages.push(assistant_msg(h)).push(
                    user_msg(verify_failed_text(repair_text(cfg, s.iter, r, 1, 1, fd))),
                ),
                phase: PhaseView::Begin,
                repair: RepairView {
                    fails: 1,
                    same: 1,
                    sig: sig,
                    sev: severity_spec(cat),
                    cat: cat,
                    ..s.repair
                },
                ..s
            },
            ActionView::Checkpoint("eval_verify_failed"@),
        )
    } else if cfg.unattended {
        (
            LoopView { phase: PhaseView::Finish(true, unattended_done_message()), ..s },
            ActionView::Checkpoint("done_unattended_success"@),
        )
    } else {
        (LoopView { phase: PhaseView::AwaitFeedback(h), ..s }, ActionView::AskFeedback)
    }
}

/// The user gave their verdict.
pub open spec fn feedback_step_spec(s: LoopView, h: Seq<char>, answers: Seq<ClarifyAnswer>) -> (LoopView, ActionView) {
    let f = feedback_spec(answers);
    if satisfied_spec(f) {
        (
            LoopView { phase: PhaseView::Finish(true, satisfied_done_message()), ..s },
            ActionView::Checkpoint("done_user_satisfied"@),
        )
    } else {
        (
            LoopView {
                messages: s.messages.push(assistant_msg(h)).push(user_msg(improvement_text(f))),
                phase: PhaseView::Begin,
                ..s
            },
            ActionView::Checkpoint("feedback_requires_improvement"@),
        )
    }
}

/// One step of the session: the next state and action for an event. An
/// event that does not fit the phase changes nothing.
pub open spec fn session_step_spec(cfg: SessionConfig, s: LoopView, e: SessionEvent) -> (LoopView, ActionView) {
    let wait = (s, ActionView::Wait);
    match e {
        SessionEvent::Stopped => (LoopView { phase: PhaseView::Finished, ..s }, ActionView::Stop),
        _ => match s.phase {
            PhaseView::Begin => if e is Continue { begin_spec(cfg, s) } else { wait },
            PhaseView::StartIteration => if e is Continue {
                (LoopView { phase: PhaseView::AwaitReply, ..s }, ActionView::CallModel)
            } else {
                wait
            },
            PhaseView::AwaitReply => match e {
                SessionEvent::ModelReply(raw) => reply_spec(s, raw@),
                _ => wait,
            },
            PhaseView::AwaitParse(raw, content) => match e {
                SessionEvent::Parsed(p) => parsed_spec(cfg, s, raw, content, p),
                _ => wait,
            },
            PhaseView::AwaitClarify(content) => match e {
                SessionEvent::ClarifyAnswered(a) => (
                    LoopView {
                        messages: s.messages.push(assistant_msg(content)).push(
                            user_msg(clarify_answer_text(a@)),
                        ),
                        phase: PhaseView::Begin,
                        ..s
                    },
                    ActionView::Checkpoint("waiting_patch_after_clarify"@),
                ),
                _ => wait,
            },
            PhaseView::AwaitCheck(content, summary, diff, h) => match e {
                SessionEvent::PatchChecked(Err(x)) => (
                    LoopView {
                        messages: s.messages.push(assistant_msg(content)).push(
                            user_msg(retry_text(RetryReason::PatchCheckFailed, apply_detail(x@))),
                        ),
                        phase: PhaseView::Begin,
                        ..s
                    },
                    ActionView::Checkpoint("invalid_patch_apply_check"@),
                ),
                SessionEvent::PatchChecked(Ok(_)) => (
                    LoopView { phase: PhaseView::AwaitApply(content, summary, diff, h), ..s },
                    ActionView::ApplyPatch(diff),
                ),
                _ => wait,
            },
            PhaseView::AwaitApply(content, summary, diff, h) => match e {
                SessionEvent::PatchApplied(Err(x)) => (
                    LoopView {
                        messages: s.messages.push(assistant_msg(content)).push(
                            user_msg(retry_text(RetryReason::PatchApplyFailed, apply_detail(x@))),
                        ),
                        phase: PhaseView::Begin,
                        ..s
                    },
                    ActionView::Checkpoint("invalid_patch_apply_exec"@),
                ),
                SessionEvent::PatchApplied(Ok(_)) => (
                    LoopView { phase: PhaseView::AwaitCommit(h), ..s },
                    ActionView::Commit(summary),
                ),
                _ => wait,
            },
            PhaseView::AwaitCommit(h) => match e {
                SessionEvent::Committed(d) => (
                    LoopView {
                        phase: PhaseView::AwaitEval(
                            h,
                            match d {
                                Some(x) => truncate_spec(x@, 3000),
                                None => Seq::empty(),
                            },
                        ),
                        ..s
                    },
                    ActionView::RunEval,
                ),
                _ => wait,
            },
            PhaseView::AwaitEval(h, fd) => match e {
                SessionEvent::Evaluated(r) => evaluated_spec(cfg, s, h, fd, r),
                _ => wait,
            },
            PhaseView::AwaitVerify(h, fd) => match e {
                SessionEvent::Verified(r) => verified_spec(cfg, s, h, fd, r),
                _ => wait,
            },
            PhaseView::AwaitFeedback(h) => match e {
                SessionEvent::FeedbackGiven(a) => feedback_step_spec(s, h, a@),
                _ => wait,
            },
            PhaseView::AfterRevert => if e is Continue {
                (
                    LoopView { phase: PhaseView::Begin, ..s },
                    ActionView::Checkpoint("eval_failed_waiting_fix"@),
                )
            } else {
                wait
            },
            PhaseView::Finish(ok, m) => if e is Continue {
                (LoopView { phase: PhaseView::Finished, ..s }, ActionView::Done(ok, m))
            } else {
                wait
            },
            PhaseView::Finished => wait,
        },
    }
}

/// Lengths that the machine bounds: the history and the texts that are
/// measured in bytes fit in `usize`.
pub open spec fn step_fits(s: LoopView, e: SessionEvent) -> bool {
    &&& sum_sizes(content_sizes(s.messages)) <= usize::MAX
    &&& (e matches SessionEvent::ModelReply(raw) ==> utf8_len(trim_seq(raw@)) <= usize::MAX)
    &&& (s.phase matches PhaseView::AwaitParse(raw, c) ==> utf8_len(raw) <= usize::MAX
        && utf8_len(c) <= usize::MAX)
}

/// The step is defined: where a reply is cut for the history (at 12000
/// bytes, or its JSON at 16000 bytes for a patch), the cut falls on a
/// character boundary.
pub open spec fn step_defined(s: LoopView, e: SessionEvent) -> bool {
    match (s.phase, e) {
        (PhaseView::AwaitReply, SessionEvent::ModelReply(raw)) => {
            let t = trim_seq(raw@);
            (utf8_len(t) > 200000 || extract_json_spec(t) is None) ==> byte_boundary(t, 12000)
        },
        (PhaseView::AwaitParse(raw, content), SessionEvent::Parsed(p)) => match p {
            ModelReplyParse::Invalid(_) => byte_boundary(raw, 12000),
            ModelReplyParse::Patch { .. } => byte_boundary(content, 16000),
            ModelReplyParse::Clarify(_) => true,
        },
        _ => true,
    }
}

/// The state after a step, from its parts.
fn next_state(messages: Vec<ChatMessage>, iter: u32, phase: SessionPhase, repair: RepairHeuristics) -> (r: SessionLoopState)
    ensures
        r.messages@ == messages@,
        r.iter == iter,
        r.phase == phase,
        r.repair == repair,
{
    SessionLoopState { messages, iter, phase, repair }
}

/// Appends an assistant message and a user message.
fn push_pair(messages: &mut Vec<ChatMessage>, a: String, u: String)
    ensures
        messages_view(final(messages)@) == messages_view(old(messages)@).push(assistant_msg(a@)).push(
            user_msg(u@),
        ),
{
    let ghost m0 = messages_view(messages@);
    messages.push(ChatMessage::assistant(a));
    messages.push(ChatMessage::user(u));
    assert(messages_view(messages@) =~= m0.push(assistant_msg(a@)).push(user_msg(u@)));
}

/// Appends a user message.
fn push_user(messages: &mut Vec<ChatMessage>, u: String)
    ensures
        messages_view(final(messages)@) == messages_view(old(messages)@).push(user_msg(u@)),
{
    let ghost m0 = messages_view(messages@);
    messages.push(ChatMessage::user(u));
    assert(messages_view(messages@) =~= m0.push(user_msg(u@)));
}

impl SessionLoopState {
    /// A session whose conversation opens with `messages`: nothing is
    /// recorded yet, and the first checkpoint is saved before iteration 1.
    pub fn start(messages: Vec<ChatMessage>) -> (r: (SessionLoopState, SessionAction))
        ensures
            loop_view(r.0) == (LoopView {
                messages: messages_view(messages@),
                iter: 0,
                phase: PhaseView::Begin,
                repair: RepairView {
                    total: 0,
                    fails: 0,
                    same: 0,
                    sig: Seq::empty(),
                    sev: 0,
                    cat: Seq::empty(),
                    last_revert: 0,
                },
            }),
            action_view(r.1) == ActionView::Checkpoint("session_initialized"@),
    {
        let repair = RepairHeuristics::new();
        let st = SessionLoopState { messages, iter: 0, phase: SessionPhase::Begin, repair };
        proof {
            assert(repair_view(st.repair).sig =~= Seq::<char>::empty());
            assert(repair_view(st.repair).cat =~= Seq::<char>::empty());
        }
        (st, SessionAction::Checkpoint(String::from_str("session_initialized")))
    }
}

/// The parts of a state as its view, with another phase.
pub open spec fn with_parts(s: LoopView, m: Seq<(Seq<char>, Seq<char>)>, iter: u32, rep: RepairView) -> bool {
    s.messages == m && s.iter == iter && s.repair == rep
}

fn begin_step(cfg: &SessionConfig, messages: Vec<ChatMessage>, iter: u32, repair: RepairHeuristics, Ghost(s): Ghost<LoopView>) -> (r: (SessionLoopState, SessionAction))
    requires
        with_parts(s, messages_view(messages@), iter, repair_view(repair)),
        sum_sizes(content_sizes(messages_view(messages@))) <= usize::MAX,
    ensures
        (loop_view(r.0), action_view(r.1)) == begin_spec(*cfg, s),
{
    if iter >= MAX_ITERATIONS {
        let st = next_state(
            messages,
            iter,
            SessionPhase::Finish { success: false, message: String::from_str("达到最大迭代次数仍未收敛") },
            repair,
        );
        return (st, SessionAction::Checkpoint(String::from_str("max_iterations_reached")));
    }
    let mut messages = messages;
    let _ = trim_message_history_for_speed(&mut messages, cfg.max_messages, cfg.max_chars);
    let st = next_state(messages, iter + 1, SessionPhase::StartIteration, repair);
    (st, SessionAction::Checkpoint(String::from_str("iteration_started")))
}

fn reply_step(messages: Vec<ChatMessage>, iter: u32, repair: RepairHeuristics, raw: String, Ghost(s): Ghost<LoopView>) -> (r: (SessionLoopState, SessionAction))
    requires
        with_parts(s, messages_view(messages@), iter, repair_view(repair)),
        utf8_len(trim_seq(raw@)) <= usize::MAX,
        (utf8_len(trim_seq(raw@)) > 200000 || extract_json_spec(trim_seq(raw@)) is None)
            ==> byte_boundary(trim_seq(raw@), 12000),
    ensures
        (loop_view(r.0), action_view(r.1)) == reply_spec(s, raw@),
{
    let t = trim(raw.as_str());
    let mut messages = messages;
    if reply_too_large(raw.as_str()) {
        let a = compact_assistant_text(t.as_str(), 12000);
        push_pair(&mut messages, a, retry_message(RetryReason::ReplyTooLarge, ""));
        proof { reveal_strlit(""); }
        return (next_state(messages, iter, SessionPhase::Begin, repair), SessionAction::Proceed);
    }
    match extract_json(t.as_str()) {
        Err(e) => {
            let a = compact_assistant_text(t.as_str(), 12000);
            push_pair(&mut messages, a, retry_message(RetryReason::NotJson, e.as_str()));
            (next_state(messages, iter, SessionPhase::Begin, repair), SessionAction::Proceed)
        },
        Ok(c) => {
            let c2 = c.clone();
            (
                next_state(messages, iter, SessionPhase::AwaitParse { raw: t, content: c }, repair),
                SessionAction::ParseReply(c2),
            )
        },
    }
}

fn parsed_step(
    cfg: &SessionConfig,
    messages: Vec<ChatMessage>,
    iter: u32,
    repair: RepairHeuristics,
    raw: String,
    content: String,
    p: ModelReplyParse,
    Ghost(s): Ghost<LoopView>,
) -> (r: (SessionLoopState, SessionAction))
    requires
        with_parts(s, messages_view(messages@), iter, repair_view(repair)),
        utf8_len(raw@) <= usize::MAX,
        utf8_len(content@) <= usize::MAX,
        p is Invalid ==> byte_boundary(raw@, 12000),
        p is Patch ==> byte_boundary(content@, 16000),
    ensures
        (loop_view(r.0), action_view(r.1)) == parsed_spec(*cfg, s, raw@, content@, p),
{
    let mut messages = messages;
    let mut repair = repair;
    match p {
        ModelReplyParse::Invalid(e) => {
            let a = compact_assistant_text(raw.as_str(), 12000);
            push_pair(&mut messages, a, retry_message(RetryReason::BadJson, e.as_str()));
            (next_state(messages, iter, SessionPhase::Begin, repair), SessionAction::Proceed)
        },
        ModelReplyParse::Clarify(qs) => {
            if cfg.unattended {
                push_pair(&mut messages, content, retry_message(RetryReason::UnattendedClarify, ""));
                (
                    next_state(messages, iter, SessionPhase::Begin, repair),
                    SessionAction::Checkpoint(String::from_str("unattended_clarify_redirected")),
                )
            } else {
                (
                    next_state(messages, iter, SessionPhase::AwaitClarify { content }, repair),
                    SessionAction::AskClarify(qs),
                )
            }
        },
        ModelReplyParse::Patch { summary, diff } => {
            let empty: Vec<crate::models::FileWrite> = Vec::new();
            let h = compact_patch_history(summary.as_str(), empty.as_slice(), content.as_str());
            proof {
                assert(crate::models::files_view(empty@) =~= Seq::empty());
            }
            repair.total_patches = repair.total_patches.saturating_add(1);
            match validate_patch_payload(summary.as_str(), diff.as_str()) {
                Err(e) => {
                    push_pair(&mut messages, content, retry_message(RetryReason::InvalidPatch, e.as_str()));
                    (
                        next_state(messages, iter, SessionPhase::Begin, repair),
                        SessionAction::Checkpoint(String::from_str("invalid_patch_payload")),
                    )
                },
                Ok(_) => {
                    let d2 = diff.clone();
                    (
                        next_state(
                            messages,
                            iter,
                            SessionPhase::AwaitCheck { content, summary, diff, history: h },
                            repair,
                        ),
                        SessionAction::CheckPatch(d2),
                    )
                },
            }
        },
    }
}

/// The detail told to the model when a diff did not apply.
fn apply_detail_text(e: &str) -> (r: String)
    ensures
        r@ == apply_detail(e@),
{
    let a = concat(truncate(e, 1200).as_str(), "。");
    concat(a.as_str(), apply_failure_hint(e))
}

fn evaluated_step(
    cfg: &SessionConfig,
    messages: Vec<ChatMessage>,
    iter: u32,
    repair: RepairHeuristics,
    h: String,
    fd: String,
    r: EvalResult,
    Ghost(s): Ghost<LoopView>,
) -> (out: (SessionLoopState, SessionAction))
    requires
        with_parts(s, messages_view(messages@), iter, repair_view(repair)),
    ensures
        (loop_view(out.0), action_view(out.1)) == evaluated_spec(*cfg, s, h@, fd@, r),
{
    let mut messages = messages;
    let mut repair = repair;
    if eval_passed(&r) {
        repair.record_success();
        proof {
            assert(repair_view(repair) == (RepairView {
                fails: 0,
                same: 0,
                sig: Seq::empty(),
                sev: 0,
                cat: Seq::empty(),
                ..s.repair
            }));
        }
        return (
            next_state(messages, iter, SessionPhase::AwaitVerify { history: h, feedback_diff: fd }, repair),
            SessionAction::RunVerify,
        );
    }
    let digest = digest_eval_failure(r.exit_code, r.stdout.as_str(), r.stderr.as_str());
    let previous_severity = repair.last_failure_severity;
    let previous_category = repair.last_failure_category.clone();
    if repair.consecutive_eval_failures < u32::MAX && repair.consecutive_same_failure < u32::MAX {
        repair.record_failure(&digest);
    }
    let prompt = build_repair_prompt(
        cfg.eval_cmd.as_str(),
        iter,
        &r,
        &digest,
        repair.consecutive_eval_failures,
        repair.consecutive_same_failure,
        fd.as_str(),
    );
    push_pair(&mut messages, h, prompt);
    if should_auto_revert(&cfg.revert, &repair, &digest, previous_severity, iter) {
        push_user(&mut messages, String::from_str("检测到你连续产生同一错误，系统已自动回滚最近一次补丁。请基于根因做更小步修复，避免重复失败。"));
        if category_changed_worse(previous_category.as_str(), digest.category.as_str()) {
            push_user(&mut messages, String::from_str("错误类别较上一轮恶化，请先恢复到可编译/可运行状态，再进行功能迭代。"));
        }
        repair.last_auto_revert_iter = iter;
        return (next_state(messages, iter, SessionPhase::AfterRevert, repair), SessionAction::Revert);
    }
    (
        next_state(messages, iter, SessionPhase::Begin, repair),
        SessionAction::Checkpoint(String::from_str("eval_failed_waiting_fix")),
    )
}

fn verified_step(
    cfg: &SessionConfig,
    messages: Vec<ChatMessage>,
    iter: u32,
    repair: RepairHeuristics,
    h: String,
    fd: String,
    r: EvalResult,
    Ghost(s): Ghost<LoopView>,
) -> (out: (SessionLoopState, SessionAction))
    requires
        with_parts(s, messages_view(messages@), iter, repair_view(repair)),
    ensures
        (loop_view(out.0), action_view(out.1)) == verified_spec(*cfg, s, h@, fd@, r),
{
    let mut messages = messages;
    let mut repair = repair;
    if !eval_passed(&r) {
        let digest = digest_eval_failure(r.exit_code, r.stdout.as_str(), r.stderr.as_str());
        repair.record_verify_failure(&digest);
        let prompt = build_repair_prompt(cfg.eval_cmd.as_str(), iter, &r, &digest, 1, 1, fd.as_str());
        let text = concat("你上一次补丁在主评测通过，但在回归复测失败。请优先修复不稳定/漏测问题。\n", prompt.as_str());
        push_pair(&mut messages, h, text);
        return (
            next_state(messages, iter, SessionPhase::Begin, repair),
            SessionAction::Checkpoint(String::from_str("eval_verify_failed")),
        );
    }
    if cfg.unattended {
        return (
            next_state(
                messages,
                iter,
                SessionPhase::Finish { success: true, message: String::from_str("无人值守模式评测通过，自动结束") },
                repair,
            ),
            SessionAction::Checkpoint(String::from_str("done_unattended_success")),
        );
    }
    (next_state(messages, iter, SessionPhase::AwaitFeedback { history: h }, repair), SessionAction::AskFeedback)
}

fn feedback_step(
    messages: Vec<ChatMessage>,
    iter: u32,
    repair: RepairHeuristics,
    h: String,
    answers: Vec<ClarifyAnswer>,
    Ghost(s): Ghost<LoopView>,
) -> (out: (SessionLoopState, SessionAction))
    requires
        with_parts(s, messages_view(messages@), iter, repair_view(repair)),
    ensures
        (loop_view(out.0), action_view(out.1)) == feedback_step_spec(s, h@, answers@),
{
    let mut messages = messages;
    let f = extract_feedback_text(answers.as_slice());
    if feedback_satisfied(f.as_str()) {
        return (
            next_state(
                messages,
                iter,
                SessionPhase::Finish { success: true, message: String::from_str("用户满意，项目完成") },
                repair,
            ),
            SessionAction::Checkpoint(String::from_str("done_user_satisfied")),
        );
    }
    push_pair(&mut messages, h, improvement_message(f.as_str()));
    (
        next_state(messages, iter, SessionPhase::Begin, repair),
        SessionAction::Checkpoint(String::from_str("feedback_requires_improvement")),
    )
}

/// Whether the step is defined for this event (see `step_defined`); where it
/// is not, the cut of a reply for the history would split a character.
pub fn step_is_defined(state: &SessionLoopState, event: &SessionEvent) -> (b: bool)
    requires
        step_fits(loop_view(*state), *event),
    ensures
        b == step_defined(loop_view(*state), *event),
{
    match (&state.phase, event) {
        (SessionPhase::AwaitReply, SessionEvent::ModelReply(raw)) => {
            let t = trim(raw.as_str());
            if reply_too_large(raw.as_str()) || extract_json(t.as_str()).is_err() {
                is_byte_boundary(t.as_str(), 12000)
            } else {
                true
            }
        },
        (SessionPhase::AwaitParse { raw, content }, SessionEvent::Parsed(p)) => match p {
            ModelReplyParse::Invalid(_) => is_byte_boundary(raw.as_str(), 12000),
            ModelReplyParse::Patch { .. } => is_byte_boundary(content.as_str(), 16000),
            ModelReplyParse::Clarify(_) => true,
        },
        _ => true,
    }
}

/// One step of the session (see `session_step_spec`).
pub fn session_step(cfg: &SessionConfig, state: SessionLoopState, event: SessionEvent) -> (r: (SessionLoopState, SessionAction))
    requires
        step_fits(loop_view(state), event),
        step_defined(loop_view(state), event),
    ensures
        (loop_view(r.0), action_view(r.1)) == session_step_spec(*cfg, loop_view(state), event),
{
    let ghost s = loop_view(state);
    let ghost e = event;
    let SessionLoopState { messages, iter, phase, repair } = state;
    if let SessionEvent::Stopped = event {
        return (next_state(messages, iter, SessionPhase::Finished, repair), SessionAction::Stop);
    }
    match phase {
        SessionPhase::Begin => match event {
            SessionEvent::Continue => begin_step(cfg, messages, iter, repair, Ghost(s)),
            _ => (next_state(messages, iter, SessionPhase::Begin, repair), SessionAction::Wait),
        },
        SessionPhase::StartIteration => match event {
            SessionEvent::Continue => (next_state(messages, iter, SessionPhase::AwaitReply, repair), SessionAction::CallModel),
            _ => (next_state(messages, iter, SessionPhase::StartIteration, repair), SessionAction::Wait),
        },
        SessionPhase::AwaitReply => match event {
            SessionEvent::ModelReply(raw) => reply_step(messages, iter, repair, raw, Ghost(s)),
            _ => (next_state(messages, iter, SessionPhase::AwaitReply, repair), SessionAction::Wait),
        },
        SessionPhase::AwaitParse { raw, content } => match event {
            SessionEvent::Parsed(p) => parsed_step(cfg, messages, iter, repair, raw, content, p, Ghost(s)),
            _ => (next_state(messages, iter, SessionPhase::AwaitParse { raw, content }, repair), SessionAction::Wait),
        },
        SessionPhase::AwaitClarify { content } => match event {
            SessionEvent::ClarifyAnswered(a) => {
                let mut messages = messages;
                let text = concat(concat("这是用户对澄清问题的回答(JSON)：\n", a.as_str()).as_str(), "\n\n现在请输出 kind=patch 的 JSON，给出最小可运行实现。要求：\n- 只输出 JSON（不要 markdown）\n- diff 必须是 unified diff（包含 `diff --git` 与 `@@` hunk）\n- 尽量小步提交，方便迭代。");
                push_pair(&mut messages, content, text);
                (
                    next_state(messages, iter, SessionPhase::Begin, repair),
                    SessionAction::Checkpoint(String::from_str("waiting_patch_after_clarify")),
                )
            },
            _ => (next_state(messages, iter, SessionPhase::AwaitClarify { content }, repair), SessionAction::Wait),
        },
        SessionPhase::AwaitCheck { content, summary, diff, history } => match event {
            SessionEvent::PatchChecked(Err(x)) => {
                let mut messages = messages;
                push_pair(&mut messages, content, retry_message(RetryReason::PatchCheckFailed, apply_detail_text(x.as_str()).as_str()));
                (
                    next_state(messages, iter, SessionPhase::Begin, repair),
                    SessionAction::Checkpoint(String::from_str("invalid_patch_apply_check")),
                )
            },
            SessionEvent::PatchChecked(Ok(_)) => {
                let d2 = diff.clone();
                (
                    next_state(messages, iter, SessionPhase::AwaitApply { content, summary, diff, history }, repair),
                    SessionAction::ApplyPatch(d2),
                )
            },
            _ => (
                next_state(messages, iter, SessionPhase::AwaitCheck { content, summary, diff, history }, repair),
                SessionAction::Wait,
            ),
        },
        SessionPhase::AwaitApply { content, summary, diff, history } => match event {
            SessionEvent::PatchApplied(Err(x)) => {
                let mut messages = messages;
                push_pair(&mut messages, content, retry_message(RetryReason::PatchApplyFailed, apply_detail_text(x.as_str()).as_str()));
                (
                    next_state(messages, iter, SessionPhase::Begin, repair),
                    SessionAction::Checkpoint(String::from_str("invalid_patch_apply_exec")),
                )
            },
            SessionEvent::PatchApplied(Ok(_)) => (
                next_state(messages, iter, SessionPhase::AwaitCommit { history }, repair),
                SessionAction::Commit(summary),
            ),
            _ => (
                next_state(messages, iter, SessionPhase::AwaitApply { content, summary, diff, history }, repair),
                SessionAction::Wait,
            ),
        },
        SessionPhase::AwaitCommit { history } => match event {
            SessionEvent::Committed(d) => {
                let fd = match d {
                    Some(x) => truncate(x.as_str(), 3000),
                    None => String::new(),
                };
                (
                    next_state(messages, iter, SessionPhase::AwaitEval { history, feedback_diff: fd }, repair),
                    SessionAction::RunEval,
                )
            },
            _ => (next_state(messages, iter, SessionPhase::AwaitCommit { history }, repair), SessionAction::Wait),
        },
        SessionPhase::AwaitEval { history, feedback_diff } => match event {
            SessionEvent::Evaluated(r) => evaluated_step(cfg, messages, iter, repair, history, feedback_diff, r, Ghost(s)),
            _ => (
                next_state(messages, iter, SessionPhase::AwaitEval { history, feedback_diff }, repair),
                SessionAction::Wait,
            ),
        },
        SessionPhase::AwaitVerify { history, feedback_diff } => match event {
            SessionEvent::Verified(r) => verified_step(cfg, messages, iter, repair, history, feedback_diff, r, Ghost(s)),
            _ => (
                next_state(messages, iter, SessionPhase::AwaitVerify { history, feedback_diff }, repair),
                SessionAction::Wait,
            ),
        },
        SessionPhase::AwaitFeedback { history } => match event {
            SessionEvent::FeedbackGiven(a) => feedback_step(messages, iter, repair, history, a, Ghost(s)),
            _ => (next_state(messages, iter, SessionPhase::AwaitFeedback { history }, repair), SessionAction::Wait),
        },
        SessionPhase::AfterRevert => match event {
            SessionEvent::Continue => (
                next_state(messages, iter, SessionPhase::Begin, repair),
                SessionAction::Checkpoint(String::from_str("eval_failed_waiting_fix")),
            ),
            _ => (next_state(messages, iter, SessionPhase::AfterRevert, repair), SessionAction::Wait),
        },
        SessionPhase::Finish { success, message } => match event {
            SessionEvent::Continue => (
                next_state(messages, iter, SessionPhase::Finished, repair),
                SessionAction::Done { success, message },
            ),
            _ => (next_state(messages, iter, SessionPhase::Finish { success, message }, repair), SessionAction::Wait),
        },
        SessionPhase::Finished => (next_state(messages, iter, SessionPhase::Finished, repair), SessionAction::Wait),
    }
}

/// The question asked when the evaluation passed.
pub fn feedback_question() -> (q: ClarifyQuestion)
    ensures
        question_view(q) == ("feedback"@, "目标功能已实现，是否满意？如有改进意见请说明："@, "text"@, Seq::<Seq<char>>::empty()),
{
    let options: Vec<String> = Vec::new();
    let q = ClarifyQuestion {
        id: String::from_str("feedback"),
        question: String::from_str("目标功能已实现，是否满意？如有改进意见请说明："),
        qtype: String::from_str("text"),
        options,
    };
    assert(crate::text::strings_view(q.options@) =~= Seq::<Seq<char>>::empty());
    q
}

} // verus!
