//! Decisions of a coding session: how its conversation opens, what is said
//! back to the model after each kind of failed step, when the user is
//! satisfied, and how the agent reacts to the console's requests.

use vstd::prelude::*;
use crate::chat::{ChatMessage, messages_view};
use crate::models::{AgentRequest, SessionState};
use crate::prompts::{system_prompt, system_prompt_spec};
use crate::text::{bytes_exceed, chars_of, contains, str_contains, str_eq, trim, trim_seq, utf8_len};

verus! {

/// The task statement that opens a conversation.
pub open spec fn first_user_spec(goal: Seq<char>, unattended: bool) -> Seq<char> {
    "用户的需求如下：\n"@ + goal + if unattended {
        "\n\n你需要作为自编程代理，根据该需求制定项目计划和目标，选择合适的技术栈并创建项目目录结构，编写代码，编译运行程序，分析并修复错误，如此往复循环，直至项目满足需求。为此，你应在项目目录中维护一个自动评测脚本（如 scripts/run_tests.sh），该脚本必须能够编译并运行程序、自动操作程序以执行必要的功能，并检测是否存在错误或未满足的目标。每次生成补丁后，你都需要更新这个评测脚本以反映新的需求。\n当前为无人值守模式：禁止输出 kind=clarify，必须直接基于合理默认假设输出 kind=patch JSON（diff 字段为 unified diff）并持续迭代。"@
    } else {
        "\n\n你需要作为自编程代理，根据该需求制定项目计划和目标，选择合适的技术栈并创建项目目录结构，编写代码，编译运行程序，分析并修复错误，如此往复循环，直至项目满足需求。为此，你应在项目目录中维护一个自动评测脚本（如 scripts/run_tests.sh），该脚本必须能够编译并运行程序、自动操作程序以执行必要的功能，并检测是否存在错误或未满足的目标。每次生成补丁后，你都需要更新这个评测脚本以反映新的需求。\n首先，请输出 JSON（kind=clarify 或 kind=patch）：如需澄清问题，请用 kind=clarify，并提出关键问题；如无需澄清，请用 kind=patch，并给出 unified diff（含 hunk）的补丁。"@
    }
}

/// The task statement that opens a conversation for `goal`.
pub fn first_user_message(goal: &str, unattended: bool) -> (r: String)
    ensures
        r@ == first_user_spec(goal@, unattended),
{
    let mut s = String::from_str("用户的需求如下：\n");
    s.append(goal);
    if unattended {
        s.append("\n\n你需要作为自编程代理，根据该需求制定项目计划和目标，选择合适的技术栈并创建项目目录结构，编写代码，编译运行程序，分析并修复错误，如此往复循环，直至项目满足需求。为此，你应在项目目录中维护一个自动评测脚本（如 scripts/run_tests.sh），该脚本必须能够编译并运行程序、自动操作程序以执行必要的功能，并检测是否存在错误或未满足的目标。每次生成补丁后，你都需要更新这个评测脚本以反映新的需求。\n当前为无人值守模式：禁止输出 kind=clarify，必须直接基于合理默认假设输出 kind=patch JSON（diff 字段为 unified diff）并持续迭代。");
    } else {
        s.append("\n\n你需要作为自编程代理，根据该需求制定项目计划和目标，选择合适的技术栈并创建项目目录结构，编写代码，编译运行程序，分析并修复错误，如此往复循环，直至项目满足需求。为此，你应在项目目录中维护一个自动评测脚本（如 scripts/run_tests.sh），该脚本必须能够编译并运行程序、自动操作程序以执行必要的功能，并检测是否存在错误或未满足的目标。每次生成补丁后，你都需要更新这个评测脚本以反映新的需求。\n首先，请输出 JSON（kind=clarify 或 kind=patch）：如需澄清问题，请用 kind=clarify，并提出关键问题；如无需澄清，请用 kind=patch，并给出 unified diff（含 hunk）的补丁。");
    }
    s
}

/// How a session's conversation was opened.
#[derive(Debug, Clone, Copy, PartialEq, Eq, Structural)]
pub enum OpeningKind {
    /// The saved conversation of the same goal was taken up.
    Resumed,
    /// Resuming was asked for, but there was nothing to take up.
    Fresh,
    /// A new task: the saved conversation was ignored.
    Ignored,
}

/// The conversation a session opens with: the saved one when resuming the
/// same goal, and when that is empty the system prompt and task statement.
pub open spec fn opening_spec(saved: Option<SessionState>, resume: bool, goal: Seq<char>, language: Seq<char>, unattended: bool)
    -> (Seq<(Seq<char>, Seq<char>)>, OpeningKind) {
    let (msgs, kind) = if resume {
        match saved {
            Some(st) => if st.goal@ == goal {
                (messages_view(st.messages@), OpeningKind::Resumed)
            } else {
                (Seq::empty(), OpeningKind::Fresh)
            },
            None => (Seq::empty(), OpeningKind::Fresh),
        }
    } else {
        (Seq::empty(), OpeningKind::Ignored)
    };
    if msgs.len() == 0 {
        (seq![("system"@, system_prompt_spec(language, unattended)), ("user"@, first_user_spec(goal, unattended))], kind)
    } else {
        (msgs, kind)
    }
}

/// Opens a session's conversation (see `opening_spec`), given the saved
/// session state when there is one.
pub fn opening_messages(saved: Option<SessionState>, resume: bool, goal: &str, language: &str, unattended: bool)
    -> (r: (Vec<ChatMessage>, OpeningKind))
    ensures
        (messages_view(r.0@), r.1) == opening_spec(saved, resume, goal@, language@, unattended),
{
    let ghost sv = saved;
    let (mut msgs, kind) = if resume {
        match saved {
            Some(st) => if str_eq(st.goal.as_str(), goal) {
                (st.messages, OpeningKind::Resumed)
            } else {
                (Vec::new(), OpeningKind::Fresh)
            },
            None => (Vec::new(), OpeningKind::Fresh),
        }
    } else {
        (Vec::new(), OpeningKind::Ignored)
    };
    if msgs.len() == 0 {
        msgs.push(ChatMessage::system(system_prompt(language, unattended)));
        msgs.push(ChatMessage::user(first_user_message(goal, unattended)));
        assert(messages_view(msgs@) =~= seq![("system"@, system_prompt_spec(language@, unattended)), ("user"@, first_user_spec(goal@, unattended))]);
    }
    (msgs, kind)
}

/// A model reply (trimmed) of more than 200000 bytes is refused.
pub fn reply_too_large(raw: &str) -> (b: bool)
    ensures
        b == (utf8_len(trim_seq(raw@)) > 200000),
{
    bytes_exceed(&chars_of(trim(raw).as_str()), 200000)
}

/// A step of the session that the model must redo, with the detail to tell it.
#[derive(Debug, Clone, Copy, PartialEq, Eq, Structural)]
pub enum RetryReason {
    ReplyTooLarge,
    NotJson,
    BadJson,
    UnattendedClarify,
    InvalidPatch,
    PatchCheckFailed,
    PatchApplyFailed,
}

/// What the model is told when a step must be redone; `detail` is the error
/// (with the hint, for a patch that would not apply).
pub open spec fn retry_text(reason: RetryReason, detail: Seq<char>) -> Seq<char> {
    match reason {
        RetryReason::ReplyTooLarge => "你的回复过大（超过 200KB），请仅输出必要 JSON 并显著缩短内容。"@,
        RetryReason::NotJson => "你的回复无法解析为合法 JSON："@ + detail + "。请严格按照约定输出 JSON 对象。"@,
        RetryReason::BadJson => "JSON 解析错误："@ + detail + "。请严格按照约定输出 JSON 对象。"@,
        RetryReason::UnattendedClarify => "无人值守模式禁止 kind=clarify。请基于现有上下文与合理默认假设直接输出 kind=patch JSON，并持续自我迭代直至满足目标。"@,
        RetryReason::InvalidPatch => "你给出的 patch 无效："@ + detail + "。请重新输出 kind=patch JSON，并确保 diff 是可应用的 unified diff（含 `diff --git` 与 `@@` hunk），只做必要最小改动。"@,
        RetryReason::PatchCheckFailed => "你的 unified diff 无法应用："@ + detail,
        RetryReason::PatchApplyFailed => "你的 unified diff 在应用阶段失败："@ + detail,
    }
}

/// What to tell the model when a step must be redone (see `retry_text`).
pub fn retry_message(reason: RetryReason, detail: &str) -> (r: String)
    ensures
        r@ == retry_text(reason, detail@),
{
    match reason {
        RetryReason::ReplyTooLarge => String::from_str("你的回复过大（超过 200KB），请仅输出必要 JSON 并显著缩短内容。"),
        RetryReason::NotJson => {
            let mut s = String::from_str("你的回复无法解析为合法 JSON：");
            s.append(detail);
            s.append("。请严格按照约定输出 JSON 对象。");
            s
        },
        RetryReason::BadJson => {
            let mut s = String::from_str("JSON 解析错误：");
            s.append(detail);
            s.append("。请严格按照约定输出 JSON 对象。");
            s
        },
        RetryReason::UnattendedClarify => String::from_str("无人值守模式禁止 kind=clarify。请基于现有上下文与合理默认假设直接输出 kind=patch JSON，并持续自我迭代直至满足目标。"),
        RetryReason::InvalidPatch => {
            let mut s = String::from_str("你给出的 patch 无效：");
            s.append(detail);
            s.append("。请重新输出 kind=patch JSON，并确保 diff 是可应用的 unified diff（含 `diff --git` 与 `@@` hunk），只做必要最小改动。");
            s
        },
        RetryReason::PatchCheckFailed => {
            let mut s = String::from_str("你的 unified diff 无法应用：");
            s.append(detail);
            s
        },
        RetryReason::PatchApplyFailed => {
            let mut s = String::from_str("你的 unified diff 在应用阶段失败：");
            s.append(detail);
            s
        },
    }
}

/// The user is satisfied with the result: their feedback, trimmed, is empty
/// or says so (`满意`).
pub open spec fn satisfied_spec(feedback: Seq<char>) -> bool {
    trim_seq(feedback).len() == 0 || contains(trim_seq(feedback), "满意"@)
}

/// Whether the user's feedback ends the session (see `satisfied_spec`).
pub fn feedback_satisfied(feedback: &str) -> (b: bool)
    ensures
        b == satisfied_spec(feedback@),
{
    let t = trim(feedback);
    chars_of(t.as_str()).len() == 0 || str_contains(t.as_str(), "满意")
}

/// What the model is told of the user's improvement request.
pub fn improvement_message(feedback: &str) -> (r: String)
    ensures
        r@ == "用户反馈："@ + trim_seq(feedback@) + "。请根据反馈改进代码，生成新的 patch JSON（严格按照协议输出 JSON）。"@,
{
    let mut s = String::from_str("用户反馈：");
    s.append(trim(feedback).as_str());
    s.append("。请根据反馈改进代码，生成新的 patch JSON（严格按照协议输出 JSON）。");
    s
}

/// What the agent does on a request from the console.
#[derive(Debug, Clone, Copy, PartialEq, Eq, Structural)]
pub enum AgentAction {
    /// Run a new session with the request's settings.
    StartSession,
    /// Keep the answers for the session waiting on them.
    StoreAnswers,
    /// Revert the last commit of the current workspace.
    RevertLast,
    /// Push the current workspace to the remote.
    PushRemote,
    /// Report that the session was stopped by the user.
    ReportStopped,
    /// Nothing to do.
    Ignore,
}

/// What the agent knows between requests.
#[derive(Debug, Clone, Copy, PartialEq, Eq, Structural)]
pub struct AgentControl {
    pub stop_requested: bool,
    pub has_session: bool,
}

/// The agent's step on a request: a start clears the stop request and
/// makes a session current; a stop sets it, and is reported when a session
/// was started; revert and push need a current session.
pub open spec fn agent_step_spec(c: AgentControl, req: AgentRequest) -> (AgentControl, AgentAction) {
    match req {
        AgentRequest::Start { .. } => (AgentControl { stop_requested: false, has_session: true }, AgentAction::StartSession),
        AgentRequest::Clarify { .. } => (c, AgentAction::StoreAnswers),
        AgentRequest::RevertLast => (c, if c.has_session { AgentAction::RevertLast } else { AgentAction::Ignore }),
        AgentRequest::Stop => (AgentControl { stop_requested: true, has_session: c.has_session },
            if c.has_session { AgentAction::ReportStopped } else { AgentAction::Ignore }),
        AgentRequest::PushRemote { .. } => (c, if c.has_session { AgentAction::PushRemote } else { AgentAction::Ignore }),
    }
}

/// The agent's step on a request (see `agent_step_spec`).
pub fn agent_request_step(c: AgentControl, req: &AgentRequest) -> (r: (AgentControl, AgentAction))
    ensures
        r == agent_step_spec(c, *req),
{
    match req {
        AgentRequest::Start { .. } => (AgentControl { stop_requested: false, has_session: true }, AgentAction::StartSession),
        AgentRequest::Clarify { .. } => (c, AgentAction::StoreAnswers),
        AgentRequest::RevertLast => (c, if c.has_session { AgentAction::RevertLast } else { AgentAction::Ignore }),
        AgentRequest::Stop => (AgentControl { stop_requested: true, has_session: c.has_session },
            if c.has_session { AgentAction::ReportStopped } else { AgentAction::Ignore }),
        AgentRequest::PushRemote { .. } => (c, if c.has_session { AgentAction::PushRemote } else { AgentAction::Ignore }),
    }
}

/// What waiting for clarification answers does on a request.
#[derive(Debug, Clone, Copy, PartialEq, Eq, Structural)]
pub enum WaitStep {
    /// The answers came: the wait ends with them.
    TakeAnswers,
    /// Revert the last commit and keep waiting.
    RevertLast,
    /// Push to the remote and keep waiting.
    PushRemote,
    /// The session stops: the wait ends without answers.
    Stop,
    /// Keep waiting.
    Ignore,
}

/// The step of the wait on a request, or on the channel closing (`None`):
/// answers end the wait, revert and push requests are served, a stop or a
/// closed channel stops the session, a start request is ignored.
pub open spec fn wait_step_spec(req: Option<AgentRequest>) -> WaitStep {
    match req {
        Some(AgentRequest::Clarify { .. }) => WaitStep::TakeAnswers,
        Some(AgentRequest::RevertLast) => WaitStep::RevertLast,
        Some(AgentRequest::PushRemote { .. }) => WaitStep::PushRemote,
        Some(AgentRequest::Stop) => WaitStep::Stop,
        Some(AgentRequest::Start { .. }) => WaitStep::Ignore,
        None => WaitStep::Stop,
    }
}

/// The step of the wait for answers (see `wait_step_spec`).
pub fn clarify_wait_step(req: Option<&AgentRequest>) -> (r: WaitStep)
    ensures
        r == wait_step_spec(match req { Some(q) => Some(*q), None => None }),
{
    match req {
        Some(AgentRequest::Clarify { .. }) => WaitStep::TakeAnswers,
        Some(AgentRequest::RevertLast) => WaitStep::RevertLast,
        Some(AgentRequest::PushRemote { .. }) => WaitStep::PushRemote,
        Some(AgentRequest::Stop) => WaitStep::Stop,
        Some(AgentRequest::Start { .. }) => WaitStep::Ignore,
        None => WaitStep::Stop,
    }
}

} // verus!
