//! What the console decides when a session is started or resumed.

use vstd::prelude::*;
use crate::analytics::RuntimeStatus;
use crate::models::AgentRequest;
use crate::paths::{managed_workspace, require_managed_workspace, unmanaged_msg};
use crate::text::{chars_of, str_contains, str_eq, contains, string_of, trim_chars, trim_seq};
use crate::ui_cache::StartPayload;

verus! {

/// The directory under a user's root that holds the workspaces.
pub const MANAGED_WORKSPACES_DIR: &'static str = "workspaces";

/// Why a start request is refused, checked in this order: a blank API key,
/// a blank git user name or email, a session already running, a workspace
/// outside the managed root.
pub open spec fn start_refusal(api_key: Seq<char>, git_user_name: Seq<char>, git_user_email: Seq<char>,
    running: bool, workspace: Seq<char>, root: Seq<char>) -> Option<Seq<char>> {
    if trim_seq(api_key).len() == 0 {
        Some("api_key is empty"@)
    } else if trim_seq(git_user_name).len() == 0 || trim_seq(git_user_email).len() == 0 {
        Some("git user identity is empty"@)
    } else if running {
        Some("session already running"@)
    } else if managed_workspace(workspace, root) is None {
        Some(unmanaged_msg(root, MANAGED_WORKSPACES_DIR@))
    } else {
        None
    }
}

/// The agent request a start payload becomes (see `start_refusal`): the
/// payload's settings, the workspace as a path under the managed root, and
/// whether to resume from the saved checkpoint.
pub fn start_request(payload: StartPayload, running: bool, managed_root_dir: &str, resume: bool)
    -> (r: Result<AgentRequest, String>)
    ensures
        match r {
            Err(e) => start_refusal(payload.api_key@, payload.git_user_name@, payload.git_user_email@, running,
                payload.workspace@, managed_root_dir@) == Some(e@),
            Ok(req) => start_refusal(payload.api_key@, payload.git_user_name@, payload.git_user_email@, running,
                payload.workspace@, managed_root_dir@) is None && (req matches AgentRequest::Start {
                    api_key, base_url, model, language, unattended_mode, resume_from_checkpoint, workspace, goal }
                && api_key == payload.api_key && base_url == payload.base_url && model == payload.model
                && language == payload.language && unattended_mode == payload.unattended_mode
                && resume_from_checkpoint == resume && goal == payload.goal
                && Some(workspace@) == managed_workspace(payload.workspace@, managed_root_dir@)),
        },
{
    if trim_chars(&chars_of(payload.api_key.as_str())).len() == 0 {
        return Err(String::from_str("api_key is empty"));
    }
    if trim_chars(&chars_of(payload.git_user_name.as_str())).len() == 0
        || trim_chars(&chars_of(payload.git_user_email.as_str())).len() == 0 {
        return Err(String::from_str("git user identity is empty"));
    }
    if running {
        return Err(String::from_str("session already running"));
    }
    let ws = match require_managed_workspace(payload.workspace.as_str(), managed_root_dir, MANAGED_WORKSPACES_DIR) {
        Ok(p) => p,
        Err(e) => return Err(e),
    };
    Ok(AgentRequest::Start {
        api_key: payload.api_key,
        base_url: payload.base_url,
        model: payload.model,
        language: payload.language,
        unattended_mode: payload.unattended_mode,
        resume_from_checkpoint: resume,
        workspace: ws,
        goal: payload.goal,
    })
}

/// Records in the runtime status that a session started at `now` on the
/// workspace and goal given; the last error is cleared.
pub fn mark_session_started(runtime: &mut RuntimeStatus, workspace: String, goal: String, now: u64)
    ensures
        final(runtime).running,
        final(runtime).last_start_unix == now,
        final(runtime).last_workspace == workspace,
        final(runtime).last_goal == goal,
        final(runtime).last_error@.len() == 0,
        final(runtime).total_events == old(runtime).total_events,
        final(runtime).total_logs == old(runtime).total_logs,
        final(runtime).total_done_ok == old(runtime).total_done_ok,
        final(runtime).total_done_fail == old(runtime).total_done_fail,
        final(runtime).api_ms_samples == old(runtime).api_ms_samples,
        final(runtime).eval_ms_samples == old(runtime).eval_ms_samples,
        final(runtime).done_history == old(runtime).done_history,
        final(runtime).digest_history == old(runtime).digest_history,
        final(runtime).root_cause_history == old(runtime).root_cause_history,
{
    runtime.running = true;
    runtime.last_start_unix = now;
    runtime.last_workspace = workspace;
    runtime.last_goal = goal;
    runtime.last_error = String::new();
}

/// The HTTP status of a failed start: 400 for a missing API key, 409 for a
/// session already running, else 500; a resume has no missing key to
/// report, so only 409 or 500.
pub open spec fn start_failure_status_spec(error: Seq<char>, resuming: bool) -> u16 {
    if !resuming && contains(error, "api_key is empty"@) {
        400
    } else if contains(error, "already running"@) {
        409
    } else {
        500
    }
}

/// The HTTP status of a failed start (see `start_failure_status_spec`).
pub fn start_failure_status(error: &str, resuming: bool) -> (r: u16)
    ensures
        r == start_failure_status_spec(error@, resuming),
{
    if !resuming && str_contains(error, "api_key is empty") {
        400
    } else if str_contains(error, "already running") {
        409
    } else {
        500
    }
}

/// Whether a saved session can be resumed, and what is known of it.
#[derive(Debug)]
pub struct ResumeInfo {
    pub resumable: bool,
    pub updated_at_unix: Option<u64>,
    pub iteration: Option<u32>,
    pub message_count: Option<usize>,
    pub last_status: Option<String>,
}

/// The status shown when the saved session has another goal.
pub open spec fn goal_mismatch_note() -> Seq<char> {
    "发现历史断点，但目标与当前输入不一致"@
}

/// Resume information from a saved session's metadata: when both the
/// current goal and the saved one are non-blank and differ once trimmed,
/// the session is not resumable and says so; else it is resumable with its
/// saved status.
pub fn resume_info(saved_goal: &str, updated_at_unix: Option<u64>, iteration: Option<u32>,
    message_count: Option<usize>, last_status: Option<String>, goal: &str) -> (r: ResumeInfo)
    ensures
        r.updated_at_unix == updated_at_unix && r.iteration == iteration && r.message_count == message_count,
        ({
            let g = trim_seq(goal@);
            let m = trim_seq(saved_goal@);
            if g.len() > 0 && m.len() > 0 && m != g {
                !r.resumable && (r.last_status matches Some(s) && s@ == goal_mismatch_note())
            } else {
                r.resumable && r.last_status == last_status
            }
        }),
{
    let g = trim_chars(&chars_of(goal));
    let m = trim_chars(&chars_of(saved_goal));
    let gs = string_of(g.as_slice());
    let ms = string_of(m.as_slice());
    if g.len() > 0 && m.len() > 0 && !str_eq(ms.as_str(), gs.as_str()) {
        return ResumeInfo {
            resumable: false,
            updated_at_unix: updated_at_unix,
            iteration: iteration,
            message_count: message_count,
            last_status: Some(String::from_str("发现历史断点，但目标与当前输入不一致")),
        };
    }
    ResumeInfo {
        resumable: true,
        updated_at_unix: updated_at_unix,
        iteration: iteration,
        message_count: message_count,
        last_status: last_status,
    }
}

} // verus!
