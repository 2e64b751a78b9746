//! Messages between the user interface and the coding agent.

use vstd::prelude::*;
use crate::chat::ChatMessage;

verus! {

/// A request from the user interface to the agent.
#[derive(Debug)]
pub enum AgentRequest {
    Start {
        api_key: String,
        base_url: String,
        model: String,
        language: String,
        unattended_mode: bool,
        resume_from_checkpoint: bool,
        workspace: String,
        goal: String,
    },
    Clarify { answers: Vec<ClarifyAnswer> },
    RevertLast,
    Stop,
    PushRemote { remote: String, url: String, branch: String },
}

/// An event from the agent to the user interface.
#[derive(Debug, Clone)]
pub enum AgentEvent {
    Log(String),
    NeedClarify { questions: Vec<ClarifyQuestion> },
    Diff { diff: String },
    Done { success: bool, message: String },
}

/// A question the model asks before writing code.
#[derive(Clone, Debug)]
pub struct ClarifyQuestion {
    pub id: String,
    pub question: String,
    pub qtype: String,
    pub options: Vec<String>,
}

/// The user's answer to a clarifying question.
#[derive(Clone, Debug)]
pub struct ClarifyAnswer {
    pub id: String,
    pub qtype: String,
    pub single: String,
    pub multi: Vec<String>,
    pub text: String,
}

/// How waiting for clarification answers ended.
#[derive(Debug)]
pub enum ClarifyWaitOutcome {
    Answers(Vec<ClarifyAnswer>),
    Stopped,
}

/// The outcome of running the evaluation command.
#[derive(Clone, Debug)]
pub struct EvalResult {
    pub exit_code: i32,
    pub stdout: String,
    pub stderr: String,
}

/// One file of a patch.
#[derive(Clone, Debug)]
pub struct FileWrite {
    pub path: String,
    pub content: String,
}

impl View for FileWrite {
    type V = (Seq<char>, Seq<char>);

    open spec fn view(&self) -> (Seq<char>, Seq<char>) {
        (self.path@, self.content@)
    }
}

/// The views of a list of file writes.
pub open spec fn files_view(v: Seq<FileWrite>) -> Seq<(Seq<char>, Seq<char>)> {
    v.map_values(|f: FileWrite| f@)
}

/// A checkpoint of a coding session.
#[derive(Clone, Debug)]
pub struct SessionState {
    pub schema_version: u32,
    pub goal: String,
    pub model: String,
    pub eval_cmd: String,
    pub iteration: u32,
    pub last_status: String,
    pub updated_at_unix: u64,
    pub message_count: usize,
    pub messages: Vec<ChatMessage>,
}

} // verus!
