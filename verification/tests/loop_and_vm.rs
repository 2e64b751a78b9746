use kacf::chat::ChatMessage;
use kacf::models::{ClarifyAnswer, ClarifyQuestion, EvalResult};
use kacf::protocol::AutoRevertSettings;
use kacf::runner::regex_match;
use kacf::session_loop::{
    feedback_question, session_step, step_is_defined, ModelReplyParse, SessionAction, SessionConfig, SessionEvent,
    SessionLoopState, SessionPhase, MAX_ITERATIONS,
};
use kacf::vm_exec::VmExecResponse;
use kacf::vm_handlers::{
    clone_request, clone_source_check, clone_target_check, cloned_vm, plan_vm_start, qemu_snapshot_tags, reconcile_vm_power,
    record_qemu_start, vm_live_pid,
    self_debug_plan_items, self_debug_plan_request, ssh_exec_response, ssh_poll_step, vm_exec_request, vm_exec_target,
    SshStep, StartDecision, VmInstance,
};
use kacf::vm_plans::VmSelfDebugPlanPayload;

fn cfg(unattended: bool) -> SessionConfig {
    SessionConfig {
        eval_cmd: "bash scripts/run_tests.sh".to_string(),
        unattended,
        max_messages: 40,
        max_chars: 120_000,
        revert: AutoRevertSettings {
            on_repeat: true,
            cooldown_iters: 2,
            repeat_count: 2,
            min_severity: 2,
            on_worse: false,
            min_worse_delta: 1,
            deny: vec![],
            allow: vec![],
        },
    }
}

fn step(c: &SessionConfig, s: SessionLoopState, e: SessionEvent) -> (SessionLoopState, SessionAction) {
    assert!(step_is_defined(&s, &e));
    session_step(c, s, e)
}

fn checkpoint_status(a: &SessionAction) -> String {
    match a {
        SessionAction::Checkpoint(s) => s.clone(),
        _ => panic!("expected a checkpoint"),
    }
}

/// Runs a fresh session up to the model call of iteration 1.
fn at_model_call(c: &SessionConfig) -> SessionLoopState {
    let (s, a) = SessionLoopState::start(vec![ChatMessage::system("sys".to_string()), ChatMessage::user("goal".to_string())]);
    assert_eq!(checkpoint_status(&a), "session_initialized");
    assert_eq!(s.iter, 0);
    let (s, a) = step(c, s, SessionEvent::Continue);
    assert_eq!(checkpoint_status(&a), "iteration_started");
    assert_eq!(s.iter, 1);
    let (s, a) = step(c, s, SessionEvent::Continue);
    assert!(matches!(a, SessionAction::CallModel));
    s
}

fn patch_json() -> String {
    "{\"kind\":\"patch\",\"summary\":\"fix\",\"diff\":\"diff --git a/x b/x\"}".to_string()
}

/// Runs a session through a patch that applies, up to the evaluation.
fn at_eval(c: &SessionConfig) -> SessionLoopState {
    let s = at_model_call(c);
    let (s, a) = step(c, s, SessionEvent::ModelReply(format!("  {}  ", patch_json())));
    match a {
        SessionAction::ParseReply(j) => assert_eq!(j, patch_json()),
        _ => panic!("expected the reply to be read"),
    }
    let (s, a) = step(c, s, SessionEvent::Parsed(ModelReplyParse::Patch { summary: "fix".into(), diff: "diff --git a/x b/x".into() }));
    assert!(matches!(a, SessionAction::CheckPatch(ref d) if d == "diff --git a/x b/x"));
    assert_eq!(s.repair.total_patches, 1);
    let (s, a) = step(c, s, SessionEvent::PatchChecked(Ok(())));
    assert!(matches!(a, SessionAction::ApplyPatch(_)));
    let (s, a) = step(c, s, SessionEvent::PatchApplied(Ok(())));
    assert!(matches!(a, SessionAction::Commit(ref m) if m == "fix"));
    let (s, a) = step(c, s, SessionEvent::Committed(Some("d".repeat(5000))));
    assert!(matches!(a, SessionAction::RunEval));
    match &s.phase {
        SessionPhase::AwaitEval { feedback_diff, .. } => assert!(feedback_diff.len() < 5000),
        _ => panic!("expected to wait for the evaluation"),
    }
    s
}

fn failed_eval() -> EvalResult {
    EvalResult { exit_code: 101, stdout: String::new(), stderr: "error[E0425]: cannot find value".to_string() }
}

#[test]
fn session_too_large_reply_is_refused_and_next_iteration_starts() {
    let c = cfg(false);
    let s = at_model_call(&c);
    let n = s.messages.len();
    let (s, a) = step(&c, s, SessionEvent::ModelReply("x".repeat(200_001)));
    assert!(matches!(a, SessionAction::Proceed));
    assert_eq!(s.messages.len(), n + 2);
    assert!(s.messages[n].content.contains("[history truncated"));
    assert_eq!(s.messages[n + 1].content, retry_message_too_large());
    let (s, a) = step(&c, s, SessionEvent::Continue);
    assert_eq!(checkpoint_status(&a), "iteration_started");
    assert_eq!(s.iter, 2);
}

fn retry_message_too_large() -> String {
    "你的回复过大（超过 200KB），请仅输出必要 JSON 并显著缩短内容。".to_string()
}

#[test]
fn session_reply_without_json_asks_again() {
    let c = cfg(false);
    let s = at_model_call(&c);
    let n = s.messages.len();
    let (s, a) = step(&c, s, SessionEvent::ModelReply("no json here".into()));
    assert!(matches!(a, SessionAction::Proceed));
    assert_eq!(s.messages[n].role, "assistant");
    assert_eq!(s.messages[n].content, "no json here");
    assert!(s.messages[n + 1].content.starts_with("你的回复无法解析为合法 JSON：未找到合法 JSON 段"));
}

#[test]
fn session_clarify_in_unattended_mode_is_redirected() {
    let c = cfg(true);
    let s = at_model_call(&c);
    let (s, _) = step(&c, s, SessionEvent::ModelReply("{\"kind\":\"clarify\",\"questions\":[]}".into()));
    let n = s.messages.len();
    let (s, a) = step(&c, s, SessionEvent::Parsed(ModelReplyParse::Clarify(vec![])));
    assert_eq!(checkpoint_status(&a), "unattended_clarify_redirected");
    assert!(s.messages[n + 1].content.starts_with("无人值守模式禁止 kind=clarify"));
}

#[test]
fn session_clarify_answers_are_passed_to_the_model() {
    let c = cfg(false);
    let s = at_model_call(&c);
    let (s, _) = step(&c, s, SessionEvent::ModelReply("{\"kind\":\"clarify\",\"questions\":[]}".into()));
    let q = ClarifyQuestion { id: "q1".into(), question: "Which?".into(), qtype: "text".into(), options: vec![] };
    let (s, a) = step(&c, s, SessionEvent::Parsed(ModelReplyParse::Clarify(vec![q])));
    assert!(matches!(a, SessionAction::AskClarify(ref v) if v.len() == 1));
    let n = s.messages.len();
    let (s, a) = step(&c, s, SessionEvent::ClarifyAnswered("{\"q1\": \"a\"}".into()));
    assert_eq!(checkpoint_status(&a), "waiting_patch_after_clarify");
    assert!(s.messages[n + 1].content.starts_with("这是用户对澄清问题的回答(JSON)：\n{\"q1\": \"a\"}\n\n现在请输出 kind=patch"));
}

#[test]
fn session_invalid_patch_and_failed_check_are_reported() {
    let c = cfg(false);
    let s = at_model_call(&c);
    let (s, _) = step(&c, s, SessionEvent::ModelReply(patch_json()));
    let (s, a) = step(&c, s, SessionEvent::Parsed(ModelReplyParse::Patch { summary: " ".into(), diff: "d".into() }));
    assert_eq!(checkpoint_status(&a), "invalid_patch_payload");
    assert!(s.messages.last().unwrap().content.starts_with("你给出的 patch 无效：summary 不能为空"));
    let (s, _) = step(&c, s, SessionEvent::Continue);
    let (s, _) = step(&c, s, SessionEvent::Continue);
    let (s, _) = step(&c, s, SessionEvent::ModelReply(patch_json()));
    let (s, _) = step(&c, s, SessionEvent::Parsed(ModelReplyParse::Patch { summary: "fix".into(), diff: "d".into() }));
    let (s, a) = step(&c, s, SessionEvent::PatchChecked(Err("error: patch failed: x:1".into())));
    assert_eq!(checkpoint_status(&a), "invalid_patch_apply_check");
    assert!(s.messages.last().unwrap().content.starts_with("你的 unified diff 无法应用：error: patch failed: x:1。"));
}

#[test]
fn session_failed_evaluation_asks_for_repair_and_repeats_revert() {
    let c = cfg(false);
    let s = at_eval(&c);
    let (s, a) = step(&c, s, SessionEvent::Evaluated(failed_eval()));
    assert_eq!(checkpoint_status(&a), "eval_failed_waiting_fix");
    assert_eq!(s.repair.consecutive_eval_failures, 1);
    assert_eq!(s.repair.consecutive_same_failure, 1);
    assert!(s.messages.last().unwrap().content.starts_with("本地评测失败，请继续修复。\n迭代轮次: 1"));
    assert!(s.messages[s.messages.len() - 2].content.starts_with("kind=patch summary=fix file_count=0 paths=[]"));
    // Same failure again: the second repeat reverts the patch.
    let (s, _) = step(&c, s, SessionEvent::Continue);
    let (s, _) = step(&c, s, SessionEvent::Continue);
    let (s, _) = step(&c, s, SessionEvent::ModelReply(patch_json()));
    let (s, _) = step(&c, s, SessionEvent::Parsed(ModelReplyParse::Patch { summary: "fix".into(), diff: "d".into() }));
    let (s, _) = step(&c, s, SessionEvent::PatchChecked(Ok(())));
    let (s, _) = step(&c, s, SessionEvent::PatchApplied(Ok(())));
    let (s, _) = step(&c, s, SessionEvent::Committed(None));
    let (s, a) = step(&c, s, SessionEvent::Evaluated(failed_eval()));
    assert!(matches!(a, SessionAction::Revert));
    assert_eq!(s.repair.consecutive_same_failure, 2);
    assert_eq!(s.repair.last_auto_revert_iter, 2);
    assert!(s.messages.last().unwrap().content.starts_with("检测到你连续产生同一错误"));
    let (s, a) = step(&c, s, SessionEvent::Continue);
    assert_eq!(checkpoint_status(&a), "eval_failed_waiting_fix");
    assert!(matches!(s.phase, SessionPhase::Begin));
}

#[test]
fn session_passing_evaluation_ends_unattended_session() {
    let c = cfg(true);
    let s = at_eval(&c);
    let ok = EvalResult { exit_code: 0, stdout: "all good".into(), stderr: String::new() };
    let (s, a) = step(&c, s, SessionEvent::Evaluated(ok.clone()));
    assert!(matches!(a, SessionAction::RunVerify));
    let (s, a) = step(&c, s, SessionEvent::Verified(ok));
    assert_eq!(checkpoint_status(&a), "done_unattended_success");
    let (_, a) = step(&c, s, SessionEvent::Continue);
    match a {
        SessionAction::Done { success, message } => {
            assert!(success);
            assert_eq!(message, "无人值守模式评测通过，自动结束");
        }
        _ => panic!("expected the end"),
    }
}

#[test]
fn session_failed_verify_and_user_feedback() {
    let c = cfg(false);
    let s = at_eval(&c);
    let ok = EvalResult { exit_code: 0, stdout: String::new(), stderr: String::new() };
    let (s, _) = step(&c, s, SessionEvent::Evaluated(ok.clone()));
    let (s, a) = step(&c, s, SessionEvent::Verified(failed_eval()));
    assert_eq!(checkpoint_status(&a), "eval_verify_failed");
    assert!(s.messages.last().unwrap().content.starts_with("你上一次补丁在主评测通过，但在回归复测失败。"));
    assert_eq!(s.repair.consecutive_eval_failures, 1);

    let s = at_eval(&c);
    let (s, _) = step(&c, s, SessionEvent::Evaluated(ok.clone()));
    let (s, a) = step(&c, s, SessionEvent::Verified(ok));
    assert!(matches!(a, SessionAction::AskFeedback));
    let answer = ClarifyAnswer { id: "feedback".into(), qtype: "text".into(), single: String::new(), multi: vec![], text: "add a button".into() };
    let (s, a) = step(&c, s, SessionEvent::FeedbackGiven(vec![answer]));
    assert_eq!(checkpoint_status(&a), "feedback_requires_improvement");
    assert!(s.messages.last().unwrap().content.starts_with("用户反馈：add a button。"));
    let q = feedback_question();
    assert_eq!(q.id, "feedback");
    assert_eq!(q.qtype, "text");
}

#[test]
fn session_stop_and_iteration_limit() {
    let c = cfg(false);
    let s = at_model_call(&c);
    let (s, a) = step(&c, s, SessionEvent::Stopped);
    assert!(matches!(a, SessionAction::Stop));
    assert!(matches!(s.phase, SessionPhase::Finished));
    let (mut s, _) = SessionLoopState::start(vec![]);
    s.iter = MAX_ITERATIONS;
    let (s, a) = step(&c, s, SessionEvent::Continue);
    assert_eq!(checkpoint_status(&a), "max_iterations_reached");
    let (_, a) = step(&c, s, SessionEvent::Continue);
    assert!(matches!(a, SessionAction::Done { success: false, ref message } if message == "达到最大迭代次数仍未收敛"));
}

#[test]
fn session_cut_inside_a_character_is_undefined() {
    let c = cfg(false);
    let s = at_model_call(&c);
    let reply = format!("a{}", "é".repeat(7000));
    let e = SessionEvent::ModelReply(reply);
    assert!(!step_is_defined(&s, &e));
    let _ = c;
}

#[test]
fn regex_match_blank_pattern_follows_the_regex() {
    assert!(!regex_match("  ", "abc"));
    assert!(regex_match("", "abc"));
    assert!(regex_match("b+", "abbc"));
    assert!(!regex_match("(", "abc"));
}

fn vm(name: &str, backend: &str, power: &str, port: Option<u16>) -> VmInstance {
    VmInstance {
        name: name.into(),
        backend: backend.into(),
        power_state: power.into(),
        cpu: 2,
        memory_mb: 2048,
        disk_gb: 20,
        disk_path: format!("vm/{name}.qcow2"),
        os_image: "ubuntu".into(),
        created_at_unix: 1,
        updated_at_unix: 2,
        last_message: String::new(),
        process_id: None,
        ssh_port: port,
        ssh_user: " dev ".into(),
    }
}

#[test]
fn vm_clone_checks_and_record() {
    assert_eq!(clone_request(false, "a", "b", "").err().unwrap(), (403, "read-only session".to_string()));
    assert_eq!(clone_request(true, "a b", "b", "").err().unwrap().1, "invalid source vm name");
    assert_eq!(clone_request(true, "a", "a", "").err().unwrap().1, "source vm and new vm must be different");
    assert_eq!(clone_request(true, "a", "b", "bad snap!").err().unwrap().1, "invalid snapshot name");
    let req = clone_request(true, " a ", "b", "snap1").unwrap();
    assert_eq!((req.source.as_str(), req.new_name.as_str(), req.snapshot.as_deref()), ("a", "b", Some("snap1")));
    let src = vm("a", "qemu", "stopped", None);
    assert_eq!(clone_source_check(true, Some(&src)).err().unwrap(), (409, "new vm already exists".to_string()));
    assert_eq!(clone_source_check(false, None).err().unwrap().0, 404);
    assert_eq!(clone_source_check(false, Some(&vm("a", "mock", "stopped", None))).err().unwrap().1, "clone is only available for qemu backend");
    assert_eq!(clone_source_check(false, Some(&vm("a", "qemu", "running", None))).err().unwrap().1, "stop source vm before cloning");
    assert!(clone_source_check(false, Some(&src)).is_ok());
    let tags = vec!["base".to_string()];
    assert_eq!(clone_target_check(Some(&"snap1".to_string()), &tags, false).err().unwrap(), (400, "snapshot not found on source vm".to_string()));
    assert_eq!(clone_target_check(Some(&"base".to_string()), &tags, true).err().unwrap().0, 409);
    assert!(clone_target_check(None, &tags, false).is_ok());
    let c = cloned_vm(&src, "b", "vm/b.qcow2", "cloned", 99);
    assert_eq!((c.name.as_str(), c.power_state.as_str(), c.cpu, c.created_at_unix, c.last_message.as_str()), ("b", "stopped", 2, 99, "cloned"));
    assert_eq!(c.ssh_user, " dev ");
}

#[test]
fn vm_start_decisions() {
    let vms = vec![vm("a", "qemu", "running", Some(2222)), vm("b", "qemu", "stopped", None), vm("c", "libvirt", "stopped", None), vm("d", "mock", "stopped", None)];
    assert!(matches!(plan_vm_start(&vms, "x", 4), StartDecision::NotFound));
    assert!(matches!(plan_vm_start(&vms, "a", 4), StartDecision::AlreadyRunning));
    match plan_vm_start(&vms, "b", 1) {
        StartDecision::LimitExceeded(m) => assert_eq!(m, "running vm limit exceeded: running=1 limit=1"),
        _ => panic!("expected the limit"),
    }
    assert!(matches!(plan_vm_start(&vms, "b", 2), StartDecision::StartQemu));
    assert!(matches!(plan_vm_start(&vms, "c", 2), StartDecision::MetadataOnly(ref m) if m.starts_with("libvirt execution not wired yet")));
    assert!(matches!(plan_vm_start(&vms, "d", 2), StartDecision::MetadataOnly(ref m) if m.starts_with("metadata-only start completed")));
    let mut v = vm("b", "qemu", "stopped", None);
    assert!(record_qemu_start(&mut v, Ok((42, "started".into())), 2222, 50));
    assert_eq!((v.process_id, v.power_state.as_str(), v.ssh_port, v.updated_at_unix), (Some(42), "running", Some(2222), 50));
    let mut w = vm("b", "qemu", "running", Some(1));
    assert!(!record_qemu_start(&mut w, Err("qemu missing".into()), 2222, 50));
    assert_eq!((w.process_id, w.power_state.as_str(), w.last_message.as_str(), w.updated_at_unix), (None, "stopped", "qemu missing", 2));
}

#[test]
fn vm_exec_request_and_ssh_outcomes() {
    assert_eq!(vm_exec_request(true, "a", "  ", 0, 0).err().unwrap(), (400, "command is empty".to_string()));
    assert_eq!(vm_exec_request(true, "a", " ls ", 0, 9000).unwrap(), ("a".to_string(), "ls".to_string(), 30, 600));
    assert_eq!(vm_exec_request(true, "a", "ls", 99999, 5).unwrap().2, 3600);
    assert_eq!(vm_exec_target(None).err().unwrap(), (404, "vm not found".to_string()));
    assert_eq!(vm_exec_target(Some(&vm("a", "mock", "running", Some(1)))).err().unwrap().1, "vm exec is only available for qemu backend");
    assert_eq!(vm_exec_target(Some(&vm("a", "qemu", "stopped", Some(1)))).err().unwrap().1, "vm is not running");
    assert_eq!(vm_exec_target(Some(&vm("a", "qemu", "running", None))).err().unwrap().1, "vm ssh port is not set");
    assert_eq!(vm_exec_target(Some(&vm("a", "qemu", "running", Some(2222)))).unwrap(), ("dev".to_string(), 2222));
    assert_eq!(ssh_poll_step(5000, 0, false, false), SshStep::TimedOut);
    assert_eq!(ssh_poll_step(500, 1, true, false), SshStep::Canceled);
    assert_eq!(ssh_poll_step(500, 1, true, true), SshStep::Finished);
    assert_eq!(ssh_poll_step(500, 1, false, false), SshStep::KeepWaiting);
    let t: VmExecResponse = ssh_exec_response(SshStep::TimedOut, 0, None, false, "x".into(), "y".into());
    assert_eq!((t.ok, t.exit_code, t.message.as_str(), t.stdout.as_str()), (false, -1, "ssh command timed out after 1s", ""));
    let c = ssh_exec_response(SshStep::Canceled, 10, None, false, String::new(), String::new());
    assert_eq!((c.exit_code, c.message.as_str()), (-2, "vm exec canceled"));
    let f = ssh_exec_response(SshStep::Finished, 10, Some(3), false, "o".into(), "e".into());
    assert_eq!((f.ok, f.exit_code, f.message.as_str(), f.stdout.as_str()), (false, 3, "vm exec failed with exit code 3", "o"));
    let s = ssh_exec_response(SshStep::Finished, 10, Some(0), true, String::new(), String::new());
    assert_eq!(s.message, "vm exec succeeded");
}

fn plan_body() -> VmSelfDebugPlanPayload {
    VmSelfDebugPlanPayload {
        name: "vm1".into(),
        run_id: String::new(),
        profile: String::new(),
        cycles: 2,
        workdir: String::new(),
        test_cmd: "cargo test".into(),
        fix_cmd: "cargo fix".into(),
        verify_cmd: String::new(),
        success_streak_target: 0,
        fail_streak_target: 0,
        max_task_budget: 3,
        max_runtime_sec: 100_000,
        timeout_sec: 0,
        wait_ready_sec: 9999,
        priority: 500,
        retry_max: 50,
    }
}

#[test]
fn self_debug_plan_request_and_items() {
    assert_eq!(self_debug_plan_request(false, &plan_body()).err().unwrap(), (403, "read-only session".to_string()));
    let mut bad = plan_body();
    bad.fix_cmd = " ".into();
    assert_eq!(self_debug_plan_request(true, &bad).err().unwrap(), (400, "fix_cmd is required for self-debug plan".to_string()));
    let mut bad_run = plan_body();
    bad_run.run_id = "bad id!".into();
    assert_eq!(self_debug_plan_request(true, &bad_run).err().unwrap(), (400, "invalid run_id".to_string()));
    let q = self_debug_plan_request(true, &plan_body()).unwrap();
    assert_eq!(q.name, "vm1");
    assert_eq!(q.tasks.len(), 3);
    assert!(q.new_run);
    assert!(q.run_id.starts_with("sd-"));
    assert_eq!((q.timeout_sec, q.wait_ready_sec, q.priority, q.retry_max, q.max_runtime_sec), (120, 600, 100, 10, 86_400));
    let items = self_debug_plan_items(&q, 0, 100).unwrap();
    assert_eq!(items.len(), 3);
    for it in &items {
        assert_eq!(it.run_id, q.run_id);
        assert_eq!(it.run_kind, "self_debug");
        assert_eq!(it.run_max_runtime_sec, 86_400);
        assert_eq!(it.status, "pending");
        assert_eq!(it.timeout_sec, 120);
    }
    assert_eq!(
        self_debug_plan_items(&q, 99, 100).err().unwrap(),
        (429, "vm exec queue limit exceeded: current=99 adding=3 limit=100".to_string())
    );
    let mut empty = q;
    for t in empty.tasks.iter_mut() {
        t.command = "  ".into();
    }
    assert_eq!(self_debug_plan_items(&empty, 0, 100).err().unwrap(), (400, "self-debug plan has no runnable command".to_string()));
}

#[test]
fn qemu_snapshot_listing_tags() {
    let listing = "Snapshot list:\nID        TAG               VM SIZE                DATE     VM CLOCK\n1         base                  0 B 2024-01-01 10:00:00 00:00:00.000\n\n2         after-setup           0 B 2024-01-02 10:00:00 00:00:00.000\n";
    assert_eq!(qemu_snapshot_tags(listing), vec!["base".to_string(), "after-setup".to_string()]);
    assert!(qemu_snapshot_tags("").is_empty());
}

#[test]
fn vm_power_reconciliation() {
    let mut v = vm("a", "qemu", "stopped", Some(2222));
    assert_eq!(vm_live_pid(&v, Some(7)), Some(7));
    assert!(reconcile_vm_power(&mut v, Some(7), true, 77));
    assert_eq!((v.power_state.as_str(), v.process_id, v.last_message.as_str(), v.updated_at_unix), ("running", Some(7), "qemu running pid 7", 77));
    assert!(reconcile_vm_power(&mut v, Some(7), false, 78));
    assert_eq!((v.power_state.as_str(), v.process_id, v.last_message.as_str()), ("stopped", None, "qemu pid 7 is not alive"));
    assert!(!reconcile_vm_power(&mut v, None, false, 79));
    assert_eq!(v.updated_at_unix, 78);
    let mut m = vm("b", "mock", "running", None);
    assert!(!reconcile_vm_power(&mut m, None, false, 80));
    assert_eq!(m.power_state, "running");
}
