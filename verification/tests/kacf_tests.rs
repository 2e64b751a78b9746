use std::collections::VecDeque;

use kacf::analytics::{readiness_score, release_gate, RuntimeStatus};
use kacf::auth::{nickname_reserved, AccountRole};
use kacf::chat::ChatMessage;
use kacf::debug_log::{clamp_len, push_entry, ClientLogEntry};
use kacf::dispatch::{append_dispatch_trace_entry, select_dispatch_vm_candidates_with_score, VmExecDispatchTraceEntry, VM_DISPATCH_TRACE_MAX_ENTRIES};
use kacf::events::{pull_events, push_event_with_limits_inner, SerializableEvent};
use kacf::failure::{category_changed_worse, failure_severity};
use kacf::history::{compact_assistant_text, compact_patch_history, trim_message_history_for_speed};
use kacf::models::FileWrite;
use kacf::patch::truncate;
use kacf::paths::{normalize_rel_path, require_managed_workspace, workspace_path_for_input};
use kacf::protocol::{should_retry_session_error, validate_patch_payload};
use kacf::self_debug::{
    archive_completed_self_debug_runs, collect_self_debug_runs, trim_history_entries, VmSelfDebugHistoryEntry,
    VmSelfDebugRunSummary,
};
use kacf::starter::select_blueprint;
use kacf::strategy::strategy_priority_boost_by_stats;
use kacf::ui_cache::{apply_ui_cache_patch, GlobalOptions, UiCachePatch, UiCachePayload};
use kacf::vm::{default_cpu, default_disk_gb, default_memory_mb, normalize_backend, sanitize_vm_name};
use kacf::vm_policy::{
    default_vm_policy_config, ensure_queue_capacity, sanitize_vm_policy_config, vm_exec_running_limit_by_role,
    vm_instance_limit_by_role, vm_queue_limit_by_role, vm_running_limit_by_role, VmPolicyConfig, VmPolicyRoleLimits,
    VmPolicyScheduler,
};
use kacf::vm_queue::{
    classify_command_risk, enforce_self_debug_run_timeout, is_queue_active_status, is_running_task_hard_timed_out,
    priority_aging_boost, queue_has_active_duplicate, queue_item_from_values, queue_watchdog_recovery_stats,
    recover_stale_running_tasks_in_queue, sanitize_self_debug_run_id, VmExecQueueItem,
};

#[test]
fn nickname_reservation_blocks_admin_like() {
    assert!(nickname_reserved("Admin"));
    assert!(nickname_reserved("administrator"));
    assert!(nickname_reserved("  aDmIn  "));
    assert!(nickname_reserved("my-admin-name"));
    assert!(!nickname_reserved("Kevin"));
}

#[test]
fn trim_history_keeps_system_and_recent_messages() {
    let mut msgs = vec![ChatMessage::system("system".to_string())];
    for i in 0..80 {
        msgs.push(ChatMessage::user(format!("user-{i}-{}", "x".repeat(400))));
    }
    let removed = trim_message_history_for_speed(&mut msgs, 40, 70_000).expect("should trim");
    assert!(removed.0 > 0);
    assert_eq!(msgs.first().map(|m| m.role.as_str()), Some("system"));
    assert!(msgs.len() <= 40);
}

#[test]
fn validate_patch_rejects_empty_diff() {
    let err = validate_patch_payload("summary", "").expect_err("must fail");
    assert!(err.to_string().contains("diff"));
}

#[test]
fn compact_text_truncates_large_history() {
    let s = "a".repeat(100);
    let c = compact_assistant_text(&s, 32);
    assert!(c.len() < s.len() + 64);
    assert!(c.contains("truncated"));
}

#[test]
fn severity_mapping_is_reasonable() {
    assert!(failure_severity("compile_error") > failure_severity("timeout"));
    assert!(failure_severity("runtime_crash") >= failure_severity("test_failure"));
}

#[test]
fn category_worse_detection_works() {
    assert!(category_changed_worse("timeout", "compile_error"));
    assert!(!category_changed_worse("compile_error", "test_failure"));
}

#[test]
fn compact_assistant_text_truncates_and_marks() {
    let s = "a".repeat(100);
    let out = compact_assistant_text(&s, 20);
    assert!(out.contains("truncated"));
    assert!(out.len() < s.len() + 80);
}

#[test]
fn compact_patch_history_includes_header_and_paths() {
    let files = vec![FileWrite {
        path: "src/main.rs".to_string(),
        content: "fn main() {}".to_string(),
    }];
    let out = compact_patch_history("fix", &files, "{\"kind\":\"patch\"}");
    assert!(out.contains("kind=patch summary=fix"));
    assert!(out.contains("src/main.rs"));
}

#[test]
fn truncate_handles_utf8_boundary_safely() {
    let s = "abc数字xyz";
    let out = truncate(s, 4);
    assert!(out.starts_with("abc..."));
    assert!(out.contains("[truncated"));
}

#[test]
fn truncate_keeps_short_strings_unchanged() {
    let s = "hello";
    assert_eq!(truncate(s, 5), "hello");
    assert_eq!(truncate(s, 8), "hello");
}

#[test]
fn retry_classifier_matches_timeout() {
    let err = "deepseek chat_complete: read streaming chunk: operation timed out";
    assert!(should_retry_session_error(err));
}

#[test]
fn retry_classifier_ignores_logic_errors() {
    let err = "error: the package 'snake_game' does not contain this feature";
    assert!(!should_retry_session_error(err));
}

#[test]
fn blueprint_selects_ecommerce() {
    let b = select_blueprint("帮我做一个电商商城，带订单和支付");
    assert_eq!(b.scene, "电商类产品");
    assert!(b.repos[0].url.contains("medusa"));
}

#[test]
fn gate_fails_when_blockers_exist() {
    let blockers = vec!["存在失败".to_string()];
    let (passed, reason) = release_gate(90, 75, &blockers, false);
    assert!(!passed);
    assert!(reason.contains("存在失败"));
}

#[test]
fn gate_fails_when_score_too_low() {
    let (passed, reason) = release_gate(60, 75, &[], false);
    assert!(!passed);
    assert!(reason.contains("低于阈值"));
}

#[test]
fn gate_passes_for_good_score_without_blockers() {
    let (passed, reason) = release_gate(85, 75, &[], false);
    assert!(passed);
    assert!(reason.contains("通过"));
}

#[test]
fn readiness_score_penalizes_failures() {
    let score = readiness_score(&RuntimeStatus::default(), 0, 2, Some(1000), Some(1000));
    assert!(score < 75);
}

#[test]
fn patch_sanitizes_project_logs() {
    let mut payload = UiCachePayload::default();
    let logs = vec![("project:a".to_string(), format!("{}\n", "x".repeat(140_000)))];
    apply_ui_cache_patch(
        &mut payload,
        UiCachePatch {
            global_options: Some(GlobalOptions {
                log_max_chars: "20000".to_string(),
                ..GlobalOptions::default()
            }),
            project_logs: Some(logs),
            ..UiCachePatch::default()
        },
    );
    let out = payload
        .project_logs
        .iter()
        .find(|(k, _)| k == "project:a")
        .map(|(_, v)| v.clone())
        .unwrap_or_default();
    assert!(out.chars().count() <= 20_001);
}

#[test]
fn clamp_len_truncates() {
    let s = "a".repeat(10);
    assert_eq!(clamp_len(&s, 20), s);
    let t = "b".repeat(30);
    assert_eq!(clamp_len(&t, 10), format!("{}...", "b".repeat(10)));
}

#[test]
fn push_entry_evictions_work() {
    let mut entries = Vec::new();
    let mut bytes = 0usize;
    for i in 0..10 {
        push_entry(
            &mut entries,
            &mut bytes,
            ClientLogEntry {
                ts_unix: i,
                level: "e".into(),
                message: "m".repeat(50),
                href: "".into(),
                user_agent: "".into(),
                stack: "".into(),
            },
            5,
            10_000,
        );
    }
    assert_eq!(entries.len(), 5);
    assert_eq!(entries[0].ts_unix, 5);
    assert!(bytes > 0);
}

#[test]
fn pull_events_filters_and_limits() {
    let mut buf: VecDeque<(usize, SerializableEvent)> = VecDeque::new();
    buf.push_back((1, SerializableEvent::Log { line: "a".into() }));
    buf.push_back((2, SerializableEvent::Log { line: "b".into() }));
    buf.push_back((3, SerializableEvent::Log { line: "c".into() }));

    let out = pull_events(&buf, 2, 2);
    assert_eq!(out.len(), 2);
    assert_eq!(out[0].0, 2);
    assert_eq!(out[1].0, 3);
}

#[test]
fn push_event_evicts_oldest_by_count() {
    let mut buf: VecDeque<(usize, SerializableEvent)> = VecDeque::new();
    let mut bytes = 0usize;
    let mut next_id = 0usize;
    for i in 0..5 {
        push_event_with_limits_inner(
            &mut buf,
            &mut bytes,
            &mut next_id,
            SerializableEvent::Log { line: format!("l{i}") },
            3,
            10_000,
        );
    }
    assert_eq!(buf.len(), 3);
    assert_eq!(buf.front().map(|x| x.0), Some(2));
    assert_eq!(buf.back().map(|x| x.0), Some(4));
}

#[test]
fn push_event_evicts_oldest_by_bytes() {
    let mut buf: VecDeque<(usize, SerializableEvent)> = VecDeque::new();
    let mut bytes = 0usize;
    let mut next_id = 0usize;
    for _ in 0..4 {
        push_event_with_limits_inner(
            &mut buf,
            &mut bytes,
            &mut next_id,
            SerializableEvent::Log { line: "x".repeat(100) },
            100,
            250,
        );
    }
    assert!(buf.len() <= 2);
    assert!(bytes <= 250);
}

#[test]
fn normalize_rel_path_rejects_escape_components() {
    assert!(normalize_rel_path("../x").is_none());
    assert!(normalize_rel_path("/abs/x").is_none());
    assert!(normalize_rel_path("a/../../b").is_none());
}

#[test]
fn workspace_path_must_stay_under_managed_root() {
    assert!(workspace_path_for_input("autocoding_data/workspaces/a", "autocoding_data").is_some());
    assert!(workspace_path_for_input("workspace/a", "autocoding_data").is_none());
}

#[test]
fn require_managed_workspace_returns_helpful_error() {
    let err = require_managed_workspace("workspace/a", "autocoding_data", "workspaces")
        .expect_err("must reject unmanaged workspace");
    assert!(err.contains("./autocoding_data/workspaces"));
}

#[test]
fn sanitize_vm_name_accepts_safe_chars() {
    assert_eq!(sanitize_vm_name("vm-01_alpha.test"), Some("vm-01_alpha.test".to_string()));
}

#[test]
fn sanitize_vm_name_rejects_unsafe_input() {
    assert!(sanitize_vm_name("../escape").is_none());
    assert!(sanitize_vm_name("with space").is_none());
    assert!(sanitize_vm_name("").is_none());
}

#[test]
fn vm_resource_defaults_are_bounded() {
    assert_eq!(default_cpu(0), 2);
    assert_eq!(default_memory_mb(0), 4096);
    assert_eq!(default_disk_gb(0), 40);
    assert_eq!(default_cpu(100), 32);
    assert_eq!(default_memory_mb(999_999), 262_144);
    assert_eq!(default_disk_gb(9), 10);
}

#[test]
fn normalize_backend_maps_unknown_to_metadata() {
    assert_eq!(normalize_backend("qemu"), "qemu");
    assert_eq!(normalize_backend("libvirt"), "libvirt");
    assert_eq!(normalize_backend("foobar"), "metadata-only");
    assert_eq!(normalize_backend(""), "metadata-only");
}

#[test]
fn sanitize_self_debug_run_id_checks_format() {
    assert_eq!(sanitize_self_debug_run_id("run_01-A"), Some("run_01-A".to_string()));
    assert!(sanitize_self_debug_run_id("bad id").is_none());
    assert!(sanitize_self_debug_run_id("").is_none());
}

#[test]
fn self_debug_run_summary_counts_paused() {
    let mut a = queue_item_from_values("echo a", 10, 0, 0, 0);
    a.run_id = "sd-1".to_string();
    a.run_kind = "self_debug".to_string();
    a.status = "paused".to_string();

    let mut b = queue_item_from_values("echo b", 10, 0, 0, 0);
    b.run_id = "sd-1".to_string();
    b.run_kind = "self_debug".to_string();
    b.status = "pending".to_string();

    let runs = collect_self_debug_runs(&[a, b]);
    assert_eq!(runs.len(), 1);
    assert_eq!(runs[0].run_id, "sd-1");
    assert_eq!(runs[0].paused, 1);
    assert_eq!(runs[0].pending, 1);
}

#[test]
fn strategy_priority_boost_uses_success_rate_with_min_attempts() {
    let mut items = Vec::new();
    for i in 0..5 {
        let mut trigger = queue_item_from_values("bash scripts/run_tests.sh", 30, 0, 0, 0);
        trigger.id = format!("t-{i}");
        trigger.run_kind = "self_debug".to_string();
        trigger.failure_category = "test_failure".to_string();
        trigger.status = "failed".to_string();
        items.push(trigger);

        let mut verify = queue_item_from_values("bash scripts/run_tests.sh", 30, 0, 0, 0);
        verify.run_kind = "self_debug_verify_after_strategy".to_string();
        verify.trigger_task_id = format!("t-{i}");
        verify.status = if i == 4 { "failed".to_string() } else { "done".to_string() };
        items.push(verify);
    }
    assert_eq!(strategy_priority_boost_by_stats(&items, "test_failure"), 3);

    let mut small = Vec::new();
    for i in 0..2 {
        let mut trigger = queue_item_from_values("bash scripts/run_tests.sh", 30, 0, 0, 0);
        trigger.id = format!("s-{i}");
        trigger.run_kind = "self_debug".to_string();
        trigger.failure_category = "build_error".to_string();
        trigger.status = "failed".to_string();
        small.push(trigger);

        let mut verify = queue_item_from_values("bash scripts/run_tests.sh", 30, 0, 0, 0);
        verify.run_kind = "self_debug_verify_after_strategy".to_string();
        verify.trigger_task_id = format!("s-{i}");
        verify.status = "done".to_string();
        small.push(verify);
    }
    assert_eq!(strategy_priority_boost_by_stats(&small, "build_error"), 0);
}

#[test]
fn enforce_self_debug_run_timeout_cancels_remaining_tasks() {
    let mut done = queue_item_from_values("echo done", 10, 0, 0, 0);
    done.run_id = "sd-timeout".to_string();
    done.run_kind = "self_debug".to_string();
    done.run_max_runtime_sec = 30;
    done.created_at_unix = 100;
    done.status = "done".to_string();

    let mut pending = queue_item_from_values("echo pending", 10, 0, 0, 0);
    pending.run_id = "sd-timeout".to_string();
    pending.run_kind = "self_debug_strategy".to_string();
    pending.run_max_runtime_sec = 30;
    pending.created_at_unix = 100;
    pending.status = "pending".to_string();

    let mut items = vec![done, pending];
    let hit = enforce_self_debug_run_timeout(&mut items, "sd-timeout", 131);
    assert_eq!(hit, Some(30));
    assert_eq!(items[1].status, "canceled");
}

#[test]
fn archive_completed_self_debug_runs_moves_done_run_to_history() {
    let mut done = queue_item_from_values("echo done", 10, 0, 0, 0);
    done.run_id = "sd-done".to_string();
    done.run_kind = "self_debug".to_string();
    done.status = "done".to_string();
    done.created_at_unix = 100;
    done.finished_at_unix = 110;

    let mut pending = queue_item_from_values("echo pending", 10, 0, 0, 0);
    pending.run_id = "sd-pending".to_string();
    pending.run_kind = "self_debug".to_string();
    pending.status = "pending".to_string();
    pending.created_at_unix = 100;

    let mut items = vec![done, pending];
    let mut history = Vec::new();
    let (runs, removed_tasks) = archive_completed_self_debug_runs(&mut items, &mut history, 200);
    assert_eq!(runs, 1);
    assert_eq!(removed_tasks, 1);
    assert_eq!(history.len(), 1);
    assert_eq!(history[0].summary.run_id, "sd-done");
    assert_eq!(items.len(), 1);
    assert_eq!(items[0].run_id, "sd-pending");
}

fn history_entry(run_id: &str, updated: u64, archived: u64) -> VmSelfDebugHistoryEntry {
    VmSelfDebugHistoryEntry {
        summary: VmSelfDebugRunSummary {
            run_id: run_id.to_string(),
            total: 1,
            pending: 0,
            paused: 0,
            running: 0,
            done: 1,
            failed: 0,
            canceled: 0,
            updated_at_unix: updated,
        },
        archived_at_unix: archived,
        failed_steps: 0,
        categories: Vec::new(),
        key_lines: Vec::new(),
        context_text: String::new(),
    }
}

#[test]
fn trim_history_entries_keeps_latest_count() {
    let mut entries = vec![history_entry("a", 1, 3), history_entry("b", 2, 2), history_entry("c", 3, 1)];
    trim_history_entries(&mut entries, 2);
    assert_eq!(entries.len(), 2);
    assert_eq!(entries[0].summary.run_id, "a");
    assert_eq!(entries[1].summary.run_id, "b");
}

#[test]
fn archive_history_captures_context_snapshot() {
    let mut failed = queue_item_from_values("bash scripts/run_tests.sh", 30, 0, 0, 0);
    failed.run_id = "sd-fail".to_string();
    failed.run_kind = "self_debug".to_string();
    failed.status = "failed".to_string();
    failed.failure_category = "test_failure".to_string();
    failed.failure_key_lines = vec!["assertion failed: x != y".to_string()];
    failed.output_preview = "stderr:\nassertion failed".to_string();
    failed.message = "test failed".to_string();

    let mut items = vec![failed];
    let mut history = Vec::new();
    let (runs, removed_tasks) = archive_completed_self_debug_runs(&mut items, &mut history, 300);
    assert_eq!(runs, 1);
    assert_eq!(removed_tasks, 1);
    assert_eq!(history.len(), 1);
    assert_eq!(history[0].summary.run_id, "sd-fail");
    assert_eq!(history[0].failed_steps, 1);
    assert!(history[0].context_text.contains("run_id=sd-fail"));
    assert!(history[0].context_text.contains("key_failure_lines"));
}

#[test]
fn role_limits_and_capacity_checks_work() {
    let cfg = default_vm_policy_config();
    assert!(vm_instance_limit_by_role(&cfg, &AccountRole::Admin) > vm_instance_limit_by_role(&cfg, &AccountRole::User));
    assert!(vm_queue_limit_by_role(&cfg, &AccountRole::Admin) > vm_queue_limit_by_role(&cfg, &AccountRole::User));
    assert!(vm_running_limit_by_role(&cfg, &AccountRole::Admin) > vm_running_limit_by_role(&cfg, &AccountRole::User));
    assert!(
        vm_exec_running_limit_by_role(&cfg, &AccountRole::Admin) > vm_exec_running_limit_by_role(&cfg, &AccountRole::User)
    );
    assert!(ensure_queue_capacity(10, 5, 20).is_ok());
    assert!(ensure_queue_capacity(20, 1, 20).is_err());
}

#[test]
fn queue_active_status_and_duplicate_detection_work() {
    assert!(is_queue_active_status("pending"));
    assert!(is_queue_active_status("running"));
    assert!(is_queue_active_status("paused"));
    assert!(!is_queue_active_status("done"));

    let mut done = queue_item_from_values("echo hi", 10, 0, 0, 0);
    done.status = "done".to_string();
    let mut pending = queue_item_from_values("echo hi", 10, 0, 0, 0);
    pending.status = "pending".to_string();
    let items = vec![done, pending];
    assert!(queue_has_active_duplicate(&items, "echo hi"));
    assert!(!queue_has_active_duplicate(&items, "echo bye"));
}

#[test]
fn stale_running_task_is_force_recovered() {
    let mut running = queue_item_from_values("sleep 120", 10, 0, 0, 0);
    running.status = "running".to_string();
    running.started_at_unix = 100;

    let mut fresh = queue_item_from_values("echo ok", 30, 0, 0, 0);
    fresh.status = "running".to_string();
    fresh.started_at_unix = 130;

    let mut items = vec![running, fresh];
    assert!(is_running_task_hard_timed_out(&items[0], 126, 15));
    assert!(!is_running_task_hard_timed_out(&items[1], 126, 15));
    let recovered = recover_stale_running_tasks_in_queue(&mut items, 126, 15);
    assert_eq!(recovered, 1);
    assert_eq!(items[0].status, "failed");
    assert_eq!(items[0].exit_code, -1);
    assert_eq!(items[1].status, "running");
}

#[test]
fn queue_watchdog_stats_count_and_last_timestamp() {
    let mut a = queue_item_from_values("sleep 1", 5, 0, 0, 0);
    a.message = "watchdog hard-timeout recovered task (timeout=5s+15s)".to_string();
    a.finished_at_unix = 120;
    let mut b = queue_item_from_values("echo ok", 5, 0, 0, 0);
    b.message = "done".to_string();
    b.finished_at_unix = 121;
    let mut c = queue_item_from_values("sleep 2", 5, 0, 0, 0);
    c.message = "watchdog hard-timeout recovered task (timeout=5s+15s)".to_string();
    c.finished_at_unix = 140;
    let (total, last) = queue_watchdog_recovery_stats(&[a, b, c]);
    assert_eq!(total, 2);
    assert_eq!(last, 140);
}

fn pending_item(cmd: &str, priority: i32, created: u64) -> VmExecQueueItem {
    let mut it = queue_item_from_values(cmd, 30, 0, priority, 0);
    it.status = "pending".to_string();
    it.created_at_unix = created;
    it
}

fn now_unix() -> u64 {
    std::time::SystemTime::now()
        .duration_since(std::time::UNIX_EPOCH)
        .map(|d| d.as_secs())
        .unwrap_or(0)
}

#[test]
fn dispatch_candidates_follow_priority_then_wait_time() {
    let now = now_unix();
    let queues = vec![
        ("vm-a".to_string(), vec![pending_item("echo a", 10, now.saturating_sub(5))]),
        ("vm-b".to_string(), vec![pending_item("echo b", 10, now.saturating_sub(20))]),
        ("vm-c".to_string(), vec![pending_item("echo c", 50, now.saturating_sub(1))]),
    ];
    let scheduler = default_vm_policy_config().scheduler;
    let top2: Vec<String> = select_dispatch_vm_candidates_with_score(&queues, &scheduler, now)
        .into_iter()
        .take(2)
        .map(|x| x.vm_name)
        .collect();
    assert_eq!(top2, vec!["vm-c".to_string(), "vm-b".to_string()]);
}

#[test]
fn priority_aging_boost_is_bounded() {
    assert_eq!(priority_aging_boost(100, 100, 60, 20), 0);
    assert_eq!(priority_aging_boost(100, 159, 60, 20), 0);
    assert_eq!(priority_aging_boost(100, 160, 60, 20), 1);
    assert_eq!(priority_aging_boost(100, 100 + 3600, 60, 20), 20);
}

#[test]
fn dispatch_candidates_apply_aging_boost() {
    let now = now_unix();
    let queues = vec![
        ("vm-new-high".to_string(), vec![pending_item("echo high", 10, now.saturating_sub(30))]),
        ("vm-old-low".to_string(), vec![pending_item("echo low", -5, now.saturating_sub(16 * 60))]),
    ];
    let scheduler = default_vm_policy_config().scheduler;
    let top: Vec<String> = select_dispatch_vm_candidates_with_score(&queues, &scheduler, now)
        .into_iter()
        .take(1)
        .map(|x| x.vm_name)
        .collect();
    assert_eq!(top, vec!["vm-old-low".to_string()]);
}

#[test]
fn dispatch_trace_keeps_ring_buffer_size() {
    let mut entries = Vec::new();
    for i in 0..(VM_DISPATCH_TRACE_MAX_ENTRIES + 7) {
        append_dispatch_trace_entry(
            &mut entries,
            VmExecDispatchTraceEntry {
                created_at_unix: i as u64,
                running_total_before: 0,
                running_limit: 4,
                available_slots: 4,
                selected_vms: Vec::new(),
                candidates: Vec::new(),
            },
        );
    }
    assert_eq!(entries.len(), VM_DISPATCH_TRACE_MAX_ENTRIES);
    assert_eq!(entries[0].created_at_unix, 7);
}

#[test]
fn vm_policy_config_persist_and_clamp() {
    let cfg = VmPolicyConfig {
        user: VmPolicyRoleLimits {
            vm_instance_max: 0,
            vm_queue_max_items: 0,
            vm_running_max: 0,
            vm_exec_running_max: 0,
        },
        admin: VmPolicyRoleLimits {
            vm_instance_max: 1,
            vm_queue_max_items: 1,
            vm_running_max: 1,
            vm_exec_running_max: 1,
        },
        scheduler: VmPolicyScheduler {
            exec_hard_timeout_grace_sec: 999_999,
            priority_aging_step_sec: 0,
            priority_aging_max_boost: -1,
        },
    };
    let loaded = sanitize_vm_policy_config(cfg);
    assert_eq!(loaded.user.vm_instance_max, 1);
    assert!(loaded.admin.vm_instance_max >= loaded.user.vm_instance_max);
    assert_eq!(loaded.scheduler.priority_aging_step_sec, 1);
    assert_eq!(loaded.scheduler.priority_aging_max_boost, 0);
}

#[test]
fn command_risk_classification_marks_high_and_low() {
    let (l1, t1) = classify_command_risk("echo hello");
    assert_eq!(l1, "low");
    assert!(t1.is_empty());

    let (l2, t2) = classify_command_risk("sudo apt-get install -y git");
    assert_eq!(l2, "medium");
    assert!(t2.iter().any(|x| x == "privilege"));

    let (l3, t3) = classify_command_risk("rm -rf /tmp/x && reboot");
    assert_eq!(l3, "high");
    assert!(t3.iter().any(|x| x == "system-power"));
}
