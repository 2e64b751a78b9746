use kacf::account_actions::{
    admin_create_user, admin_delete_user, admin_set_banned, admin_set_notice, admin_set_password, auth_me,
    bootstrap_admin, register, require_admin, signed_in_account, update_profile, web_user_ctx,
};
use kacf::accounts::{
    create_guest_session, create_session_for_user, create_user, delete_session, delete_user, find_user_by_email,
    find_user_by_username, login_outcome, prune_sessions, rand_id, record_session, resolve_session, set_user_banned,
    upsert_user, LoginOutcome, SessionRecord, UserRecord, GUEST_SESSION_SECS, SESSION_CAP, USER_SESSION_SECS,
};
use kacf::analytics::RuntimeStatus;
use kacf::api_key::{decrypt_api_key, encrypt_api_key, hex_decode, hex_encode, is_encrypted_api_key, mask_api_key_for_display, xor_stream_crypt};
use kacf::auth::{email_allowed, username_allowed, AccountRole, AdminSettings, LoginOption};
use kacf::console::{mark_session_started, resume_info, start_failure_status, start_request};
use kacf::debug_packet::{clip, debug_packet, indent_block, tail_lines};
use kacf::metrics::{build_metrics, percentile_ms};
use kacf::models::AgentRequest;
use kacf::chat::StreamPreview;
use kacf::session::{agent_request_step, clarify_wait_step, feedback_satisfied, retry_message, AgentAction, AgentControl, RetryReason, WaitStep};
use kacf::slug::{fallback_slug, normalize_slug};
use kacf::strategy::{sanitize_strategy_rules, strategy_command_for_failure_category};
use kacf::ui_cache::{sort_projects_by_updated_desc, DraftPayload, StartPayload, WebProject};
use kacf::vm_exec::{check_exec_target, next_task_to_run};
use kacf::vm_health::vm_health_findings;
use kacf::vm_queue::{queue_item_from_values, VmExecQueueItem};

fn store_with_alice() -> Vec<UserRecord> {
    let mut users = Vec::new();
    create_user(&mut users, "alice", "Alice", "Alice@Gmail.com", AccountRole::User, Some("pw1".to_string()), LoginOption::PasswordOnly, 100)
        .expect("create alice");
    create_user(&mut users, "root", "Boss", "root@gmail.com", AccountRole::Admin, Some("rootpw".to_string()), LoginOption::PasswordOnly, 100)
        .expect("create root");
    users
}

fn session(id: &str, user: Option<&str>, role: AccountRole, created: u64, expires: u64) -> SessionRecord {
    SessionRecord {
        session_id: id.to_string(),
        username: user.map(|u| u.to_string()),
        role,
        created_at_unix: created,
        expires_at_unix: expires,
    }
}

#[test]
fn create_user_trims_lowercases_and_appends() {
    let users = store_with_alice();
    assert_eq!(users.len(), 2);
    assert_eq!(users[0].username, "alice");
    assert_eq!(users[0].email, "alice@gmail.com");
    assert_eq!(users[0].created_at_unix, 100);
    assert!(!users[0].banned);
}

#[test]
fn create_user_reports_each_refusal() {
    let mut users = store_with_alice();
    let err = |r: Result<UserRecord, String>| r.err().unwrap();
    assert_eq!(err(create_user(&mut users, "  ", "n", "x@gmail.com", AccountRole::User, None, LoginOption::PasswordOnly, 1)), "username is empty");
    assert_eq!(err(create_user(&mut users, " alice ", "n", "x@gmail.com", AccountRole::User, None, LoginOption::PasswordOnly, 1)), "username already exists");
    assert_eq!(err(create_user(&mut users, "bob", "n", "  ", AccountRole::User, None, LoginOption::PasswordOnly, 1)), "email is empty");
    assert_eq!(err(create_user(&mut users, "bob", "n", "ALICE@gmail.com", AccountRole::User, None, LoginOption::PasswordOnly, 1)), "email already exists");
    assert_eq!(err(create_user(&mut users, "bob", " ", "bob@gmail.com", AccountRole::User, None, LoginOption::PasswordOnly, 1)), "nickname is empty");
    assert_eq!(err(create_user(&mut users, "bob", "SuperAdmin", "bob@gmail.com", AccountRole::User, None, LoginOption::PasswordOnly, 1)), "nickname not allowed");
    assert_eq!(users.len(), 2);
}

#[test]
fn upsert_then_lookup_finds_the_written_record() {
    let mut users = store_with_alice();
    let mut u = users[0].clone();
    u.nickname = "Alicia".to_string();
    upsert_user(&mut users, u, 555);
    let i = find_user_by_username(&users, "  alice ").expect("found");
    assert_eq!(users[i].nickname, "Alicia");
    assert_eq!(users[i].updated_at_unix, 555);
    assert_eq!(users.len(), 2);
    assert_eq!(find_user_by_email(&users, " ALICE@gmail.COM "), Some(0));
    assert_eq!(find_user_by_username(&users, "   "), None);
}

#[test]
fn banning_drops_the_users_sessions() {
    let mut users = store_with_alice();
    let mut sessions = vec![
        session("s1", Some("alice"), AccountRole::User, 1, 1000),
        session("s2", Some("root"), AccountRole::Admin, 1, 1000),
        session("s3", None, AccountRole::Guest, 1, 1000),
    ];
    set_user_banned(&mut users, &mut sessions, " alice ", true, 77);
    assert!(users[0].banned);
    assert_eq!(users[0].updated_at_unix, 77);
    let ids: Vec<&str> = sessions.iter().map(|s| s.session_id.as_str()).collect();
    assert_eq!(ids, vec!["s2", "s3"]);
    set_user_banned(&mut users, &mut sessions, "alice", false, 78);
    assert!(!users[0].banned);
    assert_eq!(sessions.len(), 2);
}

#[test]
fn deleting_a_user_leaves_no_record_or_session() {
    let mut users = store_with_alice();
    let mut sessions = vec![session("s1", Some("alice"), AccountRole::User, 1, 1000), session("s2", Some("root"), AccountRole::Admin, 1, 1000)];
    delete_user(&mut users, &mut sessions, "alice");
    assert_eq!(find_user_by_username(&users, "alice"), None);
    assert_eq!(users.len(), 1);
    assert_eq!(sessions.len(), 1);
    assert_eq!(sessions[0].session_id, "s2");
}

#[test]
fn prune_drops_expired_and_keeps_oldest_under_cap() {
    let mut sessions = vec![session("old", None, AccountRole::Guest, 1, 10), session("live", None, AccountRole::Guest, 2, 100)];
    prune_sessions(&mut sessions, 50);
    assert_eq!(sessions.len(), 1);
    assert_eq!(sessions[0].session_id, "live");

    let mut many = Vec::new();
    for i in 0..(SESSION_CAP + 1) {
        let created = (SESSION_CAP + 1 - i) as u64;
        many.push(session(&format!("s{i}"), None, AccountRole::Guest, created, 1_000_000));
    }
    prune_sessions(&mut many, 5);
    assert_eq!(many.len(), SESSION_CAP);
    assert!(many.windows(2).all(|w| w[0].created_at_unix <= w[1].created_at_unix));
    assert_eq!(many[0].created_at_unix, 1);
    assert!(many.iter().all(|s| s.session_id != "s0"));
}

#[test]
fn resolve_and_delete_session_by_trimmed_id() {
    let mut sessions = vec![session("abc", None, AccountRole::Guest, 1, 100), session("def", None, AccountRole::Guest, 1, 10)];
    assert_eq!(resolve_session(&sessions, " abc ", 50), Some(0));
    assert_eq!(resolve_session(&sessions, "def", 50), None);
    assert_eq!(resolve_session(&sessions, "", 50), None);
    delete_session(&mut sessions, " abc");
    assert_eq!(sessions.len(), 1);
    assert_eq!(sessions[0].session_id, "def");
}

#[test]
fn session_ids_are_prefixed_random_alphanumerics() {
    let id = rand_id("sid", 32);
    assert!(id.starts_with("sid_"));
    assert_eq!(id.len(), 36);
    assert!(id[4..].chars().all(|c| c.is_ascii_alphanumeric()));
    let users = store_with_alice();
    let mut sessions = Vec::new();
    let s = create_session_for_user(&mut sessions, &users[0], 1000);
    assert_eq!(s.username.as_deref(), Some("alice"));
    assert_eq!(s.expires_at_unix, 1000 + USER_SESSION_SECS);
    assert_eq!(sessions.len(), 1);
    let g = create_guest_session(&mut sessions, 1000);
    assert!(g.session_id.starts_with("sidg_"));
    assert_eq!(g.expires_at_unix, 1000 + GUEST_SESSION_SECS);
    assert_eq!(g.role, AccountRole::Guest);
    assert_eq!(resolve_session(&sessions, &g.session_id, 1001), Some(1));
    let late = create_session_for_user(&mut sessions, &users[1], u64::MAX - 5);
    assert_eq!(late.expires_at_unix, u64::MAX);
    record_session(&mut sessions, session("x", None, AccountRole::Guest, 1, 2), 1000);
    assert!(sessions.iter().all(|s| s.session_id != "x"));
}

#[test]
fn login_outcomes_follow_the_account_rules() {
    let mut users = store_with_alice();
    create_user(&mut users, "mailer", "Mailer", "mailer@qq.com", AccountRole::User, None, LoginOption::EmailOnly, 1).unwrap();
    create_user(&mut users, "twofa", "Two", "two@qq.com", AccountRole::User, Some("p".to_string()), LoginOption::PasswordEmail2fa, 1).unwrap();
    let refused = |o: LoginOutcome| match o {
        LoginOutcome::Refused(f) => (f.status, f.message),
        other => panic!("unexpected {other:?}"),
    };
    assert_eq!(refused(login_outcome(false, true, &users, "alice", Some("pw1"))), (403, "login disabled".to_string()));
    assert_eq!(refused(login_outcome(true, true, &users, "  ", Some("pw1"))), (400, "identifier is empty".to_string()));
    assert_eq!(refused(login_outcome(true, true, &users, "nobody", Some("pw1"))), (401, "invalid credentials".to_string()));
    assert_eq!(refused(login_outcome(true, false, &users, "alice", Some("pw1"))), (403, "non-admin login disabled".to_string()));
    assert_eq!(refused(login_outcome(true, true, &users, "alice", Some("wrong"))), (401, "invalid credentials".to_string()));
    assert!(matches!(login_outcome(true, false, &users, "root", Some("rootpw")), LoginOutcome::OpenSession(1)));
    assert!(matches!(login_outcome(true, true, &users, " ALICE@gmail.com ", Some("pw1")), LoginOutcome::OpenSession(0)));
    match login_outcome(true, true, &users, "mailer", None) {
        LoginOutcome::SendCode { user, audit_event } => {
            assert_eq!(user, 2);
            assert_eq!(audit_event, "login_email_code_issued");
        }
        other => panic!("unexpected {other:?}"),
    }
    match login_outcome(true, true, &users, "twofa", Some("p")) {
        LoginOutcome::SendCode { audit_event, .. } => assert_eq!(audit_event, "login_password_ok_email_code_issued"),
        other => panic!("unexpected {other:?}"),
    }
    assert_eq!(refused(login_outcome(true, true, &users, "twofa", None)), (401, "invalid credentials".to_string()));
    let mut sessions = Vec::new();
    set_user_banned(&mut users, &mut sessions, "alice", true, 5);
    assert_eq!(refused(login_outcome(true, true, &users, "alice", Some("pw1"))), (403, "account banned".to_string()));
}

#[test]
fn signed_in_and_admin_checks_name_the_refusal() {
    let users = store_with_alice();
    let sessions = vec![
        session("u", Some("alice"), AccountRole::User, 1, 100),
        session("a", Some("root"), AccountRole::Admin, 1, 100),
        session("g", None, AccountRole::Guest, 1, 100),
        session("n", None, AccountRole::User, 1, 100),
        session("x", Some("ghost"), AccountRole::User, 1, 100),
    ];
    let refusal = |r: Result<usize, kacf::accounts::Refusal>| r.err().map(|f| (f.status, f.message));
    assert_eq!(signed_in_account(&sessions, &users, "u", 5).ok(), Some(0));
    assert_eq!(refusal(signed_in_account(&sessions, &users, "zz", 5)), Some((401, "not logged in".to_string())));
    assert_eq!(refusal(signed_in_account(&sessions, &users, "g", 5)), Some((403, "guest session".to_string())));
    assert_eq!(refusal(signed_in_account(&sessions, &users, "n", 5)), Some((401, "invalid session".to_string())));
    assert_eq!(refusal(signed_in_account(&sessions, &users, "x", 5)), Some((401, "unknown user".to_string())));
    assert_eq!(require_admin(&sessions, &users, "a", 5).ok(), Some(1));
    assert_eq!(refusal(require_admin(&sessions, &users, "u", 5)), Some((403, "admin only".to_string())));
    assert_eq!(refusal(require_admin(&sessions, &users, "a", 500)), Some((401, "not logged in".to_string())));
}

#[test]
fn auth_me_delivers_a_notice_once() {
    let mut users = store_with_alice();
    let sessions = vec![session("u", Some("alice"), AccountRole::User, 1, 100), session("g", None, AccountRole::Guest, 1, 100)];
    let guest = auth_me(&mut users, &sessions, "missing", 5);
    assert!(!guest.logged_in && guest.guest && guest.nickname == "Guest");
    let g = auth_me(&mut users, &sessions, "g", 5);
    assert!(g.logged_in && g.guest && g.nickname == "Guest");
    admin_set_notice(&mut users, "root", "alice", "  read me  ", 999, 6).expect("notice");
    assert_eq!(users[0].forced_notice.as_deref(), Some("read me"));
    assert_eq!(users[0].forced_notice_min_seconds, 300);
    let me = auth_me(&mut users, &sessions, "u", 7);
    assert_eq!(me.nickname, "Alice");
    assert_eq!(me.email.as_deref(), Some("alice@gmail.com"));
    assert_eq!(me.forced_notice.as_deref(), Some("read me"));
    assert!(!me.is_admin);
    assert_eq!(users[0].forced_notice, None);
    assert_eq!(users[0].updated_at_unix, 7);
    let again = auth_me(&mut users, &sessions, "u", 8);
    assert_eq!(again.forced_notice, None);
}

#[test]
fn profile_and_admin_edits_refuse_as_specified() {
    let mut users = store_with_alice();
    let mut sessions = vec![session("u", Some("alice"), AccountRole::User, 1, 100)];
    assert_eq!(update_profile(&mut users, &sessions, "u", "  ", 5).err().map(|f| f.status), Some(400));
    assert_eq!(update_profile(&mut users, &sessions, "u", "the admin", 5).err().map(|f| f.message), Some("nickname not allowed".to_string()));
    update_profile(&mut users, &sessions, "u", "  Ally ", 5).expect("update");
    assert_eq!(users[0].nickname, "Ally");
    assert_eq!(admin_set_password(&mut users, "root", "root", "x", 5).err().map(|f| f.message), Some("use account page to change your own password".to_string()));
    assert_eq!(admin_set_password(&mut users, "root", "nobody", "x", 5).err().map(|f| f.status), Some(404));
    admin_set_password(&mut users, "root", "alice", "  newpw ", 9).expect("set password");
    assert_eq!(users[0].password.as_deref(), Some("newpw"));
    admin_set_password(&mut users, "root", "alice", "   ", 10).expect("clear password");
    assert_eq!(users[0].password, None);
    assert_eq!(admin_delete_user(&mut users, &mut sessions, "root", "root").err().map(|f| f.message), Some("cannot delete yourself".to_string()));
    assert_eq!(admin_set_banned(&mut users, &mut sessions, "root", "root", true, 5).err().map(|f| f.message), Some("cannot ban yourself".to_string()));
    admin_set_banned(&mut users, &mut sessions, "root", "alice", true, 11).expect("ban");
    assert!(sessions.is_empty());
    admin_delete_user(&mut users, &mut sessions, "root", "alice").expect("delete");
    assert_eq!(users.len(), 1);
}

#[test]
fn registration_and_bootstrap_rules() {
    let mut users: Vec<UserRecord> = Vec::new();
    assert_eq!(register(&mut users, false, "a", "A", "a@gmail.com", "pw".to_string(), 1).err().map(|f| f.status), Some(403));
    assert_eq!(bootstrap_admin(&mut users, "a", "A", "a@example.com", "pw".to_string(), 1).err().map(|f| f.message), Some("email not allowed".to_string()));
    assert_eq!(bootstrap_admin(&mut users, "a", "A", "a@gmail.com", "  ".to_string(), 1).err().map(|f| f.message), Some("password is empty".to_string()));
    let admin = bootstrap_admin(&mut users, "a", "A", "a@gmail.com", "pw".to_string(), 1).expect("bootstrap");
    assert_eq!(admin.role, AccountRole::Admin);
    assert_eq!(bootstrap_admin(&mut users, "b", "B", "b@gmail.com", "pw".to_string(), 1).err().map(|f| f.message), Some("bootstrap already completed".to_string()));
    let u = register(&mut users, true, "b", "B", "b@gmail.com", "pw".to_string(), 2).expect("register");
    assert_eq!(u.role, AccountRole::User);
    assert_eq!(u.password.as_deref(), Some("pw"));
    let c = admin_create_user(&mut users, " ADMIN ", "c", "C", "c@qq.com", " ".to_string(), 3).expect("admin create");
    assert_eq!(c.role, AccountRole::Admin);
    assert_eq!(c.password, None);
    let d = admin_create_user(&mut users, "user", "d", "D", "d@qq.com", "pw".to_string(), 3).expect("admin create");
    assert_eq!(d.role, AccountRole::User);
    assert_eq!(users.len(), 4);
}

#[test]
fn web_user_context_for_guests_and_accounts() {
    let mut users = store_with_alice();
    let mut sessions = vec![session("g", None, AccountRole::Guest, 1, 100), session("u", Some("alice"), AccountRole::User, 1, 100)];
    let g = web_user_ctx(&sessions, &users, "g", 5).expect("guest");
    assert_eq!(g.managed_root_dir, "autocoding_data/guest");
    assert!(!g.can_write);
    let u = web_user_ctx(&sessions, &users, "u", 5).expect("user");
    assert_eq!(u.managed_root_dir, "autocoding_data/users/alice");
    assert!(u.can_write);
    assert_eq!(web_user_ctx(&sessions, &users, "", 5).err().map(|f| f.message), Some("not logged in".to_string()));
    assert_eq!(web_user_ctx(&sessions, &users, "zz", 5).err().map(|f| f.message), Some("invalid session".to_string()));
    let mut other: Vec<SessionRecord> = Vec::new();
    set_user_banned(&mut users, &mut other, "alice", true, 6);
    assert_eq!(web_user_ctx(&sessions, &users, "u", 5).err().map(|f| f.status), Some(403));
    sessions.clear();
}

#[test]
fn admin_settings_default_is_open_with_mail_off() {
    let s = AdminSettings::default();
    assert!(s.registration_enabled && s.guest_enabled && s.login_enabled && s.non_admin_login_enabled);
    assert_eq!(s.email_code_ttl_secs, 600);
    assert_eq!(s.email_domain_allowlist.len(), 11);
    assert_eq!(s.smtp_port, 587);
    assert_eq!(s.smtp_from, "noreply@localhost");
    assert!(!s.smtp_enabled);
}

fn start_payload(api_key: &str, ws: &str) -> StartPayload {
    StartPayload {
        api_key: api_key.to_string(),
        base_url: "https://api.deepseek.com".to_string(),
        model: "deepseek-chat".to_string(),
        language: "zh".to_string(),
        unattended_mode: true,
        workspace: ws.to_string(),
        goal: "build".to_string(),
        git_user_name: "me".to_string(),
        git_user_email: "me@x".to_string(),
    }
}

#[test]
fn start_request_checks_in_order() {
    let root = "autocoding_data/users/alice";
    assert_eq!(start_request(start_payload(" ", "x"), false, root, false).err(), Some("api_key is empty".to_string()));
    let mut p = start_payload("k", "x");
    p.git_user_email = " ".to_string();
    assert_eq!(start_request(p, false, root, false).err(), Some("git user identity is empty".to_string()));
    assert_eq!(start_request(start_payload("k", "x"), true, root, false).err(), Some("session already running".to_string()));
    let e = start_request(start_payload("k", "elsewhere/a"), false, root, false).err().unwrap();
    assert!(e.contains("workspace must be under ./autocoding_data/users/alice/workspaces"));
    match start_request(start_payload("k", "autocoding_data/users/alice/workspaces/p1"), false, root, true) {
        Ok(AgentRequest::Start { workspace, resume_from_checkpoint, unattended_mode, .. }) => {
            assert_eq!(workspace, "autocoding_data/users/alice/workspaces/p1");
            assert!(resume_from_checkpoint && unattended_mode);
        }
        other => panic!("unexpected {other:?}"),
    }
    assert_eq!(start_failure_status("api_key is empty", false), 400);
    assert_eq!(start_failure_status("session already running", true), 409);
    assert_eq!(start_failure_status("api_key is empty", true), 500);
}

#[test]
fn resume_info_and_started_runtime() {
    let r = resume_info(" goal A ", Some(5), Some(2), Some(9), Some("ok".to_string()), "goal B");
    assert!(!r.resumable);
    assert_eq!(r.last_status.as_deref(), Some("发现历史断点，但目标与当前输入不一致"));
    let r = resume_info(" goal A ", Some(5), Some(2), Some(9), Some("ok".to_string()), "goal A");
    assert!(r.resumable);
    assert_eq!(r.last_status.as_deref(), Some("ok"));
    let r = resume_info("", None, None, None, None, "goal");
    assert!(r.resumable);
    let mut rt = RuntimeStatus::default();
    rt.last_error = "boom".to_string();
    mark_session_started(&mut rt, "ws".to_string(), "g".to_string(), 42);
    assert!(rt.running);
    assert_eq!(rt.last_start_unix, 42);
    assert_eq!(rt.last_error, "");
}

fn running_item(now: u64) -> VmExecQueueItem {
    let mut running = queue_item_from_values("sleep 120", 10, 0, 0, 0);
    running.status = "running".to_string();
    running.started_at_unix = now.saturating_sub(60);
    running
}

#[test]
fn health_scan_self_heal_recovers_stale_running_tasks() {
    let now = 1_000_000;
    let mut items = vec![running_item(now)];
    let grace = kacf::vm_policy::default_vm_policy_config().scheduler.exec_hard_timeout_grace_sec;
    let (issues, actions, recovered) = vm_health_findings("vm-health", "stopped", "stopped", "metadata-only", None, &mut items, now, grace, true);
    assert!(!issues.is_empty());
    assert!(!actions.is_empty());
    assert_eq!(items[0].status, "failed");
    assert_eq!(recovered, 1);
    assert_eq!(actions[0].detail, "recovered=1");
}

#[test]
fn health_scan_reports_without_healing() {
    let now = 1_000_000;
    let mut items = vec![running_item(now)];
    let (issues, actions, recovered) = vm_health_findings("vm", "stopped", "running", "qemu", Some(0), &mut items, now, 15, false);
    let msgs: Vec<&str> = issues.iter().map(|i| i.message.as_str()).collect();
    assert_eq!(msgs, vec![
        "power state reconciled: stopped -> running",
        "running qemu vm has empty ssh_port",
        "stale running exec tasks detected: 1",
    ]);
    assert_eq!(issues[0].severity, "warn");
    assert!(actions.is_empty());
    assert_eq!(recovered, 0);
    assert_eq!(items[0].status, "running");
}

#[test]
fn debug_packet_sections_and_tails() {
    assert_eq!(tail_lines("a\nb\nc\n", 2), "b\nc");
    assert_eq!(tail_lines("a", 5), "a");
    assert_eq!(indent_block("x\ny", "  "), "  x\n  y\n");
    assert_eq!(clip("hello", 10), "hello");
    assert_eq!(clip("abc数字", 4), "abc ...[truncated]");
    let p = debug_packet("/w", "test_failure", "sig", &["k1".to_string()], "", "c1", " M a.rs", "a.rs", "o1\no2", "e1");
    assert!(p.starts_with("[Self-Debug Snapshot]\nworkspace: /w\nfailure_category: test_failure\nfailure_signature: sig\nfailure_key_lines:\n  - k1\n"));
    assert!(p.contains("git_status_short:\n  (empty)\n"));
    assert!(p.contains("git_last_3_commits:\n  c1\n"));
    assert!(p.ends_with("eval_stderr_tail:\n  e1\neval_stdout_tail:\n  o1\n  o2\n"));
    let big = "x".repeat(5000);
    let p = debug_packet("/w", "c", &big, &[], &big, &big, &big, &big, &big, &big);
    assert!(p.len() <= 3800 + " ...[truncated]".len());
    assert!(p.ends_with(" ...[truncated]"));
}

#[test]
fn metrics_snapshot_from_runtime() {
    let mut rt = RuntimeStatus::default();
    rt.api_ms_samples = vec![30, 10, 20];
    rt.done_history = vec![(990, true), (995, false), (100, true)];
    rt.total_done_ok = 2;
    rt.total_done_fail = 1;
    let m = build_metrics(&rt, 3, 7, 1000, "50.0", 75);
    assert_eq!(m.api_p50_ms, Some(20));
    assert_eq!(m.api_p95_ms, Some(20));
    assert_eq!(m.eval_p50_ms, None);
    assert_eq!((m.done_5m_ok, m.done_5m_fail), (1, 1));
    assert_eq!(m.readiness, "red");
    assert!(!m.gate_passed);
    assert_eq!(m.success_series_5m.len(), 5);
    assert_eq!(m.event_buffer_len, 3);
    assert_eq!(percentile_ms(&[5, 1, 9, 7], 100), Some(9));
}

#[test]
fn slugs_are_normalized_and_fall_back() {
    assert_eq!(normalize_slug("  Hello World__Test!! "), "hello-world-test");
    assert_eq!(normalize_slug("--a--b--"), "a-b");
    assert_eq!(fallback_slug("", "!!!", 42), "project-42");
    assert_eq!(fallback_slug("My App", "shop", 42), "my-app-shop");
    let long = normalize_slug(&"ab ".repeat(30));
    assert!(long.len() <= 36 && !long.ends_with('-'));
}

#[test]
fn strategy_rules_are_sanitized_and_looked_up() {
    let raw = vec![
        ("timeout".to_string(), "  ps aux  ".to_string()),
        ("bogus".to_string(), "x".to_string()),
        ("build_error".to_string(), "   ".to_string()),
    ];
    let rules = sanitize_strategy_rules(&raw);
    assert_eq!(rules, vec![("timeout".to_string(), "ps aux".to_string())]);
    assert_eq!(strategy_command_for_failure_category(&rules, "timeout"), "ps aux");
    assert!(strategy_command_for_failure_category(&rules, "permission").contains("chmod -R u+rw"));
}

#[test]
fn session_messages_and_agent_steps() {
    assert!(retry_message(RetryReason::NotJson, "eof").contains("eof"));
    assert!(retry_message(RetryReason::PatchCheckFailed, "bad hunk").ends_with("bad hunk"));
    assert!(feedback_satisfied("  "));
    assert!(feedback_satisfied("很满意"));
    assert!(!feedback_satisfied("please fix"));
    let c = AgentControl { stop_requested: false, has_session: false };
    assert_eq!(agent_request_step(c, &AgentRequest::Stop).1, AgentAction::Ignore);
    let (c2, a) = agent_request_step(
        c,
        &AgentRequest::Start {
            api_key: "k".into(),
            base_url: "u".into(),
            model: "m".into(),
            language: "zh".into(),
            unattended_mode: false,
            resume_from_checkpoint: false,
            workspace: "w".into(),
            goal: "g".into(),
        },
    );
    assert_eq!(a, AgentAction::StartSession);
    let (c3, a) = agent_request_step(c2, &AgentRequest::Stop);
    assert_eq!(a, AgentAction::ReportStopped);
    assert!(c3.stop_requested);
    assert_eq!(agent_request_step(c3, &AgentRequest::RevertLast).1, AgentAction::RevertLast);
}

#[test]
fn account_name_and_email_rules() {
    assert!(email_allowed("  Someone@GMAIL.com "));
    assert!(!email_allowed("someone@example.com"));
    assert!(!email_allowed("no-at-sign"));
    assert!(username_allowed(" user.name-1_x "));
    assert!(!username_allowed("bad name"));
    assert!(!username_allowed(&"a".repeat(65)));
}

#[test]
fn api_key_storage_round_trips() {
    let secret = b"0123456789abcdef";
    let nonce = [1u8, 2, 3, 4, 5, 6, 7, 8];
    let enc = encrypt_api_key("sk-secret-key", secret, &nonce);
    assert!(is_encrypted_api_key(&enc));
    assert_eq!(decrypt_api_key(&enc, secret).as_deref(), Some("sk-secret-key"));
    assert_ne!(decrypt_api_key(&enc, b"another-secret!!").as_deref(), Some("sk-secret-key"));
    assert_eq!(encrypt_api_key("   ", secret, &nonce), "");
    assert_eq!(hex_encode(&[0, 255, 16]), "00ff10");
    assert_eq!(hex_decode("00ff10"), Some(vec![0, 255, 16]));
    assert_eq!(hex_decode("0g"), None);
    let data = b"hello";
    let once = xor_stream_crypt(secret, &nonce, data);
    assert_ne!(once.as_slice(), data);
    assert_eq!(xor_stream_crypt(secret, &nonce, &once), data.to_vec());
    assert_eq!(mask_api_key_for_display("sk-1234567890"), "sk-1*****7890");
}

#[test]
fn exec_target_needs_a_running_qemu_with_ssh() {
    assert_eq!(check_exec_target("qemu", "running", Some(2222)), Ok(2222));
    assert_eq!(check_exec_target("metadata-only", "running", Some(2222)), Err("vm exec queue only supports qemu backend".to_string()));
    assert_eq!(check_exec_target("qemu", "stopped", Some(2222)), Err("vm is not running".to_string()));
    assert_eq!(check_exec_target("qemu", "running", None), Err("vm ssh port is not set".to_string()));
}

#[test]
fn stream_preview_flushes_on_size_and_markers() {
    let mut p = StreamPreview::new("[Model-Stream]");
    assert_eq!(p.on_delta("", 600), None);
    assert_eq!(p.events, 0);
    assert_eq!(p.on_delta("abc", 600), None);
    assert_eq!(p.on_delta("de}", 600), Some("[Model-Stream] abcde}".to_string()));
    assert_eq!(p.buf, "");
    assert_eq!((p.chars, p.events), (6, 2));
    let long = "x".repeat(130);
    assert_eq!(p.on_delta(&long, 10), Some("[Model-Stream] xxxxxxxxxx...\n[truncated 120 chars]".to_string()));
    assert_eq!(p.flush(600), None);
    p.on_delta("tail", 600);
    assert_eq!(p.flush(600), Some("[Model-Stream] tail".to_string()));
}

#[test]
fn clarify_wait_steps() {
    assert_eq!(clarify_wait_step(Some(&AgentRequest::Clarify { answers: vec![] })), WaitStep::TakeAnswers);
    assert_eq!(clarify_wait_step(Some(&AgentRequest::RevertLast)), WaitStep::RevertLast);
    assert_eq!(clarify_wait_step(Some(&AgentRequest::Stop)), WaitStep::Stop);
    assert_eq!(clarify_wait_step(None), WaitStep::Stop);
    let push = AgentRequest::PushRemote { remote: "o".into(), url: "u".into(), branch: "b".into() };
    assert_eq!(clarify_wait_step(Some(&push)), WaitStep::PushRemote);
}

fn project(id: &str, updated_at: u64) -> WebProject {
    WebProject {
        id: id.to_string(),
        name: id.to_string(),
        workspace: String::new(),
        goal: String::new(),
        updated_at,
        snapshot: DraftPayload {
            api_key: String::new(),
            base_url: String::new(),
            model: String::new(),
            language: String::new(),
            unattended_mode: false,
            workspace: String::new(),
            goal: String::new(),
            remote: String::new(),
            remote_url: String::new(),
            branch: String::new(),
            git_user_name: String::new(),
            git_user_email: String::new(),
        },
    }
}

#[test]
fn projects_sort_newest_first_keeping_ties_in_order() {
    let mut items = vec![project("a", 5), project("b", 9), project("c", 5), project("d", 7)];
    sort_projects_by_updated_desc(&mut items);
    let ids: Vec<&str> = items.iter().map(|p| p.id.as_str()).collect();
    assert_eq!(ids, vec!["b", "d", "a", "c"]);
}

#[test]
fn next_task_waits_while_one_runs() {
    let sched = kacf::vm_policy::default_vm_policy_config().scheduler;
    let mut a = queue_item_from_values("echo a", 10, 0, 1, 0);
    a.created_at_unix = 100;
    let mut b = queue_item_from_values("echo b", 10, 0, 5, 0);
    b.created_at_unix = 100;
    let items = vec![a.clone(), b.clone()];
    assert_eq!(next_task_to_run(&items, 100, &sched), Some(1));
    let mut busy = a.clone();
    busy.status = "running".to_string();
    assert_eq!(next_task_to_run(&[busy, b.clone()], 100, &sched), None);
    let mut later = b;
    later.next_run_after_unix = 500;
    assert_eq!(next_task_to_run(&[a, later], 100, &sched), Some(0));
}
