//! The decisions of the VM console's requests: cloning a VM from a
//! snapshot, starting one, running a command on one over SSH, and queueing
//! a self-debug plan. Refusals carry the HTTP status and the body sent back.

use vstd::prelude::*;
use crate::analytics::next_ws;
use crate::text::{
    char_is_ws, chars_of, chars_slice, chars_start_with, concat, decimal, first_non_ws, lines, split_lines, starts_with,
    str_eq, trim_chars, trim_seq, u64_to_decimal,
};
use crate::vm::{normalize_ssh_user, sanitize_snapshot_name, sanitize_vm_name, sanitized_name, ssh_user_spec};
use crate::vm_exec::VmExecResponse;
use crate::vm_plans::{build_self_debug_tasks, VmSelfDebugPlanPayload};
use crate::vm_policy::{capacity_spec, ensure_queue_capacity};
use crate::vm_queue::{
    batch_settings, normalize_batch_task, risk_spec, run_id_spec, sanitize_self_debug_run_id,
    time_id_spec, VmExecBatchTaskPayload, VmExecQueueItem,
};

verus! {

/// A virtual machine as the console records it.
#[derive(Debug, Clone)]
pub struct VmInstance {
    pub name: String,
    pub backend: String,
    pub power_state: String,
    pub cpu: u32,
    pub memory_mb: u32,
    pub disk_gb: u32,
    pub disk_path: String,
    pub os_image: String,
    pub created_at_unix: u64,
    pub updated_at_unix: u64,
    pub last_message: String,
    pub process_id: Option<u32>,
    pub ssh_port: Option<u16>,
    pub ssh_user: String,
}

/// A refusal: the HTTP status and the body.
pub open spec fn refusal(r: Result<(), (u16, String)>) -> Result<(), (u16, Seq<char>)> {
    match r {
        Ok(_) => Ok(()),
        Err((c, m)) => Err((c, m@)),
    }
}

/// A validated clone request.
pub struct CloneRequest {
    pub source: String,
    pub new_name: String,
    pub snapshot: Option<String>,
}

/// The checks of a clone request before anything is read.
pub open spec fn clone_request_spec(can_write: bool, source: Seq<char>, new_name: Seq<char>, snapshot: Seq<char>)
    -> Result<(Seq<char>, Seq<char>, Option<Seq<char>>), (u16, Seq<char>)> {
    if !can_write {
        Err((403, "read-only session"@))
    } else {
        match sanitized_name(source) {
            None => Err((400, "invalid source vm name"@)),
            Some(s) => match sanitized_name(new_name) {
                None => Err((400, "invalid new vm name"@)),
                Some(n) => if s == n {
                    Err((400, "source vm and new vm must be different"@))
                } else if trim_seq(snapshot).len() == 0 {
                    Ok((s, n, None))
                } else {
                    match sanitized_name(snapshot) {
                        None => Err((400, "invalid snapshot name"@)),
                        Some(t) => Ok((s, n, Some(t))),
                    }
                },
            },
        }
    }
}

/// The view of a clone request.
pub open spec fn clone_request_view(r: CloneRequest) -> (Seq<char>, Seq<char>, Option<Seq<char>>) {
    (r.source@, r.new_name@, match r.snapshot { Some(t) => Some(t@), None => None })
}

/// Checks a clone request: write access, both names, that they differ, and
/// the snapshot name when one is given.
pub fn clone_request(can_write: bool, source: &str, new_name: &str, snapshot: &str) -> (r: Result<CloneRequest, (u16, String)>)
    ensures
        match clone_request_spec(can_write, source@, new_name@, snapshot@) {
            Ok(v) => r matches Ok(q) && clone_request_view(q) == v,
            Err((c, m)) => r matches Err((c2, m2)) && c2 == c && m2@ == m,
        },
{
    if !can_write {
        return Err((403, String::from_str("read-only session")));
    }
    let s = match sanitize_vm_name(source) {
        Some(v) => v,
        None => return Err((400, String::from_str("invalid source vm name"))),
    };
    let n = match sanitize_vm_name(new_name) {
        Some(v) => v,
        None => return Err((400, String::from_str("invalid new vm name"))),
    };
    if str_eq(s.as_str(), n.as_str()) {
        return Err((400, String::from_str("source vm and new vm must be different")));
    }
    if trim_chars(&chars_of(snapshot)).len() == 0 {
        return Ok(CloneRequest { source: s, new_name: n, snapshot: None });
    }
    match sanitize_snapshot_name(snapshot) {
        Some(t) => Ok(CloneRequest { source: s, new_name: n, snapshot: Some(t) }),
        None => Err((400, String::from_str("invalid snapshot name"))),
    }
}

/// The checks on the recorded VMs: the new name is free, the source exists,
/// runs on QEMU and is stopped.
pub open spec fn clone_source_spec(new_exists: bool, source: Option<VmInstance>) -> Result<(), (u16, Seq<char>)> {
    if new_exists {
        Err((409, "new vm already exists"@))
    } else {
        match source {
            None => Err((404, "source vm not found"@)),
            Some(vm) => if vm.backend@ != "qemu"@ {
                Err((400, "clone is only available for qemu backend"@))
            } else if vm.power_state@ == "running"@ {
                Err((400, "stop source vm before cloning"@))
            } else {
                Ok(())
            },
        }
    }
}

/// Checks the recorded VMs for a clone (see `clone_source_spec`).
pub fn clone_source_check(new_exists: bool, source: Option<&VmInstance>) -> (r: Result<(), (u16, String)>)
    ensures
        refusal(r) == clone_source_spec(new_exists, match source { Some(v) => Some(*v), None => None }),
{
    if new_exists {
        return Err((409, String::from_str("new vm already exists")));
    }
    match source {
        None => Err((404, String::from_str("source vm not found"))),
        Some(vm) => {
            if !str_eq(vm.backend.as_str(), "qemu") {
                Err((400, String::from_str("clone is only available for qemu backend")))
            } else if str_eq(vm.power_state.as_str(), "running") {
                Err((400, String::from_str("stop source vm before cloning")))
            } else {
                Ok(())
            }
        },
    }
}

/// The checks before the disk is copied: the snapshot (when one is asked
/// for) is among the source's snapshot tags, and the new disk file is free.
pub open spec fn clone_target_spec(snapshot: Option<Seq<char>>, tags: Seq<Seq<char>>, disk_exists: bool) -> Result<(), (u16, Seq<char>)> {
    match snapshot {
        Some(t) if !tags.contains(t) => Err((400, "snapshot not found on source vm"@)),
        _ => if disk_exists {
            Err((409, "new vm disk file already exists"@))
        } else {
            Ok(())
        },
    }
}

/// Checks the snapshot and the new disk file (see `clone_target_spec`).
pub fn clone_target_check(snapshot: Option<&String>, tags: &Vec<String>, disk_exists: bool) -> (r: Result<(), (u16, String)>)
    ensures
        refusal(r) == clone_target_spec(
            match snapshot { Some(t) => Some(t@), None => None },
            crate::text::strings_view(tags@),
            disk_exists,
        ),
{
    if let Some(t) = snapshot {
        let mut i: usize = 0;
        let mut found = false;
        while i < tags.len()
            invariant
                i <= tags.len(),
                found == crate::text::strings_view(tags@).take(i as int).contains(t@),
            decreases tags.len() - i,
        {
            let ghost before = crate::text::strings_view(tags@).take(i as int);
            if str_eq(tags[i].as_str(), t.as_str()) {
                found = true;
            }
            let ghost s1 = before.push(tags@[i as int]@);
            assert(crate::text::strings_view(tags@).take(i + 1) =~= s1);
            proof {
                if before.contains(t@) {
                    let j = choose|j: int| 0 <= j < before.len() && before[j] == t@;
                    assert(s1[j] == t@);
                }
                if tags@[i as int]@ == t@ {
                    assert(s1[before.len() as int] == t@);
                }
                if s1.contains(t@) {
                    let j = choose|j: int| 0 <= j < s1.len() && s1[j] == t@;
                    if j < before.len() {
                        assert(before[j] == t@);
                    }
                }
            }
            i += 1;
        }
        assert(crate::text::strings_view(tags@).take(tags.len() as int) =~= crate::text::strings_view(tags@));
        if !found {
            return Err((400, String::from_str("snapshot not found on source vm")));
        }
    }
    if disk_exists {
        return Err((409, String::from_str("new vm disk file already exists")));
    }
    Ok(())
}

/// The record of a VM cloned from `source`: stopped, on QEMU, with the
/// source's size, image and SSH user, the new disk and the copy's message.
pub fn cloned_vm(source: &VmInstance, new_name: &str, disk_path: &str, message: &str, now: u64) -> (r: VmInstance)
    ensures
        r.name@ == new_name@,
        r.backend@ == "qemu"@,
        r.power_state@ == "stopped"@,
        r.cpu == source.cpu,
        r.memory_mb == source.memory_mb,
        r.disk_gb == source.disk_gb,
        r.disk_path@ == disk_path@,
        r.os_image@ == source.os_image@,
        r.created_at_unix == now,
        r.updated_at_unix == now,
        r.last_message@ == message@,
        r.process_id is None,
        r.ssh_port is None,
        r.ssh_user@ == source.ssh_user@,
{
    VmInstance {
        name: String::from_str(new_name),
        backend: String::from_str("qemu"),
        power_state: String::from_str("stopped"),
        cpu: source.cpu,
        memory_mb: source.memory_mb,
        disk_gb: source.disk_gb,
        disk_path: String::from_str(disk_path),
        os_image: source.os_image.clone(),
        created_at_unix: now,
        updated_at_unix: now,
        last_message: String::from_str(message),
        process_id: None,
        ssh_port: None,
        ssh_user: source.ssh_user.clone(),
    }
}

/// How many of the VMs run.
pub open spec fn running_count(vms: Seq<VmInstance>) -> nat
    decreases vms.len(),
{
    if vms.len() == 0 {
        0
    } else {
        running_count(vms.drop_last()) + if vms.last().power_state@ == "running"@ { 1nat } else { 0nat }
    }
}

/// The first VM with this name.
pub open spec fn find_vm(vms: Seq<VmInstance>, name: Seq<char>) -> Option<int>
    decreases vms.len(),
{
    if vms.len() == 0 {
        None
    } else {
        match find_vm(vms.drop_last(), name) {
            Some(i) => Some(i),
            None => if vms.last().name@ == name { Some(vms.len() - 1) } else { None },
        }
    }
}

/// What starting a VM comes to.
pub enum StartDecision {
    /// No VM of that name (404).
    NotFound,
    /// It already runs; nothing to do.
    AlreadyRunning,
    /// Too many VMs run (429, with this body).
    LimitExceeded(String),
    /// Start its QEMU process.
    StartQemu,
    /// Only its record changes, with this message.
    MetadataOnly(String),
}

/// The view of a start decision.
pub enum StartView {
    NotFound,
    AlreadyRunning,
    LimitExceeded(Seq<char>),
    StartQemu,
    MetadataOnly(Seq<char>),
}

/// The view of a start decision.
pub open spec fn start_view(d: StartDecision) -> StartView {
    match d {
        StartDecision::NotFound => StartView::NotFound,
        StartDecision::AlreadyRunning => StartView::AlreadyRunning,
        StartDecision::LimitExceeded(m) => StartView::LimitExceeded(m@),
        StartDecision::StartQemu => StartView::StartQemu,
        StartDecision::MetadataOnly(m) => StartView::MetadataOnly(m@),
    }
}

/// Starting VM `name`: not found, already running, over the running limit,
/// or by backend a QEMU start or a change of its record only.
pub open spec fn start_spec(vms: Seq<VmInstance>, name: Seq<char>, limit: nat) -> StartView {
    match find_vm(vms, name) {
        None => StartView::NotFound,
        Some(i) => {
            let vm = vms[i];
            if vm.power_state@ == "running"@ {
                StartView::AlreadyRunning
            } else if running_count(vms) >= limit {
                StartView::LimitExceeded(
                    "running vm limit exceeded: running="@ + decimal(running_count(vms)) + " limit="@
                        + decimal(limit),
                )
            } else if vm.backend@ == "qemu"@ {
                StartView::StartQemu
            } else if vm.backend@ == "libvirt"@ {
                StartView::MetadataOnly("libvirt execution not wired yet; lifecycle remains metadata-only"@)
            } else {
                StartView::MetadataOnly(
                    "metadata-only start completed; hypervisor execution not enabled for this backend"@,
                )
            }
        },
    }
}

proof fn lemma_running_count_le(vms: Seq<VmInstance>)
    ensures
        running_count(vms) <= vms.len(),
    decreases vms.len(),
{
    if vms.len() > 0 {
        lemma_running_count_le(vms.drop_last());
    }
}

proof fn lemma_find_vm_range(vms: Seq<VmInstance>, name: Seq<char>)
    ensures
        find_vm(vms, name) matches Some(i) ==> 0 <= i < vms.len() && vms[i].name@ == name,
    decreases vms.len(),
{
    if vms.len() > 0 {
        lemma_find_vm_range(vms.drop_last(), name);
    }
}

/// Decides a start request for VM `name` among the recorded VMs (see `start_spec`).
pub fn plan_vm_start(vms: &Vec<VmInstance>, name: &str, running_limit: usize) -> (r: StartDecision)
    ensures
        start_view(r) == start_spec(vms@, name@, running_limit as nat),
{
    let mut i: usize = 0;
    let mut found: Option<usize> = None;
    let mut running: usize = 0;
    while i < vms.len()
        invariant
            i <= vms.len(),
            running == running_count(vms@.take(i as int)),
            match found {
                Some(k) => find_vm(vms@.take(i as int), name@) == Some(k as int),
                None => find_vm(vms@.take(i as int), name@) is None,
            },
        decreases vms.len() - i,
    {
        let ghost pre = vms@.take(i as int);
        assert(vms@.take(i + 1).drop_last() =~= pre);
        proof {
            lemma_running_count_le(pre);
        }
        if str_eq(vms[i].power_state.as_str(), "running") {
            running = running + 1;
        }
        if found.is_none() && str_eq(vms[i].name.as_str(), name) {
            found = Some(i);
        }
        i += 1;
    }
    assert(vms@.take(vms.len() as int) =~= vms@);
    proof {
        lemma_find_vm_range(vms@, name@);
    }
    let k = match found {
        None => return StartDecision::NotFound,
        Some(k) => k,
    };
    let vm = &vms[k];
    if str_eq(vm.power_state.as_str(), "running") {
        return StartDecision::AlreadyRunning;
    }
    if running >= running_limit {
        let a = concat("running vm limit exceeded: running=", u64_to_decimal(running as u64).as_str());
        let b = concat(a.as_str(), " limit=");
        return StartDecision::LimitExceeded(concat(b.as_str(), u64_to_decimal(running_limit as u64).as_str()));
    }
    if str_eq(vm.backend.as_str(), "qemu") {
        StartDecision::StartQemu
    } else if str_eq(vm.backend.as_str(), "libvirt") {
        StartDecision::MetadataOnly(String::from_str("libvirt execution not wired yet; lifecycle remains metadata-only"))
    } else {
        StartDecision::MetadataOnly(
            String::from_str("metadata-only start completed; hypervisor execution not enabled for this backend"),
        )
    }
}

/// Records what a QEMU start gave: on success the process, the running state
/// and the SSH port; on failure a stopped VM with the error. Tells whether it started.
pub fn record_qemu_start(vm: &mut VmInstance, result: Result<(u32, String), String>, ssh_port: u16, now: u64) -> (started: bool)
    ensures
        final(vm).name == old(vm).name,
        final(vm).backend == old(vm).backend,
        final(vm).cpu == old(vm).cpu,
        final(vm).memory_mb == old(vm).memory_mb,
        final(vm).disk_gb == old(vm).disk_gb,
        final(vm).disk_path == old(vm).disk_path,
        final(vm).os_image == old(vm).os_image,
        final(vm).created_at_unix == old(vm).created_at_unix,
        final(vm).ssh_user == old(vm).ssh_user,
        match result {
            Ok((pid, m)) => {
                &&& started
                &&& final(vm).process_id == Some(pid)
                &&& final(vm).power_state@ == "running"@
                &&& final(vm).ssh_port == Some(ssh_port)
                &&& final(vm).last_message@ == m@
                &&& final(vm).updated_at_unix == now
            },
            Err(e) => {
                &&& !started
                &&& final(vm).process_id is None
                &&& final(vm).power_state@ == "stopped"@
                &&& final(vm).ssh_port == old(vm).ssh_port
                &&& final(vm).last_message@ == e@
                &&& final(vm).updated_at_unix == old(vm).updated_at_unix
            },
        },
{
    match result {
        Ok((pid, m)) => {
            vm.process_id = Some(pid);
            vm.power_state = String::from_str("running");
            vm.ssh_port = Some(ssh_port);
            vm.updated_at_unix = now;
            vm.last_message = m;
            true
        },
        Err(e) => {
            vm.process_id = None;
            vm.power_state = String::from_str("stopped");
            vm.last_message = e;
            false
        },
    }
}

/// The checks of a command request before the VM is read: write access, the
/// VM name and a non-blank command; the timeout (30 when unset, else within
/// 1..3600) and the SSH wait (at most 600).
pub open spec fn exec_request_spec(can_write: bool, name: Seq<char>, command: Seq<char>, timeout_sec: u64, wait_ready_sec: u64)
    -> Result<(Seq<char>, Seq<char>, u64, u64), (u16, Seq<char>)> {
    if !can_write {
        Err((403, "read-only session"@))
    } else {
        match sanitized_name(name) {
            None => Err((400, "invalid vm name"@)),
            Some(n) => if trim_seq(command).len() == 0 {
                Err((400, "command is empty"@))
            } else {
                Ok((
                    n,
                    trim_seq(command),
                    if timeout_sec == 0 { 30 } else if timeout_sec > 3600 { 3600 } else { timeout_sec },
                    if wait_ready_sec > 600 { 600 } else { wait_ready_sec },
                ))
            },
        }
    }
}

/// Checks a command request (see `exec_request_spec`): the VM name, the
/// trimmed command, the timeout and the SSH wait.
pub fn vm_exec_request(can_write: bool, name: &str, command: &str, timeout_sec: u64, wait_ready_sec: u64) -> (r: Result<(String, String, u64, u64), (u16, String)>)
    ensures
        match exec_request_spec(can_write, name@, command@, timeout_sec, wait_ready_sec) {
            Ok((n, c, t, w)) => r matches Ok((n2, c2, t2, w2)) && n2@ == n && c2@ == c && t2 == t && w2 == w,
            Err((code, m)) => r matches Err((c2, m2)) && c2 == code && m2@ == m,
        },
{
    if !can_write {
        return Err((403, String::from_str("read-only session")));
    }
    let n = match sanitize_vm_name(name) {
        Some(v) => v,
        None => return Err((400, String::from_str("invalid vm name"))),
    };
    let c = trim_chars(&chars_of(command));
    if c.len() == 0 {
        return Err((400, String::from_str("command is empty")));
    }
    let t = if timeout_sec == 0 {
        30
    } else if timeout_sec > 3600 {
        3600
    } else {
        timeout_sec
    };
    let w = if wait_ready_sec > 600 { 600 } else { wait_ready_sec };
    Ok((n, crate::text::string_of(c.as_slice()), t, w))
}

/// The checks on the VM a command runs on: it exists, runs on QEMU, runs,
/// and has an SSH port; then its SSH user and port.
pub open spec fn exec_target_check_spec(vm: Option<VmInstance>) -> Result<(Seq<char>, u16), (u16, Seq<char>)> {
    match vm {
        None => Err((404, "vm not found"@)),
        Some(v) => if v.backend@ != "qemu"@ {
            Err((400, "vm exec is only available for qemu backend"@))
        } else if v.power_state@ != "running"@ {
            Err((400, "vm is not running"@))
        } else {
            let port = match v.ssh_port { Some(p) => p, None => 0u16 };
            if port == 0 {
                Err((400, "vm ssh port is not set"@))
            } else {
                Ok((ssh_user_spec(v.ssh_user@), port))
            }
        },
    }
}

/// Checks the VM a command runs on (see `exec_target_check_spec`).
pub fn vm_exec_target(vm: Option<&VmInstance>) -> (r: Result<(String, u16), (u16, String)>)
    ensures
        match exec_target_check_spec(match vm { Some(v) => Some(*v), None => None }) {
            Ok((u, p)) => r matches Ok((u2, p2)) && u2@ == u && p2 == p,
            Err((code, m)) => r matches Err((c2, m2)) && c2 == code && m2@ == m,
        },
{
    let v = match vm {
        None => return Err((404, String::from_str("vm not found"))),
        Some(v) => v,
    };
    if !str_eq(v.backend.as_str(), "qemu") {
        return Err((400, String::from_str("vm exec is only available for qemu backend")));
    }
    if !str_eq(v.power_state.as_str(), "running") {
        return Err((400, String::from_str("vm is not running")));
    }
    let port: u16 = match v.ssh_port {
        Some(p) => p,
        None => 0,
    };
    if port == 0 {
        return Err((400, String::from_str("vm ssh port is not set")));
    }
    Ok((normalize_ssh_user(v.ssh_user.as_str()), port))
}

/// The time allowed to an SSH command: within 1..3600 seconds.
pub fn ssh_timeout(timeout_sec: u64) -> (r: u64)
    ensures
        r == (if timeout_sec < 1 { 1 } else if timeout_sec > 3600 { 3600 } else { timeout_sec }),
{
    if timeout_sec < 1 {
        1
    } else if timeout_sec > 3600 {
        3600
    } else {
        timeout_sec
    }
}

/// What to do after a poll of a running SSH command.
#[derive(Debug, Clone, Copy, PartialEq, Eq, Structural)]
pub enum SshStep {
    /// It exited: collect its output.
    Finished,
    /// It ran out of time: kill it.
    TimedOut,
    /// A cancel was asked for: kill it.
    Canceled,
    /// Poll again.
    KeepWaiting,
}

/// After a poll: exited, else out of time (`elapsed_ms` reached the clamped
/// timeout), else canceled, else wait on.
pub open spec fn ssh_poll_spec(elapsed_ms: u64, timeout_sec: u64, cancel_requested: bool, exited: bool) -> SshStep {
    let t = if timeout_sec < 1 { 1 } else if timeout_sec > 3600 { 3600 } else { timeout_sec };
    if exited {
        SshStep::Finished
    } else if elapsed_ms >= t * 1000 {
        SshStep::TimedOut
    } else if cancel_requested {
        SshStep::Canceled
    } else {
        SshStep::KeepWaiting
    }
}

/// Decides after a poll of a running SSH command (see `ssh_poll_spec`).
pub fn ssh_poll_step(elapsed_ms: u64, timeout_sec: u64, cancel_requested: bool, exited: bool) -> (r: SshStep)
    ensures
        r == ssh_poll_spec(elapsed_ms, timeout_sec, cancel_requested, exited),
{
    let t = ssh_timeout(timeout_sec);
    if exited {
        SshStep::Finished
    } else if elapsed_ms >= t * 1000 {
        SshStep::TimedOut
    } else if cancel_requested {
        SshStep::Canceled
    } else {
        SshStep::KeepWaiting
    }
}

/// The response of an SSH command: exit code -1 on timeout, -2 on cancel;
/// else the exit code (-1 without one) and the output.
pub open spec fn ssh_response_spec(step: SshStep, timeout_sec: u64, code: Option<i32>, success: bool, stdout: Seq<char>, stderr: Seq<char>)
    -> (bool, i32, Seq<char>, Seq<char>, Seq<char>) {
    let t = if timeout_sec < 1 { 1 } else if timeout_sec > 3600 { 3600 } else { timeout_sec };
    match step {
        SshStep::TimedOut => (false, -1i32, Seq::empty(), Seq::empty(), "ssh command timed out after "@ + decimal(t as nat) + "s"@),
        SshStep::Canceled => (false, -2i32, Seq::empty(), Seq::empty(), "vm exec canceled"@),
        _ => {
            let c = match code { Some(x) => x, None => -1i32 };
            (
                success,
                c,
                stdout,
                stderr,
                if success {
                    "vm exec succeeded"@
                } else {
                    "vm exec failed with exit code "@ + crate::text::int_decimal(c as int)
                },
            )
        },
    }
}

/// The view of a command response.
pub open spec fn exec_response_view(r: VmExecResponse) -> (bool, i32, Seq<char>, Seq<char>, Seq<char>) {
    (r.ok, r.exit_code, r.stdout@, r.stderr@, r.message@)
}

/// The response of an SSH command that ended as `step` (see `ssh_response_spec`).
pub fn ssh_exec_response(step: SshStep, timeout_sec: u64, code: Option<i32>, success: bool, stdout: String, stderr: String) -> (r: VmExecResponse)
    ensures
        exec_response_view(r) == ssh_response_spec(step, timeout_sec, code, success, stdout@, stderr@),
{
    match step {
        SshStep::TimedOut => {
            let t = ssh_timeout(timeout_sec);
            let m = concat(concat("ssh command timed out after ", u64_to_decimal(t).as_str()).as_str(), "s");
            VmExecResponse { ok: false, exit_code: -1, stdout: String::new(), stderr: String::new(), message: m }
        },
        SshStep::Canceled => VmExecResponse {
            ok: false,
            exit_code: -2,
            stdout: String::new(),
            stderr: String::new(),
            message: String::from_str("vm exec canceled"),
        },
        _ => {
            let c: i32 = match code {
                Some(x) => x,
                None => -1,
            };
            let m = if success {
                String::from_str("vm exec succeeded")
            } else {
                concat("vm exec failed with exit code ", crate::text::i64_to_decimal(c as i64).as_str())
            };
            VmExecResponse { ok: success, exit_code: c, stdout, stderr, message: m }
        },
    }
}

/// A checked self-debug plan request.
pub struct SelfDebugPlanRequest {
    pub name: String,
    pub tasks: Vec<VmExecBatchTaskPayload>,
    pub run_id: String,
    pub new_run: bool,
    pub timeout_sec: u64,
    pub wait_ready_sec: u64,
    pub priority: i32,
    pub retry_max: u32,
    pub max_runtime_sec: u64,
}

/// The task budget: at most 500; 0 means no limit.
pub open spec fn plan_budget(max_task_budget: u32) -> nat {
    if max_task_budget > 500 { 500 } else { max_task_budget as nat }
}

/// The checks of a self-debug plan request before the VM is read, as far as
/// they do not depend on a fresh run id.
pub open spec fn plan_request_check(can_write: bool, b: VmSelfDebugPlanPayload) -> Result<(), (u16, Seq<char>)> {
    if !can_write {
        Err((403, "read-only session"@))
    } else if sanitized_name(b.name@) is None {
        Err((400, "invalid vm name"@))
    } else {
        match crate::vm_plans::plan_spec(b) {
            Err(e) => Err((400, e)),
            Ok(_) => if trim_seq(b.run_id@).len() > 0 && run_id_spec(b.run_id@) is None {
                Err((400, "invalid run_id"@))
            } else {
                Ok(())
            },
        }
    }
}

/// What a checked request holds: the VM name, the plan's tasks cut to the
/// budget, the run (a new one, or the given id), and the clamped defaults.
pub open spec fn plan_request_ok(b: VmSelfDebugPlanPayload, r: SelfDebugPlanRequest) -> bool {
    &&& sanitized_name(b.name@) == Some(r.name@)
    &&& (crate::vm_plans::plan_spec(b) matches Ok(cmds) && ({
        let n = if plan_budget(b.max_task_budget) > 0 && cmds.len() > plan_budget(b.max_task_budget) {
            plan_budget(b.max_task_budget) as int
        } else {
            cmds.len() as int
        };
        crate::vm_plans::tasks_run(r.tasks@, cmds.take(n), crate::vm::workdir_spec(b.workdir@))
    }))
    &&& r.new_run == (trim_seq(b.run_id@).len() == 0)
    &&& (r.new_run ==> exists|secs: u64, nanos: u32| r.run_id@ == time_id_spec("sd-"@, secs, nanos))
    &&& (!r.new_run ==> run_id_spec(b.run_id@) == Some(r.run_id@))
    &&& r.timeout_sec == (if b.timeout_sec == 0 { 120 } else if b.timeout_sec > 3600 { 3600 } else { b.timeout_sec })
    &&& r.wait_ready_sec == (if b.wait_ready_sec > 600 { 600 } else { b.wait_ready_sec })
    &&& r.priority == (if b.priority < -100 { -100i32 } else if b.priority > 100 { 100i32 } else { b.priority })
    &&& r.retry_max == (if b.retry_max > 10 { 10 } else { b.retry_max })
    &&& r.max_runtime_sec == (if b.max_runtime_sec > 86400 { 86400 } else { b.max_runtime_sec })
}

/// Checks a self-debug plan request (see `plan_request_check`) and gives
/// what it asks for (see `plan_request_ok`); a new run gets a fresh id.
pub fn self_debug_plan_request(can_write: bool, body: &VmSelfDebugPlanPayload) -> (r: Result<SelfDebugPlanRequest, (u16, String)>)
    ensures
        match plan_request_check(can_write, *body) {
            Ok(_) => r matches Ok(q) && plan_request_ok(*body, q),
            Err((c, m)) => r matches Err((c2, m2)) && c2 == c && m2@ == m,
        },
{
    if !can_write {
        return Err((403, String::from_str("read-only session")));
    }
    let name = match sanitize_vm_name(body.name.as_str()) {
        Some(v) => v,
        None => return Err((400, String::from_str("invalid vm name"))),
    };
    let mut tasks = match build_self_debug_tasks(body) {
        Ok(v) => v,
        Err(e) => return Err((400, e)),
    };
    let ghost cmds = crate::vm_plans::plan_spec(*body)->Ok_0;
    let ghost wd = crate::vm::workdir_spec(body.workdir@);
    let budget: usize = if body.max_task_budget > 500 { 500 } else { body.max_task_budget as usize };
    if budget > 0 && tasks.len() > budget {
        let ghost t0 = tasks@;
        tasks.truncate(budget);
        assert(tasks@ =~= t0.take(budget as int));
        assert forall|i: int| 0 <= i < tasks@.len() implies {
            &&& (#[trigger] tasks@[i]).command@ == crate::vm::with_workdir_spec(cmds.take(budget as int)[i], wd)
            &&& tasks@[i].timeout_sec == 0
            &&& tasks@[i].wait_ready_sec == 0
            &&& tasks@[i].priority == 0
            &&& tasks@[i].retry_max == 0
        } by {
            assert(tasks@[i] == t0[i]);
        }
    } else {
        assert(cmds.take(cmds.len() as int) =~= cmds);
    }
    let blank = trim_chars(&chars_of(body.run_id.as_str())).len() == 0;
    let run_id = if blank {
        crate::vm_queue::self_debug_run_id()
    } else {
        match sanitize_self_debug_run_id(body.run_id.as_str()) {
            Some(v) => v,
            None => return Err((400, String::from_str("invalid run_id"))),
        }
    };
    let timeout_sec = if body.timeout_sec == 0 {
        120
    } else if body.timeout_sec > 3600 {
        3600
    } else {
        body.timeout_sec
    };
    let wait_ready_sec = if body.wait_ready_sec > 600 { 600 } else { body.wait_ready_sec };
    let priority: i32 = if body.priority < -100 {
        -100
    } else if body.priority > 100 {
        100
    } else {
        body.priority
    };
    let retry_max = if body.retry_max > 10 { 10 } else { body.retry_max };
    let max_runtime_sec = if body.max_runtime_sec > 86400 { 86400 } else { body.max_runtime_sec };
    Ok(SelfDebugPlanRequest {
        name,
        tasks,
        run_id,
        new_run: blank,
        timeout_sec,
        wait_ready_sec,
        priority,
        retry_max,
        max_runtime_sec,
    })
}

/// A queue task made for a plan task: fresh and pending with the task's
/// settings (or the plan's defaults), in the given self-debug run.
pub open spec fn planned_item(it: VmExecQueueItem, task: VmExecBatchTaskPayload, q: SelfDebugPlanRequest) -> bool {
    let (t, w, p, m) = batch_settings(task, q.timeout_sec, q.wait_ready_sec, q.priority, q.retry_max);
    &&& exists|secs: u64, nanos: u32| crate::vm_queue::fresh_core(
        it,
        #[trigger] time_id_spec("q-"@, secs, nanos),
        secs,
        trim_seq(task.command@),
        t,
        w,
        p,
        m,
    )
    &&& it.run_id@ == q.run_id@
    &&& it.run_kind@ == "self_debug"@
    &&& it.run_max_runtime_sec == q.max_runtime_sec
}

/// The queue tasks for a list of plan tasks: one per task with a non-blank
/// command, in order.
pub open spec fn planned(items: Seq<VmExecQueueItem>, tasks: Seq<VmExecBatchTaskPayload>, q: SelfDebugPlanRequest) -> bool
    decreases tasks.len(),
{
    if tasks.len() == 0 {
        items.len() == 0
    } else if trim_seq(tasks.last().command@).len() == 0 {
        planned(items, tasks.drop_last(), q)
    } else {
        items.len() > 0 && planned_item(items.last(), tasks.last(), q) && planned(items.drop_last(), tasks.drop_last(), q)
    }
}

/// How many plan tasks have a non-blank command.
pub open spec fn runnable_count(tasks: Seq<VmExecBatchTaskPayload>) -> nat
    decreases tasks.len(),
{
    if tasks.len() == 0 {
        0
    } else {
        runnable_count(tasks.drop_last()) + if trim_seq(tasks.last().command@).len() == 0 { 0nat } else { 1nat }
    }
}

proof fn lemma_runnable_le(tasks: Seq<VmExecBatchTaskPayload>)
    ensures
        runnable_count(tasks) <= tasks.len(),
    decreases tasks.len(),
{
    if tasks.len() > 0 {
        lemma_runnable_le(tasks.drop_last());
    }
}

/// The queue tasks of a checked plan for a queue holding `existing` tasks
/// with room for `queue_limit`: refused when no task has a command (400) or
/// when they do not fit (429).
pub fn self_debug_plan_items(q: &SelfDebugPlanRequest, existing: usize, queue_limit: usize) -> (r: Result<Vec<VmExecQueueItem>, (u16, String)>)
    ensures
        runnable_count(q.tasks@) == 0 ==> (r matches Err((c, m)) && c == 400 && m@ == "self-debug plan has no runnable command"@),
        runnable_count(q.tasks@) > 0 ==> match capacity_spec(existing as nat, runnable_count(q.tasks@), queue_limit as nat) {
            Err(m) => r matches Err((c2, m2)) && c2 == 429 && m2@ == m,
            Ok(_) => r matches Ok(items) && planned(items@, q.tasks@, *q) && items@.len() == runnable_count(q.tasks@),
        },
{
    let mut items: Vec<VmExecQueueItem> = Vec::new();
    let mut i: usize = 0;
    while i < q.tasks.len()
        invariant
            i <= q.tasks.len(),
            planned(items@, q.tasks@.take(i as int), *q),
            items@.len() == runnable_count(q.tasks@.take(i as int)),
        decreases q.tasks.len() - i,
    {
        let ghost pre = q.tasks@.take(i as int);
        assert(q.tasks@.take(i + 1).drop_last() =~= pre);
        proof {
            lemma_runnable_le(pre);
        }
        let task = &q.tasks[i];
        match normalize_batch_task(task, q.timeout_sec, q.wait_ready_sec, q.priority, q.retry_max) {
            Some(it0) => {
                let mut it = it0;
                let ghost w = choose|secs: u64, nanos: u32| crate::vm_queue::fresh_item(
                    it0,
                    time_id_spec("q-"@, secs, nanos),
                    secs,
                    trim_seq(task.command@),
                    batch_settings(*task, q.timeout_sec, q.wait_ready_sec, q.priority, q.retry_max).0,
                    batch_settings(*task, q.timeout_sec, q.wait_ready_sec, q.priority, q.retry_max).1,
                    batch_settings(*task, q.timeout_sec, q.wait_ready_sec, q.priority, q.retry_max).2,
                    batch_settings(*task, q.timeout_sec, q.wait_ready_sec, q.priority, q.retry_max).3,
                );
                it.run_id = q.run_id.clone();
                it.run_kind = String::from_str("self_debug");
                it.run_max_runtime_sec = q.max_runtime_sec;
                assert(crate::vm_queue::fresh_core(
                    it,
                    time_id_spec("q-"@, w.0, w.1),
                    w.0,
                    trim_seq(task.command@),
                    batch_settings(*task, q.timeout_sec, q.wait_ready_sec, q.priority, q.retry_max).0,
                    batch_settings(*task, q.timeout_sec, q.wait_ready_sec, q.priority, q.retry_max).1,
                    batch_settings(*task, q.timeout_sec, q.wait_ready_sec, q.priority, q.retry_max).2,
                    batch_settings(*task, q.timeout_sec, q.wait_ready_sec, q.priority, q.retry_max).3,
                ));
                assert(planned_item(it, *task, *q));
                let ghost before = items@;
                items.push(it);
                assert(items@.drop_last() =~= before);
            },
            None => {},
        }
        i += 1;
    }
    assert(q.tasks@.take(q.tasks.len() as int) =~= q.tasks@);
    let added = items.len();
    if added == 0 {
        return Err((400, String::from_str("self-debug plan has no runnable command")));
    }
    match ensure_queue_capacity(existing, added, queue_limit) {
        Err(e) => Err((429, e)),
        Ok(_) => Ok(items),
    }
}

/// The snapshot tag in a line of `qemu-img snapshot -l`: the second column
/// of a row (not of the title, the header or a rule).
pub open spec fn snapshot_tag_of(line: Seq<char>) -> Option<Seq<char>> {
    let t = trim_seq(line);
    if t.len() == 0 || starts_with(t, "Snapshot list"@) || starts_with(t, "ID"@) || starts_with(t, "---"@) {
        None
    } else {
        let b = first_non_ws(t, next_ws(t, 0));
        if b >= t.len() {
            None
        } else {
            Some(t.subrange(b, next_ws(t, b)))
        }
    }
}

/// The snapshot tags of a listing's lines, in order.
pub open spec fn snapshot_tags_of(ls: Seq<Seq<char>>) -> Seq<Seq<char>>
    decreases ls.len(),
{
    if ls.len() == 0 {
        Seq::empty()
    } else {
        let p = snapshot_tags_of(ls.drop_last());
        match snapshot_tag_of(ls.last()) {
            Some(x) => p.push(x),
            None => p,
        }
    }
}

fn skip_ws(v: &Vec<char>, i: usize) -> (r: usize)
    requires
        i <= v.len(),
    ensures
        r == first_non_ws(v@, i as int),
        i <= r <= v.len(),
{
    let mut k = i;
    while k < v.len() && char_is_ws(v[k])
        invariant
            i <= k <= v.len(),
            first_non_ws(v@, k as int) == first_non_ws(v@, i as int),
        decreases v.len() - k,
    {
        k += 1;
    }
    k
}

fn word_end(v: &Vec<char>, i: usize) -> (r: usize)
    requires
        i <= v.len(),
    ensures
        r == next_ws(v@, i as int),
        i <= r <= v.len(),
{
    let mut k = i;
    while k < v.len() && !char_is_ws(v[k])
        invariant
            i <= k <= v.len(),
            next_ws(v@, k as int) == next_ws(v@, i as int),
        decreases v.len() - k,
    {
        k += 1;
    }
    k
}

/// The tag of one listing line (see `snapshot_tag_of`).
fn snapshot_tag_line(line: &Vec<char>) -> (r: Option<String>)
    ensures
        match snapshot_tag_of(line@) {
            Some(x) => r matches Some(y) && y@ == x,
            None => r is None,
        },
{
    let t = trim_chars(line);
    if t.len() == 0 || chars_start_with(&t, &chars_of("Snapshot list")) || chars_start_with(&t, &chars_of("ID"))
        || chars_start_with(&t, &chars_of("---")) {
        return None;
    }
    let a = word_end(&t, 0);
    let b = skip_ws(&t, a);
    if b >= t.len() {
        return None;
    }
    let e = word_end(&t, b);
    Some(crate::text::string_of(chars_slice(&t, b, e).as_slice()))
}

/// The snapshot tags that `qemu-img snapshot -l` lists, in order.
pub fn qemu_snapshot_tags(listing: &str) -> (r: Vec<String>)
    ensures
        crate::text::strings_view(r@) == snapshot_tags_of(lines(listing@)),
{
    let ls = split_lines(&chars_of(listing));
    let mut out: Vec<String> = Vec::new();
    let mut i: usize = 0;
    while i < ls.len()
        invariant
            i <= ls.len(),
            crate::text::strings_view(out@) == snapshot_tags_of(crate::text::char_vecs_view(ls@).take(i as int)),
        decreases ls.len() - i,
    {
        let ghost pre = crate::text::char_vecs_view(ls@).take(i as int);
        assert(crate::text::char_vecs_view(ls@).take(i + 1).drop_last() =~= pre);
        match snapshot_tag_line(&ls[i]) {
            Some(x) => {
                let ghost before = out@;
                out.push(x);
                assert(crate::text::strings_view(out@) =~= crate::text::strings_view(before).push(out@[out@.len() - 1]@));
            },
            None => {},
        }
        i += 1;
    }
    assert(crate::text::char_vecs_view(ls@).take(ls.len() as int) =~= crate::text::char_vecs_view(ls@));
    out
}

/// The process a QEMU VM is known by: its recorded one, else its pid file's.
pub fn vm_live_pid(vm: &VmInstance, pid_file: Option<u32>) -> (r: Option<u32>)
    ensures
        r == (match vm.process_id { Some(p) => Some(p), None => pid_file }),
{
    match vm.process_id {
        Some(p) => Some(p),
        None => pid_file,
    }
}

/// Brings a QEMU VM's record in line with its process: running with the
/// process when `live_pid` is alive, else stopped (noting a dead process).
/// Other backends are left as they are. The record is stamped `now` when
/// its power state changed; tells whether it did.
pub fn reconcile_vm_power(vm: &mut VmInstance, live_pid: Option<u32>, alive: bool, now: u64) -> (changed: bool)
    ensures
        old(vm).backend@ != "qemu"@ ==> !changed && *final(vm) == *old(vm),
        old(vm).backend@ == "qemu"@ ==> {
            &&& final(vm).name == old(vm).name
            &&& final(vm).backend == old(vm).backend
            &&& final(vm).ssh_port == old(vm).ssh_port
            &&& final(vm).ssh_user == old(vm).ssh_user
            &&& final(vm).disk_path == old(vm).disk_path
            &&& match live_pid {
                Some(p) => if alive {
                    &&& final(vm).process_id == Some(p)
                    &&& final(vm).power_state@ == "running"@
                    &&& final(vm).last_message@ == (if old(vm).last_message@.len() == 0 {
                        "qemu running pid "@ + decimal(p as nat)
                    } else {
                        old(vm).last_message@
                    })
                } else {
                    &&& final(vm).process_id is None
                    &&& final(vm).power_state@ == "stopped"@
                    &&& final(vm).last_message@ == "qemu pid "@ + decimal(p as nat) + " is not alive"@
                },
                None => {
                    &&& final(vm).process_id is None
                    &&& final(vm).power_state@ == "stopped"@
                    &&& final(vm).last_message == old(vm).last_message
                },
            }
            &&& changed == (final(vm).power_state@ != old(vm).power_state@)
            &&& final(vm).updated_at_unix == (if changed { now } else { old(vm).updated_at_unix })
        },
{
    if !str_eq(vm.backend.as_str(), "qemu") {
        return false;
    }
    let was = vm.power_state.clone();
    match live_pid {
        Some(p) => {
            if alive {
                vm.process_id = Some(p);
                vm.power_state = String::from_str("running");
                if chars_of(vm.last_message.as_str()).len() == 0 {
                    vm.last_message = concat("qemu running pid ", u64_to_decimal(p as u64).as_str());
                }
            } else {
                vm.process_id = None;
                vm.power_state = String::from_str("stopped");
                vm.last_message = concat(concat("qemu pid ", u64_to_decimal(p as u64).as_str()).as_str(), " is not alive");
            }
        },
        None => {
            vm.process_id = None;
            vm.power_state = String::from_str("stopped");
        },
    }
    if !str_eq(vm.power_state.as_str(), was.as_str()) {
        vm.updated_at_unix = now;
        return true;
    }
    false
}

} // verus!
