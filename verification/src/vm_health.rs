//! The health scan of a virtual machine: what it reports and what its
//! self-healing does to the machine's execution queue.

use vstd::prelude::*;
use crate::text::{concat, decimal, str_eq, u64_to_decimal};
use crate::vm_queue::{VmExecQueueItem, count_timed_out, hard_timed_out_spec, recovered_item,
    is_running_task_hard_timed_out, recover_stale_running_tasks_in_queue};

verus! {

/// A problem the health scan found on a machine.
#[derive(Debug)]
pub struct VmHealthIssue {
    pub vm_name: String,
    pub severity: String,
    pub message: String,
}

/// A repair the health scan made on a machine.
#[derive(Debug)]
pub struct VmHealthAction {
    pub vm_name: String,
    pub action: String,
    pub detail: String,
}

/// The views of a list of issues.
pub open spec fn issues_view(v: Seq<VmHealthIssue>) -> Seq<(Seq<char>, Seq<char>, Seq<char>)> {
    v.map_values(|x: VmHealthIssue| (x.vm_name@, x.severity@, x.message@))
}

/// The views of a list of actions.
pub open spec fn actions_view(v: Seq<VmHealthAction>) -> Seq<(Seq<char>, Seq<char>, Seq<char>)> {
    v.map_values(|x: VmHealthAction| (x.vm_name@, x.action@, x.detail@))
}

/// The issues of one machine, in this order: its power state changed when
/// reconciled (a warning); it is a running QEMU machine without an SSH port
/// (an error); `stale` running tasks overran their hard timeout (an error).
pub open spec fn health_issues_spec(vm: Seq<char>, before_power: Seq<char>, after_power: Seq<char>,
    backend: Seq<char>, ssh_port: Option<u16>, stale: nat) -> Seq<(Seq<char>, Seq<char>, Seq<char>)> {
    let a: Seq<(Seq<char>, Seq<char>, Seq<char>)> = if before_power != after_power {
        seq![(vm, "warn"@, "power state reconciled: "@ + before_power + " -> "@ + after_power)]
    } else {
        Seq::empty()
    };
    let port = match ssh_port { Some(p) => p, None => 0u16 };
    let b = if backend == "qemu"@ && after_power == "running"@ && port == 0 {
        a.push((vm, "error"@, "running qemu vm has empty ssh_port"@))
    } else {
        a
    };
    if stale > 0 {
        b.push((vm, "error"@, "stale running exec tasks detected: "@ + decimal(stale)))
    } else {
        b
    }
}

/// An issue record.
fn issue(vm_name: &str, severity: &str, message: String) -> (r: VmHealthIssue)
    ensures
        r.vm_name@ == vm_name@ && r.severity@ == severity@ && r.message@ == message@,
{
    VmHealthIssue { vm_name: String::from_str(vm_name), severity: String::from_str(severity), message: message }
}

/// How many tasks of the queue overran their hard timeout.
fn count_stale(items: &Vec<VmExecQueueItem>, now: u64, grace_sec: u64) -> (n: usize)
    ensures
        n == count_timed_out(items@, now, grace_sec),
{
    let mut n: usize = 0;
    let mut i: usize = 0;
    while i < items.len()
        invariant
            i <= items.len(),
            n <= i,
            n == count_timed_out(items@.take(i as int), now, grace_sec),
        decreases items.len() - i,
    {
        assert(items@.take(i + 1).drop_last() =~= items@.take(i as int));
        if is_running_task_hard_timed_out(&items[i], now, grace_sec) {
            n += 1;
        }
        i += 1;
    }
    assert(items@.take(items.len() as int) =~= items@);
    n
}

/// Scans one machine, given its power state before and after the state was
/// reconciled with its process, its backend and SSH port, and its queue:
/// the issues are those of `health_issues_spec`. With self-healing on and
/// stale tasks found, they are marked failed as the watchdog does, and the
/// repair is reported with how many tasks it recovered; otherwise the
/// queue is left alone and nothing is repaired.
pub fn vm_health_findings(vm_name: &str, before_power: &str, after_power: &str, backend: &str,
    ssh_port: Option<u16>, items: &mut Vec<VmExecQueueItem>, now: u64, grace_sec: u64, self_heal: bool)
    -> (r: (Vec<VmHealthIssue>, Vec<VmHealthAction>, usize))
    ensures
        issues_view(r.0@) == health_issues_spec(vm_name@, before_power@, after_power@, backend@, ssh_port,
            count_timed_out(old(items)@, now, grace_sec)),
        self_heal && count_timed_out(old(items)@, now, grace_sec) > 0 ==> {
            &&& r.2 == count_timed_out(old(items)@, now, grace_sec)
            &&& actions_view(r.1@) == seq![(vm_name@, "recover_stale_exec_tasks"@, "recovered="@ + decimal(r.2 as nat))]
            &&& final(items)@.len() == old(items)@.len()
            &&& forall|k: int| 0 <= k < old(items)@.len() ==> if hard_timed_out_spec(#[trigger] old(items)@[k], now, grace_sec) {
                    recovered_item(old(items)@[k], final(items)@[k], now, grace_sec)
                } else {
                    final(items)@[k] == old(items)@[k]
                }
        },
        !(self_heal && count_timed_out(old(items)@, now, grace_sec) > 0) ==> {
            &&& r.2 == 0 && r.1@.len() == 0
            &&& final(items)@ == old(items)@
        },
{
    proof {
        reveal_strlit("qemu");
        reveal_strlit("running");
    }
    let mut issues: Vec<VmHealthIssue> = Vec::new();
    let mut actions: Vec<VmHealthAction> = Vec::new();
    if !str_eq(before_power, after_power) {
        let a = concat("power state reconciled: ", before_power);
        let b = concat(a.as_str(), " -> ");
        issues.push(issue(vm_name, "warn", concat(b.as_str(), after_power)));
    }
    let ghost s1 = issues_view(issues@);
    assert(s1 =~= (if before_power@ != after_power@ {
        seq![(vm_name@, "warn"@, "power state reconciled: "@ + before_power@ + " -> "@ + after_power@)]
    } else {
        Seq::<(Seq<char>, Seq<char>, Seq<char>)>::empty()
    }));
    let port: u16 = match ssh_port { Some(p) => p, None => 0 };
    if str_eq(backend, "qemu") && str_eq(after_power, "running") && port == 0 {
        issues.push(issue(vm_name, "error", String::from_str("running qemu vm has empty ssh_port")));
        assert(issues_view(issues@) =~= s1.push((vm_name@, "error"@, "running qemu vm has empty ssh_port"@)));
    }
    let ghost s2 = issues_view(issues@);
    let stale = count_stale(items, now, grace_sec);
    let mut recovered: usize = 0;
    if stale > 0 {
        let n = u64_to_decimal(stale as u64);
        issues.push(issue(vm_name, "error", concat("stale running exec tasks detected: ", n.as_str())));
        assert(issues_view(issues@) =~= s2.push((vm_name@, "error"@, "stale running exec tasks detected: "@ + decimal(stale as nat))));
        if self_heal {
            recovered = recover_stale_running_tasks_in_queue(items, now, grace_sec);
            if recovered > 0 {
                let d = u64_to_decimal(recovered as u64);
                actions.push(VmHealthAction {
                    vm_name: String::from_str(vm_name),
                    action: String::from_str("recover_stale_exec_tasks"),
                    detail: concat("recovered=", d.as_str()),
                });
                assert(actions_view(actions@) =~= seq![(vm_name@, "recover_stale_exec_tasks"@, "recovered="@ + decimal(recovered as nat))]);
            }
        }
    }
    (issues, actions, recovered)
}

} // verus!
