//! Per-role limits on virtual machines and their execution queues.

use vstd::prelude::*;
use crate::auth::AccountRole;
use crate::text::{concat, decimal, u64_to_decimal};

verus! {

/// Limits that apply to one role.
#[derive(Debug, Clone, Copy, PartialEq, Eq, Structural)]
pub struct VmPolicyRoleLimits {
    pub vm_instance_max: usize,
    pub vm_queue_max_items: usize,
    pub vm_running_max: usize,
    pub vm_exec_running_max: usize,
}

/// Scheduler tuning.
#[derive(Debug, Clone, Copy, PartialEq, Eq, Structural)]
pub struct VmPolicyScheduler {
    pub exec_hard_timeout_grace_sec: u64,
    pub priority_aging_step_sec: u64,
    pub priority_aging_max_boost: i32,
}

/// The whole VM policy.
#[derive(Debug, Clone, Copy, PartialEq, Eq, Structural)]
pub struct VmPolicyConfig {
    pub user: VmPolicyRoleLimits,
    pub admin: VmPolicyRoleLimits,
    pub scheduler: VmPolicyScheduler,
}

/// The built-in policy.
pub open spec fn default_policy() -> VmPolicyConfig {
    VmPolicyConfig {
        user: VmPolicyRoleLimits {
            vm_instance_max: 4,
            vm_queue_max_items: 400,
            vm_running_max: 2,
            vm_exec_running_max: 4,
        },
        admin: VmPolicyRoleLimits {
            vm_instance_max: 16,
            vm_queue_max_items: 2000,
            vm_running_max: 8,
            vm_exec_running_max: 16,
        },
        scheduler: VmPolicyScheduler {
            exec_hard_timeout_grace_sec: 15,
            priority_aging_step_sec: 60,
            priority_aging_max_boost: 20,
        },
    }
}

/// The built-in policy.
pub fn default_vm_policy_config() -> (c: VmPolicyConfig)
    ensures
        c == default_policy(),
{
    VmPolicyConfig {
        user: VmPolicyRoleLimits {
            vm_instance_max: 4,
            vm_queue_max_items: 400,
            vm_running_max: 2,
            vm_exec_running_max: 4,
        },
        admin: VmPolicyRoleLimits {
            vm_instance_max: 16,
            vm_queue_max_items: 2000,
            vm_running_max: 8,
            vm_exec_running_max: 16,
        },
        scheduler: VmPolicyScheduler {
            exec_hard_timeout_grace_sec: 15,
            priority_aging_step_sec: 60,
            priority_aging_max_boost: 20,
        },
    }
}

/// `v` clamped to `[lo, hi]`.
pub open spec fn clamp_int(v: int, lo: int, hi: int) -> int {
    if v < lo {
        lo
    } else if v > hi {
        hi
    } else {
        v
    }
}

/// The larger of two.
pub open spec fn max_int(a: int, b: int) -> int {
    if a < b {
        b
    } else {
        a
    }
}

/// A policy with every limit within its range and admin limits at least the user ones.
pub open spec fn sanitized_policy(c: VmPolicyConfig) -> VmPolicyConfig {
    let u = VmPolicyRoleLimits {
        vm_instance_max: clamp_int(c.user.vm_instance_max as int, 1, 64) as usize,
        vm_queue_max_items: clamp_int(c.user.vm_queue_max_items as int, 1, 20000) as usize,
        vm_running_max: clamp_int(c.user.vm_running_max as int, 1, 32) as usize,
        vm_exec_running_max: clamp_int(c.user.vm_exec_running_max as int, 1, 64) as usize,
    };
    VmPolicyConfig {
        user: u,
        admin: VmPolicyRoleLimits {
            vm_instance_max: max_int(clamp_int(c.admin.vm_instance_max as int, 1, 256), u.vm_instance_max as int) as usize,
            vm_queue_max_items: max_int(clamp_int(c.admin.vm_queue_max_items as int, 1, 100000), u.vm_queue_max_items as int) as usize,
            vm_running_max: max_int(clamp_int(c.admin.vm_running_max as int, 1, 128), u.vm_running_max as int) as usize,
            vm_exec_running_max: max_int(clamp_int(c.admin.vm_exec_running_max as int, 1, 256), u.vm_exec_running_max as int) as usize,
        },
        scheduler: VmPolicyScheduler {
            exec_hard_timeout_grace_sec: clamp_int(c.scheduler.exec_hard_timeout_grace_sec as int, 0, 600) as u64,
            priority_aging_step_sec: clamp_int(c.scheduler.priority_aging_step_sec as int, 1, 3600) as u64,
            priority_aging_max_boost: clamp_int(c.scheduler.priority_aging_max_boost as int, 0, 100) as i32,
        },
    }
}

fn clamp_usize(v: usize, lo: usize, hi: usize) -> (r: usize)
    requires
        lo <= hi,
    ensures
        r == clamp_int(v as int, lo as int, hi as int),
{
    if v < lo {
        lo
    } else if v > hi {
        hi
    } else {
        v
    }
}

/// Brings every limit into range and raises admin limits to at least the user ones.
pub fn sanitize_vm_policy_config(cfg: VmPolicyConfig) -> (r: VmPolicyConfig)
    ensures
        r == sanitized_policy(cfg),
{
    let mut cfg = cfg;
    cfg.user.vm_instance_max = clamp_usize(cfg.user.vm_instance_max, 1, 64);
    cfg.user.vm_queue_max_items = clamp_usize(cfg.user.vm_queue_max_items, 1, 20000);
    cfg.user.vm_running_max = clamp_usize(cfg.user.vm_running_max, 1, 32);
    cfg.user.vm_exec_running_max = clamp_usize(cfg.user.vm_exec_running_max, 1, 64);
    cfg.admin.vm_instance_max = clamp_usize(cfg.admin.vm_instance_max, 1, 256);
    cfg.admin.vm_queue_max_items = clamp_usize(cfg.admin.vm_queue_max_items, 1, 100000);
    cfg.admin.vm_running_max = clamp_usize(cfg.admin.vm_running_max, 1, 128);
    cfg.admin.vm_exec_running_max = clamp_usize(cfg.admin.vm_exec_running_max, 1, 256);
    if cfg.admin.vm_instance_max < cfg.user.vm_instance_max {
        cfg.admin.vm_instance_max = cfg.user.vm_instance_max;
    }
    if cfg.admin.vm_queue_max_items < cfg.user.vm_queue_max_items {
        cfg.admin.vm_queue_max_items = cfg.user.vm_queue_max_items;
    }
    if cfg.admin.vm_running_max < cfg.user.vm_running_max {
        cfg.admin.vm_running_max = cfg.user.vm_running_max;
    }
    if cfg.admin.vm_exec_running_max < cfg.user.vm_exec_running_max {
        cfg.admin.vm_exec_running_max = cfg.user.vm_exec_running_max;
    }
    let g = cfg.scheduler.exec_hard_timeout_grace_sec;
    cfg.scheduler.exec_hard_timeout_grace_sec = if g > 600 {
        600
    } else {
        g
    };
    let st = cfg.scheduler.priority_aging_step_sec;
    cfg.scheduler.priority_aging_step_sec = if st < 1 {
        1
    } else if st > 3600 {
        3600
    } else {
        st
    };
    let b = cfg.scheduler.priority_aging_max_boost;
    cfg.scheduler.priority_aging_max_boost = if b < 0 {
        0
    } else if b > 100 {
        100
    } else {
        b
    };
    cfg
}

/// A sanitized policy is within every range, gives admins at least what
/// users get, and sanitizing it again changes nothing.
pub proof fn sanitized_policy_is_ordered_and_stable(c: VmPolicyConfig)
    ensures
        ({
            let s = sanitized_policy(c);
            &&& 1 <= s.user.vm_instance_max <= s.admin.vm_instance_max <= 256
            &&& 1 <= s.user.vm_queue_max_items <= s.admin.vm_queue_max_items <= 100000
            &&& 1 <= s.user.vm_running_max <= s.admin.vm_running_max <= 128
            &&& 1 <= s.user.vm_exec_running_max <= s.admin.vm_exec_running_max <= 256
            &&& s.scheduler.exec_hard_timeout_grace_sec <= 600
            &&& 1 <= s.scheduler.priority_aging_step_sec <= 3600
            &&& 0 <= s.scheduler.priority_aging_max_boost <= 100
            &&& sanitized_policy(s) == s
        }),
{
}

/// The limits that apply to `role`: admins have theirs, users and guests the user ones.
pub fn vm_role_limits(cfg: &VmPolicyConfig, role: &AccountRole) -> (r: VmPolicyRoleLimits)
    ensures
        r == (if *role == AccountRole::Admin {
            cfg.admin
        } else {
            cfg.user
        }),
{
    match role {
        AccountRole::Admin => cfg.admin,
        AccountRole::User | AccountRole::Guest => cfg.user,
    }
}

/// How many VMs `role` may have.
pub fn vm_instance_limit_by_role(cfg: &VmPolicyConfig, role: &AccountRole) -> (r: usize)
    ensures
        r == vm_role_limits_spec(*cfg, *role).vm_instance_max,
{
    vm_role_limits(cfg, role).vm_instance_max
}

/// How many queued tasks `role` may have per VM.
pub fn vm_queue_limit_by_role(cfg: &VmPolicyConfig, role: &AccountRole) -> (r: usize)
    ensures
        r == vm_role_limits_spec(*cfg, *role).vm_queue_max_items,
{
    vm_role_limits(cfg, role).vm_queue_max_items
}

/// How many VMs `role` may run at once.
pub fn vm_running_limit_by_role(cfg: &VmPolicyConfig, role: &AccountRole) -> (r: usize)
    ensures
        r == vm_role_limits_spec(*cfg, *role).vm_running_max,
{
    vm_role_limits(cfg, role).vm_running_max
}

/// How many tasks `role` may run at once.
pub fn vm_exec_running_limit_by_role(cfg: &VmPolicyConfig, role: &AccountRole) -> (r: usize)
    ensures
        r == vm_role_limits_spec(*cfg, *role).vm_exec_running_max,
{
    vm_role_limits(cfg, role).vm_exec_running_max
}

/// The limits of a role.
pub open spec fn vm_role_limits_spec(cfg: VmPolicyConfig, role: AccountRole) -> VmPolicyRoleLimits {
    if role == AccountRole::Admin {
        cfg.admin
    } else {
        cfg.user
    }
}

/// Whether `adding` more tasks fit a queue of `existing` under `limit`.
pub open spec fn capacity_spec(existing: nat, adding: nat, limit: nat) -> Result<(), Seq<char>> {
    if adding == 0 {
        Ok(())
    } else if (if existing + adding > usize::MAX { usize::MAX as nat } else { existing + adding }) > limit {
        Err("vm exec queue limit exceeded: current="@ + decimal(existing) + " adding="@ + decimal(adding)
            + " limit="@ + decimal(limit))
    } else {
        Ok(())
    }
}

/// Checks that `adding` tasks fit in a queue holding `existing` with room for `limit`.
pub fn ensure_queue_capacity(existing: usize, adding: usize, limit: usize) -> (r: Result<(), String>)
    ensures
        crate::patch::result_view(r) == capacity_spec(existing as nat, adding as nat, limit as nat),
{
    if adding == 0 {
        return Ok(());
    }
    let next = existing.saturating_add(adding);
    if next > limit {
        let a = u64_to_decimal(existing as u64);
        let b = u64_to_decimal(adding as u64);
        let c = u64_to_decimal(limit as u64);
        let m1 = concat("vm exec queue limit exceeded: current=", a.as_str());
        let m2 = concat(m1.as_str(), " adding=");
        let m3 = concat(m2.as_str(), b.as_str());
        let m4 = concat(m3.as_str(), " limit=");
        return Err(concat(m4.as_str(), c.as_str()));
    }
    Ok(())
}

} // verus!
