use astrid_capsule::budget::{
    check_principal_enabled, cpu_rate_budget, cpu_rate_deny, epoch_decision, exempt_epoch_action,
    resolve_audit_firehose, resolve_exemption, resolve_run_loop_budget, CapabilityCheck,
    EpochAction, PrincipalProfile, Quotas, AUDIT_FIREHOSE_CAP, DEFAULT_RUN_LOOP_WINDOW_TICKS,
    MAX_NO_YIELD_WINDOWS, WASM_MAX_MEMORY_BYTES,
};
use astrid_capsule::error::CapsuleError;

const RATE_BUDGET: u64 = 1_000;

fn profile() -> PrincipalProfile {
    PrincipalProfile {
        enabled: true,
        quotas: Quotas {
            max_memory_bytes: 64 * 1024 * 1024,
            max_timeout_secs: 300,
            max_cpu_fuel_per_sec: 2_000_000_000,
        },
    }
}

fn budgeted_profile() -> PrincipalProfile {
    let mut p = profile();
    p.quotas.max_cpu_fuel_per_sec = RATE_BUDGET;
    p
}

fn agent() -> CapabilityCheck {
    CapabilityCheck {
        resources_unbounded: false,
        net_bind: false,
        uplink: false,
        audit_read_all: false,
    }
}

fn admin() -> CapabilityCheck {
    CapabilityCheck {
        resources_unbounded: true,
        net_bind: true,
        uplink: true,
        audit_read_all: true,
    }
}

#[test]
fn budget_admin_run_loop_is_exempt_via_capability() {
    let b = resolve_run_loop_budget(Some(&profile()), Some(&admin()), true);
    assert!(b.exempt, "admin must be exempt via its capabilities");
    assert!(!b.bound_run_loop);
    assert_eq!(b.window_ticks, None);
}

#[test]
fn budget_non_admin_run_loop_is_bounded() {
    let b = resolve_run_loop_budget(Some(&profile()), Some(&agent()), true);
    assert!(!b.exempt, "agent must NOT be exempt");
    assert!(b.bound_run_loop);
    // A timeout of 300s clamps to the default window.
    assert_eq!(b.window_ticks, Some(DEFAULT_RUN_LOOP_WINDOW_TICKS));
    assert_eq!(b.mem_bytes, WASM_MAX_MEMORY_BYTES);
}

#[test]
fn budget_capability_grant_exempts_non_admin() {
    let check = CapabilityCheck { resources_unbounded: true, ..agent() };
    let b = resolve_run_loop_budget(Some(&profile()), Some(&check), true);
    assert!(b.exempt, "explicit grant of the capability must exempt");
    assert!(!b.bound_run_loop);
}

#[test]
fn budget_net_bind_capability_exempts_non_admin() {
    let check = CapabilityCheck { net_bind: true, ..agent() };
    let b = resolve_run_loop_budget(Some(&profile()), Some(&check), true);
    assert!(b.exempt, "granted net_bind capability must exempt the uplink");
    assert!(!b.bound_run_loop);
}

#[test]
fn budget_uplink_capability_exempts_non_admin() {
    let check = CapabilityCheck { uplink: true, ..agent() };
    let b = resolve_run_loop_budget(Some(&profile()), Some(&check), true);
    assert!(b.exempt, "granted uplink capability must exempt the daemon");
    assert!(!b.bound_run_loop);
}

#[test]
fn budget_manifest_declaration_without_grant_is_bounded() {
    // What a manifest declares is no input: only the answers count.
    let b = resolve_run_loop_budget(Some(&profile()), Some(&agent()), true);
    assert!(!b.exempt);
    assert!(b.bound_run_loop);
}

#[test]
fn budget_revoke_overrides_admin_exemption() {
    // An admin whose exempting capabilities were all revoked.
    let revoked = CapabilityCheck { resources_unbounded: false, net_bind: false, uplink: false, ..admin() };
    let b = resolve_run_loop_budget(Some(&profile()), Some(&revoked), true);
    assert!(!b.exempt);
    assert!(b.bound_run_loop);
}

#[test]
fn budget_missing_profile_is_fail_secure_bounded() {
    let b = resolve_run_loop_budget(None, Some(&agent()), true);
    assert!(!b.exempt, "an unidentifiable principal must NOT be exempt");
    assert!(b.bound_run_loop);
    assert_eq!(b.window_ticks, Some(DEFAULT_RUN_LOOP_WINDOW_TICKS));
    assert_eq!(b.mem_bytes, WASM_MAX_MEMORY_BYTES);
}

#[test]
fn budget_missing_group_config_is_fail_secure_bounded() {
    let b = resolve_run_loop_budget(Some(&profile()), None, true);
    assert!(!b.exempt, "missing answers must fail secure to bounded");
    assert!(b.bound_run_loop);
}

#[test]
fn budget_non_run_loop_capsule_is_not_bounded() {
    let b = resolve_run_loop_budget(Some(&profile()), Some(&agent()), false);
    assert!(!b.bound_run_loop);
    assert_eq!(b.window_ticks, None);
    assert_eq!(b.mem_bytes, WASM_MAX_MEMORY_BYTES);
}

#[test]
fn budget_uses_owner_memory_quota_for_bound_run_loop() {
    let mut p = profile();
    p.quotas.max_memory_bytes = 32 * 1024 * 1024;
    let b = resolve_run_loop_budget(Some(&p), Some(&agent()), true);
    assert!(b.bound_run_loop);
    assert_eq!(b.mem_bytes, 32 * 1024 * 1024);
}

#[test]
fn budget_tighter_timeout_shrinks_window() {
    let mut p = profile();
    p.quotas.max_timeout_secs = 2;
    let b = resolve_run_loop_budget(Some(&p), Some(&agent()), true);
    assert_eq!(b.window_ticks, Some(20));
}

#[test]
fn budget_long_timeout_clamps_to_default_window() {
    let mut p = profile();
    p.quotas.max_timeout_secs = 3600;
    let b = resolve_run_loop_budget(Some(&p), Some(&agent()), true);
    assert_eq!(b.window_ticks, Some(DEFAULT_RUN_LOOP_WINDOW_TICKS));
}

#[test]
fn budget_window_is_at_least_one_tick() {
    let mut p = profile();
    p.quotas.max_timeout_secs = 0;
    let b = resolve_run_loop_budget(Some(&p), Some(&agent()), true);
    assert_eq!(b.window_ticks, Some(1));
    p.quotas.max_timeout_secs = u64::MAX;
    let b = resolve_run_loop_budget(Some(&p), Some(&agent()), true);
    assert_eq!(b.window_ticks, Some(DEFAULT_RUN_LOOP_WINDOW_TICKS));
}

#[test]
fn exemption_requires_both_profile_and_groups() {
    assert!(resolve_exemption(Some(&profile()), Some(&admin())));
    assert!(!resolve_exemption(None, Some(&admin())));
    assert!(!resolve_exemption(Some(&profile()), None));
    assert!(!resolve_exemption(None, None));
}

#[test]
fn exemption_is_false_for_plain_agent() {
    assert!(!resolve_exemption(Some(&profile()), Some(&agent())));
}

#[test]
fn audit_firehose_cap_literal_pinned() {
    assert_eq!(AUDIT_FIREHOSE_CAP, "audit:read_all");
}

#[test]
fn audit_firehose_holder_true() {
    assert!(resolve_audit_firehose(Some(&profile()), Some(&admin())));
    let granted = CapabilityCheck { audit_read_all: true, ..agent() };
    assert!(resolve_audit_firehose(Some(&profile()), Some(&granted)));
}

#[test]
fn audit_firehose_fail_secure_false() {
    assert!(!resolve_audit_firehose(None, Some(&admin())));
    assert!(!resolve_audit_firehose(Some(&profile()), None));
    assert!(!resolve_audit_firehose(Some(&profile()), Some(&agent())));
}

#[test]
fn audit_firehose_revoke_overrides_admin() {
    let revoked = CapabilityCheck { audit_read_all: false, ..admin() };
    assert!(!resolve_audit_firehose(Some(&profile()), Some(&revoked)));
}

#[test]
fn audit_firehose_ignores_manifest_by_construction() {
    assert!(!resolve_audit_firehose(Some(&profile()), Some(&agent())));
    let with_cap = CapabilityCheck { audit_read_all: true, ..agent() };
    assert!(resolve_audit_firehose(Some(&profile()), Some(&with_cap)));
}

#[test]
fn rate_gate_self_heals_after_window_rolls() {
    let deny = |over| cpu_rate_deny(Some(&budgeted_profile()), Some(&agent()), 7, "alice", over);
    assert!(deny(true).is_some(), "over budget: denied");
    assert!(deny(false).is_none(), "after the window rolled: admitted again");
}

#[test]
fn rate_gate_reads_latest_group_config_snapshot() {
    let prof = budgeted_profile();
    assert!(cpu_rate_deny(Some(&prof), Some(&agent()), 7, "operator-1", true).is_some());
    let granted = CapabilityCheck { resources_unbounded: true, ..agent() };
    assert!(cpu_rate_deny(Some(&prof), Some(&granted), 7, "operator-1", true).is_none());
}

#[test]
fn rate_gate_bounded_principal_is_denied_when_over_budget() {
    let decision = cpu_rate_deny(Some(&budgeted_profile()), Some(&agent()), 7, "alice", true);
    assert_eq!(
        decision.as_deref(),
        Some("principal 'alice' exceeded CPU budget of 1000 fuel/sec")
    );
    assert_eq!(cpu_rate_deny(Some(&budgeted_profile()), Some(&agent()), 7, "alice", false), None);
}

#[test]
fn rate_gate_exempt_principal_not_denied_even_over_budget() {
    let check = CapabilityCheck { resources_unbounded: true, ..agent() };
    assert!(cpu_rate_deny(Some(&budgeted_profile()), Some(&check), 7, "uplink", true).is_none());
    assert_eq!(cpu_rate_budget(Some(&budgeted_profile()), Some(&check), 7), None);
}

#[test]
fn rate_gate_admin_with_group_config_is_never_gated() {
    assert!(cpu_rate_deny(Some(&budgeted_profile()), Some(&admin()), 7, "default", true).is_none());
}

#[test]
fn rate_gate_missing_group_config_makes_admin_bounded() {
    assert!(cpu_rate_deny(Some(&budgeted_profile()), None, 7, "default", true).is_some());
}

#[test]
fn rate_gate_zero_budget_is_unlimited() {
    let mut p = profile();
    p.quotas.max_cpu_fuel_per_sec = 0;
    assert!(cpu_rate_deny(Some(&p), Some(&agent()), 7, "alice", true).is_none());
}

#[test]
fn rate_gate_no_profile_uses_generous_default_budget() {
    assert_eq!(cpu_rate_budget(None, Some(&agent()), 7), Some(7));
    assert!(cpu_rate_deny(None, Some(&agent()), 7, "anon", false).is_none());
    assert!(cpu_rate_deny(None, Some(&agent()), 7, "anon", true).is_some());
}

#[test]
fn epoch_recv_loop_never_traps_and_resets() {
    // recv_yielded=true → Yield, flag cleared, counter reset to 0 — no
    // matter how high the counter had climbed.
    let (action, recv, windows) = epoch_decision(true, 99, 50, MAX_NO_YIELD_WINDOWS);
    assert_eq!(action, EpochAction::Yield(50));
    assert!(!recv, "flag must be cleared after reading");
    assert_eq!(windows, 0, "a recv resets the no-yield counter");
}

#[test]
fn epoch_no_recv_yields_during_grace_then_interrupts() {
    // A no-recv spinner: Yields (cooperatively, never starving) while the
    // counter is below max, then Interrupts exactly when it reaches max.
    let max = 3u32;
    // window 0 -> 1: yield
    let (a0, _, w0) = epoch_decision(false, 0, 50, max);
    assert_eq!(a0, EpochAction::Yield(50));
    assert_eq!(w0, 1);
    // window 1 -> 2: yield
    let (a1, _, w1) = epoch_decision(false, w0, 50, max);
    assert_eq!(a1, EpochAction::Yield(50));
    assert_eq!(w1, 2);
    // window 2 -> 3 == max: interrupt
    let (a2, _, w2) = epoch_decision(false, w1, 50, max);
    assert_eq!(a2, EpochAction::Interrupt);
    assert_eq!(w2, 3);
}

#[test]
fn epoch_recv_every_window_never_interrupts_driven() {
    // A loop that receives in every window, with each outcome fed back into
    // the next decision, yields forever and is never interrupted.
    let max = MAX_NO_YIELD_WINDOWS;
    let mut no_yield = 0u32;
    for window in 0..(max as u64 * 100 + 7) {
        // A recv occurred since the last window (the host fn set the flag).
        let recv_yielded = true;
        let (action, new_recv, new_windows) = epoch_decision(recv_yielded, no_yield, 50, max);
        assert_eq!(
            action,
            EpochAction::Yield(50),
            "a recv-yielding loop must Yield on window {window}, never Interrupt"
        );
        assert!(!new_recv, "the flag is always cleared after reading");
        assert_eq!(new_windows, 0, "every recv resets the no-yield counter");
        no_yield = new_windows;
    }
}

#[test]
fn epoch_single_late_recv_restores_full_grace_driven() {
    // Adversarial boundary: a spinner accrues to max-1 (one window short of
    // the trap), then a SINGLE recv arrives. That recv must reset the
    // counter to 0 so the spinner gets the FULL grace again before any
    // trap — there must be no "primed" early interrupt carried across the
    // reset. Drive `epoch_decision`'s output back into itself.
    let max = MAX_NO_YIELD_WINDOWS;
    assert!(max >= 2, "test assumes a multi-window grace");
    let mut no_yield = 0u32;
    // Spin up to max-1 (still yielding, not yet trapped).
    for _ in 0..(max - 1) {
        let (action, _, w) = epoch_decision(false, no_yield, 50, max);
        assert_eq!(action, EpochAction::Yield(50));
        no_yield = w;
    }
    assert_eq!(no_yield, max - 1, "primed one window short of the trap");
    // A single recv resets the counter.
    let (action, _, w) = epoch_decision(true, no_yield, 50, max);
    assert_eq!(action, EpochAction::Yield(50));
    assert_eq!(w, 0, "one recv at the brink restores the full grace");
    no_yield = w;
    // Now the spinner must get the FULL grace again: max-1 yields, then trap
    // exactly on the max-th — not one window early.
    for window in 0..(max - 1) {
        let (action, _, w) = epoch_decision(false, no_yield, 50, max);
        assert_eq!(
            action,
            EpochAction::Yield(50),
            "post-reset grace window {window} must Yield, not trap early"
        );
        no_yield = w;
    }
    let (action, _, _) = epoch_decision(false, no_yield, 50, max);
    assert_eq!(
        action,
        EpochAction::Interrupt,
        "trap lands on the full max-th post-reset window, not earlier"
    );
}

#[test]
fn epoch_interrupt_is_immediate_when_max_is_one() {
    // With max=1 the very first no-recv window traps.
    let (action, _, windows) = epoch_decision(false, 0, 10, 1);
    assert_eq!(action, EpochAction::Interrupt);
    assert_eq!(windows, 1);
}

#[test]
fn epoch_counter_does_not_overflow() {
    // saturating_add guards a pathological counter near u32::MAX.
    let (action, _, windows) = epoch_decision(false, u32::MAX, 10, MAX_NO_YIELD_WINDOWS);
    assert_eq!(action, EpochAction::Interrupt);
    assert_eq!(windows, u32::MAX);
}

#[test]
fn exempt_epoch_action_always_yields_never_interrupts() {
    // The exempt run-loop policy is unbounded: it must ALWAYS cooperatively
    // yield the worker (re-arming by `window_ticks`) and NEVER trap, for any
    // window value — the guarantee that keeps an exempt capsule from
    // starving the daemon without ever bounding its CPU.
    for ticks in [1_u64, 10, 50, DEFAULT_RUN_LOOP_WINDOW_TICKS, u64::MAX] {
        assert_eq!(
            exempt_epoch_action(ticks),
            EpochAction::Yield(ticks),
            "exempt policy must yield (never interrupt) for window {ticks}"
        );
    }
}

#[test]
fn check_principal_enabled_allows_enabled_profile() {
    check_principal_enabled(&profile(), "alice").expect("enabled profile must pass");
}

#[test]
fn check_principal_enabled_rejects_disabled_profile() {
    let mut p = profile();
    p.enabled = false;
    assert_eq!(
        check_principal_enabled(&p, "bob"),
        Err(CapsuleError::WasmError("principal 'bob' is disabled".to_string()))
    );
}

#[test]
fn check_principal_enabled_denies_even_for_admin_group() {
    // Capabilities are no input: a disabled principal is refused.
    let mut p = profile();
    p.enabled = false;
    assert!(check_principal_enabled(&p, "admin_user").is_err());
}
