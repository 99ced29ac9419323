//! Resource bounds: who is exempt, how long a run loop may go without
//! receiving, how much memory it gets, and when a call is refused for CPU use.
//!
//! Exemption comes from the permission system alone and fails secure: without
//! a profile or without an answer of the permission system nobody is exempt.

use vstd::prelude::*;
use vstd::string::*;

use crate::error::CapsuleError;
use crate::text::{decimal, decimal_text};

verus! {

/// Wall-clock bound of a pooled call, in seconds.
pub const WASM_CAPSULE_TIMEOUT_SECS: u64 = 300;

/// Length of an epoch tick, in milliseconds.
pub const EPOCH_TICK_MILLIS: u64 = 100;

/// Linear memory of a capsule, in bytes.
pub const WASM_MAX_MEMORY_BYTES: usize = 67_108_864;

/// Length of a bound run loop's epoch window, in ticks, where the owner pins
/// no shorter one.
pub const DEFAULT_RUN_LOOP_WINDOW_TICKS: u64 = 50;

/// How many windows in a row a bound run loop may go without receiving.
pub const MAX_NO_YIELD_WINDOWS: u32 = 3;

/// Fuel that a pooled call starts with.
pub const INTERCEPTOR_FUEL_BUDGET: u64 = 10_000_000_000;

/// The capability that opens the audit feed of every principal.
pub const AUDIT_FIREHOSE_CAP: &'static str = "audit:read_all";

/// The resource limits of a principal.
#[derive(Debug, Clone, Copy, PartialEq, Eq, Structural)]
pub struct Quotas {
    pub max_memory_bytes: u64,
    pub max_timeout_secs: u64,
    pub max_cpu_fuel_per_sec: u64,
}

/// What the runtime reads of a principal's profile.
#[derive(Debug, Clone, Copy, PartialEq, Eq, Structural)]
pub struct PrincipalProfile {
    pub enabled: bool,
    pub quotas: Quotas,
}

/// The answers of the permission system for one principal, after groups,
/// grants and revokes.
#[derive(Debug, Clone, Copy, PartialEq, Eq, Structural)]
pub struct CapabilityCheck {
    /// Holds the capability of unbounded resources.
    pub resources_unbounded: bool,
    /// Holds the capability of binding sockets.
    pub net_bind: bool,
    /// Holds the capability of being an uplink.
    pub uplink: bool,
    /// Holds [`AUDIT_FIREHOSE_CAP`].
    pub audit_read_all: bool,
}

/// Whether the answers hold one of the capabilities that exempt.
pub open spec fn holds_exemption(check: CapabilityCheck) -> bool {
    check.resources_unbounded || check.net_bind || check.uplink
}

/// Whether a principal is exempt from the CPU and memory bounds.
pub open spec fn exempt(
    profile: Option<&PrincipalProfile>,
    check: Option<&CapabilityCheck>,
) -> bool {
    profile is Some && check is Some && holds_exemption(*check->0)
}

/// Whether a principal is exempt. The answers are absent where no group
/// configuration is at hand.
pub fn resolve_exemption(
    profile: Option<&PrincipalProfile>,
    check: Option<&CapabilityCheck>,
) -> (r: bool)
    ensures
        r == exempt(profile, check),
{
    match (profile, check) {
        (Some(_), Some(answers)) => answers.resources_unbounded || answers.net_bind
            || answers.uplink,
        _ => false,
    }
}

/// Whether a principal sees the audit feed of every principal.
pub fn resolve_audit_firehose(
    profile: Option<&PrincipalProfile>,
    check: Option<&CapabilityCheck>,
) -> (r: bool)
    ensures
        r == (profile is Some && check is Some && check->0.audit_read_all),
{
    match (profile, check) {
        (Some(_), Some(answers)) => answers.audit_read_all,
        _ => false,
    }
}

/// The CPU budget, in fuel per second, that a call is held to; `None` where it
/// is held to none. A budget of zero is no limit.
pub open spec fn cpu_budget(
    profile: Option<&PrincipalProfile>,
    check: Option<&CapabilityCheck>,
    default_budget: u64,
) -> Option<u64> {
    let budget = match profile {
        Some(p) => p.quotas.max_cpu_fuel_per_sec,
        None => default_budget,
    };
    if exempt(profile, check) || budget == 0 {
        None
    } else {
        Some(budget)
    }
}

/// The budget to ask the rate limiter about, if it is to be asked at all.
pub fn cpu_rate_budget(
    profile: Option<&PrincipalProfile>,
    check: Option<&CapabilityCheck>,
    default_budget: u64,
) -> (r: Option<u64>)
    ensures
        r == cpu_budget(profile, check, default_budget),
{
    if resolve_exemption(profile, check) {
        return None;
    }
    let budget: u64 = match profile {
        Some(p) => p.quotas.max_cpu_fuel_per_sec,
        None => default_budget,
    };
    if budget > 0 {
        Some(budget)
    } else {
        None
    }
}

/// The reason of a refusal for CPU use.
pub open spec fn cpu_refusal(principal: Seq<char>, budget: u64) -> Seq<char> {
    "principal '"@ + principal + "' exceeded CPU budget of "@ + decimal(budget as nat)
        + " fuel/sec"@
}

/// Decides whether a call is refused for CPU use. `over_budget` is the rate
/// limiter's answer for the budget of [`cpu_rate_budget`]; it counts only where
/// there is such a budget.
pub fn cpu_rate_deny(
    profile: Option<&PrincipalProfile>,
    check: Option<&CapabilityCheck>,
    default_budget: u64,
    principal: &str,
    over_budget: bool,
) -> (r: Option<String>)
    ensures
        match cpu_budget(profile, check, default_budget) {
            Some(budget) => match r {
                Some(reason) => over_budget && reason@ == cpu_refusal(principal@, budget),
                None => !over_budget,
            },
            None => r is None,
        },
{
    match cpu_rate_budget(profile, check, default_budget) {
        Some(budget) => {
            if !over_budget {
                return None;
            }
            let mut reason = "principal '".to_owned();
            reason.append(principal);
            reason.append("' exceeded CPU budget of ");
            let digits = decimal_text(budget);
            reason.append(digits.as_str());
            reason.append(" fuel/sec");
            Some(reason)
        },
        None => None,
    }
}

/// The resource bound of a capsule's run loop.
#[derive(Debug, Clone, Copy, PartialEq, Eq, Structural)]
pub struct RunLoopBudget {
    /// The run loop is never interrupted.
    pub exempt: bool,
    /// The capsule has a run loop and it is bound.
    pub bound_run_loop: bool,
    /// Epoch window of a bound run loop, in ticks.
    pub window_ticks: Option<u64>,
    /// Linear memory ceiling.
    pub mem_bytes: usize,
}

/// The epoch window for an owner's timeout: the timeout in ticks, at least one
/// and never longer than the default window.
pub open spec fn window_for(timeout_secs: u64) -> int {
    let ticks = timeout_secs * 1000 / EPOCH_TICK_MILLIS as int;
    if ticks < 1 {
        1
    } else if ticks > DEFAULT_RUN_LOOP_WINDOW_TICKS {
        DEFAULT_RUN_LOOP_WINDOW_TICKS as int
    } else {
        ticks
    }
}

/// The run-loop bound for an owner.
pub open spec fn run_loop_budget(
    profile: Option<&PrincipalProfile>,
    check: Option<&CapabilityCheck>,
    has_run_export: bool,
) -> RunLoopBudget {
    let is_exempt = exempt(profile, check);
    if is_exempt || !has_run_export {
        RunLoopBudget {
            exempt: is_exempt,
            bound_run_loop: false,
            window_ticks: None,
            mem_bytes: WASM_MAX_MEMORY_BYTES,
        }
    } else {
        RunLoopBudget {
            exempt: false,
            bound_run_loop: true,
            window_ticks: Some(
                match profile {
                    Some(p) => window_for(p.quotas.max_timeout_secs) as u64,
                    None => DEFAULT_RUN_LOOP_WINDOW_TICKS,
                },
            ),
            mem_bytes: match profile {
                Some(p) => if p.quotas.max_memory_bytes <= usize::MAX {
                    p.quotas.max_memory_bytes as usize
                } else {
                    usize::MAX
                },
                None => WASM_MAX_MEMORY_BYTES,
            },
        }
    }
}

/// Resolves the run-loop bound for an owner. Every missing input lands on a
/// finite window and the default memory.
pub fn resolve_run_loop_budget(
    profile: Option<&PrincipalProfile>,
    check: Option<&CapabilityCheck>,
    has_run_export: bool,
) -> (r: RunLoopBudget)
    ensures
        r == run_loop_budget(profile, check, has_run_export),
{
    let exempt = resolve_exemption(profile, check);
    let bound_run_loop = has_run_export && !exempt;
    let window_ticks: Option<u64> = if bound_run_loop {
        Some(
            match profile {
                Some(p) => {
                    let millis: u64 = match p.quotas.max_timeout_secs.checked_mul(1000) {
                        Some(millis) => millis,
                        None => u64::MAX,
                    };
                    let by_secs: u64 = millis / EPOCH_TICK_MILLIS;
                    if by_secs < 1 {
                        1
                    } else if by_secs > DEFAULT_RUN_LOOP_WINDOW_TICKS {
                        DEFAULT_RUN_LOOP_WINDOW_TICKS
                    } else {
                        by_secs
                    }
                },
                None => DEFAULT_RUN_LOOP_WINDOW_TICKS,
            },
        )
    } else {
        None
    };
    let mem_bytes: usize = if bound_run_loop {
        match profile {
            Some(p) => if p.quotas.max_memory_bytes <= usize::MAX as u64 {
                p.quotas.max_memory_bytes as usize
            } else {
                usize::MAX
            },
            None => WASM_MAX_MEMORY_BYTES,
        }
    } else {
        WASM_MAX_MEMORY_BYTES
    };
    RunLoopBudget { exempt, bound_run_loop, window_ticks, mem_bytes }
}

/// What happens when an epoch window of a run loop ends.
#[derive(Debug, Clone, Copy, PartialEq, Eq, Structural)]
pub enum EpochAction {
    /// Yield the worker and re-arm the deadline by this many ticks.
    Yield(u64),
    /// Trap the guest.
    Interrupt,
}

/// The number of windows without receiving, after one more window.
pub open spec fn idle_windows(received: bool, before: nat) -> nat {
    if received {
        0
    } else if before < u32::MAX {
        before + 1
    } else {
        u32::MAX as nat
    }
}

/// Whether an action and a count are the right ones at the end of a window.
pub open spec fn window_ends(
    received: bool,
    before: u32,
    window_ticks: u64,
    max: u32,
    action: EpochAction,
    after: u32,
) -> bool {
    &&& after == idle_windows(received, before as nat)
    &&& action == if !received && after >= max {
        EpochAction::Interrupt
    } else {
        EpochAction::Yield(window_ticks)
    }
}

/// Decides what happens when a window of a bound run loop ends. A loop that
/// received in the window starts afresh; one that did not is interrupted once
/// it has gone `max` windows in a row without receiving, and yields the worker
/// until then.
///
/// Returns the action, the flag for the next window and the count of windows
/// without receiving.
pub fn epoch_decision(
    recv_yielded: bool,
    no_yield_windows: u32,
    window_ticks: u64,
    max: u32,
) -> (r: (EpochAction, bool, u32))
    ensures
        r.2 == idle_windows(recv_yielded, no_yield_windows as nat),
        r.1 == false,
        r.0 == if !recv_yielded && r.2 >= max {
            EpochAction::Interrupt
        } else {
            EpochAction::Yield(window_ticks)
        },
        window_ends(recv_yielded, no_yield_windows, window_ticks, max, r.0, r.2),
{
    if recv_yielded {
        (EpochAction::Yield(window_ticks), false, 0)
    } else {
        let next: u32 = no_yield_windows.saturating_add(1);
        if next >= max {
            (EpochAction::Interrupt, false, next)
        } else {
            (EpochAction::Yield(window_ticks), false, next)
        }
    }
}

/// An exempt run loop yields the worker at every window and is never
/// interrupted.
pub fn exempt_epoch_action(window_ticks: u64) -> (r: EpochAction)
    ensures
        r == EpochAction::Yield(window_ticks),
{
    EpochAction::Yield(window_ticks)
}

/// The count of windows without receiving after a run of windows, each given
/// by whether the loop received in it.
pub open spec fn idle_after(windows: Seq<bool>) -> nat
    decreases windows.len(),
{
    if windows.len() == 0 {
        0
    } else {
        idle_windows(windows.last(), idle_after(windows.drop_last()))
    }
}

/// Whether a run loop is interrupted at the end of a run of windows.
pub open spec fn interrupted_after(windows: Seq<bool>, max: u32) -> bool {
    windows.len() > 0 && !windows.last() && idle_after(windows) >= max
}

/// Whether the last `n` windows all passed without receiving.
pub open spec fn last_idle(windows: Seq<bool>, n: int) -> bool {
    &&& n <= windows.len()
    &&& forall|i: int| windows.len() - n <= i < windows.len() ==> !(#[trigger] windows[i])
}

proof fn lemma_idle_after(windows: Seq<bool>, n: int)
    requires
        0 <= n <= u32::MAX,
    ensures
        idle_after(windows) >= n <==> last_idle(windows, n),
    decreases windows.len(),
{
    if windows.len() > 0 && n > 0 {
        let front = windows.drop_last();
        lemma_idle_after(front, n - 1);
        if last_idle(windows, n) {
            assert forall|i: int| front.len() - (n - 1) <= i < front.len() implies !(
            #[trigger] front[i]) by {
                assert(!windows[i]);
            }
            assert(!windows[windows.len() - 1]);
        }
        if !windows.last() && last_idle(front, n - 1) {
            assert forall|i: int| windows.len() - n <= i < windows.len() implies !(
            #[trigger] windows[i]) by {
                if i < front.len() {
                    assert(!front[i]);
                }
            }
        }
        if idle_after(front) >= u32::MAX {
            lemma_idle_after(front, n - 1);
        }
    }
}

/// A bound run loop is interrupted exactly when its last `max` windows all
/// passed without receiving. So a loop that receives in every window is never
/// interrupted, one that never receives is interrupted at window `max`, and a
/// single late receive restores the full grace.
pub proof fn interrupted_exactly_after_max_idle_windows(windows: Seq<bool>, max: u32)
    requires
        max > 0,
    ensures
        interrupted_after(windows, max) <==> last_idle(windows, max as int),
{
    lemma_idle_after(windows, max as int);
    if last_idle(windows, max as int) {
        assert(!windows[windows.len() - 1]);
    }
}

/// Without a profile, or without the permission system's answers, nobody is
/// exempt and nobody gets the audit feed: a run loop is then bound.
pub proof fn missing_inputs_are_bounded(
    profile: Option<&PrincipalProfile>,
    check: Option<&CapabilityCheck>,
    has_run_export: bool,
)
    requires
        profile is None || check is None,
    ensures
        !exempt(profile, check),
        run_loop_budget(profile, check, has_run_export).bound_run_loop == has_run_export,
        !run_loop_budget(profile, check, has_run_export).exempt,
{
}

/// The window of a bound run loop is finite: at least one tick and never
/// longer than the default.
pub proof fn bound_windows_are_finite(
    profile: Option<&PrincipalProfile>,
    check: Option<&CapabilityCheck>,
    has_run_export: bool,
)
    ensures
        ({
            let b = run_loop_budget(profile, check, has_run_export);
            &&& b.bound_run_loop == (b.window_ticks is Some)
            &&& b.window_ticks is Some ==> 1 <= b.window_ticks->0 <= DEFAULT_RUN_LOOP_WINDOW_TICKS
            &&& !(b.exempt && b.bound_run_loop)
        }),
{
}

/// Refuses a call whose principal is disabled.
pub fn check_principal_enabled(profile: &PrincipalProfile, invoking: &str) -> (r: Result<
    (),
    CapsuleError,
>)
    ensures
        match r {
            Ok(()) => profile.enabled,
            Err(CapsuleError::WasmError(m)) => !profile.enabled && m@ == "principal '"@ + invoking@
                + "' is disabled"@,
            Err(_) => false,
        },
{
    if profile.enabled {
        return Ok(());
    }
    let mut message = "principal '".to_owned();
    message.append(invoking);
    message.append("' is disabled");
    Err(CapsuleError::WasmError(message))
}

/// Exactly the holders of one of the three capabilities are exempt, and only
/// where both the profile and the permission system's answers are known.
pub proof fn exemption_takes_a_granted_capability(
    profile: Option<&PrincipalProfile>,
    check: Option<&CapabilityCheck>,
    has_run_export: bool,
)
    ensures
        exempt(profile, check) <==> profile is Some && check is Some && (
        check->0.resources_unbounded || check->0.net_bind || check->0.uplink),
        run_loop_budget(profile, check, has_run_export).exempt == exempt(profile, check),
        run_loop_budget(profile, check, has_run_export).bound_run_loop <==> has_run_export
            && !exempt(profile, check),
{
}

/// The window of a bound run loop is its owner's timeout in whole ticks, cut to
/// between one tick and the default.
pub proof fn run_loop_windows_follow_the_timeout(
    profile: &PrincipalProfile,
    check: Option<&CapabilityCheck>,
    w: u64,
)
    requires
        run_loop_budget(Some(profile), check, true).window_ticks == Some(w),
    ensures
        ({
            let millis = profile.quotas.max_timeout_secs * 1000;
            &&& millis < 100 ==> w == 1
            &&& millis >= 50 * 100 ==> w
                == 50
            &&& 100 <= millis < 50 * 100
                ==> w * 100 <= millis < (w + 1) * 100
        }),
{
}

/// Without a profile a bound run loop gets the default window and the default
/// memory; with one it gets the memory of the profile. A capsule that is not
/// bound gets the default memory.
pub proof fn run_loop_memory_follows_the_profile(
    profile: Option<&PrincipalProfile>,
    check: Option<&CapabilityCheck>,
    has_run_export: bool,
)
    ensures
        ({
            let b = run_loop_budget(profile, check, has_run_export);
            &&& b.bound_run_loop && profile is Some && profile->0.quotas.max_memory_bytes
                <= usize::MAX ==> b.mem_bytes == profile->0.quotas.max_memory_bytes
            &&& b.bound_run_loop && profile is Some && profile->0.quotas.max_memory_bytes
                > usize::MAX ==> b.mem_bytes == usize::MAX
            &&& b.bound_run_loop && profile is None ==> b.mem_bytes == 67_108_864
                && b.window_ticks == Some(50u64)
            &&& !b.bound_run_loop ==> b.mem_bytes == 67_108_864 && b.window_ticks is None
        }),
{
}

/// A call is held to the budget of its profile, or to the default one without a
/// profile, exactly where that is not zero and the principal is not exempt.
pub proof fn calls_are_held_to_their_budget(
    profile: Option<&PrincipalProfile>,
    check: Option<&CapabilityCheck>,
    default_budget: u64,
    budget: u64,
)
    ensures
        cpu_budget(profile, check, default_budget) == Some(budget) <==> budget > 0 && (profile
            is Some ==> budget == profile->0.quotas.max_cpu_fuel_per_sec) && (profile is None
            ==> budget == default_budget) && !(profile is Some && check is Some && (
        check->0.resources_unbounded || check->0.net_bind || check->0.uplink)),
{
}

/// A window in which the loop received restores the full grace; any other uses
/// up one more window, and the count never falls by itself.
pub proof fn receiving_restores_the_grace(before: nat)
    requires
        before < u32::MAX,
    ensures
        idle_windows(true, before) == 0,
        idle_windows(false, before) == before + 1,
{
}

/// Whether the decisions at the ends of windows are those of one run loop, from
/// its start.
pub open spec fn is_window_course(
    windows: Seq<bool>,
    ticks: u64,
    max: u32,
    actions: Seq<EpochAction>,
    counts: Seq<u32>,
) -> bool {
    &&& actions.len() == windows.len()
    &&& counts.len() == windows.len() + 1
    &&& counts[0] == 0
    &&& forall|i: int|
        0 <= i < windows.len() ==> window_ends(
            #[trigger] windows[i],
            counts[i],
            ticks,
            max,
            actions[i],
            counts[i + 1],
        )
}

proof fn lemma_counts(
    windows: Seq<bool>,
    ticks: u64,
    max: u32,
    actions: Seq<EpochAction>,
    counts: Seq<u32>,
    j: int,
)
    requires
        is_window_course(windows, ticks, max, actions, counts),
        0 <= j <= windows.len(),
    ensures
        counts[j] == idle_after(windows.take(j)),
    decreases j,
{
    if j > 0 {
        lemma_counts(windows, ticks, max, actions, counts, j - 1);
        assert(windows.take(j).drop_last() =~= windows.take(j - 1));
        assert(windows.take(j).last() == windows[j - 1]);
        assert(window_ends(
            windows[j - 1],
            counts[j - 1],
            ticks,
            max,
            actions[j - 1],
            counts[j - 1 + 1],
        ));
    }
}

/// Over the whole course of a run loop, the end of a window interrupts it exactly
/// where that window and the ones before it, `max` in all, passed without
/// receiving; every other end of a window yields the worker for one more window.
pub proof fn run_loops_are_interrupted_after_idle_windows(
    windows: Seq<bool>,
    ticks: u64,
    max: u32,
    actions: Seq<EpochAction>,
    counts: Seq<u32>,
    j: int,
)
    requires
        is_window_course(windows, ticks, max, actions, counts),
        0 <= j < windows.len(),
        max > 0,
    ensures
        actions[j] is Interrupt <==> j + 1 >= max && forall|i: int|
            j + 1 - max <= i <= j ==> !(#[trigger] windows[i]),
        !(actions[j] is Interrupt) ==> actions[j] == EpochAction::Yield(ticks),
{
    lemma_counts(windows, ticks, max, actions, counts, j + 1);
    let seen = windows.take(j + 1);
    lemma_idle_after(seen, max as int);
    assert(window_ends(windows[j], counts[j], ticks, max, actions[j], counts[j + 1]));
    if last_idle(seen, max as int) {
        assert forall|i: int| j + 1 - max <= i <= j implies !(#[trigger] windows[i]) by {
            assert(!seen[i]);
        }
        assert(!windows[j]);
    }
    if j + 1 >= max && forall|i: int| j + 1 - max <= i <= j ==> !(#[trigger] windows[i]) {
        assert forall|i: int| seen.len() - max <= i < seen.len() implies !(#[trigger] seen[i]) by {
            assert(!windows[i]);
        }
        assert(!windows[j]);
    }
}

}
