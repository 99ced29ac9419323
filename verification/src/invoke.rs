//! The course of an interceptor call, step by step.
//!
//! A call is admitted before it costs anything: the principal must be enabled
//! and within its CPU budget, and its workspace must be resolvable. Only then
//! is an instance taken, set up for the principal and called. What the call
//! used is charged to the principal.

use vstd::prelude::*;
use vstd::string::*;

use crate::budget::{
    check_principal_enabled, cpu_budget, cpu_rate_budget, cpu_rate_deny, cpu_refusal,
    CapabilityCheck, PrincipalProfile, EPOCH_TICK_MILLIS, INTERCEPTOR_FUEL_BUDGET,
};
use crate::engine::WasmEngine;
use crate::error::CapsuleError;
use crate::host_state::{
    caller_principal, same_but_for_invocation, token_installed, CallerContext, CancelTokens,
    HostState, PrincipalVfsBundle, SecretScope, DEFAULT_PRINCIPAL,
};
use crate::load::{entry_failure, is_entry_error};

verus! {

/// What a guest's hook trigger returns.
#[derive(Debug, Clone, PartialEq, Eq)]
pub struct HookTriggerOutput {
    /// The action that the capsule asks for.
    pub action: String,
    /// A payload for it.
    pub data: Option<String>,
}

/// What the runtime around an engine offers.
#[derive(Debug, Clone, Copy)]
pub struct Services {
    /// Whether profiles of principals are kept.
    pub profile_cache: bool,
    /// Whether workspaces are kept per principal.
    pub overlay_registry: bool,
    /// The profile that applies where none is kept.
    pub default_profile: PrincipalProfile,
    /// The CPU budget that applies where no profile is kept.
    pub default_cpu_budget: u64,
}

/// How an instance is set up for a call.
#[derive(Debug)]
pub struct CallSetup {
    /// Epoch deadline, in ticks; the calls of a daemon have none.
    pub deadline: Option<u64>,
    /// Fuel to start with.
    pub fuel: u64,
    /// Memory ceiling, in bytes.
    pub memory: usize,
    /// The principal that the call counts for.
    pub principal: String,
    /// The message that the call answers, where there is one. The overlays of
    /// its principal are installed; none where it names no valid one.
    pub caller: Option<CallerContext>,
    /// The principal's own profile.
    pub profile: Option<PrincipalProfile>,
}

/// How a guest call ended.
#[derive(Debug)]
pub enum CallOutcome {
    Returned(HookTriggerOutput),
    /// The guest has no hook trigger.
    Missing(String),
    /// The guest failed.
    Failed(String),
}

/// The result of an interceptor call that was not an error.
#[derive(Debug)]
pub enum Interception {
    /// What the guest returned.
    Output(HookTriggerOutput),
    /// The call was refused. The chain of interceptors stops here.
    Deny { reason: String },
}

/// How far a call has come.
#[derive(Debug)]
pub enum InvokePhase {
    Start,
    /// Waits for the profile of the principal.
    ResolvingProfile { principal: String, caller: Option<CallerContext> },
    /// Waits for the rate limiter's answer.
    AskingRate {
        principal: String,
        caller: Option<CallerContext>,
        profile: Option<PrincipalProfile>,
        check: Option<CapabilityCheck>,
    },
    /// Waits for the workspace of the principal.
    ResolvingOverlay { principal: String, caller: Option<CallerContext>, profile: Option<PrincipalProfile> },
    /// Waits for a free instance.
    CheckingOut { principal: String, caller: Option<CallerContext>, profile: Option<PrincipalProfile> },
    /// Waits for the guest.
    Calling { principal: String },
    Over,
}

/// What happened.
#[derive(Debug)]
pub enum InvokeEvent {
    /// The call begins. There is a caller where the call answers a message.
    Begin { caller: Option<CallerContext> },
    /// The profile of the principal, or why it could not be loaded, and the
    /// permission system's answers where they are known.
    ProfileResolved { profile: Result<PrincipalProfile, String>, check: Option<CapabilityCheck> },
    /// Whether the principal is over the budget that was asked about.
    RateAnswered { over_budget: bool },
    OverlayResolved(Result<(), String>),
    /// Whether an instance could be had.
    CheckedOut(bool),
    /// How the guest call ended and how much fuel was left, where that can be
    /// told.
    Called { outcome: CallOutcome, fuel_left: Option<u64> },
}

/// What to do next.
#[derive(Debug)]
pub enum InvokeAction {
    ResolveProfile(String),
    AskRate { principal: String, budget: u64 },
    ResolveOverlay(String),
    CheckOut,
    /// Set the instance up and call the guest.
    Call(CallSetup),
    /// It is over. Where the guest was called, what it used is charged.
    Finish { charge: Option<FuelCharge>, result: Result<Interception, CapsuleError> },
}

/// Fuel that a principal used. It counts in total and for the principal's rate.
#[derive(Debug, Clone, PartialEq, Eq)]
pub struct FuelCharge {
    pub principal: String,
    pub fuel: u64,
}

/// Whether an event is the one that a phase waits for.
pub open spec fn expects(phase: InvokePhase, event: InvokeEvent) -> bool {
    match phase {
        InvokePhase::Start => event is Begin,
        InvokePhase::ResolvingProfile { .. } => event is ProfileResolved,
        InvokePhase::AskingRate { .. } => event is RateAnswered,
        InvokePhase::ResolvingOverlay { .. } => event is OverlayResolved,
        InvokePhase::CheckingOut { .. } => event is CheckedOut,
        InvokePhase::Calling { .. } => event is Called,
        InvokePhase::Over => false,
    }
}

/// The principal that a call counts for: the caller's, else the owner's, else
/// the default one.
pub open spec fn invoking_principal(
    caller: Option<CallerContext>,
    owner: Option<String>,
) -> Seq<char> {
    match caller_principal(caller) {
        Some(p) => p,
        None => match owner {
            Some(o) => o@,
            None => DEFAULT_PRINCIPAL@,
        },
    }
}

/// Whether a call ends with a guest error of the given text and without a
/// charge.
pub open spec fn invoke_fails(after: InvokePhase, action: InvokeAction, message: Seq<char>) -> bool {
    after == InvokePhase::Over && match action {
        InvokeAction::Finish { charge, result: Err(CapsuleError::WasmError(m)) } => charge is None
            && m@ == message,
        _ => false,
    }
}

/// Whether a call ends with an operation that is not offered.
pub open spec fn invoke_unsupported(
    after: InvokePhase,
    action: InvokeAction,
    message: Seq<char>,
) -> bool {
    after == InvokePhase::Over && match action {
        InvokeAction::Finish { charge, result: Err(CapsuleError::NotSupported(m)) } => charge
            is None && m@ == message,
        _ => false,
    }
}

/// Whether a call goes on to take an instance, by way of the workspace of the
/// principal where workspaces are kept.
pub open spec fn goes_to_workspace(
    services: Services,
    principal: String,
    caller: Option<CallerContext>,
    profile: Option<PrincipalProfile>,
    after: InvokePhase,
    action: InvokeAction,
) -> bool {
    if services.overlay_registry {
        &&& after == (InvokePhase::ResolvingOverlay { principal, caller, profile })
        &&& action == InvokeAction::ResolveOverlay(principal)
    } else {
        &&& after == (InvokePhase::CheckingOut { principal, caller, profile })
        &&& action == InvokeAction::CheckOut
    }
}

/// Whether a call goes on to the rate limiter, or past it where there is
/// nothing to ask it.
pub open spec fn goes_to_rate(
    services: Services,
    principal: String,
    caller: Option<CallerContext>,
    profile: Option<PrincipalProfile>,
    check: Option<CapabilityCheck>,
    after: InvokePhase,
    action: InvokeAction,
) -> bool {
    match cpu_budget(as_ref(&profile), as_ref(&check), services.default_cpu_budget) {
        Some(budget) => {
            &&& after == (InvokePhase::AskingRate { principal, caller, profile, check })
            &&& action == (InvokeAction::AskRate { principal, budget })
        },
        None => goes_to_workspace(services, principal, caller, profile, after, action),
    }
}

/// An optional value by reference.
pub open spec fn as_ref<T>(x: &Option<T>) -> Option<&T> {
    match x {
        Some(v) => Some(v),
        None => None,
    }
}

/// The deadline that a timeout in seconds amounts to, in ticks.
pub open spec fn deadline_ticks(timeout_secs: u64) -> int {
    (if timeout_secs * 1000 <= u64::MAX {
        timeout_secs * 1000
    } else {
        u64::MAX as int
    }) / EPOCH_TICK_MILLIS as int
}

/// Whether a capsule is a daemon: it has uplinks or is one.
pub open spec fn is_daemon(engine: WasmEngine) -> bool {
    engine.manifest.uplinks@.len() > 0 || engine.manifest.capabilities.uplink
}

/// Whether a setup is the right one for a principal and its profile.
pub open spec fn is_setup(
    setup: CallSetup,
    engine: WasmEngine,
    services: Services,
    principal: String,
    caller: Option<CallerContext>,
    profile: Option<PrincipalProfile>,
) -> bool {
    let applied = match profile {
        Some(p) => p,
        None => services.default_profile,
    };
    &&& setup.deadline == if is_daemon(engine) {
        None
    } else {
        Some(deadline_ticks(applied.quotas.max_timeout_secs) as u64)
    }
    &&& setup.fuel == INTERCEPTOR_FUEL_BUDGET
    &&& setup.memory == if applied.quotas.max_memory_bytes <= usize::MAX {
        applied.quotas.max_memory_bytes as usize
    } else {
        usize::MAX
    }
    &&& setup.principal@ == principal@
    &&& setup.caller == caller
    &&& setup.profile == profile
}

/// The fuel that a call used: what is missing of what it started with. Where
/// the rest cannot be told, all of it counts as used.
pub open spec fn fuel_used(fuel_left: Option<u64>) -> int {
    let left = match fuel_left {
        Some(n) => n as int,
        None => 0,
    };
    if left >= INTERCEPTOR_FUEL_BUDGET {
        0
    } else {
        INTERCEPTOR_FUEL_BUDGET - left
    }
}

/// Whether a result is the one for a guest call's outcome.
pub open spec fn is_call_result(
    result: Result<Interception, CapsuleError>,
    outcome: CallOutcome,
) -> bool {
    match outcome {
        CallOutcome::Returned(output) => result == Ok::<Interception, CapsuleError>(
            Interception::Output(output),
        ),
        CallOutcome::Missing(e) => result matches Err(x) && is_entry_error(
            x,
            "capsule does not export `astrid-hook-trigger`: "@ + e@,
        ),
        CallOutcome::Failed(e) => result matches Err(CapsuleError::WasmError(m)) && m@
            == "astrid_hook_trigger failed: "@ + e@,
    }
}

/// Whether a phase and an action are the right ones after an event.
pub open spec fn invoke_next(
    engine: WasmEngine,
    services: Services,
    before: InvokePhase,
    event: InvokeEvent,
    after: InvokePhase,
    action: InvokeAction,
) -> bool {
    match (before, event) {
        (InvokePhase::Start, InvokeEvent::Begin { caller }) => if !engine.holdings.pool {
            invoke_unsupported(
                after,
                action,
                "plugin handles interceptors internally via IPC auto-subscribe"@,
            )
        } else {
            exists|principal: String| #[trigger]
                principal@ == invoking_principal(caller, engine.owner_principal) && if services.profile_cache {
                    &&& after == (InvokePhase::ResolvingProfile { principal, caller })
                    &&& action == InvokeAction::ResolveProfile(principal)
                } else {
                    goes_to_rate(services, principal, caller, None, None, after, action)
                }
        },
        (
            InvokePhase::ResolvingProfile { principal, caller },
            InvokeEvent::ProfileResolved { profile, check },
        ) => match profile {
            Err(e) => invoke_fails(
                after,
                action,
                "principal '"@ + principal@ + "' profile invalid: "@ + e@,
            ),
            Ok(p) => if !p.enabled {
                invoke_fails(after, action, "principal '"@ + principal@ + "' is disabled"@)
            } else {
                goes_to_rate(services, principal, caller, Some(p), check, after, action)
            },
        },
        (
            InvokePhase::AskingRate { principal, caller, profile, check },
            InvokeEvent::RateAnswered { over_budget },
        ) => match cpu_budget(as_ref(&profile), as_ref(&check), services.default_cpu_budget) {
            Some(budget) if over_budget => after == InvokePhase::Over && match action {
                InvokeAction::Finish { charge, result: Ok(Interception::Deny { reason }) } =>
                    charge is None && reason@ == cpu_refusal(principal@, budget),
                _ => false,
            },
            _ => goes_to_workspace(services, principal, caller, profile, after, action),
        },
        (
            InvokePhase::ResolvingOverlay { principal, caller, profile },
            InvokeEvent::OverlayResolved(resolved),
        ) => match resolved {
            Err(e) => invoke_fails(
                after,
                action,
                "principal '"@ + principal@ + "' overlay resolve failed: "@ + e@,
            ),
            Ok(()) => after == (InvokePhase::CheckingOut { principal, caller, profile })
                && action == InvokeAction::CheckOut,
        },
        (
            InvokePhase::CheckingOut { principal, caller, profile },
            InvokeEvent::CheckedOut(available),
        ) => if available {
            &&& after == (InvokePhase::Calling { principal })
            &&& action matches InvokeAction::Call(setup) && is_setup(
                setup,
                engine,
                services,
                principal,
                caller,
                profile,
            )
        } else {
            invoke_unsupported(after, action, "no capsule instance available"@)
        },
        (InvokePhase::Calling { principal }, InvokeEvent::Called { outcome, fuel_left }) => after
            == InvokePhase::Over && match action {
            InvokeAction::Finish { charge, result } => {
                &&& charge matches Some(due) && due.principal == principal && due.fuel
                    == fuel_used(fuel_left)
                &&& is_call_result(result, outcome)
            },
            _ => false,
        },
        _ => false,
    }
}

/// A guest error about a principal.
fn principal_error(principal: &str, what: &str, failure: &str) -> (r: CapsuleError)
    ensures
        r matches CapsuleError::WasmError(m) && m@ == "principal '"@ + principal@ + what@
            + failure@,
{
    let mut message = "principal '".to_owned();
    message.append(principal);
    message.append(what);
    message.append(failure);
    CapsuleError::WasmError(message)
}

fn to_workspace(
    services: &Services,
    principal: String,
    caller: Option<CallerContext>,
    profile: Option<PrincipalProfile>,
) -> (r: (InvokePhase, InvokeAction))
    ensures
        goes_to_workspace(*services, principal, caller, profile, r.0, r.1),
{
    if services.overlay_registry {
        let asked = principal.clone();
        (
            InvokePhase::ResolvingOverlay { principal, caller, profile },
            InvokeAction::ResolveOverlay(asked),
        )
    } else {
        (InvokePhase::CheckingOut { principal, caller, profile }, InvokeAction::CheckOut)
    }
}

fn to_rate(
    services: &Services,
    principal: String,
    caller: Option<CallerContext>,
    profile: Option<PrincipalProfile>,
    check: Option<CapabilityCheck>,
) -> (r: (InvokePhase, InvokeAction))
    ensures
        goes_to_rate(*services, principal, caller, profile, check, r.0, r.1),
{
    match cpu_rate_budget(profile.as_ref(), check.as_ref(), services.default_cpu_budget) {
        Some(budget) => {
            let asked = principal.clone();
            (
                InvokePhase::AskingRate { principal, caller, profile, check },
                InvokeAction::AskRate { principal: asked, budget },
            )
        },
        None => to_workspace(services, principal, caller, profile),
    }
}

fn call_result(outcome: CallOutcome) -> (r: Result<Interception, CapsuleError>)
    ensures
        is_call_result(r, outcome),
{
    match outcome {
        CallOutcome::Returned(output) => Ok(Interception::Output(output)),
        CallOutcome::Missing(e) => Err(
            entry_failure("capsule does not export `astrid-hook-trigger`: ", e.as_str()),
        ),
        CallOutcome::Failed(e) => {
            let mut message = "astrid_hook_trigger failed: ".to_owned();
            message.append(e.as_str());
            Err(CapsuleError::WasmError(message))
        },
    }
}

/// Ends a call without a charge.
fn end(result: Result<Interception, CapsuleError>) -> (r: (InvokePhase, InvokeAction))
    ensures
        r.0 == InvokePhase::Over,
        r.1 == (InvokeAction::Finish { charge: None, result }),
{
    (InvokePhase::Over, InvokeAction::Finish { charge: None, result })
}

/// The result of a hook trigger call outside a pool: the output, or the error
/// of a guest without a trigger or of one that failed.
pub fn call_hook_trigger(outcome: CallOutcome) -> (r: Result<HookTriggerOutput, CapsuleError>)
    ensures
        match outcome {
            CallOutcome::Returned(output) => r == Ok::<HookTriggerOutput, CapsuleError>(output),
            CallOutcome::Missing(e) => r matches Err(x) && is_entry_error(
                x,
                "capsule does not export `astrid-hook-trigger`: "@ + e@,
            ),
            CallOutcome::Failed(e) => r matches Err(CapsuleError::WasmError(m)) && m@
                == "astrid-hook-trigger call failed: "@ + e@,
        },
{
    match outcome {
        CallOutcome::Returned(output) => Ok(output),
        CallOutcome::Missing(e) => Err(
            entry_failure("capsule does not export `astrid-hook-trigger`: ", e.as_str()),
        ),
        CallOutcome::Failed(e) => {
            let mut message = "astrid-hook-trigger call failed: ".to_owned();
            message.append(e.as_str());
            Err(CapsuleError::WasmError(message))
        },
    }
}

impl WasmEngine {
    /// The phase and the action after an event that the phase waits for.
    pub fn invoke_interceptor(
        &self,
        services: &Services,
        phase: InvokePhase,
        event: InvokeEvent,
    ) -> (r: (InvokePhase, InvokeAction))
        requires
            expects(phase, event),
        ensures
            invoke_next(*self, *services, phase, event, r.0, r.1),
    {
        match (phase, event) {
            (InvokePhase::Start, InvokeEvent::Begin { caller }) => {
                if !self.holdings.pool {
                    return end(
                        Err(
                            CapsuleError::NotSupported(
                                "plugin handles interceptors internally via IPC auto-subscribe".to_owned(),
                            ),
                        ),
                    );
                }
                let named: Option<&String> = match &caller {
                    Some(context) => context.principal.as_ref(),
                    None => None,
                };
                let principal: String = match named {
                    Some(p) => p.clone(),
                    None => match &self.owner_principal {
                        Some(o) => o.clone(),
                        None => DEFAULT_PRINCIPAL.to_owned(),
                    },
                };
                assert(principal@ == invoking_principal(caller, self.owner_principal));
                if services.profile_cache {
                    let asked = principal.clone();
                    (
                        InvokePhase::ResolvingProfile { principal, caller },
                        InvokeAction::ResolveProfile(asked),
                    )
                } else {
                    to_rate(services, principal, caller, None, None)
                }
            },
            (
                InvokePhase::ResolvingProfile { principal, caller },
                InvokeEvent::ProfileResolved { profile, check },
            ) => {
                let profile = match profile {
                    Ok(profile) => profile,
                    Err(e) => {
                        let error = principal_error(
                            principal.as_str(),
                            "' profile invalid: ",
                            e.as_str(),
                        );
                        return end(Err(error));
                    },
                };
                if let Err(e) = check_principal_enabled(&profile, principal.as_str()) {
                    return end(Err(e));
                }
                to_rate(services, principal, caller, Some(profile), check)
            },
            (
                InvokePhase::AskingRate { principal, caller, profile, check },
                InvokeEvent::RateAnswered { over_budget },
            ) => {
                let refusal = cpu_rate_deny(
                    profile.as_ref(),
                    check.as_ref(),
                    services.default_cpu_budget,
                    principal.as_str(),
                    over_budget,
                );
                match refusal {
                    Some(reason) => end(Ok(Interception::Deny { reason })),
                    None => to_workspace(services, principal, caller, profile),
                }
            },
            (
                InvokePhase::ResolvingOverlay { principal, caller, profile },
                InvokeEvent::OverlayResolved(resolved),
            ) => {
                match resolved {
                    Ok(()) => (
                        InvokePhase::CheckingOut { principal, caller, profile },
                        InvokeAction::CheckOut,
                    ),
                    Err(e) => {
                        let error = principal_error(
                            principal.as_str(),
                            "' overlay resolve failed: ",
                            e.as_str(),
                        );
                        end(Err(error))
                    },
                }
            },
            (
                InvokePhase::CheckingOut { principal, caller, profile },
                InvokeEvent::CheckedOut(available),
            ) => {
                if !available {
                    return end(
                        Err(CapsuleError::NotSupported("no capsule instance available".to_owned())),
                    );
                }
                let applied: PrincipalProfile = match profile {
                    Some(p) => p,
                    None => services.default_profile,
                };
                let daemon = self.manifest.uplinks.len() > 0 || self.manifest.capabilities.uplink;
                let deadline: Option<u64> = if daemon {
                    None
                } else {
                    let millis: u64 = match applied.quotas.max_timeout_secs.checked_mul(1000) {
                        Some(n) => n,
                        None => u64::MAX,
                    };
                    Some(millis / EPOCH_TICK_MILLIS)
                };
                let memory: usize = if applied.quotas.max_memory_bytes <= usize::MAX as u64 {
                    applied.quotas.max_memory_bytes as usize
                } else {
                    usize::MAX
                };
                let charged = principal.clone();
                let setup = CallSetup {
                    deadline,
                    fuel: INTERCEPTOR_FUEL_BUDGET,
                    memory,
                    principal: charged,
                    caller,
                    profile,
                };
                (InvokePhase::Calling { principal }, InvokeAction::Call(setup))
            },
            (InvokePhase::Calling { principal }, InvokeEvent::Called { outcome, fuel_left }) => {
                let left: u64 = match fuel_left {
                    Some(n) => n,
                    None => 0,
                };
                let used: u64 = if left >= INTERCEPTOR_FUEL_BUDGET {
                    0
                } else {
                    INTERCEPTOR_FUEL_BUDGET - left
                };
                (
                    InvokePhase::Over,
                    InvokeAction::Finish {
                        charge: Some(FuelCharge { principal, fuel: used }),
                        result: call_result(outcome),
                    },
                )
            },
            (phase, _) => (
                phase,
                InvokeAction::Finish {
                    charge: None,
                    result: Err(CapsuleError::NotSupported("unexpected event".to_owned())),
                },
            ),
        }
    }
}

/// Whether a state is set up for a call: the caller of the call is in scope
/// with the overlays of its principal, the profile is the call's, and memory is
/// bounded and counted as the call says.
pub open spec fn is_set_up(
    state: HostState,
    setup: CallSetup,
    env: Option<Vec<(String, String)>>,
    kv_ok: bool,
    log: Option<u64>,
    bundle: PrincipalVfsBundle,
) -> bool {
    let scope = caller_principal(setup.caller);
    &&& state.caller_context == setup.caller
    &&& state.interceptor_active
    &&& state.invocation_profile == setup.profile
    &&& state.memory_limit == setup.memory
    &&& state.memory_principal@ == setup.principal@
    &&& state.invocation_env_overlay == env
    &&& state.scoped_to(scope, kv_ok, log)
    &&& state.invocation_home == if scope is Some && kv_ok {
        bundle.home
    } else {
        None
    }
    &&& state.invocation_tmp == if scope is Some && kv_ok {
        bundle.tmp
    } else {
        None
    }
}

impl HostState {
    /// Sets an instance up for a call. `env` is the environment of the
    /// principal that the call counts for; `kv_ok`, `log` and `bundle` belong to
    /// the principal of the caller.
    pub fn begin_call(
        &mut self,
        tokens: &mut CancelTokens,
        setup: CallSetup,
        env: Option<Vec<(String, String)>>,
        kv_ok: bool,
        log: Option<u64>,
        bundle: PrincipalVfsBundle,
    )
        requires
            old(tokens).handed_out() < u64::MAX,
        ensures
            is_set_up(*final(self), setup, env, kv_ok, log, bundle),
            token_installed(
                *old(tokens),
                *final(tokens),
                caller_principal(setup.caller),
                final(self).invocation_cancel_token,
            ),
            same_but_for_invocation(*old(self), *final(self)),
    {
        self.begin_invocation(tokens, setup.caller, setup.profile, env, kv_ok, log, bundle);
        self.memory_limit = setup.memory;
        self.memory_principal = setup.principal;
    }
}

/// Whether a phase holds no profile of a disabled principal.
pub open spec fn admits_only_enabled(phase: InvokePhase) -> bool {
    match phase {
        InvokePhase::AskingRate { profile, .. } => profile is Some ==> profile->0.enabled,
        InvokePhase::ResolvingOverlay { profile, .. } => profile is Some ==> profile->0.enabled,
        InvokePhase::CheckingOut { profile, .. } => profile is Some ==> profile->0.enabled,
        _ => true,
    }
}

/// A disabled principal never gets to call: no step of a call takes up a
/// profile that is disabled, and the guest is called with an enabled one or
/// with none.
pub proof fn disabled_principals_never_call(
    engine: WasmEngine,
    services: Services,
    before: InvokePhase,
    event: InvokeEvent,
    after: InvokePhase,
    action: InvokeAction,
)
    requires
        invoke_next(engine, services, before, event, after, action),
        admits_only_enabled(before),
    ensures
        admits_only_enabled(after),
        action matches InvokeAction::Call(setup) ==> (setup.profile is Some
            ==> setup.profile->0.enabled),
{
}

/// A principal over its CPU budget is refused with a denial, never with an
/// error, and nothing is charged: an error would let the chain of interceptors
/// go on.
pub proof fn over_budget_is_a_denial(
    engine: WasmEngine,
    services: Services,
    principal: String,
    caller: Option<CallerContext>,
    profile: Option<PrincipalProfile>,
    check: Option<CapabilityCheck>,
    after: InvokePhase,
    action: InvokeAction,
)
    requires
        cpu_budget(as_ref(&profile), as_ref(&check), services.default_cpu_budget) is Some,
        invoke_next(
            engine,
            services,
            InvokePhase::AskingRate { principal, caller, profile, check },
            InvokeEvent::RateAnswered { over_budget: true },
            after,
            action,
        ),
    ensures
        action matches InvokeAction::Finish { charge: None, result: Ok(Interception::Deny { .. }) },
{
}

/// Fuel is charged exactly when the guest was called, and never more than a
/// call starts with.
pub proof fn fuel_is_charged_for_calls(
    engine: WasmEngine,
    services: Services,
    before: InvokePhase,
    event: InvokeEvent,
    after: InvokePhase,
    action: InvokeAction,
)
    requires
        invoke_next(engine, services, before, event, after, action),
    ensures
        action matches InvokeAction::Finish { charge, .. } ==> (charge is Some == (event is Called))
            && (charge is Some ==> charge->0.fuel <= INTERCEPTOR_FUEL_BUDGET),
{
}

/// Whether phases, events and actions are those of one call, from its
/// beginning.
pub open spec fn is_call_course(
    engine: WasmEngine,
    services: Services,
    phases: Seq<InvokePhase>,
    events: Seq<InvokeEvent>,
    actions: Seq<InvokeAction>,
) -> bool {
    &&& phases.len() == events.len() + 1
    &&& actions.len() == events.len()
    &&& phases[0] is Start
    &&& forall|i: int|
        0 <= i < events.len() ==> invoke_next(
            engine,
            services,
            phases[i],
            #[trigger] events[i],
            phases[i + 1],
            actions[i],
        )
}

/// The profile that a phase goes on with.
pub open spec fn carried_profile(phase: InvokePhase) -> Option<Option<PrincipalProfile>> {
    match phase {
        InvokePhase::AskingRate { profile, .. } => Some(profile),
        InvokePhase::ResolvingOverlay { profile, .. } => Some(profile),
        InvokePhase::CheckingOut { profile, .. } => Some(profile),
        _ => None,
    }
}

/// What holds of every phase of a call: where profiles are kept, one of an
/// enabled principal is carried from the rate limiter on, and the rate limiter
/// is asked only about a budget.
pub open spec fn is_admitted(services: Services, phase: InvokePhase) -> bool {
    &&& carried_profile(phase) matches Some(profile) ==> {
        &&& services.profile_cache ==> profile is Some
        &&& profile is Some ==> profile->0.enabled
    }
    &&& phase matches InvokePhase::AskingRate { profile, check, .. } ==> cpu_budget(
        as_ref(&profile),
        as_ref(&check),
        services.default_cpu_budget,
    ) is Some
    &&& phase is ResolvingProfile ==> services.profile_cache
}

proof fn lemma_phases_are_admitted(
    engine: WasmEngine,
    services: Services,
    phases: Seq<InvokePhase>,
    events: Seq<InvokeEvent>,
    actions: Seq<InvokeAction>,
    j: int,
)
    requires
        is_call_course(engine, services, phases, events, actions),
        0 <= j < phases.len(),
    ensures
        is_admitted(services, phases[j]),
    decreases j,
{
    if j > 0 {
        let k = j - 1;
        lemma_phases_are_admitted(engine, services, phases, events, actions, k);
        assert(invoke_next(engine, services, phases[k], events[k], phases[k + 1], actions[k]));
    }
}

/// The guest is called only in a call that was admitted: the capsule has a
/// pool; where profiles are kept, the principal's is known and enabled; and the
/// rate limiter never found it over its budget.
pub proof fn only_admitted_calls_reach_the_guest(
    engine: WasmEngine,
    services: Services,
    phases: Seq<InvokePhase>,
    events: Seq<InvokeEvent>,
    actions: Seq<InvokeAction>,
    j: int,
)
    requires
        is_call_course(engine, services, phases, events, actions),
        0 <= j < actions.len(),
        actions[j] is Call,
    ensures
        engine.holdings.pool,
        services.profile_cache ==> actions[j]->Call_0.profile is Some,
        actions[j]->Call_0.profile is Some ==> actions[j]->Call_0.profile->0.enabled,
        forall|i: int|
            0 <= i <= j && (#[trigger] events[i]) is RateAnswered ==> !events[i]->over_budget,
{
    lemma_phases_are_admitted(engine, services, phases, events, actions, j);
    assert(invoke_next(engine, services, phases[j], events[j], phases[j + 1], actions[j]));
    assert(invoke_next(engine, services, phases[0], events[0], phases[1], actions[0]));
    if !engine.holdings.pool {
        assert(phases[1] is Over);
        if j > 0 {
            assert(invoke_next(engine, services, phases[1], events[1], phases[2], actions[1]));
        }
    }
    assert forall|i: int| 0 <= i <= j && (#[trigger] events[i]) is RateAnswered implies !events[i]->over_budget by {
        lemma_phases_are_admitted(engine, services, phases, events, actions, i);
        assert(invoke_next(engine, services, phases[i], events[i], phases[i + 1], actions[i]));
        if events[i]->over_budget {
            assert(phases[i + 1] is Over);
            if i < j {
                assert(invoke_next(
                    engine,
                    services,
                    phases[i + 1],
                    events[i + 1],
                    phases[i + 2],
                    actions[i + 1],
                ));
            }
        }
    }
}

/// What a call used is charged to the principal that the instance was set up
/// for, and to nobody else: where a call ends with a charge, the step before was
/// the call of the guest, set up for the principal that is charged.
pub proof fn callers_are_charged_for_their_calls(
    engine: WasmEngine,
    services: Services,
    phases: Seq<InvokePhase>,
    events: Seq<InvokeEvent>,
    actions: Seq<InvokeAction>,
    j: int,
)
    requires
        is_call_course(engine, services, phases, events, actions),
        0 <= j < actions.len(),
        actions[j] matches InvokeAction::Finish { charge: Some(_), .. },
    ensures
        j > 0,
        actions[j - 1] is Call,
        actions[j - 1]->Call_0.principal@ == actions[j]->charge->0.principal@,
{
    assert(invoke_next(engine, services, phases[j], events[j], phases[j + 1], actions[j]));
    assert(phases[j] is Calling);
    let k = j - 1;
    assert(invoke_next(engine, services, phases[k], events[k], phases[k + 1], actions[k]));
}

/// The calls of a daemon have no deadline; those of any other capsule have the
/// one of the profile that applies.
pub proof fn daemons_have_no_deadline(
    engine: WasmEngine,
    services: Services,
    before: InvokePhase,
    event: InvokeEvent,
    after: InvokePhase,
    action: InvokeAction,
)
    requires
        invoke_next(engine, services, before, event, after, action),
        action is Call,
    ensures
        action->Call_0.deadline is None == is_daemon(engine),
{
}

/// Whom a phase is about: the principal that the call counts for and the
/// caller.
pub open spec fn carried_caller(phase: InvokePhase) -> Option<(Seq<char>, Option<CallerContext>)> {
    match phase {
        InvokePhase::ResolvingProfile { principal, caller } => Some((principal@, caller)),
        InvokePhase::AskingRate { principal, caller, .. } => Some((principal@, caller)),
        InvokePhase::ResolvingOverlay { principal, caller, .. } => Some((principal@, caller)),
        InvokePhase::CheckingOut { principal, caller, .. } => Some((principal@, caller)),
        _ => None,
    }
}

proof fn lemma_callers_are_carried(
    engine: WasmEngine,
    services: Services,
    phases: Seq<InvokePhase>,
    events: Seq<InvokeEvent>,
    actions: Seq<InvokeAction>,
    j: int,
)
    requires
        is_call_course(engine, services, phases, events, actions),
        0 <= j < phases.len(),
        carried_caller(phases[j]) is Some,
    ensures
        events.len() > 0,
        events[0] is Begin,
        carried_caller(phases[j]) == Some(
            (
                invoking_principal(events[0]->caller, engine.owner_principal),
                events[0]->caller,
            ),
        ),
    decreases j,
{
    let k = j - 1;
    assert(invoke_next(engine, services, phases[k], events[k], phases[k + 1], actions[k]));
    if carried_caller(phases[k]) is Some {
        lemma_callers_are_carried(engine, services, phases, events, actions, k);
    } else {
        assert(phases[k] is Start);
        if k > 0 {
            assert(invoke_next(
                engine,
                services,
                phases[k - 1],
                events[k - 1],
                phases[k],
                actions[k - 1],
            ));
        }
    }
}

/// The guest runs for the caller that the call began with. Over the whole course
/// of a call, the setup that the guest is called with names that caller and the
/// principal that the call counts for; and on an instance of the owner that was
/// set up so, that principal is the one that acts, and the one that memory is
/// counted for.
pub proof fn guests_run_for_their_callers(
    engine: WasmEngine,
    services: Services,
    phases: Seq<InvokePhase>,
    events: Seq<InvokeEvent>,
    actions: Seq<InvokeAction>,
    j: int,
    state: HostState,
    env: Option<Vec<(String, String)>>,
    kv_ok: bool,
    log: Option<u64>,
    bundle: PrincipalVfsBundle,
)
    requires
        is_call_course(engine, services, phases, events, actions),
        0 <= j < actions.len(),
        actions[j] is Call,
        is_set_up(state, actions[j]->Call_0, env, kv_ok, log, bundle),
        engine.owner_principal matches Some(owner) && state.principal@ == owner@,
    ensures
        events[0] is Begin,
        actions[j]->Call_0.caller == events[0]->caller,
        actions[j]->Call_0.principal@ == invoking_principal(
            events[0]->caller,
            engine.owner_principal,
        ),
        state.acting_principal() == actions[j]->Call_0.principal@,
        state.memory_principal@ == actions[j]->Call_0.principal@,
{
    assert(invoke_next(engine, services, phases[j], events[j], phases[j + 1], actions[j]));
    lemma_callers_are_carried(engine, services, phases, events, actions, j);
}

/// A call of a capsule that is no daemon may run for its principal's timeout,
/// to the tick: the deadline is the number of whole ticks in it.
pub proof fn deadlines_are_the_timeout_in_ticks(
    engine: WasmEngine,
    services: Services,
    principal: String,
    caller: Option<CallerContext>,
    profile: Option<PrincipalProfile>,
    after: InvokePhase,
    action: InvokeAction,
)
    requires
        invoke_next(
            engine,
            services,
            InvokePhase::CheckingOut { principal, caller, profile },
            InvokeEvent::CheckedOut(true),
            after,
            action,
        ),
        engine.manifest.uplinks@.len() == 0,
        !engine.manifest.capabilities.uplink,
    ensures
        action is Call,
        action->Call_0.deadline is Some,
        ({
            let d = action->Call_0.deadline->0;
            let t = if profile is Some {
                profile->0.quotas.max_timeout_secs
            } else {
                services.default_profile.quotas.max_timeout_secs
            };
            &&& t * 1000 <= u64::MAX ==> d * 100 <= t * 1000 < (d + 1)
                * 100
            &&& t * 1000 > u64::MAX ==> d * 100 <= u64::MAX < (d + 1)
                * 100
        }),
{
    let t = if profile is Some {
        profile->0.quotas.max_timeout_secs
    } else {
        services.default_profile.quotas.max_timeout_secs
    };
    let d = action->Call_0.deadline->0;
    assert(0 <= deadline_ticks(t) <= u64::MAX);
    assert(d == deadline_ticks(t));
}

/// A longer timeout never gives a shorter deadline, and daemons have none.
pub proof fn longer_timeouts_give_longer_deadlines(
    engine: WasmEngine,
    services: Services,
    principal: String,
    caller: Option<CallerContext>,
    short: PrincipalProfile,
    long: PrincipalProfile,
    first: CallSetup,
    second: CallSetup,
)
    requires
        is_setup(first, engine, services, principal, caller, Some(short)),
        is_setup(second, engine, services, principal, caller, Some(long)),
        short.quotas.max_timeout_secs + 1 <= long.quotas.max_timeout_secs,
        long.quotas.max_timeout_secs * 1000 <= u64::MAX,
    ensures
        engine.manifest.uplinks@.len() > 0 || engine.manifest.capabilities.uplink
            ==> first.deadline is None && second.deadline is None,
        engine.manifest.uplinks@.len() == 0 && !engine.manifest.capabilities.uplink
            ==> first.deadline is Some && second.deadline is Some && first.deadline->0
            < second.deadline->0,
{
    if engine.manifest.uplinks@.len() == 0 && !engine.manifest.capabilities.uplink {
        assert(0 <= deadline_ticks(short.quotas.max_timeout_secs) <= u64::MAX);
        assert(0 <= deadline_ticks(long.quotas.max_timeout_secs) <= u64::MAX);
    }
}

/// A call starts with the full fuel and with the memory of its principal's
/// profile, as much of it as a machine can address; it carries its caller, its
/// principal and its profile.
pub proof fn calls_start_with_what_their_profile_grants(
    engine: WasmEngine,
    services: Services,
    principal: String,
    caller: Option<CallerContext>,
    profile: Option<PrincipalProfile>,
    after: InvokePhase,
    action: InvokeAction,
)
    requires
        invoke_next(
            engine,
            services,
            InvokePhase::CheckingOut { principal, caller, profile },
            InvokeEvent::CheckedOut(true),
            after,
            action,
        ),
    ensures
        action is Call,
        ({
            let setup = action->Call_0;
            let granted = if profile is Some {
                profile->0.quotas.max_memory_bytes
            } else {
                services.default_profile.quotas.max_memory_bytes
            };
            &&& setup.fuel == 10_000_000_000
            &&& granted <= usize::MAX ==> setup.memory == granted
            &&& granted > usize::MAX ==> setup.memory == usize::MAX
            &&& setup.principal@ == principal@
            &&& setup.caller == caller
            &&& setup.profile == profile
        }),
        after matches InvokePhase::Calling { principal: p } && p@ == principal@,
{
}

/// A call that nothing speaks against goes on to the guest. It is asked for, in
/// this order and only where there is something to ask: the profile, where
/// profiles are kept; the rate limiter, where there is a budget to hold the call
/// to; the workspace, where workspaces are kept; then an instance.
pub proof fn good_answers_lead_to_the_guest(
    engine: WasmEngine,
    services: Services,
    before: InvokePhase,
    event: InvokeEvent,
    after: InvokePhase,
    action: InvokeAction,
)
    requires
        invoke_next(engine, services, before, event, after, action),
    ensures
        event is Begin && engine.holdings.pool && services.profile_cache ==> action
            is ResolveProfile,
        event is Begin && engine.holdings.pool && !services.profile_cache ==> asks_next(
            services,
            services.default_cpu_budget,
            action,
        ),
        event matches InvokeEvent::ProfileResolved { profile: Ok(p), check } ==> (p.enabled
            ==> asks_next(
            services,
            if check is Some && (check->0.resources_unbounded || check->0.net_bind
                || check->0.uplink) {
                0
            } else {
                p.quotas.max_cpu_fuel_per_sec
            },
            action,
        )),
        event == (InvokeEvent::RateAnswered { over_budget: false }) ==> asks_next(
            services,
            0,
            action,
        ),
        event == InvokeEvent::OverlayResolved(Ok::<(), String>(())) ==> action is CheckOut,
        event == InvokeEvent::CheckedOut(true) ==> action is Call,
{
    if let InvokeEvent::ProfileResolved { profile: Ok(p), check } = event {
        crate::budget::calls_are_held_to_their_budget(
            Some(&p),
            as_ref(&check),
            services.default_cpu_budget,
            p.quotas.max_cpu_fuel_per_sec,
        );
    }
}

/// Whether a call is asked for what comes next: the rate limiter about a budget
/// that is not zero, else the workspace where workspaces are kept, else an
/// instance.
pub open spec fn asks_next(services: Services, budget: u64, action: InvokeAction) -> bool {
    if budget > 0 {
        action matches InvokeAction::AskRate { budget: b, .. } && b == budget
    } else if services.overlay_registry {
        action is ResolveOverlay
    } else {
        action is CheckOut
    }
}

/// A call ends before the guest was called only where something speaks against
/// it: there is no pool, the profile is not to be had or disabled, the rate
/// limiter finds the principal over its budget, the workspace cannot be had, or
/// there is no instance. Only the rate limiter ends it with a denial.
pub proof fn calls_end_early_only_for_a_reason(
    engine: WasmEngine,
    services: Services,
    before: InvokePhase,
    event: InvokeEvent,
    after: InvokePhase,
    action: InvokeAction,
)
    requires
        invoke_next(engine, services, before, event, after, action),
    ensures
        action is Finish <==> event is Called || (event is Begin && !engine.holdings.pool) || (
        event matches InvokeEvent::ProfileResolved { profile, .. } && (profile is Err
            || !profile->Ok_0.enabled)) || (event == (InvokeEvent::RateAnswered {
            over_budget: true,
        }) && asked_about_a_budget(services, before)) || (
        event matches InvokeEvent::OverlayResolved(resolved) && resolved is Err) || event
            == InvokeEvent::CheckedOut(false),
        (action matches InvokeAction::Finish { result: Ok(Interception::Deny { .. }), .. }) <==> (
        event == (InvokeEvent::RateAnswered { over_budget: true }) && asked_about_a_budget(
            services,
            before,
        )),
        action matches InvokeAction::Finish { result: Err(e), .. } ==> (!(event is Called) ==> (
        if event is Begin || event is CheckedOut {
            e is NotSupported
        } else {
            e is WasmError
        })),
{
}

/// Whether a phase asked the rate limiter about a budget of the principal.
pub open spec fn asked_about_a_budget(services: Services, phase: InvokePhase) -> bool {
    match phase {
        InvokePhase::AskingRate { profile, check, .. } => {
            &&& profile is Some ==> profile->0.quotas.max_cpu_fuel_per_sec > 0
            &&& profile is None ==> services.default_cpu_budget > 0
            &&& !(profile is Some && check is Some && (check->0.resources_unbounded
                || check->0.net_bind || check->0.uplink))
        },
        _ => false,
    }
}

/// The outcome of the guest is the outcome of the call: what it returned is
/// handed on as it is, and a guest that failed or has no trigger is an error.
/// What was used and what was left make up what the call started with.
pub proof fn guests_decide_their_calls(
    engine: WasmEngine,
    services: Services,
    principal: String,
    outcome: CallOutcome,
    fuel_left: Option<u64>,
    after: InvokePhase,
    action: InvokeAction,
)
    requires
        invoke_next(
            engine,
            services,
            InvokePhase::Calling { principal },
            InvokeEvent::Called { outcome, fuel_left },
            after,
            action,
        ),
    ensures
        after is Over,
        action is Finish,
        outcome matches CallOutcome::Returned(output) ==> action->result == Ok::<
            Interception,
            CapsuleError,
        >(Interception::Output(output)),
        outcome is Missing ==> (action->result matches Err(e) && e is UnsupportedEntryPoint),
        outcome is Failed ==> (action->result matches Err(e) && e is WasmError),
        action->charge is Some,
        action->charge->0.principal == principal,
        fuel_left is None ==> action->charge->0.fuel == 10_000_000_000,
        fuel_left matches Some(left) ==> (left <= 10_000_000_000
            ==> action->charge->0.fuel + left == 10_000_000_000),
        fuel_left matches Some(left) ==> (left > 10_000_000_000
            ==> action->charge->0.fuel == 0),
{
}

/// A call counts for its caller's principal, else for the owner, else for the
/// default principal.
pub proof fn calls_count_for_their_caller(caller: Option<CallerContext>, owner: Option<String>)
    ensures
        caller matches Some(c) && c.principal is Some ==> invoking_principal(caller, owner)
            == caller->0.principal->0@,
        (caller is None || caller->0.principal is None) && owner is Some ==> invoking_principal(
            caller,
            owner,
        ) == owner->0@,
        (caller is None || caller->0.principal is None) && owner is None ==> invoking_principal(
            caller,
            owner,
        ) == "default"@,
{
}

/// Whoever is asked about in the course of a call is the principal that the call
/// counts for.
pub proof fn questions_are_about_the_calls_principal(
    engine: WasmEngine,
    services: Services,
    phases: Seq<InvokePhase>,
    events: Seq<InvokeEvent>,
    actions: Seq<InvokeAction>,
    j: int,
)
    requires
        is_call_course(engine, services, phases, events, actions),
        0 <= j < actions.len(),
    ensures
        actions[j] matches InvokeAction::ResolveProfile(p) ==> p@ == invoking_principal(
            events[0]->caller,
            engine.owner_principal,
        ),
        actions[j] matches InvokeAction::AskRate { principal, .. } ==> principal@
            == invoking_principal(events[0]->caller, engine.owner_principal),
        actions[j] matches InvokeAction::ResolveOverlay(p) ==> p@ == invoking_principal(
            events[0]->caller,
            engine.owner_principal,
        ),
{
    assert(invoke_next(engine, services, phases[j], events[j], phases[j + 1], actions[j]));
    if actions[j] is ResolveProfile || actions[j] is AskRate || actions[j] is ResolveOverlay {
        lemma_callers_are_carried(engine, services, phases, events, actions, j + 1);
    }
}

/// An instance that was set up for a call works for that call alone: its caller
/// is in scope, its profile applies, its memory is bounded as it was planned,
/// and the stores and directories are those of the caller's principal, where its
/// scope could be made, and nobody's else.
pub proof fn instances_are_set_up_for_their_call(
    state: HostState,
    setup: CallSetup,
    env: Option<Vec<(String, String)>>,
    kv_ok: bool,
    log: Option<u64>,
    bundle: PrincipalVfsBundle,
)
    requires
        is_set_up(state, setup, env, kv_ok, log, bundle),
    ensures
        state.caller_context == setup.caller,
        state.interceptor_active,
        state.invocation_profile == setup.profile,
        state.memory_limit == setup.memory,
        state.memory_principal@ == setup.principal@,
        state.invocation_env_overlay == env,
        setup.caller matches Some(c) ==> (c.principal matches Some(p) ==> (kv_ok
            ==> state.invocation_kv is Some && state.invocation_kv->0@ == p@ + ":capsule:"@
            + state.capsule_id@ && state.invocation_capsule_log == log && state.invocation_home
            == bundle.home && state.invocation_tmp == bundle.tmp && (
        state.invocation_secret_store matches Some(SecretScope::Service(name)) && name@
            == state.capsule_id@ + ":"@ + p@))),
        setup.caller is None || setup.caller->0.principal is None || !kv_ok
            ==> state.invocation_kv is None && state.invocation_secret_store is None
            && state.invocation_capsule_log is None && state.invocation_home is None
            && state.invocation_tmp is None,
{
}

/// The guest is called with the profile that was found for the call: where
/// profiles are kept, the one that was answered; where none are, with none.
pub proof fn guests_run_with_the_profile_that_was_found(
    engine: WasmEngine,
    services: Services,
    phases: Seq<InvokePhase>,
    events: Seq<InvokeEvent>,
    actions: Seq<InvokeAction>,
    j: int,
)
    requires
        is_call_course(engine, services, phases, events, actions),
        0 <= j < phases.len(),
        carried_profile(phases[j]) is Some,
    ensures
        services.profile_cache ==> j >= 2 && (
        events[1] matches InvokeEvent::ProfileResolved { profile: Ok(p), .. } && carried_profile(
            phases[j],
        ) == Some(Some(p))),
        !services.profile_cache ==> carried_profile(phases[j])->0 is None,
    decreases j,
{
    let k = j - 1;
    assert(invoke_next(engine, services, phases[k], events[k], phases[k + 1], actions[k]));
    if carried_profile(phases[k]) is Some {
        guests_run_with_the_profile_that_was_found(engine, services, phases, events, actions, k);
    } else if phases[k] is ResolvingProfile {
        assert(invoke_next(
            engine,
            services,
            phases[k - 1],
            events[k - 1],
            phases[k],
            actions[k - 1],
        ));
        assert(phases[k - 1] is Start);
        if k - 1 > 0 {
            assert(invoke_next(
                engine,
                services,
                phases[k - 2],
                events[k - 2],
                phases[k - 1],
                actions[k - 2],
            ));
        }
    } else {
        assert(phases[k] is Start);
    }
}

}
