//! The course of a lifecycle hook, step by step.
//!
//! A hook is run once, when a capsule is installed or upgraded. It may wait
//! for a human, so neither a deadline nor fuel bounds it. A capsule without the
//! hook is left alone.

use vstd::prelude::*;
use vstd::string::*;

use crate::budget::WASM_MAX_MEMORY_BYTES;
use crate::engine::{build_failure, build_step_text, is_execution_error, BuildStep};
use crate::error::CapsuleError;
use crate::foreign::wasm_payloads;
use crate::host_state::{
    HookHostStateParams, HostState, LifecycleHostStateParams, LifecyclePhase, PrincipalMount,
    SecretScope, DEFAULT_PRINCIPAL,
};
use crate::load::is_entry_error;
use crate::prescan::{implements, wasm_exports_contain};

verus! {

/// What a lifecycle hook is run with.
#[derive(Debug)]
pub struct LifecycleConfig {
    /// The binary.
    pub wasm_bytes: Vec<u8>,
    pub capsule_id: String,
    pub workspace_root: String,
    /// The home of the principal that the capsule is installed for.
    pub home_root: Option<String>,
    /// The key-value namespace of the capsule.
    pub kv: String,
    pub config: Vec<(String, String)>,
    pub secret_store: SecretScope,
    /// Whether actions are reported to an audit sink.
    pub audited: bool,
}

/// The export that a phase calls.
pub open spec fn hook_export(phase: LifecyclePhase) -> Seq<char> {
    match phase {
        LifecyclePhase::Install => "astrid-install"@,
        LifecyclePhase::Upgrade => "astrid-upgrade"@,
    }
}

fn hook_export_name(phase: LifecyclePhase) -> (r: &'static str)
    ensures
        r@ == hook_export(phase),
{
    match phase {
        LifecyclePhase::Install => "astrid-install",
        LifecyclePhase::Upgrade => "astrid-upgrade",
    }
}

/// How far a hook has come.
#[derive(Debug)]
pub enum HookStage {
    Start(LifecycleConfig),
    /// Waits for the workspace to be registered.
    Registering(LifecycleConfig),
    /// Waits for the home to be mounted.
    MountingHome(LifecycleConfig),
    /// Waits for the instance to be built.
    Building,
    /// Waits for the guest.
    Calling,
    Over,
}

/// What happened.
#[derive(Debug)]
pub enum HookEvent {
    Begin,
    Registered(Result<(), String>),
    /// The mounted home; none where it could not be mounted.
    HomeMounted(Option<PrincipalMount>),
    /// Whether the instance was built, or which step failed and why.
    Built(Result<(), (BuildStep, String)>),
    Called(HookCall),
}

/// How the guest call ended.
#[derive(Debug)]
pub enum HookCall {
    Returned,
    /// The instance has no such export.
    Missing,
    /// The guest failed.
    Failed(String),
}

/// What to do next.
#[derive(Debug)]
pub enum HookAction {
    /// Register the workspace directory.
    RegisterWorkspace(String),
    /// Mount the home directory.
    MountHome(String),
    /// Build an instance over this state, with this deadline in epoch ticks, if
    /// there is one, and with this fuel.
    Build { state: HostState, wasm_bytes: Vec<u8>, deadline: Option<u64>, fuel: u64 },
    /// Call the export.
    Call(&'static str),
    /// It is over.
    Finish(Result<(), CapsuleError>),
}

/// Whether an event is the one that a stage waits for.
pub open spec fn hook_awaits(stage: HookStage, event: HookEvent) -> bool {
    match stage {
        HookStage::Start(_) => event is Begin,
        HookStage::Registering(_) => event is Registered,
        HookStage::MountingHome(_) => event is HomeMounted,
        HookStage::Building => event is Built,
        HookStage::Calling => event is Called,
        HookStage::Over => false,
    }
}

/// Whether an action builds the instance of a configuration.
pub open spec fn is_build(
    action: HookAction,
    cfg: LifecycleConfig,
    phase: LifecyclePhase,
    home: Option<PrincipalMount>,
) -> bool {
    match action {
        HookAction::Build { state, wasm_bytes, deadline, fuel } => {
            &&& wasm_bytes == cfg.wasm_bytes
            &&& deadline is None
            &&& fuel == u64::MAX
            &&& crate::host_state::is_clear(state)
            &&& state.lifecycle_phase == Some(phase)
            &&& state.capsule_id == cfg.capsule_id
            &&& state.workspace_root == cfg.workspace_root
            &&& state.kv == cfg.kv
            &&& state.secret_store == cfg.secret_store
            &&& state.config == cfg.config
            &&& state.audited == cfg.audited
            &&& state.home == home
            &&& crate::host_state::offers_nothing(state)
            &&& state.ipc_publish_patterns@.len() == 0
            &&& state.principal@ == DEFAULT_PRINCIPAL@
            &&& state.memory_limit == WASM_MAX_MEMORY_BYTES
            &&& state.memory_principal@ == DEFAULT_PRINCIPAL@
            &&& !state.recv_yielded
            &&& state.no_yield_windows == 0
            &&& state.next_http_stream_id == 1
        },
        _ => false,
    }
}

/// Whether a stage and an action are the right ones at the beginning, given
/// whether the binary implements the hook.
pub open spec fn begins(
    cfg: LifecycleConfig,
    has_export: bool,
    after: HookStage,
    action: HookAction,
) -> bool {
    if has_export {
        &&& after == HookStage::Registering(cfg)
        &&& action matches HookAction::RegisterWorkspace(root) && root == cfg.workspace_root
    } else {
        after == HookStage::Over && action == HookAction::Finish(Ok::<(), CapsuleError>(()))
    }
}

/// Whether a stage and an action are the right ones after an event.
pub open spec fn hook_next(
    phase: LifecyclePhase,
    before: HookStage,
    event: HookEvent,
    after: HookStage,
    action: HookAction,
) -> bool {
    match (before, event) {
        (HookStage::Start(cfg), HookEvent::Begin) => begins(
            cfg,
            implements(hook_export(phase), wasm_payloads(cfg.wasm_bytes@)),
            after,
            action,
        ),
        (HookStage::Registering(cfg), HookEvent::Registered(registered)) => match registered {
            Err(e) => after == HookStage::Over && (action matches HookAction::Finish(Err(x))
                && is_entry_error(
                x,
                "Failed to register VFS directory for lifecycle: "@ + e@,
            )),
            Ok(()) => match cfg.home_root {
                Some(root) => after == HookStage::MountingHome(cfg) && (
                action matches HookAction::MountHome(r) && r == root),
                None => after == HookStage::Building && is_build(action, cfg, phase, None),
            },
        },
        (HookStage::MountingHome(cfg), HookEvent::HomeMounted(home)) => after
            == HookStage::Building && is_build(action, cfg, phase, home),
        (HookStage::Building, HookEvent::Built(built)) => match built {
            Err((step, e)) => after == HookStage::Over && (action matches HookAction::Finish(Err(x))
                && is_entry_error(x, build_step_text(step) + e@)),
            Ok(()) => after == HookStage::Calling && (action matches HookAction::Call(export)
                && export@ == hook_export(phase)),
        },
        (HookStage::Calling, HookEvent::Called(call)) => after == HookStage::Over && match call {
            HookCall::Returned => action == HookAction::Finish(Ok::<(), CapsuleError>(())),
            HookCall::Missing => action matches HookAction::Finish(Err(x)) && is_entry_error(
                x,
                "capsule does not export lifecycle hook `"@ + hook_export(phase) + "`"@,
            ),
            HookCall::Failed(e) => action matches HookAction::Finish(Err(x)) && is_execution_error(
                x,
                "lifecycle hook "@ + hook_export(phase) + " failed: "@ + e@,
            ),
        },
        _ => false,
    }
}

fn build_action(cfg: LifecycleConfig, phase: LifecyclePhase, home: Option<PrincipalMount>) -> (r:
    HookAction)
    ensures
        is_build(r, cfg, phase, home),
{
    let base = HookHostStateParams {
        capsule_id: cfg.capsule_id,
        workspace_root: cfg.workspace_root,
        kv: cfg.kv,
        secret_store: cfg.secret_store,
        memory_limit: WASM_MAX_MEMORY_BYTES,
        memory_principal: DEFAULT_PRINCIPAL.to_owned(),
    };
    let params = LifecycleHostStateParams { base, home, config: cfg.config, audited: cfg.audited };
    let state = HostState::for_lifecycle(params, phase);
    HookAction::Build {
        state,
        wasm_bytes: cfg.wasm_bytes,
        deadline: None,
        fuel: u64::MAX,
    }
}

/// The first stage and action, given whether the binary implements the hook.
pub fn begin_given(cfg: LifecycleConfig, has_export: bool) -> (r: (HookStage, HookAction))
    ensures
        begins(cfg, has_export, r.0, r.1),
{
    if has_export {
        let root = cfg.workspace_root.clone();
        (HookStage::Registering(cfg), HookAction::RegisterWorkspace(root))
    } else {
        (HookStage::Over, HookAction::Finish(Ok(())))
    }
}

/// The stage and the action after an event that the stage waits for.
pub fn run_lifecycle(phase: LifecyclePhase, stage: HookStage, event: HookEvent) -> (r: (
    HookStage,
    HookAction,
))
    requires
        hook_awaits(stage, event),
    ensures
        hook_next(phase, stage, event, r.0, r.1),
{
    let export = hook_export_name(phase);
    match (stage, event) {
        (HookStage::Start(cfg), HookEvent::Begin) => {
            let has_export = wasm_exports_contain(export, cfg.wasm_bytes.as_slice());
            begin_given(cfg, has_export)
        },
        (HookStage::Registering(cfg), HookEvent::Registered(registered)) => {
            if let Err(e) = registered {
                let error = build_failure(BuildStep::LifecycleVfs, e.as_str());
                return (HookStage::Over, HookAction::Finish(Err(error)));
            }
            let home_root: Option<String> = match &cfg.home_root {
                Some(root) => Some(root.clone()),
                None => None,
            };
            match home_root {
                Some(root) => (HookStage::MountingHome(cfg), HookAction::MountHome(root)),
                None => (HookStage::Building, build_action(cfg, phase, None)),
            }
        },
        (HookStage::MountingHome(cfg), HookEvent::HomeMounted(home)) => (
            HookStage::Building,
            build_action(cfg, phase, home),
        ),
        (HookStage::Building, HookEvent::Built(built)) => {
            match built {
                Ok(()) => (HookStage::Calling, HookAction::Call(export)),
                Err((step, e)) => {
                    let error = build_failure(step, e.as_str());
                    (HookStage::Over, HookAction::Finish(Err(error)))
                },
            }
        },
        (HookStage::Calling, HookEvent::Called(call)) => {
            match call {
                HookCall::Returned => (HookStage::Over, HookAction::Finish(Ok(()))),
                HookCall::Missing => {
                    let mut message = "capsule does not export lifecycle hook `".to_owned();
                    message.append(export);
                    message.append("`");
                    (
                        HookStage::Over,
                        HookAction::Finish(Err(CapsuleError::UnsupportedEntryPoint(message))),
                    )
                },
                HookCall::Failed(e) => {
                    let mut message = "lifecycle hook ".to_owned();
                    message.append(export);
                    message.append(" failed: ");
                    message.append(e.as_str());
                    (
                        HookStage::Over,
                        HookAction::Finish(Err(CapsuleError::ExecutionFailed(message))),
                    )
                },
            }
        },
        (stage, _) => (
            stage,
            HookAction::Finish(
                Err(CapsuleError::ExecutionFailed("unexpected lifecycle event".to_owned())),
            ),
        ),
    }
}

/// A lifecycle hook runs without a deadline, so that it may wait for a human as
/// long as it takes; and whenever it returns, the run has succeeded.
pub proof fn hooks_have_no_deadline(
    phase: LifecyclePhase,
    before: HookStage,
    event: HookEvent,
    after: HookStage,
    action: HookAction,
)
    requires
        hook_next(phase, before, event, after, action),
    ensures
        action matches HookAction::Build { deadline, .. } ==> deadline is None,
        event == HookEvent::Called(HookCall::Returned) ==> action == HookAction::Finish(
            Ok::<(), CapsuleError>(()),
        ),
{
}

/// A capsule that does not implement the hook of a phase is left alone: the
/// hook succeeds at once and nothing is built.
pub proof fn missing_hook_is_skipped(
    phase: LifecyclePhase,
    cfg: LifecycleConfig,
    after: HookStage,
    action: HookAction,
)
    requires
        !implements(hook_export(phase), wasm_payloads(cfg.wasm_bytes@)),
        hook_next(phase, HookStage::Start(cfg), HookEvent::Begin, after, action),
    ensures
        after is Over,
        action matches HookAction::Finish(Ok(())),
{
}

/// A hook that the binary implements is run: the workspace is registered, the
/// home is mounted where there is one, an instance is built and the export of
/// the phase is called; the run ends early only where one of these fails.
pub proof fn implemented_hooks_are_run(
    phase: LifecyclePhase,
    before: HookStage,
    event: HookEvent,
    after: HookStage,
    action: HookAction,
)
    requires
        hook_next(phase, before, event, after, action),
    ensures
        before matches HookStage::Start(cfg) ==> (action is RegisterWorkspace <==> implements(
            match phase {
                LifecyclePhase::Install => "astrid-install"@,
                LifecyclePhase::Upgrade => "astrid-upgrade"@,
            },
            wasm_payloads(cfg.wasm_bytes@),
        )),
        action matches HookAction::RegisterWorkspace(root) ==> before is Start && root
            == before->Start_0.workspace_root,
        before matches HookStage::Registering(cfg) ==> (event
            == HookEvent::Registered(Ok::<(), String>(())) ==> (if cfg.home_root is Some {
            action is MountHome && action->MountHome_0 == cfg.home_root->0
        } else {
            action is Build
        })),
        event is HomeMounted ==> action is Build,
        event == HookEvent::Built(Ok::<(), (BuildStep, String)>(())) ==> action is Call
            && action->Call_0@ == (match phase {
            LifecyclePhase::Install => "astrid-install"@,
            LifecyclePhase::Upgrade => "astrid-upgrade"@,
        }),
        action matches HookAction::Finish(Ok(())) ==> before is Start || event
            == HookEvent::Called(HookCall::Returned),
        action matches HookAction::Finish(Err(_)) ==> (event matches HookEvent::Registered(Err(_)))
            || (event matches HookEvent::Built(Err(_))) || (event matches HookEvent::Called(
            HookCall::Missing,
        )) || (event matches HookEvent::Called(HookCall::Failed(_))),
        (event matches HookEvent::Registered(Err(_))) || (event matches HookEvent::Built(Err(_)))
            || (event matches HookEvent::Called(HookCall::Missing)) || (
        event matches HookEvent::Called(HookCall::Failed(_))) ==> (
        action matches HookAction::Finish(Err(_))),
{
}

/// The instance of a hook runs over the stores, the configuration and the
/// workspace that the hook was given, for its phase, with endless fuel, in the
/// memory of a capsule, and with nothing else.
pub proof fn hooks_run_over_what_they_were_given(
    phase: LifecyclePhase,
    cfg: LifecycleConfig,
    home: Option<PrincipalMount>,
    action: HookAction,
)
    requires
        is_build(action, cfg, phase, home),
    ensures
        action is Build,
        action->Build_wasm_bytes@ == cfg.wasm_bytes@,
        action->fuel == u64::MAX,
        ({
            let state = action->state;
            &&& state.capsule_id@ == cfg.capsule_id@
            &&& state.workspace_root@ == cfg.workspace_root@
            &&& state.kv@ == cfg.kv@
            &&& state.secret_store == cfg.secret_store
            &&& state.config@ == cfg.config@
            &&& state.audited == cfg.audited
            &&& state.home == home
            &&& state.lifecycle_phase == Some(phase)
            &&& state.memory_limit == 67_108_864
            &&& state.security is None && state.tmp is None
            &&& !state.has_uplink_capability && !state.audit_firehose
            &&& !state.has_socket_listener && !state.has_session_token
            &&& !state.has_identity_store && !state.has_allowance_store
            &&& state.capability_names@.len() == 0 && state.local_egress@.len() == 0
            &&& state.ipc_publish_patterns@.len() == 0 && state.ipc_subscribe_patterns@.len() == 0
            &&& state.caller_context is None && state.invocation_kv is None
            &&& state.invocation_secret_store is None
        }),
{
}

}
