//! The course of loading a capsule, step by step.
//!
//! The caller performs the action it is given and hands back what happened.
//! The course ends with the instances attached, or with the first error.

use vstd::prelude::*;
use vstd::string::*;

use crate::budget::{CapabilityCheck, PrincipalProfile};
use crate::capabilities::{copy_texts, declare_alike};
use crate::engine::{
    build_failure, build_step_text, holds_what_was_built, installed_states, is_attach_list,
    AttachAction, BuildStep, WasmEngine,
};
use crate::error::CapsuleError;
use crate::foreign::{blake3_hex, slots_of, uuid_v5, wasm_payloads};
use crate::host_state::{
    is_clear, is_instance_of, keychain_in_force, namespace_in_force, namespace_of,
    secret_service_of, token_installed, CancelTokens, CapsuleHostStateParams, HostState,
    InstanceServices, OwnerContext, PrincipalMount, PrincipalVfsBundle, SecretScope,
};
use crate::load::{
    build_wasm_config, capsule_source_id, choose_wasm_path, choose_workspace, event_fault,
    handles_for,
    identity_seed, integrity_fault, interceptors_fault, is_entry_error, is_plan_for, is_rooted_at,
    keys_distinct, locate_component, plan_interceptors, plan_load, recorded_hash,
    resolve_content_addressed_wasm, value_of, worker_count, workspace_setup, ComponentLocation,
    InterceptorHandle, LoadPlan, MountedRoot, VerifiedWasm, WorkspaceChoice, WorkspaceSetup,
    CAPSULE_ID_NAMESPACE, META_FILE_NAME, SOCKET_PATH_KEY,
};
use crate::lists::{first_some, lemma_first_some_none};
use crate::manifest::{binds, binds_all, handled, InterceptorDef, PublishDef, SubscribeDef};
use crate::paths::{is_absolute, is_under, join, join_paths};
use crate::prescan::implements;
use crate::security::{
    cwd_entry_is_confined_to_workspace, entry_covers, is_gate_of, is_home_entry,
    wildcard_is_confined_to_workspace, ManifestSecurityGate,
};
use crate::text::texts;
use crate::topic::valid_segments;
use vstd::utf8::*;

verus! {

/// How far loading has come. Each phase waits for one event.
#[derive(Debug)]
pub enum LoadPhase {
    /// Nothing was done yet.
    Start,
    /// Whether the located binary exists.
    ProbingLocal { location: ComponentLocation },
    /// What `meta.json` holds.
    ReadingMeta { location: ComponentLocation, local_exists: bool },
    /// Whether the stored binary exists.
    ProbingStored { location: ComponentLocation, stored: String, meta: Option<String> },
    /// What the environment of the capsule is.
    ResolvingEnv { path: String, meta: Option<String> },
    /// What the binary is.
    ReadingWasm { path: String, meta: Option<String>, config: Vec<(String, String)> },
    /// Whether the workspace is under version control.
    ProbingGit { wasm: VerifiedWasm, config: Vec<(String, String)> },
    /// What mounting the workspace gave.
    Mounting { wasm: VerifiedWasm, config: Vec<(String, String)>, choice: WorkspaceChoice },
    /// Whether the name of the capsule is valid.
    CheckingName { wasm: VerifiedWasm, config: Vec<(String, String)>, workspace: WorkspaceSetup },
    /// What is known of the owner.
    ResolvingOwner { wasm: VerifiedWasm, config: Vec<(String, String)>, workspace: WorkspaceSetup },
    /// How building the instances went.
    Building {
        wasm: VerifiedWasm,
        config: Vec<(String, String)>,
        workspace: WorkspaceSetup,
        plan: LoadPlan,
    },
    /// What belongs to the owner of the run loop.
    Preparing {
        wasm: VerifiedWasm,
        config: Vec<(String, String)>,
        workspace: WorkspaceSetup,
        plan: LoadPlan,
        handles: Vec<InterceptorHandle>,
    },
    /// The instances are built; what is left is to attach them. The context is
    /// that of the owner of the run loop, where there is one.
    Built {
        wasm: VerifiedWasm,
        config: Vec<(String, String)>,
        workspace: WorkspaceSetup,
        plan: LoadPlan,
        handles: Vec<InterceptorHandle>,
        context: Option<OwnerContext>,
    },
    /// Loading failed.
    Failed(CapsuleError),
}

/// What happened.
#[derive(Debug)]
pub enum LoadEvent {
    /// Loading begins.
    Begin,
    LocalProbed(bool),
    /// The content of `meta.json`, where it could be read, and the Astrid
    /// home, where it is known.
    MetaRead { meta: Option<String>, home: Option<String> },
    StoredProbed(bool),
    /// The socket path, where it is known, and the resolved environment.
    EnvResolved { socket_path: Option<String>, env: Result<Vec<(String, String)>, CapsuleError> },
    WasmRead(Result<Vec<u8>, String>),
    GitProbed { git_managed: bool, home_known: bool },
    /// The roots and masked paths of the mounted workspace, and whether its
    /// directory could be registered.
    Mounted {
        workspace_root: MountedRoot,
        merged_root: MountedRoot,
        masked: Vec<String>,
        registered: Result<(), String>,
    },
    /// Whether the name is a valid capsule identifier, or why not.
    NameChecked(Result<(), String>),
    OwnerResolved { profile: Option<PrincipalProfile>, check: Option<CapabilityCheck> },
    /// Whether the instances were built, or what failed.
    InstancesBuilt(Result<(), BuildError>),
    /// What belongs to the owner.
    OwnerContextFound(OwnerContext),
}

/// Why the instances of a capsule could not be built.
#[derive(Debug)]
pub enum BuildError {
    /// A step before the first instance failed.
    Step(BuildStep, String),
    /// An instance could not be made.
    Instance(CapsuleError),
}

/// What to do next.
#[derive(Debug)]
pub enum LoadAction {
    /// Look whether a file exists.
    ProbeLocal(String),
    /// Read `meta.json` at this path and find the Astrid home.
    ReadMeta(String),
    /// Look whether a file exists.
    ProbeStored(String),
    /// Resolve the environment. The keys of
    /// [`reserved_config_keys`](crate::load::reserved_config_keys) are
    /// reserved.
    ResolveEnv,
    /// Read the binary at this path.
    ReadWasm(String),
    /// Look whether the workspace is under version control.
    ProbeGit,
    /// Mount the workspace.
    Mount(WorkspaceChoice),
    /// Check the name of the capsule.
    CheckName,
    /// Find the owner's profile and the permission system's answers.
    ResolveOwner,
    /// Build the instances of the plan, each over a state of
    /// [`WasmEngine::instance_state`].
    Build,
    /// Find what belongs to the owner: a run loop works in the owner's context
    /// for as long as it runs.
    ResolveOwnerContext,
    /// Attach the instances.
    Attach,
    /// Give up.
    Abort,
}

/// Whether an event is the one that a phase waits for.
pub open spec fn awaits(phase: LoadPhase, event: LoadEvent) -> bool {
    match phase {
        LoadPhase::Start => event is Begin,
        LoadPhase::ProbingLocal { .. } => event is LocalProbed,
        LoadPhase::ReadingMeta { .. } => event is MetaRead,
        LoadPhase::ProbingStored { .. } => event is StoredProbed,
        LoadPhase::ResolvingEnv { .. } => event is EnvResolved,
        LoadPhase::ReadingWasm { .. } => event is WasmRead,
        LoadPhase::ProbingGit { .. } => event is GitProbed,
        LoadPhase::Mounting { .. } => event is Mounted,
        LoadPhase::CheckingName { .. } => event is NameChecked,
        LoadPhase::ResolvingOwner { .. } => event is OwnerResolved,
        LoadPhase::Building { .. } => event is InstancesBuilt,
        LoadPhase::Preparing { .. } => event is OwnerContextFound,
        LoadPhase::Built { .. } | LoadPhase::Failed(_) => false,
    }
}

/// Whether loading ends with an entry-point error of the given text.
pub open spec fn load_fails(after: LoadPhase, action: LoadAction, message: Seq<char>) -> bool {
    action == LoadAction::Abort && (after matches LoadPhase::Failed(e) && is_entry_error(
        e,
        message,
    ))
}

/// Whether loading goes on to resolve the environment with a chosen binary.
pub open spec fn goes_on_with(
    after: LoadPhase,
    action: LoadAction,
    path: Seq<char>,
    meta: Option<String>,
) -> bool {
    action == LoadAction::ResolveEnv && (after matches LoadPhase::ResolvingEnv { path: p, meta: m }
        && p@ == path && m == meta)
}

/// Whether a configuration is that of a socket path and an environment.
pub open spec fn is_config_of(
    config: Seq<(String, String)>,
    socket_path: Option<String>,
    env: Seq<(String, String)>,
) -> bool {
    &&& keys_distinct(config)
    &&& forall|k: Seq<char>|
        #[trigger] value_of(config, k) == if value_of(env, k) is Some {
            value_of(env, k)
        } else if k == SOCKET_PATH_KEY@ && socket_path is Some {
            Some(socket_path->0@)
        } else {
            None
        }
}

/// The recorded hash, for an owned content of `meta.json`.
pub open spec fn hash_in(meta: Option<String>) -> Option<Seq<char>> {
    match meta {
        Some(text) => crate::foreign::json_string_member(text@, "wasm_hash"@),
        None => None,
    }
}

/// What is wrong with the interceptors of a loaded capsule.
pub open spec fn attach_fault(engine: WasmEngine, plan: LoadPlan, defs: Seq<InterceptorDef>) -> Option<
    Seq<char>,
> {
    if plan.has_run {
        interceptors_fault(engine.manifest.package.name@, defs)
    } else {
        None
    }
}

/// Whether a phase and an action are the right ones after an event.
pub open spec fn load_next(
    engine: WasmEngine,
    before: LoadPhase,
    event: LoadEvent,
    after: LoadPhase,
    action: LoadAction,
) -> bool {
    let name = engine.manifest.package.name@;
    match (before, event) {
        (LoadPhase::Start, LoadEvent::Begin) => if engine.manifest.components@.len() == 0 {
            load_fails(after, action, "WASM engine requires at least one component definition"@)
        } else {
            let path = engine.manifest.components@[0].path@;
            let found = join(engine.capsule_dir@, path);
            if is_absolute(path) {
                &&& after matches LoadPhase::ReadingMeta { location, local_exists: _ }
                    && location.absolute && location.path@ == found
                &&& action matches LoadAction::ReadMeta(p) && p@ == join(
                    engine.capsule_dir@,
                    META_FILE_NAME@,
                )
            } else {
                &&& after matches LoadPhase::ProbingLocal { location } && !location.absolute
                    && location.path@ == found
                &&& action matches LoadAction::ProbeLocal(p) && p@ == found
            }
        },
        (LoadPhase::ProbingLocal { location }, LoadEvent::LocalProbed(exists)) => {
            &&& after == (LoadPhase::ReadingMeta { location, local_exists: exists })
            &&& action matches LoadAction::ReadMeta(p) && p@ == join(
                engine.capsule_dir@,
                META_FILE_NAME@,
            )
        },
        (
            LoadPhase::ReadingMeta { location, local_exists },
            LoadEvent::MetaRead { meta, home },
        ) => {
            let stored = if home is Some && hash_in(meta) is Some {
                Some(crate::load::stored_path(home->0@, hash_in(meta)->0))
            } else {
                None
            };
            if location.absolute || local_exists || stored is None {
                goes_on_with(after, action, location.path@, meta)
            } else {
                &&& after matches LoadPhase::ProbingStored { location: l, stored: s, meta: m } && l
                    == location && s@ == stored->0 && m == meta
                &&& action matches LoadAction::ProbeStored(p) && p@ == stored->0
            }
        },
        (
            LoadPhase::ProbingStored { location, stored, meta },
            LoadEvent::StoredProbed(exists),
        ) => goes_on_with(
            after,
            action,
            if exists {
                stored@
            } else {
                location.path@
            },
            meta,
        ),
        (
            LoadPhase::ResolvingEnv { path, meta },
            LoadEvent::EnvResolved { socket_path, env },
        ) => match env {
            Err(e) => after == LoadPhase::Failed(e) && action == LoadAction::Abort,
            Ok(pairs) => {
                &&& after matches LoadPhase::ReadingWasm { path: p, meta: m, config } && p == path
                    && m == meta && is_config_of(config@, socket_path, pairs@)
                &&& action matches LoadAction::ReadWasm(p) && p == path
            },
        },
        (LoadPhase::ReadingWasm { path: _, meta, config }, LoadEvent::WasmRead(read)) => match read {
            Err(failure) => load_fails(after, action, "Failed to read WASM: "@ + failure@),
            Ok(bytes) => match integrity_fault(name, hash_in(meta), blake3_hex(bytes@)) {
                Some(fault) => load_fails(after, action, fault),
                None => {
                    &&& after matches LoadPhase::ProbingGit { wasm, config: c } && wasm.content()
                        == bytes@ && c == config
                    &&& action == LoadAction::ProbeGit
                },
            },
        },
        (
            LoadPhase::ProbingGit { wasm, config },
            LoadEvent::GitProbed { git_managed, home_known },
        ) => {
            let choice = if git_managed {
                WorkspaceChoice::Direct
            } else if home_known {
                WorkspaceChoice::CopyOnWrite
            } else {
                WorkspaceChoice::NoCopyOnWrite
            };
            &&& after == (LoadPhase::Mounting { wasm, config, choice })
            &&& action == LoadAction::Mount(choice)
        },
        (
            LoadPhase::Mounting { wasm, config, choice },
            LoadEvent::Mounted { workspace_root, merged_root, masked, registered },
        ) => match registered {
            Err(failure) => load_fails(
                after,
                action,
                "Failed to register VFS directory: "@ + failure@,
            ),
            Ok(()) => {
                &&& after matches LoadPhase::CheckingName { wasm: w, config: c, workspace } && w
                    == wasm && c == config && if choice == WorkspaceChoice::Direct {
                    is_rooted_at(workspace, workspace_root) && !workspace.has_backend
                        && workspace.masked@.len() == 0
                } else {
                    is_rooted_at(workspace, merged_root) && workspace.has_backend
                        && workspace.masked == masked
                }
                &&& action == LoadAction::CheckName
            },
        },
        (LoadPhase::CheckingName { wasm, config, workspace }, LoadEvent::NameChecked(valid)) =>
            match valid {
                Err(reason) => load_fails(after, action, reason@),
                Ok(()) => after == (LoadPhase::ResolvingOwner { wasm, config, workspace })
                    && action == LoadAction::ResolveOwner,
            },
        (
            LoadPhase::ResolvingOwner { wasm, config, workspace },
            LoadEvent::OwnerResolved { profile, check },
        ) => {
            &&& after matches LoadPhase::Building { wasm: w, config: c, workspace: s, plan } && w
                == wasm && c == config && s == workspace && is_plan_for(
                plan,
                engine.manifest,
                wasm.content(),
                match profile {
                    Some(p) => Some(&p),
                    None => None,
                },
                match check {
                    Some(a) => Some(&a),
                    None => None,
                },
                engine.runtime_limits,
            )
            &&& action == LoadAction::Build
        },
        (
            LoadPhase::Building { wasm, config, workspace, plan },
            LoadEvent::InstancesBuilt(built),
        ) => match built {
            Err(BuildError::Step(step, failure)) => load_fails(
                after,
                action,
                build_step_text(step) + failure@,
            ),
            Err(BuildError::Instance(e)) => after == LoadPhase::Failed(e) && action
                == LoadAction::Abort,
            Ok(()) => exists|defs: Seq<InterceptorDef>| #[trigger]
                binds_all(defs, handled(engine.manifest.subscribes@)) && match attach_fault(
                    engine,
                    plan,
                    defs,
                ) {
                    Some(fault) => load_fails(after, action, fault),
                    None => if plan.has_run {
                        &&& after matches LoadPhase::Preparing {
                            wasm: w,
                            config: c,
                            workspace: s,
                            plan: p,
                            handles,
                        } && w == wasm && c == config && s == workspace && p == plan
                            && handles_for(handles@, defs)
                        &&& action == LoadAction::ResolveOwnerContext
                    } else {
                        &&& after matches LoadPhase::Built {
                            wasm: w,
                            config: c,
                            workspace: s,
                            plan: p,
                            handles,
                            context,
                        } && w == wasm && c == config && s == workspace && p == plan
                            && handles@.len() == 0 && context is None
                        &&& action == LoadAction::Attach
                    },
                },
        },
        (
            LoadPhase::Preparing { wasm, config, workspace, plan, handles },
            LoadEvent::OwnerContextFound(context),
        ) => {
            &&& after == (LoadPhase::Built {
                wasm,
                config,
                workspace,
                plan,
                handles,
                context: Some(context),
            })
            &&& action == LoadAction::Attach
        },
        _ => false,
    }
}

impl WasmEngine {
    /// The phase and the action after an event that the phase waits for.
    pub fn load(&self, phase: LoadPhase, event: LoadEvent) -> (r: (LoadPhase, LoadAction))
        requires
            awaits(phase, event),
        ensures
            load_next(*self, phase, event, r.0, r.1),
    {
        match (phase, event) {
            (LoadPhase::Start, LoadEvent::Begin) => {
                let location = match locate_component(&self.manifest, self.capsule_dir.as_str()) {
                    Ok(location) => location,
                    Err(e) => return (LoadPhase::Failed(e), LoadAction::Abort),
                };
                if location.absolute {
                    let meta_path = join_paths(self.capsule_dir.as_str(), META_FILE_NAME);
                    (
                        LoadPhase::ReadingMeta { location, local_exists: false },
                        LoadAction::ReadMeta(meta_path),
                    )
                } else {
                    let probed = location.path.clone();
                    (LoadPhase::ProbingLocal { location }, LoadAction::ProbeLocal(probed))
                }
            },
            (LoadPhase::ProbingLocal { location }, LoadEvent::LocalProbed(exists)) => {
                let meta_path = join_paths(self.capsule_dir.as_str(), META_FILE_NAME);
                (
                    LoadPhase::ReadingMeta { location, local_exists: exists },
                    LoadAction::ReadMeta(meta_path),
                )
            },
            (
                LoadPhase::ReadingMeta { location, local_exists },
                LoadEvent::MetaRead { meta, home },
            ) => {
                let meta_text: Option<&str> = match &meta {
                    Some(text) => Some(text.as_str()),
                    None => None,
                };
                let home_text: Option<&str> = match &home {
                    Some(text) => Some(text.as_str()),
                    None => None,
                };
                let candidate = resolve_content_addressed_wasm(meta_text, home_text);
                assert(recorded_hash(meta_text) == hash_in(meta));
                match candidate {
                    Some(stored) => {
                        if location.absolute || local_exists {
                            let path = choose_wasm_path(location, local_exists, Some(stored));
                            (LoadPhase::ResolvingEnv { path, meta }, LoadAction::ResolveEnv)
                        } else {
                            let probed = stored.clone();
                            (
                                LoadPhase::ProbingStored { location, stored, meta },
                                LoadAction::ProbeStored(probed),
                            )
                        }
                    },
                    None => {
                        let path = choose_wasm_path(location, local_exists, None);
                        (LoadPhase::ResolvingEnv { path, meta }, LoadAction::ResolveEnv)
                    },
                }
            },
            (
                LoadPhase::ProbingStored { location, stored, meta },
                LoadEvent::StoredProbed(exists),
            ) => {
                let path = if exists { stored } else { location.path };
                (LoadPhase::ResolvingEnv { path, meta }, LoadAction::ResolveEnv)
            },
            (
                LoadPhase::ResolvingEnv { path, meta },
                LoadEvent::EnvResolved { socket_path, env },
            ) => {
                match env {
                    Err(e) => (LoadPhase::Failed(e), LoadAction::Abort),
                    Ok(pairs) => {
                        let config = build_wasm_config(socket_path, pairs);
                        let read = path.clone();
                        (
                            LoadPhase::ReadingWasm { path, meta, config },
                            LoadAction::ReadWasm(read),
                        )
                    },
                }
            },
            (LoadPhase::ReadingWasm { path, meta, config }, LoadEvent::WasmRead(read)) => {
                let meta_text: Option<&str> = match &meta {
                    Some(text) => Some(text.as_str()),
                    None => None,
                };
                assert(recorded_hash(meta_text) == hash_in(meta));
                match VerifiedWasm::verify(self.manifest.package.name.as_str(), read, meta_text) {
                    Ok(wasm) => (LoadPhase::ProbingGit { wasm, config }, LoadAction::ProbeGit),
                    Err(e) => (LoadPhase::Failed(e), LoadAction::Abort),
                }
            },
            (
                LoadPhase::ProbingGit { wasm, config },
                LoadEvent::GitProbed { git_managed, home_known },
            ) => {
                let choice = choose_workspace(git_managed, home_known);
                (LoadPhase::Mounting { wasm, config, choice }, LoadAction::Mount(choice))
            },
            (
                LoadPhase::Mounting { wasm, config, choice },
                LoadEvent::Mounted { workspace_root, merged_root, masked, registered },
            ) => {
                match workspace_setup(choice, workspace_root, merged_root, masked, registered) {
                    Ok(workspace) => (
                        LoadPhase::CheckingName { wasm, config, workspace },
                        LoadAction::CheckName,
                    ),
                    Err(e) => (LoadPhase::Failed(e), LoadAction::Abort),
                }
            },
            (
                LoadPhase::CheckingName { wasm, config, workspace },
                LoadEvent::NameChecked(valid),
            ) => {
                match valid {
                    Ok(()) => (
                        LoadPhase::ResolvingOwner { wasm, config, workspace },
                        LoadAction::ResolveOwner,
                    ),
                    Err(reason) => (
                        LoadPhase::Failed(CapsuleError::UnsupportedEntryPoint(reason)),
                        LoadAction::Abort,
                    ),
                }
            },
            (
                LoadPhase::ResolvingOwner { wasm, config, workspace },
                LoadEvent::OwnerResolved { profile, check },
            ) => {
                let plan = plan_load(
                    &self.manifest,
                    &wasm,
                    profile.as_ref(),
                    check.as_ref(),
                    self.runtime_limits,
                );
                (LoadPhase::Building { wasm, config, workspace, plan }, LoadAction::Build)
            },
            (
                LoadPhase::Building { wasm, config, workspace, plan },
                LoadEvent::InstancesBuilt(built),
            ) => {
                match built {
                    Ok(()) => {},
                    Err(BuildError::Step(step, failure)) => {
                        let e = build_failure(step, failure.as_str());
                        return (LoadPhase::Failed(e), LoadAction::Abort);
                    },
                    Err(BuildError::Instance(e)) => {
                        return (LoadPhase::Failed(e), LoadAction::Abort);
                    },
                }
                let defs = self.manifest.effective_interceptors();
                assert(binds_all(defs@, handled(self.manifest.subscribes@)));
                match plan_interceptors(
                    self.manifest.package.name.as_str(),
                    plan.has_run,
                    &defs,
                ) {
                    Ok(handles) => {
                        if plan.has_run {
                            (
                                LoadPhase::Preparing { wasm, config, workspace, plan, handles },
                                LoadAction::ResolveOwnerContext,
                            )
                        } else {
                            (
                                LoadPhase::Built {
                                    wasm,
                                    config,
                                    workspace,
                                    plan,
                                    handles,
                                    context: None,
                                },
                                LoadAction::Attach,
                            )
                        }
                    },
                    Err(e) => (LoadPhase::Failed(e), LoadAction::Abort),
                }
            },
            (
                LoadPhase::Preparing { wasm, config, workspace, plan, handles },
                LoadEvent::OwnerContextFound(context),
            ) => (
                LoadPhase::Built {
                    wasm,
                    config,
                    workspace,
                    plan,
                    handles,
                    context: Some(context),
                },
                LoadAction::Attach,
            ),
            (phase, _) => (phase, LoadAction::Abort),
        }
    }
}

/// Whether a state is the one that an instance of a capsule runs with: its gate
/// is that of the manifest over the canonical root of the workspace that was set
/// up, its topics are those of the manifest, and its identity is that of the capsule's name and
/// binary.
pub open spec fn is_instance_state(
    engine: WasmEngine,
    wasm: VerifiedWasm,
    config: Vec<(String, String)>,
    workspace: WorkspaceSetup,
    plan: LoadPlan,
    services: InstanceServices,
    state: HostState,
) -> bool {
    let manifest = engine.manifest;
    &&& is_clear(state)
    &&& is_instance_of(state, plan, services)
    &&& state.security matches Some(gate) && is_gate_of(
        gate,
        manifest,
        workspace.canonical_root@,
    )
    &&& texts(state.ipc_publish_patterns@) == manifest.publishes@.map_values(
        |d: PublishDef| d.topic@,
    )
    &&& texts(state.ipc_subscribe_patterns@) == manifest.subscribes@.map_values(
        |d: SubscribeDef| d.topic@,
    )
    &&& state.capsule_id@ == manifest.package.name@
    &&& state.capsule_uuid == uuid_v5(
        CAPSULE_ID_NAMESPACE,
        encode_utf8(identity_seed(manifest.package.name@, blake3_hex(wasm.content()))),
    )
    &&& state.workspace_root@ == workspace.root@
    &&& state.spawn_mask_paths@ == workspace.masked@
    &&& state.config@ == config@
}

/// Whether a state is the one that an instance runs with which is built in a
/// phase.
pub open spec fn is_state_of_phase(
    engine: WasmEngine,
    phase: LoadPhase,
    services: InstanceServices,
    state: HostState,
) -> bool {
    match phase {
        LoadPhase::Building { wasm, config, workspace, plan } => is_instance_state(
            engine,
            wasm,
            config,
            workspace,
            plan,
            services,
            state,
        ),
        LoadPhase::Preparing { wasm, config, workspace, plan, handles: _ } => is_instance_state(
            engine,
            wasm,
            config,
            workspace,
            plan,
            services,
            state,
        ),
        LoadPhase::Built { wasm, config, workspace, plan, .. } => is_instance_state(
            engine,
            wasm,
            config,
            workspace,
            plan,
            services,
            state,
        ),
        _ => false,
    }
}

fn copy_pairs(list: &Vec<(String, String)>) -> (r: Vec<(String, String)>)
    ensures
        r@ == list@,
{
    let mut r: Vec<(String, String)> = Vec::new();
    for i in 0..list.len()
        invariant
            r@ == list@.take(i as int),
    {
        r.push((list[i].0.clone(), list[i].1.clone()));
        assert(list@.take(i + 1) =~= list@.take(i as int).push(list@[i as int]));
    }
    assert(list@.take(list@.len() as int) =~= list@);
    r
}

impl WasmEngine {
    /// The state of one instance, while the instances are built and afterwards:
    /// one that is added to the pool later runs with the same.
    /// Before, there is no such state.
    pub fn instance_state(&self, phase: &LoadPhase, services: &InstanceServices) -> (r: Option<
        HostState,
    >)
        ensures
            match r {
                Some(state) => is_state_of_phase(*self, *phase, *services, state),
                None => !(phase is Building) && !(phase is Preparing) && !(phase is Built),
            },
    {
        match phase {
            LoadPhase::Building { wasm, config, workspace, plan } => Some(
                self.state_for(wasm, config, workspace, plan, services),
            ),
            LoadPhase::Preparing { wasm, config, workspace, plan, handles: _ } => Some(
                self.state_for(wasm, config, workspace, plan, services),
            ),
            LoadPhase::Built { wasm, config, workspace, plan, .. } => Some(
                self.state_for(wasm, config, workspace, plan, services),
            ),
            _ => None,
        }
    }

    fn state_for(
        &self,
        wasm: &VerifiedWasm,
        config: &Vec<(String, String)>,
        workspace: &WorkspaceSetup,
        plan: &LoadPlan,
        services: &InstanceServices,
    ) -> (r: HostState)
        ensures
            is_instance_state(*self, *wasm, *config, *workspace, *plan, *services, r),
    {
        let name = self.manifest.package.name.clone();
        let capsule_uuid: u128 = capsule_source_id(name.as_str(), wasm.hash());
        let gate = ManifestSecurityGate::over(
            self.manifest.capabilities.duplicate(),
            workspace.canonical_root.clone(),
            None,
        );
        let params = CapsuleHostStateParams {
            capsule_id: name,
            capsule_uuid,
            workspace_root: workspace.root.clone(),
            spawn_mask_paths: copy_texts(&workspace.masked),
            gate,
            config: copy_pairs(config),
            ipc_publish_patterns: self.manifest.effective_ipc_publish_patterns(),
            ipc_subscribe_patterns: self.manifest.effective_ipc_subscribe_patterns(),
        };
        HostState::for_capsule(params, plan, services)
    }
}

fn copy_handles(list: &Vec<InterceptorHandle>) -> (r: Vec<InterceptorHandle>)
    ensures
        r@ == list@,
{
    let mut r: Vec<InterceptorHandle> = Vec::new();
    for i in 0..list.len()
        invariant
            r@ == list@.take(i as int),
    {
        r.push(
            InterceptorHandle {
                handle_id: list[i].handle_id,
                action: list[i].action.clone(),
                topic: list[i].topic.clone(),
            },
        );
        assert(list@.take(i + 1) =~= list@.take(i as int).push(list@[i as int]));
    }
    assert(list@.take(list@.len() as int) =~= list@);
    r
}

fn copy_mount(mount: &Option<PrincipalMount>) -> (r: Option<PrincipalMount>)
    ensures
        r == *mount,
{
    match mount {
        Some(m) => Some(PrincipalMount { root: m.root.clone() }),
        None => None,
    }
}

/// The pairs of an optional environment.
pub open spec fn pairs_of(env: Option<Vec<(String, String)>>) -> Option<Seq<(String, String)>> {
    match env {
        Some(pairs) => Some(pairs@),
        None => None,
    }
}

/// The context of an owner, as it was found; an empty one where it was not
/// looked for.
pub open spec fn found_context(context: Option<OwnerContext>) -> OwnerContext {
    match context {
        Some(found) => found,
        None => OwnerContext {
            env: None,
            kv_ok: false,
            log: None,
            bundle: PrincipalVfsBundle { home: None, tmp: None },
        },
    }
}

/// Whether a state is in the context of an owner: it has the owner's
/// environment, stores, log and directories, and no caller.
pub open spec fn is_in_owner_context(
    state: HostState,
    owner: Seq<char>,
    context: OwnerContext,
) -> bool {
    &&& state.scoped_to(Some(owner), context.kv_ok, context.log)
    &&& pairs_of(state.invocation_env_overlay) == pairs_of(context.env)
    &&& state.invocation_home == if context.kv_ok {
        context.bundle.home
    } else {
        None
    }
    &&& state.invocation_tmp == if context.kv_ok {
        context.bundle.tmp
    } else {
        None
    }
    &&& state.caller_context is None
    &&& !state.interceptor_active
}

/// Whether two states differ at most in the context of an owner and in the
/// topics that a run loop is subscribed to.
pub open spec fn same_but_for_owner(base: HostState, state: HostState) -> bool {
    state == (HostState {
        invocation_env_overlay: state.invocation_env_overlay,
        invocation_cancel_token: state.invocation_cancel_token,
        invocation_kv: state.invocation_kv,
        invocation_secret_store: state.invocation_secret_store,
        invocation_capsule_log: state.invocation_capsule_log,
        invocation_home: state.invocation_home,
        invocation_tmp: state.invocation_tmp,
        interceptor_handles: state.interceptor_handles,
        ..base
    })
}

/// Whether a state is the one that a run loop starts with: that of an instance,
/// in the context of the owner, with the topics of the run loop.
pub open spec fn is_run_loop_state(
    engine: WasmEngine,
    phase: LoadPhase,
    services: InstanceServices,
    context: OwnerContext,
    state: HostState,
) -> bool {
    &&& phase matches LoadPhase::Built { plan, handles, .. } && plan.has_run
        && state.interceptor_handles@ == handles@
    &&& is_in_owner_context(state, services.owner@, context)
    &&& exists|base: HostState| #[trigger]
        is_state_of_phase(engine, phase, services, base) && same_but_for_owner(base, state)
}

/// Whether an engine took over what was built in a course of loading, and
/// whether a list says what is left to do.
pub open spec fn finishes(
    before: WasmEngine,
    phase: LoadPhase,
    services: InstanceServices,
    after: WasmEngine,
    list: Seq<AttachAction>,
) -> bool {
    let owner = services.owner@;
    match phase {
        LoadPhase::Built { wasm, workspace, plan, context, .. } => {
            &&& is_attach_list(
                list,
                before.manifest.package.name@,
                blake3_hex(wasm.content()),
                owner,
                plan.watches_processes,
                plan.has_run,
            )
            &&& holds_what_was_built(before, after, plan, workspace.has_backend)
            &&& after.owner_principal matches Some(o) && o@ == owner
            &&& after.principal_cancel_tokens is Some
            &&& forall|p: Seq<char>|
                p != owner || !plan.has_run
                    ==> #[trigger] after.principal_cancel_tokens->0.token_of(p) is None
            &&& plan.has_run ==> installed_states(list).len() == plan.workers
            &&& plan.has_run ==> forall|i: int|
                0 <= i < installed_states(list).len() ==> {
                    let state = #[trigger] installed_states(list)[i];
                    &&& is_run_loop_state(before, phase, services, found_context(context), state)
                    &&& state.invocation_cancel_token is Some
                    &&& state.invocation_cancel_token
                        == after.principal_cancel_tokens->0.token_of(owner)
                }
        },
        _ => false,
    }
}

impl WasmEngine {
    /// The state that a run loop starts with: that of an instance, in the
    /// context of the owner for as long as the run loop runs, and with the
    /// topics that it is subscribed to. There is none before the instances are
    /// built, nor for a capsule without a run loop.
    pub fn run_loop_state(
        &self,
        phase: &LoadPhase,
        services: &InstanceServices,
        tokens: &mut CancelTokens,
        env: Option<Vec<(String, String)>>,
        kv_ok: bool,
        log: Option<u64>,
        bundle: PrincipalVfsBundle,
    ) -> (r: Option<HostState>)
        requires
            old(tokens).handed_out() < u64::MAX,
        ensures
            r is Some == (phase matches LoadPhase::Built { plan, .. } && plan.has_run),
            r matches Some(state) ==> {
                &&& is_run_loop_state(
                    *self,
                    *phase,
                    *services,
                    OwnerContext { env, kv_ok, log, bundle },
                    state,
                )
                &&& state.invocation_env_overlay == env
                &&& token_installed(
                    *old(tokens),
                    *final(tokens),
                    Some(services.owner@),
                    state.invocation_cancel_token,
                )
            },
            r is None ==> *final(tokens) == *old(tokens),
    {
        match phase {
            LoadPhase::Built { plan, handles, .. } => {
                if !plan.has_run {
                    return None;
                }
                match self.instance_state(phase, services) {
                    Some(base) => {
                        let mut state = base;
                        state.install_run_loop_owner_context(
                            tokens,
                            services.owner.as_str(),
                            env,
                            kv_ok,
                            log,
                            bundle,
                        );
                        state.interceptor_handles = copy_handles(handles);
                        assert(is_state_of_phase(*self, *phase, *services, base)
                            && same_but_for_owner(base, state));
                        Some(state)
                    },
                    None => None,
                }
            },
            _ => None,
        }
    }

    /// Takes over what was built, once a course of loading came to its end, and
    /// says what is left to do: a run loop is put in the context of its owner
    /// before it is started.
    pub fn finish_load(&mut self, phase: &LoadPhase, services: &InstanceServices) -> (r: Option<
        Vec<AttachAction>,
    >)
        ensures
            match r {
                Some(list) => finishes(*old(self), *phase, *services, *final(self), list@),
                None => !(phase is Built) && *final(self) == *old(self),
            },
    {
        let ghost before = *self;
        match phase {
            LoadPhase::Built { wasm, workspace, plan, context, .. } => {
                let ghost found = found_context(*context);
                let ghost owner = services.owner@;
                let mut tokens = CancelTokens::new();
                let mut states: Vec<HostState> = Vec::new();
                let count: usize = if plan.has_run { plan.workers } else { 0 };
                for i in 0..count
                    invariant
                        *self == before,
                        found == found_context(*context),
                        owner == services.owner@,
                        phase matches LoadPhase::Built { plan: p, context: c, .. } && p == *plan
                            && c == *context,
                        count > 0 ==> plan.has_run,
                        states.len() == i,
                        tokens.handed_out() == if i == 0 {
                            0int
                        } else {
                            1
                        },
                        tokens.token_of(owner) == if i == 0 {
                            None
                        } else {
                            Some(0u64)
                        },
                        forall|p: Seq<char>| p != owner ==> #[trigger] tokens.token_of(p) is None,
                        forall|k: int|
                            0 <= k < i ==> is_run_loop_state(
                                before,
                                *phase,
                                *services,
                                found,
                                #[trigger] states@[k],
                            ) && states@[k].invocation_cancel_token == Some(0u64),
                {
                    let (env, kv_ok, log, bundle) = match context {
                        Some(c) => (
                            match &c.env {
                                Some(pairs) => Some(copy_pairs(pairs)),
                                None => None,
                            },
                            c.kv_ok,
                            c.log,
                            PrincipalVfsBundle {
                                home: copy_mount(&c.bundle.home),
                                tmp: copy_mount(&c.bundle.tmp),
                            },
                        ),
                        None => (
                            None,
                            false,
                            None,
                            PrincipalVfsBundle { home: None, tmp: None },
                        ),
                    };
                    match self.run_loop_state(
                        phase,
                        services,
                        &mut tokens,
                        env,
                        kv_ok,
                        log,
                        bundle,
                    ) {
                        Some(state) => {
                            assert(is_run_loop_state(before, *phase, *services, found, state));
                            states.push(state);
                        },
                        None => {
                            assert(false);
                        },
                    }
                }
                let list = self.take_over(
                    plan,
                    workspace.has_backend,
                    wasm.hash(),
                    services.owner.as_str(),
                    tokens,
                    states,
                );
                Some(list)
            },
            _ => None,
        }
    }
}

/// No instance is built from a binary whose hash is not the recorded one: the
/// course comes past reading the binary only where `meta.json` records exactly
/// its hash.
pub proof fn only_verified_binaries_are_built(
    engine: WasmEngine,
    path: String,
    meta: Option<String>,
    config: Vec<(String, String)>,
    read: Result<Vec<u8>, String>,
    after: LoadPhase,
    action: LoadAction,
)
    requires
        load_next(
            engine,
            LoadPhase::ReadingWasm { path, meta, config },
            LoadEvent::WasmRead(read),
            after,
            action,
        ),
        !(after is Failed),
    ensures
        read is Ok,
        hash_in(meta) == Some(blake3_hex(read->Ok_0@)),
        after matches LoadPhase::ProbingGit { wasm, .. } && wasm.content() == read->Ok_0@,
{
}

/// The binary that was verified is the one that is planned and built: no later
/// phase changes it.
pub proof fn verified_binary_is_kept(
    engine: WasmEngine,
    before: LoadPhase,
    event: LoadEvent,
    after: LoadPhase,
    action: LoadAction,
)
    requires
        load_next(engine, before, event, after, action),
        held_wasm(before) is Some,
        !(after is Failed),
    ensures
        held_wasm(after) == held_wasm(before),
{
}

/// The verified binary of a phase that holds one.
pub open spec fn held_wasm(phase: LoadPhase) -> Option<Seq<u8>> {
    match phase {
        LoadPhase::ProbingGit { wasm, .. } => Some(wasm.content()),
        LoadPhase::Mounting { wasm, .. } => Some(wasm.content()),
        LoadPhase::CheckingName { wasm, .. } => Some(wasm.content()),
        LoadPhase::ResolvingOwner { wasm, .. } => Some(wasm.content()),
        LoadPhase::Building { wasm, .. } => Some(wasm.content()),
        LoadPhase::Preparing { wasm, .. } => Some(wasm.content()),
        LoadPhase::Built { wasm, .. } => Some(wasm.content()),
        _ => None,
    }
}

/// Whether phases, events and actions are those of one course of loading, from
/// its beginning.
pub open spec fn is_load_course(
    engine: WasmEngine,
    phases: Seq<LoadPhase>,
    events: Seq<LoadEvent>,
    actions: Seq<LoadAction>,
) -> bool {
    &&& phases.len() == events.len() + 1
    &&& actions.len() == events.len()
    &&& phases[0] is Start
    &&& forall|i: int|
        0 <= i < events.len() ==> load_next(
            engine,
            phases[i],
            #[trigger] events[i],
            phases[i + 1],
            actions[i],
        )
}

/// Whether an event of a course read exactly these bytes while `meta.json`
/// recorded exactly their hash.
pub open spec fn verified_at(
    phases: Seq<LoadPhase>,
    events: Seq<LoadEvent>,
    i: int,
    content: Seq<u8>,
) -> bool {
    &&& 0 <= i < events.len()
    &&& events[i] matches LoadEvent::WasmRead(Ok(bytes)) && bytes@ == content
    &&& phases[i] matches LoadPhase::ReadingWasm { meta, .. } && hash_in(meta) == Some(
        blake3_hex(content),
    )
}

/// Whatever a course of loading holds as its binary, it has read, and found its
/// hash to be the recorded one. So nothing is ever built of an unverified
/// binary.
pub proof fn loaded_binaries_were_verified(
    engine: WasmEngine,
    phases: Seq<LoadPhase>,
    events: Seq<LoadEvent>,
    actions: Seq<LoadAction>,
    j: int,
)
    requires
        is_load_course(engine, phases, events, actions),
        0 <= j < phases.len(),
        held_wasm(phases[j]) is Some,
    ensures
        exists|i: int| #[trigger] verified_at(phases, events, i, held_wasm(phases[j])->0),
    decreases j,
{
    let k = j - 1;
    assert(load_next(engine, phases[k], events[k], phases[k + 1], actions[k]));
    if held_wasm(phases[k]) is Some {
        verified_binary_is_kept(engine, phases[k], events[k], phases[j], actions[k]);
        loaded_binaries_were_verified(engine, phases, events, actions, k);
    } else {
        assert(phases[k] is ReadingWasm);
        assert(verified_at(phases, events, k, held_wasm(phases[j])->0));
    }
}

/// The instances of a capsule are alike, whether they were built at once or
/// added later: they have one identity, obey alike gates over one workspace,
/// and have the same topics, configuration and capabilities. So a call may be
/// given any of them.
pub proof fn instances_are_alike(
    engine: WasmEngine,
    phase: LoadPhase,
    services: InstanceServices,
    a: HostState,
    b: HostState,
)
    requires
        is_state_of_phase(engine, phase, services, a),
        is_state_of_phase(engine, phase, services, b),
    ensures
        a.capsule_uuid == b.capsule_uuid,
        a.capsule_id@ == b.capsule_id@,
        a.workspace_root@ == b.workspace_root@,
        a.config@ == b.config@,
        texts(a.ipc_publish_patterns@) == texts(b.ipc_publish_patterns@),
        texts(a.ipc_subscribe_patterns@) == texts(b.ipc_subscribe_patterns@),
        a.capability_names@ == b.capability_names@,
        a.has_uplink_capability == b.has_uplink_capability,
        a.audit_firehose == b.audit_firehose,
        a.has_socket_listener == b.has_socket_listener,
        a.has_session_token == b.has_session_token,
        a.security is Some && b.security is Some,
        declare_alike(a.security->0.caps(), b.security->0.caps()),
        a.security->0.workspace() == b.security->0.workspace(),
        a.security->0.default_home() is None && b.security->0.default_home() is None,
{
}

/// The workspace of a phase in which instances are built or were built.
pub open spec fn workspace_of(phase: LoadPhase) -> Option<WorkspaceSetup> {
    match phase {
        LoadPhase::Building { workspace, .. } => Some(workspace),
        LoadPhase::Preparing { workspace, .. } => Some(workspace),
        LoadPhase::Built { workspace, .. } => Some(workspace),
        _ => None,
    }
}

/// Without a principal of its own, an instance reaches no file but below the
/// workspace that was set up for the capsule and below the paths that its
/// manifest writes out: `*` and `cwd://` entries are confined to the workspace,
/// and `home://` entries permit nothing.
pub proof fn instances_stay_in_their_workspace(
    engine: WasmEngine,
    phase: LoadPhase,
    services: InstanceServices,
    state: HostState,
    entry: Seq<char>,
    path: Seq<char>,
)
    requires
        is_state_of_phase(engine, phase, services, state),
        entry_covers(entry, state.security->0.workspace(), state.security->0.default_home(), path),
    ensures
        !is_home_entry(entry),
        workspace_of(phase) is Some,
        state.workspace_root@ == workspace_of(phase)->0.root@,
        entry == "*"@ || "cwd://"@.is_prefix_of(entry) ==> is_under(
            path,
            workspace_of(phase)->0.canonical_root@,
        ),
{
    let workspace = state.security->0.workspace();
    assert(workspace == workspace_of(phase)->0.canonical_root@);
    if entry == "*"@ {
        wildcard_is_confined_to_workspace(workspace, None, path);
    }
    if "cwd://"@.is_prefix_of(entry) {
        let n = "cwd://"@.len() as int;
        assert(entry =~= "cwd://"@ + entry.skip(n)) by {
            assert(entry.subrange(0, n) =~= "cwd://"@);
        }
        cwd_entry_is_confined_to_workspace(entry.skip(n), workspace, None, path);
    }
}

/// A run loop is started only in the context of its owner. Wherever a course of
/// loading ends with the start of a run loop, the binary was verified, the
/// owner's context was found in the course, and before the start
/// every instance of the run loop is put in a state in that context: it works on
/// the owner's namespace and keychain, not on the neutral ones, and acts for the
/// owner.
pub proof fn run_loops_start_in_their_owners_context(
    engine: WasmEngine,
    phases: Seq<LoadPhase>,
    events: Seq<LoadEvent>,
    actions: Seq<LoadAction>,
    j: int,
    services: InstanceServices,
    after: WasmEngine,
    list: Seq<AttachAction>,
    k: int,
)
    requires
        is_load_course(engine, phases, events, actions),
        0 <= j < phases.len(),
        phases[j] is Built,
        finishes(engine, phases[j], services, after, list),
        0 <= k < list.len(),
        list[k] is StartRunLoop,
    ensures
        j > 0,
        events[j - 1] is OwnerContextFound,
        exists|i: int| #[trigger] verified_at(phases, events, i, phases[j]->Built_wasm.content()),
        0 < k,
        list[0] matches AttachAction::InstallOwnerContext { owner, .. } && owner@
            == services.owner@,
        forall|n: int|
            0 <= n < installed_states(list).len() ==> {
                let state = #[trigger] installed_states(list)[n];
                let context = events[j - 1]->OwnerContextFound_0;
                &&& is_run_loop_state(engine, phases[j], services, context, state)
                &&& state.acting_principal() == services.owner@
                &&& context.kv_ok ==> namespace_in_force(state) == namespace_of(
                    services.owner@,
                    engine.manifest.package.name@,
                )
                &&& context.kv_ok ==> keychain_in_force(state) == Some(
                    secret_service_of(services.owner@, engine.manifest.package.name@),
                )
            },
{
    let i = j - 1;
    assert(load_next(engine, phases[i], events[i], phases[i + 1], actions[i]));
    loaded_binaries_were_verified(engine, phases, events, actions, j);
    let context = events[i]->OwnerContextFound_0;
    assert forall|n: int| 0 <= n < installed_states(list).len() implies {
        let state = #[trigger] installed_states(list)[n];
        &&& is_run_loop_state(engine, phases[j], services, context, state)
        &&& state.acting_principal() == services.owner@
        &&& context.kv_ok ==> namespace_in_force(state) == namespace_of(
            services.owner@,
            engine.manifest.package.name@,
        )
        &&& context.kv_ok ==> keychain_in_force(state) == Some(
            secret_service_of(services.owner@, engine.manifest.package.name@),
        )
    } by {
        let state = installed_states(list)[n];
        assert(is_run_loop_state(engine, phases[j], services, context, state));
        let base = choose|base: HostState| #[trigger]
            is_state_of_phase(engine, phases[j], services, base) && same_but_for_owner(base, state);
        assert(state.capsule_id == base.capsule_id);
    }
}

/// The plan of a phase that holds one.
pub open spec fn held_plan(phase: LoadPhase) -> Option<LoadPlan> {
    match phase {
        LoadPhase::Building { plan, .. } => Some(plan),
        LoadPhase::Preparing { plan, .. } => Some(plan),
        LoadPhase::Built { plan, .. } => Some(plan),
        _ => None,
    }
}

/// Whatever a course of loading holds as its plan has a run loop exactly where
/// the verified binary implements one, and the workers that the manifest asks
/// for.
pub proof fn plans_follow_the_binary(
    engine: WasmEngine,
    phases: Seq<LoadPhase>,
    events: Seq<LoadEvent>,
    actions: Seq<LoadAction>,
    j: int,
)
    requires
        is_load_course(engine, phases, events, actions),
        0 <= j < phases.len(),
        held_plan(phases[j]) is Some,
    ensures
        held_wasm(phases[j]) is Some,
        held_plan(phases[j])->0.has_run == implements(
            "run"@,
            wasm_payloads(held_wasm(phases[j])->0),
        ),
        held_plan(phases[j])->0.workers == worker_count(
            engine.manifest.capabilities,
            held_plan(phases[j])->0.has_run,
        ),
    decreases j,
{
    let k = j - 1;
    assert(load_next(engine, phases[k], events[k], phases[k + 1], actions[k]));
    if held_plan(phases[k]) is Some {
        plans_follow_the_binary(engine, phases, events, actions, k);
    }
}

/// When a course of loading has ended, a run loop is started exactly where the
/// verified binary implements one, and then over at least one instance.
pub proof fn binaries_that_run_are_started(
    engine: WasmEngine,
    phases: Seq<LoadPhase>,
    events: Seq<LoadEvent>,
    actions: Seq<LoadAction>,
    j: int,
    services: InstanceServices,
    after: WasmEngine,
    list: Seq<AttachAction>,
)
    requires
        is_load_course(engine, phases, events, actions),
        0 <= j < phases.len(),
        phases[j] is Built,
        finishes(engine, phases[j], services, after, list),
    ensures
        (exists|k: int| 0 <= k < list.len() && list[k] is StartRunLoop) == implements(
            "run"@,
            wasm_payloads(phases[j]->Built_wasm.content()),
        ),
        (installed_states(list).len() > 0) == implements(
            "run"@,
            wasm_payloads(phases[j]->Built_wasm.content()),
        ),
{
    plans_follow_the_binary(engine, phases, events, actions, j);
    if phases[j]->Built_plan.has_run {
        assert(list[list.len() - 1] is StartRunLoop);
    }
}

/// How far a phase is in the course of loading.
pub open spec fn progress(phase: LoadPhase) -> int {
    match phase {
        LoadPhase::Start => 0,
        LoadPhase::ProbingLocal { .. } => 1,
        LoadPhase::ReadingMeta { .. } => 2,
        LoadPhase::ProbingStored { .. } => 3,
        LoadPhase::ResolvingEnv { .. } => 4,
        LoadPhase::ReadingWasm { .. } => 5,
        LoadPhase::ProbingGit { .. } => 6,
        LoadPhase::Mounting { .. } => 7,
        LoadPhase::CheckingName { .. } => 8,
        LoadPhase::ResolvingOwner { .. } => 9,
        LoadPhase::Building { .. } => 10,
        LoadPhase::Preparing { .. } => 11,
        LoadPhase::Built { .. } => 12,
        LoadPhase::Failed(_) => 13,
    }
}

/// Loading always moves on: no phase comes twice, so a course of loading ends
/// after a dozen steps at most.
pub proof fn loading_moves_on(
    engine: WasmEngine,
    phases: Seq<LoadPhase>,
    events: Seq<LoadEvent>,
    actions: Seq<LoadAction>,
    i: int,
    j: int,
)
    requires
        is_load_course(engine, phases, events, actions),
        0 <= i < j < phases.len(),
    ensures
        progress(phases[i]) + (j - i) <= progress(phases[j]),
        phases.len() <= 14,
    decreases j - i,
{
    assert(load_next(engine, phases[j - 1], events[j - 1], phases[j], actions[j - 1]));
    if i < j - 1 {
        loading_moves_on(engine, phases, events, actions, i, j - 1);
    }
    lemma_courses_are_short(engine, phases, events, actions, phases.len() - 1);
}

proof fn lemma_courses_are_short(
    engine: WasmEngine,
    phases: Seq<LoadPhase>,
    events: Seq<LoadEvent>,
    actions: Seq<LoadAction>,
    j: int,
)
    requires
        is_load_course(engine, phases, events, actions),
        0 <= j < phases.len(),
    ensures
        j <= progress(phases[j]) <= 13,
    decreases j,
{
    if j > 0 {
        assert(load_next(engine, phases[j - 1], events[j - 1], phases[j], actions[j - 1]));
        lemma_courses_are_short(engine, phases, events, actions, j - 1);
    }
}

/// The workspace of a phase that has one.
pub open spec fn mounted_workspace(phase: LoadPhase) -> Option<WorkspaceSetup> {
    match phase {
        LoadPhase::CheckingName { workspace, .. } => Some(workspace),
        LoadPhase::ResolvingOwner { workspace, .. } => Some(workspace),
        LoadPhase::Building { workspace, .. } => Some(workspace),
        LoadPhase::Preparing { workspace, .. } => Some(workspace),
        LoadPhase::Built { workspace, .. } => Some(workspace),
        _ => None,
    }
}

/// A workspace under version control is mounted directly, whether or not there
/// is an Astrid home, and every other one is not: a clone is made below the home
/// where there is one. Over the whole course of loading, the workspace is the
/// real one, with nothing hidden and nothing to commit, exactly where it is
/// under version control; else it is what mounting it gave.
pub proof fn versioned_workspaces_are_mounted_directly(
    engine: WasmEngine,
    phases: Seq<LoadPhase>,
    events: Seq<LoadEvent>,
    actions: Seq<LoadAction>,
    i: int,
    j: int,
)
    requires
        is_load_course(engine, phases, events, actions),
        0 <= i < events.len(),
        events[i] is GitProbed,
        0 <= j < phases.len(),
    ensures
        actions[i] is Mount,
        events[i]->git_managed ==> actions[i]->Mount_0 == WorkspaceChoice::Direct,
        !events[i]->git_managed && events[i]->home_known ==> actions[i]->Mount_0
            == WorkspaceChoice::CopyOnWrite,
        !events[i]->git_managed && !events[i]->home_known ==> actions[i]->Mount_0
            == WorkspaceChoice::NoCopyOnWrite,
        mounted_workspace(phases[j]) matches Some(w) ==> {
            &&& i + 1 < events.len()
            &&& events[i + 1] is Mounted
            &&& events[i]->git_managed ==> w.root == events[i + 1]->workspace_root.path
                && w.canonical_root == events[i + 1]->workspace_root.canonical && !w.has_backend
                && w.masked@.len() == 0
            &&& !events[i]->git_managed ==> w.root == events[i + 1]->merged_root.path
                && w.canonical_root == events[i + 1]->merged_root.canonical && w.has_backend
                && w.masked == events[i + 1]->masked
        },
    decreases j,
{
    assert(load_next(engine, phases[i], events[i], phases[i + 1], actions[i]));
    if mounted_workspace(phases[j]) is Some {
        if j <= i {
            if j < i {
                loading_moves_on(engine, phases, events, actions, j, i);
            }
        } else if j > i + 1 {
            let k = j - 1;
            assert(load_next(engine, phases[k], events[k], phases[j], actions[k]));
            if k > i + 1 {
                loading_moves_on(engine, phases, events, actions, i + 1, k);
                assert(progress(phases[k]) >= 8);
                assert(mounted_workspace(phases[k]) is Some);
                versioned_workspaces_are_mounted_directly(
                    engine,
                    phases,
                    events,
                    actions,
                    i,
                    k,
                );
                assert(mounted_workspace(phases[k]) == mounted_workspace(phases[j]));
            }
        }
    }
}

/// The location of the binary that a phase carries.
pub open spec fn carried_location(phase: LoadPhase) -> Option<ComponentLocation> {
    match phase {
        LoadPhase::ProbingLocal { location } => Some(location),
        LoadPhase::ReadingMeta { location, .. } => Some(location),
        LoadPhase::ProbingStored { location, .. } => Some(location),
        _ => None,
    }
}

proof fn lemma_locations_are_carried(
    engine: WasmEngine,
    phases: Seq<LoadPhase>,
    events: Seq<LoadEvent>,
    actions: Seq<LoadAction>,
    j: int,
)
    requires
        is_load_course(engine, phases, events, actions),
        0 <= j < phases.len(),
        carried_location(phases[j]) is Some,
    ensures
        engine.manifest.components@.len() > 0,
        carried_location(phases[j])->0.path@ == join(
            engine.capsule_dir@,
            engine.manifest.components@[0].path@,
        ),
        carried_location(phases[j])->0.absolute == is_absolute(
            engine.manifest.components@[0].path@,
        ),
    decreases j,
{
    assert(load_next(engine, phases[j - 1], events[j - 1], phases[j], actions[j - 1]));
    if carried_location(phases[j - 1]) is Some {
        lemma_locations_are_carried(engine, phases, events, actions, j - 1);
    }
}

/// The path of the binary that a phase carries.
pub open spec fn carried_path(phase: LoadPhase) -> Option<Seq<char>> {
    match phase {
        LoadPhase::ResolvingEnv { path, .. } => Some(path@),
        LoadPhase::ReadingWasm { path, .. } => Some(path@),
        _ => None,
    }
}

/// The binary that is read is the one that the manifest names, below the
/// directory of the capsule unless its path is absolute, as long as no stored
/// binary was found to exist.
pub proof fn named_binaries_are_read(
    engine: WasmEngine,
    phases: Seq<LoadPhase>,
    events: Seq<LoadEvent>,
    actions: Seq<LoadAction>,
    j: int,
)
    requires
        is_load_course(engine, phases, events, actions),
        0 <= j < phases.len(),
        carried_path(phases[j]) is Some,
        forall|k: int| 0 <= k < j ==> #[trigger] events[k] != LoadEvent::StoredProbed(true),
    ensures
        carried_path(phases[j]) == Some(
            join(engine.capsule_dir@, engine.manifest.components@[0].path@),
        ),
    decreases j,
{
    let k = j - 1;
    assert(load_next(engine, phases[k], events[k], phases[j], actions[k]));
    assert(events[k] != LoadEvent::StoredProbed(true));
    if carried_path(phases[k]) is Some {
        named_binaries_are_read(engine, phases, events, actions, k);
    } else {
        lemma_locations_are_carried(engine, phases, events, actions, k);
    }
}

/// A stored binary is looked for only where the manifest names a relative path
/// at which there is nothing, and only under the recorded hash in the `lib`
/// directory of the Astrid home. Where it exists, it is the one that is read.
pub proof fn stored_binaries_stand_in_for_missing_ones(
    engine: WasmEngine,
    phases: Seq<LoadPhase>,
    events: Seq<LoadEvent>,
    actions: Seq<LoadAction>,
    i: int,
    j: int,
)
    requires
        is_load_course(engine, phases, events, actions),
        0 <= i < events.len(),
        events[i] is StoredProbed,
        i < j < phases.len(),
    ensures
        i >= 2,
        events[i - 2] == LoadEvent::LocalProbed(false),
        events[i - 1] is MetaRead,
        actions[i - 1] matches LoadAction::ProbeStored(p) && events[i - 1]->home is Some && hash_in(
            events[i - 1]->MetaRead_meta,
        ) is Some && p@ == join(
            join(events[i - 1]->home->0@, "lib"@),
            hash_in(events[i - 1]->MetaRead_meta)->0 + ".wasm"@,
        ),
        !is_absolute(engine.manifest.components@[0].path@),
        events[i] == LoadEvent::StoredProbed(true) && carried_path(phases[j]) is Some
            ==> carried_path(phases[j]) == Some(actions[i - 1]->ProbeStored_0@),
    decreases j,
{
    assert(load_next(engine, phases[i], events[i], phases[i + 1], actions[i]));
    assert(phases[i] is ProbingStored);
    let k = i - 1;
    assert(load_next(engine, phases[k], events[k], phases[i], actions[k]));
    assert(phases[k] is ReadingMeta);
    lemma_locations_are_carried(engine, phases, events, actions, k);
    let m = k - 1;
    assert(load_next(engine, phases[m], events[m], phases[k], actions[m]));
    if j > i + 1 && carried_path(phases[j]) is Some {
        let n = j - 1;
        assert(load_next(engine, phases[n], events[n], phases[j], actions[n]));
        if n > i {
            if n > i + 1 {
                loading_moves_on(engine, phases, events, actions, i + 1, n);
            }
            stored_binaries_stand_in_for_missing_ones(
                engine,
                phases,
                events,
                actions,
                i,
                n,
            );
        }
    }
}

/// A missing binary is looked for in the store wherever that is possible: the
/// manifest names a relative path, there is nothing at it, a hash is recorded
/// and there is an Astrid home.
pub proof fn missing_binaries_are_looked_for(
    engine: WasmEngine,
    location: ComponentLocation,
    local_exists: bool,
    meta: Option<String>,
    home: Option<String>,
    after: LoadPhase,
    action: LoadAction,
)
    requires
        load_next(
            engine,
            LoadPhase::ReadingMeta { location, local_exists },
            LoadEvent::MetaRead { meta, home },
            after,
            action,
        ),
    ensures
        action is ProbeStored <==> !location.absolute && !local_exists && home is Some && hash_in(
            meta,
        ) is Some,
        !(action is ProbeStored) ==> action is ResolveEnv && carried_path(after) == Some(
            location.path@,
        ),
{
}

/// The hash that `meta.json` records is its member `wasm_hash`.
pub proof fn recorded_hashes_are_those_of_meta(meta: Option<String>)
    ensures
        meta matches Some(text) ==> hash_in(meta) == crate::foreign::json_string_member(
            text@,
            "wasm_hash"@,
        ),
        meta is None ==> hash_in(meta) is None,
{
}

/// The configuration of a capsule holds what the environment gives, the last
/// value for each key, and the socket path where the environment does not give
/// it; and it holds nothing else, and no key twice.
pub proof fn configurations_follow_the_environment(
    engine: WasmEngine,
    path: String,
    meta: Option<String>,
    socket_path: Option<String>,
    env: Vec<(String, String)>,
    after: LoadPhase,
    action: LoadAction,
    n: int,
    config: Seq<(String, String)>,
)
    requires
        load_next(
            engine,
            LoadPhase::ResolvingEnv { path, meta },
            LoadEvent::EnvResolved {
                socket_path,
                env: Ok::<Vec<(String, String)>, CapsuleError>(env),
            },
            after,
            action,
        ),
        after matches LoadPhase::ReadingWasm { config: c, .. } && c@ == config,
    ensures
        action matches LoadAction::ReadWasm(p) && p == path,
        0 <= n < env@.len() && (forall|k: int|
            n < k < env@.len() ==> (#[trigger] env@[k]).0@ != env@[n].0@) ==> exists|m: int|
            0 <= m < config.len() && (#[trigger] config[m]).0@ == env@[n].0@ && config[m].1@
                == env@[n].1@,
        socket_path is Some && (forall|k: int|
            0 <= k < env@.len() ==> (#[trigger] env@[k]).0@ != "ASTRID_SOCKET_PATH"@) ==> exists|
            m: int,
        |
            0 <= m < config.len() && (#[trigger] config[m]).0@ == "ASTRID_SOCKET_PATH"@
                && config[m].1@ == socket_path->0@,
        forall|m: int|
            0 <= m < config.len() ==> {
                ||| exists|k: int|
                    0 <= k < env@.len() && (#[trigger] env@[k]).0@ == (#[trigger] config[m]).0@
                        && env@[k].1@ == config[m].1@
                ||| socket_path is Some && config[m].0@ == "ASTRID_SOCKET_PATH"@ && config[m].1@
                    == socket_path->0@
            },
        forall|a: int, b: int|
            0 <= a < b < config.len() ==> (#[trigger] config[a]).0@ != (#[trigger] config[b]).0@,
{
    assert(is_config_of(config, socket_path, env@));
    if 0 <= n < env@.len() && (forall|k: int|
        n < k < env@.len() ==> (#[trigger] env@[k]).0@ != env@[n].0@) {
        lemma_last_value(env@, n);
        let key = env@[n].0@;
        assert(value_of(config, key) == Some(env@[n].1@));
        lemma_values_have_places(config, key);
    }
    if socket_path is Some && (forall|k: int|
        0 <= k < env@.len() ==> (#[trigger] env@[k]).0@ != "ASTRID_SOCKET_PATH"@) {
        let key = "ASTRID_SOCKET_PATH"@;
        if value_of(env@, key) is Some {
            lemma_values_have_places(env@, key);
        }
        assert(value_of(config, key) == Some(socket_path->0@));
        lemma_values_have_places(config, key);
    }
    assert forall|m: int| 0 <= m < config.len() implies {
        ||| exists|k: int|
            0 <= k < env@.len() && (#[trigger] env@[k]).0@ == (#[trigger] config[m]).0@
                && env@[k].1@ == config[m].1@
        ||| socket_path is Some && config[m].0@ == "ASTRID_SOCKET_PATH"@ && config[m].1@
            == socket_path->0@
    } by {
        let key = config[m].0@;
        assert forall|k: int| m < k < config.len() implies (#[trigger] config[k]).0@
            != config[m].0@ by {}
        lemma_last_value(config, m);
        assert(value_of(config, key) == Some(config[m].1@));
        if value_of(env@, key) is Some {
            lemma_values_have_places(env@, key);
        }
    }
}

proof fn lemma_last_value(pairs: Seq<(String, String)>, n: int)
    requires
        0 <= n < pairs.len(),
        forall|k: int| n < k < pairs.len() ==> (#[trigger] pairs[k]).0@ != pairs[n].0@,
    ensures
        value_of(pairs, pairs[n].0@) == Some(pairs[n].1@),
    decreases pairs.len(),
{
    if n < pairs.len() - 1 {
        assert(pairs[pairs.len() - 1].0@ != pairs[n].0@);
        assert forall|k: int| n < k < pairs.drop_last().len() implies (
        #[trigger] pairs.drop_last()[k]).0@ != pairs.drop_last()[n].0@ by {
            assert(pairs[k].0@ != pairs[n].0@);
        }
        lemma_last_value(pairs.drop_last(), n);
    }
}

proof fn lemma_values_have_places(pairs: Seq<(String, String)>, key: Seq<char>)
    requires
        value_of(pairs, key) is Some,
    ensures
        exists|k: int|
            0 <= k < pairs.len() && (#[trigger] pairs[k]).0@ == key && pairs[k].1@ == value_of(
                pairs,
                key,
            )->0,
    decreases pairs.len(),
{
    if pairs.last().0@ == key {
        assert(pairs[pairs.len() - 1].0@ == key);
    } else {
        lemma_values_have_places(pairs.drop_last(), key);
        let k = choose|k: int|
            0 <= k < pairs.drop_last().len() && (#[trigger] pairs.drop_last()[k]).0@ == key
                && pairs.drop_last()[k].1@ == value_of(pairs.drop_last(), key)->0;
        assert(pairs[k].0@ == key);
    }
}

/// Loading fails exactly where there is a reason to: there is no component, the
/// environment, the binary, the workspace or the instances could not be had, the
/// binary is not the recorded one, the name is not valid, or a run loop has too
/// many topics or a malformed one.
pub proof fn loading_fails_only_for_a_reason(
    engine: WasmEngine,
    before: LoadPhase,
    event: LoadEvent,
    after: LoadPhase,
    action: LoadAction,
)
    requires
        load_next(engine, before, event, after, action),
    ensures
        after is Failed <==> action is Abort,
        after is Failed <==> {
            ||| event is Begin && engine.manifest.components@.len() == 0
            ||| event matches LoadEvent::EnvResolved { env, .. } && env is Err
            ||| event matches LoadEvent::WasmRead(read) && (read is Err || !(
            before matches LoadPhase::ReadingWasm { meta, .. } && hash_in(meta) == Some(
                blake3_hex(read->Ok_0@),
            )))
            ||| event matches LoadEvent::Mounted { registered, .. } && registered is Err
            ||| event matches LoadEvent::NameChecked(valid) && valid is Err
            ||| event matches LoadEvent::InstancesBuilt(built) && (built is Err || (
            before matches LoadPhase::Building { plan, .. } && plan.has_run && (handled(
                engine.manifest.subscribes@,
            ).len() > 64 || exists|i: int|
                0 <= i < handled(engine.manifest.subscribes@).len() && !valid_segments(
                    (#[trigger] handled(engine.manifest.subscribes@)[i]).topic@,
                ))))
        },
{
    if let (LoadPhase::Building { plan, .. }, LoadEvent::InstancesBuilt(Ok(()))) = (before, event) {
        let wanted = handled(engine.manifest.subscribes@);
        let defs = choose|defs: Seq<InterceptorDef>| #[trigger]
            binds_all(defs, wanted) && match attach_fault(engine, plan, defs) {
                Some(fault) => load_fails(after, action, fault),
                None => after is Preparing || after is Built,
            };
        assert(binds_all(defs, wanted));
        if plan.has_run {
            lemma_bad_topics(engine.manifest.package.name@, defs, wanted);
        }
    }
}

proof fn lemma_bad_topics(name: Seq<char>, defs: Seq<InterceptorDef>, wanted: Seq<SubscribeDef>)
    requires
        binds_all(defs, wanted),
    ensures
        interceptors_fault(name, defs) is Some <==> wanted.len() > 64 || exists|i: int|
            0 <= i < wanted.len() && !valid_segments((#[trigger] wanted[i]).topic@),
{
    let faults = defs.map_values(|d: InterceptorDef| event_fault(d.event@));
    if defs.len() <= 64 {
        if forall|i: int| 0 <= i < wanted.len() ==> valid_segments((#[trigger] wanted[i]).topic@) {
            assert forall|i: int| 0 <= i < faults.len() implies (#[trigger] faults[i]) is None by {
                assert(binds(defs[i], wanted[i]));
                assert(valid_segments(wanted[i].topic@));
            }
            lemma_first_some_none(faults);
        } else {
            let i = choose|i: int|
                0 <= i < wanted.len() && !valid_segments((#[trigger] wanted[i]).topic@);
            assert(binds(defs[i], wanted[i]));
            assert(faults[i] is Some);
            lemma_some_is_found(faults, i);
        }
    }
}

proof fn lemma_some_is_found<T>(list: Seq<Option<T>>, i: int)
    requires
        0 <= i < list.len(),
        list[i] is Some,
    ensures
        first_some(list) is Some,
    decreases list.len(),
{
    if i < list.len() - 1 {
        lemma_some_is_found(list.drop_last(), i);
    }
}

/// As long as nothing fails, every answer leads on to the next question, and
/// none is left out.
pub proof fn good_answers_lead_on(
    engine: WasmEngine,
    before: LoadPhase,
    event: LoadEvent,
    after: LoadPhase,
    action: LoadAction,
)
    requires
        load_next(engine, before, event, after, action),
        !(after is Failed),
    ensures
        event is Begin ==> action is ProbeLocal || action is ReadMeta,
        event is Begin ==> (action is ReadMeta <==> is_absolute(
            engine.manifest.components@[0].path@,
        )),
        action matches LoadAction::ProbeLocal(p) ==> p@ == join(
            engine.capsule_dir@,
            engine.manifest.components@[0].path@,
        ),
        action matches LoadAction::ReadMeta(p) ==> p@ == join(engine.capsule_dir@, "meta.json"@),
        event is LocalProbed ==> action is ReadMeta,
        event is MetaRead ==> action is ProbeStored || action is ResolveEnv,
        event is StoredProbed ==> action is ResolveEnv,
        event is EnvResolved ==> action is ReadWasm,
        event is WasmRead ==> action is ProbeGit,
        event is GitProbed ==> action is Mount,
        event is Mounted ==> action is CheckName,
        event is NameChecked ==> action is ResolveOwner,
        event is OwnerResolved ==> action is Build,
        event is InstancesBuilt ==> (action is ResolveOwnerContext
            <==> before->Building_plan.has_run),
        event is InstancesBuilt ==> action is ResolveOwnerContext || action is Attach,
        event is OwnerContextFound ==> action is Attach,
        action is Attach <==> after is Built,
{
}

/// A run loop is subscribed to the topics of the entries that name a handler, in
/// order and numbered from zero; a capsule without one is subscribed to none.
pub proof fn run_loops_get_their_topics(
    engine: WasmEngine,
    before: LoadPhase,
    after: LoadPhase,
    action: LoadAction,
    i: int,
)
    requires
        load_next(
            engine,
            before,
            LoadEvent::InstancesBuilt(Ok::<(), BuildError>(())),
            after,
            action,
        ),
        !(after is Failed),
    ensures
        after matches LoadPhase::Preparing { handles, .. } ==> {
            let wanted = handled(engine.manifest.subscribes@);
            &&& handles@.len() == wanted.len()
            &&& 0 <= i < handles@.len() ==> handles@[i].handle_id == i && handles@[i].topic@
                == wanted[i].topic@ && handles@[i].action@ == wanted[i].handler->0@
        },
        after matches LoadPhase::Built { handles, .. } ==> handles@.len() == 0,
{
    let wanted = handled(engine.manifest.subscribes@);
    if after is Preparing {
        let plan = before->Building_plan;
        let handles = after->Preparing_handles@;
        let defs = choose|defs: Seq<InterceptorDef>| #[trigger]
            binds_all(defs, wanted) && match attach_fault(engine, plan, defs) {
                Some(fault) => load_fails(after, action, fault),
                None => handles_for(handles, defs),
            };
        assert(binds_all(defs, wanted));
        if 0 <= i < handles.len() {
            assert(binds(defs[i], wanted[i]));
        }
    }
}

/// What is left to do once everything is built: the identity is registered under
/// the hash of the binary, then the topics, then the ticker is started; where
/// there are host processes they are looked after, and a run loop is started
/// last of all.
pub proof fn attaching_leaves_nothing_out(
    before: WasmEngine,
    phase: LoadPhase,
    services: InstanceServices,
    after: WasmEngine,
    list: Seq<AttachAction>,
)
    requires
        finishes(before, phase, services, after, list),
    ensures
        ({
            let plan = phase->Built_plan;
            let n: int = if plan.has_run {
                1
            } else {
                0
            };
            &&& list.len() == 3 + 2 * n + if plan.watches_processes {
                1int
            } else {
                0
            }
            &&& list[n] is RegisterIdentity
            &&& list[n]->hash@ == blake3_hex(phase->Built_wasm.content())
            &&& list[n]->id == uuid_v5(
                CAPSULE_ID_NAMESPACE,
                encode_utf8(
                    before.manifest.package.name@ + "\0"@ + blake3_hex(
                        phase->Built_wasm.content(),
                    ),
                ),
            )
            &&& list[n + 1] is RegisterTopics
            &&& list[n + 2] is StartTicker
            &&& plan.watches_processes ==> list[n + 3] is WatchProcesses
            &&& plan.has_run ==> list[0] is InstallOwnerContext && list[list.len() - 1]
                is StartRunLoop
            &&& after.holdings.runtime && after.holdings.cancel_token
                && after.holdings.epoch_ticker
            &&& after.holdings.inbound_rx == (plan.inbound_capacity is Some)
            &&& after.holdings.workspace_cow == phase->Built_workspace.has_backend
            &&& after.owner_principal is Some && after.owner_principal->0@ == services.owner@
            &&& after.listeners is Some && after.listeners->0.is_shared() == (plan.workers > 1)
            &&& after.connections is Some
            &&& after.principal_cancel_tokens is Some
            &&& after.manifest == before.manifest
        }),
{
}

/// An instance has what the manifest declares and no more: its topics, its
/// capabilities and its gate are the manifest's, the listener and the session
/// come with a bind entry alone, and its stores are nobody's.
pub proof fn instances_have_what_the_manifest_declares(
    engine: WasmEngine,
    phase: LoadPhase,
    services: InstanceServices,
    state: HostState,
    profile: Option<&PrincipalProfile>,
    check: Option<&CapabilityCheck>,
    i: int,
    name: Seq<char>,
)
    requires
        is_state_of_phase(engine, phase, services, state),
        held_plan(phase) is Some,
        is_plan_for(
            held_plan(phase)->0,
            engine.manifest,
            held_wasm(phase)->0,
            profile,
            check,
            engine.runtime_limits,
        ),
    ensures
        state.ipc_publish_patterns@.len() == engine.manifest.publishes@.len(),
        0 <= i < engine.manifest.publishes@.len() ==> state.ipc_publish_patterns@[i]@
            == engine.manifest.publishes@[i].topic@,
        state.ipc_subscribe_patterns@.len() == engine.manifest.subscribes@.len(),
        0 <= i < engine.manifest.subscribes@.len() ==> state.ipc_subscribe_patterns@[i]@
            == engine.manifest.subscribes@[i].topic@,
        texts(state.capability_names@).contains(name) == engine.manifest.capabilities.holds(name),
        state.has_uplink_capability == engine.manifest.capabilities.uplink,
        state.has_socket_listener <==> engine.manifest.capabilities.net_bind@.len() > 0
            && services.socket_listener,
        state.has_session_token <==> engine.manifest.capabilities.net_bind@.len() > 0
            && services.session_token,
        state.has_inbound == (engine.manifest.uplinks@.len() > 0),
        state.audit_firehose ==> profile is Some && check is Some && check->0.audit_read_all,
        state.security is Some,
        state.security->0.caps().net@ == engine.manifest.capabilities.net@,
        state.security->0.caps().net_connect@ == engine.manifest.capabilities.net_connect@,
        state.security->0.caps().net_bind@ == engine.manifest.capabilities.net_bind@,
        state.security->0.caps().fs_read@ == engine.manifest.capabilities.fs_read@,
        state.security->0.caps().fs_write@ == engine.manifest.capabilities.fs_write@,
        state.security->0.caps().host_process@ == engine.manifest.capabilities.host_process@,
        state.security->0.caps().identity@ == engine.manifest.capabilities.identity@,
        state.security->0.default_home() is None,
        state.security->0.workspace() == workspace_of(phase)->0.canonical_root@,
        state.workspace_root@ == workspace_of(phase)->0.root@,
        state.spawn_mask_paths@ == workspace_of(phase)->0.masked@,
        state.capsule_id@ == engine.manifest.package.name@,
        state.principal@ == services.owner@,
        state.kv@ == "astrid:neutral"@,
        state.secret_store is Neutral,
        state.home is None && state.tmp is None && state.capsule_log is None,
        state.caller_context is None && state.invocation_kv is None,
        state.invocation_secret_store is None && state.invocation_home is None,
        state.net_stream_count == 0,
        slots_of(state.resource_table).dom() == Set::<u32>::empty(),
{
    let topics = engine.manifest.publishes@.map_values(|d: PublishDef| d.topic@);
    assert(texts(state.ipc_publish_patterns@).len() == topics.len());
    if 0 <= i < engine.manifest.publishes@.len() {
        assert(texts(state.ipc_publish_patterns@)[i] == topics[i]);
    }
    let wanted = engine.manifest.subscribes@.map_values(|d: SubscribeDef| d.topic@);
    assert(texts(state.ipc_subscribe_patterns@).len() == wanted.len());
    if 0 <= i < engine.manifest.subscribes@.len() {
        assert(texts(state.ipc_subscribe_patterns@)[i] == wanted[i]);
    }
}

/// The plan is made for the binary that was verified, the manifest that is
/// loaded and the owner that was found, with the limits of the host.
pub proof fn plans_are_made_for_the_owner_that_was_found(
    engine: WasmEngine,
    phases: Seq<LoadPhase>,
    events: Seq<LoadEvent>,
    actions: Seq<LoadAction>,
    i: int,
    j: int,
)
    requires
        is_load_course(engine, phases, events, actions),
        0 <= i < events.len(),
        events[i] is OwnerResolved,
        0 <= j < phases.len(),
        held_plan(phases[j]) is Some,
    ensures
        ({
            let profile = match events[i]->OwnerResolved_profile {
                Some(p) => Some(&p),
                None => None,
            };
            let check = match events[i]->OwnerResolved_check {
                Some(a) => Some(&a),
                None => None,
            };
            is_plan_for(
                held_plan(phases[j])->0,
                engine.manifest,
                held_wasm(phases[j])->0,
                profile,
                check,
                engine.runtime_limits,
            )
        }),
    decreases j,
{
    assert(load_next(engine, phases[i], events[i], phases[i + 1], actions[i]));
    if j <= i {
        if j < i {
            loading_moves_on(engine, phases, events, actions, j, i);
        }
    } else if j > i + 1 {
        let k = j - 1;
        assert(load_next(engine, phases[k], events[k], phases[j], actions[k]));
        if k > i + 1 {
            loading_moves_on(engine, phases, events, actions, i + 1, k);
        }
        assert(held_plan(phases[k]) is Some);
        plans_are_made_for_the_owner_that_was_found(engine, phases, events, actions, i, k);
    }
}

/// The configuration of a phase that holds one.
pub open spec fn held_config(phase: LoadPhase) -> Option<Vec<(String, String)>> {
    match phase {
        LoadPhase::ReadingWasm { config, .. } => Some(config),
        LoadPhase::ProbingGit { config, .. } => Some(config),
        LoadPhase::Mounting { config, .. } => Some(config),
        LoadPhase::CheckingName { config, .. } => Some(config),
        LoadPhase::ResolvingOwner { config, .. } => Some(config),
        LoadPhase::Building { config, .. } => Some(config),
        LoadPhase::Preparing { config, .. } => Some(config),
        LoadPhase::Built { config, .. } => Some(config),
        _ => None,
    }
}

/// What was found out in a course of loading is not lost or changed later: the
/// configuration, the binary, the workspace, the plan and the topics.
pub proof fn findings_are_kept(
    engine: WasmEngine,
    before: LoadPhase,
    event: LoadEvent,
    after: LoadPhase,
    action: LoadAction,
)
    requires
        load_next(engine, before, event, after, action),
        !(after is Failed),
    ensures
        held_config(before) is Some ==> held_config(after) == held_config(before),
        held_wasm(before) is Some ==> held_wasm(after) == held_wasm(before),
        mounted_workspace(before) is Some ==> mounted_workspace(after) == mounted_workspace(before),
        held_plan(before) is Some ==> held_plan(after) == held_plan(before),
        before is Preparing ==> after is Built && after->Built_handles == before->Preparing_handles
            && event is OwnerContextFound && after->context
            == Some(event->OwnerContextFound_0),
{
}

/// A run loop starts with the environment, the log and the directories of its
/// owner, where the owner's scope could be made, and with its topics; with
/// everything else it is like any other instance.
pub proof fn run_loop_states_are_the_owners(
    engine: WasmEngine,
    phase: LoadPhase,
    services: InstanceServices,
    context: OwnerContext,
    state: HostState,
)
    requires
        is_run_loop_state(engine, phase, services, context, state),
    ensures
        phase is Built,
        phase->Built_plan.has_run,
        state.interceptor_handles@ == phase->Built_handles@,
        context.env matches Some(env) ==> state.invocation_env_overlay is Some
            && state.invocation_env_overlay->0@ == env@,
        context.env is None ==> state.invocation_env_overlay is None,
        context.kv_ok ==> {
            &&& state.invocation_kv is Some
            &&& state.invocation_kv->0@ == services.owner@ + ":capsule:"@ + state.capsule_id@
            &&& state.invocation_secret_store matches Some(SecretScope::Service(name)) && name@
                == state.capsule_id@ + ":"@ + services.owner@
            &&& state.invocation_capsule_log == context.log
            &&& state.invocation_home == context.bundle.home
            &&& state.invocation_tmp == context.bundle.tmp
        },
        !context.kv_ok ==> state.invocation_kv is None && state.invocation_secret_store is None
            && state.invocation_capsule_log is None && state.invocation_home is None
            && state.invocation_tmp is None,
        state.caller_context is None && !state.interceptor_active,
        state.invocation_profile is None,
        exists|base: HostState| #[trigger]
            is_state_of_phase(engine, phase, services, base) && state.principal == base.principal
                && state.kv == base.kv && state.security == base.security && state.config
                == base.config && state.capsule_uuid == base.capsule_uuid && state.capsule_id
                == base.capsule_id && state.memory_limit == base.memory_limit
                && state.workspace_root == base.workspace_root,
{
    let base = choose|base: HostState| #[trigger]
        is_state_of_phase(engine, phase, services, base) && same_but_for_owner(base, state);
    assert(is_state_of_phase(engine, phase, services, base));
    assert(state.principal == base.principal);
}

/// Every worker of a run loop gets a state, and all of them are cancelled
/// together, by the token of the owner.
pub proof fn every_worker_gets_a_state(
    before: WasmEngine,
    phase: LoadPhase,
    services: InstanceServices,
    after: WasmEngine,
    list: Seq<AttachAction>,
    i: int,
    j: int,
)
    requires
        finishes(before, phase, services, after, list),
        phase->Built_plan.has_run,
        0 <= i < phase->Built_plan.workers,
        0 <= j < phase->Built_plan.workers,
    ensures
        list[0] is InstallOwnerContext,
        list[0]->states@.len() == phase->Built_plan.workers,
        list[0]->owner@ == services.owner@,
        list[0]->states@[i].invocation_cancel_token is Some,
        list[0]->states@[i].invocation_cancel_token == list[0]->states@[j].invocation_cancel_token,
        after.principal_cancel_tokens->0.token_of(services.owner@)
            == list[0]->states@[i].invocation_cancel_token,
{
    let states = installed_states(list);
    assert(states == list[0]->states@);
    assert(states[i].invocation_cancel_token
        == after.principal_cancel_tokens->0.token_of(services.owner@));
    assert(states[j].invocation_cancel_token
        == after.principal_cancel_tokens->0.token_of(services.owner@));
}

}
