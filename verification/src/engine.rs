//! The engine of one capsule: what it holds while the capsule is loaded, and
//! what it does when the capsule is loaded, committed, asked after or
//! unloaded.

use vstd::prelude::*;
use vstd::string::*;

use crate::error::CapsuleError;
use crate::host_state::{CancelTokens, ConnectionRegistry, HostState, SharedListeners};
use crate::load::{
    capsule_source_id, entry_failure, identity_seed, is_entry_error, LoadPlan, RuntimeLimits,
    CAPSULE_ID_NAMESPACE,
};
use crate::foreign::uuid_v5;
use crate::manifest::CapsuleManifest;
use vstd::utf8::*;

verus! {

/// What an engine holds.
#[derive(Debug, Clone, Copy, PartialEq, Eq, Structural)]
pub struct Holdings {
    /// The compiled runtime.
    pub runtime: bool,
    /// The pool of instances.
    pub pool: bool,
    /// The receiving end of the inbound channel.
    pub inbound_rx: bool,
    /// The task of the run loop.
    pub run_handle: bool,
    /// The channel on which the run loop reports that it is ready.
    pub ready_rx: bool,
    /// The token that cancels everything.
    pub cancel_token: bool,
    /// The epoch ticker.
    pub epoch_ticker: bool,
    /// The copy-on-write backend of the workspace.
    pub workspace_cow: bool,
}

/// Nothing.
pub open spec fn nothing() -> Holdings {
    Holdings {
        runtime: false,
        pool: false,
        inbound_rx: false,
        run_handle: false,
        ready_rx: false,
        cancel_token: false,
        epoch_ticker: false,
        workspace_cow: false,
    }
}

/// Executes one capsule.
#[derive(Debug)]
pub struct WasmEngine {
    pub manifest: CapsuleManifest,
    pub capsule_dir: String,
    pub runtime_limits: RuntimeLimits,
    pub holdings: Holdings,
    /// The tokens of principals, once the capsule was loaded. All instances
    /// share them.
    pub principal_cancel_tokens: Option<CancelTokens>,
    /// The open connections, once the capsule was loaded. All instances share
    /// them.
    pub connections: Option<ConnectionRegistry>,
    /// The bound listeners, once the capsule was loaded. All workers share
    /// them.
    pub listeners: Option<SharedListeners>,
    /// The principal that the capsule was loaded under.
    pub owner_principal: Option<String>,
}

/// A step of building a capsule's instances.
#[derive(Debug, Clone, Copy, PartialEq, Eq, Structural)]
pub enum BuildStep {
    Engine,
    Linker,
    Compile,
    PreInstantiate,
    RunLoopFuel,
    LifecycleVfs,
    LifecycleFuel,
    LifecycleLinker,
    LifecycleCompile,
    LifecycleInstantiate,
}

/// What a failed step of building is called.
pub open spec fn build_step_text(step: BuildStep) -> Seq<char> {
    match step {
        BuildStep::Engine => "Failed to create wasmtime engine: "@,
        BuildStep::Linker => "Failed to add Astrid host to linker: "@,
        BuildStep::Compile => "Failed to compile WASM component: "@,
        BuildStep::PreInstantiate => "Failed to pre-instantiate WASM component: "@,
        BuildStep::RunLoopFuel => "Failed to set run-loop fuel: "@,
        BuildStep::LifecycleVfs => "Failed to register VFS directory for lifecycle: "@,
        BuildStep::LifecycleFuel => "Failed to set lifecycle fuel: "@,
        BuildStep::LifecycleLinker => "Failed to add Astrid host to linker for lifecycle: "@,
        BuildStep::LifecycleCompile => "Failed to compile WASM component for lifecycle: "@,
        BuildStep::LifecycleInstantiate =>
            "Failed to instantiate WASM component for lifecycle: "@,
    }
}

/// The error of a failed step of building.
pub fn build_failure(step: BuildStep, failure: &str) -> (r: CapsuleError)
    ensures
        is_entry_error(r, build_step_text(step) + failure@),
{
    let what = match step {
        BuildStep::Engine => "Failed to create wasmtime engine: ",
        BuildStep::Linker => "Failed to add Astrid host to linker: ",
        BuildStep::Compile => "Failed to compile WASM component: ",
        BuildStep::PreInstantiate => "Failed to pre-instantiate WASM component: ",
        BuildStep::RunLoopFuel => "Failed to set run-loop fuel: ",
        BuildStep::LifecycleVfs => "Failed to register VFS directory for lifecycle: ",
        BuildStep::LifecycleFuel => "Failed to set lifecycle fuel: ",
        BuildStep::LifecycleLinker => "Failed to add Astrid host to linker for lifecycle: ",
        BuildStep::LifecycleCompile => "Failed to compile WASM component for lifecycle: ",
        BuildStep::LifecycleInstantiate => "Failed to instantiate WASM component for lifecycle: ",
    };
    entry_failure(what, failure)
}

/// What is done when a capsule has been built.
#[derive(Debug)]
pub enum AttachAction {
    /// Give each instance of the run loop one of these states, which are in
    /// the context of this principal, the owner.
    InstallOwnerContext { owner: String, states: Vec<HostState> },
    /// Register the capsule's identity, with the hash of its binary.
    RegisterIdentity { id: u128, hash: String },
    /// Register the capsule's topics.
    RegisterTopics,
    /// Start the epoch ticker.
    StartTicker,
    /// Start the tasks that look after host processes.
    WatchProcesses,
    /// Start the run loop.
    StartRunLoop,
}

/// How many actions come before a capsule's identity is registered: that of
/// installing the owner's context, where there is a run loop.
pub open spec fn preparations(has_run: bool) -> int {
    if has_run {
        1
    } else {
        0
    }
}

/// Whether a list says what is done when a capsule has been built, in order:
/// the owner's context is installed before a run loop is started, and only
/// where there is one.
pub open spec fn is_attach_list(
    list: Seq<AttachAction>,
    name: Seq<char>,
    hash: Seq<char>,
    owner: Seq<char>,
    watches_processes: bool,
    has_run: bool,
) -> bool {
    let n = preparations(has_run);
    &&& list.len() == 2 * n + 3 + if watches_processes {
        1int
    } else {
        0
    }
    &&& has_run ==> (list[0] matches AttachAction::InstallOwnerContext { owner: o, .. } && o@
        == owner)
    &&& list[n] matches AttachAction::RegisterIdentity { id, hash: h } && id == uuid_v5(
        CAPSULE_ID_NAMESPACE,
        encode_utf8(identity_seed(name, hash)),
    ) && h@ == hash
    &&& list[n + 1] == AttachAction::RegisterTopics
    &&& list[n + 2] == AttachAction::StartTicker
    &&& watches_processes ==> list[n + 3] == AttachAction::WatchProcesses
    &&& has_run ==> list[list.len() - 1] == AttachAction::StartRunLoop
}

/// The states that a list of actions puts the instances of a run loop in; none
/// where there is no run loop.
pub open spec fn installed_states(list: Seq<AttachAction>) -> Seq<HostState> {
    if list.len() > 0 && list[0] is InstallOwnerContext {
        list[0]->states@
    } else {
        Seq::empty()
    }
}

/// What is done when a capsule is unloaded.
#[derive(Debug, Clone, Copy, PartialEq, Eq, Structural)]
pub enum UnloadAction {
    /// Cancel everything that waits.
    Cancel,
    /// Abort the run loop.
    AbortRunLoop,
    /// Stop the epoch ticker.
    StopTicker,
    /// Drop the pool with its instances.
    DropPool,
    /// Tear the workspace's clone down.
    TearDownWorkspace,
}

/// An action if it applies.
pub open spec fn only_if(applies: bool, action: UnloadAction) -> Seq<UnloadAction> {
    if applies {
        seq![action]
    } else {
        Seq::empty()
    }
}

/// What is done when a capsule is unloaded, in order: waits are cancelled
/// before the run loop is aborted.
pub open spec fn unload_actions(h: Holdings) -> Seq<UnloadAction> {
    only_if(h.cancel_token, UnloadAction::Cancel) + only_if(
        h.run_handle,
        UnloadAction::AbortRunLoop,
    ) + only_if(h.epoch_ticker, UnloadAction::StopTicker) + only_if(h.pool, UnloadAction::DropPool)
        + only_if(h.workspace_cow, UnloadAction::TearDownWorkspace)
}

/// How waiting for a run loop to become ready ended.
#[derive(Debug, Clone, Copy, PartialEq, Eq, Structural)]
pub enum ReadyWait {
    /// It reported that it is ready.
    Signalled,
    /// It went away before it did.
    SenderDropped,
    /// It did not in time.
    Elapsed,
}

/// Whether a capsule is ready.
#[derive(Debug, Clone, Copy, PartialEq, Eq, Structural)]
pub enum ReadyStatus {
    Ready,
    Timeout,
    Crashed,
}

/// Whether a capsule is well.
#[derive(Debug)]
pub enum CapsuleState {
    Ready,
    Failed(String),
}

/// What is done to the copy-on-write clone of a workspace.
#[derive(Debug, Clone, Copy, PartialEq, Eq, Structural)]
pub enum CowOp {
    Promote,
    Rollback,
}

/// What is known of a capsule's processes.
#[derive(Debug, Clone, Copy, PartialEq, Eq, Structural)]
pub struct ProcessCensus {
    /// Whether tracked processes are running, where processes are tracked.
    pub tracked_active: Option<bool>,
    /// How many persistent processes live, where there is a registry.
    pub persistent_live: Option<usize>,
}

impl ProcessCensus {
    /// Whether any process may still be running.
    pub open spec fn any_live(self) -> bool {
        self.tracked_active == Some(true) || (self.persistent_live is Some
            && self.persistent_live->0 > 0)
    }
}

/// What a commit of a workspace comes to.
#[derive(Debug)]
pub enum CommitStep {
    /// There is no clone to commit.
    NoWorkspace,
    /// It is refused.
    Refused(CapsuleError),
    /// It is run.
    Run(CowOp),
}

/// An execution error with the given text.
pub open spec fn is_execution_error(e: CapsuleError, message: Seq<char>) -> bool {
    match e {
        CapsuleError::ExecutionFailed(m) => m@ == message,
        _ => false,
    }
}

/// Whether an engine holds what was built for a plan, with fresh registries
/// that all instances share.
pub open spec fn holds_what_was_built(
    before: WasmEngine,
    after: WasmEngine,
    plan: LoadPlan,
    has_backend: bool,
) -> bool {
    &&& after.holdings == (Holdings {
        runtime: true,
        pool: if plan.has_run {
            before.holdings.pool
        } else {
            true
        },
        inbound_rx: plan.inbound_capacity is Some,
        run_handle: before.holdings.run_handle || plan.has_run,
        ready_rx: before.holdings.ready_rx || plan.has_run,
        cancel_token: true,
        epoch_ticker: true,
        workspace_cow: has_backend,
    })
    &&& after.connections matches Some(registry) && registry.identities().dom() == Set::<
        u32,
    >::empty()
    &&& after.listeners is Some
    &&& after.listeners->0.is_shared() == (plan.workers > 1)
    &&& forall|host: Seq<char>, port: u16|
        #[trigger] after.listeners->0.registered(host, port) is None
    &&& after.manifest == before.manifest
    &&& after.capsule_dir == before.capsule_dir
    &&& after.runtime_limits == before.runtime_limits
}

impl WasmEngine {
    /// An engine that holds nothing yet.
    pub fn new(manifest: CapsuleManifest, capsule_dir: String, runtime_limits: RuntimeLimits) -> (r:
        WasmEngine)
        ensures
            r.manifest == manifest,
            r.capsule_dir == capsule_dir,
            r.runtime_limits == runtime_limits,
            r.holdings == nothing(),
            r.principal_cancel_tokens is None,
            r.connections is None,
            r.listeners is None,
            r.owner_principal is None,
    {
        WasmEngine {
            manifest,
            capsule_dir,
            runtime_limits,
            holdings: Holdings {
                runtime: false,
                pool: false,
                inbound_rx: false,
                run_handle: false,
                ready_rx: false,
                cancel_token: false,
                epoch_ticker: false,
                workspace_cow: false,
            },
            principal_cancel_tokens: None,
            connections: None,
            listeners: None,
            owner_principal: None,
        }
    }

    /// Takes over what was built for a plan, and says what is left to do. A
    /// capsule with a run loop keeps that; any other keeps a pool. `states` are
    /// those of the run loop's instances.
    pub(crate) fn take_over(
        &mut self,
        plan: &LoadPlan,
        has_backend: bool,
        hash: &str,
        owner: &str,
        tokens: CancelTokens,
        states: Vec<HostState>,
    ) -> (r: Vec<AttachAction>)
        ensures
            is_attach_list(
                r@,
                old(self).manifest.package.name@,
                hash@,
                owner@,
                plan.watches_processes,
                plan.has_run,
            ),
            plan.has_run ==> installed_states(r@) == states@,
            holds_what_was_built(*old(self), *final(self), *plan, has_backend),
            final(self).owner_principal matches Some(o) && o@ == owner@,
            final(self).principal_cancel_tokens == Some(tokens),
    {
        let id: u128 = capsule_source_id(self.manifest.package.name.as_str(), hash);
        let mut actions: Vec<AttachAction> = Vec::new();
        if plan.has_run {
            actions.push(AttachAction::InstallOwnerContext { owner: owner.to_owned(), states });
        }
        actions.push(AttachAction::RegisterIdentity { id, hash: hash.to_owned() });
        actions.push(AttachAction::RegisterTopics);
        actions.push(AttachAction::StartTicker);
        if plan.watches_processes {
            actions.push(AttachAction::WatchProcesses);
        }
        if plan.has_run {
            actions.push(AttachAction::StartRunLoop);
        }
        self.holdings =
        Holdings {
            runtime: true,
            pool: if plan.has_run {
                self.holdings.pool
            } else {
                true
            },
            inbound_rx: plan.inbound_capacity.is_some(),
            run_handle: self.holdings.run_handle || plan.has_run,
            ready_rx: self.holdings.ready_rx || plan.has_run,
            cancel_token: true,
            epoch_ticker: true,
            workspace_cow: has_backend,
        };
        self.principal_cancel_tokens = Some(tokens);
        self.connections = Some(ConnectionRegistry::new());
        self.listeners = Some(SharedListeners::new(plan.workers));
        self.owner_principal = Some(owner.to_owned());
        actions
    }

    /// Gives up what the engine holds, and says what is to be done with it.
    /// Shared listeners are closed with the instances that use them. Changes of
    /// the workspace that were not committed are lost.
    pub fn unload(&mut self) -> (r: Vec<UnloadAction>)
        ensures
            r@ == unload_actions(old(self).holdings),
            final(self).holdings == (Holdings {
                inbound_rx: old(self).holdings.inbound_rx,
                ..nothing()
            }),
            final(self).principal_cancel_tokens == old(self).principal_cancel_tokens,
            final(self).connections == old(self).connections,
            final(self).listeners is None,
            final(self).owner_principal == old(self).owner_principal,
            final(self).manifest == old(self).manifest,
            final(self).capsule_dir == old(self).capsule_dir,
            final(self).runtime_limits == old(self).runtime_limits,
    {
        let mut actions: Vec<UnloadAction> = Vec::new();
        if self.holdings.cancel_token {
            actions.push(UnloadAction::Cancel);
        }
        if self.holdings.run_handle {
            actions.push(UnloadAction::AbortRunLoop);
        }
        if self.holdings.epoch_ticker {
            actions.push(UnloadAction::StopTicker);
        }
        if self.holdings.pool {
            actions.push(UnloadAction::DropPool);
        }
        if self.holdings.workspace_cow {
            actions.push(UnloadAction::TearDownWorkspace);
        }
        assert(actions@ =~= unload_actions(self.holdings));
        self.holdings =
        Holdings {
            runtime: false,
            pool: false,
            inbound_rx: self.holdings.inbound_rx,
            run_handle: false,
            ready_rx: false,
            cancel_token: false,
            epoch_ticker: false,
            workspace_cow: false,
        };
        self.listeners = None;
        actions
    }

    /// Takes the receiving end of the inbound channel, which can be taken
    /// once.
    pub fn take_inbound_rx(&mut self) -> (r: bool)
        ensures
            r == old(self).holdings.inbound_rx,
            *final(self) == (WasmEngine {
                holdings: Holdings { inbound_rx: false, ..old(self).holdings },
                ..*old(self)
            }),
    {
        let taken = self.holdings.inbound_rx;
        self.holdings.inbound_rx = false;
        taken
    }

    /// Whether there is something to cancel.
    pub fn request_cancel(&self) -> (r: bool)
        ensures
            r == self.holdings.cancel_token,
    {
        self.holdings.cancel_token
    }

    /// The token to cancel when a principal gives its view of the capsule up.
    /// Other principals keep theirs.
    pub fn request_cancel_for(&mut self, principal: &str) -> (r: Option<u64>)
        ensures
            match old(self).principal_cancel_tokens {
                Some(tokens) => {
                    &&& r == tokens.token_of(principal@)
                    &&& final(self).principal_cancel_tokens is Some
                    &&& final(self).principal_cancel_tokens->0.token_of(principal@) is None
                    &&& forall|p: Seq<char>|
                        p != principal@
                            ==> #[trigger] final(self).principal_cancel_tokens->0.token_of(p)
                            == tokens.token_of(p)
                },
                None => r is None && final(self).principal_cancel_tokens is None,
            },
            *final(self) == (WasmEngine {
                principal_cancel_tokens: final(self).principal_cancel_tokens,
                ..*old(self)
            }),
    {
        let mut tokens: Option<CancelTokens> = None;
        std::mem::swap(&mut tokens, &mut self.principal_cancel_tokens);
        match tokens {
            Some(found) => {
                let mut found = found;
                let token = found.cancel(principal);
                self.principal_cancel_tokens = Some(found);
                token
            },
            None => None,
        }
    }

    /// Whether the capsule is ready, given how waiting for it ended. A capsule
    /// without a run loop always is.
    pub fn wait_ready(&self, wait: ReadyWait) -> (r: ReadyStatus)
        ensures
            r == if !self.holdings.ready_rx {
                ReadyStatus::Ready
            } else {
                match wait {
                    ReadyWait::Signalled => ReadyStatus::Ready,
                    ReadyWait::SenderDropped => ReadyStatus::Crashed,
                    ReadyWait::Elapsed => ReadyStatus::Timeout,
                }
            },
    {
        if !self.holdings.ready_rx {
            return ReadyStatus::Ready;
        }
        match wait {
            ReadyWait::Signalled => ReadyStatus::Ready,
            ReadyWait::SenderDropped => ReadyStatus::Crashed,
            ReadyWait::Elapsed => ReadyStatus::Timeout,
        }
    }

    /// Whether the capsule is well: its run loop, if it has one, must not have
    /// ended.
    pub fn check_health(&self, run_finished: bool) -> (r: CapsuleState)
        ensures
            match r {
                CapsuleState::Ready => !(self.holdings.run_handle && run_finished),
                CapsuleState::Failed(reason) => self.holdings.run_handle && run_finished
                    && reason@ == "WASM run loop exited unexpectedly"@,
            },
    {
        if self.holdings.run_handle && run_finished {
            CapsuleState::Failed("WASM run loop exited unexpectedly".to_owned())
        } else {
            CapsuleState::Ready
        }
    }

    /// What a commit of the workspace comes to.
    pub open spec fn commit_is(
        &self,
        op: CowOp,
        exclusive: bool,
        census: ProcessCensus,
        step: CommitStep,
    ) -> bool {
        if !self.holdings.workspace_cow {
            step == CommitStep::NoWorkspace
        } else if self.holdings.pool && !exclusive {
            step matches CommitStep::Refused(e) && is_execution_error(
                e,
                "workspace commit refused: an invocation is in flight; retry when the capsule is idle"@,
            )
        } else if census.any_live() {
            step matches CommitStep::Refused(e) && is_execution_error(
                e,
                "workspace commit refused: a spawned child process is still running; retry when the capsule is idle"@,
            )
        } else {
            step == CommitStep::Run(op)
        }
    }

    /// Decides a commit of the workspace. `exclusive` says whether every
    /// instance of the pool could be had at once.
    pub fn commit_workspace(&self, op: CowOp, exclusive: bool, census: ProcessCensus) -> (r:
        CommitStep)
        ensures
            self.commit_is(op, exclusive, census, r),
    {
        if !self.holdings.workspace_cow {
            return CommitStep::NoWorkspace;
        }
        if self.holdings.pool && !exclusive {
            return CommitStep::Refused(
                CapsuleError::ExecutionFailed(
                    "workspace commit refused: an invocation is in flight; retry when the capsule is idle".to_owned(),
                ),
            );
        }
        let running = match census.tracked_active {
            Some(active) => active,
            None => false,
        };
        let persistent = match census.persistent_live {
            Some(n) => n > 0,
            None => false,
        };
        if running || persistent {
            return CommitStep::Refused(
                CapsuleError::ExecutionFailed(
                    "workspace commit refused: a spawned child process is still running; retry when the capsule is idle".to_owned(),
                ),
            );
        }
        CommitStep::Run(op)
    }

    /// Decides whether the workspace's changes are taken over.
    pub fn promote_workspace(&self, exclusive: bool, census: ProcessCensus) -> (r: CommitStep)
        ensures
            self.commit_is(CowOp::Promote, exclusive, census, r),
    {
        self.commit_workspace(CowOp::Promote, exclusive, census)
    }

    /// Decides whether the workspace's changes are thrown away.
    pub fn rollback_workspace(&self, exclusive: bool, census: ProcessCensus) -> (r: CommitStep)
        ensures
            self.commit_is(CowOp::Rollback, exclusive, census, r),
    {
        self.commit_workspace(CowOp::Rollback, exclusive, census)
    }
}

/// How running a workspace operation ended.
#[derive(Debug)]
pub enum CowOutcome {
    Done,
    /// The operation failed.
    Failed(String),
    /// The task that ran it panicked.
    Panicked(String),
}

/// The result of a workspace operation that was run.
pub fn run_workspace_cow_op(outcome: CowOutcome) -> (r: Result<bool, CapsuleError>)
    ensures
        match outcome {
            CowOutcome::Done => r == Ok::<bool, CapsuleError>(true),
            CowOutcome::Failed(e) => r matches Err(x) && is_execution_error(
                x,
                "workspace CoW operation failed: "@ + e@,
            ),
            CowOutcome::Panicked(e) => r matches Err(x) && is_execution_error(
                x,
                "workspace CoW task panicked: "@ + e@,
            ),
        },
{
    match outcome {
        CowOutcome::Done => Ok(true),
        CowOutcome::Failed(e) => {
            let mut message = "workspace CoW operation failed: ".to_owned();
            message.append(e.as_str());
            Err(CapsuleError::ExecutionFailed(message))
        },
        CowOutcome::Panicked(e) => {
            let mut message = "workspace CoW task panicked: ".to_owned();
            message.append(e.as_str());
            Err(CapsuleError::ExecutionFailed(message))
        },
    }
}

/// A workspace is committed only while nothing can be running in it: no pooled
/// invocation is in flight and no process lives.
pub proof fn commits_need_quiescence(
    engine: WasmEngine,
    op: CowOp,
    exclusive: bool,
    census: ProcessCensus,
    step: CommitStep,
)
    requires
        engine.commit_is(op, exclusive, census, step),
        step is Run,
    ensures
        engine.holdings.workspace_cow,
        engine.holdings.pool ==> exclusive,
        !census.any_live(),
{
}

/// Unloading twice does nothing the second time.
pub proof fn unloading_is_idempotent(before: Holdings, after: Holdings)
    requires
        after == (Holdings { inbound_rx: before.inbound_rx, ..nothing() }),
    ensures
        unload_actions(after) == Seq::<UnloadAction>::empty(),
{
    assert(unload_actions(after) =~= Seq::<UnloadAction>::empty());
}

/// A freshly loaded capsule has either a run loop or a pool, never both.
pub proof fn loaded_capsules_run_or_are_pooled(
    before: WasmEngine,
    after: WasmEngine,
    plan: LoadPlan,
    has_backend: bool,
)
    requires
        before.holdings == nothing(),
        holds_what_was_built(before, after, plan, has_backend),
    ensures
        after.holdings.run_handle == plan.has_run,
        after.holdings.pool != after.holdings.run_handle,
        after.holdings.ready_rx == after.holdings.run_handle,
{
}

/// A workspace is committed exactly where there is a clone, no pooled call is in
/// flight, no tracked process runs and no persistent one lives; and then with
/// the operation that was asked for.
pub proof fn quiet_workspaces_are_committed(
    engine: WasmEngine,
    op: CowOp,
    exclusive: bool,
    census: ProcessCensus,
    step: CommitStep,
)
    requires
        engine.commit_is(op, exclusive, census, step),
    ensures
        ({
            let busy = (engine.holdings.pool && !exclusive) || census.tracked_active == Some(true)
                || (census.persistent_live is Some && census.persistent_live->0 > 0);
            &&& step is NoWorkspace <==> !engine.holdings.workspace_cow
            &&& step is Run <==> engine.holdings.workspace_cow && !busy
            &&& step is Refused <==> engine.holdings.workspace_cow && busy
        }),
        step is Run ==> step->Run_0 == op,
        step is Refused ==> step->Refused_0 is ExecutionFailed,
{
}

/// Unloading gives up everything that is held, each thing once, and nothing else:
/// waits are cancelled first of all, and the workspace is torn down last.
pub proof fn unloading_gives_everything_up(h: Holdings)
    ensures
        unload_actions(h).contains(UnloadAction::Cancel) == h.cancel_token,
        unload_actions(h).contains(UnloadAction::AbortRunLoop) == h.run_handle,
        unload_actions(h).contains(UnloadAction::StopTicker) == h.epoch_ticker,
        unload_actions(h).contains(UnloadAction::DropPool) == h.pool,
        unload_actions(h).contains(UnloadAction::TearDownWorkspace) == h.workspace_cow,
        unload_actions(h).no_duplicates(),
        h.cancel_token ==> unload_actions(h)[0] == UnloadAction::Cancel,
        h.workspace_cow ==> unload_actions(h).last() == UnloadAction::TearDownWorkspace,
{
    let a = only_if(h.cancel_token, UnloadAction::Cancel);
    let b = only_if(h.run_handle, UnloadAction::AbortRunLoop);
    let c = only_if(h.epoch_ticker, UnloadAction::StopTicker);
    let d = only_if(h.pool, UnloadAction::DropPool);
    let e = only_if(h.workspace_cow, UnloadAction::TearDownWorkspace);
    let all = unload_actions(h);
    assert(all == a + b + c + d + e);
    let n1 = a.len() as int;
    let n2 = n1 + b.len();
    let n3 = n2 + c.len();
    let n4 = n3 + d.len();
    if h.cancel_token {
        assert(all[0] == UnloadAction::Cancel);
    }
    if h.run_handle {
        assert(all[n1] == UnloadAction::AbortRunLoop);
    }
    if h.epoch_ticker {
        assert(all[n2] == UnloadAction::StopTicker);
    }
    if h.pool {
        assert(all[n3] == UnloadAction::DropPool);
    }
    if h.workspace_cow {
        assert(all[n4] == UnloadAction::TearDownWorkspace);
        assert(all.last() == UnloadAction::TearDownWorkspace);
    }
    assert forall|i: int| 0 <= i < all.len() implies {
        ||| #[trigger] all[i] == UnloadAction::Cancel && h.cancel_token && i == 0
        ||| all[i] == UnloadAction::AbortRunLoop && h.run_handle && i == n1
        ||| all[i] == UnloadAction::StopTicker && h.epoch_ticker && i == n2
        ||| all[i] == UnloadAction::DropPool && h.pool && i == n3
        ||| all[i] == UnloadAction::TearDownWorkspace && h.workspace_cow && i == n4
    } by {}
}

/// What a load builds, an unload gives up again: waits are cancelled, the ticker
/// is stopped, the run loop is aborted where there is one and else the pool is
/// dropped, and the workspace's clone is torn down where there is one. The
/// registries begin empty, and listeners are shared exactly among several
/// workers.
pub proof fn what_was_built_is_given_up(
    before: WasmEngine,
    after: WasmEngine,
    plan: LoadPlan,
    has_backend: bool,
    rep: u32,
    host: Seq<char>,
    port: u16,
)
    requires
        before.holdings == nothing(),
        holds_what_was_built(before, after, plan, has_backend),
    ensures
        ({
            let actions = unload_actions(after.holdings);
            &&& actions.contains(UnloadAction::Cancel)
            &&& actions.contains(UnloadAction::StopTicker)
            &&& actions.contains(UnloadAction::AbortRunLoop) == plan.has_run
            &&& actions.contains(UnloadAction::DropPool) == !plan.has_run
            &&& actions.contains(UnloadAction::TearDownWorkspace) == has_backend
        }),
        after.holdings.runtime,
        after.holdings.inbound_rx == (plan.inbound_capacity is Some),
        after.connections is Some && !after.connections->0.identities().contains_key(rep),
        after.listeners is Some && after.listeners->0.registered(host, port) is None,
        after.listeners->0.is_shared() == (plan.workers > 1),
        after.manifest == before.manifest && after.capsule_dir == before.capsule_dir,
        after.runtime_limits == before.runtime_limits,
{
    unloading_gives_everything_up(after.holdings);
}

}
