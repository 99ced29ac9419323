use astrid_capsule::budget::{
    CapabilityCheck, PrincipalProfile, Quotas, DEFAULT_RUN_LOOP_WINDOW_TICKS,
    INTERCEPTOR_FUEL_BUDGET,
};
use astrid_capsule::capabilities::CapabilitiesDef;
use astrid_capsule::engine::{
    build_failure, run_workspace_cow_op, AttachAction, BuildStep, CapsuleState, CommitStep, CowOp,
    CowOutcome, ProcessCensus, ReadyStatus, ReadyWait, UnloadAction, WasmEngine,
};
use astrid_capsule::error::CapsuleError;
use astrid_capsule::host_state::{
    CallerContext, CancelTokens, InstanceServices, OwnerContext, PrincipalMount,
    PrincipalVfsBundle, SecretScope, NEUTRAL_KV_NAMESPACE,
};
use astrid_capsule::invoke::{
    call_hook_trigger, CallOutcome, FuelCharge, HookTriggerOutput, Interception, InvokeAction,
    InvokeEvent, InvokePhase, Services,
};
use astrid_capsule::load::{
    build_wasm_config, capsule_source_id, check_integrity, choose_wasm_path, choose_workspace,
    locate_component, plan_given, plan_interceptors, plan_load, read_expected_wasm_hash,
    reserved_config_keys, resolve_content_addressed_wasm, secret_env_keys, stored_wasm_path,
    workspace_setup, ComponentLocation, InterceptorHandle, LoadPlan, MountedRoot, RuntimeLimits, VerifiedWasm, WorkspaceChoice, WorkspaceSetup,
};
use astrid_capsule::loading::{BuildError, LoadAction, LoadEvent, LoadPhase};
use astrid_capsule::manifest::{
    CapsuleManifest, ComponentDef, EnvDef, InterceptorDef, PackageDef, PublishDef, SubscribeDef,
    UplinkDef,
};
use wasm_encoder::{
    CodeSection, ExportKind, ExportSection, Function, FunctionSection, Instruction, Module,
    TypeSection,
};

/// A module that exports one function under each name.
fn module(names: &[&str]) -> Vec<u8> {
    let mut module = Module::new();
    let mut types = TypeSection::new();
    types.ty().function(vec![], vec![]);
    module.section(&types);
    let mut functions = FunctionSection::new();
    for _ in names {
        functions.function(0);
    }
    module.section(&functions);
    let mut exports = ExportSection::new();
    for (i, name) in names.iter().enumerate() {
        exports.export(name, ExportKind::Func, i as u32);
    }
    module.section(&exports);
    let mut code = CodeSection::new();
    for _ in names {
        let mut f = Function::new(vec![]);
        f.instruction(&Instruction::End);
        code.function(&f);
    }
    module.section(&code);
    module.finish()
}

fn meta_for(bytes: &[u8]) -> String {
    format!("{{\"wasm_hash\": \"{}\"}}", blake3::hash(bytes).to_hex())
}

fn manifest() -> CapsuleManifest {
    CapsuleManifest {
        package: PackageDef { name: "git".into(), version: "1.0.0".into(), astrid_version: None },
        components: vec![ComponentDef { path: "git.wasm".into(), capabilities: None }],
        imports: vec![],
        exports: vec![],
        capabilities: CapabilitiesDef::default(),
        env: vec![],
        commands: vec![],
        uplinks: vec![],
        publishes: vec![],
        subscribes: vec![],
    }
}

/// A root that is reached through a link.
fn root(path: &str) -> MountedRoot {
    MountedRoot { path: path.into(), canonical: format!("/real{path}") }
}

fn workspace(path: &str, has_backend: bool) -> WorkspaceSetup {
    WorkspaceSetup {
        root: path.into(),
        canonical_root: path.into(),
        has_backend,
        masked: vec![],
    }
}

/// What surrounds a capsule that is loaded under the owner.
fn around(owner: &str) -> InstanceServices {
    InstanceServices {
        owner: owner.into(),
        local_egress: vec![],
        socket_listener: true,
        session_token: true,
        identity_store: false,
        allowance_store: true,
        capsule_registry: false,
        profile_cache: false,
        audited: false,
    }
}

fn caller(principal: Option<&str>) -> Option<CallerContext> {
    Some(CallerContext { principal: principal.map(String::from) })
}

fn limits() -> RuntimeLimits {
    RuntimeLimits { instance_pool_size: 16, instance_pool_min_idle: 2 }
}

fn engine(manifest: CapsuleManifest) -> WasmEngine {
    WasmEngine::new(manifest, "/caps/git".into(), limits())
}

fn profile() -> PrincipalProfile {
    PrincipalProfile {
        enabled: true,
        quotas: Quotas {
            max_memory_bytes: 1024,
            max_timeout_secs: 3,
            max_cpu_fuel_per_sec: 500,
        },
    }
}

fn answers() -> CapabilityCheck {
    CapabilityCheck {
        resources_unbounded: false,
        net_bind: false,
        uplink: false,
        audit_read_all: false,
    }
}

fn verified(names: &[&str]) -> VerifiedWasm {
    let bytes = module(names);
    let meta = meta_for(&bytes);
    VerifiedWasm::verify("git", Ok(bytes), Some(&meta)).expect("hash matches")
}

fn plan(manifest: &CapsuleManifest, names: &[&str]) -> LoadPlan {
    plan_load(manifest, &verified(names), Some(&profile()), Some(&answers()), limits())
}

#[test]
fn recorded_hashes_are_read_from_meta() {
    assert_eq!(
        read_expected_wasm_hash(Some("{\"wasm_hash\": \"abc\"}")).as_deref(),
        Some("abc")
    );
    assert_eq!(read_expected_wasm_hash(Some("{\"wasm_hash\": 3}")), None);
    assert_eq!(read_expected_wasm_hash(Some("{}")), None);
    assert_eq!(read_expected_wasm_hash(Some("[")), None);
    assert_eq!(read_expected_wasm_hash(None), None);
}

#[test]
fn stored_binaries_are_named_by_hash() {
    assert_eq!(
        resolve_content_addressed_wasm(Some("{\"wasm_hash\": \"abc\"}"), Some("/root/.astrid"))
            .as_deref(),
        Some("/root/.astrid/lib/abc.wasm")
    );
    assert_eq!(stored_wasm_path("/h", "abc"), "/h/lib/abc.wasm");
    assert_eq!(resolve_content_addressed_wasm(Some("{}"), Some("/h")), None);
    assert_eq!(resolve_content_addressed_wasm(Some("{\"wasm_hash\": \"abc\"}"), None), None);
}

#[test]
fn binaries_are_located_and_chosen() {
    let location = locate_component(&manifest(), "/caps/git").expect("has a component");
    assert_eq!(location.path, "/caps/git/git.wasm");
    assert!(!location.absolute);
    let mut m = manifest();
    m.components[0].path = "/opt/x.wasm".into();
    let location = locate_component(&m, "/caps/git").expect("has a component");
    assert_eq!(location.path, "/opt/x.wasm");
    assert!(location.absolute);
    m.components.clear();
    match locate_component(&m, "/caps/git") {
        Err(CapsuleError::UnsupportedEntryPoint(text)) => {
            assert_eq!(text, "WASM engine requires at least one component definition")
        },
        other => panic!("unexpected result {other:?}"),
    }
    let local = |absolute| ComponentLocation { path: "/l".into(), absolute };
    assert_eq!(choose_wasm_path(local(false), true, Some("/s".into())), "/l");
    assert_eq!(choose_wasm_path(local(false), false, Some("/s".into())), "/s");
    assert_eq!(choose_wasm_path(local(false), false, None), "/l");
    assert_eq!(choose_wasm_path(local(true), false, Some("/s".into())), "/l");
}

#[test]
fn environment_wins_over_the_socket_path() {
    assert_eq!(reserved_config_keys(true), vec!["ASTRID_SOCKET_PATH"]);
    assert!(reserved_config_keys(false).is_empty());
    let env = vec![
        ("A".to_string(), "1".to_string()),
        ("B".to_string(), "2".to_string()),
        ("A".to_string(), "3".to_string()),
    ];
    let mut config = build_wasm_config(Some("/run/s.sock".into()), env);
    config.sort();
    assert_eq!(
        config,
        vec![
            ("A".to_string(), "3".to_string()),
            ("ASTRID_SOCKET_PATH".to_string(), "/run/s.sock".to_string()),
            ("B".to_string(), "2".to_string()),
        ]
    );
    let shadowed = build_wasm_config(
        Some("/run/s.sock".into()),
        vec![("ASTRID_SOCKET_PATH".to_string(), "x".to_string())],
    );
    assert_eq!(shadowed, vec![("ASTRID_SOCKET_PATH".to_string(), "x".to_string())]);
}

#[test]
fn identity_depends_on_name_and_hash() {
    let namespace = uuid::Uuid::from_u128(0x310714d5_9c6d_4c94_8187_75258f393bb6);
    let expected = uuid::Uuid::new_v5(&namespace, b"git\0abc").as_u128();
    assert_eq!(capsule_source_id("git", "abc"), expected);
    assert_ne!(capsule_source_id("git", "abd"), expected);
    assert_ne!(capsule_source_id("gitx", "abc"), expected);
}

#[test]
fn integrity_is_required() {
    assert_eq!(check_integrity("git", Some("aa"), "aa"), Ok(()));
    match check_integrity("git", Some("aa"), "bb") {
        Err(CapsuleError::UnsupportedEntryPoint(text)) => assert_eq!(
            text,
            "WASM integrity check failed: expected BLAKE3 aa, got bb. \
             The binary may have been tampered with."
        ),
        other => panic!("unexpected result {other:?}"),
    }
    match check_integrity("git", None, "bb") {
        Err(CapsuleError::UnsupportedEntryPoint(text)) => assert_eq!(
            text,
            "WASM capsule 'git' has no BLAKE3 hash in meta.json. \
             Capsules must be installed via `astrid capsule install` \
             which records the hash. Refusing to load unverified binary."
        ),
        other => panic!("unexpected result {other:?}"),
    }
    let bytes = module(&["run"]);
    let meta = meta_for(&bytes);
    let wasm = VerifiedWasm::verify("git", Ok(bytes.clone()), Some(&meta)).expect("verified");
    assert_eq!(wasm.bytes(), &bytes);
    assert_eq!(wasm.hash(), blake3::hash(&bytes).to_hex().to_string());
    let mut tampered = bytes;
    tampered.push(0);
    assert!(VerifiedWasm::verify("git", Ok(tampered), Some(&meta)).is_err());
    match VerifiedWasm::verify("git", Err("no such file".into()), Some(&meta)) {
        Err(CapsuleError::UnsupportedEntryPoint(text)) => {
            assert_eq!(text, "Failed to read WASM: no such file")
        },
        other => panic!("unexpected result {other:?}"),
    }
}

#[test]
fn workspaces_are_mounted_by_version_control() {
    assert_eq!(choose_workspace(true, false), WorkspaceChoice::Direct);
    assert_eq!(choose_workspace(false, true), WorkspaceChoice::CopyOnWrite);
    assert_eq!(choose_workspace(false, false), WorkspaceChoice::NoCopyOnWrite);
    let direct = workspace_setup(
        WorkspaceChoice::Direct,
        root("/ws"),
        root("/merged"),
        vec!["/upper".into()],
        Ok(()),
    )
    .expect("registered");
    assert_eq!(direct.root, "/ws");
    assert_eq!(direct.canonical_root, "/real/ws");
    assert!(!direct.has_backend);
    assert!(direct.masked.is_empty());
    let cow = workspace_setup(
        WorkspaceChoice::CopyOnWrite,
        root("/ws"),
        root("/merged"),
        vec!["/upper".into()],
        Ok(()),
    )
    .expect("registered");
    assert_eq!(cow.root, "/merged");
    assert_eq!(cow.canonical_root, "/real/merged");
    assert!(cow.has_backend);
    assert_eq!(cow.masked, vec!["/upper"]);
    match workspace_setup(
        WorkspaceChoice::Direct,
        root("/ws"),
        root("/ws"),
        vec![],
        Err("denied".into()),
    ) {
        Err(CapsuleError::UnsupportedEntryPoint(text)) => {
            assert_eq!(text, "Failed to register VFS directory: denied")
        },
        other => panic!("unexpected result {other:?}"),
    }
}

fn env(key: &str, env_type: &str) -> EnvDef {
    EnvDef {
        key: key.into(),
        env_type: env_type.into(),
        request: None,
        description: None,
        default: None,
        enum_values: vec![],
        placeholder: None,
    }
}

#[test]
fn secret_keys_are_found_in_any_case() {
    let defs = vec![env("A", "secret"), env("B", "string"), env("C", "SECRET")];
    assert_eq!(secret_env_keys(&defs), vec!["A", "C"]);
}

#[test]
fn plan_of_a_pooled_capsule() {
    let p = plan(&manifest(), &["astrid-hook-trigger"]);
    assert!(!p.has_run);
    assert!(p.run_loop.is_none());
    assert_eq!((p.pool_max, p.pool_min_idle), (16, 2));
    assert_eq!(p.pool_epoch_deadline, 3000);
    assert!(p.reset_resources_on_return);
    assert_eq!(p.workers, 1);
    assert!(!p.gets_listener && !p.has_uplink && !p.watches_processes && !p.audit_firehose);
    assert_eq!(p.inbound_capacity, None);
    let given = plan_given(&manifest(), false, None, None, limits());
    assert_eq!(given.pool_max, 16);
    assert!(!given.budget.exempt);
}

#[test]
fn plan_of_a_run_loop_capsule() {
    let mut m = manifest();
    m.capabilities.net_bind = vec!["127.0.0.1:*".into()];
    m.capabilities.bind_workers = Some(4);
    m.uplinks = vec![UplinkDef { name: "u".into() }];
    let p = plan(&m, &["run"]);
    assert!(p.has_run);
    let run_loop = p.run_loop.expect("has a run loop");
    assert_eq!(run_loop.fuel, u64::MAX);
    assert_eq!(run_loop.window_ticks, 30);
    assert!(run_loop.interruptible);
    assert_eq!((p.pool_max, p.pool_min_idle), (1, 1));
    assert_eq!(p.budget.mem_bytes, 1024);
    assert_eq!(p.workers, 4);
    assert!(p.gets_listener);
    assert_eq!(p.inbound_capacity, Some(128));
    assert_eq!(p.capability_names, vec!["net_bind"]);

    let exempt = CapabilityCheck { uplink: true, audit_read_all: true, ..answers() };
    let p = plan_load(&m, &verified(&["run"]), Some(&profile()), Some(&exempt), limits());
    let run_loop = p.run_loop.expect("has a run loop");
    assert!(!run_loop.interruptible);
    assert_eq!(run_loop.window_ticks, DEFAULT_RUN_LOOP_WINDOW_TICKS);
    assert_eq!(p.pool_epoch_deadline, u64::MAX);
    assert!(p.audit_firehose);

    m.capabilities.host_process = vec!["git".into()];
    let p = plan(&m, &["run"]);
    assert_eq!(p.workers, 1);
    assert!(p.watches_processes);
    assert!(!p.reset_resources_on_return);
}

fn interceptor(event: &str) -> InterceptorDef {
    InterceptorDef { event: event.into(), action: format!("on_{event}"), priority: 100 }
}

#[test]
fn interceptors_become_handles() {
    let defs = vec![interceptor("a.b"), interceptor("c")];
    assert!(plan_interceptors("git", false, &vec![interceptor("..")]).unwrap().is_empty());
    let handles = plan_interceptors("git", true, &defs).expect("valid");
    assert_eq!(handles.len(), 2);
    assert_eq!(handles[1].handle_id, 1);
    assert_eq!(handles[1].topic, "c");
    assert_eq!(handles[1].action, "on_c");
    match plan_interceptors("git", true, &vec![interceptor("a"), interceptor("b.")]) {
        Err(CapsuleError::UnsupportedEntryPoint(text)) => assert_eq!(
            text,
            "Interceptor event 'b.' has invalid segment structure \
             (empty segments, leading/trailing dots, or empty string)"
        ),
        other => panic!("unexpected result {other:?}"),
    }
    let many: Vec<InterceptorDef> = (0..65).map(|_| interceptor("a")).collect();
    match plan_interceptors("git", true, &many) {
        Err(CapsuleError::UnsupportedEntryPoint(text)) => assert_eq!(
            text,
            "Capsule 'git' declares 65 interceptors, exceeding the auto-subscribe limit (64)"
        ),
        other => panic!("unexpected result {other:?}"),
    }
    let most: Vec<InterceptorDef> = (0..64).map(|_| interceptor("a")).collect();
    assert_eq!(plan_interceptors("git", true, &most).unwrap().len(), 64);
}

/// Drives loading up to the point where the binary was read.
fn load_until_read(
    engine: &WasmEngine,
    meta: &str,
    bytes: Vec<u8>,
) -> (LoadPhase, LoadAction) {
    let (phase, action) = engine.load(LoadPhase::Start, LoadEvent::Begin);
    assert!(matches!(action, LoadAction::ProbeLocal(ref p) if p == "/caps/git/git.wasm"));
    let (phase, action) = engine.load(phase, LoadEvent::LocalProbed(false));
    assert!(matches!(action, LoadAction::ReadMeta(ref p) if p == "/caps/git/meta.json"));
    let (phase, action) = engine.load(
        phase,
        LoadEvent::MetaRead { meta: Some(meta.into()), home: Some("/h".into()) },
    );
    let hash = read_expected_wasm_hash(Some(meta)).unwrap();
    assert!(matches!(action, LoadAction::ProbeStored(ref p) if *p == format!("/h/lib/{hash}.wasm")));
    let (phase, action) = engine.load(phase, LoadEvent::StoredProbed(true));
    assert!(matches!(action, LoadAction::ResolveEnv));
    let (phase, action) = engine.load(
        phase,
        LoadEvent::EnvResolved {
            socket_path: Some("/s".into()),
            env: Ok(vec![("K".into(), "v".into())]),
        },
    );
    assert!(matches!(action, LoadAction::ReadWasm(ref p) if *p == format!("/h/lib/{hash}.wasm")));
    engine.load(phase, LoadEvent::WasmRead(Ok(bytes)))
}

#[test]
fn loading_runs_through_its_phases() {
    let mut m = manifest();
    m.subscribes = vec![
        SubscribeDef { topic: "a.b".into(), handler: Some("on".into()), priority: 1 },
        SubscribeDef { topic: "c".into(), handler: None, priority: 1 },
    ];
    m.publishes = vec![PublishDef { topic: "p".into() }];
    let engine = engine(m);
    let bytes = module(&["run"]);
    let (phase, action) = load_until_read(&engine, &meta_for(&bytes), bytes.clone());
    assert!(matches!(action, LoadAction::ProbeGit));
    let (phase, action) = engine.load(
        phase,
        LoadEvent::GitProbed { git_managed: false, home_known: true },
    );
    assert!(matches!(action, LoadAction::Mount(WorkspaceChoice::CopyOnWrite)));
    let (phase, action) = engine.load(
        phase,
        LoadEvent::Mounted {
            workspace_root: root("/ws"),
            merged_root: root("/merged"),
            masked: vec![],
            registered: Ok(()),
        },
    );
    assert!(matches!(action, LoadAction::CheckName));
    let (phase, action) = engine.load(phase, LoadEvent::NameChecked(Ok(())));
    assert!(matches!(action, LoadAction::ResolveOwner));
    let (phase, action) = engine.load(
        phase,
        LoadEvent::OwnerResolved { profile: Some(profile()), check: None },
    );
    assert!(matches!(action, LoadAction::Build));
    let (phase, action) = engine.load(phase, LoadEvent::InstancesBuilt(Ok(())));
    assert!(matches!(action, LoadAction::ResolveOwnerContext));
    let (phase, action) = engine.load(phase, LoadEvent::OwnerContextFound(context()));
    assert!(matches!(action, LoadAction::Attach));
    match phase {
        LoadPhase::Built { wasm, mut config, workspace, plan, handles, context } => {
            assert!(context.is_some_and(|c| c.kv_ok && c.log == Some(4)));
            assert_eq!(wasm.bytes(), &bytes);
            config.sort();
            assert_eq!(
                config,
                vec![
                    ("ASTRID_SOCKET_PATH".to_string(), "/s".to_string()),
                    ("K".to_string(), "v".to_string()),
                ]
            );
            assert_eq!(workspace.root, "/merged");
            assert_eq!(workspace.canonical_root, "/real/merged");
            assert!(plan.has_run && plan.budget.bound_run_loop);
            assert_eq!(handles.len(), 1);
            assert_eq!(handles[0].action, "on");
        },
        other => panic!("unexpected phase {other:?}"),
    }
}

fn load_error(phase: LoadPhase, action: LoadAction) -> String {
    assert!(matches!(action, LoadAction::Abort));
    match phase {
        LoadPhase::Failed(CapsuleError::UnsupportedEntryPoint(text)) => text,
        other => panic!("unexpected phase {other:?}"),
    }
}

#[test]
fn loading_stops_at_the_first_error() {
    let mut m = manifest();
    m.components.clear();
    let (phase, action) = engine(m).load(LoadPhase::Start, LoadEvent::Begin);
    assert!(load_error(phase, action).contains("at least one component"));

    let engine = engine(manifest());
    let bytes = module(&["run"]);
    let (phase, action) = load_until_read(&engine, "{\"wasm_hash\": \"00\"}", bytes.clone());
    assert!(load_error(phase, action).starts_with("WASM integrity check failed"));

    let (phase, _) = load_until_read(&engine, &meta_for(&bytes), bytes.clone());
    let (phase, _) =
        engine.load(phase, LoadEvent::GitProbed { git_managed: true, home_known: true });
    let mounted = |registered| LoadEvent::Mounted {
        workspace_root: root("/ws"),
        merged_root: root("/ws"),
        masked: vec![],
        registered,
    };
    let (phase, _) = engine.load(phase, mounted(Ok(())));
    let (phase, action) = engine.load(phase, LoadEvent::NameChecked(Err("bad id".into())));
    assert_eq!(load_error(phase, action), "bad id");

    let (phase, action) = engine.load(
        LoadPhase::ResolvingEnv { path: "/p".into(), meta: None },
        LoadEvent::EnvResolved {
            socket_path: None,
            env: Err(CapsuleError::NotSupported("env".into())),
        },
    );
    assert!(matches!(action, LoadAction::Abort));
    assert!(matches!(phase, LoadPhase::Failed(CapsuleError::NotSupported(_))));
}

#[test]
fn loading_reports_failed_builds() {
    let engine = engine(manifest());
    let building = || LoadPhase::Building {
        wasm: verified(&["run"]),
        config: vec![],
        workspace: workspace("/ws", false),
        plan: plan(&manifest(), &["run"]),
    };
    let (phase, action) = engine.load(
        building(),
        LoadEvent::InstancesBuilt(Err(BuildError::Step(BuildStep::Compile, "bad".into()))),
    );
    assert_eq!(load_error(phase, action), "Failed to compile WASM component: bad");
    let (phase, _) = engine.load(
        building(),
        LoadEvent::InstancesBuilt(Err(BuildError::Instance(CapsuleError::WasmError("x".into())))),
    );
    assert!(matches!(phase, LoadPhase::Failed(CapsuleError::WasmError(_))));
}

#[test]
fn absolute_binaries_are_not_probed() {
    let mut m = manifest();
    m.components[0].path = "/opt/x.wasm".into();
    let engine = engine(m);
    let (phase, action) = engine.load(LoadPhase::Start, LoadEvent::Begin);
    assert!(matches!(action, LoadAction::ReadMeta(_)));
    let (phase, action) = engine.load(
        phase,
        LoadEvent::MetaRead {
            meta: Some("{\"wasm_hash\": \"00\"}".into()),
            home: Some("/h".into()),
        },
    );
    assert!(matches!(action, LoadAction::ResolveEnv));
    assert!(matches!(phase, LoadPhase::ResolvingEnv { ref path, .. } if path == "/opt/x.wasm"));
}

#[test]
fn build_failures_name_their_step() {
    for (step, text) in [
        (BuildStep::Engine, "Failed to create wasmtime engine: e"),
        (BuildStep::Linker, "Failed to add Astrid host to linker: e"),
        (BuildStep::Compile, "Failed to compile WASM component: e"),
        (BuildStep::PreInstantiate, "Failed to pre-instantiate WASM component: e"),
        (BuildStep::RunLoopFuel, "Failed to set run-loop fuel: e"),
        (BuildStep::LifecycleVfs, "Failed to register VFS directory for lifecycle: e"),
        (BuildStep::LifecycleFuel, "Failed to set lifecycle fuel: e"),
        (BuildStep::LifecycleLinker, "Failed to add Astrid host to linker for lifecycle: e"),
        (BuildStep::LifecycleCompile, "Failed to compile WASM component for lifecycle: e"),
        (BuildStep::LifecycleInstantiate, "Failed to instantiate WASM component for lifecycle: e"),
    ] {
        assert_eq!(
            build_failure(step, "e"),
            CapsuleError::UnsupportedEntryPoint(text.to_string())
        );
    }
}

/// What belongs to an owner whose stores could be opened.
fn context() -> OwnerContext {
    OwnerContext {
        env: Some(vec![("K".into(), "owner".into())]),
        kv_ok: true,
        log: Some(4),
        bundle: PrincipalVfsBundle {
            home: Some(PrincipalMount { root: "/h/owner".into() }),
            tmp: None,
        },
    }
}

fn built(engine: &WasmEngine, names: &[&str], has_backend: bool) -> LoadPhase {
    LoadPhase::Built {
        wasm: verified(names),
        config: vec![],
        workspace: workspace("/ws", has_backend),
        plan: plan(&engine.manifest, names),
        handles: vec![],
        context: Some(context()),
    }
}

fn attach(engine: &mut WasmEngine, names: &[&str], has_backend: bool) -> Vec<AttachAction> {
    let phase = built(engine, names, has_backend);
    engine.finish_load(&phase, &around("default")).expect("built")
}

#[test]
fn attaching_and_unloading() {
    let mut e = engine(manifest());
    assert!(e.unload().is_empty());
    let binary = blake3::hash(&module(&["x"])).to_hex().to_string();
    let actions = attach(&mut e, &["x"], true);
    assert_eq!(actions.len(), 3);
    match &actions[0] {
        AttachAction::RegisterIdentity { id, hash } => {
            assert_eq!(*id, capsule_source_id("git", &binary));
            assert_eq!(*hash, binary);
        },
        other => panic!("unexpected action {other:?}"),
    }
    assert!(matches!(actions[1], AttachAction::RegisterTopics));
    assert!(matches!(actions[2], AttachAction::StartTicker));
    assert!(e.holdings.pool && !e.holdings.run_handle);
    assert!(e.request_cancel());
    assert_eq!(e.owner_principal.as_deref(), Some("default"));
    assert_eq!(
        e.unload(),
        vec![
            UnloadAction::Cancel,
            UnloadAction::StopTicker,
            UnloadAction::DropPool,
            UnloadAction::TearDownWorkspace,
        ]
    );
    assert!(e.unload().is_empty());
    assert!(!e.request_cancel());

    let mut m = manifest();
    m.capabilities.host_process = vec!["git".into()];
    m.uplinks = vec![UplinkDef { name: "u".into() }];
    let mut e = engine(m);
    let actions = attach(&mut e, &["run"], false);
    assert_eq!(actions.len(), 6);
    assert!(matches!(actions[0], AttachAction::InstallOwnerContext { .. }));
    assert!(matches!(actions[1], AttachAction::RegisterIdentity { .. }));
    assert!(matches!(actions[4], AttachAction::WatchProcesses));
    assert!(matches!(actions[5], AttachAction::StartRunLoop));
    assert!(e.take_inbound_rx());
    assert!(!e.take_inbound_rx());
    assert_eq!(
        e.unload(),
        vec![UnloadAction::Cancel, UnloadAction::AbortRunLoop, UnloadAction::StopTicker]
    );
}

#[test]
fn cancelling_one_principal_leaves_the_others() {
    let mut e = engine(manifest());
    assert_eq!(e.request_cancel_for("alice"), None);
    attach(&mut e, &["x"], false);
    let (alice, bob) = {
        let tokens = e.principal_cancel_tokens.as_mut().expect("loaded");
        (tokens.token_for("alice"), tokens.token_for("bob"))
    };
    assert_eq!(e.request_cancel_for("alice"), Some(alice));
    assert_eq!(e.request_cancel_for("alice"), None);
    let tokens = e.principal_cancel_tokens.as_mut().expect("loaded");
    assert_eq!(tokens.token_for("bob"), bob);
    assert_ne!(tokens.token_for("alice"), alice);
}

fn run_loop_engine() -> WasmEngine {
    let mut e = engine(manifest());
    attach(&mut e, &["run"], true);
    e
}

#[test]
fn wait_ready_returns_ready_when_pre_signaled() {
    assert_eq!(run_loop_engine().wait_ready(ReadyWait::Signalled), ReadyStatus::Ready);
}

#[test]
fn wait_ready_returns_timeout_when_never_signaled() {
    assert_eq!(run_loop_engine().wait_ready(ReadyWait::Elapsed), ReadyStatus::Timeout);
}

#[test]
fn wait_ready_returns_crashed_when_sender_dropped() {
    assert_eq!(run_loop_engine().wait_ready(ReadyWait::SenderDropped), ReadyStatus::Crashed);
}

#[test]
fn wait_ready_returns_ready_when_signaled_after_delay() {
    let e = run_loop_engine();
    assert_eq!(e.wait_ready(ReadyWait::Elapsed), ReadyStatus::Timeout);
    assert_eq!(e.wait_ready(ReadyWait::Signalled), ReadyStatus::Ready);
}

#[test]
fn capsules_without_a_run_loop_are_ready() {
    assert_eq!(engine(manifest()).wait_ready(ReadyWait::Elapsed), ReadyStatus::Ready);
}

#[test]
fn an_ended_run_loop_is_a_failure() {
    let e = run_loop_engine();
    assert!(matches!(e.check_health(false), CapsuleState::Ready));
    match e.check_health(true) {
        CapsuleState::Failed(reason) => assert_eq!(reason, "WASM run loop exited unexpectedly"),
        other => panic!("unexpected state {other:?}"),
    }
    assert!(matches!(engine(manifest()).check_health(true), CapsuleState::Ready));
}

const QUIET: ProcessCensus = ProcessCensus { tracked_active: Some(false), persistent_live: Some(0) };

#[test]
fn commits_wait_for_quiescence() {
    let mut e = engine(manifest());
    assert!(matches!(e.promote_workspace(true, QUIET), CommitStep::NoWorkspace));
    attach(&mut e, &["x"], true);
    assert!(matches!(e.promote_workspace(true, QUIET), CommitStep::Run(CowOp::Promote)));
    assert!(matches!(e.rollback_workspace(true, QUIET), CommitStep::Run(CowOp::Rollback)));
    let refusal = |step: CommitStep| match step {
        CommitStep::Refused(CapsuleError::ExecutionFailed(text)) => text,
        other => panic!("unexpected step {other:?}"),
    };
    assert_eq!(
        refusal(e.promote_workspace(false, QUIET)),
        "workspace commit refused: an invocation is in flight; retry when the capsule is idle"
    );
    let child =
        "workspace commit refused: a spawned child process is still running; \
         retry when the capsule is idle";
    let busy = ProcessCensus { tracked_active: Some(true), persistent_live: None };
    assert_eq!(refusal(e.rollback_workspace(true, busy)), child);
    let busy = ProcessCensus { tracked_active: None, persistent_live: Some(2) };
    assert_eq!(refusal(e.rollback_workspace(true, busy)), child);
    // A run loop has no pool to drain.
    let e = run_loop_engine();
    assert!(matches!(e.promote_workspace(false, QUIET), CommitStep::Run(CowOp::Promote)));
}

#[test]
fn workspace_operations_report_their_outcome() {
    assert_eq!(run_workspace_cow_op(CowOutcome::Done), Ok(true));
    assert_eq!(
        run_workspace_cow_op(CowOutcome::Failed("e".into())),
        Err(CapsuleError::ExecutionFailed("workspace CoW operation failed: e".into()))
    );
    assert_eq!(
        run_workspace_cow_op(CowOutcome::Panicked("e".into())),
        Err(CapsuleError::ExecutionFailed("workspace CoW task panicked: e".into()))
    );
}

fn services(profile_cache: bool, overlay_registry: bool) -> Services {
    Services {
        profile_cache,
        overlay_registry,
        default_profile: profile(),
        default_cpu_budget: 9,
    }
}

fn pooled_engine() -> WasmEngine {
    let mut e = engine(manifest());
    attach(&mut e, &["x"], false);
    e
}

fn finish(action: InvokeAction) -> (Option<FuelCharge>, Result<Interception, CapsuleError>) {
    match action {
        InvokeAction::Finish { charge, result } => (charge, result),
        other => panic!("unexpected action {other:?}"),
    }
}

#[test]
fn a_call_runs_through_its_phases() {
    let e = pooled_engine();
    let s = services(true, true);
    let (phase, action) = e.invoke_interceptor(
        &s,
        InvokePhase::Start,
        InvokeEvent::Begin { caller: caller(Some("alice")) },
    );
    assert!(matches!(action, InvokeAction::ResolveProfile(ref p) if p == "alice"));
    let (phase, action) = e.invoke_interceptor(
        &s,
        phase,
        InvokeEvent::ProfileResolved { profile: Ok(profile()), check: Some(answers()) },
    );
    assert!(matches!(action, InvokeAction::AskRate { budget: 500, .. }));
    let (phase, action) =
        e.invoke_interceptor(&s, phase, InvokeEvent::RateAnswered { over_budget: false });
    assert!(matches!(action, InvokeAction::ResolveOverlay(ref p) if p == "alice"));
    let (phase, action) = e.invoke_interceptor(&s, phase, InvokeEvent::OverlayResolved(Ok(())));
    assert!(matches!(action, InvokeAction::CheckOut));
    let (phase, action) = e.invoke_interceptor(&s, phase, InvokeEvent::CheckedOut(true));
    match action {
        InvokeAction::Call(setup) => {
            assert_eq!(setup.deadline, Some(30));
            assert_eq!(setup.fuel, INTERCEPTOR_FUEL_BUDGET);
            assert_eq!(setup.memory, 1024);
            assert_eq!(setup.principal, "alice");
            let named = setup.caller.and_then(|c| c.principal);
            assert_eq!(named.as_deref(), Some("alice"));
            assert_eq!(setup.profile, Some(profile()));
        },
        other => panic!("unexpected action {other:?}"),
    }
    let output = HookTriggerOutput { action: "continue".into(), data: Some("{}".into()) };
    let (phase, action) = e.invoke_interceptor(
        &s,
        phase,
        InvokeEvent::Called {
            outcome: CallOutcome::Returned(output.clone()),
            fuel_left: Some(INTERCEPTOR_FUEL_BUDGET - 7),
        },
    );
    assert!(matches!(phase, InvokePhase::Over));
    let (charge, result) = finish(action);
    assert_eq!(charge, Some(FuelCharge { principal: "alice".into(), fuel: 7 }));
    match result {
        Ok(Interception::Output(o)) => assert_eq!(o, output),
        other => panic!("unexpected result {other:?}"),
    }
}

#[test]
fn rate_gate_deny_is_ok_deny_not_err() {
    let e = pooled_engine();
    let phase = InvokePhase::AskingRate {
        principal: "alice".into(),
        caller: None,
        profile: Some(profile()),
        check: None,
    };
    let (_, action) = e.invoke_interceptor(
        &services(true, true),
        phase,
        InvokeEvent::RateAnswered { over_budget: true },
    );
    let (charge, result) = finish(action);
    assert_eq!(charge, None);
    match result {
        Ok(Interception::Deny { reason }) => {
            assert!(reason.contains("alice"), "deny reason names the principal");
        },
        other => panic!("deny must be Ok(Deny), got {other:?}"),
    }
}

#[test]
fn calls_are_refused_before_they_cost_anything() {
    let e = pooled_engine();
    let s = services(true, true);
    let resolving = || InvokePhase::ResolvingProfile { principal: "bob".into(), caller: None };
    let mut disabled = profile();
    disabled.enabled = false;
    let (_, action) = e.invoke_interceptor(
        &s,
        resolving(),
        InvokeEvent::ProfileResolved { profile: Ok(disabled), check: None },
    );
    match finish(action) {
        (None, Err(CapsuleError::WasmError(text))) => {
            assert_eq!(text, "principal 'bob' is disabled")
        },
        other => panic!("unexpected result {other:?}"),
    }
    let (_, action) = e.invoke_interceptor(
        &s,
        resolving(),
        InvokeEvent::ProfileResolved { profile: Err("torn".into()), check: None },
    );
    match finish(action) {
        (None, Err(CapsuleError::WasmError(text))) => {
            assert_eq!(text, "principal 'bob' profile invalid: torn")
        },
        other => panic!("unexpected result {other:?}"),
    }
    let (_, action) = e.invoke_interceptor(
        &s,
        InvokePhase::ResolvingOverlay { principal: "bob".into(), caller: None, profile: None },
        InvokeEvent::OverlayResolved(Err("no space".into())),
    );
    match finish(action) {
        (None, Err(CapsuleError::WasmError(text))) => {
            assert_eq!(text, "principal 'bob' overlay resolve failed: no space")
        },
        other => panic!("unexpected result {other:?}"),
    }
    let (_, action) = e.invoke_interceptor(
        &s,
        InvokePhase::CheckingOut { principal: "bob".into(), caller: None, profile: None },
        InvokeEvent::CheckedOut(false),
    );
    match finish(action) {
        (None, Err(CapsuleError::NotSupported(text))) => {
            assert_eq!(text, "no capsule instance available")
        },
        other => panic!("unexpected result {other:?}"),
    }
    let (_, action) = run_loop_engine().invoke_interceptor(
        &s,
        InvokePhase::Start,
        InvokeEvent::Begin { caller: None },
    );
    match finish(action) {
        (None, Err(CapsuleError::NotSupported(text))) => assert_eq!(
            text,
            "plugin handles interceptors internally via IPC auto-subscribe"
        ),
        other => panic!("unexpected result {other:?}"),
    }
}

#[test]
fn calls_without_services_use_the_owner_and_the_defaults() {
    let e = pooled_engine();
    let s = services(false, false);
    let (phase, action) =
        e.invoke_interceptor(&s, InvokePhase::Start, InvokeEvent::Begin { caller: None });
    match action {
        InvokeAction::AskRate { principal, budget } => {
            assert_eq!(principal, "default");
            assert_eq!(budget, 9);
        },
        other => panic!("unexpected action {other:?}"),
    }
    let (phase, action) =
        e.invoke_interceptor(&s, phase, InvokeEvent::RateAnswered { over_budget: false });
    assert!(matches!(action, InvokeAction::CheckOut));
    let (_, action) = e.invoke_interceptor(&s, phase, InvokeEvent::CheckedOut(true));
    assert!(matches!(action, InvokeAction::Call(ref c) if c.caller.is_none() && c.profile.is_none()));
    // Without a budget the limiter is not asked.
    let mut free = s;
    free.default_cpu_budget = 0;
    let (_, action) =
        e.invoke_interceptor(&free, InvokePhase::Start, InvokeEvent::Begin { caller: None });
    assert!(matches!(action, InvokeAction::CheckOut));
}

#[test]
fn daemons_have_no_deadline() {
    let mut m = manifest();
    m.capabilities.uplink = true;
    let mut e = engine(m);
    attach(&mut e, &["x"], false);
    let (_, action) = e.invoke_interceptor(
        &services(false, false),
        InvokePhase::CheckingOut { principal: "a".into(), caller: None, profile: None },
        InvokeEvent::CheckedOut(true),
    );
    assert!(matches!(action, InvokeAction::Call(ref c) if c.deadline.is_none()));
}

#[test]
fn failed_calls_are_charged_too() {
    let e = pooled_engine();
    let s = services(false, false);
    let calling = || InvokePhase::Calling { principal: "a".into() };
    let (_, action) = e.invoke_interceptor(
        &s,
        calling(),
        InvokeEvent::Called { outcome: CallOutcome::Failed("trap".into()), fuel_left: None },
    );
    match finish(action) {
        (Some(charge), Err(CapsuleError::WasmError(text))) => {
            assert_eq!(charge, FuelCharge { principal: "a".into(), fuel: INTERCEPTOR_FUEL_BUDGET });
            assert_eq!(text, "astrid_hook_trigger failed: trap")
        },
        other => panic!("unexpected result {other:?}"),
    }
    let (_, action) = e.invoke_interceptor(
        &s,
        calling(),
        InvokeEvent::Called {
            outcome: CallOutcome::Missing("none".into()),
            fuel_left: Some(u64::MAX),
        },
    );
    match finish(action) {
        (Some(charge), Err(CapsuleError::UnsupportedEntryPoint(text))) => {
            assert_eq!(charge.fuel, 0);
            assert_eq!(text, "capsule does not export `astrid-hook-trigger`: none")
        },
        other => panic!("unexpected result {other:?}"),
    }
}

#[test]
fn hook_triggers_outside_a_pool() {
    let output = HookTriggerOutput { action: "deny".into(), data: None };
    assert_eq!(call_hook_trigger(CallOutcome::Returned(output.clone())), Ok(output));
    assert_eq!(
        call_hook_trigger(CallOutcome::Missing("none".into())),
        Err(CapsuleError::UnsupportedEntryPoint(
            "capsule does not export `astrid-hook-trigger`: none".into()
        ))
    );
    assert_eq!(
        call_hook_trigger(CallOutcome::Failed("trap".into())),
        Err(CapsuleError::WasmError("astrid-hook-trigger call failed: trap".into()))
    );
}

#[test]
fn instances_are_loaded_with_neutral_stores() {
    let mut m = manifest();
    m.capabilities.net_bind = vec!["unix:*".into()];
    m.env = vec![env("TOKEN", "secret")];
    m.publishes = vec![PublishDef { topic: "p.q".into() }];
    m.subscribes =
        vec![SubscribeDef { topic: "s".into(), handler: None, priority: 100 }];
    m.capabilities.fs_read = vec!["cwd://src".into(), "home://notes".into()];
    let p = plan(&m, &["x"]);
    let e = engine(m);
    let around = InstanceServices {
        owner: "default".into(),
        local_egress: vec!["127.0.0.1:11434".into()],
        socket_listener: true,
        session_token: true,
        identity_store: true,
        allowance_store: false,
        capsule_registry: true,
        profile_cache: true,
        audited: true,
    };
    let phase = LoadPhase::Building {
        wasm: verified(&["x"]),
        config: vec![("TOKEN".into(), "t".into())],
        workspace: WorkspaceSetup {
            root: "/link/merged".into(),
            canonical_root: "/merged".into(),
            has_backend: true,
            masked: vec!["/upper".into()],
        },
        plan: p,
    };
    let state = e.instance_state(&phase, &around).expect("instances are built");
    assert_eq!(state.effective_kv(), NEUTRAL_KV_NAMESPACE);
    assert!(matches!(state.effective_secret_store(), SecretScope::Neutral));
    assert!(state.home.is_none() && state.tmp.is_none() && state.capsule_log.is_none());
    assert_eq!(state.principal, "default");
    assert_eq!(state.memory_limit, 64 * 1024 * 1024);
    assert_eq!(state.capsule_id, "git");
    let hash = blake3::hash(&module(&["x"])).to_hex().to_string();
    assert_eq!(state.capsule_uuid, capsule_source_id("git", &hash));
    assert_eq!(state.workspace_root, "/link/merged");
    assert_eq!(state.spawn_mask_paths, vec!["/upper"]);
    assert_eq!(state.config, vec![("TOKEN".to_string(), "t".to_string())]);
    assert_eq!(state.secret_env, vec!["TOKEN"]);
    assert_eq!(state.local_egress, vec!["127.0.0.1:11434"]);
    assert_eq!(state.capability_names, vec!["fs_read", "net_bind"]);
    assert_eq!(state.ipc_publish_patterns, vec!["p.q"]);
    assert_eq!(state.ipc_subscribe_patterns, vec!["s"]);
    assert!(state.has_socket_listener && state.has_session_token);
    assert!(state.has_identity_store && !state.has_allowance_store);
    assert!(state.has_capsule_registry && state.has_profile_cache && !state.has_inbound);
    // The security gate is over the merged root and has no home to fall back to.
    let gate = state.security.as_ref().expect("a gate");
    assert!(gate.check_file_read("git", "/merged/src/a", None).is_ok());
    assert!(gate.check_file_read("git", "/ws/src/a", None).is_err());
    assert!(gate.check_file_read("git", "/h/alice/notes/a", None).is_err());
    assert!(gate.check_file_read("git", "/h/alice/notes/a", Some("/h/alice")).is_ok());
    // Another instance is alike; before the instances are built there is none.
    let other = e.instance_state(&phase, &around).expect("instances are built");
    assert_eq!(other.capsule_uuid, state.capsule_uuid);
    assert_eq!(other.config, state.config);
    assert!(e.instance_state(&LoadPhase::Start, &around).is_none());
}

#[test]
fn listener_and_session_need_a_bind() {
    let e = engine(manifest());
    let around = around("default");
    let phase = LoadPhase::Built {
        wasm: verified(&["x"]),
        config: vec![],
        workspace: workspace("/ws", false),
        plan: plan(&manifest(), &["x"]),
        handles: vec![],
        context: None,
    };
    let state = e.instance_state(&phase, &around).expect("instances are built");
    assert!(!state.has_socket_listener && !state.has_session_token);
    assert!(state.has_allowance_store && !state.audited);
    assert!(state.interceptor_handles.is_empty());
}

#[test]
fn listeners_are_closed_when_a_capsule_is_unloaded() {
    let mut e = pooled_engine();
    assert!(e.listeners.is_some());
    e.unload();
    assert!(e.listeners.is_none());
}

#[test]
fn a_manifest_grants_no_exemption() {
    let mut bold = manifest();
    bold.capabilities.uplink = true;
    bold.capabilities.net_bind = vec!["127.0.0.1:*".into()];
    bold.uplinks = vec![UplinkDef { name: "u".into() }];
    let a = plan(&manifest(), &["run"]);
    let b = plan(&bold, &["run"]);
    assert_eq!(a.budget, b.budget);
    assert_eq!(a.run_loop, b.run_loop);
    assert_eq!(a.pool_epoch_deadline, b.pool_epoch_deadline);
    assert_eq!(a.audit_firehose, b.audit_firehose);
}

#[test]
fn run_loops_start_in_the_context_of_their_owner() {
    let mut m = manifest();
    m.capabilities.net_bind = vec!["127.0.0.1:8799".into()];
    m.capabilities.bind_workers = Some(2);
    let mut e = engine(m);
    let handles = vec![InterceptorHandle {
        handle_id: 0,
        action: "on".into(),
        topic: "a.b".into(),
    }];
    let phase = LoadPhase::Built {
        wasm: verified(&["run"]),
        config: vec![],
        workspace: workspace("/ws", false),
        plan: plan(&e.manifest, &["run"]),
        handles,
        context: Some(context()),
    };
    let actions = e.finish_load(&phase, &around("owner")).expect("built");
    assert!(matches!(actions.last(), Some(AttachAction::StartRunLoop)));
    let states = match &actions[0] {
        AttachAction::InstallOwnerContext { owner, states } => {
            assert_eq!(owner, "owner");
            states
        },
        other => panic!("unexpected action {other:?}"),
    };
    assert_eq!(states.len(), 2);
    for state in states {
        assert_eq!(state.effective_kv(), "owner:capsule:git");
        assert!(matches!(
            state.effective_secret_store(),
            SecretScope::Service(name) if name == "git:owner"
        ));
        assert_eq!(state.effective_capsule_log(), Some(4));
        assert_eq!(
            state.invocation_env_overlay,
            Some(vec![("K".to_string(), "owner".to_string())])
        );
        assert_eq!(state.invocation_home.as_ref().map(|m| m.root.as_str()), Some("/h/owner"));
        assert!(state.invocation_tmp.is_none());
        assert!(state.caller_context.is_none() && !state.interceptor_active);
        assert_eq!(state.effective_principal(), "owner");
        assert_eq!(state.interceptor_handles.len(), 1);
        assert_eq!(state.interceptor_handles[0].topic, "a.b");
        assert_eq!(state.kv, NEUTRAL_KV_NAMESPACE);
        assert_eq!(state.memory_limit, 1024);
    }
    let tokens = e.principal_cancel_tokens.as_mut().expect("loaded");
    let token = tokens.token_for("owner");
    assert!(states.iter().all(|s| s.invocation_cancel_token == Some(token)));
}

#[test]
fn run_loop_states_need_a_run_loop() {
    let e = engine(manifest());
    let state_of = |phase: &LoadPhase, tokens: &mut CancelTokens| {
        let bundle = PrincipalVfsBundle { home: None, tmp: None };
        e.run_loop_state(phase, &around("owner"), tokens, None, false, Some(1), bundle)
    };
    let mut tokens = CancelTokens::new();
    assert!(state_of(&LoadPhase::Start, &mut tokens).is_none());
    assert!(state_of(&built(&e, &["x"], false), &mut tokens).is_none());
    // Where the owner's scope could not be made, the neutral one is in force.
    let state = state_of(&built(&e, &["run"], false), &mut tokens).expect("a run loop");
    assert_eq!(state.effective_kv(), NEUTRAL_KV_NAMESPACE);
    assert!(matches!(state.effective_secret_store(), SecretScope::Neutral));
    assert_eq!(state.effective_capsule_log(), None);
    assert_eq!(state.invocation_cancel_token, Some(tokens.token_for("owner")));
}

#[test]
fn loading_is_finished_once_everything_is_built() {
    let mut e = engine(manifest());
    assert!(e.finish_load(&LoadPhase::Start, &around("default")).is_none());
    assert!(!e.holdings.runtime && e.owner_principal.is_none());
}

#[test]
fn calls_are_set_up_for_their_caller() {
    let e = pooled_engine();
    let s = services(false, false);
    let setup_for = |who: Option<CallerContext>| {
        let mut free = s;
        free.default_cpu_budget = 0;
        let (phase, _) =
            e.invoke_interceptor(&free, InvokePhase::Start, InvokeEvent::Begin { caller: who });
        match e.invoke_interceptor(&free, phase, InvokeEvent::CheckedOut(true)).1 {
            InvokeAction::Call(setup) => setup,
            other => panic!("unexpected action {other:?}"),
        }
    };
    let bundle = || PrincipalVfsBundle {
        home: Some(PrincipalMount { root: "/h/alice".into() }),
        tmp: None,
    };
    let phase = built(&e, &["x"], false);
    let mut state = e.instance_state(&phase, &around("default")).expect("built");
    let mut tokens = CancelTokens::new();
    state.begin_call(&mut tokens, setup_for(caller(Some("alice"))), None, true, Some(2), bundle());
    assert_eq!(state.effective_principal(), "alice");
    assert_eq!(state.effective_kv(), "alice:capsule:git");
    assert_eq!((state.memory_limit, state.memory_principal.as_str()), (1024, "alice"));
    assert!(state.interceptor_active && state.invocation_home.is_some());
    state.clear_invocation();

    // A message without a valid principal stays in scope, in nobody's stores.
    state.begin_call(&mut tokens, setup_for(caller(None)), None, true, Some(2), bundle());
    assert!(state.caller_context.is_some());
    assert_eq!(state.effective_principal(), "default");
    assert_eq!(state.effective_kv(), NEUTRAL_KV_NAMESPACE);
    assert_eq!(state.memory_principal, "default");
    assert!(state.invocation_home.is_none());
}
