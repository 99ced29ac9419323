use astrid_capsule::engine::BuildStep;
use astrid_capsule::error::CapsuleError;
use astrid_capsule::host_state::{LifecyclePhase, PrincipalMount, SecretScope};
use astrid_capsule::lifecycle::{
    begin_given, run_lifecycle, HookAction, HookCall, HookEvent, HookStage, LifecycleConfig,
};
use wasm_encoder::{
    CodeSection, ExportKind, ExportSection, Function, FunctionSection, Instruction, Module,
    TypeSection,
};

/// A module that exports one function under the name.
fn module(name: &str) -> Vec<u8> {
    let mut module = Module::new();
    let mut types = TypeSection::new();
    types.ty().function(vec![], vec![]);
    module.section(&types);
    let mut functions = FunctionSection::new();
    functions.function(0);
    module.section(&functions);
    let mut exports = ExportSection::new();
    exports.export(name, ExportKind::Func, 0);
    module.section(&exports);
    let mut code = CodeSection::new();
    let mut f = Function::new(vec![]);
    f.instruction(&Instruction::End);
    code.function(&f);
    module.section(&code);
    module.finish()
}

fn config(export: &str, home_root: Option<&str>) -> LifecycleConfig {
    LifecycleConfig {
        wasm_bytes: module(export),
        capsule_id: "git".into(),
        workspace_root: "/ws".into(),
        home_root: home_root.map(String::from),
        kv: "alice:capsule:git".into(),
        config: vec![],
        secret_store: SecretScope::Neutral,
        audited: false,
    }
}

fn finished(action: HookAction) -> Result<(), CapsuleError> {
    match action {
        HookAction::Finish(result) => result,
        other => panic!("unexpected action {other:?}"),
    }
}

#[test]
fn a_hook_runs_through_its_stages() {
    let phase = LifecyclePhase::Install;
    let (stage, action) =
        run_lifecycle(phase, HookStage::Start(config("astrid-install", Some("/h"))), HookEvent::Begin);
    assert!(matches!(action, HookAction::RegisterWorkspace(ref root) if root == "/ws"));
    let (stage, action) = run_lifecycle(phase, stage, HookEvent::Registered(Ok(())));
    assert!(matches!(action, HookAction::MountHome(ref root) if root == "/h"));
    let mount = PrincipalMount { root: "/h".into() };
    let (stage, action) = run_lifecycle(phase, stage, HookEvent::HomeMounted(Some(mount)));
    match action {
        HookAction::Build { state, deadline, fuel, .. } => {
            assert_eq!(deadline, None);
            assert_eq!(fuel, u64::MAX);
            assert_eq!(state.lifecycle_phase, Some(phase));
            assert_eq!(state.effective_kv(), "alice:capsule:git");
            assert!(state.home.is_some());
            assert!(state.security.is_none() && !state.has_session_token);
            assert_eq!(state.principal, "default");
            assert_eq!(state.memory_limit, 64 * 1024 * 1024);
            assert!(!state.recv_yielded);
            assert_eq!(state.no_yield_windows, 0);
            assert_eq!(state.next_http_stream_id, 1);
        },
        other => panic!("unexpected action {other:?}"),
    }
    let (stage, action) = run_lifecycle(phase, stage, HookEvent::Built(Ok(())));
    assert!(matches!(action, HookAction::Call("astrid-install")));
    let (stage, action) = run_lifecycle(phase, stage, HookEvent::Called(HookCall::Returned));
    assert!(matches!(stage, HookStage::Over));
    assert_eq!(finished(action), Ok(()));
}

#[test]
fn capsules_without_the_hook_are_left_alone() {
    let (stage, action) = run_lifecycle(
        LifecyclePhase::Upgrade,
        HookStage::Start(config("astrid-install", None)),
        HookEvent::Begin,
    );
    assert!(matches!(stage, HookStage::Over));
    assert_eq!(finished(action), Ok(()));
}

#[test]
fn no_home_is_mounted_where_none_is_given() {
    let (stage, action) = run_lifecycle(
        LifecyclePhase::Upgrade,
        HookStage::Registering(config("astrid-upgrade", None)),
        HookEvent::Registered(Ok(())),
    );
    assert!(matches!(stage, HookStage::Building));
    assert!(matches!(action, HookAction::Build { ref state, .. } if state.home.is_none()));
}

#[test]
fn failures_of_a_hook_are_told_apart() {
    let phase = LifecyclePhase::Upgrade;
    let (_, action) = run_lifecycle(
        phase,
        HookStage::Registering(config("astrid-upgrade", None)),
        HookEvent::Registered(Err("denied".into())),
    );
    assert_eq!(
        finished(action),
        Err(CapsuleError::UnsupportedEntryPoint(
            "Failed to register VFS directory for lifecycle: denied".into()
        ))
    );
    let (_, action) = run_lifecycle(
        phase,
        HookStage::Building,
        HookEvent::Built(Err((BuildStep::LifecycleInstantiate, "x".into()))),
    );
    assert_eq!(
        finished(action),
        Err(CapsuleError::UnsupportedEntryPoint(
            "Failed to instantiate WASM component for lifecycle: x".into()
        ))
    );
    let (_, action) = run_lifecycle(phase, HookStage::Calling, HookEvent::Called(HookCall::Missing));
    assert_eq!(
        finished(action),
        Err(CapsuleError::UnsupportedEntryPoint(
            "capsule does not export lifecycle hook `astrid-upgrade`".into()
        ))
    );
    let (_, action) = run_lifecycle(
        phase,
        HookStage::Calling,
        HookEvent::Called(HookCall::Failed("trap".into())),
    );
    assert_eq!(
        finished(action),
        Err(CapsuleError::ExecutionFailed("lifecycle hook astrid-upgrade failed: trap".into()))
    );
}

#[test]
fn the_beginning_depends_on_the_export() {
    let (stage, action) = begin_given(config("x", None), true);
    assert!(matches!(stage, HookStage::Registering(_)));
    assert!(matches!(action, HookAction::RegisterWorkspace(_)));
    let (stage, action) = begin_given(config("x", None), false);
    assert!(matches!(stage, HookStage::Over));
    assert_eq!(finished(action), Ok(()));
}

#[test]
fn unexpected_events_are_no_success() {
    let (stage, action) =
        run_lifecycle(LifecyclePhase::Install, HookStage::Building, HookEvent::Begin);
    assert!(matches!(stage, HookStage::Building));
    assert_eq!(
        finished(action),
        Err(CapsuleError::ExecutionFailed("unexpected lifecycle event".into()))
    );
}
