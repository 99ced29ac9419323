use astrid_capsule::prescan::{
    payloads_implement, wasm_exports_contain, wasm_exports_contain_run, ScanExport, ScanPayload,
};
use wasm_encoder::{
    CodeSection, Component, ComponentExportKind, ComponentExportSection, ConstExpr, ExportKind,
    ExportSection, Function, FunctionSection, GlobalSection, GlobalType, Instruction, Module,
    TypeSection, ValType,
};

/// Build a minimal valid WASM module with specified function exports.
fn build_wasm_module(export_names: &[&str]) -> Vec<u8> {

    let mut module = Module::new();

    // Type section: one function type () -> ()
    let mut types = TypeSection::new();
    types.ty().function(vec![], vec![]);
    module.section(&types);

    // Function section: one function per export, all using type 0
    let mut functions = FunctionSection::new();
    for _ in export_names {
        functions.function(0);
    }
    module.section(&functions);

    // Export section
    let mut exports = ExportSection::new();
    for (i, name) in export_names.iter().enumerate() {
        exports.export(name, ExportKind::Func, i as u32);
    }
    module.section(&exports);

    // Code section: one no-op body per function
    let mut code = CodeSection::new();
    for _ in export_names {
        let mut f = Function::new(vec![]);
        f.instruction(&Instruction::End);
        code.function(&f);
    }
    module.section(&code);

    module.finish()
}

#[test]
fn prescan_detects_run_export() {
    let wasm = build_wasm_module(&["run"]);
    assert!(wasm_exports_contain_run(&wasm), "should detect run export");
}

#[test]
fn prescan_returns_false_without_run() {
    let wasm = build_wasm_module(&["tool_call", "install"]);
    assert!(
        !wasm_exports_contain_run(&wasm),
        "should not detect run when absent"
    );
}

#[test]
fn prescan_detects_run_among_multiple_exports() {
    let wasm = build_wasm_module(&["install", "run", "tool_call"]);
    assert!(
        wasm_exports_contain_run(&wasm),
        "should detect run among multiple exports"
    );
}

#[test]
fn prescan_returns_false_for_empty_export_section() {
    // Module with an empty export section (section present, count = 0).
    // Exercises the inner-loop-zero-iterations path returning false
    // from within the ExportSection arm.
    let wasm = build_wasm_module(&[]);
    assert!(
        !wasm_exports_contain_run(&wasm),
        "empty export section should not have run"
    );
}

#[test]
fn prescan_returns_false_for_module_with_no_export_section() {
    // Module with no export section at all. Exercises the fall-through
    // path at the end of wasm_exports_contain_run (line after the loop).
    let mut module = Module::new();
    let mut types = TypeSection::new();
    types.ty().function(vec![], vec![]);
    module.section(&types);
    let wasm = module.finish();
    assert!(
        !wasm_exports_contain_run(&wasm),
        "module with no export section should not have run"
    );
}

#[test]
fn prescan_returns_true_for_corrupt_binary() {
    // Corrupt/invalid bytes - should default to true (safe direction)
    let garbage = b"not a wasm module at all";
    assert!(
        wasm_exports_contain_run(garbage),
        "corrupt binary should default to true (safe: no timeout)"
    );
}

/// Build a WASM module where exports may alias to shared function
/// indices, simulating the wasm32-wasip2 toolchain's nop-stub synthesis
/// for unimplemented mandatory WIT exports. `exports` is `(name, idx)`
/// pairs — multiple entries with the same `idx` model an aliased stub.
fn build_wasm_module_with_aliases(exports: &[(&str, u32)]) -> Vec<u8> {

    let mut module = Module::new();

    let mut types = TypeSection::new();
    types.ty().function(vec![], vec![]);
    module.section(&types);

    let max_idx = exports.iter().map(|(_, i)| *i).max().unwrap_or(0);
    let func_count = (max_idx + 1) as usize;

    let mut functions = FunctionSection::new();
    for _ in 0..func_count {
        functions.function(0);
    }
    module.section(&functions);

    let mut export_section = ExportSection::new();
    for (name, idx) in exports {
        export_section.export(name, ExportKind::Func, *idx);
    }
    module.section(&export_section);

    let mut code = CodeSection::new();
    for _ in 0..func_count {
        let mut f = Function::new(vec![]);
        f.instruction(&Instruction::End);
        code.function(&f);
    }
    module.section(&code);

    module.finish()
}

/// `run` aliased to `astrid-install` and `astrid-upgrade` is the
/// wasip2-stub signature — must not be classified as a live run loop.
#[test]
fn prescan_rejects_run_aliased_with_install_and_upgrade() {
    let wasm = build_wasm_module_with_aliases(&[
        ("astrid-hook-trigger", 0),
        ("run", 1),
        ("astrid-install", 1),
        ("astrid-upgrade", 1),
    ]);
    assert!(
        !wasm_exports_contain_run(&wasm),
        "stub run aliased to install/upgrade must be treated as no run loop"
    );
}

/// A real `#[astrid::run]` produces a function distinct from the
/// install/upgrade stubs — must be classified as a live run loop.
#[test]
fn prescan_accepts_run_distinct_from_install_stubs() {
    let wasm = build_wasm_module_with_aliases(&[
        ("astrid-hook-trigger", 0),
        ("run", 1),
        ("astrid-install", 2),
        ("astrid-upgrade", 2),
    ]);
    assert!(
        wasm_exports_contain_run(&wasm),
        "run distinct from aliased install/upgrade stubs is a real run loop"
    );
}

/// All three trio members real (distinct) — every one is a real export.
#[test]
fn prescan_accepts_all_three_distinct_implementations() {
    let wasm = build_wasm_module_with_aliases(&[
        ("astrid-hook-trigger", 0),
        ("run", 1),
        ("astrid-install", 2),
        ("astrid-upgrade", 3),
    ]);
    assert!(wasm_exports_contain_run(&wasm));
    assert!(wasm_exports_contain("astrid-install", &wasm));
    assert!(wasm_exports_contain("astrid-upgrade", &wasm));
}

/// Real install with stubbed run+upgrade: install is real, run/upgrade
/// are stubs because they alias to each other (but not to install).
#[test]
fn prescan_distinguishes_real_install_from_run_upgrade_stubs() {
    let wasm = build_wasm_module_with_aliases(&[
        ("astrid-hook-trigger", 0),
        ("run", 1),
        ("astrid-upgrade", 1),
        ("astrid-install", 2),
    ]);
    assert!(
        !wasm_exports_contain_run(&wasm),
        "run aliased to upgrade is a stub even when install is real"
    );
    assert!(
        wasm_exports_contain("astrid-install", &wasm),
        "install with a unique index is real"
    );
    assert!(
        !wasm_exports_contain("astrid-upgrade", &wasm),
        "upgrade aliased to run is a stub"
    );
}

/// Lifecycle pre-scan: stubbed install/upgrade must short-circuit out
/// of `run_lifecycle` — same call site, same stub-detection contract.
#[test]
fn prescan_rejects_stubbed_lifecycle_exports() {
    let wasm = build_wasm_module_with_aliases(&[
        ("astrid-hook-trigger", 0),
        ("run", 1),
        ("astrid-install", 1),
        ("astrid-upgrade", 1),
    ]);
    assert!(!wasm_exports_contain("astrid-install", &wasm));
    assert!(!wasm_exports_contain("astrid-upgrade", &wasm));
}

/// Names outside the stub-prone trio fall back to plain name-presence —
/// no stub baseline applies.
#[test]
fn prescan_non_trio_name_uses_plain_presence() {
    let wasm = build_wasm_module_with_aliases(&[
        ("astrid-hook-trigger", 0),
        ("astrid-cron-trigger", 0),
    ]);
    assert!(
        wasm_exports_contain("astrid-hook-trigger", &wasm),
        "non-trio names take face value even if shared"
    );
    assert!(wasm_exports_contain("astrid-cron-trigger", &wasm));
}

#[test]
fn prescan_ignores_non_func_run_export() {

    let mut module = Module::new();

    let mut types = TypeSection::new();
    types.ty().function(vec![], vec![]);
    module.section(&types);

    // Global section: one i32 global named "run"
    let mut globals = GlobalSection::new();
    globals.global(
        GlobalType {
            val_type: ValType::I32,
            mutable: false,
            shared: false,
        },
        &ConstExpr::i32_const(42),
    );
    module.section(&globals);

    // Export "run" as a global, not a function
    let mut exports = ExportSection::new();
    exports.export("run", ExportKind::Global, 0);
    module.section(&exports);

    let wasm = module.finish();
    assert!(
        !wasm_exports_contain_run(&wasm),
        "global named 'run' should not be detected as a function export"
    );
}

/// Build a component with the given function exports.
fn build_component(exports: &[(&str, u32)]) -> Vec<u8> {
    let mut section = ComponentExportSection::new();
    for (name, idx) in exports {
        section.export(*name, ComponentExportKind::Func, *idx, None);
    }
    let mut component = Component::new();
    component.section(&section);
    component.finish()
}

#[test]
fn prescan_reads_component_exports() {
    assert!(wasm_exports_contain_run(&build_component(&[("run", 0)])));
    assert!(!wasm_exports_contain_run(&build_component(&[("other", 0)])));
    assert!(!wasm_exports_contain_run(&build_component(&[("run", 0), ("astrid-upgrade", 0)])));
}

#[test]
fn prescan_counts_a_truncated_binary_as_implementing() {
    let wasm = build_wasm_module(&["tool_call"]);
    assert!(!wasm_exports_contain_run(&wasm));
    assert!(wasm_exports_contain_run(&wasm[..wasm.len() - 1]));
    assert!(wasm_exports_contain_run(b""));
}

fn func(name: &str, index: u32) -> Option<ScanExport> {
    Some(ScanExport { name: name.into(), is_func: true, index })
}

#[test]
fn first_piece_that_says_anything_decides() {
    let real = || ScanPayload::Exports(vec![func("run", 1), func("astrid-install", 2)]);
    let stub = || ScanPayload::Exports(vec![func("run", 1), func("astrid-install", 1)]);
    assert!(payloads_implement("run", &vec![ScanPayload::Other, real(), stub()]));
    assert!(!payloads_implement("run", &vec![ScanPayload::Other, stub(), real()]));
    assert!(!payloads_implement("run", &vec![stub(), ScanPayload::Failure]));
    assert!(payloads_implement("run", &vec![ScanPayload::Failure, stub()]));
    assert!(!payloads_implement("run", &vec![ScanPayload::Other]));
    assert!(!payloads_implement("run", &vec![]));
}

#[test]
fn entry_that_does_not_parse_counts_as_implementing() {
    let section = ScanPayload::Exports(vec![func("astrid-install", 1), func("run", 1), None]);
    assert!(payloads_implement("run", &vec![section]));
}

#[test]
fn last_entry_of_a_name_gives_its_index() {
    let section =
        ScanPayload::Exports(vec![func("run", 1), func("astrid-install", 1), func("run", 2)]);
    assert!(payloads_implement("run", &vec![section]));
}
