use astrid_capsule::capabilities::CapabilitiesDef;
use astrid_capsule::discovery::{
    check_export_version, check_import_version, check_manifest_given, discover_manifests, load_manifest, load_manifests_from_dir,
    manifest_location, validate_cli_verb_name, DirEntry, EntryKind, RequirementAnswer, Runtime,
    SourceDir, VersionAnswers, MANIFEST_FILE_NAME,
};
use astrid_capsule::error::CapsuleError;
use astrid_capsule::manifest::{
    CapsuleManifest, CommandDef, CommandKind, ComponentDef, ExportDef, ExportNamespace, ImportDef,
    ImportNamespace, PackageDef, PublishDef, SubscribeDef,
};

const RESERVED: [&str; 3] = ["install", "remove", "list"];

fn runtime() -> Runtime {
    Runtime::new("0.7.0".into(), RESERVED.iter().map(|s| s.to_string()).collect())
        .expect("valid version")
}

fn manifest(name: &str, version: &str) -> CapsuleManifest {
    CapsuleManifest {
        package: PackageDef { name: name.into(), version: version.into(), astrid_version: None },
        components: vec![],
        imports: vec![],
        exports: vec![],
        capabilities: CapabilitiesDef::default(),
        env: vec![],
        commands: vec![],
        uplinks: vec![],
        publishes: vec![],
        subscribes: vec![],
    }
}

fn valid() -> CapsuleManifest {
    manifest("test-capsule", "0.1.0")
}

fn load(m: CapsuleManifest) -> Result<CapsuleManifest, String> {
    match load_manifest("/c/Capsule.toml", Ok(m), &runtime()) {
        Ok(m) => Ok(m),
        Err(CapsuleError::ManifestParseError { path, message }) => {
            assert_eq!(path, "/c/Capsule.toml");
            Err(message)
        },
        Err(other) => panic!("unexpected error {other:?}"),
    }
}

fn subscribe(topic: &str, handler: Option<&str>) -> SubscribeDef {
    SubscribeDef { topic: topic.into(), handler: handler.map(String::from), priority: 100 }
}

fn import(namespace: &str, names: &[&str]) -> ImportNamespace {
    ImportNamespace {
        namespace: namespace.into(),
        interfaces: names
            .iter()
            .map(|n| ImportDef { name: n.to_string(), version: "^1.0".into(), optional: false })
            .collect(),
    }
}

fn export(namespace: &str, names: &[&str]) -> ExportNamespace {
    ExportNamespace {
        namespace: namespace.into(),
        interfaces: names
            .iter()
            .map(|n| ExportDef { name: n.to_string(), version: "1.0.0".into() })
            .collect(),
    }
}

#[test]
fn load_manifest_rejects_empty_segment_in_publish_pattern() {
    for bad in &["a..b", ".a.b", "a.b.", "", ".", "a...b"] {
        let mut m = valid();
        m.publishes = vec![PublishDef { topic: bad.to_string() }];
        let msg = load(m).unwrap_err();
        assert!(
            msg.contains("empty segments"),
            "expected 'empty segments' error for pattern '{bad}', got: {msg}"
        );
    }
}

#[test]
fn load_manifest_rejects_empty_segment_in_subscribe_handler_event() {
    for bad in &["a..b", ".event", "event.", "", ".", "a...b"] {
        let mut m = valid();
        m.subscribes = vec![subscribe(bad, Some("handle"))];
        let msg = load(m).unwrap_err();
        assert!(
            msg.contains("empty segments"),
            "expected 'empty segments' error for event '{bad}', got: {msg}"
        );
    }
}

#[test]
fn load_manifest_accepts_valid_subscribe_handler_event() {
    let mut m = valid();
    m.subscribes = vec![subscribe("user.prompt", Some("handle"))];
    assert!(load(m).is_ok());
}

#[test]
fn load_manifest_rejects_empty_segment_in_handlerless_subscribe() {
    for bad in &["a..b", ".event", "event.", "", ".", "a...b"] {
        let mut m = valid();
        m.subscribes = vec![subscribe(bad, None)];
        let msg = load(m).unwrap_err();
        assert!(
            msg.contains("empty segments"),
            "expected 'empty segments' error for subscribe key '{bad}', got: {msg}"
        );
    }
}

#[test]
fn topic_faults_name_the_table_and_the_pattern() {
    let mut m = valid();
    m.publishes = vec![PublishDef { topic: "ok".into() }, PublishDef { topic: "a..b".into() }];
    m.subscribes = vec![subscribe(".x", None)];
    assert_eq!(
        load(m).unwrap_err(),
        "publish pattern 'a..b' contains empty segments \
         (consecutive dots, leading/trailing dots, or is empty)"
    );
    let mut m = valid();
    m.subscribes = vec![subscribe(".x", None)];
    assert_eq!(
        load(m).unwrap_err(),
        "subscribe pattern '.x' contains empty segments \
         (consecutive dots, leading/trailing dots, or is empty)"
    );
}

#[test]
fn load_manifest_accepts_valid_semver() {
    assert!(load(manifest("test", "1.2.3")).is_ok());
}

fn with_command(name: &str, kind: CommandKind) -> CapsuleManifest {
    let mut m = valid();
    m.commands = vec![CommandDef { name: name.into(), kind }];
    m
}

#[test]
fn command_kind_cli_valid_name_parses() {
    for good in &["deploy", "a", "x-y", "v2", "a1-b2-c3", "abcdefghijklmnop"] {
        let m = load(with_command(good, CommandKind::Cli))
            .unwrap_or_else(|e| panic!("expected CLI verb '{good}' to load, got: {e}"));
        assert_eq!(m.commands[0].kind, CommandKind::Cli);
    }
}

#[test]
fn command_kind_cli_invalid_pattern_rejected() {
    let long = "a".repeat(33);
    let bad: Vec<String> = vec![
        "Deploy".into(),
        "1deploy".into(),
        "-deploy".into(),
        "de_ploy".into(),
        "de ploy".into(),
        "déploy".into(),
        "deploy!".into(),
        String::new(),
        long,
    ];
    for name in &bad {
        let err = load(with_command(name, CommandKind::Cli)).unwrap_err();
        assert!(
            err.contains("invalid CLI command name"),
            "expected rejection for CLI verb '{name}', got: {err}"
        );
    }
}

#[test]
fn verb_faults_are_told_apart() {
    let reserved: Vec<String> = vec!["install".into()];
    let fault = |name: &str| validate_cli_verb_name(name, &reserved).unwrap_err();
    assert_eq!(fault(""), "must not be empty");
    assert_eq!(fault(&"a".repeat(33)), "must be at most 32 characters");
    assert_eq!(fault("Deploy"), "must start with a lowercase ASCII letter (a-z)");
    assert_eq!(
        fault("de_pl!oy"),
        "contains invalid character '_' (allowed: a-z, 0-9, '-')"
    );
    assert_eq!(
        fault("déploy"),
        "contains invalid character 'é' (allowed: a-z, 0-9, '-')"
    );
    assert_eq!(
        fault("install"),
        "'install' is a reserved built-in `astrid capsule` subcommand"
    );
    assert_eq!(validate_cli_verb_name(&"a".repeat(32), &reserved), Ok(()));
}

#[test]
fn command_kind_cli_reserved_name_rejected() {
    for reserved in RESERVED {
        let err = load(with_command(reserved, CommandKind::Cli)).unwrap_err();
        assert!(
            err.contains("reserved"),
            "expected reserved-name rejection for '{reserved}', got: {err}"
        );
    }
}

#[test]
fn slash_command_names_unaffected_by_cli_validation() {
    for name in &["Install", "remove", "1abc", "MyCommand", "déjà"] {
        assert!(
            load(with_command(name, CommandKind::Slash)).is_ok(),
            "slash command '{name}' should load without CLI validation"
        );
    }
}

#[test]
fn load_manifest_accepts_prerelease_semver() {
    assert!(load(manifest("test", "1.0.0-alpha.1")).is_ok());
}

#[test]
fn load_manifest_rejects_incomplete_semver() {
    let err = load(manifest("test", "1.0")).unwrap_err();
    assert_eq!(
        err,
        "invalid version '1.0' in [package] - must be valid semver (MAJOR.MINOR.PATCH)"
    );
}

#[test]
fn load_manifest_rejects_non_semver_version() {
    let err = load(manifest("test", "latest")).unwrap_err();
    assert!(
        err.contains("invalid version"),
        "expected 'invalid version' error, got: {err}"
    );
}

#[test]
fn load_manifest_parses_imports_and_exports() {
    let mut m = valid();
    m.imports = vec![import("astrid", &["llm", "session"])];
    m.imports[0].interfaces[1].optional = true;
    m.exports = vec![export("astrid", &["identity"])];
    let m = load(m).unwrap();
    let astrid_imports = &m.imports[0].interfaces;
    assert_eq!(astrid_imports.len(), 2);
    assert!(!astrid_imports[0].optional);
    assert!(astrid_imports[1].optional);
    assert!(m.has_imports());
    let astrid_exports = &m.exports[0].interfaces;
    assert_eq!(astrid_exports.len(), 1);
    assert_eq!(astrid_exports[0].version, "1.0.0");
}

#[test]
fn load_manifest_defaults_empty_imports_exports() {
    let m = load(valid()).unwrap();
    assert!(m.imports.is_empty());
    assert!(m.exports.is_empty());
    assert!(!m.has_imports());
}

#[test]
fn load_manifest_parses_exports_only() {
    let mut m = valid();
    m.exports = vec![export("astrid", &["session", "context"])];
    let m = load(m).unwrap();
    assert!(m.imports.is_empty());
    assert_eq!(m.exports[0].interfaces.len(), 2);
}

#[test]
fn load_manifest_rejects_invalid_namespace() {
    let mut m = valid();
    m.exports = vec![export("INVALID", &["foo"])];
    assert_eq!(
        load(m).unwrap_err(),
        "[exports].INVALID: invalid namespace (must match ^[a-z][a-z0-9-]*$)"
    );
}

#[test]
fn load_manifest_rejects_invalid_interface_name() {
    let mut m = valid();
    m.exports = vec![export("astrid", &["BAD_NAME"])];
    assert_eq!(
        load(m).unwrap_err(),
        "[exports.astrid].BAD_NAME: invalid interface name (must match ^[a-z][a-z0-9-]*$)"
    );
    let mut m = valid();
    m.imports = vec![import("astrid", &["ok", ""])];
    assert_eq!(
        load(m).unwrap_err(),
        "[imports.astrid].: invalid interface name (must match ^[a-z][a-z0-9-]*$)"
    );
}

#[test]
fn load_manifest_rejects_invalid_import_version() {
    let err = check_import_version("llm", "not_semver").unwrap_err();
    assert!(err.contains("invalid semver"), "expected semver error, got: {err}");
    assert!(err.contains("not_semver") && err.contains("llm"));
    assert_eq!(check_import_version("llm", "^1.0"), Ok(()));
}

#[test]
fn load_manifest_rejects_invalid_export_version() {
    let err = check_export_version("llm", "not_semver").unwrap_err();
    assert_eq!(err, "invalid semver version 'not_semver' for export 'llm'");
    assert!(check_export_version("llm", "^1.0").is_err());
    assert_eq!(check_export_version("llm", "1.0.0"), Ok(()));
}

#[test]
fn load_manifest_rejects_uplink_with_imports() {
    let mut m = valid();
    m.capabilities.uplink = true;
    m.imports = vec![import("astrid", &["llm"])];
    let msg = load(m).unwrap_err();
    assert!(
        msg.contains("not allowed on uplink"),
        "expected uplink+imports rejection, got: {msg}"
    );
}

#[test]
fn load_manifest_allows_uplink_without_imports() {
    let mut m = valid();
    m.capabilities.uplink = true;
    assert!(load(m).is_ok(), "uplink without imports should be valid");
}

fn with_astrid_version(constraint: &str) -> CapsuleManifest {
    let mut m = manifest("test", "0.1.0");
    m.package.astrid_version = Some(constraint.into());
    m
}

#[test]
fn load_manifest_accepts_satisfied_astrid_version() {
    assert!(load(with_astrid_version(">=0.1.0")).is_ok());
}

#[test]
fn load_manifest_rejects_unsatisfied_astrid_version() {
    let msg = load(with_astrid_version(">=99.0.0")).unwrap_err();
    assert_eq!(
        msg,
        "capsule requires astrid-version >=99.0.0, but this runtime is 0.7.0"
    );
}

#[test]
fn load_manifest_rejects_invalid_astrid_version() {
    let msg = load(with_astrid_version("not-semver")).unwrap_err();
    assert!(
        msg.starts_with("invalid astrid-version 'not-semver' - "),
        "expected parse error, got: {msg}"
    );
}

#[test]
fn load_manifest_accepts_missing_astrid_version() {
    assert!(load(valid()).is_ok());
}

#[test]
fn runtime_needs_a_semver_version() {
    assert!(Runtime::new("1.2".into(), vec![]).is_none());
    assert!(Runtime::new("1.2.3".into(), vec![]).is_some());
}

#[test]
fn first_fault_in_checking_order_is_reported() {
    let mut m = manifest("test", "bad");
    m.package.astrid_version = Some(">=99.0.0".into());
    m.publishes = vec![PublishDef { topic: "".into() }];
    assert!(load(m).unwrap_err().contains("astrid-version"));
    let mut m = manifest("test", "bad");
    m.publishes = vec![PublishDef { topic: "".into() }];
    assert!(load(m).unwrap_err().contains("invalid version"));
    let mut m = valid();
    m.exports = vec![export("BAD", &[])];
    m.imports = vec![import("ALSO", &[])];
    assert!(load(m).unwrap_err().starts_with("[imports].ALSO"));
}

#[test]
fn unreadable_manifest_is_a_parse_error() {
    match load_manifest("/c/Capsule.toml", Err("expected `=`".into()), &runtime()) {
        Err(CapsuleError::ManifestParseError { path, message }) => {
            assert_eq!(path, "/c/Capsule.toml");
            assert_eq!(message, "expected `=`");
        },
        other => panic!("unexpected result {other:?}"),
    }
}

fn component(caps: Option<CapabilitiesDef>) -> ComponentDef {
    ComponentDef { path: "a.wasm".into(), capabilities: caps }
}

#[test]
fn component_capabilities_are_merged_into_the_root() {
    let mut m = valid();
    m.capabilities.fs_read = vec!["cwd://".into()];
    m.capabilities.bind_workers = Some(1);
    m.components = vec![
        component(Some(CapabilitiesDef {
            fs_read: vec!["/a".into()],
            fs_write: vec!["/b".into()],
            host_process: vec!["git".into()],
            net: vec!["x.com".into()],
            net_bind: vec!["unix:*".into()],
            net_connect: vec!["y.com:1".into()],
            bind_workers: Some(4),
            uplink: true,
            ..Default::default()
        })),
        component(None),
        component(Some(CapabilitiesDef {
            fs_read: vec!["/c".into()],
            ..Default::default()
        })),
    ];
    let caps = load(m).unwrap().capabilities;
    assert_eq!(caps.fs_read, vec!["cwd://", "/a", "/c"]);
    assert_eq!(caps.fs_write, vec!["/b"]);
    assert_eq!(caps.host_process, vec!["git"]);
    assert_eq!(caps.net, vec!["x.com"]);
    assert_eq!(caps.net_bind, vec!["unix:*"]);
    assert_eq!(caps.bind_workers, Some(4));
    assert!(caps.net_connect.is_empty());
    assert!(!caps.uplink);
}

#[test]
fn manifest_files_are_found_by_entry() {
    assert_eq!(MANIFEST_FILE_NAME, "Capsule.toml");
    assert_eq!(
        manifest_location("/d", "sub", EntryKind::Directory).as_deref(),
        Some("/d/sub/Capsule.toml")
    );
    assert_eq!(
        manifest_location("/d/", "Capsule.toml", EntryKind::File).as_deref(),
        Some("/d/Capsule.toml")
    );
    assert_eq!(manifest_location("/d", "Capsule.tom", EntryKind::File), None);
    assert_eq!(manifest_location("/d", "Capsule.toml", EntryKind::Other), None);
}

fn entry(
    name: &str,
    kind: EntryKind,
    parsed: Option<Result<CapsuleManifest, String>>,
) -> Result<DirEntry, String> {
    Ok(DirEntry { name: name.into(), kind, parsed })
}

fn shown(found: &[(CapsuleManifest, String)]) -> Vec<(String, String)> {
    found
        .iter()
        .map(|(m, dir)| (format!("{}@{}", m.package.name, m.package.version), dir.clone()))
        .collect()
}

#[test]
fn a_directory_offers_its_good_manifests() {
    let listing = Ok(vec![
        entry("one", EntryKind::Directory, Some(Ok(manifest("one", "1.0.0")))),
        entry("none", EntryKind::Directory, None),
        entry("bad", EntryKind::Directory, Some(Ok(manifest("bad", "x")))),
        entry("torn", EntryKind::Directory, Some(Err("eof".into()))),
        entry("Capsule.toml", EntryKind::File, Some(Ok(manifest("here", "2.0.0")))),
        entry("Other.toml", EntryKind::File, Some(Ok(manifest("other", "2.0.0")))),
    ]);
    let found = load_manifests_from_dir("/d", listing, &runtime()).expect("readable");
    assert_eq!(
        shown(&found),
        vec![
            ("one@1.0.0".to_string(), "/d/one".to_string()),
            ("here@2.0.0".to_string(), "/d".to_string()),
        ]
    );
}

#[test]
fn a_directory_that_cannot_be_read_fails() {
    for listing in [
        Err("denied".to_string()),
        Ok(vec![
            entry("one", EntryKind::Directory, Some(Ok(manifest("one", "1.0.0")))),
            Err("denied".to_string()),
        ]),
    ] {
        match load_manifests_from_dir("/d", listing, &runtime()) {
            Err(CapsuleError::ManifestParseError { path, message }) => {
                assert_eq!(path, "/d");
                assert_eq!(message, "denied");
            },
            other => panic!("unexpected result {other:?}"),
        }
    }
}

fn source(path: &str, packages: &[(&str, &str)]) -> SourceDir {
    SourceDir {
        path: path.into(),
        listing: Some(Ok(packages
            .iter()
            .map(|(name, version)| {
                entry(name, EntryKind::Directory, Some(Ok(manifest(name, version))))
            })
            .collect())),
    }
}

#[test]
fn first_source_wins_on_equal_names() {
    let extra = vec![
        source("/system", &[("a", "1.0.0"), ("b", "1.0.0")]),
        SourceDir { path: "/missing".into(), listing: None },
        SourceDir { path: "/broken".into(), listing: Some(Err("denied".into())) },
        source("/principal", &[("b", "2.0.0"), ("c", "2.0.0")]),
    ];
    let workspace = source(".astrid/capsules", &[("c", "3.0.0"), ("d", "3.0.0")]);
    let found = discover_manifests(Some(extra), workspace, &runtime());
    assert_eq!(
        shown(&found),
        vec![
            ("a@1.0.0".to_string(), "/system/a".to_string()),
            ("b@1.0.0".to_string(), "/system/b".to_string()),
            ("c@2.0.0".to_string(), "/principal/c".to_string()),
            ("d@3.0.0".to_string(), ".astrid/capsules/d".to_string()),
        ]
    );
    let only = discover_manifests(None, source("/w", &[("a", "1.0.0")]), &runtime());
    assert_eq!(only.len(), 1);
}

#[test]
fn faults_follow_the_answers_about_versions() {
    let m = with_astrid_version("x");
    let fault = |requirement, version_parses| {
        let answers = VersionAnswers { requirement, version_parses };
        match check_manifest_given("/p", &m, &answers, "1.0.0", &vec![]) {
            Ok(()) => None,
            Err(CapsuleError::ManifestParseError { message, .. }) => Some(message),
            Err(other) => panic!("unexpected error {other:?}"),
        }
    };
    assert_eq!(fault(RequirementAnswer::Matched, true), None);
    assert_eq!(
        fault(RequirementAnswer::Invalid("bad".into()), true).as_deref(),
        Some("invalid astrid-version 'x' - bad")
    );
    assert_eq!(
        fault(RequirementAnswer::Unmatched, false).as_deref(),
        Some("capsule requires astrid-version x, but this runtime is 1.0.0")
    );
    assert_eq!(
        fault(RequirementAnswer::Matched, false).as_deref(),
        Some("invalid version '0.1.0' in [package] - must be valid semver (MAJOR.MINOR.PATCH)")
    );
}
