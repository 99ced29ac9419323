use astrid_capsule::capabilities::CapabilitiesDef;
use astrid_capsule::manifest::{CapsuleManifest, PackageDef};
use astrid_capsule::security::{
    identity_capability_satisfies, net_connect_pattern_matches, IdentityOperation,
    ManifestSecurityGate,
};

fn make_manifest(net: Vec<&str>, fs_read: Vec<&str>, fs_write: Vec<&str>) -> CapsuleManifest {
    CapsuleManifest {
        package: PackageDef {
            name: "test".into(),
            version: "0.1.0".into(),
            astrid_version: None,
        },
        components: vec![],
        imports: vec![],
        exports: vec![],
        capabilities: CapabilitiesDef {
            net: net.into_iter().map(String::from).collect(),
            net_bind: vec![],
            bind_workers: None,
            net_connect: vec![],
            kv: vec![],
            fs_read: fs_read.into_iter().map(String::from).collect(),
            fs_write: fs_write.into_iter().map(String::from).collect(),
            host_process: vec![],
            allow_persistent: false,
            uplink: false,
            identity: vec![],
            allow_prompt_injection: false,
        },
        env: vec![],
        commands: vec![],
        uplinks: vec![],
        publishes: vec![],
        subscribes: vec![],
    }
}

fn workspace_root() -> String {
    "/workspace".to_string()
}

fn home_root() -> String {
    "/home/user/.astrid".to_string()
}

#[test]
fn test_manifest_security_gate_http() {
    let manifest = make_manifest(vec!["api.github.com"], vec![], vec![]);
    let gate = ManifestSecurityGate::new(manifest, workspace_root(), None);

    assert!(
        gate.check_http_request("test", "GET", "https://api.github.com/v1")
            .is_ok()
    );
    assert!(
        gate.check_http_request("test", "GET", "https://v1.api.github.com/v1")
            .is_ok()
    );
    assert!(
        gate.check_http_request("test", "GET", "https://evil.com/v1")
            .is_err()
    );
    assert!(
        gate.check_http_request("test", "GET", "http://api.github.com@127.0.0.1/admin")
            .is_err()
    );
    assert!(
        gate.check_http_request("test", "GET", "http://github.com/v1")
            .is_err()
    );

    let all_manifest = make_manifest(vec!["*"], vec![], vec![]);
    let all_gate = ManifestSecurityGate::new(all_manifest, workspace_root(), None);
    assert!(
        all_gate
            .check_http_request("test", "GET", "https://evil.com/v1")
            .is_ok()
    );
}

#[test]
fn test_manifest_security_gate_fs() {
    let manifest = make_manifest(vec![], vec!["/workspace/src", "/tmp/exact.txt"], vec!["*"]);
    let gate = ManifestSecurityGate::new(manifest, workspace_root(), None);

    // Path matches correctly
    assert!(
        gate.check_file_read("test", "/workspace/src/main.rs", None)
            .is_ok()
    );
    assert!(
        gate.check_file_read("test", "/tmp/exact.txt", None)
            .is_ok()
    );

    // Path boundary correctly enforced
    assert!(
        gate.check_file_read("test", "/workspace/src-evil/main.rs", None)
            .is_err()
    );
    assert!(
        gate.check_file_read("test", "/workspace/src_evil/main.rs", None)
            .is_err()
    );
    assert!(
        gate.check_file_read("test", "/workspace/src", None)
            .is_ok()
    ); // Exact match is OK

    // Write wildcard is confined to workspace root — paths outside are denied.
    assert!(
        gate.check_file_write("test", "/workspace/src/main.rs", None)
            .is_ok()
    );
    assert!(
        gate.check_file_write("test", "/etc/passwd", None)
            .is_err()
    );
    assert!(
        gate.check_file_write("test", "/random/file.txt", None)
            .is_err()
    );

    // Path traversal via .. must be rejected even with explicit prefix match
    assert!(
        gate.check_file_read("test", "/workspace/src/../../etc/passwd", None)
            .is_err(),
        "path traversal via .. must be rejected"
    );
}

#[test]
fn test_scheme_resolution_workspace() {
    let manifest = make_manifest(vec![], vec!["cwd://"], vec![]);
    let gate = ManifestSecurityGate::new(manifest, workspace_root(), None);

    assert!(
        gate.check_file_read("test", "/workspace/src/main.rs", None)
            .is_ok()
    );
    assert!(
        gate.check_file_read("test", "/other/path", None)
            .is_err()
    );
}

#[test]
fn test_scheme_resolution_home_default_root() {
    let manifest = make_manifest(vec![], vec!["home://"], vec![]);
    let gate = ManifestSecurityGate::new(manifest, workspace_root(), Some(home_root()));

    // With no principal_home override, falls back to default_home_root (capsule owner's).
    assert!(
        gate.check_file_read("test", "/home/user/.astrid/skills/my-skill/SKILL.md", None)
            .is_ok()
    );
    assert!(
        gate.check_file_read("test", "/workspace/src/main.rs", None)
            .is_err()
    );
}

#[test]
fn test_scheme_resolution_home_principal_override() {
    // With principal_home supplied, home:// resolves against it, not the default.
    let manifest = make_manifest(vec![], vec!["home://"], vec![]);
    let gate = ManifestSecurityGate::new(manifest, workspace_root(), Some(home_root()));

    let alice = "/home/user/.astrid/home/alice";

    // Alice's home paths are allowed when principal_home is alice.
    assert!(
        gate.check_file_read(
            "test",
            "/home/user/.astrid/home/alice/note.txt",
            Some(alice),
        )
        .is_ok()
    );
    // The default-principal path is NOT automatically allowed when alice's
    // home is the active principal home.
    assert!(
        gate.check_file_read(
            "test",
            "/home/user/.astrid/skills/my-skill/SKILL.md",
            Some(alice),
        )
        .is_err()
    );
}

#[test]
fn test_home_cross_principal_denied() {
    // Alice active, path is Bob's home -> denied (path not under alice's root).
    let manifest = make_manifest(vec![], vec!["home://"], vec![]);
    let gate = ManifestSecurityGate::new(manifest, workspace_root(), None);

    let alice = "/home/user/.astrid/home/alice";
    let bob_path = "/home/user/.astrid/home/bob/secret.txt";
    assert!(
        gate.check_file_read("test", bob_path, Some(alice))
            .is_err()
    );
}

#[test]
fn test_home_traversal_denied() {
    // Even with principal_home set, traversal components are rejected
    // before any starts_with match is attempted.
    let manifest = make_manifest(vec![], vec!["home://"], vec![]);
    let gate = ManifestSecurityGate::new(manifest, workspace_root(), None);

    let alice = "/home/user/.astrid/home/alice";
    let attack = "/home/user/.astrid/home/alice/../bob/secret.txt";
    assert!(
        gate.check_file_read("test", attack, Some(alice))
            .is_err(),
        "traversal via .. must be rejected even with principal_home"
    );
}

#[test]
fn test_scheme_resolution_home_without_default_root() {
    // When no default root is configured AND no principal_home is passed,
    // home:// entries match nothing.
    let manifest = make_manifest(vec![], vec!["home://"], vec![]);
    let gate = ManifestSecurityGate::new(manifest, workspace_root(), None);

    assert!(
        gate.check_file_read("test", "/home/user/.astrid/skills/my-skill/SKILL.md", None,)
            .is_err()
    );
}

#[test]
fn test_scheme_resolution_both() {
    let manifest = make_manifest(vec![], vec!["cwd://", "home://"], vec![]);
    let gate = ManifestSecurityGate::new(manifest, workspace_root(), Some(home_root()));

    assert!(
        gate.check_file_read("test", "/workspace/src/main.rs", None)
            .is_ok()
    );
    assert!(
        gate.check_file_read("test", "/home/user/.astrid/config.toml", None)
            .is_ok()
    );
    assert!(
        gate.check_file_read("test", "/etc/passwd", None)
            .is_err()
    );
}

#[test]
fn test_global_path_denied_without_manifest_entry() {
    // Manifest only has cwd://, no home:// — global paths must be denied
    // even when home_root is configured.
    let manifest = make_manifest(vec![], vec!["cwd://"], vec![]);
    let gate = ManifestSecurityGate::new(manifest, workspace_root(), Some(home_root()));

    assert!(
        gate.check_file_read("test", "/home/user/.astrid/skills/foo/SKILL.md", None)
            .is_err()
    );
    // Workspace paths should still work
    assert!(
        gate.check_file_read("test", "/workspace/src/main.rs", None)
            .is_ok()
    );
}

#[test]
fn wildcard_confined_to_workspace_root() {
    let canonical_ws = "/tmp/ws/project";

    let manifest = make_manifest(vec![], vec!["*"], vec!["*"]);
    let gate = ManifestSecurityGate::new(manifest, canonical_ws.to_string(), None);

    // Paths under the canonical workspace root are allowed
    let read_path = format!("{canonical_ws}/src/main.rs");
    assert!(gate.check_file_read("test", &read_path, None).is_ok());
    let write_path = format!("{canonical_ws}/out/file.txt");
    assert!(gate.check_file_write("test", &write_path, None).is_ok());

    // Paths outside the workspace root are denied even with wildcard
    assert!(gate.check_file_read("test", "/etc/passwd", None).is_err());
    assert!(
        gate.check_file_write("test", "/home/user/.astrid/keys/user.key", None)
            .is_err()
    );

    // A sibling whose name begins alike is not inside
    let evil_path = "/tmp/ws/project-evil/file.txt";
    assert!(gate.check_file_write("test", evil_path, None).is_err());

    // Climbing out is refused although the path begins with the root
    let traversal = format!("{canonical_ws}/../../etc/passwd");
    assert!(
        gate.check_file_read("test", &traversal, None).is_err(),
        "path traversal via .. must be rejected"
    );
    assert!(
        gate.check_file_write("test", &traversal, None).is_err(),
        "path traversal via .. must be rejected for writes"
    );
}

#[test]
fn net_bind_gate_enforced() {
    // No net_bind capability -> denied
    let manifest = make_manifest(vec![], vec![], vec![]);
    let gate = ManifestSecurityGate::new(manifest, workspace_root(), None);
    assert!(gate.check_net_bind("test").is_err());

    // With net_bind capability -> allowed
    let mut manifest2 = make_manifest(vec![], vec![], vec![]);
    manifest2.capabilities.net_bind = vec!["unix:///tmp/sock".into()];
    let gate2 = ManifestSecurityGate::new(manifest2, workspace_root(), None);
    assert!(gate2.check_net_bind("test").is_ok());

    // Empty string in net_bind is treated as malformed -> denied
    let mut manifest3 = make_manifest(vec![], vec![], vec![]);
    manifest3.capabilities.net_bind = vec!["".into()];
    let gate3 = ManifestSecurityGate::new(manifest3, workspace_root(), None);
    assert!(gate3.check_net_bind("test").is_err());
}

#[test]
fn identity_gate_deny_by_default() {
    let manifest = make_manifest(vec![], vec![], vec![]);
    let gate = ManifestSecurityGate::new(manifest, workspace_root(), None);

    assert!(
        gate.check_identity("test", IdentityOperation::Resolve)
            .is_err()
    );
    assert!(
        gate.check_identity("test", IdentityOperation::Link)
            .is_err()
    );
    assert!(
        gate.check_identity("test", IdentityOperation::CreateUser)
            .is_err()
    );
}

#[test]
fn identity_gate_resolve_only() {
    let mut manifest = make_manifest(vec![], vec![], vec![]);
    manifest.capabilities.identity = vec!["resolve".into()];
    let gate = ManifestSecurityGate::new(manifest, workspace_root(), None);

    assert!(
        gate.check_identity("test", IdentityOperation::Resolve)
            .is_ok()
    );
    assert!(
        gate.check_identity("test", IdentityOperation::Link)
            .is_err()
    );
    assert!(
        gate.check_identity("test", IdentityOperation::CreateUser)
            .is_err()
    );
}

#[test]
fn identity_gate_link_implies_resolve() {
    let mut manifest = make_manifest(vec![], vec![], vec![]);
    manifest.capabilities.identity = vec!["link".into()];
    let gate = ManifestSecurityGate::new(manifest, workspace_root(), None);

    assert!(
        gate.check_identity("test", IdentityOperation::Resolve)
            .is_ok()
    );
    assert!(
        gate.check_identity("test", IdentityOperation::Link)
            .is_ok()
    );
    assert!(
        gate.check_identity("test", IdentityOperation::Unlink)
            .is_ok()
    );
    assert!(
        gate.check_identity("test", IdentityOperation::ListLinks)
            .is_ok()
    );
    assert!(
        gate.check_identity("test", IdentityOperation::CreateUser)
            .is_err()
    );
}

#[test]
fn identity_gate_admin_implies_all() {
    let mut manifest = make_manifest(vec![], vec![], vec![]);
    manifest.capabilities.identity = vec!["admin".into()];
    let gate = ManifestSecurityGate::new(manifest, workspace_root(), None);

    assert!(
        gate.check_identity("test", IdentityOperation::Resolve)
            .is_ok()
    );
    assert!(
        gate.check_identity("test", IdentityOperation::Link)
            .is_ok()
    );
    assert!(
        gate.check_identity("test", IdentityOperation::CreateUser)
            .is_ok()
    );
}

#[test]
fn net_connect_exact_match() {
    assert!(net_connect_pattern_matches(
        "example.com:443",
        "example.com",
        443
    ));
}

#[test]
fn net_connect_port_mismatch_is_denied() {
    assert!(!net_connect_pattern_matches(
        "example.com:443",
        "example.com",
        80
    ));
}

#[test]
fn net_connect_host_mismatch_is_denied() {
    assert!(!net_connect_pattern_matches(
        "example.com:443",
        "evil.com",
        443
    ));
}

#[test]
fn net_connect_port_wildcard_matches_any_port() {
    assert!(net_connect_pattern_matches(
        "example.com:*",
        "example.com",
        1
    ));
    assert!(net_connect_pattern_matches(
        "example.com:*",
        "example.com",
        65535
    ));
}

#[test]
fn net_connect_host_is_case_insensitive() {
    assert!(net_connect_pattern_matches(
        "Example.COM:443",
        "example.com",
        443
    ));
}

#[test]
fn net_connect_missing_colon_is_denied() {
    assert!(!net_connect_pattern_matches(
        "example.com",
        "example.com",
        80
    ));
}

#[test]
fn net_connect_invalid_port_is_denied() {
    assert!(!net_connect_pattern_matches(
        "example.com:abc",
        "example.com",
        80
    ));
}

#[test]
fn check_net_connect_default_denies_with_empty_allowlist() {
    let mut manifest = make_manifest(vec![], vec![], vec![]);
    manifest.capabilities.net_connect = vec![];
    let gate = ManifestSecurityGate::new(manifest, workspace_root(), None);
    let err = gate
        .check_net_connect("c", "example.com", 443)
        .unwrap_err();
    assert!(err.contains("not in net_connect allowlist"), "{err}");
}

#[test]
fn check_net_connect_matches_allowlist_entry() {
    let mut manifest = make_manifest(vec![], vec![], vec![]);
    manifest.capabilities.net_connect = vec!["example.com:443".to_string()];
    let gate = ManifestSecurityGate::new(manifest, workspace_root(), None);
    assert!(
        gate.check_net_connect("c", "example.com", 443)
            .is_ok()
    );
    assert!(
        gate.check_net_connect("c", "example.com", 80)
            .is_err()
    );
    assert!(gate.check_net_connect("c", "evil.com", 443).is_err());
}

#[test]
fn check_net_tcp_bind_matches_net_bind_host_port() {
    let mut manifest = make_manifest(vec![], vec![], vec![]);
    manifest.capabilities.net_bind = vec!["127.0.0.1:8799".to_string()];
    let gate = ManifestSecurityGate::new(manifest, workspace_root(), None);
    // Exact host:port allowed.
    assert!(gate.check_net_tcp_bind("c", "127.0.0.1", 8799).is_ok());
    // Wrong port denied.
    assert!(gate.check_net_tcp_bind("c", "127.0.0.1", 9000).is_err());
    // Wrong host denied.
    assert!(gate.check_net_tcp_bind("c", "0.0.0.0", 8799).is_err());
}

#[test]
fn check_net_tcp_bind_wildcard_port() {
    let mut manifest = make_manifest(vec![], vec![], vec![]);
    manifest.capabilities.net_bind = vec!["127.0.0.1:*".to_string()];
    let gate = ManifestSecurityGate::new(manifest, workspace_root(), None);
    assert!(gate.check_net_tcp_bind("c", "127.0.0.1", 8799).is_ok());
    assert!(gate.check_net_tcp_bind("c", "127.0.0.1", 1234).is_ok());
}

#[test]
fn check_net_tcp_bind_unix_entry_does_not_authorize_tcp() {
    // The CLI proxy declares `net_bind = ["unix:*"]`. That entry must NEVER
    // authorize an inbound TCP bind — the two socket families share the field
    // without cross-authorizing.
    let mut manifest = make_manifest(vec![], vec![], vec![]);
    manifest.capabilities.net_bind = vec!["unix:*".to_string()];
    let gate = ManifestSecurityGate::new(manifest, workspace_root(), None);
    assert!(gate.check_net_tcp_bind("c", "127.0.0.1", 8799).is_err());
}

#[test]
fn check_net_tcp_bind_empty_net_bind_denies() {
    let manifest = make_manifest(vec![], vec![], vec![]);
    let gate = ManifestSecurityGate::new(manifest, workspace_root(), None);
    assert!(gate.check_net_tcp_bind("c", "127.0.0.1", 8799).is_err());
}

#[test]
fn http_refusals_name_the_url_or_the_parse_error() {
    let gate = ManifestSecurityGate::new(
        make_manifest(vec!["example.com"], vec![], vec![]),
        workspace_root(),
        None,
    );
    assert_eq!(
        gate.check_http_request("c", "GET", "https://evil.com/x"),
        Err(
            "capsule 'c' denied: network access to 'https://evil.com/x' not declared in manifest"
                .to_string()
        )
    );
    assert_eq!(
        gate.check_http_request("c", "GET", "not a url"),
        Err("Invalid URL: relative URL without a base".to_string())
    );
    // The host is what counts, not where the name appears in the text.
    assert!(gate.check_http_request("c", "GET", "https://evil.com/example.com").is_err());
    assert!(gate.check_http_request("c", "GET", "HTTPS://EXAMPLE.com:8443/a?b").is_ok());
    // A URL without a host matches no domain.
    assert!(gate.check_http_request("c", "GET", "data:text/plain,x").is_err());
    assert!(gate.check_http_host("c", "u", "sub.example.com").is_ok());
    assert!(gate.check_http_host("c", "u", "notexample.com").is_err());
}

#[test]
fn file_refusals_name_the_path() {
    let gate = ManifestSecurityGate::new(
        make_manifest(vec![], vec!["/data"], vec![]),
        workspace_root(),
        None,
    );
    assert_eq!(
        gate.check_file_read("c", "/etc/passwd", None),
        Err("capsule 'c' denied: read access to '/etc/passwd' not declared in manifest".to_string())
    );
    assert_eq!(
        gate.check_file_write("c", "/data/x", None),
        Err("capsule 'c' denied: write access to '/data/x' not declared in manifest".to_string())
    );
    // Repeated slashes and inner dots do not matter.
    assert!(gate.check_file_read("c", "//data/./x//y", None).is_ok());
    assert!(gate.check_file_read("c", "data/x", None).is_err());
}

#[test]
fn absolute_suffixes_stay_below_the_root() {
    let gate = ManifestSecurityGate::new(
        make_manifest(vec![], vec!["cwd:///srv/data", "home:///etc"], vec!["cwd://///out"]),
        workspace_root(),
        Some(home_root()),
    );
    assert!(gate.check_file_read("c", "/srv/data/x", None).is_err());
    assert!(gate.check_file_read("c", "/workspace/srv/data/x", None).is_ok());
    assert!(gate.check_file_read("c", "/etc/passwd", None).is_err());
    assert!(gate.check_file_read("c", "/home/user/.astrid/etc/a", None).is_ok());
    assert!(gate.check_file_read("c", "/home/user/.astrid/other", None).is_err());
    assert!(gate.check_file_read("c", "/p/alice/etc/a", Some("/p/alice")).is_ok());
    assert!(gate.check_file_read("c", "/p/bob/etc/a", Some("/p/alice")).is_err());
    assert!(gate.check_file_write("c", "/workspace/out/x", None).is_ok());
    assert!(gate.check_file_write("c", "/out/x", None).is_err());
}

#[test]
fn bare_schemes_cover_their_root() {
    let gate = ManifestSecurityGate::new(
        make_manifest(vec![], vec!["cwd://", "home:///"], vec![]),
        workspace_root(),
        Some(home_root()),
    );
    assert!(gate.check_file_read("c", "/workspace/a", None).is_ok());
    assert!(gate.check_file_read("c", "/home/user/.astrid/a", None).is_ok());
    assert!(gate.check_file_read("c", "/home/user/a", None).is_err());
}

#[test]
fn host_wildcard_is_universal() {
    let mut manifest = make_manifest(vec![], vec![], vec![]);
    manifest.capabilities.net_connect =
        vec!["*:443".to_string(), "*.example.org:80".to_string()];
    manifest.capabilities.net_bind = vec!["*:8080".to_string()];
    let gate = ManifestSecurityGate::new(manifest, workspace_root(), None);
    assert_eq!(gate.check_net_connect("c", "example.com", 443), Ok(()));
    assert!(gate.check_net_connect("c", "example.com", 80).is_err());
    // There are no wildcards within names.
    assert!(gate.check_net_connect("c", "www.example.org", 80).is_err());
    assert!(gate.check_net_connect("c", "*.example.org", 80).is_ok());
    assert!(gate.check_net_tcp_bind("c", "127.0.0.1", 8080).is_ok());
    assert!(gate.check_net_tcp_bind("c", "127.0.0.1", 8081).is_err());
    assert!(net_connect_pattern_matches("*:*", "example.com", 1));
    assert!(!net_connect_pattern_matches("*", "example.com", 1));
    assert!(!net_connect_pattern_matches("**:1", "example.com", 1));
}

#[test]
fn host_process_matches_the_command_or_its_arguments() {
    let mut manifest = make_manifest(vec![], vec![], vec![]);
    manifest.capabilities.host_process = vec!["git".into(), "cargo build".into()];
    let gate = ManifestSecurityGate::new(manifest, workspace_root(), None);
    assert!(gate.check_host_process("c", "git").is_ok());
    assert!(gate.check_host_process("c", "git status").is_ok());
    assert!(gate.check_host_process("c", "gitk").is_err());
    assert!(gate.check_host_process("c", "cargo").is_err());
    assert!(gate.check_host_process("c", "cargo build --release").is_ok());
    assert_eq!(
        gate.check_host_process("c", "rm -rf /"),
        Err("capsule 'c' denied: host process 'rm -rf /' not declared in manifest".to_string())
    );
}

#[test]
fn unix_entries_do_not_permit_a_host_named_unix() {
    let mut manifest = make_manifest(vec![], vec![], vec![]);
    manifest.capabilities.net_bind = vec!["unix:*".to_string(), "unix:80".to_string()];
    let gate = ManifestSecurityGate::new(manifest, workspace_root(), None);
    assert!(gate.check_net_tcp_bind("c", "unix", 80).is_err());
    assert_eq!(
        gate.check_net_tcp_bind("c", "unix", 80),
        Err("capsule 'c' denied: TCP bind \"unix:80\" not in net_bind allowlist".to_string())
    );
}

#[test]
fn identity_refusal_lists_what_is_held() {
    let mut manifest = make_manifest(vec![], vec![], vec![]);
    manifest.capabilities.identity = vec!["resolve".into(), "a\"b".into()];
    let gate = ManifestSecurityGate::new(manifest, workspace_root(), None);
    assert_eq!(
        gate.check_identity("c", IdentityOperation::CreateUser),
        Err(
            "capsule 'c' denied: identity operation 'admin' not declared in manifest \
             (has: [\"resolve\", \"a\\\"b\"])"
                .to_string()
        )
    );
    assert!(!identity_capability_satisfies(&vec!["admin".to_string()], "root"));
}

#[test]
fn net_connect_ports_are_numbers_of_sixteen_bits() {
    assert!(net_connect_pattern_matches("h:0443", "h", 443));
    assert!(net_connect_pattern_matches("h:+443", "h", 443));
    assert!(!net_connect_pattern_matches("h:65536", "h", 0));
    assert!(!net_connect_pattern_matches("h:", "h", 0));
    assert!(!net_connect_pattern_matches("h:-1", "h", 1));
    assert!(net_connect_pattern_matches("::1:80", "::1", 80));
    assert!(!net_connect_pattern_matches("*.example.com:443", "a.example.com", 443));
}
