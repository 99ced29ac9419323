use astrid_capsule::capabilities::CapabilitiesDef;

/// A fully populated set: every list non-empty, every flag set. Every name is
/// listed by `held_names` and answers true to `has`.
#[test]
fn held_names_and_has_agree_when_all_held() {
    let caps = CapabilitiesDef {
        uplink: true,
        net: vec!["example.com".into()],
        kv: vec!["scope".into()],
        fs_read: vec!["/r".into()],
        fs_write: vec!["/w".into()],
        host_process: vec!["bash".into()],
        allow_persistent: true,
        net_bind: vec!["127.0.0.1:0".into()],
        bind_workers: None,
        net_connect: vec!["host:443".into()],
        identity: vec!["resolve".into()],
        allow_prompt_injection: true,
    };
    let names = caps.held_names();
    let expected = [
        "allow_persistent",
        "allow_prompt_injection",
        "fs_read",
        "fs_write",
        "host_process",
        "identity",
        "kv",
        "net",
        "net_bind",
        "net_connect",
        "uplink",
    ];
    assert_eq!(names, expected, "deterministic, sorted order");
    for n in expected {
        assert!(caps.has(n), "has({n}) must agree with held_names");
    }
    assert_eq!(
        names.len(),
        caps.fields().len(),
        "held_names must cover every capability field"
    );
}

/// The default set holds nothing.
#[test]
fn default_holds_nothing() {
    let caps = CapabilitiesDef::default();
    assert!(caps.held_names().is_empty());
    for n in [
        "uplink",
        "net",
        "kv",
        "fs_read",
        "fs_write",
        "host_process",
        "allow_persistent",
        "net_bind",
        "net_connect",
        "identity",
        "allow_prompt_injection",
    ] {
        assert!(!caps.has(n), "empty set must not report {n}");
    }
}

/// Unknown capability names are not held.
#[test]
fn unknown_name_is_false() {
    let caps = CapabilitiesDef {
        host_process: vec!["bash".into()],
        ..Default::default()
    };
    assert!(!caps.has("not_a_capability"));
    assert!(!caps.has(""));
    assert!(caps.has("host_process"));
    assert_eq!(caps.held_names(), vec!["host_process".to_string()]);
}

/// A worker count is a number, which is no capability.
#[test]
fn worker_count_is_never_held() {
    let caps = CapabilitiesDef {
        bind_workers: Some(4),
        ..Default::default()
    };
    assert_eq!(caps.fields().len(), 12);
    assert!(!caps.has("bind_workers"));
    assert!(caps.held_names().is_empty());
}
