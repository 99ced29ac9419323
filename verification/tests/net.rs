use astrid_capsule::capabilities::CapabilitiesDef;
use astrid_capsule::host_state::{
    CallerContext, HookHostStateParams, HostState, SecretScope, SharedListeners,
};
use astrid_capsule::manifest::{CapsuleManifest, PackageDef};
use astrid_capsule::net::{
    code_text, is_loopback_bind_host, lookup_result, map_io_err, net_stream, validate_host,
    with_tcp_slot_mut, AcceptEvent, AcceptPhase,
    AcceptStep, BindEvent, BindPhase, BindStep, ConnectEvent, ConnectPhase, ConnectStep, ErrorCode,
    HostAuditEvent, HostAuditOutcome, IoFailure, IoKind, IpLiteral, NetStream, ResolvedAddr,
    MAX_ACTIVE_STREAMS,
};
use astrid_capsule::security::ManifestSecurityGate;
use std::sync::Arc;
use tokio::net::{TcpListener, TcpStream, UnixStream};
use tokio::runtime::Runtime;
use tokio::sync::Mutex;

fn runtime() -> Runtime {
    tokio::runtime::Builder::new_current_thread().enable_all().build().expect("runtime")
}

fn listener(rt: &Runtime) -> Arc<TcpListener> {
    Arc::new(rt.block_on(TcpListener::bind("127.0.0.1:0")).expect("bound"))
}

/// A stream, over the file of a pipe.
fn stream(rt: &Runtime) -> Arc<Mutex<TcpStream>> {
    let made = rt.block_on(async {
        let (end, _peer) = tokio::net::unix::pipe::pipe().expect("pipe");
        let fd = end.into_nonblocking_fd().expect("file");
        TcpStream::from_std(fd.into())
    });
    Arc::new(Mutex::new(made.expect("stream")))
}

#[test]
fn max_active_streams_pinned() {
    assert_eq!(MAX_ACTIVE_STREAMS, 8);
}

#[test]
fn validate_host_accepts_normal_names() {
    assert!(validate_host("example.com").is_ok());
    assert!(validate_host("fulcrum.unicity.network").is_ok());
    assert!(validate_host("127.0.0.1").is_ok());
    assert!(validate_host("::1").is_ok());
}

#[test]
fn validate_host_rejects_empty() {
    assert!(validate_host("").is_err());
}

#[test]
fn validate_host_rejects_null_bytes() {
    assert!(validate_host("evil\0.com").is_err());
}

#[test]
fn validate_host_rejects_overlength() {
    let long = "a".repeat(256);
    assert!(validate_host(&long).is_err());
}

#[test]
fn validate_host_accepts_max_length() {
    let max = "a".repeat(255);
    assert!(validate_host(&max).is_ok());
}

#[test]
fn host_length_counts_bytes() {
    assert!(validate_host(&"é".repeat(127)).is_ok());
    assert_eq!(validate_host(&"é".repeat(128)), Err(ErrorCode::AddressNotAvailable));
}

#[test]
fn loopback_bind_host_accepts_loopback() {
    assert!(is_loopback_bind_host("127.0.0.1", Some(IpLiteral::V4([127, 0, 0, 1]))));
    assert!(is_loopback_bind_host("127.0.0.5", Some(IpLiteral::V4([127, 0, 0, 5]))));
    assert!(is_loopback_bind_host("::1", Some(IpLiteral::V6([0, 0, 0, 0, 0, 0, 0, 1]))));
    assert!(is_loopback_bind_host("localhost", None));
    assert!(is_loopback_bind_host("LOCALHOST", None));
}

#[test]
fn loopback_bind_host_rejects_non_loopback() {
    assert!(!is_loopback_bind_host("0.0.0.0", Some(IpLiteral::V4([0, 0, 0, 0]))));
    assert!(!is_loopback_bind_host("192.168.1.10", Some(IpLiteral::V4([192, 168, 1, 10]))));
    assert!(!is_loopback_bind_host("8.8.8.8", Some(IpLiteral::V4([8, 8, 8, 8]))));
    assert!(!is_loopback_bind_host("::", Some(IpLiteral::V6([0, 0, 0, 0, 0, 0, 0, 0]))));
    // A hostname other than localhost is refused (not resolved).
    assert!(!is_loopback_bind_host("example.com", None));
    assert!(!is_loopback_bind_host("", None));
}

fn failure(kind: IoKind) -> IoFailure {
    IoFailure { kind, text: "boom".into() }
}

#[test]
fn io_failures_map_to_codes() {
    assert_eq!(map_io_err(failure(IoKind::WouldBlock)), ErrorCode::WouldBlock);
    assert_eq!(map_io_err(failure(IoKind::ConnectionRefused)), ErrorCode::ConnectionRefused);
    assert_eq!(map_io_err(failure(IoKind::ConnectionReset)), ErrorCode::ConnectionReset);
    assert_eq!(map_io_err(failure(IoKind::ConnectionAborted)), ErrorCode::ConnectionReset);
    assert_eq!(map_io_err(failure(IoKind::BrokenPipe)), ErrorCode::ConnectionReset);
    assert_eq!(map_io_err(failure(IoKind::TimedOut)), ErrorCode::Timeout);
    assert_eq!(map_io_err(failure(IoKind::AddrInUse)), ErrorCode::AddressInUse);
    assert_eq!(map_io_err(failure(IoKind::AddrNotAvailable)), ErrorCode::AddressNotAvailable);
    assert_eq!(map_io_err(failure(IoKind::Other)), ErrorCode::Unknown("boom".into()));
}

fn gate(net_connect: &[&str], net_bind: &[&str]) -> ManifestSecurityGate {
    let manifest = CapsuleManifest {
        package: PackageDef { name: "test".into(), version: "0.1.0".into(), astrid_version: None },
        components: vec![],
        imports: vec![],
        exports: vec![],
        capabilities: CapabilitiesDef {
            net_connect: net_connect.iter().map(|s| s.to_string()).collect(),
            net_bind: net_bind.iter().map(|s| s.to_string()).collect(),
            ..Default::default()
        },
        env: vec![],
        commands: vec![],
        uplinks: vec![],
        publishes: vec![],
        subscribes: vec![],
    };
    ManifestSecurityGate::new(manifest, "/ws".into(), None)
}

fn audited_state() -> HostState {
    let mut state = HostState::for_hook(HookHostStateParams {
        capsule_id: "test".into(),
        workspace_root: "/ws".into(),
        kv: "ns".into(),
        secret_store: SecretScope::Neutral,
        memory_limit: 67_108_864,
        memory_principal: "default".into(),
    });
    state.audited = true;
    state.caller_context = Some(CallerContext { principal: Some("alice".into()) });
    state
}

/// The phase that waits for an event.
fn connect_phase(event: &ConnectEvent) -> ConnectPhase {
    match event {
        ConnectEvent::Begin => ConnectPhase::Start,
        ConnectEvent::Resolved(_) => ConnectPhase::Resolving,
        _ => ConnectPhase::Connecting,
    }
}

fn connect(state: &mut HostState, host: &str, port: u16, event: ConnectEvent) -> ConnectStep {
    let phase = connect_phase(&event);
    let (next, step) = state.connect_tcp(host, port, phase, event);
    let expected = match &step {
        ConnectStep::Resolve => ConnectPhase::Resolving,
        ConnectStep::Connect => ConnectPhase::Connecting,
        ConnectStep::Done { .. } => ConnectPhase::Over,
    };
    assert_eq!(next, expected);
    step
}

/// Binds with the listeners of the capsule.
fn bind_with(
    state: &mut HostState,
    listeners: &mut SharedListeners,
    host: &str,
    port: u16,
    event: BindEvent,
) -> BindStep {
    let phase = match &event {
        BindEvent::Begin(_) => BindPhase::Start,
        BindEvent::Bound(_) => BindPhase::Binding,
    };
    let (next, step) = state.bind_tcp(listeners, host, port, phase, event);
    let expected = match &step {
        BindStep::Bind => BindPhase::Binding,
        BindStep::Done { .. } => BindPhase::Over,
    };
    assert_eq!(next, expected);
    step
}

/// Binds for a capsule with a single worker.
fn bind(state: &mut HostState, host: &str, port: u16, event: BindEvent) -> BindStep {
    bind_with(state, &mut SharedListeners::new(1), host, port, event)
}

fn accept_phase(event: &AcceptEvent) -> AcceptPhase {
    match event {
        AcceptEvent::Begin { .. } => AcceptPhase::Start,
        _ => AcceptPhase::Waiting,
    }
}

fn accept(state: &mut HostState, event: AcceptEvent) -> AcceptStep {
    let phase = accept_phase(&event);
    state.accept(phase, event).1
}

fn poll_accept(state: &mut HostState, event: AcceptEvent) -> AcceptStep {
    let phase = accept_phase(&event);
    state.poll_accept(phase, event).1
}

#[test]
fn connecting_runs_through_its_steps() {
    let mut state = audited_state();
    state.security = Some(gate(&["example.com:443"], &[]));
    assert!(matches!(
        connect(&mut state, "example.com", 443, ConnectEvent::Begin),
        ConnectStep::Resolve
    ));
    assert!(matches!(
        connect(&mut state, "example.com", 443, ConnectEvent::Resolved(Ok(vec![true, true]))),
        ConnectStep::Connect
    ));
    assert_eq!(state.net_stream_count, 0);
    let rt = runtime();
    let open = stream(&rt);
    match connect(&mut state, "example.com", 443, ConnectEvent::Connected(open.clone())) {
        ConnectStep::Done { result, record } => {
            let rep = result.expect("entered");
            let slot = state.with_tcp_stream(rep).expect("a TCP stream");
            assert!(Arc::ptr_eq(&slot.stream, &open));
            assert_eq!(slot.read_timeout, None);
            let record = record.expect("recorded");
            assert_eq!(record.principal, "alice");
            assert!(matches!(record.outcome, HostAuditOutcome::Allowed));
            match record.event {
                HostAuditEvent::NetConnect { host, port } => {
                    assert_eq!(host, "example.com");
                    assert_eq!(port, 443);
                },
                other => panic!("unexpected event {other:?}"),
            }
        },
        other => panic!("unexpected step {other:?}"),
    }
    assert_eq!(state.net_stream_count, 1);
}

fn connect_error(state: &mut HostState, event: ConnectEvent) -> (ErrorCode, bool) {
    match connect(state, "example.com", 443, event) {
        ConnectStep::Done { result: Err(code), record } => (code, record.is_some()),
        other => panic!("unexpected step {other:?}"),
    }
}

#[test]
fn connecting_fails_with_one_record() {
    let mut state = audited_state();
    assert_eq!(
        connect_error(&mut state, ConnectEvent::Resolved(Err(()))),
        (ErrorCode::NameUnresolvable, true)
    );
    assert_eq!(
        connect_error(&mut state, ConnectEvent::Resolved(Ok(vec![]))),
        (ErrorCode::NameUnresolvable, true)
    );
    assert_eq!(
        connect_error(&mut state, ConnectEvent::Resolved(Ok(vec![true, false]))),
        (ErrorCode::AirlockRejected, true)
    );
    assert_eq!(
        connect_error(&mut state, ConnectEvent::ConnectFailed(failure(IoKind::ConnectionRefused))),
        (ErrorCode::ConnectionRefused, true)
    );
    assert_eq!(connect_error(&mut state, ConnectEvent::TimedOut), (ErrorCode::Timeout, true));
    assert_eq!(connect_error(&mut state, ConnectEvent::Cancelled), (ErrorCode::Closed, true));
    match state.connect_ended("example.com", 443, Err("full".into())) {
        ConnectStep::Done { result, record } => {
            assert_eq!(result, Err(ErrorCode::Unknown("resource table: full".into())));
            assert!(record.is_some());
        },
        other => panic!("unexpected step {other:?}"),
    }
    state.net_stream_count = MAX_ACTIVE_STREAMS;
    assert_eq!(connect_error(&mut state, ConnectEvent::Begin), (ErrorCode::Quota, true));
    let rt = runtime();
    let open = stream(&rt);
    assert_eq!(connect_error(&mut state, ConnectEvent::Connected(open)), (ErrorCode::Quota, true));
    assert!(state.resource_table.is_empty());
    state.audited = false;
    assert_eq!(connect_error(&mut state, ConnectEvent::TimedOut), (ErrorCode::Timeout, false));
}

#[test]
fn codes_are_shown_in_records() {
    assert_eq!(code_text(&ErrorCode::Timeout), "ErrorCode::Timeout");
    assert_eq!(
        code_text(&ErrorCode::Unknown("a \"b\"\n".into())),
        "ErrorCode::Unknown(\"a \\\"b\\\"\\n\")"
    );
    let mut state = audited_state();
    match connect(&mut state, "h", 1, ConnectEvent::ConnectFailed(failure(IoKind::Other))) {
        ConnectStep::Done { record, .. } => match record.expect("recorded").outcome {
            HostAuditOutcome::Failed(reason) => {
                assert_eq!(reason, "ErrorCode::Unknown(\"boom\")")
            },
            other => panic!("unexpected outcome {other:?}"),
        },
        other => panic!("unexpected step {other:?}"),
    }
}

#[test]
fn connecting_is_refused_by_the_gate_and_for_bad_hosts() {
    let mut state = audited_state();
    state.security = Some(gate(&["other.com:*"], &[]));
    match connect(&mut state, "example.com", 443, ConnectEvent::Begin) {
        ConnectStep::Done { result, record } => {
            assert_eq!(result, Err(ErrorCode::CapabilityDenied));
            match record.expect("recorded").outcome {
                HostAuditOutcome::Denied(reason) => assert_eq!(
                    reason,
                    "capsule 'test' denied: \"example.com:443\" not in net_connect allowlist"
                ),
                other => panic!("unexpected outcome {other:?}"),
            }
        },
        other => panic!("unexpected step {other:?}"),
    }
    match connect(&mut state, "", 443, ConnectEvent::Begin) {
        ConnectStep::Done { result, record } => {
            assert_eq!(result, Err(ErrorCode::AddressNotAvailable));
            assert!(record.is_none());
        },
        other => panic!("unexpected step {other:?}"),
    }
}

#[test]
fn tcp_binds_stay_local() {
    let mut state = audited_state();
    state.security = Some(gate(&[], &["127.0.0.1:8080", "0.0.0.0:*"]));
    let local = Some(IpLiteral::V4([127, 0, 0, 1]));
    assert!(matches!(bind(&mut state, "127.0.0.1", 8080, BindEvent::Begin(local)), BindStep::Bind));
    let rt = runtime();
    let bound = listener(&rt);
    match bind(&mut state, "127.0.0.1", 8080, BindEvent::Bound(Ok(bound.clone()))) {
        BindStep::Done { result, record } => {
            let rep = result.expect("entered");
            assert!(Arc::ptr_eq(state.tcp_listener_arc(rep).expect("a listener"), &bound));
            assert_eq!(state.tcp_listener_arc(rep + 1).err(), Some(ErrorCode::InvalidHandle));
            match record.expect("recorded").event {
                HostAuditEvent::NetBind { addr } => assert_eq!(addr, "tcp:127.0.0.1:8080"),
                other => panic!("unexpected event {other:?}"),
            }
        },
        other => panic!("unexpected step {other:?}"),
    }
    match bind(&mut state, "0.0.0.0", 80, BindEvent::Begin(Some(IpLiteral::V4([0, 0, 0, 0])))) {
        BindStep::Done { result, record } => {
            assert_eq!(result, Err(ErrorCode::AirlockRejected));
            match record.expect("recorded").outcome {
                HostAuditOutcome::Failed(reason) => assert_eq!(
                    reason,
                    "non-loopback TCP bind refused (capsule servers are loopback-only)"
                ),
                other => panic!("unexpected outcome {other:?}"),
            }
        },
        other => panic!("unexpected step {other:?}"),
    }
    match bind(&mut state, "127.0.0.1", 81, BindEvent::Begin(local)) {
        BindStep::Done { result, .. } => assert_eq!(result, Err(ErrorCode::CapabilityDenied)),
        other => panic!("unexpected step {other:?}"),
    }
    match bind(&mut state, "127.0.0.1", 8080, BindEvent::Bound(Err(failure(IoKind::AddrInUse)))) {
        BindStep::Done { result, record } => {
            assert_eq!(result, Err(ErrorCode::AddressInUse));
            match record.expect("recorded").outcome {
                HostAuditOutcome::Failed(reason) => assert_eq!(reason, "ErrorCode::AddressInUse"),
                other => panic!("unexpected outcome {other:?}"),
            }
        },
        other => panic!("unexpected step {other:?}"),
    }
    match state.bind_ended("tcp:127.0.0.1:8080", Err("full".into())) {
        BindStep::Done { result, .. } => {
            assert_eq!(result, Err(ErrorCode::Unknown("resource table: full".into())))
        },
        other => panic!("unexpected step {other:?}"),
    }
}

#[test]
fn a_full_table_fails_the_operation() {
    let mut state = audited_state();
    state.resource_table.set_max_capacity(0);
    let rt = runtime();
    let full =
        ErrorCode::Unknown("resource table: resource table has no free keys".into());
    match bind(&mut state, "127.0.0.1", 1, BindEvent::Bound(Ok(listener(&rt)))) {
        BindStep::Done { result, .. } => assert_eq!(result, Err(full.clone())),
        other => panic!("unexpected step {other:?}"),
    }
    let open = stream(&rt);
    assert_eq!(connect_error(&mut state, ConnectEvent::Connected(open)), (full.clone(), true));
    match accept(&mut state, AcceptEvent::Accepted(stream(&rt))) {
        AcceptStep::Done(result) => assert_eq!(result, Err(full)),
        other => panic!("unexpected step {other:?}"),
    }
    assert_eq!(state.net_stream_count, 0);
}

#[test]
fn unix_bind_needs_the_gate_and_the_listener() {
    let mut state = audited_state();
    state.security = Some(gate(&[], &[]));
    match state.bind_unix() {
        BindStep::Done { result, record } => {
            assert_eq!(result, Err(ErrorCode::CapabilityDenied));
            match record.expect("recorded").event {
                HostAuditEvent::NetBind { addr } => assert_eq!(addr, "unix:cli-socket"),
                other => panic!("unexpected event {other:?}"),
            }
        },
        other => panic!("unexpected step {other:?}"),
    }
    state.security = Some(gate(&[], &["unix:*"]));
    match state.bind_unix() {
        BindStep::Done { result, .. } => assert_eq!(
            result,
            Err(ErrorCode::Unknown("no pre-bound Unix listener configured".into()))
        ),
        other => panic!("unexpected step {other:?}"),
    }
    state.has_socket_listener = true;
    match state.bind_unix() {
        BindStep::Done { result, record } => {
            let rep = result.expect("entered");
            assert!(record.is_some());
            assert!(!state.resource_table.is_empty());
            assert_eq!(state.tcp_listener_arc(rep).err(), Some(ErrorCode::InvalidHandle));
        },
        other => panic!("unexpected step {other:?}"),
    }
    match state.bind_ended("unix:cli-socket", Ok(5)) {
        BindStep::Done { result, .. } => assert_eq!(result, Ok(5)),
        other => panic!("unexpected step {other:?}"),
    }
    assert_eq!(state.udp_bind(), Err(ErrorCode::CapabilityDenied));
}

#[test]
fn lookups_need_an_entry_for_any_port() {
    let mut state = audited_state();
    state.security = Some(gate(&["pinned.com:443", "open.com:*"], &[]));
    assert_eq!(state.lookup_host("pinned.com"), Err(ErrorCode::CapabilityDenied));
    assert_eq!(state.lookup_host("open.com"), Ok(()));
    assert_eq!(state.lookup_host(""), Err(ErrorCode::AddressNotAvailable));
    let found = vec![
        ResolvedAddr { text: "1.1.1.1:0".into(), safe: true },
        ResolvedAddr { text: "10.0.0.1:0".into(), safe: false },
        ResolvedAddr { text: "8.8.8.8:0".into(), safe: true },
    ];
    assert_eq!(
        lookup_result(Ok(found)),
        Ok(vec!["1.1.1.1:0".to_string(), "8.8.8.8:0".to_string()])
    );
    assert_eq!(lookup_result(Err(())), Err(ErrorCode::NameUnresolvable));
}

#[test]
fn accepting_counts_streams_and_marks_progress() {
    let mut state = audited_state();
    let rt = runtime();
    assert!(matches!(
        accept(&mut state, AcceptEvent::Begin { listener: 3 }),
        AcceptStep::Done(Err(ErrorCode::InvalidHandle))
    ));
    assert!(!state.recv_yielded);
    let bound = match bind(&mut state, "127.0.0.1", 1, BindEvent::Bound(Ok(listener(&rt)))) {
        BindStep::Done { result, .. } => result.expect("entered"),
        other => panic!("unexpected step {other:?}"),
    };
    assert!(matches!(accept(&mut state, AcceptEvent::Begin { listener: bound }), AcceptStep::Wait));
    assert!(state.recv_yielded);
    match accept(&mut state, AcceptEvent::Accepted(stream(&rt))) {
        AcceptStep::Done(Ok(Some(rep))) => {
            assert_ne!(rep, bound);
            assert!(state.with_tcp_stream(rep).is_ok());
        },
        other => panic!("unexpected step {other:?}"),
    }
    assert_eq!(state.net_stream_count, 1);
    assert!(matches!(poll_accept(&mut state, AcceptEvent::Elapsed), AcceptStep::Done(Ok(None))));
    assert!(matches!(
        poll_accept(&mut state, AcceptEvent::Cancelled),
        AcceptStep::Done(Err(ErrorCode::Closed))
    ));
    assert!(matches!(
        poll_accept(&mut state, AcceptEvent::AcceptFailed(failure(IoKind::TimedOut))),
        AcceptStep::Done(Err(ErrorCode::Timeout))
    ));
    state.net_stream_count = MAX_ACTIVE_STREAMS;
    assert!(matches!(
        poll_accept(&mut state, AcceptEvent::Begin { listener: bound }),
        AcceptStep::Done(Err(ErrorCode::Quota))
    ));
    assert!(matches!(
        poll_accept(&mut state, AcceptEvent::Accepted(stream(&rt))),
        AcceptStep::Done(Err(ErrorCode::Quota))
    ));
}

#[test]
fn only_tcp_handles_are_tcp_streams() {
    let mut state = audited_state();
    let rt = runtime();
    assert_eq!(state.with_tcp_stream(0).err(), Some(ErrorCode::InvalidHandle));
    let (unix, _peer) = rt.block_on(async { UnixStream::pair() }).expect("pair");
    let rep = state
        .resource_table
        .push(NetStream::Unix(Arc::new(Mutex::new(unix))))
        .expect("entered")
        .rep();
    assert_eq!(state.with_tcp_stream(rep).err(), Some(ErrorCode::NotTcp));
    assert!(matches!(net_stream(&state.resource_table, rep), Ok(NetStream::Unix(_))));
    let slot = with_tcp_slot_mut(&mut state.resource_table, rep);
    assert_eq!(slot.err(), Some(ErrorCode::NotTcp));
    let slot = with_tcp_slot_mut(&mut state.resource_table, rep + 9);
    assert_eq!(slot.err(), Some(ErrorCode::InvalidHandle));
    let bound = match bind(&mut state, "127.0.0.1", 1, BindEvent::Bound(Ok(listener(&rt)))) {
        BindStep::Done { result, .. } => result.expect("entered"),
        other => panic!("unexpected step {other:?}"),
    };
    assert_eq!(state.with_tcp_stream(bound).err(), Some(ErrorCode::InvalidHandle));
}

#[test]
fn timeouts_are_set_on_the_stream_itself() {
    let mut state = audited_state();
    let rt = runtime();
    let rep = match accept(&mut state, AcceptEvent::Accepted(stream(&rt))) {
        AcceptStep::Done(Ok(Some(rep))) => rep,
        other => panic!("unexpected step {other:?}"),
    };
    let other = match accept(&mut state, AcceptEvent::Accepted(stream(&rt))) {
        AcceptStep::Done(Ok(Some(rep))) => rep,
        other => panic!("unexpected step {other:?}"),
    };
    let slot = with_tcp_slot_mut(&mut state.resource_table, rep).expect("a TCP stream");
    slot.read_timeout = Some(250);
    let slot = with_tcp_slot_mut(&mut state.resource_table, rep).expect("a TCP stream");
    slot.write_timeout = Some(500);
    let slot = state.with_tcp_stream(rep).expect("a TCP stream");
    assert_eq!((slot.read_timeout, slot.write_timeout), (Some(250), Some(500)));
    let slot = state.with_tcp_stream(other).expect("a TCP stream");
    assert_eq!((slot.read_timeout, slot.write_timeout), (None, None));
    assert_eq!(state.net_stream_count, 2);
}

#[test]
fn returned_instances_keep_no_handles() {
    let mut state = audited_state();
    let rt = runtime();
    let rep = match accept(&mut state, AcceptEvent::Accepted(stream(&rt))) {
        AcceptStep::Done(Ok(Some(rep))) => rep,
        other => panic!("unexpected step {other:?}"),
    };
    state.clear_on_return(false);
    assert!(state.caller_context.is_none());
    assert!(state.with_tcp_stream(rep).is_ok());
    assert_eq!(state.net_stream_count, 1);
    state.clear_on_return(true);
    assert_eq!(state.with_tcp_stream(rep).err(), Some(ErrorCode::InvalidHandle));
    assert!(state.resource_table.is_empty());
    assert_eq!(state.net_stream_count, 0);
}

#[test]
fn a_capsule_has_at_most_eight_streams() {
    let mut state = audited_state();
    let rt = runtime();
    for n in 0..MAX_ACTIVE_STREAMS {
        assert_eq!(state.net_stream_count, n);
        match connect(&mut state, "h", 1, ConnectEvent::Connected(stream(&rt))) {
            ConnectStep::Done { result, .. } => assert!(result.is_ok()),
            other => panic!("unexpected step {other:?}"),
        }
    }
    assert_eq!(
        connect_error(&mut state, ConnectEvent::Connected(stream(&rt))),
        (ErrorCode::Quota, true)
    );
    assert_eq!(state.net_stream_count, MAX_ACTIVE_STREAMS);
}

#[test]
fn workers_accept_on_one_listener() {
    let rt = runtime();
    let local = Some(IpLiteral::V4([127, 0, 0, 1]));
    let mut shared = SharedListeners::new(2);
    let mut a = audited_state();
    let mut b = audited_state();
    a.security = Some(gate(&[], &["127.0.0.1:8799"]));
    b.security = Some(gate(&[], &["127.0.0.1:8799"]));

    // Both begin before either has bound.
    assert!(matches!(
        bind_with(&mut a, &mut shared, "127.0.0.1", 8799, BindEvent::Begin(local)),
        BindStep::Bind
    ));
    assert!(matches!(
        bind_with(&mut b, &mut shared, "127.0.0.1", 8799, BindEvent::Begin(local)),
        BindStep::Bind
    ));
    let bound = listener(&rt);
    let event = BindEvent::Bound(Ok(bound.clone()));
    let first = match bind_with(&mut a, &mut shared, "127.0.0.1", 8799, event) {
        BindStep::Done { result, .. } => result.expect("entered"),
        other => panic!("unexpected step {other:?}"),
    };
    assert!(Arc::ptr_eq(a.tcp_listener_arc(first).expect("a listener"), &bound));

    // The second one finds the address in use and is handed the same listener.
    let event = BindEvent::Bound(Err(failure(IoKind::AddrInUse)));
    match bind_with(&mut b, &mut shared, "127.0.0.1", 8799, event) {
        BindStep::Done { result, record } => {
            let rep = result.expect("entered");
            assert!(Arc::ptr_eq(b.tcp_listener_arc(rep).expect("a listener"), &bound));
            assert!(matches!(record.expect("recorded").outcome, HostAuditOutcome::Allowed));
        },
        other => panic!("unexpected step {other:?}"),
    }

    // A third one need not bind at all.
    let mut c = audited_state();
    match bind_with(&mut c, &mut shared, "127.0.0.1", 8799, BindEvent::Begin(local)) {
        BindStep::Done { result, .. } => {
            let rep = result.expect("entered");
            assert!(Arc::ptr_eq(c.tcp_listener_arc(rep).expect("a listener"), &bound));
        },
        other => panic!("unexpected step {other:?}"),
    }
    assert!(shared.find("127.0.0.1", 8799).is_some());

    // Another port is another listener, and a worker that may not bind gets none.
    assert!(matches!(
        bind_with(&mut c, &mut shared, "127.0.0.1", 8800, BindEvent::Begin(local)),
        BindStep::Bind
    ));
    c.security = Some(gate(&[], &[]));
    match bind_with(&mut c, &mut shared, "127.0.0.1", 8799, BindEvent::Begin(local)) {
        BindStep::Done { result, .. } => assert_eq!(result, Err(ErrorCode::CapabilityDenied)),
        other => panic!("unexpected step {other:?}"),
    }
}

#[test]
fn a_single_worker_binds_afresh() {
    let rt = runtime();
    let local = Some(IpLiteral::V4([127, 0, 0, 1]));
    let mut own = SharedListeners::new(1);
    let mut state = audited_state();
    let event = BindEvent::Bound(Ok(listener(&rt)));
    match bind_with(&mut state, &mut own, "127.0.0.1", 8799, event) {
        BindStep::Done { result, .. } => assert!(result.is_ok()),
        other => panic!("unexpected step {other:?}"),
    }
    assert!(own.find("127.0.0.1", 8799).is_none());
    assert!(matches!(
        bind_with(&mut state, &mut own, "127.0.0.1", 8799, BindEvent::Begin(local)),
        BindStep::Bind
    ));
    let event = BindEvent::Bound(Err(failure(IoKind::AddrInUse)));
    match bind_with(&mut state, &mut own, "127.0.0.1", 8799, event) {
        BindStep::Done { result, .. } => assert_eq!(result, Err(ErrorCode::AddressInUse)),
        other => panic!("unexpected step {other:?}"),
    }
}

#[test]
fn events_out_of_turn_open_nothing() {
    let rt = runtime();
    let mut state = audited_state();
    let unexpected = ErrorCode::Unknown("unexpected event".into());
    let open = ConnectEvent::Connected(stream(&rt));
    match state.connect_tcp("example.com", 443, ConnectPhase::Start, open) {
        (ConnectPhase::Over, ConnectStep::Done { result, .. }) => {
            assert_eq!(result, Err(unexpected.clone()))
        },
        other => panic!("unexpected step {other:?}"),
    }
    let bound = BindEvent::Bound(Ok(listener(&rt)));
    match state.bind_tcp(&mut SharedListeners::new(1), "h", 1, BindPhase::Start, bound) {
        (BindPhase::Over, BindStep::Done { result, .. }) => {
            assert_eq!(result, Err(unexpected.clone()))
        },
        other => panic!("unexpected step {other:?}"),
    }
    match state.accept(AcceptPhase::Start, AcceptEvent::Accepted(stream(&rt))) {
        (AcceptPhase::Over, AcceptStep::Done(result)) => assert_eq!(result, Err(unexpected)),
        other => panic!("unexpected step {other:?}"),
    }
    assert_eq!(state.net_stream_count, 0);
    assert!(state.resource_table.is_empty());
}
