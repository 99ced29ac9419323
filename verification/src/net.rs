//! Sockets of a capsule: which may be opened, how many, and what is recorded.
//!
//! Each operation is decided step by step. The caller performs the step it is
//! given, on the network or in the table of resources, and hands back what
//! happened. A finished operation carries its audit record, so it is recorded
//! exactly once.

use std::sync::Arc;
use vstd::prelude::*;
use vstd::string::*;
use vstd::utf8::*;
use wasmtime::component::ResourceTable;

use crate::foreign::{
    capacity_of, debug_str, debug_text, listener_at, push_stream, push_tcp_listener,
    push_unix_listener, slots_of, stream_at, stream_at_mut,
};
use crate::host_state::{registers, HostState, SharedListeners};
use crate::security::{
    any_endpoint_covers, any_nonempty, any_tcp_bind_covers, denial, endpoint, endpoint_text,
};
use crate::text::{decimal, eq_ignore_case, same_ignoring_case, texts};

verus! {

/// Most connections that a capsule has open at once.
pub const MAX_ACTIVE_STREAMS: usize = 8;

/// The name of the pre-bound Unix socket in audit records.
pub const UNIX_BIND_ADDR: &'static str = "unix:cli-socket";

/// An open TCP connection, with its timeouts in milliseconds.
#[derive(Debug)]
pub struct TcpStreamSlot {
    pub stream: Arc<tokio::sync::Mutex<tokio::net::TcpStream>>,
    pub read_timeout: Option<u64>,
    pub write_timeout: Option<u64>,
}

/// An open connection.
#[derive(Debug)]
pub enum NetStream {
    Tcp(TcpStreamSlot),
    Unix(Arc<tokio::sync::Mutex<tokio::net::UnixStream>>),
}

/// A bound TCP listener.
#[derive(Debug)]
pub struct TcpListenerSlot {
    pub listener: Arc<tokio::net::TcpListener>,
}

/// A handle of the pre-bound Unix listener.
#[derive(Debug)]
pub struct UnixListenerSlot {}

/// What a number of the table of resources stands for.
pub enum SlotView {
    Stream(NetStream),
    TcpListener(TcpListenerSlot),
    UnixListener,
    Other,
}

/// Whether entering something into a table came out right: under a number that
/// stood for nothing, with nothing else changed; or not at all, for want of a
/// number. There are numbers while the table holds fewer entries than it may.
pub open spec fn push_outcome(
    before: Map<u32, SlotView>,
    capacity: usize,
    r: Result<u32, String>,
    after: Map<u32, SlotView>,
    slot: SlotView,
) -> bool {
    &&& match r {
        Ok(rep) => !before.contains_key(rep) && after == before.insert(rep, slot),
        Err(text) => after == before && text@ == "resource table has no free keys"@,
    }
    &&& before.dom().len() < capacity && before.dom().len() <= u32::MAX ==> r is Ok
}

/// Why a socket operation failed.
#[derive(Debug, Clone, PartialEq, Eq)]
pub enum ErrorCode {
    CapabilityDenied,
    AddressNotAvailable,
    AddressInUse,
    AirlockRejected,
    NameUnresolvable,
    ConnectionRefused,
    ConnectionReset,
    Timeout,
    WouldBlock,
    Quota,
    Closed,
    InvalidHandle,
    NotTcp,
    Unknown(String),
}

/// The kind of a failed I/O operation.
#[derive(Debug, Clone, Copy, PartialEq, Eq, Structural)]
pub enum IoKind {
    WouldBlock,
    ConnectionRefused,
    ConnectionReset,
    ConnectionAborted,
    BrokenPipe,
    TimedOut,
    AddrInUse,
    AddrNotAvailable,
    Other,
}

/// A failed I/O operation: its kind and its text.
#[derive(Debug, Clone)]
pub struct IoFailure {
    pub kind: IoKind,
    pub text: String,
}

/// An IP address.
#[derive(Debug, Clone, Copy)]
pub enum IpLiteral {
    V4([u8; 4]),
    V6([u16; 8]),
}

/// A host name that is worth resolving: not empty, at most 255 bytes, and
/// without zero bytes.
pub open spec fn is_valid_host(host: Seq<char>) -> bool {
    &&& host.len() > 0
    &&& encode_utf8(host).len() <= 255
    &&& !encode_utf8(host).contains(0u8)
}

/// Checks a host name.
pub fn validate_host(host: &str) -> (r: Result<(), ErrorCode>)
    ensures
        r == if is_valid_host(host@) {
            Ok::<(), ErrorCode>(())
        } else {
            Err::<(), ErrorCode>(ErrorCode::AddressNotAvailable)
        },
{
    if host.is_empty() {
        return Err(ErrorCode::AddressNotAvailable);
    }
    let bytes = host.as_bytes();
    if bytes.len() > 255 {
        return Err(ErrorCode::AddressNotAvailable);
    }
    for i in 0..bytes.len()
        invariant
            bytes@ == encode_utf8(host@),
            forall|j: int| 0 <= j < i ==> #[trigger] bytes@[j] != 0,
    {
        if bytes[i] == 0 {
            assert(encode_utf8(host@).contains(bytes@[i as int]));
            return Err(ErrorCode::AddressNotAvailable);
        }
    }
    Ok(())
}

/// A loopback address: `127.0.0.0/8` or `::1`.
pub open spec fn is_loopback(ip: IpLiteral) -> bool {
    match ip {
        IpLiteral::V4(octets) => octets@[0] == 127,
        IpLiteral::V6(groups) => groups@ == seq![0u16, 0, 0, 0, 0, 0, 0, 1],
    }
}

/// A bind host that stays on this machine: `localhost` in any letter case, or
/// a loopback address.
pub open spec fn is_local_host(host: Seq<char>, address: Option<IpLiteral>) -> bool {
    eq_ignore_case(host, "localhost"@) || (address is Some && is_loopback(address->0))
}

/// Whether a bind host stays on this machine. `address` is the address that
/// `host` spells, where it spells one; other names are refused, not resolved.
pub fn is_loopback_bind_host(host: &str, address: Option<IpLiteral>) -> (r: bool)
    ensures
        r == is_local_host(host@, address),
{
    if same_ignoring_case(host, "localhost") {
        return true;
    }
    match address {
        Some(IpLiteral::V4(octets)) => octets[0] == 127,
        Some(IpLiteral::V6(groups)) => {
            let r = groups[0] == 0 && groups[1] == 0 && groups[2] == 0 && groups[3] == 0
                && groups[4] == 0 && groups[5] == 0 && groups[6] == 0 && groups[7] == 1;
            proof {
                let one = seq![0u16, 0, 0, 0, 0, 0, 0, 1];
                if r {
                    assert(groups@ =~= one);
                } else if groups@ == one {
                    assert(groups@[0] == one[0] && groups@[1] == one[1] && groups@[2] == one[2]
                        && groups@[3] == one[3] && groups@[4] == one[4] && groups@[5] == one[5]
                        && groups@[6] == one[6] && groups@[7] == one[7]);
                }
            }
            r
        },
        None => false,
    }
}

/// The error code of a failed I/O operation.
pub open spec fn io_code(err: IoFailure) -> ErrorCode {
    match err.kind {
        IoKind::WouldBlock => ErrorCode::WouldBlock,
        IoKind::ConnectionRefused => ErrorCode::ConnectionRefused,
        IoKind::ConnectionReset | IoKind::ConnectionAborted | IoKind::BrokenPipe =>
            ErrorCode::ConnectionReset,
        IoKind::TimedOut => ErrorCode::Timeout,
        IoKind::AddrInUse => ErrorCode::AddressInUse,
        IoKind::AddrNotAvailable => ErrorCode::AddressNotAvailable,
        IoKind::Other => ErrorCode::Unknown(err.text),
    }
}

/// The error code of a failed I/O operation.
pub fn map_io_err(err: IoFailure) -> (r: ErrorCode)
    ensures
        r == io_code(err),
{
    match err.kind {
        IoKind::WouldBlock => ErrorCode::WouldBlock,
        IoKind::ConnectionRefused => ErrorCode::ConnectionRefused,
        IoKind::ConnectionReset => ErrorCode::ConnectionReset,
        IoKind::ConnectionAborted => ErrorCode::ConnectionReset,
        IoKind::BrokenPipe => ErrorCode::ConnectionReset,
        IoKind::TimedOut => ErrorCode::Timeout,
        IoKind::AddrInUse => ErrorCode::AddressInUse,
        IoKind::AddrNotAvailable => ErrorCode::AddressNotAvailable,
        IoKind::Other => ErrorCode::Unknown(err.text),
    }
}

/// How a code is shown in audit records.
pub open spec fn code_shown(code: ErrorCode) -> Seq<char> {
    match code {
        ErrorCode::CapabilityDenied => "ErrorCode::CapabilityDenied"@,
        ErrorCode::AddressNotAvailable => "ErrorCode::AddressNotAvailable"@,
        ErrorCode::AddressInUse => "ErrorCode::AddressInUse"@,
        ErrorCode::AirlockRejected => "ErrorCode::AirlockRejected"@,
        ErrorCode::NameUnresolvable => "ErrorCode::NameUnresolvable"@,
        ErrorCode::ConnectionRefused => "ErrorCode::ConnectionRefused"@,
        ErrorCode::ConnectionReset => "ErrorCode::ConnectionReset"@,
        ErrorCode::Timeout => "ErrorCode::Timeout"@,
        ErrorCode::WouldBlock => "ErrorCode::WouldBlock"@,
        ErrorCode::Quota => "ErrorCode::Quota"@,
        ErrorCode::Closed => "ErrorCode::Closed"@,
        ErrorCode::InvalidHandle => "ErrorCode::InvalidHandle"@,
        ErrorCode::NotTcp => "ErrorCode::NotTcp"@,
        ErrorCode::Unknown(text) => "ErrorCode::Unknown("@ + debug_str(text@) + ")"@,
    }
}

/// How a code is shown in audit records.
pub fn code_text(code: &ErrorCode) -> (r: String)
    ensures
        r@ == code_shown(*code),
{
    match code {
        ErrorCode::CapabilityDenied => "ErrorCode::CapabilityDenied".to_owned(),
        ErrorCode::AddressNotAvailable => "ErrorCode::AddressNotAvailable".to_owned(),
        ErrorCode::AddressInUse => "ErrorCode::AddressInUse".to_owned(),
        ErrorCode::AirlockRejected => "ErrorCode::AirlockRejected".to_owned(),
        ErrorCode::NameUnresolvable => "ErrorCode::NameUnresolvable".to_owned(),
        ErrorCode::ConnectionRefused => "ErrorCode::ConnectionRefused".to_owned(),
        ErrorCode::ConnectionReset => "ErrorCode::ConnectionReset".to_owned(),
        ErrorCode::Timeout => "ErrorCode::Timeout".to_owned(),
        ErrorCode::WouldBlock => "ErrorCode::WouldBlock".to_owned(),
        ErrorCode::Quota => "ErrorCode::Quota".to_owned(),
        ErrorCode::Closed => "ErrorCode::Closed".to_owned(),
        ErrorCode::InvalidHandle => "ErrorCode::InvalidHandle".to_owned(),
        ErrorCode::NotTcp => "ErrorCode::NotTcp".to_owned(),
        ErrorCode::Unknown(text) => {
            let mut r = "ErrorCode::Unknown(".to_owned();
            let quoted = debug_text(text.as_str());
            r.append(quoted.as_str());
            r.append(")");
            r
        },
    }
}

/// What an audit record is about.
#[derive(Debug)]
pub enum HostAuditEvent {
    NetConnect { host: String, port: u16 },
    NetBind { addr: String },
}

/// How an audited action ended.
#[derive(Debug)]
pub enum HostAuditOutcome {
    Allowed,
    /// It failed for this reason.
    Failed(String),
    /// The security gate refused it for this reason.
    Denied(String),
}

/// A record for the audit sink.
#[derive(Debug)]
pub struct AuditRecord {
    pub principal: String,
    pub event: HostAuditEvent,
    pub outcome: HostAuditOutcome,
}

/// Whether an event is an outbound connection to an endpoint.
pub open spec fn is_connect(event: HostAuditEvent, host: Seq<char>, port: u16) -> bool {
    match event {
        HostAuditEvent::NetConnect { host: h, port: p } => h@ == host && p == port,
        _ => false,
    }
}

/// Whether an event is a bind of an address.
pub open spec fn is_bind(event: HostAuditEvent, addr: Seq<char>) -> bool {
    match event {
        HostAuditEvent::NetBind { addr: a } => a@ == addr,
        _ => false,
    }
}

/// Whether a record is made exactly where actions are audited, for the acting
/// principal and with the given outcome.
pub open spec fn is_recorded(
    state: HostState,
    record: Option<AuditRecord>,
    outcome: HostAuditOutcome,
) -> bool {
    &&& record is Some == state.audited
    &&& record matches Some(r) ==> r.principal@ == state.acting_principal() && r.outcome == outcome
}

fn connect_record(
    state: &HostState,
    host: &str,
    port: u16,
    outcome: HostAuditOutcome,
) -> (r: Option<AuditRecord>)
    ensures
        is_recorded(*state, r, outcome),
        r matches Some(record) ==> is_connect(record.event, host@, port),
{
    if state.audited {
        Some(
            AuditRecord {
                principal: state.effective_principal(),
                event: HostAuditEvent::NetConnect { host: host.to_owned(), port },
                outcome,
            },
        )
    } else {
        None
    }
}

fn bind_record(state: &HostState, addr: &str, outcome: HostAuditOutcome) -> (r: Option<AuditRecord>)
    ensures
        is_recorded(*state, r, outcome),
        r matches Some(record) ==> is_bind(record.event, addr@),
{
    if state.audited {
        Some(
            AuditRecord {
                principal: state.effective_principal(),
                event: HostAuditEvent::NetBind { addr: addr.to_owned() },
                outcome,
            },
        )
    } else {
        None
    }
}

/// The reason of a failed entry into the table of resources.
pub open spec fn table_reason(failure: Seq<char>) -> Seq<char> {
    "resource table: "@ + failure
}

fn table_reason_text(failure: &str) -> (r: String)
    ensures
        r@ == table_reason(failure@),
{
    let mut r = "resource table: ".to_owned();
    r.append(failure);
    r
}

/// What a connection attempt reports back.
#[derive(Debug)]
pub enum ConnectEvent {
    /// It begins.
    Begin,
    /// The name was resolved to addresses, each given by whether it is safe to
    /// reach; or it could not be resolved.
    Resolved(Result<Vec<bool>, ()>),
    /// The connection is open.
    Connected(Arc<tokio::sync::Mutex<tokio::net::TcpStream>>),
    /// The connection failed.
    ConnectFailed(IoFailure),
    /// The time allowed for resolving and connecting is over.
    TimedOut,
    /// The capsule is being unloaded.
    Cancelled,
}

/// What a connection attempt does next.
#[derive(Debug)]
pub enum ConnectStep {
    /// Resolve the host.
    Resolve,
    /// Connect to the resolved addresses.
    Connect,
    /// It is over. An open stream that could not be entered into the table of
    /// resources is closed.
    Done { result: Result<u32, ErrorCode>, record: Option<AuditRecord> },
}

/// How far a connection attempt has come.
#[derive(Debug, Clone, Copy, PartialEq, Eq, Structural)]
pub enum ConnectPhase {
    Start,
    /// Waits for the name to be resolved.
    Resolving,
    /// Waits for the connection.
    Connecting,
    Over,
}

/// Whether an event is one that a phase waits for.
pub open spec fn connect_awaits(phase: ConnectPhase, event: ConnectEvent) -> bool {
    match phase {
        ConnectPhase::Start => event is Begin,
        ConnectPhase::Resolving => event is Resolved || event is TimedOut || event is Cancelled,
        ConnectPhase::Connecting => event is Connected || event is ConnectFailed || event
            is TimedOut || event is Cancelled,
        ConnectPhase::Over => false,
    }
}

/// The phase that a step leads to.
pub open spec fn connect_phase_after(step: ConnectStep) -> ConnectPhase {
    match step {
        ConnectStep::Resolve => ConnectPhase::Resolving,
        ConnectStep::Connect => ConnectPhase::Connecting,
        ConnectStep::Done { .. } => ConnectPhase::Over,
    }
}

/// Whether a step ends a connection attempt with an error that is recorded as
/// a failure with that error.
pub open spec fn connect_fails(
    step: ConnectStep,
    state: HostState,
    host: Seq<char>,
    port: u16,
    code: ErrorCode,
) -> bool {
    match step {
        ConnectStep::Done { result: Err(e), record } => {
            &&& e == code
            &&& record is Some == state.audited
            &&& record matches Some(r) ==> {
                &&& r.principal@ == state.acting_principal()
                &&& is_connect(r.event, host, port)
                &&& r.outcome matches HostAuditOutcome::Failed(reason) && reason@ == code_shown(
                    code,
                )
            }
        },
        _ => false,
    }
}

/// Whether an endpoint passes the security gate of a state.
pub open spec fn connect_permitted(state: HostState, host: Seq<char>, port: u16) -> bool {
    match state.security {
        Some(gate) => any_endpoint_covers(gate.caps().net_connect@, host, port),
        None => true,
    }
}

/// Whether every resolved address is safe.
pub open spec fn all_safe(addresses: Seq<bool>) -> bool {
    forall|i: int| 0 <= i < addresses.len() ==> #[trigger] addresses[i]
}

/// Whether a phase and a step are the right ones after an event of a connection
/// attempt.
pub open spec fn connect_next(
    before: HostState,
    host: Seq<char>,
    port: u16,
    phase: ConnectPhase,
    event: ConnectEvent,
    next: ConnectPhase,
    step: ConnectStep,
    after: HostState,
) -> bool {
    &&& connect_awaits(phase, event)
    &&& next == connect_phase_after(step)
    &&& connect_answers(before, host, port, event, step, after)
}

/// Whether a step is the right one for an event of a connection attempt.
pub open spec fn connect_answers(
    before: HostState,
    host: Seq<char>,
    port: u16,
    event: ConnectEvent,
    step: ConnectStep,
    after: HostState,
) -> bool {
    match event {
        ConnectEvent::Begin => {
            &&& after == before
            &&& if !is_valid_host(host) {
                step == (ConnectStep::Done {
                    result: Err(ErrorCode::AddressNotAvailable),
                    record: None,
                })
            } else if !connect_permitted(before, host, port) {
                match step {
                    ConnectStep::Done { result: Err(e), record } => {
                        &&& e == ErrorCode::CapabilityDenied
                        &&& record is Some == before.audited
                        &&& record matches Some(r) ==> {
                            &&& r.principal@ == before.acting_principal()
                            &&& is_connect(r.event, host, port)
                            &&& r.outcome matches HostAuditOutcome::Denied(reason) && reason@
                                == denial(
                                before.capsule_id@,
                                "\""@ + endpoint(host, port) + "\" not in net_connect allowlist"@,
                            )
                        }
                    },
                    _ => false,
                }
            } else if before.net_stream_count >= MAX_ACTIVE_STREAMS {
                connect_fails(step, before, host, port, ErrorCode::Quota)
            } else {
                step == ConnectStep::Resolve
            }
        },
        ConnectEvent::Resolved(found) => {
            &&& after == before
            &&& match found {
                Err(()) => connect_fails(step, before, host, port, ErrorCode::NameUnresolvable),
                Ok(addresses) => if addresses@.len() == 0 {
                    connect_fails(step, before, host, port, ErrorCode::NameUnresolvable)
                } else if !all_safe(addresses@) {
                    connect_fails(step, before, host, port, ErrorCode::AirlockRejected)
                } else {
                    step == ConnectStep::Connect
                },
            }
        },
        ConnectEvent::Connected(stream) => if before.net_stream_count >= MAX_ACTIVE_STREAMS {
            after == before && connect_fails(step, before, host, port, ErrorCode::Quota)
        } else {
            match step {
                ConnectStep::Done { result, record: _ } => stream_entered(
                    before,
                    rep_of(result),
                    after,
                    stream,
                ) && connect_ends(before, host, port, rep_or_full(result), step),
                _ => false,
            }
        },
        ConnectEvent::ConnectFailed(failure) => after == before && connect_fails(
            step,
            before,
            host,
            port,
            io_code(failure),
        ),
        ConnectEvent::TimedOut => after == before && connect_fails(
            step,
            before,
            host,
            port,
            ErrorCode::Timeout,
        ),
        ConnectEvent::Cancelled => after == before && connect_fails(
            step,
            before,
            host,
            port,
            ErrorCode::Closed,
        ),
    }
}

/// The number of a result, if it has one.
pub open spec fn rep_of(result: Result<u32, ErrorCode>) -> Option<u32> {
    match result {
        Ok(rep) => Some(rep),
        Err(_) => None,
    }
}

/// The outcome of entering a stream that a result stands for: its number, or
/// a table without free numbers.
pub open spec fn rep_or_full(result: Result<u32, ErrorCode>) -> Result<u32, Seq<char>> {
    match result {
        Ok(rep) => Ok(rep),
        Err(_) => Err("resource table has no free keys"@),
    }
}

/// A slot that holds a stream which was just opened.
pub open spec fn fresh_slot(stream: Arc<tokio::sync::Mutex<tokio::net::TcpStream>>) -> SlotView {
    SlotView::Stream(
        NetStream::Tcp(TcpStreamSlot { stream, read_timeout: None, write_timeout: None }),
    )
}

/// Whether a stream was entered and counted under a number, or, without one,
/// nothing was entered. There is a number while the table holds fewer entries
/// than it may.
pub open spec fn stream_entered(
    before: HostState,
    rep: Option<u32>,
    after: HostState,
    stream: Arc<tokio::sync::Mutex<tokio::net::TcpStream>>,
) -> bool {
    let old_slots = slots_of(before.resource_table);
    let new_slots = slots_of(after.resource_table);
    &&& match rep {
        Some(n) => {
            &&& !old_slots.contains_key(n)
            &&& new_slots == old_slots.insert(n, fresh_slot(stream))
            &&& after.net_stream_count == before.net_stream_count + 1
        },
        None => new_slots == old_slots && after.net_stream_count == before.net_stream_count,
    }
    &&& has_room(before) ==> rep is Some
    &&& capacity_of(after.resource_table) == capacity_of(before.resource_table)
    &&& after == (HostState {
        net_stream_count: after.net_stream_count,
        resource_table: after.resource_table,
        ..before
    })
}

/// Whether the table of resources holds fewer entries than it may.
pub open spec fn has_room(state: HostState) -> bool {
    let n = slots_of(state.resource_table).dom().len();
    n < capacity_of(state.resource_table) && n <= u32::MAX
}

/// Whether a step ends a connection attempt rightly, given how entering the
/// stream came out.
pub open spec fn connect_ends(
    before: HostState,
    host: Seq<char>,
    port: u16,
    pushed: Result<u32, Seq<char>>,
    step: ConnectStep,
) -> bool {
    match pushed {
        Ok(rep) => match step {
            ConnectStep::Done { result, record } => {
                &&& result == Ok::<u32, ErrorCode>(rep)
                &&& is_recorded(before, record, HostAuditOutcome::Allowed)
                &&& record matches Some(r) ==> is_connect(r.event, host, port)
            },
            _ => false,
        },
        Err(failure) => match step {
            ConnectStep::Done { result: Err(ErrorCode::Unknown(reason)), record: _ } => {
                &&& reason@ == table_reason(failure)
                &&& connect_fails(step, before, host, port, ErrorCode::Unknown(reason))
            },
            _ => false,
        },
    }
}

/// Ends a connection attempt with an error.
fn fail_connect(state: &HostState, host: &str, port: u16, code: ErrorCode) -> (r: ConnectStep)
    ensures
        connect_fails(r, *state, host@, port, code),
{
    let reason = code_text(&code);
    let record = connect_record(state, host, port, HostAuditOutcome::Failed(reason));
    ConnectStep::Done { result: Err(code), record }
}

/// The texts of a result.
pub open spec fn shown(r: Result<u32, String>) -> Result<u32, Seq<char>> {
    match r {
        Ok(rep) => Ok(rep),
        Err(text) => Err(text@),
    }
}

impl HostState {
    /// The end of an outbound connection, given how entering the stream into
    /// the table of resources came out.
    pub fn connect_ended(&self, host: &str, port: u16, pushed: Result<u32, String>) -> (r:
        ConnectStep)
        ensures
            connect_ends(*self, host@, port, shown(pushed), r),
    {
        match pushed {
            Ok(rep) => {
                let record = connect_record(self, host, port, HostAuditOutcome::Allowed);
                ConnectStep::Done { result: Ok(rep), record }
            },
            Err(failure) => {
                let reason = table_reason_text(failure.as_str());
                fail_connect(self, host, port, ErrorCode::Unknown(reason))
            },
        }
    }

    /// Enters an open stream into the table of resources and counts it.
    fn enter_stream(&mut self, stream: Arc<tokio::sync::Mutex<tokio::net::TcpStream>>) -> (r: Result<
        u32,
        String,
    >)
        requires
            old(self).net_stream_count < MAX_ACTIVE_STREAMS,
        ensures
            stream_entered(
                *old(self),
                match r {
                    Ok(rep) => Some(rep),
                    Err(_) => None,
                },
                *final(self),
                stream,
            ),
            r matches Err(text) ==> text@ == "resource table has no free keys"@,
    {
        let slot = TcpStreamSlot { stream, read_timeout: None, write_timeout: None };
        let pushed = push_stream(&mut self.resource_table, NetStream::Tcp(slot));
        if pushed.is_ok() {
            self.net_stream_count = self.net_stream_count + 1;
        }
        pushed
    }

    /// The phase and the step of an outbound connection after an event that
    /// the phase waits for.
    pub fn connect_tcp(
        &mut self,
        host: &str,
        port: u16,
        phase: ConnectPhase,
        event: ConnectEvent,
    ) -> (r: (ConnectPhase, ConnectStep))
        requires
            connect_awaits(phase, event),
        ensures
            connect_next(*old(self), host@, port, phase, event, r.0, r.1, *final(self)),
    {
        let awaited = match (phase, &event) {
            (ConnectPhase::Start, ConnectEvent::Begin) => true,
            (ConnectPhase::Resolving, ConnectEvent::Resolved(_)) => true,
            (ConnectPhase::Resolving, ConnectEvent::TimedOut) => true,
            (ConnectPhase::Resolving, ConnectEvent::Cancelled) => true,
            (ConnectPhase::Connecting, ConnectEvent::Connected(_)) => true,
            (ConnectPhase::Connecting, ConnectEvent::ConnectFailed(_)) => true,
            (ConnectPhase::Connecting, ConnectEvent::TimedOut) => true,
            (ConnectPhase::Connecting, ConnectEvent::Cancelled) => true,
            _ => false,
        };
        if !awaited {
            let result = Err(ErrorCode::Unknown("unexpected event".to_owned()));
            return (ConnectPhase::Over, ConnectStep::Done { result, record: None });
        }
        let step = self.connect_answer(host, port, event);
        let next = match &step {
            ConnectStep::Resolve => ConnectPhase::Resolving,
            ConnectStep::Connect => ConnectPhase::Connecting,
            ConnectStep::Done { .. } => ConnectPhase::Over,
        };
        (next, step)
    }

    /// The step of an outbound connection after an event.
    fn connect_answer(&mut self, host: &str, port: u16, event: ConnectEvent) -> (r: ConnectStep)
        ensures
            connect_answers(*old(self), host@, port, event, r, *final(self)),
    {
        match event {
            ConnectEvent::Begin => {
                if let Err(e) = validate_host(host) {
                    return ConnectStep::Done { result: Err(e), record: None };
                }
                let check = match &self.security {
                    Some(gate) => gate.check_net_connect(self.capsule_id.as_str(), host, port),
                    None => Ok(()),
                };
                if let Err(reason) = check {
                    let record = connect_record(
                        &*self,
                        host,
                        port,
                        HostAuditOutcome::Denied(reason),
                    );
                    return ConnectStep::Done { result: Err(ErrorCode::CapabilityDenied), record };
                }
                if self.net_stream_count >= MAX_ACTIVE_STREAMS {
                    return fail_connect(&*self, host, port, ErrorCode::Quota);
                }
                ConnectStep::Resolve
            },
            ConnectEvent::Resolved(found) => {
                let addresses = match found {
                    Ok(addresses) => addresses,
                    Err(()) => {
                        return fail_connect(&*self, host, port, ErrorCode::NameUnresolvable);
                    },
                };
                if addresses.len() == 0 {
                    return fail_connect(&*self, host, port, ErrorCode::NameUnresolvable);
                }
                for i in 0..addresses.len()
                    invariant
                        *self == *old(self),
                        event == ConnectEvent::Resolved(Ok::<Vec<bool>, ()>(addresses)),
                        addresses@.len() > 0,
                        forall|j: int| 0 <= j < i ==> #[trigger] addresses@[j],
                {
                    if !addresses[i] {
                        return fail_connect(&*self, host, port, ErrorCode::AirlockRejected);
                    }
                }
                ConnectStep::Connect
            },
            ConnectEvent::Connected(stream) => {
                if self.net_stream_count >= MAX_ACTIVE_STREAMS {
                    return fail_connect(&*self, host, port, ErrorCode::Quota);
                }
                let pushed = self.enter_stream(stream);
                self.connect_ended(host, port, pushed)
            },
            ConnectEvent::ConnectFailed(failure) => {
                let code = map_io_err(failure);
                fail_connect(&*self, host, port, code)
            },
            ConnectEvent::TimedOut => fail_connect(&*self, host, port, ErrorCode::Timeout),
            ConnectEvent::Cancelled => fail_connect(&*self, host, port, ErrorCode::Closed),
        }
    }
}

/// What a bind reports back.
#[derive(Debug)]
pub enum BindEvent {
    /// It begins. The host spells this address, where it spells one.
    Begin(Option<IpLiteral>),
    /// The socket is bound, or binding failed.
    Bound(Result<Arc<tokio::net::TcpListener>, IoFailure>),
}

/// What a bind does next.
#[derive(Debug)]
pub enum BindStep {
    /// Bind the socket.
    Bind,
    /// It is over. A listener that could not be entered into the table of
    /// resources is closed.
    Done { result: Result<u32, ErrorCode>, record: Option<AuditRecord> },
}

/// How far a TCP bind has come.
#[derive(Debug, Clone, Copy, PartialEq, Eq, Structural)]
pub enum BindPhase {
    Start,
    /// Waits for the socket to be bound.
    Binding,
    Over,
}

/// Whether an event is the one that a phase waits for.
pub open spec fn bind_awaits(phase: BindPhase, event: BindEvent) -> bool {
    match phase {
        BindPhase::Start => event is Begin,
        BindPhase::Binding => event is Bound,
        BindPhase::Over => false,
    }
}

/// The phase that a step leads to.
pub open spec fn bind_phase_after(step: BindStep) -> BindPhase {
    match step {
        BindStep::Bind => BindPhase::Binding,
        BindStep::Done { .. } => BindPhase::Over,
    }
}

/// The name of a TCP bind in audit records.
pub open spec fn tcp_bind_addr(host: Seq<char>, port: u16) -> Seq<char> {
    "tcp:"@ + endpoint(host, port)
}

/// Whether a step ends a bind with an error whose record has an outcome with
/// the given text: a refusal by the security gate, or a failure.
pub open spec fn bind_ends_with_text(
    step: BindStep,
    state: HostState,
    addr: Seq<char>,
    code: ErrorCode,
    denied: bool,
    text: Seq<char>,
) -> bool {
    match step {
        BindStep::Done { result: Err(e), record } => {
            &&& e == code
            &&& record is Some == state.audited
            &&& record matches Some(r) ==> {
                &&& r.principal@ == state.acting_principal()
                &&& is_bind(r.event, addr)
                &&& match r.outcome {
                    HostAuditOutcome::Denied(reason) => denied && reason@ == text,
                    HostAuditOutcome::Failed(reason) => !denied && reason@ == text,
                    _ => false,
                }
            }
        },
        _ => false,
    }
}

/// Whether a step ends a bind for want of a place in the table of resources.
pub open spec fn bind_not_entered(
    step: BindStep,
    state: HostState,
    addr: Seq<char>,
    failure: Seq<char>,
) -> bool {
    match step {
        BindStep::Done { result: Err(ErrorCode::Unknown(reason)), record: _ } => {
            &&& reason@ == table_reason(failure)
            &&& bind_ends_with_text(
                step,
                state,
                addr,
                ErrorCode::Unknown(reason),
                false,
                table_reason(failure),
            )
        },
        _ => false,
    }
}

/// Whether a step ends a bind with a listener.
pub open spec fn bind_succeeds(
    step: BindStep,
    state: HostState,
    addr: Seq<char>,
    rep: u32,
) -> bool {
    match step {
        BindStep::Done { result, record } => {
            &&& result == Ok::<u32, ErrorCode>(rep)
            &&& is_recorded(state, record, HostAuditOutcome::Allowed)
            &&& record matches Some(r) ==> is_bind(r.event, addr)
        },
        _ => false,
    }
}

/// Whether a TCP bind passes the security gate of a state.
pub open spec fn tcp_bind_permitted(state: HostState, host: Seq<char>, port: u16) -> bool {
    match state.security {
        Some(gate) => any_tcp_bind_covers(gate.caps().net_bind@, host, port),
        None => true,
    }
}

/// Whether a listener was entered under a number, or, without one, nothing was
/// entered. There is a number while the table holds fewer entries than it may.
pub open spec fn listener_entered(
    before: HostState,
    rep: Option<u32>,
    after: HostState,
    slot: SlotView,
) -> bool {
    let old_slots = slots_of(before.resource_table);
    let new_slots = slots_of(after.resource_table);
    &&& match rep {
        Some(n) => !old_slots.contains_key(n) && new_slots == old_slots.insert(n, slot),
        None => new_slots == old_slots,
    }
    &&& has_room(before) ==> rep is Some
    &&& capacity_of(after.resource_table) == capacity_of(before.resource_table)
    &&& after == (HostState { resource_table: after.resource_table, ..before })
}

/// Whether a step ends a bind rightly, given how entering the listener came
/// out.
pub open spec fn bind_finishes(
    state: HostState,
    addr: Seq<char>,
    pushed: Result<u32, Seq<char>>,
    step: BindStep,
) -> bool {
    match pushed {
        Ok(rep) => bind_succeeds(step, state, addr, rep),
        Err(failure) => bind_not_entered(step, state, addr, failure),
    }
}

/// Whether a step enters a listener and ends the bind rightly.
pub open spec fn bind_enters(
    before: HostState,
    addr: Seq<char>,
    slot: SlotView,
    step: BindStep,
    after: HostState,
) -> bool {
    match step {
        BindStep::Done { result, record: _ } => listener_entered(
            before,
            rep_of(result),
            after,
            slot,
        ) && bind_finishes(before, addr, rep_or_full(result), step),
        _ => false,
    }
}

/// A slot that holds a listener.
pub open spec fn listener_slot(listener: Arc<tokio::net::TcpListener>) -> SlotView {
    SlotView::TcpListener(TcpListenerSlot { listener })
}

/// Whether a step ends a bind with a listener.
pub open spec fn is_entered(step: BindStep) -> bool {
    step matches BindStep::Done { result: Ok(_), .. }
}

/// Whether a phase and a step are the right ones after an event of a TCP bind.
/// `before` and `after` are the listeners of the capsule, which all its workers
/// share: one that is registered for the host and the port is handed out, and
/// no other is bound.
pub open spec fn tcp_bind_next(
    state: HostState,
    before: SharedListeners,
    host: Seq<char>,
    port: u16,
    phase: BindPhase,
    event: BindEvent,
    next: BindPhase,
    step: BindStep,
    after_state: HostState,
    after: SharedListeners,
) -> bool {
    &&& bind_awaits(phase, event)
    &&& next == bind_phase_after(step)
    &&& tcp_bind_answers(state, before, host, port, event, step, after_state, after)
}

/// Whether a step is the right one for an event of a TCP bind.
pub open spec fn tcp_bind_answers(
    state: HostState,
    before: SharedListeners,
    host: Seq<char>,
    port: u16,
    event: BindEvent,
    step: BindStep,
    after_state: HostState,
    after: SharedListeners,
) -> bool {
    let addr = tcp_bind_addr(host, port);
    let known = before.registered(host, port);
    match event {
        BindEvent::Begin(address) => after == before && if !is_valid_host(host) {
            &&& after_state == state
            &&& step == (BindStep::Done {
                result: Err(ErrorCode::AddressNotAvailable),
                record: None,
            })
        } else if !tcp_bind_permitted(state, host, port) {
            &&& after_state == state
            &&& bind_ends_with_text(
                step,
                state,
                addr,
                ErrorCode::CapabilityDenied,
                true,
                denial(
                    state.capsule_id@,
                    "TCP bind \""@ + endpoint(host, port) + "\" not in net_bind allowlist"@,
                ),
            )
        } else if !is_local_host(host, address) {
            &&& after_state == state
            &&& bind_ends_with_text(
                step,
                state,
                addr,
                ErrorCode::AirlockRejected,
                false,
                "non-loopback TCP bind refused (capsule servers are loopback-only)"@,
            )
        } else {
            match known {
                Some(listener) => bind_enters(
                    state,
                    addr,
                    listener_slot(listener),
                    step,
                    after_state,
                ),
                None => after_state == state && step == BindStep::Bind,
            }
        },
        BindEvent::Bound(bound) => match known {
            Some(listener) => after == before && bind_enters(
                state,
                addr,
                listener_slot(listener),
                step,
                after_state,
            ),
            None => match bound {
                Ok(listener) => {
                    &&& bind_enters(state, addr, listener_slot(listener), step, after_state)
                    &&& if is_entered(step) {
                        registers(before, after, host, port, listener)
                    } else {
                        after == before
                    }
                },
                Err(failure) => {
                    &&& after == before
                    &&& after_state == state
                    &&& bind_ends_with_text(
                        step,
                        state,
                        addr,
                        io_code(failure),
                        false,
                        code_shown(io_code(failure)),
                    )
                },
            },
        },
    }
}

/// Whether the Unix bind passes the security gate of a state.
pub open spec fn unix_bind_permitted(state: HostState) -> bool {
    match state.security {
        Some(gate) => any_nonempty(gate.caps().net_bind@),
        None => true,
    }
}

/// Whether a step is the right one for a Unix bind, which is over at once.
pub open spec fn unix_bind_next(state: HostState, step: BindStep, after: HostState) -> bool {
    if !unix_bind_permitted(state) {
        after == state && bind_ends_with_text(
            step,
            state,
            UNIX_BIND_ADDR@,
            ErrorCode::CapabilityDenied,
            true,
            denial(state.capsule_id@, "net_bind not declared in manifest"@),
        )
    } else if !state.has_socket_listener {
        after == state && match step {
            BindStep::Done { result: Err(ErrorCode::Unknown(reason)), record: _ } => {
                &&& reason@ == "no pre-bound Unix listener configured"@
                &&& bind_ends_with_text(
                    step,
                    state,
                    UNIX_BIND_ADDR@,
                    ErrorCode::Unknown(reason),
                    false,
                    "no pre-bound Unix listener configured"@,
                )
            },
            _ => false,
        }
    } else {
        bind_enters(state, UNIX_BIND_ADDR@, SlotView::UnixListener, step, after)
    }
}

/// Ends a bind for want of a place in the table of resources.
fn not_entered(state: &HostState, addr: &str, failure: &str) -> (r: BindStep)
    ensures
        bind_not_entered(r, *state, addr@, failure@),
{
    let reason = table_reason_text(failure);
    let shown = reason.clone();
    let record = bind_record(state, addr, HostAuditOutcome::Failed(shown));
    BindStep::Done { result: Err(ErrorCode::Unknown(reason)), record }
}

impl HostState {
    /// The end of a bind, given how entering the listener into the table of
    /// resources came out.
    pub fn bind_ended(&self, addr: &str, pushed: Result<u32, String>) -> (r: BindStep)
        ensures
            bind_finishes(*self, addr@, shown(pushed), r),
    {
        match pushed {
            Ok(rep) => {
                let record = bind_record(self, addr, HostAuditOutcome::Allowed);
                BindStep::Done { result: Ok(rep), record }
            },
            Err(failure) => not_entered(self, addr, failure.as_str()),
        }
    }

    /// The phase and the step of a TCP bind after an event that the phase waits
    /// for. Servers of capsules stay on this machine. `listeners` are those of
    /// the capsule, which all its workers share.
    pub fn bind_tcp(
        &mut self,
        listeners: &mut SharedListeners,
        host: &str,
        port: u16,
        phase: BindPhase,
        event: BindEvent,
    ) -> (r: (BindPhase, BindStep))
        requires
            bind_awaits(phase, event),
        ensures
            tcp_bind_next(
                *old(self),
                *old(listeners),
                host@,
                port,
                phase,
                event,
                r.0,
                r.1,
                *final(self),
                *final(listeners),
            ),
    {
        let awaited = match (phase, &event) {
            (BindPhase::Start, BindEvent::Begin(_)) => true,
            (BindPhase::Binding, BindEvent::Bound(_)) => true,
            _ => false,
        };
        if !awaited {
            let result = Err(ErrorCode::Unknown("unexpected event".to_owned()));
            return (BindPhase::Over, BindStep::Done { result, record: None });
        }
        let step = self.bind_answer(listeners, host, port, event);
        let next = match &step {
            BindStep::Bind => BindPhase::Binding,
            BindStep::Done { .. } => BindPhase::Over,
        };
        (next, step)
    }

    /// Enters a listener into the table of resources and ends the bind.
    fn enter_listener(&mut self, addr: &str, listener: Arc<tokio::net::TcpListener>) -> (r: BindStep)
        ensures
            bind_enters(*old(self), addr@, listener_slot(listener), r, *final(self)),
    {
        let pushed = push_tcp_listener(&mut self.resource_table, TcpListenerSlot { listener });
        self.bind_ended(addr, pushed)
    }

    /// The step of a TCP bind after an event.
    fn bind_answer(
        &mut self,
        listeners: &mut SharedListeners,
        host: &str,
        port: u16,
        event: BindEvent,
    ) -> (r: BindStep)
        ensures
            tcp_bind_answers(
                *old(self),
                *old(listeners),
                host@,
                port,
                event,
                r,
                *final(self),
                *final(listeners),
            ),
    {
        let mut addr = "tcp:".to_owned();
        let target = endpoint_text(host, port);
        addr.append(target.as_str());
        let known = listeners.find(host, port);
        match event {
            BindEvent::Begin(address) => {
                if let Err(e) = validate_host(host) {
                    return BindStep::Done { result: Err(e), record: None };
                }
                let check = match &self.security {
                    Some(gate) => gate.check_net_tcp_bind(self.capsule_id.as_str(), host, port),
                    None => Ok(()),
                };
                if let Err(reason) = check {
                    let record = bind_record(
                        &*self,
                        addr.as_str(),
                        HostAuditOutcome::Denied(reason),
                    );
                    return BindStep::Done { result: Err(ErrorCode::CapabilityDenied), record };
                }
                if !is_loopback_bind_host(host, address) {
                    let reason = "non-loopback TCP bind refused (capsule servers are loopback-only)".to_owned();
                    let record = bind_record(
                        &*self,
                        addr.as_str(),
                        HostAuditOutcome::Failed(reason),
                    );
                    return BindStep::Done { result: Err(ErrorCode::AirlockRejected), record };
                }
                match known {
                    Some(listener) => self.enter_listener(addr.as_str(), listener),
                    None => BindStep::Bind,
                }
            },
            BindEvent::Bound(bound) => {
                if let Some(listener) = known {
                    return self.enter_listener(addr.as_str(), listener);
                }
                match bound {
                    Ok(listener) => {
                        let kept = Arc::clone(&listener);
                        let step = self.enter_listener(addr.as_str(), listener);
                        let entered = match &step {
                            BindStep::Done { result, .. } => result.is_ok(),
                            BindStep::Bind => false,
                        };
                        if entered {
                            listeners.register(host, port, kept);
                        }
                        step
                    },
                    Err(failure) => {
                        let code = map_io_err(failure);
                        let reason = code_text(&code);
                        let record = bind_record(
                            &*self,
                            addr.as_str(),
                            HostAuditOutcome::Failed(reason),
                        );
                        BindStep::Done { result: Err(code), record }
                    },
                }
            },
        }
    }

    /// Binds the pre-bound Unix socket.
    pub fn bind_unix(&mut self) -> (r: BindStep)
        ensures
            unix_bind_next(*old(self), r, *final(self)),
    {
        let check = match &self.security {
            Some(gate) => gate.check_net_bind(self.capsule_id.as_str()),
            None => Ok(()),
        };
        if let Err(reason) = check {
            let record = bind_record(&*self, UNIX_BIND_ADDR, HostAuditOutcome::Denied(reason));
            return BindStep::Done { result: Err(ErrorCode::CapabilityDenied), record };
        }
        if !self.has_socket_listener {
            let reason = "no pre-bound Unix listener configured".to_owned();
            let noted = reason.clone();
            let record = bind_record(&*self, UNIX_BIND_ADDR, HostAuditOutcome::Failed(noted));
            return BindStep::Done { result: Err(ErrorCode::Unknown(reason)), record };
        }
        let pushed = push_unix_listener(&mut self.resource_table, UnixListenerSlot {  });
        self.bind_ended(UNIX_BIND_ADDR, pushed)
    }

    /// UDP sockets are not offered.
    pub fn udp_bind(&self) -> (r: Result<u32, ErrorCode>)
        ensures
            r == Err::<u32, ErrorCode>(ErrorCode::CapabilityDenied),
    {
        Err(ErrorCode::CapabilityDenied)
    }

    /// Decides whether a host name may be resolved: the name is valid and the
    /// gate permits connecting to it on port zero, which only an entry for any
    /// port or for port zero does.
    pub fn lookup_host(&self, host: &str) -> (r: Result<(), ErrorCode>)
        ensures
            r == if !is_valid_host(host@) {
                Err::<(), ErrorCode>(ErrorCode::AddressNotAvailable)
            } else if !connect_permitted(*self, host@, 0) {
                Err::<(), ErrorCode>(ErrorCode::CapabilityDenied)
            } else {
                Ok::<(), ErrorCode>(())
            },
    {
        if let Err(e) = validate_host(host) {
            return Err(e);
        }
        if let Some(gate) = &self.security {
            if gate.check_net_connect(self.capsule_id.as_str(), host, 0).is_err() {
                return Err(ErrorCode::CapabilityDenied);
            }
        }
        Ok(())
    }
}

/// A resolved address: its text and whether it is safe to reach.
#[derive(Debug)]
pub struct ResolvedAddr {
    pub text: String,
    pub safe: bool,
}

/// The texts of the safe addresses, in order.
pub open spec fn safe_texts(found: Seq<ResolvedAddr>) -> Seq<Seq<char>>
    decreases found.len(),
{
    if found.len() == 0 {
        Seq::empty()
    } else {
        let rest = safe_texts(found.drop_last());
        if found.last().safe {
            rest.push(found.last().text@)
        } else {
            rest
        }
    }
}

/// What a lookup returns of the addresses that were found: the safe ones.
pub fn lookup_result(found: Result<Vec<ResolvedAddr>, ()>) -> (r: Result<Vec<String>, ErrorCode>)
    ensures
        match found {
            Ok(list) => r matches Ok(shown) && texts(shown@) == safe_texts(list@),
            Err(()) => r == Err::<Vec<String>, ErrorCode>(ErrorCode::NameUnresolvable),
        },
{
    let list = match found {
        Ok(list) => list,
        Err(()) => return Err(ErrorCode::NameUnresolvable),
    };
    let mut shown: Vec<String> = Vec::new();
    assert(texts(shown@) =~= safe_texts(list@.take(0)));
    for i in 0..list.len()
        invariant
            texts(shown@) == safe_texts(list@.take(i as int)),
    {
        proof {
            assert(list@.take(i + 1).drop_last() =~= list@.take(i as int));
            assert(list@.take(i + 1).last() == list@[i as int]);
        }
        if list[i].safe {
            let ghost before = shown@;
            let text = list[i].text.clone();
            shown.push(text);
            assert(texts(shown@) =~= texts(before).push(text@));
        }
    }
    assert(list@.take(list@.len() as int) =~= list@);
    Ok(shown)
}

/// What an accept reports back.
#[derive(Debug)]
pub enum AcceptEvent {
    /// It begins, on the listener with this number.
    Begin { listener: u32 },
    /// A connection came in.
    Accepted(Arc<tokio::sync::Mutex<tokio::net::TcpStream>>),
    /// Accepting failed.
    AcceptFailed(IoFailure),
    /// No connection came in within the time allowed.
    Elapsed,
    /// The capsule is being unloaded.
    Cancelled,
}

/// What an accept does next.
#[derive(Debug)]
pub enum AcceptStep {
    /// Wait for a connection.
    Wait,
    /// It is over: with a stream, without one for want of a connection, or
    /// with an error. A stream that could not be entered into the table of
    /// resources is closed.
    Done(Result<Option<u32>, ErrorCode>),
}

/// How far an accept has come.
#[derive(Debug, Clone, Copy, PartialEq, Eq, Structural)]
pub enum AcceptPhase {
    Start,
    /// Waits for a connection.
    Waiting,
    Over,
}

/// Whether an event is one that a phase waits for.
pub open spec fn accept_awaits(phase: AcceptPhase, event: AcceptEvent) -> bool {
    match phase {
        AcceptPhase::Start => event is Begin,
        AcceptPhase::Waiting => !(event is Begin),
        AcceptPhase::Over => false,
    }
}

/// The phase that a step leads to.
pub open spec fn accept_phase_after(step: AcceptStep) -> AcceptPhase {
    match step {
        AcceptStep::Wait => AcceptPhase::Waiting,
        AcceptStep::Done(_) => AcceptPhase::Over,
    }
}

/// Whether a step ends an accept with an error.
pub open spec fn accept_fails(step: AcceptStep, code: ErrorCode) -> bool {
    step == AcceptStep::Done(Err::<Option<u32>, ErrorCode>(code))
}

/// Whether a phase and a step are the right ones after an event of an accept.
pub open spec fn accept_next(
    before: HostState,
    phase: AcceptPhase,
    event: AcceptEvent,
    next: AcceptPhase,
    step: AcceptStep,
    after: HostState,
) -> bool {
    &&& accept_awaits(phase, event)
    &&& next == accept_phase_after(step)
    &&& accept_answers(before, event, step, after)
}

/// Whether a step is the right one for an event of an accept.
pub open spec fn accept_answers(
    before: HostState,
    event: AcceptEvent,
    step: AcceptStep,
    after: HostState,
) -> bool {
    match event {
        AcceptEvent::Begin { listener } => if !is_listener(before, listener) {
            accept_fails(step, ErrorCode::InvalidHandle) && after == before
        } else if before.net_stream_count >= MAX_ACTIVE_STREAMS {
            accept_fails(step, ErrorCode::Quota) && after == before
        } else {
            step == AcceptStep::Wait && after == (HostState { recv_yielded: true, ..before })
        },
        AcceptEvent::Accepted(stream) => if before.net_stream_count >= MAX_ACTIVE_STREAMS {
            after == before && accept_fails(step, ErrorCode::Quota)
        } else {
            match step {
                AcceptStep::Done(Ok(Some(rep))) => stream_entered(before, Some(rep), after, stream),
                AcceptStep::Done(Err(ErrorCode::Unknown(reason))) => {
                    &&& stream_entered(before, None, after, stream)
                    &&& reason@ == table_reason("resource table has no free keys"@)
                },
                _ => false,
            }
        },
        AcceptEvent::AcceptFailed(failure) => after == before && accept_fails(
            step,
            io_code(failure),
        ),
        AcceptEvent::Elapsed => after == before && step == AcceptStep::Done(
            Ok::<Option<u32>, ErrorCode>(None),
        ),
        AcceptEvent::Cancelled => after == before && accept_fails(step, ErrorCode::Closed),
    }
}

/// Whether a number stands for a TCP listener.
pub open spec fn is_listener(state: HostState, rep: u32) -> bool {
    let slots = slots_of(state.resource_table);
    slots.contains_key(rep) && slots[rep] is TcpListener
}

impl HostState {
    /// The TCP listener with a number.
    pub fn tcp_listener_arc(&self, rep: u32) -> (r: Result<
        &Arc<tokio::net::TcpListener>,
        ErrorCode,
    >)
        ensures
            match r {
                Ok(listener) => is_listener(*self, rep) && slots_of(self.resource_table)[rep]
                    == SlotView::TcpListener(TcpListenerSlot { listener: *listener }),
                Err(code) => !is_listener(*self, rep) && code == ErrorCode::InvalidHandle,
            },
    {
        match listener_at(&self.resource_table, rep) {
            Some(slot) => Ok(&slot.listener),
            None => Err(ErrorCode::InvalidHandle),
        }
    }

    /// Enters a connection that came in, unless the capsule has as many as it
    /// may.
    fn register_accepted(&mut self, stream: Arc<tokio::sync::Mutex<tokio::net::TcpStream>>) -> (r:
        AcceptStep)
        ensures
            accept_answers(*old(self), AcceptEvent::Accepted(stream), r, *final(self)),
    {
        if self.net_stream_count >= MAX_ACTIVE_STREAMS {
            return AcceptStep::Done(Err(ErrorCode::Quota));
        }
        match self.enter_stream(stream) {
            Ok(rep) => AcceptStep::Done(Ok(Some(rep))),
            Err(failure) => {
                let reason = table_reason_text(failure.as_str());
                AcceptStep::Done(Err(ErrorCode::Unknown(reason)))
            },
        }
    }

    /// The step of an accept after an event.
    fn accept_answer(&mut self, event: AcceptEvent) -> (r: AcceptStep)
        ensures
            accept_answers(*old(self), event, r, *final(self)),
    {
        match event {
            AcceptEvent::Begin { listener } => {
                if let Err(e) = self.tcp_listener_arc(listener) {
                    return AcceptStep::Done(Err(e));
                }
                if self.net_stream_count >= MAX_ACTIVE_STREAMS {
                    return AcceptStep::Done(Err(ErrorCode::Quota));
                }
                self.recv_yielded = true;
                AcceptStep::Wait
            },
            AcceptEvent::Accepted(stream) => self.register_accepted(stream),
            AcceptEvent::AcceptFailed(failure) => AcceptStep::Done(Err(map_io_err(failure))),
            AcceptEvent::Elapsed => AcceptStep::Done(Ok(None)),
            AcceptEvent::Cancelled => AcceptStep::Done(Err(ErrorCode::Closed)),
        }
    }

    /// The phase and the step of accepting a connection within a time, after an
    /// event that the phase waits for. Waiting counts as receiving, so a loop
    /// of accepts is not taken for an idle one.
    pub fn poll_accept(&mut self, phase: AcceptPhase, event: AcceptEvent) -> (r: (
        AcceptPhase,
        AcceptStep,
    ))
        requires
            accept_awaits(phase, event),
        ensures
            accept_next(*old(self), phase, event, r.0, r.1, *final(self)),
    {
        let awaited = match (phase, &event) {
            (AcceptPhase::Start, AcceptEvent::Begin { .. }) => true,
            (AcceptPhase::Waiting, AcceptEvent::Begin { .. }) => false,
            (AcceptPhase::Waiting, _) => true,
            _ => false,
        };
        if !awaited {
            let result = Err(ErrorCode::Unknown("unexpected event".to_owned()));
            return (AcceptPhase::Over, AcceptStep::Done(result));
        }
        let step = self.accept_answer(event);
        let next = match &step {
            AcceptStep::Wait => AcceptPhase::Waiting,
            AcceptStep::Done(_) => AcceptPhase::Over,
        };
        (next, step)
    }

    /// The phase and the step of accepting a connection, however long it takes.
    pub fn accept(&mut self, phase: AcceptPhase, event: AcceptEvent) -> (r: (
        AcceptPhase,
        AcceptStep,
    ))
        requires
            accept_awaits(phase, event),
            !(event is Elapsed),
        ensures
            accept_next(*old(self), phase, event, r.0, r.1, *final(self)),
            r.1 != AcceptStep::Done(Ok::<Option<u32>, ErrorCode>(None)),
    {
        self.poll_accept(phase, event)
    }

    /// The TCP stream with a number.
    pub fn with_tcp_stream(&self, rep: u32) -> (r: Result<&TcpStreamSlot, ErrorCode>)
        ensures
            match tcp_slot(slots_of(self.resource_table), rep) {
                Ok(slot) => r == Ok::<&TcpStreamSlot, ErrorCode>(&slot),
                Err(code) => r == Err::<&TcpStreamSlot, ErrorCode>(code),
            },
    {
        match net_stream(&self.resource_table, rep) {
            Ok(NetStream::Tcp(slot)) => Ok(slot),
            Ok(NetStream::Unix(_)) => Err(ErrorCode::NotTcp),
            Err(code) => Err(code),
        }
    }
}

/// The stream that a number stands for.
pub open spec fn stream_slot(slots: Map<u32, SlotView>, rep: u32) -> Result<NetStream, ErrorCode> {
    if slots.contains_key(rep) && slots[rep] is Stream {
        Ok(slots[rep]->Stream_0)
    } else {
        Err(ErrorCode::InvalidHandle)
    }
}

/// The TCP stream that a number stands for.
pub open spec fn tcp_slot(slots: Map<u32, SlotView>, rep: u32) -> Result<
    TcpStreamSlot,
    ErrorCode,
> {
    match stream_slot(slots, rep) {
        Ok(NetStream::Tcp(slot)) => Ok(slot),
        Ok(NetStream::Unix(_)) => Err(ErrorCode::NotTcp),
        Err(code) => Err(code),
    }
}

/// The stream with a number.
pub fn net_stream(table: &ResourceTable, rep: u32) -> (r: Result<&NetStream, ErrorCode>)
    ensures
        match stream_slot(slots_of(*table), rep) {
            Ok(stream) => r == Ok::<&NetStream, ErrorCode>(&stream),
            Err(code) => r == Err::<&NetStream, ErrorCode>(code),
        },
{
    match stream_at(table, rep) {
        Some(stream) => Ok(stream),
        None => Err(ErrorCode::InvalidHandle),
    }
}

/// The TCP stream with a number, to change its timeouts. What is written to it
/// stands under the number afterwards, and nothing else changes.
pub fn with_tcp_slot_mut(table: &mut ResourceTable, rep: u32) -> (r: Result<
    &mut TcpStreamSlot,
    ErrorCode,
>)
    ensures
        match r {
            Ok(slot) => tcp_slot(slots_of(*old(table)), rep) == Ok::<TcpStreamSlot, ErrorCode>(
                *slot,
            ) && slots_of(*final(table)) == slots_of(*old(table)).insert(
                rep,
                SlotView::Stream(NetStream::Tcp(*final(slot))),
            ),
            Err(code) => tcp_slot(slots_of(*old(table)), rep) == Err::<TcpStreamSlot, ErrorCode>(
                code,
            ) && slots_of(*final(table)) == slots_of(*old(table)),
        },
        capacity_of(*final(table)) == capacity_of(*old(table)),
{
    let ghost before = slots_of(*table);
    match stream_at_mut(table, rep) {
        Some(NetStream::Tcp(slot)) => Ok(slot),
        Some(NetStream::Unix(_)) => {
            proof {
                assert(before.insert(rep, before[rep]) =~= before);
            }
            Err(ErrorCode::NotTcp)
        },
        None => Err(ErrorCode::InvalidHandle),
    }
}

/// Connecting never takes a capsule past its number of streams.
pub proof fn connecting_keeps_the_quota(
    before: HostState,
    host: Seq<char>,
    port: u16,
    phase: ConnectPhase,
    event: ConnectEvent,
    next: ConnectPhase,
    step: ConnectStep,
    after: HostState,
)
    requires
        connect_next(before, host, port, phase, event, next, step, after),
        before.net_stream_count <= MAX_ACTIVE_STREAMS,
    ensures
        after.net_stream_count <= MAX_ACTIVE_STREAMS,
{
}

/// Accepting never takes a capsule past its number of streams.
pub proof fn accepting_keeps_the_quota(
    before: HostState,
    phase: AcceptPhase,
    event: AcceptEvent,
    next: AcceptPhase,
    step: AcceptStep,
    after: HostState,
)
    requires
        accept_next(before, phase, event, next, step, after),
        before.net_stream_count <= MAX_ACTIVE_STREAMS,
    ensures
        after.net_stream_count <= MAX_ACTIVE_STREAMS,
{
}

/// A connection attempt to a valid host is recorded exactly once where actions
/// are audited: with the step that ends it, whatever the outcome, and with no
/// other step.
pub proof fn connecting_is_recorded_once(
    before: HostState,
    host: Seq<char>,
    port: u16,
    phase: ConnectPhase,
    event: ConnectEvent,
    next: ConnectPhase,
    step: ConnectStep,
    after: HostState,
)
    requires
        connect_next(before, host, port, phase, event, next, step, after),
        is_valid_host(host),
    ensures
        step matches ConnectStep::Done { record, .. } ==> record is Some == before.audited,
{
}

/// A TCP bind on a valid host is recorded exactly once where actions are
/// audited.
pub proof fn binding_is_recorded_once(
    state: HostState,
    before: SharedListeners,
    host: Seq<char>,
    port: u16,
    phase: BindPhase,
    event: BindEvent,
    next: BindPhase,
    step: BindStep,
    after_state: HostState,
    after: SharedListeners,
)
    requires
        tcp_bind_next(
            state,
            before,
            host,
            port,
            phase,
            event,
            next,
            step,
            after_state,
            after,
        ),
        is_valid_host(host),
    ensures
        step matches BindStep::Done { record, .. } ==> record is Some == state.audited,
{
}

/// Whether phases, events and steps are those of one TCP bind, from its
/// beginning. Other calls may come between them, so each step is taken in a
/// state and with listeners of its own.
pub open spec fn is_bind_course(
    states: Seq<(HostState, HostState)>,
    listeners: Seq<(SharedListeners, SharedListeners)>,
    host: Seq<char>,
    port: u16,
    phases: Seq<BindPhase>,
    events: Seq<BindEvent>,
    steps: Seq<BindStep>,
) -> bool {
    &&& states.len() == events.len()
    &&& listeners.len() == events.len()
    &&& steps.len() == events.len()
    &&& phases.len() == events.len() + 1
    &&& phases[0] is Start
    &&& forall|i: int|
        0 <= i < events.len() ==> tcp_bind_next(
            states[i].0,
            listeners[i].0,
            host,
            port,
            phases[i],
            #[trigger] events[i],
            phases[i + 1],
            steps[i],
            states[i].1,
            listeners[i].1,
        )
}

/// Whether a bind began on this machine and where the security gate permits
/// it.
pub open spec fn began_locally_and_permitted(
    states: Seq<(HostState, HostState)>,
    host: Seq<char>,
    port: u16,
    events: Seq<BindEvent>,
) -> bool {
    &&& is_valid_host(host)
    &&& tcp_bind_permitted(states[0].0, host, port)
    &&& events[0] matches BindEvent::Begin(address) && is_local_host(host, address)
}

/// No socket is bound, and no listener handed out, but on this machine and
/// where the security gate permits it: whatever comes later in the course of a
/// bind, it began so.
pub proof fn binds_are_local_and_permitted(
    states: Seq<(HostState, HostState)>,
    listeners: Seq<(SharedListeners, SharedListeners)>,
    host: Seq<char>,
    port: u16,
    phases: Seq<BindPhase>,
    events: Seq<BindEvent>,
    steps: Seq<BindStep>,
    j: int,
)
    requires
        is_bind_course(states, listeners, host, port, phases, events, steps),
        0 <= j < events.len(),
        steps[j] is Bind || is_entered(steps[j]) || events[j] is Bound,
    ensures
        began_locally_and_permitted(states, host, port, events),
{
    assert(bind_awaits(phases[0], events[0]));
    assert(bind_awaits(phases[j], events[j]));
    if j > 0 {
        assert(bind_awaits(phases[1], events[1]));
        assert(steps[0] is Bind);
    }
}

/// Workers of a capsule share their listeners: once one of them was handed a
/// listener for a host and a port, every other bind of the two, however far it
/// has come, ends with a handle on the very same listener, and no socket is
/// bound for it. Such a bind fails for want of a place in the table of
/// resources alone, or where it was not permitted to begin with.
pub proof fn workers_share_one_listener(
    a: (HostState, HostState),
    b: (HostState, HostState),
    first: SharedListeners,
    between: SharedListeners,
    last: SharedListeners,
    host: Seq<char>,
    port: u16,
    a_course: (BindPhase, BindEvent, BindPhase, BindStep),
    b_course: (BindPhase, BindEvent, BindPhase, BindStep),
)
    requires
        first.is_shared(),
        tcp_bind_next(
            a.0,
            first,
            host,
            port,
            a_course.0,
            a_course.1,
            a_course.2,
            a_course.3,
            a.1,
            between,
        ),
        is_entered(a_course.3),
        tcp_bind_next(
            b.0,
            between,
            host,
            port,
            b_course.0,
            b_course.1,
            b_course.2,
            b_course.3,
            b.1,
            last,
        ),
    ensures
        !(b_course.3 is Bind),
        is_entered(b_course.3) ==> entered_slot(b.1, b_course.3) == entered_slot(a.1, a_course.3)
            && entered_slot(a.1, a_course.3) is TcpListener,
        has_room(b.0) && is_valid_host(host) && tcp_bind_permitted(b.0, host, port) && (
        b_course.1 matches BindEvent::Begin(address) ==> is_local_host(host, address))
            ==> is_entered(b_course.3),
        last.registered(host, port) == between.registered(host, port),
{
    assert(between.registered(host, port) is Some);
    assert(entered_slot(a.1, a_course.3) == listener_slot(between.registered(host, port)->0));
}

/// What a number that a bind ended with stands for.
pub open spec fn entered_slot(state: HostState, step: BindStep) -> SlotView {
    slots_of(state.resource_table)[step->result->Ok_0]
}

/// A listener that was registered stays registered, whatever is bound later.
pub proof fn registered_listeners_stay(
    state: HostState,
    before: SharedListeners,
    host: Seq<char>,
    port: u16,
    phase: BindPhase,
    event: BindEvent,
    next: BindPhase,
    step: BindStep,
    after_state: HostState,
    after: SharedListeners,
    other_host: Seq<char>,
    other_port: u16,
)
    requires
        tcp_bind_next(
            state,
            before,
            host,
            port,
            phase,
            event,
            next,
            step,
            after_state,
            after,
        ),
        before.registered(other_host, other_port) is Some,
    ensures
        after.registered(other_host, other_port) == before.registered(other_host, other_port),
{
}

/// A capsule with a single worker binds every listener afresh.
pub proof fn single_workers_bind_afresh(
    state: HostState,
    before: SharedListeners,
    host: Seq<char>,
    port: u16,
    address: Option<IpLiteral>,
    next: BindPhase,
    step: BindStep,
    after_state: HostState,
    after: SharedListeners,
)
    requires
        tcp_bind_next(
            state,
            before,
            host,
            port,
            BindPhase::Start,
            BindEvent::Begin(address),
            next,
            step,
            after_state,
            after,
        ),
        !before.is_shared(),
        is_valid_host(host),
        tcp_bind_permitted(state, host, port),
        is_local_host(host, address),
    ensures
        step is Bind,
{
    before.unshared_registers_nothing(host, port);
}

/// Whether phases, events and steps are those of one connection attempt, from
/// its beginning. Other calls may come between them, so each step is taken in a
/// state of its own.
pub open spec fn is_connect_course(
    states: Seq<(HostState, HostState)>,
    host: Seq<char>,
    port: u16,
    phases: Seq<ConnectPhase>,
    events: Seq<ConnectEvent>,
    steps: Seq<ConnectStep>,
) -> bool {
    &&& states.len() == events.len()
    &&& steps.len() == events.len()
    &&& phases.len() == events.len() + 1
    &&& phases[0] is Start
    &&& forall|i: int|
        0 <= i < events.len() ==> connect_next(
            states[i].0,
            host,
            port,
            phases[i],
            #[trigger] events[i],
            phases[i + 1],
            steps[i],
            states[i].1,
        )
}

/// Whether a connection attempt began with a valid host that the security gate
/// permits.
pub open spec fn began_permitted(
    states: Seq<(HostState, HostState)>,
    host: Seq<char>,
    port: u16,
    events: Seq<ConnectEvent>,
) -> bool {
    &&& events[0] is Begin
    &&& is_valid_host(host)
    &&& connect_permitted(states[0].0, host, port)
}

/// Whether a connection attempt found the host to have addresses, all of them
/// safe.
pub open spec fn found_safe(events: Seq<ConnectEvent>) -> bool {
    &&& events.len() > 1
    &&& events[1] matches ConnectEvent::Resolved(Ok(addresses)) && addresses@.len() > 0
        && all_safe(addresses@)
}

/// No name is resolved but of a valid host that the security gate permits; and
/// no connection is made, and no stream handed out, but to such a host whose
/// addresses are all safe. This holds over the whole course of an attempt.
pub proof fn only_safe_and_permitted_hosts_are_connected(
    states: Seq<(HostState, HostState)>,
    host: Seq<char>,
    port: u16,
    phases: Seq<ConnectPhase>,
    events: Seq<ConnectEvent>,
    steps: Seq<ConnectStep>,
    j: int,
)
    requires
        is_connect_course(states, host, port, phases, events, steps),
        0 <= j < events.len(),
    ensures
        steps[j] is Resolve ==> began_permitted(states, host, port, events),
        steps[j] is Connect || events[j] is Connected || (steps[j] matches ConnectStep::Done {
            result: Ok(_),
            ..
        }) ==> began_permitted(states, host, port, events) && found_safe(events),
{
    assert(connect_awaits(phases[0], events[0]));
    assert(connect_awaits(phases[j], events[j]));
    if j > 0 {
        assert(connect_awaits(phases[1], events[1]));
    }
    if j > 1 {
        assert(connect_awaits(phases[2], events[2]));
    }
    if j > 2 {
        assert(connect_awaits(phases[3], events[3]));
    }
}

/// Whether phases, events and steps are those of one accept, from its
/// beginning. Other calls may come between them, so each step is taken in a
/// state of its own.
pub open spec fn is_accept_course(
    states: Seq<(HostState, HostState)>,
    phases: Seq<AcceptPhase>,
    events: Seq<AcceptEvent>,
    steps: Seq<AcceptStep>,
) -> bool {
    &&& states.len() == events.len()
    &&& steps.len() == events.len()
    &&& phases.len() == events.len() + 1
    &&& phases[0] is Start
    &&& forall|i: int|
        0 <= i < events.len() ==> accept_next(
            states[i].0,
            phases[i],
            #[trigger] events[i],
            phases[i + 1],
            steps[i],
            states[i].1,
        )
}

/// Connections are waited for, and streams handed out, only on a number that
/// stands for a listener, and only where the capsule had fewer streams than it
/// may. This holds over the whole course of an accept.
pub proof fn only_listeners_accept(
    states: Seq<(HostState, HostState)>,
    phases: Seq<AcceptPhase>,
    events: Seq<AcceptEvent>,
    steps: Seq<AcceptStep>,
    j: int,
)
    requires
        is_accept_course(states, phases, events, steps),
        0 <= j < events.len(),
        steps[j] is Wait || events[j] is Accepted || (steps[j] matches AcceptStep::Done(
            Ok(Some(_)),
        )),
    ensures
        events[0] matches AcceptEvent::Begin { listener } && is_listener(states[0].0, listener),
        states[0].0.net_stream_count < MAX_ACTIVE_STREAMS,
{
    assert(accept_awaits(phases[0], events[0]));
    assert(accept_awaits(phases[j], events[j]));
    if j > 0 {
        assert(accept_awaits(phases[1], events[1]));
        assert(steps[0] is Wait);
    }
}

/// Binding the Unix socket is recorded exactly once where actions are audited.
pub proof fn unix_binding_is_recorded_once(state: HostState, step: BindStep, after: HostState)
    requires
        unix_bind_next(state, step, after),
    ensures
        step is Done,
        step matches BindStep::Done { record, .. } ==> record is Some == state.audited,
{
}

/// The numbers that stand for streams.
pub open spec fn stream_reps(state: HostState) -> Set<u32> {
    let slots = slots_of(state.resource_table);
    slots.dom().filter(|rep: u32| slots[rep] is Stream)
}

/// Whether the count of streams is that of the streams in the table of
/// resources.
pub open spec fn streams_are_counted(state: HostState) -> bool {
    &&& slots_of(state.resource_table).dom().finite()
    &&& state.net_stream_count == stream_reps(state).len()
}

/// An instance whose table is empty counts its streams rightly.
pub proof fn fresh_instances_count_their_streams(state: HostState)
    requires
        slots_of(state.resource_table).dom() == Set::<u32>::empty(),
        state.net_stream_count == 0,
    ensures
        streams_are_counted(state),
{
    assert(stream_reps(state) =~= Set::<u32>::empty());
}

proof fn lemma_entering_a_stream(
    before: HostState,
    rep: Option<u32>,
    after: HostState,
    stream: Arc<tokio::sync::Mutex<tokio::net::TcpStream>>,
)
    requires
        stream_entered(before, rep, after, stream),
        streams_are_counted(before),
    ensures
        streams_are_counted(after),
{
    let old_slots = slots_of(before.resource_table);
    let new_slots = slots_of(after.resource_table);
    old_slots.dom().lemma_len_filter(|r: u32| old_slots[r] is Stream);
    match rep {
        Some(n) => {
            assert(stream_reps(after) =~= stream_reps(before).insert(n));
            assert(!stream_reps(before).contains(n));
            assert(new_slots.dom() =~= old_slots.dom().insert(n));
        },
        None => {
            assert(stream_reps(after) =~= stream_reps(before));
        },
    }
}

proof fn lemma_entering_a_listener(
    before: HostState,
    rep: Option<u32>,
    after: HostState,
    slot: SlotView,
)
    requires
        listener_entered(before, rep, after, slot),
        !(slot is Stream),
        streams_are_counted(before),
    ensures
        streams_are_counted(after),
{
    let old_slots = slots_of(before.resource_table);
    let new_slots = slots_of(after.resource_table);
    assert(stream_reps(after) =~= stream_reps(before));
    match rep {
        Some(n) => {
            assert(new_slots.dom() =~= old_slots.dom().insert(n));
        },
        None => {},
    }
}

/// Connecting counts exactly the streams that it enters into the table of
/// resources.
pub proof fn connecting_keeps_streams_counted(
    before: HostState,
    host: Seq<char>,
    port: u16,
    phase: ConnectPhase,
    event: ConnectEvent,
    next: ConnectPhase,
    step: ConnectStep,
    after: HostState,
)
    requires
        connect_next(before, host, port, phase, event, next, step, after),
        streams_are_counted(before),
    ensures
        streams_are_counted(after),
{
    if let ConnectEvent::Connected(stream) = event {
        if before.net_stream_count < MAX_ACTIVE_STREAMS {
            lemma_entering_a_stream(before, rep_of(step->result), after, stream);
        }
    }
}

/// Accepting counts exactly the streams that it enters into the table of
/// resources.
pub proof fn accepting_keeps_streams_counted(
    before: HostState,
    phase: AcceptPhase,
    event: AcceptEvent,
    next: AcceptPhase,
    step: AcceptStep,
    after: HostState,
)
    requires
        accept_next(before, phase, event, next, step, after),
        streams_are_counted(before),
    ensures
        streams_are_counted(after),
{
    if let AcceptEvent::Accepted(stream) = event {
        if before.net_stream_count < MAX_ACTIVE_STREAMS {
            match step {
                AcceptStep::Done(Ok(Some(rep))) => {
                    lemma_entering_a_stream(before, Some(rep), after, stream);
                },
                _ => {
                    lemma_entering_a_stream(before, None, after, stream);
                },
            }
        }
    }
    if event is Begin {
        assert(stream_reps(after) =~= stream_reps(before));
    }
}

/// Binding counts no streams.
pub proof fn binding_keeps_streams_counted(
    state: HostState,
    before: SharedListeners,
    host: Seq<char>,
    port: u16,
    phase: BindPhase,
    event: BindEvent,
    next: BindPhase,
    step: BindStep,
    after_state: HostState,
    after: SharedListeners,
)
    requires
        tcp_bind_next(
            state,
            before,
            host,
            port,
            phase,
            event,
            next,
            step,
            after_state,
            after,
        ),
        streams_are_counted(state),
    ensures
        streams_are_counted(after_state),
{
    if after_state != state {
        let listener = match before.registered(host, port) {
            Some(known) => known,
            None => event->Bound_0->Ok_0,
        };
        lemma_entering_a_listener(
            state,
            rep_of(step->result),
            after_state,
            listener_slot(listener),
        );
    }
}

/// Changing the timeouts of a stream changes no count of streams.
pub proof fn changing_timeouts_keeps_streams_counted(
    before: HostState,
    after: HostState,
    rep: u32,
    slot: TcpStreamSlot,
)
    requires
        tcp_slot(slots_of(before.resource_table), rep) is Ok,
        slots_of(after.resource_table) == slots_of(before.resource_table).insert(
            rep,
            SlotView::Stream(NetStream::Tcp(slot)),
        ),
        after.net_stream_count == before.net_stream_count,
        streams_are_counted(before),
    ensures
        streams_are_counted(after),
{
    let old_slots = slots_of(before.resource_table);
    assert(slots_of(after.resource_table).dom() =~= old_slots.dom());
    assert(stream_reps(after) =~= stream_reps(before));
}

/// The answer to the begin of a connection attempt depends on four things, in
/// this order: a bad host name, a host that the security gate does not permit,
/// and eight open streams each end it with their own error; any other attempt
/// goes on to resolve the host. So a capsule may connect as long as it has fewer
/// streams than it may.
pub proof fn attempts_begin_unless_refused(
    before: HostState,
    host: Seq<char>,
    port: u16,
    next: ConnectPhase,
    step: ConnectStep,
    after: HostState,
)
    requires
        connect_next(
            before,
            host,
            port,
            ConnectPhase::Start,
            ConnectEvent::Begin,
            next,
            step,
            after,
        ),
    ensures
        ({
            let bad = host.len() == 0 || encode_utf8(host).len() > 255 || encode_utf8(
                host,
            ).contains(0u8);
            let refused = before.security is Some && !any_endpoint_covers(
                before.security->0.caps().net_connect@,
                host,
                port,
            );
            let full = before.net_stream_count >= 8;
            &&& step is Resolve <==> !bad && !refused && !full
            &&& connect_error(step) == Some(ErrorCode::AddressNotAvailable) <==> bad
            &&& connect_error(step) == Some(ErrorCode::CapabilityDenied) <==> !bad && refused
            &&& connect_error(step) == Some(ErrorCode::Quota) <==> !bad && !refused && full
        }),
        !(step is Connect),
        after == before,
{
}

/// Whether the table of resources has a free number: it holds fewer entries
/// than its capacity, and than there are numbers.
pub open spec fn table_has_a_free_number(state: HostState) -> bool {
    &&& slots_of(state.resource_table).dom().len() < capacity_of(state.resource_table)
    &&& slots_of(state.resource_table).dom().len() < 0x1_0000_0000
}

/// The error that a step ends a connection attempt with.
pub open spec fn connect_error(step: ConnectStep) -> Option<ErrorCode> {
    match step {
        ConnectStep::Done { result: Err(code), .. } => Some(code),
        _ => None,
    }
}

/// A resolved name is connected to exactly where it has addresses and every one
/// of them is safe; one unsafe address is enough to refuse it.
pub proof fn safe_names_are_connected(
    before: HostState,
    host: Seq<char>,
    port: u16,
    found: Result<Vec<bool>, ()>,
    next: ConnectPhase,
    step: ConnectStep,
    after: HostState,
)
    requires
        connect_next(
            before,
            host,
            port,
            ConnectPhase::Resolving,
            ConnectEvent::Resolved(found),
            next,
            step,
            after,
        ),
    ensures
        step is Connect <==> found is Ok && found->Ok_0@.len() > 0 && forall|i: int|
            0 <= i < found->Ok_0@.len() ==> #[trigger] found->Ok_0@[i],
        connect_error(step) == Some(ErrorCode::NameUnresolvable) <==> found is Err
            || found->Ok_0@.len() == 0,
        connect_error(step) == Some(ErrorCode::AirlockRejected) <==> found is Ok && exists|i: int|
            0 <= i < found->Ok_0@.len() && !(#[trigger] found->Ok_0@[i]),
        after == before,
{
}

/// An open connection is handed out exactly where the capsule has fewer streams
/// than it may and its table has a free number; it then counts as one more
/// stream and stands under the number that is handed out. A connection that
/// failed, timed out or was cancelled is told so, and changes nothing.
pub proof fn open_connections_are_handed_out(
    before: HostState,
    host: Seq<char>,
    port: u16,
    event: ConnectEvent,
    next: ConnectPhase,
    step: ConnectStep,
    after: HostState,
)
    requires
        connect_next(before, host, port, ConnectPhase::Connecting, event, next, step, after),
    ensures
        step is Done,
        event is Connected && before.net_stream_count < 8 && table_has_a_free_number(before)
            ==> step->result is Ok,
        step->result is Ok ==> event is Connected && before.net_stream_count < 8
            && after.net_stream_count == before.net_stream_count + 1,
        step->result matches Ok(rep) ==> {
            &&& !slots_of(before.resource_table).contains_key(rep)
            &&& slots_of(after.resource_table).contains_key(rep)
            &&& slots_of(after.resource_table)[rep] matches SlotView::Stream(
                NetStream::Tcp(slot),
            ) && slot.stream == event->Connected_0 && slot.read_timeout is None
                && slot.write_timeout is None
            &&& forall|other: u32|
                slots_of(before.resource_table).contains_key(other) ==> slots_of(
                    after.resource_table,
                ).contains_key(other) && #[trigger] slots_of(after.resource_table)[other]
                    == slots_of(before.resource_table)[other]
        },
        step->result is Err ==> after.net_stream_count == before.net_stream_count && slots_of(
            after.resource_table,
        ) == slots_of(before.resource_table),
        event is Connected ==> (connect_error(step) == Some(ErrorCode::Quota) <==> before.net_stream_count
            >= 8),
        event is Connected && before.net_stream_count < 8 && step->result is Err ==> (
        connect_error(step) matches Some(ErrorCode::Unknown(reason)) && reason@
            == "resource table: "@ + "resource table has no free keys"@),
        after == (HostState {
            net_stream_count: after.net_stream_count,
            resource_table: after.resource_table,
            ..before
        }),
        event is TimedOut ==> connect_error(step) == Some(ErrorCode::Timeout),
        event is Cancelled ==> connect_error(step) == Some(ErrorCode::Closed),
        event matches ConnectEvent::ConnectFailed(failure) ==> connect_error(step) == Some(
            io_code(failure),
        ),
{
}

/// Time that runs out, and an unload, end a resolution with their own errors.
pub proof fn resolutions_end_in_time(
    before: HostState,
    host: Seq<char>,
    port: u16,
    event: ConnectEvent,
    next: ConnectPhase,
    step: ConnectStep,
    after: HostState,
)
    requires
        connect_next(before, host, port, ConnectPhase::Resolving, event, next, step, after),
    ensures
        event is TimedOut ==> connect_error(step) == Some(ErrorCode::Timeout),
        event is Cancelled ==> connect_error(step) == Some(ErrorCode::Closed),
        event is Resolved || event is TimedOut || event is Cancelled,
        after == before,
{
}

/// A record of a connection attempt says what became of it: it was allowed
/// exactly where a stream was handed out, denied exactly where the security gate
/// refused it, and failed else; for the acting principal, with the host and the
/// port.
pub proof fn connection_records_tell_the_outcome(
    before: HostState,
    host: Seq<char>,
    port: u16,
    phase: ConnectPhase,
    event: ConnectEvent,
    next: ConnectPhase,
    result: Result<u32, ErrorCode>,
    record: AuditRecord,
    after: HostState,
)
    requires
        connect_next(
            before,
            host,
            port,
            phase,
            event,
            next,
            ConnectStep::Done { result, record: Some(record) },
            after,
        ),
    ensures
        record.outcome is Allowed <==> result is Ok,
        record.outcome is Denied <==> result == Err::<u32, ErrorCode>(ErrorCode::CapabilityDenied)
            && event is Begin,
        record.principal@ == before.acting_principal(),
        record.event matches HostAuditEvent::NetConnect { host: h, port: p } && h@ == host && p
            == port,
{
}

/// The error of a failed I/O operation names its kind; only a kind without a
/// name of its own carries the text.
pub proof fn io_failures_keep_their_kind(err: IoFailure)
    ensures
        io_code(err) == ErrorCode::WouldBlock <==> err.kind == IoKind::WouldBlock,
        io_code(err) == ErrorCode::ConnectionRefused <==> err.kind == IoKind::ConnectionRefused,
        io_code(err) == ErrorCode::ConnectionReset <==> err.kind == IoKind::ConnectionReset
            || err.kind == IoKind::ConnectionAborted || err.kind == IoKind::BrokenPipe,
        io_code(err) == ErrorCode::Timeout <==> err.kind == IoKind::TimedOut,
        io_code(err) == ErrorCode::AddressInUse <==> err.kind == IoKind::AddrInUse,
        io_code(err) == ErrorCode::AddressNotAvailable <==> err.kind == IoKind::AddrNotAvailable,
        io_code(err) == ErrorCode::Unknown(err.text) <==> err.kind == IoKind::Other,
{
}

/// A host stays on this machine exactly where it is `localhost` in any letter
/// case, an address of `127.0.0.0/8`, or `::1`.
pub proof fn local_hosts_stay_on_this_machine(host: Seq<char>, address: Option<IpLiteral>)
    ensures
        eq_ignore_case(host, "localhost"@) ==> is_local_host(host, address),
        !eq_ignore_case(host, "localhost"@) && address is None ==> !is_local_host(host, address),
        !eq_ignore_case(host, "localhost"@) ==> (address matches Some(IpLiteral::V4(octets)) ==> (
        is_local_host(host, address) <==> octets@[0] == 127)),
        !eq_ignore_case(host, "localhost"@) ==> (address matches Some(IpLiteral::V6(groups)) ==> (
        is_local_host(host, address) <==> groups@[7] == 1 && forall|i: int|
            0 <= i < 7 ==> #[trigger] groups@[i] == 0)),
{
    if let Some(IpLiteral::V6(groups)) = address {
        let one = seq![0u16, 0, 0, 0, 0, 0, 0, 1];
        if groups@ == one {
            assert(groups@[0] == one[0] && groups@[1] == one[1] && groups@[2] == one[2]
                && groups@[3] == one[3] && groups@[4] == one[4] && groups@[5] == one[5]
                && groups@[6] == one[6] && groups@[7] == one[7]);
        } else if groups@[7] == 1 && forall|i: int| 0 <= i < 7 ==> #[trigger] groups@[i] == 0 {
            assert(groups@[0] == 0 && groups@[1] == 0 && groups@[2] == 0 && groups@[3] == 0
                && groups@[4] == 0 && groups@[5] == 0 && groups@[6] == 0);
            assert(groups@ =~= one);
        }
    }
}

/// The error that a step ends a bind with.
pub open spec fn bind_error(step: BindStep) -> Option<ErrorCode> {
    match step {
        BindStep::Done { result: Err(code), .. } => Some(code),
        _ => None,
    }
}

/// The answer to the begin of a TCP bind: a bad host name, an endpoint that the
/// security gate does not permit, and a host beyond this machine each end it
/// with their own error; any other bind goes on, to a shared listener where one
/// is registered, else to the socket.
pub proof fn binds_begin_unless_refused(
    state: HostState,
    before: SharedListeners,
    host: Seq<char>,
    port: u16,
    address: Option<IpLiteral>,
    next: BindPhase,
    step: BindStep,
    after_state: HostState,
    after: SharedListeners,
)
    requires
        tcp_bind_next(
            state,
            before,
            host,
            port,
            BindPhase::Start,
            BindEvent::Begin(address),
            next,
            step,
            after_state,
            after,
        ),
    ensures
        ({
            let bad = host.len() == 0 || encode_utf8(host).len() > 255 || encode_utf8(
                host,
            ).contains(0u8);
            let refused = state.security is Some && !any_tcp_bind_covers(
                state.security->0.caps().net_bind@,
                host,
                port,
            );
            let local = is_local_host(host, address);
            &&& step is Bind <==> !bad && !refused && local && before.registered(host, port) is None
            &&& bind_error(step) == Some(ErrorCode::AddressNotAvailable) <==> bad
            &&& bind_error(step) == Some(ErrorCode::CapabilityDenied) <==> !bad && refused
            &&& bind_error(step) == Some(ErrorCode::AirlockRejected) <==> !bad && !refused && !local
            &&& !bad && !refused && local && before.registered(host, port) is Some && table_has_a_free_number(state) ==> is_entered(step)
        }),
        after == before,
{
}

/// A socket that was bound is handed out where the table has a free number,
/// under a number that stood for nothing; a bind that failed is told so, unless
/// a listener of the capsule is registered meanwhile.
pub proof fn bound_sockets_are_handed_out(
    state: HostState,
    before: SharedListeners,
    host: Seq<char>,
    port: u16,
    bound: Result<Arc<tokio::net::TcpListener>, IoFailure>,
    next: BindPhase,
    step: BindStep,
    after_state: HostState,
    after: SharedListeners,
)
    requires
        tcp_bind_next(
            state,
            before,
            host,
            port,
            BindPhase::Binding,
            BindEvent::Bound(bound),
            next,
            step,
            after_state,
            after,
        ),
    ensures
        step is Done,
        (bound is Ok || before.registered(host, port) is Some) && table_has_a_free_number(state) ==> is_entered(
            step,
        ),
        is_entered(step) ==> bound is Ok || before.registered(host, port) is Some,
        is_entered(step) ==> ({
            let rep = step->result->Ok_0;
            let listener = if before.registered(host, port) is Some {
                before.registered(host, port)->0
            } else {
                bound->Ok_0
            };
            &&& !slots_of(state.resource_table).contains_key(rep)
            &&& slots_of(after_state.resource_table).contains_key(rep)
            &&& slots_of(after_state.resource_table)[rep] == SlotView::TcpListener(
                TcpListenerSlot { listener },
            )
        }),
        before.registered(host, port) is None ==> (bound matches Err(failure) ==> bind_error(step)
            == Some(io_code(failure))),
        before.is_shared() && is_entered(step) ==> after.registered(host, port) is Some,
        (bound is Ok || before.registered(host, port) is Some) && !is_entered(step) ==> (
        bind_error(step) matches Some(ErrorCode::Unknown(reason)) && reason@ == "resource table: "@
            + "resource table has no free keys"@),
        after_state == (HostState { resource_table: after_state.resource_table, ..state }),
        forall|other: u32|
            slots_of(state.resource_table).contains_key(other) ==> slots_of(
                after_state.resource_table,
            ).contains_key(other) && #[trigger] slots_of(after_state.resource_table)[other]
                == slots_of(state.resource_table)[other],
{
}

/// The Unix socket is bound exactly where the security gate permits binding, the
/// socket is at hand and the table has a free number.
pub proof fn the_unix_socket_is_bound_unless_refused(
    state: HostState,
    step: BindStep,
    after: HostState,
)
    requires
        unix_bind_next(state, step, after),
    ensures
        ({
            let refused = state.security is Some && !any_nonempty(
                state.security->0.caps().net_bind@,
            );
            &&& bind_error(step) == Some(ErrorCode::CapabilityDenied) <==> refused
            &&& !refused && state.has_socket_listener && table_has_a_free_number(state) ==> is_entered(step)
            &&& is_entered(step) ==> !refused && state.has_socket_listener
            &&& !refused && !state.has_socket_listener ==> (
            bind_error(step) matches Some(ErrorCode::Unknown(reason)) && reason@
                == "no pre-bound Unix listener configured"@)
            &&& !refused && state.has_socket_listener && !is_entered(step) ==> (
            bind_error(step) matches Some(ErrorCode::Unknown(reason)) && reason@
                == "resource table: "@ + "resource table has no free keys"@)
        }),
        !is_entered(step) ==> slots_of(after.resource_table) == slots_of(state.resource_table),
        after == (HostState { resource_table: after.resource_table, ..state }),
        is_entered(step) ==> slots_of(after.resource_table).contains_key(step->result->Ok_0)
            && slots_of(after.resource_table)[step->result->Ok_0] is UnixListener,
{
}

/// A record of a TCP bind says what became of it.
pub proof fn bind_records_tell_the_outcome(
    state: HostState,
    before: SharedListeners,
    host: Seq<char>,
    port: u16,
    phase: BindPhase,
    event: BindEvent,
    next: BindPhase,
    result: Result<u32, ErrorCode>,
    record: AuditRecord,
    after_state: HostState,
    after: SharedListeners,
)
    requires
        tcp_bind_next(
            state,
            before,
            host,
            port,
            phase,
            event,
            next,
            BindStep::Done { result, record: Some(record) },
            after_state,
            after,
        ),
    ensures
        record.outcome is Allowed <==> result is Ok,
        record.outcome is Denied <==> result == Err::<u32, ErrorCode>(ErrorCode::CapabilityDenied)
            && event is Begin,
        record.principal@ == state.acting_principal(),
        record.event matches HostAuditEvent::NetBind { addr } && addr@ == "tcp:"@ + host + ":"@
            + decimal(port as nat),
{
    let addr = tcp_bind_addr(host, port);
    assert(addr =~= "tcp:"@ + host + ":"@ + decimal(port as nat));
}

/// The answer to the begin of an accept: a number that stands for no TCP
/// listener, and eight open streams, each end it with their own error; any other
/// accept waits, and counts as receiving.
pub proof fn accepts_wait_unless_refused(
    before: HostState,
    listener: u32,
    next: AcceptPhase,
    step: AcceptStep,
    after: HostState,
)
    requires
        accept_next(
            before,
            AcceptPhase::Start,
            AcceptEvent::Begin { listener },
            next,
            step,
            after,
        ),
    ensures
        ({
            let slots = slots_of(before.resource_table);
            let known = slots.contains_key(listener) && slots[listener] is TcpListener;
            let full = before.net_stream_count >= 8;
            &&& step is Wait <==> known && !full
            &&& step == AcceptStep::Done(Err::<Option<u32>, ErrorCode>(ErrorCode::InvalidHandle))
                <==> !known
            &&& step == AcceptStep::Done(Err::<Option<u32>, ErrorCode>(ErrorCode::Quota)) <==> known
                && full
        }),
        step is Wait ==> after.recv_yielded,
        after == (HostState { recv_yielded: after.recv_yielded, ..before }),
        !(step is Wait) ==> after == before,
        slots_of(after.resource_table) == slots_of(before.resource_table),
        after.net_stream_count == before.net_stream_count,
{
}

/// A connection that came in is handed out where the capsule has fewer streams
/// than it may and its table has a free number, and counts as one more stream;
/// waiting in vain gives none, and a failure or an unload its error.
pub proof fn incoming_connections_are_handed_out(
    before: HostState,
    event: AcceptEvent,
    next: AcceptPhase,
    step: AcceptStep,
    after: HostState,
)
    requires
        accept_next(before, AcceptPhase::Waiting, event, next, step, after),
    ensures
        step is Done,
        event is Accepted && before.net_stream_count < 8 && table_has_a_free_number(before)
            ==> (step matches AcceptStep::Done(Ok(Some(_)))),
        (step matches AcceptStep::Done(Ok(Some(_)))) ==> event is Accepted
            && before.net_stream_count < 8 && after.net_stream_count
            == before.net_stream_count + 1,
        step matches AcceptStep::Done(Ok(Some(rep))) ==> !slots_of(
            before.resource_table,
        ).contains_key(rep) && slots_of(after.resource_table).contains_key(rep) && slots_of(
            after.resource_table,
        )[rep] == SlotView::Stream(
            NetStream::Tcp(
                TcpStreamSlot {
                    stream: event->Accepted_0,
                    read_timeout: None,
                    write_timeout: None,
                },
            ),
        ),
        event is Accepted ==> (step == AcceptStep::Done(
            Err::<Option<u32>, ErrorCode>(ErrorCode::Quota),
        ) <==> before.net_stream_count >= 8),
        event is Accepted && before.net_stream_count < 8 ==> (step matches AcceptStep::Done(
            Ok(Some(_)),
        )) || (step matches AcceptStep::Done(Err(ErrorCode::Unknown(reason))) && reason@
            == "resource table: "@ + "resource table has no free keys"@),
        !(step matches AcceptStep::Done(Ok(Some(_)))) ==> slots_of(after.resource_table)
            == slots_of(before.resource_table) && after.net_stream_count
            == before.net_stream_count,
        after == (HostState {
            net_stream_count: after.net_stream_count,
            resource_table: after.resource_table,
            ..before
        }),
        event is Elapsed <==> step == AcceptStep::Done(Ok::<Option<u32>, ErrorCode>(None)),
        event is Cancelled ==> step == AcceptStep::Done(
            Err::<Option<u32>, ErrorCode>(ErrorCode::Closed),
        ),
        event matches AcceptEvent::AcceptFailed(failure) ==> step == AcceptStep::Done(
            Err::<Option<u32>, ErrorCode>(io_code(failure)),
        ),
{
}

/// A lookup gives exactly the safe addresses.
pub proof fn lookups_give_the_safe_addresses(found: Seq<ResolvedAddr>, text: Seq<char>)
    ensures
        safe_texts(found).contains(text) <==> exists|i: int|
            0 <= i < found.len() && (#[trigger] found[i]).safe && found[i].text@ == text,
        safe_texts(found).len() <= found.len(),
        (forall|i: int| 0 <= i < found.len() ==> (#[trigger] found[i]).safe) ==> safe_texts(
            found,
        ).len() == found.len(),
    decreases found.len(),
{
    if found.len() > 0 {
        let front = found.drop_last();
        let rest = safe_texts(front);
        let all = safe_texts(found);
        lookups_give_the_safe_addresses(front, text);
        if all.contains(text) {
            let k = choose|k: int| 0 <= k < all.len() && all[k] == text;
            if k < rest.len() {
                assert(rest[k] == text);
                let i = choose|i: int|
                    0 <= i < front.len() && (#[trigger] front[i]).safe && front[i].text@ == text;
                assert(found[i].safe && found[i].text@ == text);
            } else {
                assert(found[found.len() - 1].safe);
            }
        }
        if exists|i: int| 0 <= i < found.len() && (#[trigger] found[i]).safe && found[i].text@ == text {
            let i = choose|i: int|
                0 <= i < found.len() && (#[trigger] found[i]).safe && found[i].text@ == text;
            if i < front.len() {
                assert(front[i].safe && front[i].text@ == text);
                let k = choose|k: int| 0 <= k < rest.len() && rest[k] == text;
                assert(all[k] == text);
            } else {
                assert(all[all.len() - 1] == text);
            }
        }
        if forall|i: int| 0 <= i < found.len() ==> (#[trigger] found[i]).safe {
            assert forall|i: int| 0 <= i < front.len() implies (#[trigger] front[i]).safe by {
                assert(found[i].safe);
            }
            assert(found[found.len() - 1].safe);
        }
    }
}

/// A code is shown by its name; only a code without one carries its text.
pub proof fn codes_are_shown_by_their_names(code: ErrorCode)
    ensures
        code is CapabilityDenied ==> code_shown(code) == "ErrorCode::CapabilityDenied"@,
        code is AddressNotAvailable ==> code_shown(code) == "ErrorCode::AddressNotAvailable"@,
        code is AddressInUse ==> code_shown(code) == "ErrorCode::AddressInUse"@,
        code is AirlockRejected ==> code_shown(code) == "ErrorCode::AirlockRejected"@,
        code is NameUnresolvable ==> code_shown(code) == "ErrorCode::NameUnresolvable"@,
        code is ConnectionRefused ==> code_shown(code) == "ErrorCode::ConnectionRefused"@,
        code is ConnectionReset ==> code_shown(code) == "ErrorCode::ConnectionReset"@,
        code is Timeout ==> code_shown(code) == "ErrorCode::Timeout"@,
        code is WouldBlock ==> code_shown(code) == "ErrorCode::WouldBlock"@,
        code is Quota ==> code_shown(code) == "ErrorCode::Quota"@,
        code is Closed ==> code_shown(code) == "ErrorCode::Closed"@,
        code is InvalidHandle ==> code_shown(code) == "ErrorCode::InvalidHandle"@,
        code is NotTcp ==> code_shown(code) == "ErrorCode::NotTcp"@,
        code matches ErrorCode::Unknown(text) ==> code_shown(code) == "ErrorCode::Unknown("@
            + debug_str(text@) + ")"@,
{
}

/// A number gives a TCP stream exactly where it stands for one; a Unix stream is
/// told apart from a number that stands for no stream at all.
pub proof fn numbers_give_what_they_stand_for(slots: Map<u32, SlotView>, rep: u32)
    ensures
        tcp_slot(slots, rep) is Ok <==> slots.contains_key(rep) && slots[rep] is Stream
            && slots[rep]->Stream_0 is Tcp,
        tcp_slot(slots, rep) matches Ok(slot) ==> slots[rep] == SlotView::Stream(
            NetStream::Tcp(slot),
        ),
        tcp_slot(slots, rep) == Err::<TcpStreamSlot, ErrorCode>(ErrorCode::NotTcp)
            <==> slots.contains_key(rep) && slots[rep] is Stream && slots[rep]->Stream_0 is Unix,
        tcp_slot(slots, rep) == Err::<TcpStreamSlot, ErrorCode>(ErrorCode::InvalidHandle) <==> !(
        slots.contains_key(rep) && slots[rep] is Stream),
        stream_slot(slots, rep) is Ok <==> slots.contains_key(rep) && slots[rep] is Stream,
{
}

/// A failed attempt is recorded with its error, and an attempt that the security
/// gate refused with the refusal of that very endpoint.
pub proof fn failed_connections_are_recorded_with_their_error(
    before: HostState,
    host: Seq<char>,
    port: u16,
    phase: ConnectPhase,
    event: ConnectEvent,
    next: ConnectPhase,
    code: ErrorCode,
    record: AuditRecord,
    after: HostState,
)
    requires
        connect_next(
            before,
            host,
            port,
            phase,
            event,
            next,
            ConnectStep::Done { result: Err(code), record: Some(record) },
            after,
        ),
    ensures
        record.outcome matches HostAuditOutcome::Failed(reason) ==> reason@ == code_shown(code),
        record.outcome matches HostAuditOutcome::Denied(reason) ==> reason@ == "capsule '"@
            + before.capsule_id@ + "' denied: "@ + ("\""@ + (host + ":"@ + decimal(port as nat))
            + "\" not in net_connect allowlist"@),
        event matches ConnectEvent::ConnectFailed(failure) ==> code == io_code(failure),
{
}

}
