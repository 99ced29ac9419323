//! Calls into other crates, each with the contract that the library relies on.

use dashmap::DashMap;
use std::sync::Arc;
use vstd::prelude::*;
use wasmparser::{ComponentExternalKind, ExternalKind, Parser, Payload};
use wasmtime::component::{Resource, ResourceTable};

use crate::host_state::ConnectionIdentity;
use crate::load::{keys_distinct, value_of};
use crate::net::{push_outcome, NetStream, SlotView, TcpListenerSlot, UnixListenerSlot};
use crate::prescan::{payloads_view, PayloadView, ScanExport, ScanPayload};
use crate::text::texts;

verus! {

/// The outcome of `url::Url::parse` on a text: the host of the URL, if it has
/// one, or the text of the parse error.
pub uninterp spec fn url_host(url: Seq<char>) -> Result<Option<Seq<char>>, Seq<char>>;

/// `url::Url::parse` followed by `url::Url::host_str`. The contract says that
/// the outcome depends on the text alone, under the name `url_host`.
#[verifier::external_body]
pub(crate) fn parse_url_host(url: &str) -> (r: Result<Option<String>, String>)
    ensures
        match r {
            Ok(Some(host)) => url_host(url@) == Ok::<Option<Seq<char>>, Seq<char>>(Some(host@)),
            Ok(None) => url_host(url@) == Ok::<Option<Seq<char>>, Seq<char>>(None),
            Err(e) => url_host(url@) == Err::<Option<Seq<char>>, Seq<char>>(e@),
        },
{
    match url::Url::parse(url) {
        Ok(parsed) => Ok(parsed.host_str().map(|host| host.to_string())),
        Err(e) => Err(e.to_string()),
    }
}

/// The `{:?}` rendering of a list of strings.
pub uninterp spec fn debug_list(list: Seq<Seq<char>>) -> Seq<char>;

/// `format!` with `{:?}` on a `Vec<String>`. The contract says that the
/// rendering depends on the texts alone, under the name `debug_list`.
#[verifier::external_body]
pub(crate) fn debug_strings(list: &Vec<String>) -> (r: String)
    ensures
        r@ == debug_list(texts(list@)),
{
    format!("{:?}", list)
}

/// How the standard library shows a text for debugging.
pub uninterp spec fn debug_str(text: Seq<char>) -> Seq<char>;

/// The standard `Debug` form of a text. The contract says that it depends on
/// the text alone, under the name `debug_str`.
#[verifier::external_body]
pub(crate) fn debug_text(text: &str) -> (r: String)
    ensures
        r@ == debug_str(text@),
{
    format!("{:?}", text)
}

/// Whether `semver::Version::parse` accepts a text.
pub uninterp spec fn semver_version_parses(text: Seq<char>) -> bool;

/// `semver::Version::parse`, asked only whether it succeeds. The contract says
/// that the answer depends on the text alone, under the name
/// `semver_version_parses`.
#[verifier::external_body]
pub(crate) fn version_parses(text: &str) -> (r: bool)
    ensures
        r == semver_version_parses(text@),
{
    semver::Version::parse(text).is_ok()
}

/// The text of the error of `semver::VersionReq::parse`, if it refuses a text.
pub uninterp spec fn semver_req_error(text: Seq<char>) -> Option<Seq<char>>;

/// `semver::VersionReq::parse`, asked only for its error. The contract says
/// that the answer depends on the text alone, under the name
/// `semver_req_error`.
#[verifier::external_body]
pub(crate) fn version_req_error(text: &str) -> (r: Option<String>)
    ensures
        match r {
            Some(e) => semver_req_error(text@) == Some(e@),
            None => semver_req_error(text@) is None,
        },
{
    match semver::VersionReq::parse(text) {
        Ok(_) => None,
        Err(e) => Some(e.to_string()),
    }
}

/// Whether `semver::VersionReq::matches` finds a version inside a requirement.
pub uninterp spec fn semver_req_matches(req: Seq<char>, version: Seq<char>) -> bool;

/// `semver::VersionReq::matches` on a requirement and a version that both
/// parse. The contract says that the answer depends on the two texts alone,
/// under the name `semver_req_matches`.
#[verifier::external_body]
pub(crate) fn version_req_matches(req: &str, version: &str) -> (r: bool)
    requires
        semver_req_error(req@) is None,
        semver_version_parses(version@),
    ensures
        r == semver_req_matches(req@, version@),
{
    let wanted = semver::VersionReq::parse(req).unwrap();
    wanted.matches(&semver::Version::parse(version).unwrap())
}

/// The pieces that `wasmparser::Parser::parse_all` finds in a binary, with the
/// entries of its export sections.
pub uninterp spec fn wasm_payloads(bytes: Seq<u8>) -> Seq<PayloadView>;

/// `wasmparser::Parser::parse_all`, with every export section of a module or
/// component read to its end. The contract says that the pieces depend on the
/// bytes alone, under the name `wasm_payloads`.
#[verifier::external_body]
pub(crate) fn scan_wasm(bytes: &[u8]) -> (r: Vec<ScanPayload>)
    ensures
        payloads_view(r@) == wasm_payloads(bytes@),
{
    Parser::new(0).parse_all(bytes).map(|payload| match payload {
        Ok(Payload::ExportSection(s)) => ScanPayload::Exports(s.into_iter().map_while(|e| Some(e.ok().map(|e|
            ScanExport { name: e.name.to_string(), is_func: e.kind == ExternalKind::Func, index: e.index }
        ))).collect()),
        Ok(Payload::ComponentExportSection(s)) => ScanPayload::Exports(s.into_iter().map_while(|e| Some(e.ok().map(|e|
            ScanExport { name: e.name.name.to_string(), is_func: e.kind == ComponentExternalKind::Func, index: e.index }
        ))).collect()),
        Ok(_) => ScanPayload::Other,
        Err(_) => ScanPayload::Failure,
    }).collect()
}

/// The string that a JSON document holds under a key of its top-level object.
pub uninterp spec fn json_string_member(text: Seq<char>, key: Seq<char>) -> Option<Seq<char>>;

/// `serde_json::from_str` to a `serde_json::Value`, then `Value::get` and
/// `Value::as_str`. The contract says that the outcome depends on the text and
/// the key alone, under the name `json_string_member`; it is `None` where the
/// text does not parse, the key is missing or the value is no string.
#[verifier::external_body]
pub(crate) fn json_member(text: &str, key: &str) -> (r: Option<String>)
    ensures
        match r {
            Some(value) => json_string_member(text@, key@) == Some(value@),
            None => json_string_member(text@, key@) is None,
        },
{
    let value: serde_json::Value = serde_json::from_str(text).ok()?;
    value.get(key)?.as_str().map(|s| s.to_string())
}

/// The lower-case hexadecimal BLAKE3 hash of a byte sequence.
pub uninterp spec fn blake3_hex(bytes: Seq<u8>) -> Seq<char>;

/// `blake3::hash` and `blake3::Hash::to_hex`. The contract says that the text
/// depends on the bytes alone, under the name `blake3_hex`.
#[verifier::external_body]
pub(crate) fn blake3_hash(bytes: &[u8]) -> (r: String)
    ensures
        r@ == blake3_hex(bytes@),
{
    blake3::hash(bytes).to_hex().to_string()
}

/// The version-5 UUID of a name within a namespace.
pub uninterp spec fn uuid_v5(namespace: u128, name: Seq<u8>) -> u128;

/// `uuid::Uuid::new_v5`, on UUIDs as 128-bit numbers. The contract says that
/// the result depends on the namespace and the name alone, under the name
/// `uuid_v5`.
#[verifier::external_body]
pub(crate) fn new_uuid_v5(namespace: u128, name: &[u8]) -> (r: u128)
    ensures
        r == uuid_v5(namespace, name@),
{
    uuid::Uuid::new_v5(&uuid::Uuid::from_u128(namespace), name).as_u128()
}

/// `dashmap::DashMap`, a concurrent map. Nothing is known of its inside.
#[verifier::external_type_specification]
#[verifier::external_body]
#[verifier::reject_recursive_types(K)]
#[verifier::reject_recursive_types(V)]
#[verifier::reject_recursive_types(S)]
pub struct ExDashMap<K, V, S>(dashmap::DashMap<K, V, S>);

/// `tokio::net::TcpListener`, a bound socket. It is only carried.
#[verifier::external_type_specification]
#[verifier::external_body]
pub struct ExTcpListener(tokio::net::TcpListener);

/// What a registry of connection identities holds: for each stream the
/// principal and the device.
pub uninterp spec fn identities_of(map: DashMap<u32, ConnectionIdentity>) -> Map<
    u32,
    (Seq<char>, Option<Seq<char>>),
>;

/// `dashmap::DashMap::new` for connection identities. The contract says that
/// the map is empty.
#[verifier::external_body]
pub(crate) fn new_identity_map() -> (r: DashMap<u32, ConnectionIdentity>)
    ensures
        identities_of(r).dom() == Set::<u32>::empty(),
{
    DashMap::new()
}

/// `dashmap::DashMap::insert` for connection identities. The contract says
/// that the key gets the value and no other key changes.
#[verifier::external_body]
pub(crate) fn insert_identity(
    map: &mut DashMap<u32, ConnectionIdentity>,
    rep: u32,
    identity: ConnectionIdentity,
)
    ensures
        identities_of(*final(map)) == identities_of(*old(map)).insert(rep, identity@),
{
    map.insert(rep, identity);
}

/// `dashmap::DashMap::get` for connection identities, with the fields of the
/// entry cloned out. The contract says that it is the value of the key, or `None` where the
/// map has no such key.
#[verifier::external_body]
pub(crate) fn get_identity(map: &DashMap<u32, ConnectionIdentity>, rep: u32) -> (r: Option<
    ConnectionIdentity,
>)
    ensures
        match r {
            Some(identity) => identities_of(*map).contains_key(rep) && identities_of(*map)[rep]
                == identity@,
            None => !identities_of(*map).contains_key(rep),
        },
{
    map.get(&rep).map(|entry| ConnectionIdentity {
        principal: entry.principal.clone(),
        device_key_id: entry.device_key_id.clone(),
    })
}

/// `dashmap::DashMap::remove` for connection identities. The contract says
/// that the key is gone and no other key changes.
#[verifier::external_body]
pub(crate) fn remove_identity(map: &mut DashMap<u32, ConnectionIdentity>, rep: u32)
    ensures
        identities_of(*final(map)) == identities_of(*old(map)).remove(rep),
{
    map.remove(&rep);
}

/// What a registry of client connections holds: for each stream the principal.
pub uninterp spec fn clients_of(map: DashMap<u32, String>) -> Map<u32, Seq<char>>;

/// `dashmap::DashMap::new` for client connections. The contract says that the
/// map is empty.
#[verifier::external_body]
pub(crate) fn new_client_map() -> (r: DashMap<u32, String>)
    ensures
        clients_of(r).dom() == Set::<u32>::empty(),
{
    DashMap::new()
}

/// What a registry of shared listeners holds: for each host and port the
/// listener.
pub uninterp spec fn listeners_of(map: DashMap<(String, u16), Arc<tokio::net::TcpListener>>) -> Map<
    (Seq<char>, u16),
    Arc<tokio::net::TcpListener>,
>;

/// `dashmap::DashMap::new` for shared listeners. The contract says that the
/// map is empty.
#[verifier::external_body]
pub(crate) fn new_listener_map() -> (r: DashMap<(String, u16), Arc<tokio::net::TcpListener>>)
    ensures
        listeners_of(r).dom() == Set::<(Seq<char>, u16)>::empty(),
{
    DashMap::new()
}

/// `dashmap::DashMap::insert` for shared listeners. The contract says that the
/// key gets the value and no other key changes.
#[verifier::external_body]
pub(crate) fn insert_listener(
    map: &mut DashMap<(String, u16), Arc<tokio::net::TcpListener>>,
    host: &str,
    port: u16,
    listener: Arc<tokio::net::TcpListener>,
)
    ensures
        listeners_of(*final(map)) == listeners_of(*old(map)).insert((host@, port), listener),
{
    map.insert((host.to_string(), port), listener);
}

/// `dashmap::DashMap::get` for shared listeners, with the handle of the entry
/// cloned out. The contract says that it is the value of the key, or `None`
/// where the map has no such key.
#[verifier::external_body]
pub(crate) fn get_listener(
    map: &DashMap<(String, u16), Arc<tokio::net::TcpListener>>,
    host: &str,
    port: u16,
) -> (r: Option<Arc<tokio::net::TcpListener>>)
    ensures
        match r {
            Some(listener) => listeners_of(*map).contains_key((host@, port))
                && listeners_of(*map)[(host@, port)] == listener,
            None => !listeners_of(*map).contains_key((host@, port)),
        },
{
    map.get(&(host.to_string(), port)).map(|entry| Arc::clone(entry.value()))
}

/// `uuid::Uuid::new_v4`, as a 128-bit number. The result is random, so nothing
/// is said of it.
#[verifier::external_body]
pub(crate) fn new_uuid_v4() -> (r: u128) {
    uuid::Uuid::new_v4().as_u128()
}

/// The object of strings that a JSON document is, if it is one.
pub uninterp spec fn json_string_object(text: Seq<char>) -> Option<Map<Seq<char>, Seq<char>>>;

/// `serde_json::from_str` to a `HashMap<String, String>`, as a list of its
/// entries. The contract says that the entries depend on the text alone, under
/// the name `json_string_object`, and that no key occurs twice; the order of
/// the entries is left open.
#[verifier::external_body]
pub(crate) fn json_strings(text: &str) -> (r: Option<Vec<(String, String)>>)
    ensures
        match r {
            Some(pairs) => json_string_object(text@) is Some && keys_distinct(pairs@) && forall|
                k: Seq<char>,
            | #[trigger]
                value_of(pairs@, k) == if json_string_object(text@)->0.contains_key(k) {
                    Some(json_string_object(text@)->0[k])
                } else {
                    None
                },
            None => json_string_object(text@) is None,
        },
{
    let object: std::collections::HashMap<String, String> = serde_json::from_str(text).ok()?;
    Some(object.into_iter().collect())
}

/// `serde_json::Value`, a JSON value. It is only carried.
#[verifier::external_type_specification]
#[verifier::external_body]
pub struct ExJsonValue(serde_json::Value);

/// `wasmtime::component::ResourceTable`, a table of numbered entries. Nothing is
/// known of its inside.
#[verifier::external_type_specification]
#[verifier::external_body]
pub struct ExResourceTable(ResourceTable);

/// `tokio::net::TcpStream`, an open connection. It is only carried.
#[verifier::external_type_specification]
#[verifier::external_body]
pub struct ExTcpStream(tokio::net::TcpStream);

/// `tokio::net::UnixStream`, an open connection. It is only carried.
#[verifier::external_type_specification]
#[verifier::external_body]
pub struct ExUnixStream(tokio::net::UnixStream);

/// `tokio::sync::Mutex`, a lock. It is only carried.
#[verifier::external_type_specification]
#[verifier::external_body]
#[verifier::reject_recursive_types(T)]
pub struct ExTokioMutex<T: ?Sized>(tokio::sync::Mutex<T>);

/// What a table of resources holds under each number.
pub uninterp spec fn slots_of(table: ResourceTable) -> Map<u32, SlotView>;

/// How many entries a table of resources may hold.
pub uninterp spec fn capacity_of(table: ResourceTable) -> usize;

/// `wasmtime::component::ResourceTable::new`. The contract says that the table
/// is empty and may hold a million entries.
#[verifier::external_body]
pub(crate) fn new_table() -> (r: ResourceTable)
    ensures
        slots_of(r).dom() == Set::<u32>::empty(),
        capacity_of(r) == 1_000_000,
{
    ResourceTable::new()
}

/// `wasmtime::component::ResourceTable::push` for a stream. The contract says
/// that a number which stood for nothing now stands for it, that nothing else
/// changes, and that this succeeds while the table holds fewer entries than it
/// may; a table without free numbers is left as it was, with that error's text.
#[verifier::external_body]
pub(crate) fn push_stream(table: &mut ResourceTable, stream: NetStream) -> (r: Result<
    u32,
    String,
>)
    ensures
        push_outcome(
            slots_of(*old(table)),
            capacity_of(*old(table)),
            r,
            slots_of(*final(table)),
            SlotView::Stream(stream),
        ),
        capacity_of(*final(table)) == capacity_of(*old(table)),
{
    table.push(stream).map(|r| r.rep()).map_err(|e| e.to_string())
}

/// `wasmtime::component::ResourceTable::push` for a TCP listener. The contract says
/// that a number which stood for nothing now stands for it, that nothing else
/// changes, and that this succeeds while the table holds fewer entries than it
/// may; a table without free numbers is left as it was, with that error's text.
#[verifier::external_body]
pub(crate) fn push_tcp_listener(table: &mut ResourceTable, slot: TcpListenerSlot) -> (r: Result<
    u32,
    String,
>)
    ensures
        push_outcome(
            slots_of(*old(table)),
            capacity_of(*old(table)),
            r,
            slots_of(*final(table)),
            SlotView::TcpListener(slot),
        ),
        capacity_of(*final(table)) == capacity_of(*old(table)),
{
    table.push(slot).map(|r| r.rep()).map_err(|e| e.to_string())
}

/// `wasmtime::component::ResourceTable::push` for a handle of the Unix listener. The contract says
/// that a number which stood for nothing now stands for it, that nothing else
/// changes, and that this succeeds while the table holds fewer entries than it
/// may; a table without free numbers is left as it was, with that error's text.
#[verifier::external_body]
pub(crate) fn push_unix_listener(table: &mut ResourceTable, slot: UnixListenerSlot) -> (r: Result<
    u32,
    String,
>)
    ensures
        push_outcome(
            slots_of(*old(table)),
            capacity_of(*old(table)),
            r,
            slots_of(*final(table)),
            SlotView::UnixListener,
        ),
        capacity_of(*final(table)) == capacity_of(*old(table)),
{
    table.push(slot).map(|r| r.rep()).map_err(|e| e.to_string())
}

/// `wasmtime::component::ResourceTable::get` for a stream. The contract says
/// that it is the stream under the number, or `None` where the number stands
/// for nothing or for something else.
#[verifier::external_body]
pub(crate) fn stream_at(table: &ResourceTable, rep: u32) -> (r: Option<&NetStream>)
    ensures
        match r {
            Some(stream) => slots_of(*table).contains_key(rep) && slots_of(*table)[rep]
                == SlotView::Stream(*stream),
            None => !(slots_of(*table).contains_key(rep) && slots_of(*table)[rep] is Stream),
        },
{
    table.get::<NetStream>(&Resource::new_borrow(rep)).ok()
}

/// `wasmtime::component::ResourceTable::get_mut` for a stream. The contract says
/// that it is the stream under the number, that what is written to it is under
/// the number afterwards, and that nothing else changes; or `None` where the
/// number stands for nothing or for something else.
#[verifier::external_body]
pub(crate) fn stream_at_mut(table: &mut ResourceTable, rep: u32) -> (r: Option<&mut NetStream>)
    ensures
        match r {
            Some(stream) => slots_of(*old(table)).contains_key(rep) && slots_of(*old(table))[rep]
                == SlotView::Stream(*stream) && slots_of(*final(table)) == slots_of(
                *old(table),
            ).insert(rep, SlotView::Stream(*final(stream))),
            None => !(slots_of(*old(table)).contains_key(rep) && slots_of(*old(table))[rep]
                is Stream) && slots_of(*final(table)) == slots_of(*old(table)),
        },
        capacity_of(*final(table)) == capacity_of(*old(table)),
{
    table.get_mut::<NetStream>(&Resource::new_borrow(rep)).ok()
}

/// `wasmtime::component::ResourceTable::get` for a TCP listener. The contract
/// says that it is the listener under the number, or `None` where the number
/// stands for nothing or for something else.
#[verifier::external_body]
pub(crate) fn listener_at(table: &ResourceTable, rep: u32) -> (r: Option<&TcpListenerSlot>)
    ensures
        match r {
            Some(slot) => slots_of(*table).contains_key(rep) && slots_of(*table)[rep]
                == SlotView::TcpListener(*slot),
            None => !(slots_of(*table).contains_key(rep) && slots_of(*table)[rep] is TcpListener),
        },
{
    table.get::<TcpListenerSlot>(&Resource::new_borrow(rep)).ok()
}

}
