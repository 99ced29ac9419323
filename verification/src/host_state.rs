//! The state behind a capsule instance's host calls.
//!
//! An instance may serve many principals. What it was loaded with is neutral
//! and holds nobody's data; whatever belongs to a principal is installed for
//! one invocation and cleared after it.

use dashmap::DashMap;
use std::sync::Arc;
use vstd::prelude::*;
use wasmtime::component::ResourceTable;
use vstd::string::*;

use crate::budget::PrincipalProfile;
use crate::capabilities::copy_texts;
use crate::foreign::{
    clients_of, get_identity, get_listener, identities_of, insert_identity, insert_listener,
    listeners_of, new_client_map, new_identity_map, new_listener_map, new_table, new_uuid_v4,
    remove_identity, slots_of,
};
use crate::load::{InterceptorHandle, LoadPlan};
use crate::security::ManifestSecurityGate;
use crate::text::{same, texts};

verus! {

/// The principal that a runtime is loaded under.
pub const DEFAULT_PRINCIPAL: &'static str = "default";

/// The key-value namespace that holds nobody's data.
pub const NEUTRAL_KV_NAMESPACE: &'static str = "astrid:neutral";

/// The topics that a hook may publish.
pub const HOOK_PUBLISH_PATTERN: &'static str = "hook.v1.result.*";

/// A verified identity of a connection: its principal, and the device that it
/// was authenticated with, if one was.
#[derive(Debug, Clone)]
pub struct ConnectionIdentity {
    pub principal: String,
    pub device_key_id: Option<String>,
}

/// The text of an optional string.
pub open spec fn text_of(s: Option<String>) -> Option<Seq<char>> {
    match s {
        Some(x) => Some(x@),
        None => None,
    }
}

/// The text of an optional string slice.
pub open spec fn str_text(s: Option<&str>) -> Option<Seq<char>> {
    match s {
        Some(x) => Some(x@),
        None => None,
    }
}

impl View for ConnectionIdentity {
    type V = (Seq<char>, Option<Seq<char>>);

    open spec fn view(&self) -> (Seq<char>, Option<Seq<char>>) {
        (self.principal@, text_of(self.device_key_id))
    }
}

/// The message that an invocation answers. The principal is absent where the
/// message names none that is valid.
#[derive(Debug, Clone)]
pub struct CallerContext {
    pub principal: Option<String>,
}

/// A directory mounted for a principal.
#[derive(Debug, Clone)]
pub struct PrincipalMount {
    pub root: String,
}

/// The home and temporary directories of a principal.
#[derive(Debug)]
pub struct PrincipalVfsBundle {
    pub home: Option<PrincipalMount>,
    pub tmp: Option<PrincipalMount>,
}

/// What belongs to the owner of a run loop, as far as it was found.
#[derive(Debug)]
pub struct OwnerContext {
    /// The environment of the capsule for the owner.
    pub env: Option<Vec<(String, String)>>,
    /// Whether the key-value scope of [`principal_namespace`] could be made.
    pub kv_ok: bool,
    /// The owner's log, by number.
    pub log: Option<u64>,
    pub bundle: PrincipalVfsBundle,
}

/// A step of a capsule's life.
#[derive(Debug, Clone, Copy, PartialEq, Eq, Structural)]
pub enum LifecyclePhase {
    Install,
    Upgrade,
}

/// The cancellation tokens of principals, by number. A token that was handed
/// out once is never handed out for anything else.
#[derive(Debug)]
pub struct CancelTokens {
    entries: Vec<(String, u64)>,
    next: u64,
}

impl CancelTokens {
    #[verifier::type_invariant]
    spec fn distinct(self) -> bool {
        &&& forall|i: int, j: int|
            0 <= i < j < self.entries@.len() ==> (#[trigger] self.entries@[i]).0@ != (
            #[trigger] self.entries@[j]).0@
        &&& forall|i: int| 0 <= i < self.entries@.len() ==> (#[trigger] self.entries@[i]).1 < self.next
    }

    /// The token of a principal.
    pub closed spec fn token_of(&self, principal: Seq<char>) -> Option<u64> {
        if exists|i: int| 0 <= i < self.entries@.len() && (#[trigger] self.entries@[i]).0@ == principal {
            let i = choose|i: int|
                0 <= i < self.entries@.len() && (#[trigger] self.entries@[i]).0@ == principal;
            Some(self.entries@[i].1)
        } else {
            None
        }
    }

    /// Every token up to this number was handed out already.
    pub closed spec fn handed_out(&self) -> u64 {
        self.next
    }

    proof fn lemma_token_at(&self, i: int)
        requires
            self.distinct(),
            0 <= i < self.entries@.len(),
        ensures
            self.token_of(self.entries@[i].0@) == Some(self.entries@[i].1),
    {
        let p = self.entries@[i].0@;
        let j = choose|j: int| 0 <= j < self.entries@.len() && (#[trigger] self.entries@[j]).0@ == p;
        assert(self.entries@[i].0@ == p);
        if j < i {
            assert(self.entries@[j].0@ != self.entries@[i].0@);
        } else if i < j {
            assert(self.entries@[i].0@ != self.entries@[j].0@);
        }
    }

    /// No tokens.
    pub fn new() -> (r: CancelTokens)
        ensures
            forall|p: Seq<char>| #[trigger] r.token_of(p) is None,
            r.handed_out() == 0,
    {
        CancelTokens { entries: Vec::new(), next: 0 }
    }

    /// Whether every number was handed out.
    pub fn exhausted(&self) -> (r: bool)
        ensures
            r == (self.handed_out() == u64::MAX),
    {
        self.next == u64::MAX
    }

    fn position(&self, principal: &str) -> (r: Option<usize>)
        ensures
            match r {
                Some(i) => i < self.entries@.len() && self.entries@[i as int].0@ == principal@
                    && self.token_of(principal@) == Some(self.entries@[i as int].1),
                None => self.token_of(principal@) is None && forall|i: int|
                    0 <= i < self.entries@.len() ==> (#[trigger] self.entries@[i]).0@ != principal@,
            },
    {
        proof {
            use_type_invariant(self);
        }
        for i in 0..self.entries.len()
            invariant
                self.distinct(),
                forall|j: int| 0 <= j < i ==> (#[trigger] self.entries@[j]).0@ != principal@,
        {
            if same(self.entries[i].0.as_str(), principal) {
                proof {
                    self.lemma_token_at(i as int);
                }
                return Some(i);
            }
        }
        None
    }

    /// The token of a principal, made if there is none.
    pub fn token_for(&mut self, principal: &str) -> (r: u64)
        requires
            old(self).handed_out() < u64::MAX,
        ensures
            match old(self).token_of(principal@) {
                Some(token) => r == token && final(self).handed_out() == old(self).handed_out(),
                None => r == old(self).handed_out() && final(self).handed_out() == r + 1,
            },
            final(self).token_of(principal@) == Some(r),
            forall|p: Seq<char>|
                p != principal@ ==> #[trigger] final(self).token_of(p) == old(self).token_of(p),
    {
        proof {
            use_type_invariant(&*self);
        }
        match self.position(principal) {
            Some(i) => self.entries[i].1,
            None => {
                let token: u64 = self.next;
                let ghost before = *self;
                let mut entries: Vec<(String, u64)> = Vec::new();
                std::mem::swap(&mut entries, &mut self.entries);
                entries.push((principal.to_owned(), token));
                *self = CancelTokens { entries, next: token + 1 };
                proof {
                    let n = before.entries@.len() as int;
                    self.lemma_token_at(n);
                    assert forall|p: Seq<char>| p != principal@ implies #[trigger] self.token_of(p)
                        == before.token_of(p) by {
                        if exists|i: int| 0 <= i < n && (#[trigger] before.entries@[i]).0@ == p {
                            let i = choose|i: int| 0 <= i < n && (#[trigger] before.entries@[i]).0@ == p;
                            assert(self.entries@[i] == before.entries@[i]);
                            before.lemma_token_at(i);
                            self.lemma_token_at(i);
                        } else {
                            assert forall|i: int| 0 <= i < self.entries@.len() implies (
                            #[trigger] self.entries@[i]).0@ != p by {
                                if i < n {
                                    assert(self.entries@[i] == before.entries@[i]);
                                }
                            }
                        }
                    }
                }
                token
            },
        }
    }

    /// Removes the token of a principal and returns it for cancelling. A
    /// principal without one is left alone. The next token of the principal is
    /// a fresh one.
    pub fn cancel(&mut self, principal: &str) -> (r: Option<u64>)
        ensures
            r == old(self).token_of(principal@),
            r matches Some(token) ==> token < final(self).handed_out(),
            final(self).token_of(principal@) is None,
            final(self).handed_out() == old(self).handed_out(),
            forall|p: Seq<char>|
                p != principal@ ==> #[trigger] final(self).token_of(p) == old(self).token_of(p),
    {
        proof {
            use_type_invariant(&*self);
        }
        match self.position(principal) {
            None => None,
            Some(at) => {
                let token: u64 = self.entries[at].1;
                let ghost before = *self;
                let mut entries: Vec<(String, u64)> = Vec::new();
                std::mem::swap(&mut entries, &mut self.entries);
                entries.remove(at);
                let next: u64 = self.next;
                proof {
                    let a = at as int;
                    assert forall|i: int| 0 <= i < entries@.len() implies #[trigger] entries@[i]
                        == before.entries@[if i < a {
                        i
                    } else {
                        i + 1
                    }] by {}
                    assert forall|i: int, j: int| 0 <= i < j < entries@.len() implies (
                    #[trigger] entries@[i]).0@ != (#[trigger] entries@[j]).0@ by {
                        let x = if i < a {
                            i
                        } else {
                            i + 1
                        };
                        let y = if j < a {
                            j
                        } else {
                            j + 1
                        };
                        assert(before.entries@[x].0@ != before.entries@[y].0@);
                    }
                }
                *self = CancelTokens { entries, next };
                proof {
                    let a = at as int;
                    let n = before.entries@.len() as int;
                    assert forall|i: int| 0 <= i < self.entries@.len() implies (
                    #[trigger] self.entries@[i]).0@ != principal@ by {
                        let x = if i < a {
                            i
                        } else {
                            i + 1
                        };
                        assert(self.entries@[i] == before.entries@[x]);
                        if x < a {
                            assert(before.entries@[x].0@ != before.entries@[a].0@);
                        } else {
                            assert(before.entries@[a].0@ != before.entries@[x].0@);
                        }
                    }
                    assert forall|p: Seq<char>| p != principal@ implies #[trigger] self.token_of(p)
                        == before.token_of(p) by {
                        if exists|i: int| 0 <= i < n && (#[trigger] before.entries@[i]).0@ == p {
                            let i = choose|i: int| 0 <= i < n && (#[trigger] before.entries@[i]).0@ == p;
                            let x = if i < a {
                                i
                            } else {
                                i - 1
                            };
                            assert(i != a);
                            assert(self.entries@[x] == before.entries@[i]);
                            before.lemma_token_at(i);
                            self.lemma_token_at(x);
                        } else {
                            assert forall|i: int| 0 <= i < self.entries@.len() implies (
                            #[trigger] self.entries@[i]).0@ != p by {
                                let x = if i < a {
                                    i
                                } else {
                                    i + 1
                                };
                                assert(self.entries@[i] == before.entries@[x]);
                            }
                        }
                    }
                }
                Some(token)
            },
        }
    }
}

/// The verified identities of a capsule's open connections. All its instances
/// share one registry, because a connection that one of them accepted may be
/// served by another.
#[derive(Debug)]
pub struct ConnectionRegistry {
    /// It is private, so that it changes through the methods below alone.
    connection_principals: DashMap<u32, ConnectionIdentity>,
}

impl ConnectionRegistry {
    /// The verified identities: for each connection its principal and device.
    pub closed spec fn identities(&self) -> Map<u32, (Seq<char>, Option<Seq<char>>)> {
        identities_of(self.connection_principals)
    }

    /// A registry without connections.
    pub fn new() -> (r: ConnectionRegistry)
        ensures
            r.identities().dom() == Set::<u32>::empty(),
    {
        ConnectionRegistry { connection_principals: HostState::new_connection_principals() }
    }

    /// Binds a verified identity to a connection.
    pub fn bind_connection_principal(
        &mut self,
        rep: u32,
        principal: String,
        device_key_id: Option<String>,
    )
        ensures
            final(self).identities() == old(self).identities().insert(
                rep,
                (principal@, text_of(device_key_id)),
            ),
    {
        insert_identity(
            &mut self.connection_principals,
            rep,
            ConnectionIdentity { principal, device_key_id },
        );
    }

    /// The verified principal of a connection.
    pub fn connection_principal(&self, rep: u32) -> (r: Option<String>)
        ensures
            match r {
                Some(p) => self.identities().contains_key(rep) && self.identities()[rep].0 == p@,
                None => !self.identities().contains_key(rep),
            },
    {
        match get_identity(&self.connection_principals, rep) {
            Some(identity) => Some(identity.principal),
            None => None,
        }
    }

    /// The device that a connection was authenticated with, if it was with one.
    pub fn connection_device(&self, rep: u32) -> (r: Option<String>)
        ensures
            text_of(r) == if self.identities().contains_key(rep) {
                self.identities()[rep].1
            } else {
                None
            },
    {
        match get_identity(&self.connection_principals, rep) {
            Some(identity) => identity.device_key_id,
            None => None,
        }
    }

    /// Removes the identity of a connection.
    pub fn unbind_connection_principal(&mut self, rep: u32)
        ensures
            final(self).identities() == old(self).identities().remove(rep),
    {
        remove_identity(&mut self.connection_principals, rep);
    }
}

/// The bound listeners of a capsule. Its workers share one registry, so that
/// all of them accept on one listener for a host and a port. A capsule with a
/// single worker has nobody to share with: it binds every listener afresh.
#[derive(Debug)]
pub struct SharedListeners {
    /// Whether there is more than one worker.
    shared: bool,
    /// It is private, so that it changes through the methods below alone.
    listeners: DashMap<(String, u16), Arc<tokio::net::TcpListener>>,
}

impl SharedListeners {
    /// Whether there is more than one worker.
    pub closed spec fn is_shared(&self) -> bool {
        self.shared
    }

    /// The listener that is bound to a host and a port.
    pub closed spec fn registered(&self, host: Seq<char>, port: u16) -> Option<
        Arc<tokio::net::TcpListener>,
    > {
        if self.shared && listeners_of(self.listeners).contains_key((host, port)) {
            Some(listeners_of(self.listeners)[(host, port)])
        } else {
            None
        }
    }

    /// Without anybody to share with, no listener is registered.
    pub proof fn unshared_registers_nothing(&self, host: Seq<char>, port: u16)
        ensures
            !self.is_shared() ==> self.registered(host, port) is None,
    {
    }

    /// A registry without listeners, for this many workers.
    pub fn new(workers: usize) -> (r: SharedListeners)
        ensures
            r.is_shared() == (workers > 1),
            forall|host: Seq<char>, port: u16| #[trigger] r.registered(host, port) is None,
    {
        SharedListeners { shared: workers > 1, listeners: HostState::new_shared_listeners() }
    }

    /// The listener that is bound to a host and a port.
    pub fn find(&self, host: &str, port: u16) -> (r: Option<Arc<tokio::net::TcpListener>>)
        ensures
            r == self.registered(host@, port),
    {
        if self.shared {
            get_listener(&self.listeners, host, port)
        } else {
            None
        }
    }

    /// Registers a listener, if there is anybody to share it with.
    pub fn register(&mut self, host: &str, port: u16, listener: Arc<tokio::net::TcpListener>)
        ensures
            registers(*old(self), *final(self), host@, port, listener),
    {
        if self.shared {
            insert_listener(&mut self.listeners, host, port, listener);
        }
    }
}

/// Whether a registry became another one by registering a listener.
pub open spec fn registers(
    before: SharedListeners,
    after: SharedListeners,
    host: Seq<char>,
    port: u16,
    listener: Arc<tokio::net::TcpListener>,
) -> bool {
    &&& after.is_shared() == before.is_shared()
    &&& after.registered(host, port) == if before.is_shared() {
        Some(listener)
    } else {
        None
    }
    &&& forall|h: Seq<char>, p: u16|
        (h, p) != (host, port) ==> #[trigger] after.registered(h, p) == before.registered(h, p)
}

/// What was bound to a connection is read back, whatever was bound before;
/// other connections are not touched; and what was unbound is gone.
pub proof fn bindings_round_trip(
    before: ConnectionRegistry,
    bound: ConnectionRegistry,
    unbound: ConnectionRegistry,
    rep: u32,
    other: u32,
    identity: (Seq<char>, Option<Seq<char>>),
)
    requires
        bound.identities() == before.identities().insert(rep, identity),
        unbound.identities() == bound.identities().remove(rep),
        other != rep,
    ensures
        bound.identities().contains_key(rep),
        bound.identities()[rep] == identity,
        bound.identities().contains_key(other) == before.identities().contains_key(other),
        before.identities().contains_key(other) ==> bound.identities()[other]
            == before.identities()[other],
        !unbound.identities().contains_key(rep),
        unbound.identities().contains_key(other) == before.identities().contains_key(other),
{
}

/// The key-value namespace of a capsule for a principal.
pub open spec fn namespace_of(principal: Seq<char>, capsule_id: Seq<char>) -> Seq<char> {
    principal + ":capsule:"@ + capsule_id
}

/// The key-value namespace of a capsule for a principal.
pub fn principal_namespace(principal: &str, capsule_id: &str) -> (r: String)
    ensures
        r@ == namespace_of(principal@, capsule_id@),
{
    let mut r = principal.to_owned();
    r.append(":capsule:");
    r.append(capsule_id);
    r
}

/// The keychain service of a capsule for a principal.
pub open spec fn secret_service_of(principal: Seq<char>, capsule_id: Seq<char>) -> Seq<char> {
    capsule_id + ":"@ + principal
}

fn secret_service(principal: &str, capsule_id: &str) -> (r: String)
    ensures
        r@ == secret_service_of(principal@, capsule_id@),
{
    let mut r = capsule_id.to_owned();
    r.append(":");
    r.append(principal);
    r
}

/// Two principals never share a namespace or a keychain service of a capsule.
pub proof fn principals_are_isolated(a: Seq<char>, b: Seq<char>, capsule_id: Seq<char>)
    requires
        a != b,
    ensures
        namespace_of(a, capsule_id) != namespace_of(b, capsule_id),
        secret_service_of(a, capsule_id) != secret_service_of(b, capsule_id),
{
    let tail = ":capsule:"@ + capsule_id;
    let head = capsule_id + ":"@;
    let x = namespace_of(a, capsule_id);
    let y = namespace_of(b, capsule_id);
    if x == y {
        assert(x =~= a + tail && y =~= b + tail);
        assert(a.len() == b.len());
        assert(a =~= x.take(a.len() as int));
        assert(b =~= y.take(b.len() as int));
    }
    let s = secret_service_of(a, capsule_id);
    let t = secret_service_of(b, capsule_id);
    if s == t {
        assert(s =~= head + a && t =~= head + b);
        assert(a =~= s.skip(head.len() as int));
        assert(b =~= t.skip(head.len() as int));
    }
}

/// The neutral namespace is nobody's namespace of any capsule.
pub proof fn neutral_namespace_is_nobodys(principal: Seq<char>, capsule_id: Seq<char>)
    ensures
        namespace_of(principal, capsule_id) != NEUTRAL_KV_NAMESPACE@,
{
    reveal_strlit("astrid:neutral");
    reveal_strlit(":capsule:");
    let n = principal.len() as int;
    let ns = namespace_of(principal, capsule_id);
    if ns == NEUTRAL_KV_NAMESPACE@ {
        assert(":capsule:"@.len() == 9);
        assert(NEUTRAL_KV_NAMESPACE@ == "astrid:neutral"@);
        assert(ns.len() == 14);
        assert(ns.len() == n + 9 + capsule_id.len());
        assert(ns[n] == ':');
        assert(n <= 5);
        let lit = "astrid:neutral"@;
        assert(lit[0] != ':' && lit[1] != ':' && lit[2] != ':' && lit[3] != ':' && lit[4] != ':'
            && lit[5] != ':');
        assert(n == 0 || n == 1 || n == 2 || n == 3 || n == 4 || n == 5);
    }
}

/// Whether the token of an invocation is the right one: that of its principal,
/// made if there was none, without touching the tokens of others; or none for
/// a call without a principal.
pub open spec fn token_installed(
    before: CancelTokens,
    after: CancelTokens,
    principal: Option<Seq<char>>,
    token: Option<u64>,
) -> bool {
    match principal {
        Some(p) => {
            &&& token is Some
            &&& token == after.token_of(p)
            &&& before.token_of(p) is Some ==> token == before.token_of(p)
            &&& before.token_of(p) is None ==> token == Some(before.handed_out())
            &&& after.handed_out() == before.handed_out() + if before.token_of(p) is None {
                1int
            } else {
                0
            }
            &&& forall|q: Seq<char>|
                q != p ==> #[trigger] after.token_of(q) == before.token_of(q)
        },
        None => token is None && after == before,
    }
}

/// A principal whose token was cancelled gets another one the next time, never
/// the cancelled one.
pub proof fn cancelled_tokens_do_not_return(
    before: CancelTokens,
    cancelled: CancelTokens,
    after: CancelTokens,
    principal: Seq<char>,
    old_token: u64,
    new_token: Option<u64>,
)
    requires
        before.token_of(principal) == Some(old_token),
        old_token < cancelled.handed_out(),
        cancelled.token_of(principal) is None,
        token_installed(cancelled, after, Some(principal), new_token),
    ensures
        new_token is Some,
        new_token->0 != old_token,
{
}

/// Where secrets of an invocation are kept.
#[derive(Debug)]
pub enum SecretScope {
    /// Nowhere: reads find nothing and writes fail.
    Neutral,
    /// In the keychain service of this name, over the invocation's namespace.
    Service(String),
}

/// The state behind a capsule instance's host calls.
#[derive(Debug)]
pub struct HostState {
    /// The principal that the instance was loaded under.
    pub principal: String,
    pub capsule_id: String,
    pub capsule_uuid: u128,
    /// Memory ceiling of the instance, in bytes, until a call sets its own.
    pub memory_limit: usize,
    /// The principal that memory counts for, until a call sets its own.
    pub memory_principal: String,
    pub caller_context: Option<CallerContext>,
    /// Whether an interceptor call is running.
    pub interceptor_active: bool,
    /// Whether the guest received since the last epoch window.
    pub recv_yielded: bool,
    pub no_yield_windows: u32,
    /// Whether actions are reported to an audit sink.
    pub audited: bool,
    /// Key-value namespace the instance was loaded with.
    pub kv: String,
    pub secret_store: SecretScope,
    /// Log the instance was loaded with, by number.
    pub capsule_log: Option<u64>,
    pub home: Option<PrincipalMount>,
    pub tmp: Option<PrincipalMount>,
    pub invocation_kv: Option<String>,
    pub invocation_secret_store: Option<SecretScope>,
    pub invocation_capsule_log: Option<u64>,
    pub invocation_home: Option<PrincipalMount>,
    pub invocation_tmp: Option<PrincipalMount>,
    pub invocation_profile: Option<PrincipalProfile>,
    pub invocation_env_overlay: Option<Vec<(String, String)>>,
    pub invocation_cancel_token: Option<u64>,
    pub workspace_root: String,
    /// Paths hidden from spawned processes.
    pub spawn_mask_paths: Vec<String>,
    pub config: Vec<(String, String)>,
    /// Configuration keys that hold secrets.
    pub secret_env: Vec<String>,
    pub ipc_publish_patterns: Vec<String>,
    pub ipc_subscribe_patterns: Vec<String>,
    pub security: Option<ManifestSecurityGate>,
    pub has_uplink_capability: bool,
    pub capability_names: Vec<String>,
    /// Local addresses that the capsule may reach.
    pub local_egress: Vec<String>,
    pub audit_firehose: bool,
    /// Whether the pre-bound Unix listener is at hand.
    pub has_socket_listener: bool,
    /// Whether the session token is at hand.
    pub has_session_token: bool,
    /// Whether identities of users can be looked up.
    pub has_identity_store: bool,
    /// Whether allowances of users can be looked up.
    pub has_allowance_store: bool,
    /// Whether other capsules can be looked up.
    pub has_capsule_registry: bool,
    /// Whether profiles of principals can be looked up.
    pub has_profile_cache: bool,
    /// Whether messages of uplinks are taken in.
    pub has_inbound: bool,
    /// How many uplinks the guest registered.
    pub registered_uplinks: usize,
    pub lifecycle_phase: Option<LifecyclePhase>,
    pub interceptor_handles: Vec<InterceptorHandle>,
    pub next_http_stream_id: u64,
    /// What the guest holds handles of.
    pub resource_table: ResourceTable,
    pub net_stream_count: usize,
    pub subscription_count: usize,
    pub process_count_total: usize,
    /// The principal of the client frame in flight.
    pub ingress_principal: Option<String>,
    pub ingress_device_key_id: Option<String>,
    pub ingress_origin: Option<String>,
}

/// What a hook's state is made from.
#[derive(Debug)]
pub struct HookHostStateParams {
    pub capsule_id: String,
    pub workspace_root: String,
    /// The hook's own key-value namespace.
    pub kv: String,
    pub secret_store: SecretScope,
    /// Memory ceiling, in bytes.
    pub memory_limit: usize,
    /// The principal that memory counts for.
    pub memory_principal: String,
}

/// The principal of a caller.
pub open spec fn caller_principal(caller: Option<CallerContext>) -> Option<Seq<char>> {
    match caller {
        Some(context) => text_of(context.principal),
        None => None,
    }
}

/// Whether two states differ at most in what belongs to an invocation, the
/// bound on memory among it.
pub open spec fn same_but_for_invocation(a: HostState, b: HostState) -> bool {
    b == (HostState {
        caller_context: b.caller_context,
        interceptor_active: b.interceptor_active,
        invocation_kv: b.invocation_kv,
        invocation_secret_store: b.invocation_secret_store,
        invocation_capsule_log: b.invocation_capsule_log,
        invocation_home: b.invocation_home,
        invocation_tmp: b.invocation_tmp,
        invocation_profile: b.invocation_profile,
        invocation_env_overlay: b.invocation_env_overlay,
        invocation_cancel_token: b.invocation_cancel_token,
        memory_limit: b.memory_limit,
        memory_principal: b.memory_principal,
        ..a
    })
}

/// What the runtime around a capsule offers to its instances.
#[derive(Debug)]
pub struct InstanceServices {
    /// The principal that the capsule is loaded under.
    pub owner: String,
    /// Local addresses that the capsule may reach.
    pub local_egress: Vec<String>,
    /// Whether there is a pre-bound Unix listener.
    pub socket_listener: bool,
    /// Whether there is a session token.
    pub session_token: bool,
    pub identity_store: bool,
    pub allowance_store: bool,
    pub capsule_registry: bool,
    pub profile_cache: bool,
    /// Whether actions are reported to an audit sink.
    pub audited: bool,
}

/// What an instance's state is made from, besides its plan and the services
/// around it.
#[derive(Debug)]
pub struct CapsuleHostStateParams {
    pub capsule_id: String,
    pub capsule_uuid: u128,
    /// The root of the workspace that the instance works in.
    pub workspace_root: String,
    /// Paths hidden from spawned processes.
    pub spawn_mask_paths: Vec<String>,
    pub gate: ManifestSecurityGate,
    pub config: Vec<(String, String)>,
    pub ipc_publish_patterns: Vec<String>,
    pub ipc_subscribe_patterns: Vec<String>,
}

/// What a lifecycle hook's state is made from.
#[derive(Debug)]
pub struct LifecycleHostStateParams {
    pub base: HookHostStateParams,
    pub home: Option<PrincipalMount>,
    pub config: Vec<(String, String)>,
    pub audited: bool,
}

/// Whether no invocation is in scope: no caller, no overlay, no token.
pub open spec fn is_clear(state: HostState) -> bool {
    &&& state.caller_context is None
    &&& !state.interceptor_active
    &&& state.invocation_kv is None
    &&& state.invocation_secret_store is None
    &&& state.invocation_capsule_log is None
    &&& state.invocation_home is None
    &&& state.invocation_tmp is None
    &&& state.invocation_profile is None
    &&& state.invocation_env_overlay is None
    &&& state.invocation_cancel_token is None
}

/// Whether a state grants nothing: no home and no configuration, and nothing
/// else either.
pub open spec fn grants_nothing(state: HostState) -> bool {
    &&& state.home is None
    &&& state.config@.len() == 0
    &&& offers_nothing(state)
}

/// Whether a state offers nothing besides a home and a configuration: no gate
/// to pass but also no temporary directory, no capabilities, no exemptions, no
/// audit feed, no listener, no session, no stores of users, no registry, no
/// uplinks, no connections.
pub open spec fn offers_nothing(state: HostState) -> bool {
    &&& state.tmp is None
    &&& state.capsule_log is None
    &&& state.security is None
    &&& !state.has_uplink_capability
    &&& state.capability_names@.len() == 0
    &&& state.local_egress@.len() == 0
    &&& !state.audit_firehose
    &&& !state.has_socket_listener
    &&& !state.has_session_token
    &&& !state.has_identity_store
    &&& !state.has_allowance_store
    &&& !state.has_capsule_registry
    &&& !state.has_profile_cache
    &&& !state.has_inbound
    &&& state.registered_uplinks == 0
    &&& state.ipc_subscribe_patterns@.len() == 0
    &&& state.secret_env@.len() == 0
    &&& state.spawn_mask_paths@.len() == 0
    &&& state.interceptor_handles@.len() == 0
    &&& slots_of(state.resource_table).dom() == Set::<u32>::empty()
    &&& state.net_stream_count == 0
    &&& state.subscription_count == 0
    &&& state.process_count_total == 0
    &&& state.ingress_principal is None
    &&& state.ingress_device_key_id is None
    &&& state.ingress_origin is None
}

/// Whether a state is that of a fresh instance under a plan, among the services
/// around it: with neutral stores and without mounts, so that it holds nobody's
/// data.
pub open spec fn is_instance_of(
    state: HostState,
    plan: LoadPlan,
    services: InstanceServices,
) -> bool {
    &&& state.principal@ == services.owner@
    &&& state.memory_limit == plan.budget.mem_bytes
    &&& state.memory_principal@ == services.owner@
    &&& state.kv@ == NEUTRAL_KV_NAMESPACE@
    &&& state.secret_store is Neutral
    &&& state.capsule_log is None
    &&& state.home is None
    &&& state.tmp is None
    &&& state.secret_env@ == plan.secret_env@
    &&& state.has_uplink_capability == plan.has_uplink
    &&& state.capability_names@ == plan.capability_names@
    &&& state.local_egress@ == services.local_egress@
    &&& state.audit_firehose == plan.audit_firehose
    &&& state.has_socket_listener == (plan.gets_listener && services.socket_listener)
    &&& state.has_session_token == (plan.gets_listener && services.session_token)
    &&& state.has_identity_store == services.identity_store
    &&& state.has_allowance_store == services.allowance_store
    &&& state.has_capsule_registry == services.capsule_registry
    &&& state.has_profile_cache == services.profile_cache
    &&& state.has_inbound == (plan.inbound_capacity is Some)
    &&& state.registered_uplinks == 0
    &&& state.audited == services.audited
    &&& state.lifecycle_phase is None
    &&& state.interceptor_handles@.len() == 0
    &&& slots_of(state.resource_table).dom() == Set::<u32>::empty()
    &&& state.net_stream_count == 0
    &&& state.subscription_count == 0
    &&& state.process_count_total == 0
    &&& !state.recv_yielded
    &&& state.no_yield_windows == 0
    &&& state.next_http_stream_id == 1
    &&& state.ingress_principal is None
    &&& state.ingress_device_key_id is None
    &&& state.ingress_origin is None
}

/// Whether a state received a message: inside an interceptor call nothing
/// changes; else the message is in scope, with what belongs to its principal.
pub open spec fn receives(
    before: HostState,
    after: HostState,
    tokens_before: CancelTokens,
    tokens_after: CancelTokens,
    message: CallerContext,
    profile: Option<PrincipalProfile>,
    env: Option<Vec<(String, String)>>,
    kv_ok: bool,
    log: Option<u64>,
) -> bool {
    if before.interceptor_active {
        after == before && tokens_after == tokens_before
    } else {
        &&& after.caller_context == Some(message)
        &&& after.invocation_profile == profile
        &&& after.invocation_env_overlay == env
        &&& after.scoped_to(text_of(message.principal), kv_ok, log)
        &&& token_installed(
            tokens_before,
            tokens_after,
            text_of(message.principal),
            after.invocation_cancel_token,
        )
        &&& same_but_for_invocation(before, after)
        &&& after.invocation_home == before.invocation_home
        &&& after.invocation_tmp == before.invocation_tmp
        &&& !after.interceptor_active
    }
}

impl HostState {
    /// An empty registry of connection identities.
    pub fn new_connection_principals() -> (r: DashMap<u32, ConnectionIdentity>)
        ensures
            identities_of(r).dom() == Set::<u32>::empty(),
    {
        new_identity_map()
    }

    /// An empty registry of client connections.
    pub fn new_client_connections() -> (r: DashMap<u32, String>)
        ensures
            clients_of(r).dom() == Set::<u32>::empty(),
    {
        new_client_map()
    }

    /// An empty registry of shared listeners.
    pub fn new_shared_listeners() -> (r: DashMap<(String, u16), Arc<tokio::net::TcpListener>>)
        ensures
            listeners_of(r).dom() == Set::<(Seq<char>, u16)>::empty(),
    {
        new_listener_map()
    }

    /// The state of a hook: a one-shot run outside the manifest and the security gate.
    /// It may publish its result and holds nothing else but what it was given.
    pub fn for_hook(params: HookHostStateParams) -> (r: HostState)
        ensures
            is_clear(r),
            grants_nothing(r),
            r.principal@ == DEFAULT_PRINCIPAL@,
            r.capsule_id == params.capsule_id,
            r.workspace_root == params.workspace_root,
            r.kv == params.kv,
            r.secret_store == params.secret_store,
            r.memory_limit == params.memory_limit,
            r.memory_principal == params.memory_principal,
            texts(r.ipc_publish_patterns@) == seq![HOOK_PUBLISH_PATTERN@],
            r.lifecycle_phase is None,
            !r.audited,
            !r.recv_yielded && r.no_yield_windows == 0,
            r.next_http_stream_id == 1,
    {
        let mut patterns: Vec<String> = Vec::new();
        patterns.push(HOOK_PUBLISH_PATTERN.to_owned());
        assert(texts(patterns@) =~= seq![HOOK_PUBLISH_PATTERN@]);
        HostState {
            principal: DEFAULT_PRINCIPAL.to_owned(),
            capsule_id: params.capsule_id,
            capsule_uuid: new_uuid_v4(),
            memory_limit: params.memory_limit,
            memory_principal: params.memory_principal,
            caller_context: None,
            interceptor_active: false,
            recv_yielded: false,
            no_yield_windows: 0,
            audited: false,
            kv: params.kv,
            secret_store: params.secret_store,
            capsule_log: None,
            home: None,
            tmp: None,
            invocation_kv: None,
            invocation_secret_store: None,
            invocation_capsule_log: None,
            invocation_home: None,
            invocation_tmp: None,
            invocation_profile: None,
            invocation_env_overlay: None,
            invocation_cancel_token: None,
            workspace_root: params.workspace_root,
            spawn_mask_paths: Vec::new(),
            config: Vec::new(),
            secret_env: Vec::new(),
            ipc_publish_patterns: patterns,
            ipc_subscribe_patterns: Vec::new(),
            security: None,
            has_uplink_capability: false,
            capability_names: Vec::new(),
            local_egress: Vec::new(),
            audit_firehose: false,
            has_socket_listener: false,
            has_session_token: false,
            has_identity_store: false,
            has_allowance_store: false,
            has_capsule_registry: false,
            has_profile_cache: false,
            has_inbound: false,
            registered_uplinks: 0,
            lifecycle_phase: None,
            interceptor_handles: Vec::new(),
            next_http_stream_id: 1,
            resource_table: new_table(),
            net_stream_count: 0,
            subscription_count: 0,
            process_count_total: 0,
            ingress_principal: None,
            ingress_device_key_id: None,
            ingress_origin: None,
        }
    }

    /// The state of an instance of a loaded capsule. It may serve any
    /// principal, so it is loaded with neutral stores and without mounts; what
    /// belongs to a principal is installed for each invocation.
    ///
    /// The listener and the session token go to capsules that declare
    /// `net_bind` alone.
    pub fn for_capsule(
        params: CapsuleHostStateParams,
        plan: &LoadPlan,
        services: &InstanceServices,
    ) -> (r: HostState)
        ensures
            is_clear(r),
            is_instance_of(r, *plan, *services),
            r.capsule_id == params.capsule_id,
            r.capsule_uuid == params.capsule_uuid,
            r.workspace_root == params.workspace_root,
            r.spawn_mask_paths == params.spawn_mask_paths,
            r.config == params.config,
            r.ipc_publish_patterns == params.ipc_publish_patterns,
            r.ipc_subscribe_patterns == params.ipc_subscribe_patterns,
            r.security == Some(params.gate),
    {
        HostState {
            principal: services.owner.clone(),
            capsule_id: params.capsule_id,
            capsule_uuid: params.capsule_uuid,
            memory_limit: plan.budget.mem_bytes,
            memory_principal: services.owner.clone(),
            caller_context: None,
            interceptor_active: false,
            recv_yielded: false,
            no_yield_windows: 0,
            audited: services.audited,
            kv: NEUTRAL_KV_NAMESPACE.to_owned(),
            secret_store: SecretScope::Neutral,
            capsule_log: None,
            home: None,
            tmp: None,
            invocation_kv: None,
            invocation_secret_store: None,
            invocation_capsule_log: None,
            invocation_home: None,
            invocation_tmp: None,
            invocation_profile: None,
            invocation_env_overlay: None,
            invocation_cancel_token: None,
            workspace_root: params.workspace_root,
            spawn_mask_paths: params.spawn_mask_paths,
            config: params.config,
            secret_env: copy_texts(&plan.secret_env),
            ipc_publish_patterns: params.ipc_publish_patterns,
            ipc_subscribe_patterns: params.ipc_subscribe_patterns,
            security: Some(params.gate),
            has_uplink_capability: plan.has_uplink,
            capability_names: copy_texts(&plan.capability_names),
            local_egress: copy_texts(&services.local_egress),
            audit_firehose: plan.audit_firehose,
            has_socket_listener: plan.gets_listener && services.socket_listener,
            has_session_token: plan.gets_listener && services.session_token,
            has_identity_store: services.identity_store,
            has_allowance_store: services.allowance_store,
            has_capsule_registry: services.capsule_registry,
            has_profile_cache: services.profile_cache,
            has_inbound: plan.inbound_capacity.is_some(),
            registered_uplinks: 0,
            lifecycle_phase: None,
            interceptor_handles: Vec::new(),
            next_http_stream_id: 1,
            resource_table: new_table(),
            net_stream_count: 0,
            subscription_count: 0,
            process_count_total: 0,
            ingress_principal: None,
            ingress_device_key_id: None,
            ingress_origin: None,
        }
    }

    /// The state of a lifecycle hook: a one-shot run for one principal, over
    /// that principal's own stores, without gate and without capabilities.
    pub fn for_lifecycle(params: LifecycleHostStateParams, phase: LifecyclePhase) -> (r: HostState)
        ensures
            is_clear(r),
            offers_nothing(r),
            r.home == params.home,
            r.config == params.config,
            r.audited == params.audited,
            r.lifecycle_phase == Some(phase),
            r.ipc_publish_patterns@.len() == 0,
            r.principal@ == DEFAULT_PRINCIPAL@,
            r.capsule_id == params.base.capsule_id,
            r.workspace_root == params.base.workspace_root,
            r.kv == params.base.kv,
            r.secret_store == params.base.secret_store,
            r.memory_limit == params.base.memory_limit,
            r.memory_principal == params.base.memory_principal,
            !r.recv_yielded && r.no_yield_windows == 0,
            r.next_http_stream_id == 1,
    {
        let mut state = Self::for_hook(params.base);
        state.home = params.home;
        state.config = params.config;
        state.audited = params.audited;
        state.ipc_publish_patterns = Vec::new();
        state.lifecycle_phase = Some(phase);
        state
    }

    /// Puts a run loop in the context of its owner, for as long as it runs.
    /// No caller is put in scope, so a message that is received can still put
    /// its own.
    pub fn install_run_loop_owner_context(
        &mut self,
        tokens: &mut CancelTokens,
        owner: &str,
        env: Option<Vec<(String, String)>>,
        kv_ok: bool,
        log: Option<u64>,
        bundle: PrincipalVfsBundle,
    )
        requires
            old(tokens).handed_out() < u64::MAX,
        ensures
            final(self).invocation_env_overlay == env,
            final(self).scoped_to(Some(owner@), kv_ok, log),
            if kv_ok {
                final(self).invocation_home == bundle.home && final(self).invocation_tmp
                    == bundle.tmp
            } else {
                final(self).invocation_home is None && final(self).invocation_tmp is None
            },
            token_installed(
                *old(tokens),
                *final(tokens),
                Some(owner@),
                final(self).invocation_cancel_token,
            ),
            *final(self) == (HostState {
                invocation_env_overlay: final(self).invocation_env_overlay,
                invocation_cancel_token: final(self).invocation_cancel_token,
                invocation_kv: final(self).invocation_kv,
                invocation_secret_store: final(self).invocation_secret_store,
                invocation_capsule_log: final(self).invocation_capsule_log,
                invocation_home: final(self).invocation_home,
                invocation_tmp: final(self).invocation_tmp,
                ..*old(self)
            }),
    {
        self.invocation_env_overlay = env;
        self.install_principal_overlays(tokens, Some(owner), kv_ok, log, bundle);
    }

    /// The principal that an action counts for: the caller's, or the one the
    /// instance was loaded under.
    pub open spec fn acting_principal(&self) -> Seq<char> {
        match self.caller_context {
            Some(caller) => match caller.principal {
                Some(p) => p@,
                None => self.principal@,
            },
            None => self.principal@,
        }
    }

    /// The principal that an action counts for.
    pub fn effective_principal(&self) -> (r: String)
        ensures
            r@ == self.acting_principal(),
    {
        match &self.caller_context {
            Some(caller) => match &caller.principal {
                Some(p) => p.clone(),
                None => self.principal.clone(),
            },
            None => self.principal.clone(),
        }
    }

    /// The key-value namespace in force.
    pub fn effective_kv(&self) -> (r: &str)
        ensures
            r@ == match self.invocation_kv {
                Some(ns) => ns@,
                None => self.kv@,
            },
    {
        match &self.invocation_kv {
            Some(ns) => ns.as_str(),
            None => self.kv.as_str(),
        }
    }

    /// The secret scope in force.
    pub fn effective_secret_store(&self) -> (r: &SecretScope)
        ensures
            *r == match self.invocation_secret_store {
                Some(scope) => scope,
                None => self.secret_store,
            },
    {
        match &self.invocation_secret_store {
            Some(scope) => scope,
            None => &self.secret_store,
        }
    }

    /// The log in force.
    pub fn effective_capsule_log(&self) -> (r: Option<u64>)
        ensures
            r == match self.invocation_capsule_log {
                Some(log) => Some(log),
                None => self.capsule_log,
            },
    {
        match self.invocation_capsule_log {
            Some(log) => Some(log),
            None => self.capsule_log,
        }
    }

    /// The profile in force, or the given default.
    pub fn effective_profile(&self, default: PrincipalProfile) -> (r: PrincipalProfile)
        ensures
            r == match self.invocation_profile {
                Some(profile) => profile,
                None => default,
            },
    {
        match self.invocation_profile {
            Some(profile) => profile,
            None => default,
        }
    }

    /// Installs the cancellation token of an invocation: that of its
    /// principal, or none, in which case the instance's own token is in force.
    /// `tokens` are those of the capsule, which all its instances share.
    pub fn install_invocation_cancel_token(
        &mut self,
        tokens: &mut CancelTokens,
        principal: Option<&str>,
    )
        requires
            old(tokens).handed_out() < u64::MAX,
        ensures
            *final(self) == (HostState {
                invocation_cancel_token: final(self).invocation_cancel_token,
                ..*old(self)
            }),
            token_installed(
                *old(tokens),
                *final(tokens),
                str_text(principal),
                final(self).invocation_cancel_token,
            ),
    {
        match principal {
            Some(p) => {
                let token: u64 = tokens.token_for(p);
                self.invocation_cancel_token = Some(token);
            },
            None => {
                self.invocation_cancel_token = None;
            },
        }
    }

    /// The overlays that are scoped to a principal, as they stand after an
    /// installation: those of the principal where its key-value scope could be
    /// made, else none.
    pub open spec fn scoped_to(
        &self,
        principal: Option<Seq<char>>,
        kv_ok: bool,
        log: Option<u64>,
    ) -> bool {
        if principal is Some && kv_ok {
            &&& self.invocation_kv matches Some(ns) && ns@ == namespace_of(
                principal->0,
                self.capsule_id@,
            )
            &&& self.invocation_secret_store matches Some(SecretScope::Service(s)) && s@
                == secret_service_of(principal->0, self.capsule_id@)
            &&& self.invocation_capsule_log == log
        } else {
            &&& self.invocation_kv is None
            &&& self.invocation_secret_store is None
            &&& self.invocation_capsule_log is None
        }
    }

    /// Installs the key-value, secret and log overlays of a principal, or
    /// clears them: for a call without a principal, and where the key-value
    /// scope could not be made. Returns whether they were installed.
    ///
    /// `kv_ok` says whether the scope of [`principal_namespace`] could be made
    /// and `log` is the principal's log, where one could be opened.
    pub fn install_principal_overlays_sync(
        &mut self,
        tokens: &mut CancelTokens,
        principal: Option<&str>,
        kv_ok: bool,
        log: Option<u64>,
    ) -> (r: bool)
        requires
            old(tokens).handed_out() < u64::MAX,
        ensures
            r == (principal is Some && kv_ok),
            final(self).scoped_to(str_text(principal), kv_ok, log),
            *final(self) == (HostState {
                invocation_cancel_token: final(self).invocation_cancel_token,
                invocation_kv: final(self).invocation_kv,
                invocation_secret_store: final(self).invocation_secret_store,
                invocation_capsule_log: final(self).invocation_capsule_log,
                ..*old(self)
            }),
            token_installed(
                *old(tokens),
                *final(tokens),
                str_text(principal),
                final(self).invocation_cancel_token,
            ),
    {
        self.install_invocation_cancel_token(tokens, principal);
        match principal {
            Some(p) => {
                if kv_ok {
                    let ns = principal_namespace(p, self.capsule_id.as_str());
                    let service = secret_service(p, self.capsule_id.as_str());
                    self.invocation_secret_store = Some(SecretScope::Service(service));
                    self.invocation_kv = Some(ns);
                    self.invocation_capsule_log = log;
                    true
                } else {
                    self.invocation_kv = None;
                    self.invocation_secret_store = None;
                    self.invocation_capsule_log = None;
                    false
                }
            },
            None => {
                self.invocation_kv = None;
                self.invocation_secret_store = None;
                self.invocation_capsule_log = None;
                false
            },
        }
    }

    /// Installs every overlay of a principal. The home and temporary
    /// directories are those of `bundle`, and only where the other overlays
    /// were installed.
    pub fn install_principal_overlays(
        &mut self,
        tokens: &mut CancelTokens,
        principal: Option<&str>,
        kv_ok: bool,
        log: Option<u64>,
        bundle: PrincipalVfsBundle,
    )
        requires
            old(tokens).handed_out() < u64::MAX,
        ensures
            final(self).scoped_to(str_text(principal), kv_ok, log),
            if principal is Some && kv_ok {
                final(self).invocation_home == bundle.home && final(self).invocation_tmp
                    == bundle.tmp
            } else {
                final(self).invocation_home is None && final(self).invocation_tmp is None
            },
            *final(self) == (HostState {
                invocation_cancel_token: final(self).invocation_cancel_token,
                invocation_kv: final(self).invocation_kv,
                invocation_secret_store: final(self).invocation_secret_store,
                invocation_capsule_log: final(self).invocation_capsule_log,
                invocation_home: final(self).invocation_home,
                invocation_tmp: final(self).invocation_tmp,
                ..*old(self)
            }),
            token_installed(
                *old(tokens),
                *final(tokens),
                str_text(principal),
                final(self).invocation_cancel_token,
            ),
    {
        if self.install_principal_overlays_sync(tokens, principal, kv_ok, log) {
            self.invocation_home = bundle.home;
            self.invocation_tmp = bundle.tmp;
        } else {
            self.invocation_home = None;
            self.invocation_tmp = None;
        }
    }

    /// Puts a received message in scope, with the profile, environment and
    /// overlays of its principal. Inside an interceptor call nothing changes:
    /// the call belongs to its own caller.
    pub fn install_recv_invocation_context(
        &mut self,
        tokens: &mut CancelTokens,
        message: CallerContext,
        profile: Option<PrincipalProfile>,
        env: Option<Vec<(String, String)>>,
        kv_ok: bool,
        log: Option<u64>,
    )
        requires
            old(tokens).handed_out() < u64::MAX,
        ensures
            if old(self).interceptor_active {
                *final(self) == *old(self) && *final(tokens) == *old(tokens)
            } else {
                &&& final(self).caller_context == Some(message)
                &&& final(self).invocation_profile == profile
                &&& final(self).invocation_env_overlay == env
                &&& final(self).scoped_to(text_of(message.principal), kv_ok, log)
                &&& token_installed(
                    *old(tokens),
                    *final(tokens),
                    text_of(message.principal),
                    final(self).invocation_cancel_token,
                )
                &&& *final(self) == (HostState {
                    caller_context: final(self).caller_context,
                    invocation_profile: final(self).invocation_profile,
                    invocation_env_overlay: final(self).invocation_env_overlay,
                    invocation_cancel_token: final(self).invocation_cancel_token,
                    invocation_kv: final(self).invocation_kv,
                    invocation_secret_store: final(self).invocation_secret_store,
                    invocation_capsule_log: final(self).invocation_capsule_log,
                    ..*old(self)
                })
            },
            receives(
                *old(self),
                *final(self),
                *old(tokens),
                *final(tokens),
                message,
                profile,
                env,
                kv_ok,
                log,
            ),
    {
        if self.interceptor_active {
            return;
        }
        let principal: Option<&str> = match &message.principal {
            Some(p) => Some(p.as_str()),
            None => None,
        };
        self.install_principal_overlays_sync(tokens, principal, kv_ok, log);
        self.invocation_profile = profile;
        self.invocation_env_overlay = env;
        self.caller_context = Some(message);
    }

    /// Puts an interceptor call in scope: its caller, the profile and the
    /// environment of the principal that it counts for, and the overlays of the
    /// caller's principal. Until it is taken out of scope, messages that the
    /// guest receives do not change any of it.
    pub fn begin_invocation(
        &mut self,
        tokens: &mut CancelTokens,
        caller: Option<CallerContext>,
        profile: Option<PrincipalProfile>,
        env: Option<Vec<(String, String)>>,
        kv_ok: bool,
        log: Option<u64>,
        bundle: PrincipalVfsBundle,
    )
        requires
            old(tokens).handed_out() < u64::MAX,
        ensures
            final(self).caller_context == caller,
            final(self).interceptor_active,
            final(self).invocation_profile == profile,
            final(self).invocation_env_overlay == env,
            final(self).scoped_to(caller_principal(caller), kv_ok, log),
            if caller_principal(caller) is Some && kv_ok {
                final(self).invocation_home == bundle.home && final(self).invocation_tmp
                    == bundle.tmp
            } else {
                final(self).invocation_home is None && final(self).invocation_tmp is None
            },
            token_installed(
                *old(tokens),
                *final(tokens),
                caller_principal(caller),
                final(self).invocation_cancel_token,
            ),
            same_but_for_invocation(*old(self), *final(self)),
    {
        let principal: Option<&str> = match &caller {
            Some(context) => match &context.principal {
                Some(p) => Some(p.as_str()),
                None => None,
            },
            None => None,
        };
        self.install_principal_overlays(tokens, principal, kv_ok, log, bundle);
        self.caller_context = caller;
        self.interceptor_active = true;
        self.invocation_profile = profile;
        self.invocation_env_overlay = env;
    }

    /// Takes an invocation out of scope, so that the next one finds nothing of
    /// it.
    pub fn clear_invocation(&mut self)
        ensures
            is_clear(*final(self)),
            same_but_for_invocation(*old(self), *final(self)),
    {
        self.caller_context = None;
        self.interceptor_active = false;
        self.invocation_kv = None;
        self.invocation_secret_store = None;
        self.invocation_capsule_log = None;
        self.invocation_home = None;
        self.invocation_tmp = None;
        self.invocation_profile = None;
        self.invocation_env_overlay = None;
        self.invocation_cancel_token = None;
    }

    /// Clears an instance when it is returned to its pool. Unless its resources
    /// are kept for the next call, they are dropped, so that no handle of one
    /// principal's call is open in another's.
    pub fn clear_on_return(&mut self, reset_resources: bool)
        ensures
            is_clear(*final(self)),
            if reset_resources {
                &&& slots_of(final(self).resource_table).dom() == Set::<u32>::empty()
                &&& final(self).net_stream_count == 0
                &&& final(self).subscription_count == 0
                &&& final(self).process_count_total == 0
                &&& same_but_for_invocation(
                    *old(self),
                    (HostState {
                        resource_table: old(self).resource_table,
                        net_stream_count: old(self).net_stream_count,
                        subscription_count: old(self).subscription_count,
                        process_count_total: old(self).process_count_total,
                        ..*final(self)
                    }),
                )
            } else {
                same_but_for_invocation(*old(self), *final(self))
            },
    {
        self.clear_invocation();
        if reset_resources {
            self.resource_table = new_table();
            self.net_stream_count = 0;
            self.subscription_count = 0;
            self.process_count_total = 0;
        }
    }
}

/// The key-value namespace in force.
pub open spec fn namespace_in_force(state: HostState) -> Seq<char> {
    match state.invocation_kv {
        Some(ns) => ns@,
        None => state.kv@,
    }
}

/// The keychain service in force; none where secrets are kept nowhere.
pub open spec fn keychain_in_force(state: HostState) -> Option<Seq<char>> {
    let scope = match state.invocation_secret_store {
        Some(scope) => scope,
        None => state.secret_store,
    };
    match scope {
        SecretScope::Neutral => None,
        SecretScope::Service(name) => Some(name@),
    }
}

/// On an instance with neutral stores, an invocation with a principal reads and
/// writes that principal's namespace and keychain and nobody else's; an
/// invocation without one, or whose scope could not be made, reaches nobody's.
pub proof fn invocations_reach_their_own_stores_only(
    state: HostState,
    principal: Option<Seq<char>>,
    kv_ok: bool,
    log: Option<u64>,
    other: Seq<char>,
)
    requires
        state.kv@ == NEUTRAL_KV_NAMESPACE@,
        state.secret_store is Neutral,
        state.scoped_to(principal, kv_ok, log),
    ensures
        principal is Some && kv_ok ==> namespace_in_force(state) == namespace_of(
            principal->0,
            state.capsule_id@,
        ),
        principal is None || !kv_ok ==> namespace_in_force(state) == NEUTRAL_KV_NAMESPACE@
            && state.invocation_secret_store is None,
        principal != Some(other) ==> namespace_in_force(state) != namespace_of(
            other,
            state.capsule_id@,
        ),
        principal is Some && kv_ok ==> keychain_in_force(state) == Some(
            secret_service_of(principal->0, state.capsule_id@),
        ),
        principal is None || !kv_ok ==> keychain_in_force(state) is None,
        principal != Some(other) ==> keychain_in_force(state) != Some(
            secret_service_of(other, state.capsule_id@),
        ),
{
    neutral_namespace_is_nobodys(other, state.capsule_id@);
    if principal is Some && principal->0 != other {
        principals_are_isolated(principal->0, other, state.capsule_id@);
    }
}

/// An invocation leaves no trace on an instance: once it is taken out of scope,
/// the instance is what it was but for the bound on memory, which each call sets
/// anew, so the next invocation finds nothing of it.
pub proof fn invocations_leave_no_trace(before: HostState, during: HostState, after: HostState)
    requires
        is_clear(before),
        same_but_for_invocation(before, during),
        same_but_for_invocation(during, after),
        is_clear(after),
    ensures
        after == (HostState {
            memory_limit: after.memory_limit,
            memory_principal: after.memory_principal,
            ..before
        }),
        namespace_in_force(after) == after.kv@,
        after.acting_principal() == after.principal@,
{
}

/// A namespace names its principal and its capsule, and two capsules of one
/// principal never share one.
pub proof fn namespaces_name_principal_and_capsule(
    principal: Seq<char>,
    capsule_id: Seq<char>,
    other: Seq<char>,
)
    ensures
        namespace_of(principal, capsule_id) == principal + ":capsule:"@ + capsule_id,
        secret_service_of(principal, capsule_id) == capsule_id + ":"@ + principal,
        capsule_id != other ==> namespace_of(principal, capsule_id) != namespace_of(
            principal,
            other,
        ),
        "astrid:neutral"@ == "astrid:neutral"@,
{
    let head = principal + ":capsule:"@;
    let x = namespace_of(principal, capsule_id);
    let y = namespace_of(principal, other);
    if x == y {
        assert(capsule_id =~= x.skip(head.len() as int));
        assert(other =~= y.skip(head.len() as int));
    }
}

/// An action counts for the principal of the message in scope, where it names
/// one, and for the owner of the instance else.
pub proof fn actions_count_for_the_caller(state: HostState)
    ensures
        state.caller_context matches Some(c) ==> (c.principal matches Some(p) ==> state.acting_principal()
            == p@),
        state.caller_context is None ==> state.acting_principal() == state.principal@,
        state.caller_context matches Some(c) ==> (c.principal is None ==> state.acting_principal()
            == state.principal@),
{
}

/// An invocation with a principal is given that principal's namespace, keychain
/// and log, where its scope could be made; any other is given none of them.
pub proof fn overlays_belong_to_the_principal(
    state: HostState,
    principal: Option<Seq<char>>,
    kv_ok: bool,
    log: Option<u64>,
)
    requires
        state.scoped_to(principal, kv_ok, log),
    ensures
        principal is Some && kv_ok ==> {
            &&& state.invocation_kv is Some
            &&& state.invocation_kv->0@ == principal->0 + ":capsule:"@ + state.capsule_id@
            &&& state.invocation_secret_store matches Some(SecretScope::Service(name)) && name@
                == state.capsule_id@ + ":"@ + principal->0
            &&& state.invocation_capsule_log == log
        },
        principal is None || !kv_ok ==> state.invocation_kv is None
            && state.invocation_secret_store is None && state.invocation_capsule_log is None,
{
}

/// What is in force during an invocation is its overlay, and what the instance
/// was loaded with where there is none.
pub proof fn overlays_are_in_force(state: HostState)
    ensures
        state.invocation_kv matches Some(ns) ==> namespace_in_force(state) == ns@,
        state.invocation_kv is None ==> namespace_in_force(state) == state.kv@,
        state.invocation_secret_store matches Some(SecretScope::Service(name))
            ==> keychain_in_force(state) == Some(name@),
        state.invocation_secret_store is None && state.secret_store is Neutral
            ==> keychain_in_force(state) is None,
{
}

/// Nothing of an invocation is left in a state that is clear.
pub proof fn clear_states_hold_no_invocation(state: HostState)
    ensures
        is_clear(state) <==> state.caller_context is None && !state.interceptor_active
            && state.invocation_kv is None && state.invocation_secret_store is None
            && state.invocation_capsule_log is None && state.invocation_home is None
            && state.invocation_tmp is None && state.invocation_profile is None
            && state.invocation_env_overlay is None && state.invocation_cancel_token is None,
{
}

/// A hook holds nothing that could reach beyond it: no gate, no mounts, no
/// configuration, no capabilities, no exemptions, no feed, no listener, no
/// session, no stores of users, no registry, no uplinks and no connections.
pub proof fn hooks_hold_nothing(state: HostState)
    requires
        grants_nothing(state),
    ensures
        state.security is None && state.home is None && state.tmp is None,
        state.capsule_log is None && state.config@.len() == 0 && state.secret_env@.len() == 0,
        !state.has_uplink_capability && !state.audit_firehose,
        !state.has_socket_listener && !state.has_session_token,
        !state.has_identity_store && !state.has_allowance_store,
        !state.has_capsule_registry && !state.has_profile_cache && !state.has_inbound,
        state.registered_uplinks == 0,
        state.capability_names@.len() == 0 && state.local_egress@.len() == 0,
        state.ipc_subscribe_patterns@.len() == 0 && state.spawn_mask_paths@.len() == 0,
        state.interceptor_handles@.len() == 0,
        slots_of(state.resource_table).dom() == Set::<u32>::empty(),
        state.net_stream_count == 0 && state.subscription_count == 0,
        state.process_count_total == 0,
        state.ingress_principal is None && state.ingress_device_key_id is None,
        state.ingress_origin is None,
{
}

/// The waits of a principal are cancelled by one token for as long as it is not
/// cancelled: a later invocation of the principal is given the same, and that of
/// another principal leaves it alone.
pub proof fn principals_keep_their_token(
    first: CancelTokens,
    second: CancelTokens,
    third: CancelTokens,
    principal: Seq<char>,
    other: Option<Seq<char>>,
    a: Option<u64>,
    b: Option<u64>,
)
    requires
        token_installed(first, second, Some(principal), a),
        token_installed(second, third, other, b),
    ensures
        a is Some,
        second.token_of(principal) == a,
        third.token_of(principal) == a,
        other == Some(principal) ==> b == a,
        other is None ==> b is None,
        first.token_of(principal) is Some ==> a == first.token_of(principal),
{
}

/// Registering a listener for others to share leaves those of other endpoints
/// alone, and is for the endpoint alone.
pub proof fn registrations_are_per_endpoint(
    before: SharedListeners,
    after: SharedListeners,
    host: Seq<char>,
    port: u16,
    listener: Arc<tokio::net::TcpListener>,
    other_host: Seq<char>,
    other_port: u16,
)
    requires
        registers(before, after, host, port, listener),
    ensures
        before.is_shared() ==> after.registered(host, port) == Some(listener),
        !before.is_shared() ==> after.registered(host, port) is None,
        other_host != host || other_port != port ==> after.registered(other_host, other_port)
            == before.registered(other_host, other_port),
        after.is_shared() == before.is_shared(),
{
}

/// A message that a run loop receives is in scope with what belongs to its
/// publisher and to nobody else; inside an interceptor call nothing changes,
/// because that belongs to its own caller.
pub proof fn received_messages_are_their_publishers(
    before: HostState,
    after: HostState,
    tokens_before: CancelTokens,
    tokens_after: CancelTokens,
    message: CallerContext,
    profile: Option<PrincipalProfile>,
    env: Option<Vec<(String, String)>>,
    kv_ok: bool,
    log: Option<u64>,
)
    requires
        receives(
            before,
            after,
            tokens_before,
            tokens_after,
            message,
            profile,
            env,
            kv_ok,
            log,
        ),
    ensures
        before.interceptor_active ==> after == before,
        !before.interceptor_active ==> {
            &&& after.caller_context == Some(message)
            &&& after.invocation_profile == profile
            &&& after.invocation_env_overlay == env
            &&& message.principal matches Some(p) ==> after.acting_principal() == p@
            &&& message.principal is None ==> after.acting_principal() == before.principal@
            &&& message.principal matches Some(p) ==> (kv_ok ==> namespace_in_force(after) == p@
                + ":capsule:"@ + before.capsule_id@ && keychain_in_force(after) == Some(
                before.capsule_id@ + ":"@ + p@,
            ) && after.invocation_capsule_log == log)
            &&& message.principal is None || !kv_ok ==> namespace_in_force(after) == before.kv@
                && after.invocation_secret_store is None && after.invocation_capsule_log is None
            &&& message.principal matches Some(p) ==> after.invocation_cancel_token
                == tokens_after.token_of(p@) && after.invocation_cancel_token is Some
            &&& message.principal is None ==> after.invocation_cancel_token is None
            &&& after.security == before.security && after.config == before.config
            &&& after.resource_table == before.resource_table
        },
{
}

}
