//! Loading a capsule: where its binary is, whether it may be run, and how its
//! instances are set up.
//!
//! A [`VerifiedWasm`] exists only for a binary whose BLAKE3 hash is the one
//! recorded when the capsule was installed, and only such a binary is loaded.

use vstd::prelude::*;
use vstd::string::*;
use vstd::utf8::*;

use crate::budget::{
    exempt, resolve_audit_firehose, resolve_run_loop_budget, run_loop_budget, CapabilityCheck,
    PrincipalProfile, RunLoopBudget, DEFAULT_RUN_LOOP_WINDOW_TICKS, EPOCH_TICK_MILLIS,
    WASM_CAPSULE_TIMEOUT_SECS,
};
use crate::capabilities::{ascending, CapabilitiesDef};
use crate::error::CapsuleError;
use crate::foreign::{
    blake3_hash, blake3_hex, json_member, json_string_member, new_uuid_v5, uuid_v5, wasm_payloads,
};
use crate::lists::{first_some, lemma_first_some_at, lemma_first_some_none};
use crate::manifest::{CapsuleManifest, EnvDef, InterceptorDef};
use crate::paths::{is_absolute, join, join_paths, joining_writes_one_slash};
use crate::prescan::{implements, wasm_exports_contain_run};
use crate::text::{
    decimal, decimal_text, eq_ignore_case, same, same_ignoring_case, starts_with, texts,
};
use crate::topic::{has_valid_segments, valid_segments};

verus! {

/// The configuration key of the runtime's socket path.
pub const SOCKET_PATH_KEY: &'static str = "ASTRID_SOCKET_PATH";

/// The file that records how a capsule was installed.
pub const META_FILE_NAME: &'static str = "meta.json";

/// The namespace of capsule identities.
pub const CAPSULE_ID_NAMESPACE: u128 = 0x310714d5_9c6d_4c94_8187_75258f393bb6;

/// How many topics a run-loop capsule is subscribed to by itself.
pub const MAX_AUTO_SUBSCRIBE: usize = 64;

/// Capacity of an uplink's inbound channel.
pub const INBOUND_CAPACITY: usize = 128;

/// An entry-point error with the given text.
pub open spec fn is_entry_error(e: CapsuleError, message: Seq<char>) -> bool {
    match e {
        CapsuleError::UnsupportedEntryPoint(m) => m@ == message,
        _ => false,
    }
}

/// An entry-point error: `what` followed by the text of a failure.
pub fn entry_failure(what: &str, failure: &str) -> (r: CapsuleError)
    ensures
        is_entry_error(r, what@ + failure@),
{
    let mut message = what.to_owned();
    message.append(failure);
    CapsuleError::UnsupportedEntryPoint(message)
}

/// The hash that `meta.json` records for the binary.
pub open spec fn recorded_hash(meta: Option<&str>) -> Option<Seq<char>> {
    match meta {
        Some(text) => json_string_member(text@, "wasm_hash"@),
        None => None,
    }
}

/// Whether an optional string has the given optional text.
pub open spec fn has_text(s: Option<String>, text: Option<Seq<char>>) -> bool {
    match s {
        Some(x) => text == Some(x@),
        None => text is None,
    }
}

/// The expected hash of a binary, from the content of `meta.json`, which is
/// absent where the file cannot be read.
pub fn read_expected_wasm_hash(meta: Option<&str>) -> (r: Option<String>)
    ensures
        has_text(r, recorded_hash(meta)),
{
    match meta {
        Some(text) => json_member(text, "wasm_hash"),
        None => None,
    }
}

/// The path of a binary stored under its hash: `lib/{hash}.wasm` in the Astrid
/// home.
pub open spec fn stored_path(home: Seq<char>, hash: Seq<char>) -> Seq<char> {
    join(join(home, "lib"@), hash + ".wasm"@)
}

/// The path of a stored binary for an optional home and an optional hash.
pub open spec fn stored_candidate(home: Option<&str>, hash: Option<Seq<char>>) -> Option<
    Seq<char>,
> {
    if home is Some && hash is Some {
        Some(stored_path(home->0@, hash->0))
    } else {
        None
    }
}

/// The path of a binary stored under its hash.
pub fn stored_wasm_path(home: &str, hash: &str) -> (r: String)
    ensures
        r@ == stored_path(home@, hash@),
{
    let mut name = hash.to_owned();
    name.append(".wasm");
    let lib = join_paths(home, "lib");
    join_paths(lib.as_str(), name.as_str())
}

/// Where the binary with a recorded hash would be stored. The caller looks
/// whether it is there.
pub fn resolve_content_addressed_wasm(meta: Option<&str>, home: Option<&str>) -> (r: Option<
    String,
>)
    ensures
        has_text(r, stored_candidate(home, recorded_hash(meta))),
{
    match (read_expected_wasm_hash(meta), home) {
        (Some(hash), Some(home)) => Some(stored_wasm_path(home, hash.as_str())),
        _ => None,
    }
}

/// Where the manifest says that the binary is.
#[derive(Debug)]
pub struct ComponentLocation {
    pub path: String,
    /// Whether the manifest gives an absolute path.
    pub absolute: bool,
}

/// Where the first component of a manifest is: its own path if it is absolute,
/// else below the capsule directory. A manifest without components cannot be
/// loaded.
pub fn locate_component(manifest: &CapsuleManifest, capsule_dir: &str) -> (r: Result<
    ComponentLocation,
    CapsuleError,
>)
    ensures
        match r {
            Ok(location) => {
                &&& manifest.components@.len() > 0
                &&& location.absolute == is_absolute(manifest.components@[0].path@)
                &&& location.path@ == join(capsule_dir@, manifest.components@[0].path@)
            },
            Err(e) => manifest.components@.len() == 0 && is_entry_error(
                e,
                "WASM engine requires at least one component definition"@,
            ),
        },
{
    if manifest.components.len() == 0 {
        return Err(
            CapsuleError::UnsupportedEntryPoint(
                "WASM engine requires at least one component definition".to_owned(),
            ),
        );
    }
    let path = manifest.components[0].path.as_str();
    Ok(
        ComponentLocation {
            path: join_paths(capsule_dir, path),
            absolute: starts_with(path, "/"),
        },
    )
}

/// The binary to read: the located one, unless it is relative and missing and
/// a stored one exists.
pub fn choose_wasm_path(
    location: ComponentLocation,
    local_exists: bool,
    stored: Option<String>,
) -> (r: String)
    ensures
        r@ == if location.absolute || local_exists || stored is None {
            location.path@
        } else {
            stored->0@
        },
{
    if location.absolute || local_exists {
        return location.path;
    }
    match stored {
        Some(path) => path,
        None => location.path,
    }
}

/// The value that a list of pairs gives a key: the last one.
pub open spec fn value_of(pairs: Seq<(String, String)>, key: Seq<char>) -> Option<Seq<char>>
    decreases pairs.len(),
{
    if pairs.len() == 0 {
        None
    } else if pairs.last().0@ == key {
        Some(pairs.last().1@)
    } else {
        value_of(pairs.drop_last(), key)
    }
}

/// Whether no key occurs twice in a list of pairs.
pub open spec fn keys_distinct(pairs: Seq<(String, String)>) -> bool {
    forall|i: int, j: int|
        0 <= i < j < pairs.len() ==> (#[trigger] pairs[i]).0@ != (#[trigger] pairs[j]).0@
}

proof fn lemma_value_of_at(pairs: Seq<(String, String)>, i: int)
    requires
        keys_distinct(pairs),
        0 <= i < pairs.len(),
    ensures
        value_of(pairs, pairs[i].0@) == Some(pairs[i].1@),
    decreases pairs.len(),
{
    if i < pairs.len() - 1 {
        assert(pairs[pairs.len() - 1].0@ != pairs[i].0@);
        assert forall|a: int, b: int|
            0 <= a < b < pairs.drop_last().len() implies (#[trigger] pairs.drop_last()[a]).0@ != (
        #[trigger] pairs.drop_last()[b]).0@ by {
            assert(pairs[a].0@ != pairs[b].0@);
        }
        lemma_value_of_at(pairs.drop_last(), i);
    }
}

proof fn lemma_value_of_absent(pairs: Seq<(String, String)>, key: Seq<char>)
    requires
        forall|i: int| 0 <= i < pairs.len() ==> (#[trigger] pairs[i]).0@ != key,
    ensures
        value_of(pairs, key) is None,
    decreases pairs.len(),
{
    if pairs.len() > 0 {
        lemma_value_of_absent(pairs.drop_last(), key);
    }
}

/// Sets a key of a list of pairs.
fn set_value(pairs: &mut Vec<(String, String)>, key: String, value: String)
    requires
        keys_distinct(old(pairs)@),
    ensures
        keys_distinct(final(pairs)@),
        forall|k: Seq<char>|
            #[trigger] value_of(final(pairs)@, k) == if k == key@ {
                Some(value@)
            } else {
                value_of(old(pairs)@, k)
            },
{
    let ghost before = pairs@;
    let n: usize = pairs.len();
    for i in 0..n
        invariant
            pairs@ == before,
            before == old(pairs)@,
            n == before.len(),
            keys_distinct(before),
            forall|j: int| 0 <= j < i ==> (#[trigger] before[j]).0@ != key@,
    {
        if same(pairs[i].0.as_str(), key.as_str()) {
            pairs.swap_remove(i);
            let ghost kept = pairs@;
            pairs.push((key, value));
            proof {
                assert(pairs@.drop_last() =~= kept);
                lemma_replaced(before, i as int, kept, pairs@);
            }
            return;
        }
    }
    pairs.push((key, value));
    proof {
        assert(pairs@.drop_last() =~= before);
        assert forall|a: int, b: int| 0 <= a < b < pairs@.len() implies (#[trigger] pairs@[a]).0@
            != (#[trigger] pairs@[b]).0@ by {
            assert(pairs@[a] == before[a]);
        }
    }
}

/// Taking a pair out and putting one of the same key at the end changes the
/// value of that key only.
proof fn lemma_replaced(
    before: Seq<(String, String)>,
    i: int,
    kept: Seq<(String, String)>,
    after: Seq<(String, String)>,
)
    requires
        keys_distinct(before),
        0 <= i < before.len(),
        kept == before.update(i, before.last()).drop_last(),
        after.len() == before.len(),
        after.drop_last() == kept,
        after.last().0@ == before[i].0@,
    ensures
        keys_distinct(after),
        forall|k: Seq<char>|
            #[trigger] value_of(after, k) == if k == before[i].0@ {
                Some(after.last().1@)
            } else {
                value_of(before, k)
            },
{
    let n = before.len() as int;
    assert forall|a: int| 0 <= a < n - 1 implies #[trigger] after[a] == before[if a == i {
        n - 1
    } else {
        a
    }] by {
        assert(after[a] == kept[a]);
    }
    assert forall|a: int, b: int| 0 <= a < b < after.len() implies (#[trigger] after[a]).0@ != (
    #[trigger] after[b]).0@ by {
        let x = if a == i {
            n - 1
        } else {
            a
        };
        let y = if b == n - 1 {
            i
        } else if b == i {
            n - 1
        } else {
            b
        };
        assert(after[a] == before[x]);
        assert(after[b].0@ == before[y].0@);
        assert(x != y);
        if x < y {
            assert(before[x].0@ != before[y].0@);
        } else {
            assert(before[y].0@ != before[x].0@);
        }
    }
    assert forall|k: Seq<char>| #[trigger] value_of(after, k) == if k == before[i].0@ {
        Some(after.last().1@)
    } else {
        value_of(before, k)
    } by {
        if k != before[i].0@ {
            if exists|j: int| 0 <= j < n && (#[trigger] before[j]).0@ == k {
                let j = choose|j: int| 0 <= j < n && (#[trigger] before[j]).0@ == k;
                lemma_value_of_at(before, j);
                let j2 = if j == n - 1 {
                    i
                } else {
                    j
                };
                assert(after[j2] == before[j]);
                lemma_value_of_at(after, j2);
            } else {
                lemma_value_of_absent(before, k);
                assert forall|j: int| 0 <= j < after.len() implies (#[trigger] after[j]).0@
                    != k by {
                    if j < n - 1 {
                        let x = if j == i {
                            n - 1
                        } else {
                            j
                        };
                        assert(after[j] == before[x]);
                    }
                }
                lemma_value_of_absent(after, k);
            }
        }
    }
}

/// The configuration keys that the environment of a capsule may not resolve:
/// the socket path's, where it is known.
pub fn reserved_config_keys(socket_known: bool) -> (r: Vec<String>)
    ensures
        texts(r@) == if socket_known {
            seq![SOCKET_PATH_KEY@]
        } else {
            Seq::<Seq<char>>::empty()
        },
{
    let mut keys: Vec<String> = Vec::new();
    if socket_known {
        keys.push(SOCKET_PATH_KEY.to_owned());
        assert(texts(keys@) =~= seq![SOCKET_PATH_KEY@]);
    } else {
        assert(texts(keys@) =~= Seq::<Seq<char>>::empty());
    }
    keys
}

/// The configuration of a capsule: the socket path, where it is known, then
/// the resolved environment, whose values win.
pub fn build_wasm_config(socket_path: Option<String>, env: Vec<(String, String)>) -> (r: Vec<
    (String, String),
>)
    ensures
        keys_distinct(r@),
        forall|k: Seq<char>|
            #[trigger] value_of(r@, k) == if value_of(env@, k) is Some {
                value_of(env@, k)
            } else if k == SOCKET_PATH_KEY@ && socket_path is Some {
                Some(socket_path->0@)
            } else {
                None
            },
{
    let mut config: Vec<(String, String)> = Vec::new();
    let ghost socket: Option<Seq<char>> = if socket_path is Some {
        Some(socket_path->0@)
    } else {
        None
    };
    if let Some(path) = socket_path {
        set_value(&mut config, SOCKET_PATH_KEY.to_owned(), path);
    }
    let ghost all = env@;
    assert(all.take(0).len() == 0);
    for pair in it: env
        invariant
            it.seq() == all,
            keys_distinct(config@),
            forall|k: Seq<char>|
                #[trigger] value_of(config@, k) == if value_of(
                    all.take(it.index() as int),
                    k,
                ) is Some {
                    value_of(all.take(it.index() as int), k)
                } else if k == SOCKET_PATH_KEY@ && socket is Some {
                    Some(socket->0)
                } else {
                    None
                },
    {
        let ghost i = it.index() as int;
        proof {
            assert(pair == all[i]);
            assert(all.take(i + 1).drop_last() =~= all.take(i));
            assert(all.take(i + 1).last() == all[i]);
        }
        let (key, value) = pair;
        set_value(&mut config, key, value);
    }
    assert(all.take(all.len() as int) =~= all);
    config
}

/// What a capsule's identity is derived from: its name and its content hash,
/// with a zero byte between them.
pub open spec fn identity_seed(name: Seq<char>, hash: Seq<char>) -> Seq<char> {
    name + "\0"@ + hash
}

/// The identity of a capsule. It depends on the name and the content hash
/// alone, so it is the same after a restart and for every principal.
pub fn capsule_source_id(name: &str, hash: &str) -> (r: u128)
    ensures
        r == uuid_v5(CAPSULE_ID_NAMESPACE, encode_utf8(identity_seed(name@, hash@))),
{
    let mut seed = name.to_owned();
    seed.append("\0");
    seed.append(hash);
    new_uuid_v5(CAPSULE_ID_NAMESPACE, seed.as_str().as_bytes())
}

/// What is wrong with a binary, given the recorded hash and the actual one.
pub open spec fn integrity_fault(
    name: Seq<char>,
    expected: Option<Seq<char>>,
    actual: Seq<char>,
) -> Option<Seq<char>> {
    match expected {
        None => Some(
            "WASM capsule '"@ + name
                + "' has no BLAKE3 hash in meta.json. Capsules must be installed via `astrid capsule install` which records the hash. Refusing to load unverified binary."@,
        ),
        Some(hash) => if hash == actual {
            None
        } else {
            Some(
                "WASM integrity check failed: expected BLAKE3 "@ + hash + ", got "@ + actual
                    + ". The binary may have been tampered with."@,
            )
        },
    }
}

/// Compares the recorded hash of a binary with its actual one. Without a
/// recorded hash nothing is loaded.
pub fn check_integrity(name: &str, expected: Option<&str>, actual: &str) -> (r: Result<
    (),
    CapsuleError,
>)
    ensures
        ({
            let fault = integrity_fault(
                name@,
                match expected {
                    Some(hash) => Some(hash@),
                    None => None,
                },
                actual@,
            );
            match r {
                Ok(()) => fault is None,
                Err(e) => fault is Some && is_entry_error(e, fault->0),
            }
        }),
{
    match expected {
        Some(hash) => {
            if same(hash, actual) {
                return Ok(());
            }
            let mut message = "WASM integrity check failed: expected BLAKE3 ".to_owned();
            message.append(hash);
            message.append(", got ");
            message.append(actual);
            message.append(". The binary may have been tampered with.");
            Err(CapsuleError::UnsupportedEntryPoint(message))
        },
        None => {
            let mut message = "WASM capsule '".to_owned();
            message.append(name);
            message.append(
                "' has no BLAKE3 hash in meta.json. Capsules must be installed via `astrid capsule install` which records the hash. Refusing to load unverified binary.",
            );
            Err(CapsuleError::UnsupportedEntryPoint(message))
        },
    }
}

/// A binary whose hash is the recorded one.
#[derive(Debug)]
pub struct VerifiedWasm {
    bytes: Vec<u8>,
    hash: String,
}

impl VerifiedWasm {
    #[verifier::type_invariant]
    spec fn hash_matches(self) -> bool {
        self.hash@ == blake3_hex(self.bytes@)
    }

    /// The binary.
    pub closed spec fn content(&self) -> Seq<u8> {
        self.bytes@
    }

    /// Verifies what reading a binary gave against the content of
    /// `meta.json`.
    pub fn verify(name: &str, read: Result<Vec<u8>, String>, meta: Option<&str>) -> (r: Result<
        VerifiedWasm,
        CapsuleError,
    >)
        ensures
            match read {
                Err(failure) => r matches Err(e) && is_entry_error(
                    e,
                    "Failed to read WASM: "@ + failure@,
                ),
                Ok(bytes) => {
                    let fault = integrity_fault(name@, recorded_hash(meta), blake3_hex(bytes@));
                    match r {
                        Ok(wasm) => fault is None && wasm.content() == bytes@,
                        Err(e) => fault is Some && is_entry_error(e, fault->0),
                    }
                },
            },
    {
        let bytes = match read {
            Ok(bytes) => bytes,
            Err(failure) => return Err(entry_failure("Failed to read WASM: ", failure.as_str())),
        };
        let hash = blake3_hash(bytes.as_slice());
        let expected = read_expected_wasm_hash(meta);
        let expected_text: Option<&str> = match &expected {
            Some(text) => Some(text.as_str()),
            None => None,
        };
        match check_integrity(name, expected_text, hash.as_str()) {
            Ok(()) => Ok(VerifiedWasm { bytes, hash }),
            Err(e) => Err(e),
        }
    }

    /// The binary.
    pub fn bytes(&self) -> (r: &Vec<u8>)
        ensures
            r@ == self.content(),
    {
        &self.bytes
    }

    /// The hash of the binary.
    pub fn hash(&self) -> (r: &str)
        ensures
            r@ == blake3_hex(self.content()),
    {
        proof {
            use_type_invariant(self);
        }
        self.hash.as_str()
    }
}

/// How the workspace of a capsule is mounted.
#[derive(Debug, Clone, Copy, PartialEq, Eq, Structural)]
pub enum WorkspaceChoice {
    /// Directly: the workspace is under version control, which is its way
    /// back.
    Direct,
    /// Through a copy-on-write clone below the Astrid home.
    CopyOnWrite,
    /// Directly, for want of a safe place for a clone.
    NoCopyOnWrite,
}

/// Chooses how the workspace is mounted. A workspace that is not under version
/// control gets a copy-on-write clone, and never one in a shared temporary
/// directory.
pub fn choose_workspace(git_managed: bool, home_known: bool) -> (r: WorkspaceChoice)
    ensures
        r == if git_managed {
            WorkspaceChoice::Direct
        } else if home_known {
            WorkspaceChoice::CopyOnWrite
        } else {
            WorkspaceChoice::NoCopyOnWrite
        },
{
    if git_managed {
        WorkspaceChoice::Direct
    } else if home_known {
        WorkspaceChoice::CopyOnWrite
    } else {
        WorkspaceChoice::NoCopyOnWrite
    }
}

/// The root of a mounted workspace: its path as it was given, and the canonical
/// form of it.
#[derive(Debug)]
pub struct MountedRoot {
    pub path: String,
    pub canonical: String,
}

/// A workspace that is mounted.
#[derive(Debug)]
pub struct WorkspaceSetup {
    /// The one root that files and spawned processes use.
    pub root: String,
    /// The canonical form of the root, which the security gate goes by.
    pub canonical_root: String,
    /// Whether a copy-on-write backend is kept for commits.
    pub has_backend: bool,
    /// Paths hidden from spawned processes.
    pub masked: Vec<String>,
}

/// Whether a workspace has a mounted root.
pub open spec fn is_rooted_at(setup: WorkspaceSetup, root: MountedRoot) -> bool {
    setup.root == root.path && setup.canonical_root == root.canonical
}

/// The workspace setup for a choice, after the directory was registered: the
/// workspace itself where it is mounted directly under version control, else
/// what preparing the clone gave.
pub fn workspace_setup(
    choice: WorkspaceChoice,
    workspace_root: MountedRoot,
    merged_root: MountedRoot,
    masked: Vec<String>,
    registered: Result<(), String>,
) -> (r: Result<WorkspaceSetup, CapsuleError>)
    ensures
        match registered {
            Err(failure) => r matches Err(e) && is_entry_error(
                e,
                "Failed to register VFS directory: "@ + failure@,
            ),
            Ok(()) => r matches Ok(setup) && if choice == WorkspaceChoice::Direct {
                is_rooted_at(setup, workspace_root) && !setup.has_backend && setup.masked@.len()
                    == 0
            } else {
                is_rooted_at(setup, merged_root) && setup.has_backend && setup.masked == masked
            },
        },
{
    match registered {
        Err(failure) => Err(entry_failure("Failed to register VFS directory: ", failure.as_str())),
        Ok(()) => match choice {
            WorkspaceChoice::Direct => Ok(
                WorkspaceSetup {
                    root: workspace_root.path,
                    canonical_root: workspace_root.canonical,
                    has_backend: false,
                    masked: Vec::new(),
                },
            ),
            _ => Ok(
                WorkspaceSetup {
                    root: merged_root.path,
                    canonical_root: merged_root.canonical,
                    has_backend: true,
                    masked,
                },
            ),
        },
    }
}

/// The environment keys that hold secrets, in order: those whose declared type
/// is `secret` in any letter case.
pub open spec fn secret_keys(env: Seq<EnvDef>) -> Seq<Seq<char>>
    decreases env.len(),
{
    if env.len() == 0 {
        Seq::empty()
    } else {
        let rest = secret_keys(env.drop_last());
        if eq_ignore_case(env.last().env_type@, "secret"@) {
            rest.push(env.last().key@)
        } else {
            rest
        }
    }
}

/// The environment keys that hold secrets.
pub fn secret_env_keys(env: &Vec<EnvDef>) -> (r: Vec<String>)
    ensures
        texts(r@) == secret_keys(env@),
{
    let mut keys: Vec<String> = Vec::new();
    assert(texts(keys@) =~= secret_keys(env@.take(0)));
    for i in 0..env.len()
        invariant
            texts(keys@) == secret_keys(env@.take(i as int)),
    {
        proof {
            assert(env@.take(i + 1).drop_last() =~= env@.take(i as int));
            assert(env@.take(i + 1).last() == env@[i as int]);
        }
        if same_ignoring_case(env[i].env_type.as_str(), "secret") {
            let ghost before = keys@;
            let key = env[i].key.clone();
            keys.push(key);
            assert(texts(keys@) =~= texts(before).push(key@));
        }
    }
    assert(env@.take(env@.len() as int) =~= env@);
    keys
}

/// The number of run-loop workers: the declared count for a capsule with a run
/// loop that binds sockets and runs no host processes, else one.
pub open spec fn worker_count(caps: CapabilitiesDef, has_run: bool) -> usize {
    match caps.bind_workers {
        Some(n) if has_run && caps.net_bind@.len() > 0 && caps.host_process@.len() == 0 && n > 0 => n,
        _ => 1,
    }
}

/// The concurrency limits of the host.
#[derive(Debug, Clone, Copy, PartialEq, Eq, Structural)]
pub struct RuntimeLimits {
    /// Most instances in a pool.
    pub instance_pool_size: usize,
    /// Instances that a pool starts with and shrinks to.
    pub instance_pool_min_idle: usize,
}

/// How a run loop's store is bounded.
#[derive(Debug, Clone, Copy, PartialEq, Eq, Structural)]
pub struct RunLoopPlan {
    /// Fuel of the store. A run loop is never bounded by fuel.
    pub fuel: u64,
    /// Ticks between two epoch decisions.
    pub window_ticks: u64,
    /// Whether the run loop may be interrupted.
    pub interruptible: bool,
}

/// How a capsule's instances are set up.
#[derive(Debug)]
#[non_exhaustive]
pub struct LoadPlan {
    /// Whether the capsule has a run loop.
    pub has_run: bool,
    pub budget: RunLoopBudget,
    pub audit_firehose: bool,
    /// Epoch deadline of a fresh instance, in ticks, until a call sets its own.
    pub pool_epoch_deadline: u64,
    /// Most instances.
    pub pool_max: usize,
    /// Instances built at once.
    pub pool_min_idle: usize,
    /// Whether an instance's resources are cleared when it is returned.
    pub reset_resources_on_return: bool,
    /// The run loop's store, where there is a run loop.
    pub run_loop: Option<RunLoopPlan>,
    /// Concurrent run-loop workers.
    pub workers: usize,
    /// Whether the capsule gets the socket listener and the session token.
    pub gets_listener: bool,
    pub has_uplink: bool,
    /// Names of the held capabilities.
    pub capability_names: Vec<String>,
    /// Environment keys that hold secrets.
    pub secret_env: Vec<String>,
    /// Capacity of the inbound channel, where there is one.
    pub inbound_capacity: Option<usize>,
    /// Whether the tasks that look after host processes are started.
    pub watches_processes: bool,
}

/// Whether a plan is the one for a manifest, a binary and an owner.
pub open spec fn is_plan_for(
    plan: LoadPlan,
    manifest: CapsuleManifest,
    content: Seq<u8>,
    profile: Option<&PrincipalProfile>,
    check: Option<&CapabilityCheck>,
    limits: RuntimeLimits,
) -> bool {
    is_plan_given(
        plan,
        manifest,
        implements("run"@, wasm_payloads(content)),
        profile,
        check,
        limits,
    )
}

/// Whether a plan is the one for a manifest and an owner, given whether the
/// binary has a run loop.
pub open spec fn is_plan_given(
    plan: LoadPlan,
    manifest: CapsuleManifest,
    runs: bool,
    profile: Option<&PrincipalProfile>,
    check: Option<&CapabilityCheck>,
    limits: RuntimeLimits,
) -> bool {
    let caps = manifest.capabilities;
    let budget = run_loop_budget(profile, check, runs);
    let processes = caps.host_process@.len() > 0;
    &&& plan.has_run == runs
    &&& plan.budget == budget
    &&& plan.audit_firehose == (profile is Some && check is Some && check->0.audit_read_all)
    &&& plan.pool_epoch_deadline == if budget.exempt {
        u64::MAX
    } else {
        3000
    }
    &&& plan.pool_max == if runs || processes {
        1
    } else {
        limits.instance_pool_size
    }
    &&& plan.pool_min_idle == if runs || processes {
        1
    } else {
        limits.instance_pool_min_idle
    }
    &&& plan.reset_resources_on_return == !processes
    &&& plan.run_loop == if runs {
        Some(
            RunLoopPlan {
                fuel: u64::MAX,
                window_ticks: match budget.window_ticks {
                    Some(ticks) => ticks,
                    None => DEFAULT_RUN_LOOP_WINDOW_TICKS,
                },
                interruptible: budget.bound_run_loop,
            },
        )
    } else {
        None
    }
    &&& plan.workers == worker_count(caps, runs)
    &&& plan.gets_listener == (caps.net_bind@.len() > 0)
    &&& plan.has_uplink == caps.uplink
    &&& ascending(texts(plan.capability_names@))
    &&& forall|n: Seq<char>|
        #[trigger] texts(plan.capability_names@).contains(n) == caps.holds(n)
    &&& texts(plan.secret_env@) == secret_keys(manifest.env@)
    &&& plan.inbound_capacity == if manifest.uplinks@.len() > 0 {
        Some(INBOUND_CAPACITY)
    } else {
        None
    }
    &&& plan.watches_processes == processes
}

/// Plans the instances of a capsule from its verified binary. The owner's
/// profile and the permission system's answers are absent where they are not
/// known; the bounds then apply.
pub fn plan_load(
    manifest: &CapsuleManifest,
    wasm: &VerifiedWasm,
    profile: Option<&PrincipalProfile>,
    check: Option<&CapabilityCheck>,
    limits: RuntimeLimits,
) -> (r: LoadPlan)
    ensures
        is_plan_for(r, *manifest, wasm.content(), profile, check, limits),
{
    let has_run = wasm_exports_contain_run(wasm.bytes().as_slice());
    plan_given(manifest, has_run, profile, check, limits)
}

/// Plans the instances of a capsule, given whether its binary has a run loop.
pub fn plan_given(
    manifest: &CapsuleManifest,
    has_run: bool,
    profile: Option<&PrincipalProfile>,
    check: Option<&CapabilityCheck>,
    limits: RuntimeLimits,
) -> (r: LoadPlan)
    ensures
        is_plan_given(r, *manifest, has_run, profile, check, limits),
{
    let budget = resolve_run_loop_budget(profile, check, has_run);
    let audit_firehose = resolve_audit_firehose(profile, check);
    let pool_epoch_deadline: u64 = if budget.exempt {
        u64::MAX
    } else {
        WASM_CAPSULE_TIMEOUT_SECS * 1000 / EPOCH_TICK_MILLIS
    };
    let caps = &manifest.capabilities;
    let processes = caps.host_process.len() > 0;
    let single = has_run || processes;
    let pool_max: usize = if single { 1 } else { limits.instance_pool_size };
    let pool_min_idle: usize = if single { 1 } else { limits.instance_pool_min_idle };
    let run_loop: Option<RunLoopPlan> = if has_run {
        let window_ticks: u64 = match budget.window_ticks {
            Some(ticks) => ticks,
            None => DEFAULT_RUN_LOOP_WINDOW_TICKS,
        };
        Some(
            RunLoopPlan { fuel: u64::MAX, window_ticks, interruptible: budget.bound_run_loop },
        )
    } else {
        None
    };
    let workers: usize = match caps.bind_workers {
        Some(n) => if has_run && caps.net_bind.len() > 0 && !processes && n > 0 {
            n
        } else {
            1
        },
        None => 1,
    };
    LoadPlan {
        has_run,
        budget,
        audit_firehose,
        pool_epoch_deadline,
        pool_max,
        pool_min_idle,
        reset_resources_on_return: !processes,
        run_loop,
        workers,
        gets_listener: caps.net_bind.len() > 0,
        has_uplink: caps.uplink,
        capability_names: caps.held_names(),
        secret_env: secret_env_keys(&manifest.env),
        inbound_capacity: if manifest.uplinks.len() > 0 {
            Some(INBOUND_CAPACITY)
        } else {
            None
        },
        watches_processes: processes,
    }
}

/// A topic that a run-loop capsule is subscribed to.
#[derive(Debug, Clone)]
pub struct InterceptorHandle {
    pub handle_id: u64,
    pub action: String,
    pub topic: String,
}

/// Whether handles stand for bindings, numbered from zero.
pub open spec fn handles_for(handles: Seq<InterceptorHandle>, defs: Seq<InterceptorDef>) -> bool {
    &&& handles.len() == defs.len()
    &&& forall|i: int|
        0 <= i < handles.len() ==> {
            &&& (#[trigger] handles[i]).handle_id == i
            &&& handles[i].action == defs[i].action
            &&& handles[i].topic == defs[i].event
        }
}

/// What is wrong with an interceptor's topic.
pub open spec fn event_fault(event: Seq<char>) -> Option<Seq<char>> {
    if valid_segments(event) {
        None
    } else {
        Some(
            "Interceptor event '"@ + event
                + "' has invalid segment structure (empty segments, leading/trailing dots, or empty string)"@,
        )
    }
}

/// What is wrong with the interceptors of a run-loop capsule: too many, or
/// the first bad topic.
pub open spec fn interceptors_fault(name: Seq<char>, defs: Seq<InterceptorDef>) -> Option<
    Seq<char>,
> {
    if defs.len() > MAX_AUTO_SUBSCRIBE {
        Some(
            "Capsule '"@ + name + "' declares "@ + decimal(defs.len())
                + " interceptors, exceeding the auto-subscribe limit (64)"@,
        )
    } else {
        first_some(defs.map_values(|d: InterceptorDef| event_fault(d.event@)))
    }
}

/// The topics that a capsule is subscribed to: those of its interceptors if it
/// has a run loop, else none.
pub fn plan_interceptors(name: &str, has_run: bool, defs: &Vec<InterceptorDef>) -> (r: Result<
    Vec<InterceptorHandle>,
    CapsuleError,
>)
    ensures
        if !has_run {
            r matches Ok(handles) && handles@.len() == 0
        } else {
            match interceptors_fault(name@, defs@) {
                Some(fault) => r matches Err(e) && is_entry_error(e, fault),
                None => r matches Ok(handles) && handles_for(handles@, defs@),
            }
        },
{
    let mut handles: Vec<InterceptorHandle> = Vec::new();
    if !has_run {
        return Ok(handles);
    }
    if defs.len() > MAX_AUTO_SUBSCRIBE {
        let mut message = "Capsule '".to_owned();
        message.append(name);
        message.append("' declares ");
        let count = decimal_text(defs.len() as u64);
        message.append(count.as_str());
        message.append(" interceptors, exceeding the auto-subscribe limit (64)");
        return Err(CapsuleError::UnsupportedEntryPoint(message));
    }
    let ghost faults = defs@.map_values(|d: InterceptorDef| event_fault(d.event@));
    for i in 0..defs.len()
        invariant
            has_run,
            defs.len() <= MAX_AUTO_SUBSCRIBE,
            faults == defs@.map_values(|d: InterceptorDef| event_fault(d.event@)),
            forall|j: int| 0 <= j < i ==> (#[trigger] faults[j]) is None,
    {
        let event = defs[i].event.as_str();
        assert(faults[i as int] == event_fault(event@));
        if !has_valid_segments(event) {
            let mut message = "Interceptor event '".to_owned();
            message.append(event);
            message.append(
                "' has invalid segment structure (empty segments, leading/trailing dots, or empty string)",
            );
            proof {
                lemma_first_some_at(faults, i as int);
            }
            return Err(CapsuleError::UnsupportedEntryPoint(message));
        }
    }
    proof {
        lemma_first_some_none(faults);
    }
    for i in 0..defs.len()
        invariant
            handles.len() == i,
            handles_for(handles@, defs@.take(i as int)),
    {
        handles.push(
            InterceptorHandle {
                handle_id: i as u64,
                action: defs[i].action.clone(),
                topic: defs[i].event.clone(),
            },
        );
    }
    assert(defs@.take(defs@.len() as int) =~= defs@);
    Ok(handles)
}

/// A plan never both interrupts a run loop and exempts it, and a capsule with a
/// run loop or with host processes has a single instance.
pub proof fn plans_are_consistent(
    plan: LoadPlan,
    manifest: CapsuleManifest,
    content: Seq<u8>,
    profile: Option<&PrincipalProfile>,
    check: Option<&CapabilityCheck>,
    limits: RuntimeLimits,
)
    requires
        is_plan_for(plan, manifest, content, profile, check, limits),
    ensures
        plan.has_run == (plan.run_loop is Some),
        plan.run_loop is Some ==> plan.run_loop->0.interruptible == !exempt(profile, check),
        plan.run_loop is Some ==> 1 <= plan.run_loop->0.window_ticks
            <= DEFAULT_RUN_LOOP_WINDOW_TICKS,
        plan.has_run || plan.watches_processes ==> plan.pool_max == 1 && plan.pool_min_idle == 1,
        plan.watches_processes == !plan.reset_resources_on_return,
        profile is None || check is None ==> !plan.audit_firehose && plan.pool_epoch_deadline
            == 3000,
{
    crate::budget::bound_windows_are_finite(profile, check, plan.has_run);
}

/// What a manifest declares never changes the bounds of a run loop nor who
/// sees the audit feed: two manifests with the same binary and owner are
/// bounded alike.
pub proof fn manifest_grants_no_exemption(
    a: LoadPlan,
    b: LoadPlan,
    first: CapsuleManifest,
    second: CapsuleManifest,
    content: Seq<u8>,
    profile: Option<&PrincipalProfile>,
    check: Option<&CapabilityCheck>,
    limits: RuntimeLimits,
)
    requires
        is_plan_for(a, first, content, profile, check, limits),
        is_plan_for(b, second, content, profile, check, limits),
    ensures
        a.budget == b.budget,
        a.audit_firehose == b.audit_firehose,
        a.pool_epoch_deadline == b.pool_epoch_deadline,
        a.run_loop == b.run_loop,
{
}

/// A capsule that neither runs nor has host processes may have as many instances
/// as the host allows, and starts with as many as the host keeps idle.
pub proof fn pools_are_as_large_as_the_host_allows(
    plan: LoadPlan,
    manifest: CapsuleManifest,
    runs: bool,
    profile: Option<&PrincipalProfile>,
    check: Option<&CapabilityCheck>,
    limits: RuntimeLimits,
)
    requires
        is_plan_given(plan, manifest, runs, profile, check, limits),
    ensures
        !runs && manifest.capabilities.host_process@.len() == 0 ==> plan.pool_max
            == limits.instance_pool_size && plan.pool_min_idle == limits.instance_pool_min_idle,
        runs || manifest.capabilities.host_process@.len() > 0 ==> plan.pool_max == 1
            && plan.pool_min_idle == 1,
        plan.reset_resources_on_return <==> manifest.capabilities.host_process@.len() == 0,
        plan.watches_processes <==> manifest.capabilities.host_process@.len() > 0,
        plan.has_run == runs,
{
}

/// A plan gives a capsule what its manifest declares: the listener with a bind
/// entry, the uplink with its flag, and an inbound channel with an uplink.
pub proof fn plans_follow_the_manifest(
    plan: LoadPlan,
    manifest: CapsuleManifest,
    runs: bool,
    profile: Option<&PrincipalProfile>,
    check: Option<&CapabilityCheck>,
    limits: RuntimeLimits,
    name: Seq<char>,
)
    requires
        is_plan_given(plan, manifest, runs, profile, check, limits),
    ensures
        plan.gets_listener <==> manifest.capabilities.net_bind@.len() > 0,
        plan.has_uplink == manifest.capabilities.uplink,
        plan.inbound_capacity is Some <==> manifest.uplinks@.len() > 0,
        plan.inbound_capacity is Some ==> plan.inbound_capacity->0 == 128,
        texts(plan.capability_names@).contains(name) == manifest.capabilities.holds(name),
        plan.audit_firehose <==> profile is Some && check is Some && check->0.audit_read_all,
{
}

/// A run loop is never bounded by fuel; it may be interrupted exactly where its
/// owner is not exempt, and is looked at after the window of its owner.
pub proof fn run_loops_are_bounded_by_windows(
    plan: LoadPlan,
    manifest: CapsuleManifest,
    runs: bool,
    profile: Option<&PrincipalProfile>,
    check: Option<&CapabilityCheck>,
    limits: RuntimeLimits,
)
    requires
        is_plan_given(plan, manifest, runs, profile, check, limits),
    ensures
        plan.run_loop is Some <==> runs,
        plan.run_loop is Some ==> plan.run_loop->0.fuel == u64::MAX,
        plan.run_loop is Some ==> (plan.run_loop->0.interruptible <==> !(profile is Some && check
            is Some && (check->0.resources_unbounded || check->0.net_bind || check->0.uplink))),
        runs ==> plan.run_loop->0.interruptible == plan.budget.bound_run_loop,
        plan.budget.window_ticks is Some ==> plan.run_loop is Some
            && plan.run_loop->0.window_ticks == plan.budget.window_ticks->0,
        runs && plan.budget.window_ticks is None ==> plan.run_loop->0.window_ticks
            == 50,
        plan.budget == crate::budget::run_loop_budget(profile, check, runs),
        plan.budget.exempt ==> plan.pool_epoch_deadline == u64::MAX,
        !plan.budget.exempt ==> plan.pool_epoch_deadline * 100
            == 300 * 1000,
{
}

/// A run loop that binds sockets and has no host processes gets as many workers
/// as the manifest asks for, if it asks for any; every other capsule has one.
pub proof fn workers_are_those_asked_for(caps: CapabilitiesDef, has_run: bool)
    ensures
        has_run && caps.net_bind@.len() > 0 && caps.host_process@.len() == 0 && caps.bind_workers
            is Some && caps.bind_workers->0 >= 1 ==> worker_count(caps, has_run)
            == caps.bind_workers->0,
        !has_run || caps.net_bind@.len() == 0 || caps.host_process@.len() > 0 || caps.bind_workers
            is None || caps.bind_workers->0 == 0 ==> worker_count(caps, has_run) == 1,
        worker_count(caps, has_run) >= 1,
{
}

/// The keys that hold secrets are those that are declared with the type `secret`
/// in any letter case.
pub proof fn secret_keys_are_the_declared_ones(env: Seq<EnvDef>, key: Seq<char>)
    ensures
        secret_keys(env).contains(key) <==> exists|i: int|
            0 <= i < env.len() && (#[trigger] env[i]).key@ == key && eq_ignore_case(
                env[i].env_type@,
                "secret"@,
            ),
    decreases env.len(),
{
    if env.len() > 0 {
        let front = env.drop_last();
        let rest = secret_keys(front);
        let all = secret_keys(env);
        secret_keys_are_the_declared_ones(front, key);
        if all.contains(key) {
            let k = choose|k: int| 0 <= k < all.len() && all[k] == key;
            if k < rest.len() {
                assert(rest[k] == key);
                let i = choose|i: int|
                    0 <= i < front.len() && (#[trigger] front[i]).key@ == key && eq_ignore_case(
                        front[i].env_type@,
                        "secret"@,
                    );
                assert(env[i].key@ == key);
            } else {
                assert(env[env.len() - 1].key@ == key);
            }
        }
        if exists|i: int|
            0 <= i < env.len() && (#[trigger] env[i]).key@ == key && eq_ignore_case(
                env[i].env_type@,
                "secret"@,
            ) {
            let i = choose|i: int|
                0 <= i < env.len() && (#[trigger] env[i]).key@ == key && eq_ignore_case(
                    env[i].env_type@,
                    "secret"@,
                );
            if i < front.len() {
                assert(front[i].key@ == key);
                let k = choose|k: int| 0 <= k < rest.len() && rest[k] == key;
                assert(all[k] == key);
            } else {
                assert(all[all.len() - 1] == key);
            }
        }
    }
}

/// A binary is accepted exactly where the recorded hash is its own.
pub proof fn recorded_binaries_are_accepted(
    name: Seq<char>,
    expected: Option<Seq<char>>,
    actual: Seq<char>,
)
    ensures
        integrity_fault(name, expected, actual) is None <==> expected == Some(actual),
{
}

/// Capsules of different names, or of the same name and different binaries, have
/// different seeds, as long as no name holds a zero character.
pub proof fn identities_have_seeds_of_their_own(
    name: Seq<char>,
    hash: Seq<char>,
    other: Seq<char>,
    other_hash: Seq<char>,
)
    requires
        !name.contains('\0'),
        !other.contains('\0'),
        identity_seed(name, hash) == identity_seed(other, other_hash),
    ensures
        name == other && hash == other_hash,
{
    reveal_strlit("\0");
    let x = identity_seed(name, hash);
    let y = identity_seed(other, other_hash);
    assert(x[name.len() as int] == '\0');
    assert(y[other.len() as int] == '\0');
    if name.len() < other.len() {
        assert(y[name.len() as int] == other[name.len() as int]);
        assert(other.contains(other[name.len() as int]));
    }
    if other.len() < name.len() {
        assert(x[other.len() as int] == name[other.len() as int]);
        assert(name.contains(name[other.len() as int]));
    }
    assert(name =~= x.take(name.len() as int));
    assert(other =~= y.take(other.len() as int));
    assert(hash =~= x.skip((name.len() + 1) as int));
    assert(other_hash =~= y.skip((other.len() + 1) as int));
}

/// A stored binary has its hash for a name, in the library of the Astrid home.
pub proof fn stored_binaries_are_named_by_their_hash(home: Seq<char>, hash: Seq<char>)
    requires
        home.len() > 0,
        home.last() != '/',
        hash.len() > 0,
        hash[0] != '/',
    ensures
        stored_path(home, hash) == home + "/lib/"@ + hash + ".wasm"@,
{
    reveal_strlit("lib");
    reveal_strlit("/lib/");
    reveal_strlit(".wasm");
    joining_writes_one_slash(home, "lib"@);
    let lib = home + seq!['/'] + "lib"@;
    assert(lib.last() == 'b');
    joining_writes_one_slash(lib, hash + ".wasm"@);
    assert(stored_path(home, hash) =~= home + "/lib/"@ + hash + ".wasm"@);
}

}
