//! The security gate: what a capsule may do, decided from the capabilities
//! that its manifest declares.
//!
//! `cwd://` entries are resolved when the security gate is built. `home://` entries are
//! resolved when a path is checked, so that a shared capsule reaches the home
//! of the principal that calls it.

use vstd::prelude::*;
use vstd::string::*;

use crate::capabilities::{declare_alike, CapabilitiesDef};
use crate::foreign::{debug_list, debug_strings, parse_url_host, url_host};
use crate::manifest::CapsuleManifest;
use crate::paths::{
    below, climbing_is_a_part_of_two_dots, climbs, has_parent_component, is_under,
    is_under_is_transitive, lies_under, place_below, placed_path_is_under_base,
};
use crate::text::{
    contains, decimal, decimal_numbers_are_read_back, decimal_text, ends_with, eq_ignore_case,
    is_digit, last_split_is_undone_by_joining, lemma_decimal_denotes, lemma_rsplit_once_tail,
    parse_u16, rsplit_at, rsplit_once, same, same_ignoring_case, split, starts_with, strip_prefix,
    texts, u16_of,
};

verus! {

/// Whether a `host:port` pattern covers a destination. The host is `*` for
/// every host, or a name that is compared literally up to ASCII letter case:
/// there are no wildcards within names. The port is a decimal number or `*`.
pub open spec fn endpoint_covered(pattern: Seq<char>, host: Seq<char>, port: u16) -> bool {
    match rsplit_once(pattern, ':') {
        None => false,
        Some((pattern_host, pattern_port)) => {
            &&& pattern_host == "*"@ || eq_ignore_case(pattern_host, host)
            &&& pattern_port == "*"@ || u16_of(pattern_port) == Some(port)
        },
    }
}

/// Whether an allowlist entry covers a literal `host:port`.
///
/// - `host:port` matches exactly.
/// - `host:*` matches any port of the named host.
/// - `*:port` matches that port of any host.
pub fn net_connect_pattern_matches(pattern: &str, host: &str, port: u16) -> (r: bool)
    ensures
        r == endpoint_covered(pattern@, host@, port),
{
    match rsplit_at(pattern, ':') {
        None => false,
        Some((pattern_host, pattern_port)) => {
            if !same(pattern_host, "*") && !same_ignoring_case(pattern_host, host) {
                return false;
            }
            if same(pattern_port, "*") {
                return true;
            }
            match parse_u16(pattern_port) {
                Some(n) => n == port,
                None => false,
            }
        },
    }
}

/// Whether some pattern of a list covers a destination.
pub open spec fn any_endpoint_covers(list: Seq<String>, host: Seq<char>, port: u16) -> bool {
    exists|i: int| 0 <= i < list.len() && endpoint_covered((#[trigger] list[i])@, host, port)
}

/// A bind entry that names a Unix socket.
pub open spec fn is_unix_entry(entry: Seq<char>) -> bool {
    "unix:"@.is_prefix_of(entry)
}

/// Whether some entry that is no Unix socket covers a TCP bind address.
pub open spec fn any_tcp_bind_covers(list: Seq<String>, host: Seq<char>, port: u16) -> bool {
    exists|i: int|
        0 <= i < list.len() && !is_unix_entry((#[trigger] list[i])@) && endpoint_covered(
            list[i]@,
            host,
            port,
        )
}

/// Whether a domain entry covers a host: any host for `*`, else the domain
/// itself and its subdomains.
pub open spec fn domain_covers(domain: Seq<char>, host: Seq<char>) -> bool {
    domain == "*"@ || host == domain || ("."@ + domain).is_suffix_of(host)
}

/// Whether some domain of a list covers a host.
pub open spec fn any_domain_covers(list: Seq<String>, host: Seq<char>) -> bool {
    exists|i: int| 0 <= i < list.len() && domain_covers((#[trigger] list[i])@, host)
}

/// Whether a command entry covers a command line: the same text, or the entry
/// followed by a space.
pub open spec fn command_covers(entry: Seq<char>, command: Seq<char>) -> bool {
    command == entry || (entry + " "@).is_prefix_of(command)
}

/// Whether some command entry covers a command line.
pub open spec fn any_command_covers(list: Seq<String>, command: Seq<char>) -> bool {
    exists|i: int| 0 <= i < list.len() && command_covers((#[trigger] list[i])@, command)
}

/// Whether a list has an entry that is not empty.
pub open spec fn any_nonempty(list: Seq<String>) -> bool {
    exists|i: int| 0 <= i < list.len() && (#[trigger] list[i])@.len() > 0
}

/// A file entry that is resolved against a principal's home.
pub open spec fn is_home_entry(entry: Seq<char>) -> bool {
    "home://"@.is_prefix_of(entry)
}

/// The path pattern of an entry that does not depend on a home.
pub open spec fn static_pattern(entry: Seq<char>, workspace: Seq<char>) -> Seq<char> {
    if "cwd://"@.is_prefix_of(entry) {
        below(workspace, entry.skip("cwd://"@.len() as int))
    } else {
        entry
    }
}

/// The part of a home entry after its scheme.
pub open spec fn home_suffix(entry: Seq<char>) -> Seq<char> {
    entry.skip("home://"@.len() as int)
}

/// Whether a resolved pattern covers a path. `*` covers the workspace.
pub open spec fn pattern_covers(
    pattern: Seq<char>,
    workspace: Seq<char>,
    path: Seq<char>,
) -> bool {
    if pattern == "*"@ {
        is_under(path, workspace)
    } else {
        is_under(path, pattern)
    }
}

/// Whether a file entry covers a path. A home entry covers nothing without a
/// home.
pub open spec fn entry_covers(
    entry: Seq<char>,
    workspace: Seq<char>,
    home: Option<Seq<char>>,
    path: Seq<char>,
) -> bool {
    if is_home_entry(entry) {
        match home {
            Some(root) => is_under(path, below(root, home_suffix(entry))),
            None => false,
        }
    } else {
        pattern_covers(static_pattern(entry, workspace), workspace, path)
    }
}

/// Whether a list of file entries permits a path: the path never climbs with
/// `..`, and some entry covers it.
pub open spec fn file_permitted(
    entries: Seq<String>,
    workspace: Seq<char>,
    home: Option<Seq<char>>,
    path: Seq<char>,
) -> bool {
    &&& !has_parent_component(path)
    &&& exists|i: int|
        0 <= i < entries.len() && entry_covers((#[trigger] entries[i])@, workspace, home, path)
}

/// The resolved patterns of the entries that do not depend on a home.
pub open spec fn static_patterns(entries: Seq<String>, workspace: Seq<char>) -> Seq<Seq<char>>
    decreases entries.len(),
{
    if entries.len() == 0 {
        Seq::empty()
    } else {
        let rest = static_patterns(entries.drop_last(), workspace);
        if is_home_entry(entries.last()@) {
            rest
        } else {
            rest.push(static_pattern(entries.last()@, workspace))
        }
    }
}

/// The suffixes of the home entries.
pub open spec fn home_suffixes(entries: Seq<String>) -> Seq<Seq<char>>
    decreases entries.len(),
{
    if entries.len() == 0 {
        Seq::empty()
    } else {
        let rest = home_suffixes(entries.drop_last());
        if is_home_entry(entries.last()@) {
            rest.push(home_suffix(entries.last()@))
        } else {
            rest
        }
    }
}

/// Whether a partition of the entries covers a path.
spec fn partition_covers(
    statics: Seq<Seq<char>>,
    suffixes: Seq<Seq<char>>,
    workspace: Seq<char>,
    home: Option<Seq<char>>,
    path: Seq<char>,
) -> bool {
    ||| exists|i: int|
        0 <= i < statics.len() && pattern_covers(#[trigger] statics[i], workspace, path)
    ||| home is Some && exists|i: int|
        0 <= i < suffixes.len() && is_under(path, below(home->0, #[trigger] suffixes[i]))
}

proof fn lemma_pushed_pattern(
    statics: Seq<Seq<char>>,
    p: Seq<char>,
    suffixes: Seq<Seq<char>>,
    workspace: Seq<char>,
    home: Option<Seq<char>>,
    path: Seq<char>,
)
    ensures
        partition_covers(statics.push(p), suffixes, workspace, home, path) == (partition_covers(
            statics,
            suffixes,
            workspace,
            home,
            path,
        ) || pattern_covers(p, workspace, path)),
{
    let more = statics.push(p);
    if exists|i: int| 0 <= i < statics.len() && pattern_covers(#[trigger] statics[i], workspace, path) {
        let i = choose|i: int|
            0 <= i < statics.len() && pattern_covers(#[trigger] statics[i], workspace, path);
        assert(more[i] == statics[i]);
    }
    if pattern_covers(p, workspace, path) {
        assert(more[statics.len() as int] == p);
    }
    if exists|i: int| 0 <= i < more.len() && pattern_covers(#[trigger] more[i], workspace, path) {
        let i = choose|i: int|
            0 <= i < more.len() && pattern_covers(#[trigger] more[i], workspace, path);
        if i < statics.len() {
            assert(statics[i] == more[i]);
        }
    }
}

proof fn lemma_pushed_suffix(
    statics: Seq<Seq<char>>,
    suffixes: Seq<Seq<char>>,
    s: Seq<char>,
    workspace: Seq<char>,
    home: Option<Seq<char>>,
    path: Seq<char>,
)
    ensures
        partition_covers(statics, suffixes.push(s), workspace, home, path) == (partition_covers(
            statics,
            suffixes,
            workspace,
            home,
            path,
        ) || (home is Some && is_under(path, below(home->0, s)))),
{
    let more = suffixes.push(s);
    if home is Some {
        let root = home->0;
        if exists|i: int|
            0 <= i < suffixes.len() && is_under(path, below(root, #[trigger] suffixes[i])) {
            let i = choose|i: int|
                0 <= i < suffixes.len() && is_under(path, below(root, #[trigger] suffixes[i]));
            assert(more[i] == suffixes[i]);
        }
        if is_under(path, below(root, s)) {
            assert(more[suffixes.len() as int] == s);
        }
        if exists|i: int| 0 <= i < more.len() && is_under(path, below(root, #[trigger] more[i])) {
            let i = choose|i: int|
                0 <= i < more.len() && is_under(path, below(root, #[trigger] more[i]));
            if i < suffixes.len() {
                assert(suffixes[i] == more[i]);
            }
        }
    }
}

/// The partition covers what the entries cover.
proof fn lemma_partition_covers(
    entries: Seq<String>,
    workspace: Seq<char>,
    home: Option<Seq<char>>,
    path: Seq<char>,
)
    ensures
        partition_covers(
            static_patterns(entries, workspace),
            home_suffixes(entries),
            workspace,
            home,
            path,
        ) == exists|i: int|
            0 <= i < entries.len() && entry_covers((#[trigger] entries[i])@, workspace, home, path),
    decreases entries.len(),
{
    if entries.len() > 0 {
        let front = entries.drop_last();
        lemma_partition_covers(front, workspace, home, path);
        let e = entries.last()@;
        if is_home_entry(e) {
            lemma_pushed_suffix(
                static_patterns(front, workspace),
                home_suffixes(front),
                home_suffix(e),
                workspace,
                home,
                path,
            );
        } else {
            lemma_pushed_pattern(
                static_patterns(front, workspace),
                static_pattern(e, workspace),
                home_suffixes(front),
                workspace,
                home,
                path,
            );
        }
        if exists|i: int|
            0 <= i < front.len() && entry_covers((#[trigger] front[i])@, workspace, home, path) {
            let i = choose|i: int|
                0 <= i < front.len() && entry_covers((#[trigger] front[i])@, workspace, home, path);
            assert(entries[i] == front[i]);
        }
        if exists|i: int|
            0 <= i < entries.len() && entry_covers((#[trigger] entries[i])@, workspace, home, path) {
            let i = choose|i: int|
                0 <= i < entries.len() && entry_covers(
                    (#[trigger] entries[i])@,
                    workspace,
                    home,
                    path,
                );
            if i < front.len() {
                assert(front[i] == entries[i]);
            }
        }
        if entry_covers(e, workspace, home, path) {
            assert(entries[entries.len() - 1]@ == e);
        }
    }
}

/// An operation on the identity store.
#[derive(Debug, Clone, Copy, PartialEq, Eq, Structural)]
pub enum IdentityOperation {
    Resolve,
    Link,
    Unlink,
    ListLinks,
    CreateUser,
}

impl IdentityOperation {
    /// The capability that the operation needs.
    pub open spec fn needs(self) -> Seq<char> {
        match self {
            IdentityOperation::Resolve => "resolve"@,
            IdentityOperation::Link | IdentityOperation::Unlink | IdentityOperation::ListLinks =>
                "link"@,
            IdentityOperation::CreateUser => "admin"@,
        }
    }

    /// The capability that the operation needs.
    pub fn required_capability(self) -> (r: &'static str)
        ensures
            r@ == self.needs(),
    {
        match self {
            IdentityOperation::Resolve => "resolve",
            IdentityOperation::Link => "link",
            IdentityOperation::Unlink => "link",
            IdentityOperation::ListLinks => "link",
            IdentityOperation::CreateUser => "admin",
        }
    }
}

/// Whether the identity capabilities of a capsule satisfy a required one. The
/// order is `admin` over `link` over `resolve`: each implies those below it.
pub open spec fn identity_satisfied(held: Seq<Seq<char>>, required: Seq<char>) -> bool {
    ||| required == "resolve"@ && (held.contains("resolve"@) || held.contains("link"@)
        || held.contains("admin"@))
    ||| required == "link"@ && (held.contains("link"@) || held.contains("admin"@))
    ||| required == "admin"@ && held.contains("admin"@)
}

/// Whether `held` satisfies `required`.
pub fn identity_capability_satisfies(held: &Vec<String>, required: &str) -> (r: bool)
    ensures
        r == identity_satisfied(texts(held@), required@),
{
    if contains(held, "admin") {
        same(required, "resolve") || same(required, "link") || same(required, "admin")
    } else if contains(held, "link") {
        same(required, "resolve") || same(required, "link")
    } else if contains(held, "resolve") {
        same(required, "resolve")
    } else {
        false
    }
}

/// The text of a refusal.
pub open spec fn denial(capsule_id: Seq<char>, what: Seq<char>) -> Seq<char> {
    "capsule '"@ + capsule_id + "' denied: "@ + what
}

fn denial_text(capsule_id: &str, what: &str) -> (r: String)
    ensures
        r@ == denial(capsule_id@, what@),
{
    let mut r = "capsule '".to_owned();
    r.append(capsule_id);
    r.append("' denied: ");
    r.append(what);
    r
}

/// A check's outcome: permitted, or refused with a text.
pub open spec fn decides(r: Result<(), String>, permitted: bool, refusal: Seq<char>) -> bool {
    match r {
        Ok(()) => permitted,
        Err(message) => !permitted && message@ == refusal,
    }
}

/// What is refused, by its kind, its name and why.
fn quoted(what: &str, subject: &str, tail: &str) -> (r: String)
    ensures
        r@ == what@ + subject@ + tail@,
{
    let mut r = what.to_owned();
    r.append(subject);
    r.append(tail);
    r
}

/// `host:port`.
pub open spec fn endpoint(host: Seq<char>, port: u16) -> Seq<char> {
    host + ":"@ + decimal(port as nat)
}

/// `host:port`.
pub fn endpoint_text(host: &str, port: u16) -> (r: String)
    ensures
        r@ == endpoint(host@, port),
{
    let mut r = host.to_owned();
    r.append(":");
    let digits = decimal_text(port as u64);
    r.append(digits.as_str());
    r
}

/// The security gate of a capsule.
#[derive(Debug)]
pub struct ManifestSecurityGate {
    capabilities: CapabilitiesDef,
    resolved_static_read: Vec<String>,
    resolved_static_write: Vec<String>,
    home_suffixes_read: Vec<String>,
    home_suffixes_write: Vec<String>,
    default_home_root: Option<String>,
    workspace_root_path: String,
}

impl ManifestSecurityGate {
    #[verifier::type_invariant]
    spec fn partitioned(self) -> bool {
        let caps = self.capabilities;
        let ws = self.workspace_root_path@;
        &&& texts(self.resolved_static_read@) == static_patterns(caps.fs_read@, ws)
        &&& texts(self.resolved_static_write@) == static_patterns(caps.fs_write@, ws)
        &&& texts(self.home_suffixes_read@) == home_suffixes(caps.fs_read@)
        &&& texts(self.home_suffixes_write@) == home_suffixes(caps.fs_write@)
    }

    /// The capabilities that the security gate enforces.
    pub closed spec fn caps(&self) -> CapabilitiesDef {
        self.capabilities
    }

    /// The canonical workspace root.
    pub closed spec fn workspace(&self) -> Seq<char> {
        self.workspace_root_path@
    }

    /// The canonical home that `home://` entries fall back to.
    pub closed spec fn default_home(&self) -> Option<Seq<char>> {
        match self.default_home_root {
            Some(root) => Some(root@),
            None => None,
        }
    }

    /// The home that `home://` entries are resolved against for a call.
    pub open spec fn effective_home(&self, principal_home: Option<&str>) -> Option<Seq<char>> {
        match principal_home {
            Some(root) => Some(root@),
            None => self.default_home(),
        }
    }

    /// A gate for `manifest`. The roots are canonical paths.
    pub fn new(
        manifest: CapsuleManifest,
        workspace_root: String,
        home_root: Option<String>,
    ) -> (r: ManifestSecurityGate)
        ensures
            r.caps() == manifest.capabilities,
            r.workspace() == workspace_root@,
            match home_root {
                Some(root) => r.default_home() == Some(root@),
                None => r.default_home() is None,
            },
    {
        Self::over(manifest.capabilities, workspace_root, home_root)
    }

    /// A gate for `capabilities`. The roots are canonical paths.
    pub(crate) fn over(
        capabilities: CapabilitiesDef,
        workspace_root: String,
        home_root: Option<String>,
    ) -> (r: ManifestSecurityGate)
        ensures
            r.caps() == capabilities,
            r.workspace() == workspace_root@,
            match home_root {
                Some(root) => r.default_home() == Some(root@),
                None => r.default_home() is None,
            },
    {
        let (resolved_static_read, home_suffixes_read) = Self::partition_schemes(
            &capabilities.fs_read,
            workspace_root.as_str(),
        );
        let (resolved_static_write, home_suffixes_write) = Self::partition_schemes(
            &capabilities.fs_write,
            workspace_root.as_str(),
        );
        ManifestSecurityGate {
            capabilities,
            resolved_static_read,
            resolved_static_write,
            home_suffixes_read,
            home_suffixes_write,
            default_home_root: home_root,
            workspace_root_path: workspace_root,
        }
    }

    /// Splits file entries into patterns resolved now and home suffixes
    /// resolved at check time.
    fn partition_schemes(entries: &Vec<String>, workspace: &str) -> (r: (Vec<String>, Vec<String>))
        ensures
            texts(r.0@) == static_patterns(entries@, workspace@),
            texts(r.1@) == home_suffixes(entries@),
    {
        let mut statics: Vec<String> = Vec::new();
        let mut suffixes: Vec<String> = Vec::new();
        proof {
            reveal_strlit("*");
            reveal_strlit("cwd://");
            reveal_strlit("home://");
            assert(texts(statics@) =~= static_patterns(entries@.take(0), workspace@));
            assert(texts(suffixes@) =~= home_suffixes(entries@.take(0)));
        }
        for i in 0..entries.len()
            invariant
                "cwd://"@.len() == 6 && "cwd://"@[0] == 'c',
                "home://"@.len() == 7 && "home://"@[0] == 'h',
                "*"@.len() == 1,
                texts(statics@) == static_patterns(entries@.take(i as int), workspace@),
                texts(suffixes@) == home_suffixes(entries@.take(i as int)),
        {
            let entry = entries[i].as_str();
            let ghost statics_before = statics@;
            let ghost suffixes_before = suffixes@;
            proof {
                assert(entries@.take(i + 1).drop_last() =~= entries@.take(i as int));
                assert(entries@.take(i + 1).last() == entries@[i as int]);
                if "cwd://"@.is_prefix_of(entry@) && "home://"@.is_prefix_of(entry@) {
                    assert(entry@.subrange(0, 6)[0] == entry@.subrange(0, 7)[0]);
                }
            }
            if same(entry, "*") {
                statics.push("*".to_owned());
                assert(texts(statics@) =~= texts(statics_before).push(entry@));
            } else if let Some(suffix) = strip_prefix(entry, "cwd://") {
                let path = place_below(workspace, suffix);
                statics.push(path);
                assert(texts(statics@) =~= texts(statics_before).push(path@));
            } else if let Some(suffix) = strip_prefix(entry, "home://") {
                let kept = suffix.to_owned();
                suffixes.push(kept);
                assert(texts(suffixes@) =~= texts(suffixes_before).push(kept@));
            } else {
                let kept = entry.to_owned();
                statics.push(kept);
                assert(texts(statics@) =~= texts(statics_before).push(kept@));
            }
        }
        assert(entries@.take(entries@.len() as int) =~= entries@);
        (statics, suffixes)
    }

    /// Whether a path is permitted by resolved patterns or by home suffixes.
    fn check_fs_permission(
        &self,
        path: &str,
        statics: &Vec<String>,
        suffixes: &Vec<String>,
        principal_home: Option<&str>,
    ) -> (r: bool)
        ensures
            r == (!has_parent_component(path@) && partition_covers(
                texts(statics@),
                texts(suffixes@),
                self.workspace(),
                self.effective_home(principal_home),
                path@,
            )),
    {
        if climbs(path) {
            return false;
        }
        for i in 0..statics.len()
            invariant
                forall|j: int|
                    0 <= j < i ==> !pattern_covers(
                        #[trigger] texts(statics@)[j],
                        self.workspace(),
                        path@,
                    ),
                !has_parent_component(path@),
        {
            let pattern = statics[i].as_str();
            assert(texts(statics@)[i as int] == pattern@);
            let covered = if same(pattern, "*") {
                lies_under(path, self.workspace_root_path.as_str())
            } else {
                lies_under(path, pattern)
            };
            if covered {
                return true;
            }
        }
        let home: Option<&str> = match principal_home {
            Some(root) => Some(root),
            None => match &self.default_home_root {
                Some(root) => Some(root.as_str()),
                None => None,
            },
        };
        match home {
            None => false,
            Some(root) => {
                for i in 0..suffixes.len()
                    invariant
                        self.effective_home(principal_home) == Some(root@),
                        forall|j: int|
                            0 <= j < i ==> !is_under(
                                path@,
                                below(root@, #[trigger] texts(suffixes@)[j]),
                            ),
                        !has_parent_component(path@),
                {
                    assert(texts(suffixes@)[i as int] == suffixes@[i as int]@);
                    let base = place_below(root, suffixes[i].as_str());
                    if lies_under(path, base.as_str()) {
                        return true;
                    }
                }
                false
            },
        }
    }

    /// Decides an HTTP request whose URL has the given host, which is empty
    /// where the URL has none.
    pub fn check_http_host(&self, capsule_id: &str, url: &str, host: &str) -> (r: Result<
        (),
        String,
    >)
        ensures
            decides(
                r,
                any_domain_covers(self.caps().net@, host@),
                denial(
                    capsule_id@,
                    "network access to '"@ + url@ + "' not declared in manifest"@,
                ),
            ),
    {
        let domains = &self.capabilities.net;
        for i in 0..domains.len()
            invariant
                domains@ == self.caps().net@,
                forall|j: int| 0 <= j < i ==> !domain_covers((#[trigger] domains@[j])@, host@),
        {
            let domain = domains[i].as_str();
            let mut dotted = ".".to_owned();
            dotted.append(domain);
            if same(domain, "*") || same(host, domain) || ends_with(host, dotted.as_str()) {
                assert(domain_covers(domains@[i as int]@, host@));
                return Ok(());
            }
        }
        let what = quoted("network access to '", url, "' not declared in manifest");
        Err(denial_text(capsule_id, what.as_str()))
    }

    /// Decides an HTTP request by the host of its URL.
    pub fn check_http_request(&self, capsule_id: &str, method: &str, url: &str) -> (r: Result<
        (),
        String,
    >)
        ensures
            match url_host(url@) {
                Err(e) => decides(r, false, "Invalid URL: "@ + e),
                Ok(host) => decides(
                    r,
                    any_domain_covers(
                        self.caps().net@,
                        match host {
                            Some(h) => h,
                            None => ""@,
                        },
                    ),
                    denial(
                        capsule_id@,
                        "network access to '"@ + url@ + "' not declared in manifest"@,
                    ),
                ),
            },
    {
        match parse_url_host(url) {
            Err(e) => {
                let mut message = "Invalid URL: ".to_owned();
                message.append(e.as_str());
                Err(message)
            },
            Ok(Some(host)) => self.check_http_host(capsule_id, url, host.as_str()),
            Ok(None) => self.check_http_host(capsule_id, url, ""),
        }
    }

    /// Decides a file read.
    pub fn check_file_read(
        &self,
        capsule_id: &str,
        path: &str,
        principal_home: Option<&str>,
    ) -> (r: Result<(), String>)
        ensures
            decides(
                r,
                file_permitted(
                    self.caps().fs_read@,
                    self.workspace(),
                    self.effective_home(principal_home),
                    path@,
                ),
                denial(
                    capsule_id@,
                    "read access to '"@ + path@ + "' not declared in manifest"@,
                ),
            ),
    {
        proof {
            use_type_invariant(self);
            lemma_partition_covers(
                self.capabilities.fs_read@,
                self.workspace(),
                self.effective_home(principal_home),
                path@,
            );
        }
        if self.check_fs_permission(
            path,
            &self.resolved_static_read,
            &self.home_suffixes_read,
            principal_home,
        ) {
            Ok(())
        } else {
            let what = quoted("read access to '", path, "' not declared in manifest");
            Err(denial_text(capsule_id, what.as_str()))
        }
    }

    /// Decides a file write.
    pub fn check_file_write(
        &self,
        capsule_id: &str,
        path: &str,
        principal_home: Option<&str>,
    ) -> (r: Result<(), String>)
        ensures
            decides(
                r,
                file_permitted(
                    self.caps().fs_write@,
                    self.workspace(),
                    self.effective_home(principal_home),
                    path@,
                ),
                denial(
                    capsule_id@,
                    "write access to '"@ + path@ + "' not declared in manifest"@,
                ),
            ),
    {
        proof {
            use_type_invariant(self);
            lemma_partition_covers(
                self.capabilities.fs_write@,
                self.workspace(),
                self.effective_home(principal_home),
                path@,
            );
        }
        if self.check_fs_permission(
            path,
            &self.resolved_static_write,
            &self.home_suffixes_write,
            principal_home,
        ) {
            Ok(())
        } else {
            let what = quoted("write access to '", path, "' not declared in manifest");
            Err(denial_text(capsule_id, what.as_str()))
        }
    }

    /// Decides a host command.
    pub fn check_host_process(&self, capsule_id: &str, command: &str) -> (r: Result<(), String>)
        ensures
            decides(
                r,
                any_command_covers(self.caps().host_process@, command@),
                denial(
                    capsule_id@,
                    "host process '"@ + command@ + "' not declared in manifest"@,
                ),
            ),
    {
        let list = &self.capabilities.host_process;
        for i in 0..list.len()
            invariant
                list@ == self.caps().host_process@,
                forall|j: int| 0 <= j < i ==> !command_covers((#[trigger] list@[j])@, command@),
        {
            let entry = list[i].as_str();
            let mut spaced = entry.to_owned();
            spaced.append(" ");
            if same(command, entry) || starts_with(command, spaced.as_str()) {
                assert(command_covers(list@[i as int]@, command@));
                return Ok(());
            }
        }
        let what = quoted("host process '", command, "' not declared in manifest");
        Err(denial_text(capsule_id, what.as_str()))
    }

    /// Decides whether the capsule may bind at all: some entry is not empty.
    pub fn check_net_bind(&self, capsule_id: &str) -> (r: Result<(), String>)
        ensures
            decides(
                r,
                any_nonempty(self.caps().net_bind@),
                denial(capsule_id@, "net_bind not declared in manifest"@),
            ),
    {
        let list = &self.capabilities.net_bind;
        for i in 0..list.len()
            invariant
                list@ == self.caps().net_bind@,
                forall|j: int| 0 <= j < i ==> (#[trigger] list@[j])@.len() == 0,
        {
            if !list[i].as_str().is_empty() {
                return Ok(());
            }
        }
        Err(denial_text(capsule_id, "net_bind not declared in manifest"))
    }

    /// Decides an outbound connection by the literal host that was named.
    pub fn check_net_connect(&self, capsule_id: &str, host: &str, port: u16) -> (r: Result<
        (),
        String,
    >)
        ensures
            decides(
                r,
                any_endpoint_covers(self.caps().net_connect@, host@, port),
                denial(
                    capsule_id@,
                    "\""@ + endpoint(host@, port) + "\" not in net_connect allowlist"@,
                ),
            ),
    {
        let list = &self.capabilities.net_connect;
        for i in 0..list.len()
            invariant
                list@ == self.caps().net_connect@,
                forall|j: int|
                    0 <= j < i ==> !endpoint_covered((#[trigger] list@[j])@, host@, port),
        {
            if net_connect_pattern_matches(list[i].as_str(), host, port) {
                return Ok(());
            }
        }
        let target = endpoint_text(host, port);
        let what = quoted("\"", target.as_str(), "\" not in net_connect allowlist");
        Err(denial_text(capsule_id, what.as_str()))
    }

    /// Decides a TCP bind. Unix entries share the list and never permit one.
    pub fn check_net_tcp_bind(&self, capsule_id: &str, host: &str, port: u16) -> (r: Result<
        (),
        String,
    >)
        ensures
            decides(
                r,
                any_tcp_bind_covers(self.caps().net_bind@, host@, port),
                denial(
                    capsule_id@,
                    "TCP bind \""@ + endpoint(host@, port) + "\" not in net_bind allowlist"@,
                ),
            ),
    {
        let list = &self.capabilities.net_bind;
        for i in 0..list.len()
            invariant
                list@ == self.caps().net_bind@,
                forall|j: int|
                    0 <= j < i ==> is_unix_entry((#[trigger] list@[j])@) || !endpoint_covered(
                        list@[j]@,
                        host@,
                        port,
                    ),
        {
            let entry = list[i].as_str();
            if !starts_with(entry, "unix:") && net_connect_pattern_matches(entry, host, port) {
                return Ok(());
            }
        }
        let target = endpoint_text(host, port);
        let what = quoted("TCP bind \"", target.as_str(), "\" not in net_bind allowlist");
        Err(denial_text(capsule_id, what.as_str()))
    }

    /// Decides an identity operation.
    pub fn check_identity(&self, capsule_id: &str, operation: IdentityOperation) -> (r: Result<
        (),
        String,
    >)
        ensures
            decides(
                r,
                identity_satisfied(texts(self.caps().identity@), operation.needs()),
                denial(
                    capsule_id@,
                    "identity operation '"@ + operation.needs()
                        + "' not declared in manifest (has: "@ + debug_list(
                        texts(self.caps().identity@),
                    ) + ")"@,
                ),
            ),
    {
        let required = operation.required_capability();
        let held = &self.capabilities.identity;
        if identity_capability_satisfies(held, required) {
            Ok(())
        } else {
            let listed = debug_strings(held);
            let mut what = quoted("identity operation '", required, "' not declared in manifest (has: ");
            what.append(listed.as_str());
            what.append(")");
            Err(denial_text(capsule_id, what.as_str()))
        }
    }
}

/// Whether a gate is the one of a manifest over a workspace, without a home to
/// fall back to.
pub open spec fn is_gate_of(
    gate: ManifestSecurityGate,
    manifest: CapsuleManifest,
    workspace: Seq<char>,
) -> bool {
    &&& declare_alike(gate.caps(), manifest.capabilities)
    &&& gate.workspace() == workspace
    &&& gate.default_home() is None
}

/// A wildcard entry never reaches outside the workspace.
pub proof fn wildcard_is_confined_to_workspace(
    workspace: Seq<char>,
    home: Option<Seq<char>>,
    path: Seq<char>,
)
    requires
        entry_covers("*"@, workspace, home, path),
    ensures
        is_under(path, workspace),
{
    reveal_strlit("*");
    reveal_strlit("home://");
    reveal_strlit("cwd://");
}

/// A `cwd://` entry never reaches outside the workspace, whatever follows the
/// scheme.
pub proof fn cwd_entry_is_confined_to_workspace(
    suffix: Seq<char>,
    workspace: Seq<char>,
    home: Option<Seq<char>>,
    path: Seq<char>,
)
    requires
        entry_covers("cwd://"@ + suffix, workspace, home, path),
    ensures
        is_under(path, workspace),
{
    reveal_strlit("home://");
    reveal_strlit("cwd://");
    let entry = "cwd://"@ + suffix;
    assert(entry.subrange(0, 6) =~= "cwd://"@);
    assert(entry.skip(6) =~= suffix);
    if is_home_entry(entry) {
        assert(entry.subrange(0, 7)[0] == 'h');
    }
    let pattern = below(workspace, suffix);
    placed_path_is_under_base(workspace, suffix);
    if pattern != "*"@ {
        is_under_is_transitive(path, pattern, workspace);
    }
}

/// A `home://` entry reaches only below the home it is resolved against,
/// whatever follows the scheme, so one principal's home entries never reach
/// another's files.
pub proof fn home_entry_is_confined_to_home(
    suffix: Seq<char>,
    workspace: Seq<char>,
    home: Option<Seq<char>>,
    path: Seq<char>,
)
    requires
        entry_covers("home://"@ + suffix, workspace, home, path),
    ensures
        home is Some,
        is_under(path, home->0),
{
    reveal_strlit("home://");
    let entry = "home://"@ + suffix;
    assert(entry.subrange(0, 7) =~= "home://"@);
    assert(entry.skip(7) =~= suffix);
    placed_path_is_under_base(home->0, suffix);
    is_under_is_transitive(path, below(home->0, suffix), home->0);
}

/// Without any home, home entries permit nothing.
pub proof fn home_entries_need_a_home(
    entry: Seq<char>,
    workspace: Seq<char>,
    path: Seq<char>,
)
    requires
        is_home_entry(entry),
    ensures
        !entry_covers(entry, workspace, None, path),
{
}

/// A path with a `..` component is refused whatever the entries are.
pub proof fn climbing_paths_are_refused(
    entries: Seq<String>,
    workspace: Seq<char>,
    home: Option<Seq<char>>,
    path: Seq<char>,
)
    requires
        has_parent_component(path),
    ensures
        !file_permitted(entries, workspace, home, path),
{
}

/// Bind entries for Unix sockets never permit a TCP bind.
pub proof fn unix_entries_never_permit_tcp(list: Seq<String>, host: Seq<char>, port: u16)
    requires
        forall|i: int| 0 <= i < list.len() ==> is_unix_entry((#[trigger] list[i])@),
    ensures
        !any_tcp_bind_covers(list, host, port),
{
}

/// A capability that satisfies a stronger operation satisfies every weaker
/// one: creating users implies linking, and linking implies resolving.
pub proof fn identity_levels_imply_lower_ones(held: Seq<Seq<char>>)
    ensures
        identity_satisfied(held, "admin"@) ==> identity_satisfied(held, "link"@),
        identity_satisfied(held, "link"@) ==> identity_satisfied(held, "resolve"@),
        held.len() == 0 ==> !identity_satisfied(held, "resolve"@),
{
    reveal_strlit("admin");
    reveal_strlit("link");
    reveal_strlit("resolve");
}

/// Empty allowlists permit nothing.
pub proof fn empty_lists_permit_nothing(
    workspace: Seq<char>,
    home: Option<Seq<char>>,
    text: Seq<char>,
    port: u16,
)
    ensures
        !any_domain_covers(Seq::empty(), text),
        !any_command_covers(Seq::empty(), text),
        !any_nonempty(Seq::empty()),
        !any_endpoint_covers(Seq::empty(), text, port),
        !any_tcp_bind_covers(Seq::empty(), text, port),
        !file_permitted(Seq::empty(), workspace, home, text),
        !identity_satisfied(Seq::empty(), text),
{
}

/// The letter case of a host does not matter.
pub proof fn host_case_does_not_matter(pattern: Seq<char>, a: Seq<char>, b: Seq<char>, port: u16)
    requires
        eq_ignore_case(a, b),
    ensures
        endpoint_covered(pattern, a, port) == endpoint_covered(pattern, b, port),
{
}

/// `host:*` covers every port of the host.
pub proof fn port_wildcard_covers_every_port(host: Seq<char>, port: u16)
    ensures
        endpoint_covered(host + ":"@ + "*"@, host, port),
{
    reveal_strlit(":");
    reveal_strlit("*");
    assert(":"@ =~= seq![':']);
    assert(!"*"@.contains(':')) by {
        assert("*"@ =~= seq!['*']);
    }
    lemma_rsplit_once_tail(host, "*"@, ':');
}

/// `*:port` covers that port of every host, and no other port.
pub proof fn host_wildcard_covers_every_host(host: Seq<char>, port: u16, other: u16)
    ensures
        endpoint_covered(endpoint("*"@, port), host, other) == (other == port),
{
    lemma_written_endpoint("*"@, port);
}

/// An entry that names a host covers no other host: there are no wildcards
/// within names.
pub proof fn named_hosts_cover_themselves_alone(name: Seq<char>, port: u16, host: Seq<char>)
    requires
        name != "*"@,
        !eq_ignore_case(name, host),
    ensures
        !endpoint_covered(endpoint(name, port), host, port),
        !endpoint_covered(name + ":"@ + "*"@, host, port),
{
    lemma_written_endpoint(name, port);
    reveal_strlit(":");
    reveal_strlit("*");
    assert(":"@ =~= seq![':']);
    assert(!"*"@.contains(':')) by {
        assert("*"@ =~= seq!['*']);
    }
    lemma_rsplit_once_tail(name, "*"@, ':');
}

/// `host:port` covers that port of the host and no other.
pub proof fn written_endpoint_covers_itself_alone(host: Seq<char>, port: u16, other: u16)
    ensures
        endpoint_covered(endpoint(host, port), host, other) == (other == port),
{
    lemma_written_endpoint(host, port);
}

/// A written endpoint is read back as its host and its port.
proof fn lemma_written_endpoint(host: Seq<char>, port: u16)
    ensures
        rsplit_once(endpoint(host, port), ':') == Some((host, decimal(port as nat))),
        decimal(port as nat) != "*"@,
        u16_of(decimal(port as nat)) == Some(port),
{
    reveal_strlit(":");
    reveal_strlit("*");
    assert(":"@ =~= seq![':']);
    let digits = decimal(port as nat);
    decimal_numbers_are_read_back(port);
    lemma_decimal_denotes(port as nat);
    assert(!digits.contains(':')) by {
        if digits.contains(':') {
            let i = choose|i: int| 0 <= i < digits.len() && digits[i] == ':';
            assert(is_digit(digits[i]));
        }
    }
    assert(digits != "*"@) by {
        assert(is_digit(digits[0]));
        assert("*"@[0] == '*');
    }
    lemma_rsplit_once_tail(host, digits, ':');
}

/// Every declared domain counts, wherever it stands in the list: a request is
/// permitted where some entry is `*`, is the host, or is a domain that the host
/// is a subdomain of.
pub proof fn every_declared_domain_permits(
    list: Seq<String>,
    host: Seq<char>,
    i: int,
    r: Result<(), String>,
    refusal: Seq<char>,
)
    requires
        decides(r, any_domain_covers(list, host), refusal),
        0 <= i < list.len(),
        list[i]@ == "*"@ || list[i]@ == host || (host.len() > list[i]@.len() && host.skip(
            host.len() - list[i]@.len() - 1,
        ) == seq!['.'] + list[i]@),
    ensures
        r is Ok,
{
    reveal_strlit(".");
    let d = list[i]@;
    if d != "*"@ && d != host {
        let n = host.len() - d.len() - 1;
        assert("."@ + d =~= seq!['.'] + d);
        assert(host.subrange(n, host.len() as int) =~= host.skip(n));
    }
    assert(domain_covers(list[i]@, host));
}

/// Nothing but a declared domain permits a request.
pub proof fn only_declared_domains_permit(
    list: Seq<String>,
    host: Seq<char>,
    r: Result<(), String>,
    refusal: Seq<char>,
)
    requires
        decides(r, any_domain_covers(list, host), refusal),
        r is Ok,
    ensures
        exists|i: int|
            0 <= i < list.len() && ((#[trigger] list[i])@ == "*"@ || list[i]@ == host || (host.len()
                > list[i]@.len() && host.skip(host.len() - list[i]@.len() - 1) == seq!['.']
                + list[i]@)),
{
    reveal_strlit(".");
    let i = choose|i: int| 0 <= i < list.len() && domain_covers((#[trigger] list[i])@, host);
    let d = list[i]@;
    if d != "*"@ && d != host {
        let n = host.len() - d.len() - 1;
        assert("."@ + d =~= seq!['.'] + d);
        assert(host.subrange(n, host.len() as int) =~= host.skip(n));
    }
    assert(list[i]@ == d);
}

/// Declaring one more domain takes no permission away, and grants the domain
/// itself and each of its subdomains.
pub proof fn declaring_a_domain_only_adds(
    list: Seq<String>,
    added: String,
    host: Seq<char>,
    sub: Seq<char>,
)
    ensures
        any_domain_covers(list, host) ==> any_domain_covers(list.push(added), host),
        any_domain_covers(list.push(added), added@),
        any_domain_covers(list.push(added), sub + seq!['.'] + added@),
{
    let more = list.push(added);
    let n = list.len() as int;
    assert(more[n] == added);
    assert(domain_covers(more[n]@, added@));
    if any_domain_covers(list, host) {
        let i = choose|i: int| 0 <= i < list.len() && domain_covers((#[trigger] list[i])@, host);
        assert(more[i] == list[i]);
    }
    let child = sub + seq!['.'] + added@;
    reveal_strlit(".");
    assert("."@ + added@ =~= seq!['.'] + added@);
    assert(child.subrange(sub.len() as int, child.len() as int) =~= "."@ + added@);
    assert(domain_covers(more[n]@, child));
}

/// A command is permitted exactly where some entry is the command itself, or
/// the command goes on after the entry with a space.
pub proof fn every_declared_command_permits(
    list: Seq<String>,
    command: Seq<char>,
    r: Result<(), String>,
    refusal: Seq<char>,
)
    requires
        decides(r, any_command_covers(list, command), refusal),
    ensures
        r is Ok <==> exists|i: int|
            0 <= i < list.len() && ((#[trigger] list[i])@ == command || (command.len()
                > list[i]@.len() && command.take(list[i]@.len() as int) == list[i]@
                && command[list[i]@.len() as int] == ' ')),
{
    reveal_strlit(" ");
    assert forall|i: int| 0 <= i < list.len() implies (command_covers(
        (#[trigger] list[i])@,
        command,
    ) <==> (list[i]@ == command || (command.len() > list[i]@.len() && command.take(
        list[i]@.len() as int,
    ) == list[i]@ && command[list[i]@.len() as int] == ' '))) by {
        let e = list[i]@;
        let n = e.len() as int;
        if (e + " "@).is_prefix_of(command) {
            let head = command.subrange(0, n + 1);
            assert(head == e + " "@);
            assert(head[n] == ' ');
            assert(command.take(n) =~= e) by {
                assert forall|k: int| 0 <= k < n implies command[k] == e[k] by {
                    assert(head[k] == (e + " "@)[k]);
                }
            }
        }
        if command.len() > n && command.take(n) == e && command[n] == ' ' {
            assert(command.subrange(0, n + 1) =~= e + " "@) by {
                assert forall|k: int| 0 <= k < n implies command[k] == e[k] by {
                    assert(command.take(n)[k] == e[k]);
                }
            }
        }
    }
    if any_command_covers(list, command) {
        let i = choose|i: int| 0 <= i < list.len() && command_covers((#[trigger] list[i])@, command);
        assert(command_covers(list[i]@, command));
    }
}

/// Every declared endpoint counts, wherever it stands in the list: a connection
/// is permitted where some entry is `host:port` with `*` or the host in any
/// letter case before the colon, and `*` or the port behind it.
pub proof fn every_declared_endpoint_permits(
    list: Seq<String>,
    host: Seq<char>,
    port: u16,
    i: int,
    named: Seq<char>,
    numbered: Seq<char>,
)
    requires
        0 <= i < list.len(),
        list[i]@ == named + seq![':'] + numbered,
        named == "*"@ || eq_ignore_case(named, host),
        numbered == "*"@ || numbered == decimal(port as nat),
    ensures
        any_endpoint_covers(list, host, port),
        !is_unix_entry(list[i]@) ==> any_tcp_bind_covers(list, host, port),
{
    lemma_written_endpoint(named, port);
    reveal_strlit("*");
    reveal_strlit(":");
    assert(":"@ =~= seq![':']);
    assert(!"*"@.contains(':')) by {
        assert("*"@ =~= seq!['*']);
    }
    if numbered == "*"@ {
        lemma_rsplit_once_tail(named, numbered, ':');
    } else {
        assert(list[i]@ =~= endpoint(named, port));
    }
    assert(endpoint_covered(list[i]@, host, port));
}

/// Nothing but a declared endpoint permits a connection or a TCP bind.
pub proof fn only_declared_endpoints_permit(
    list: Seq<String>,
    host: Seq<char>,
    port: u16,
    pattern: Seq<char>,
)
    ensures
        any_endpoint_covers(list, host, port) ==> exists|i: int|
            0 <= i < list.len() && names_endpoint((#[trigger] list[i])@, host, port),
        any_tcp_bind_covers(list, host, port) ==> exists|i: int|
            0 <= i < list.len() && names_endpoint((#[trigger] list[i])@, host, port)
                && !"unix:"@.is_prefix_of(list[i]@),
        !pattern.contains(':') ==> !endpoint_covered(pattern, host, port),
{
    last_split_is_undone_by_joining(pattern, ':');
    assert forall|e: Seq<char>| #[trigger] endpoint_covered(e, host, port) implies names_endpoint(
        e,
        host,
        port,
    ) by {
        last_split_is_undone_by_joining(e, ':');
        let (named, numbered) = rsplit_once(e, ':')->0;
        assert(e == named + seq![':'] + numbered);
    }
    if any_endpoint_covers(list, host, port) {
        let i = choose|i: int|
            0 <= i < list.len() && endpoint_covered((#[trigger] list[i])@, host, port);
        assert(names_endpoint(list[i]@, host, port));
    }
    if any_tcp_bind_covers(list, host, port) {
        let i = choose|i: int|
            0 <= i < list.len() && !is_unix_entry((#[trigger] list[i])@) && endpoint_covered(
                list[i]@,
                host,
                port,
            );
        assert(names_endpoint(list[i]@, host, port));
    }
}

/// Whether a text is made of a host, a colon and a port that name an endpoint.
pub open spec fn names_endpoint(text: Seq<char>, host: Seq<char>, port: u16) -> bool {
    exists|named: Seq<char>, numbered: Seq<char>|
        text == #[trigger] (named + seq![':'] + numbered) && !numbered.contains(':') && (named
            == "*"@ || eq_ignore_case(named, host)) && (numbered == "*"@ || u16_of(numbered)
            == Some(port))
}

/// Declaring one more endpoint takes no permission away.
pub proof fn declaring_an_endpoint_only_adds(
    list: Seq<String>,
    added: String,
    host: Seq<char>,
    port: u16,
)
    ensures
        any_endpoint_covers(list, host, port) ==> any_endpoint_covers(list.push(added), host, port),
        any_tcp_bind_covers(list, host, port) ==> any_tcp_bind_covers(list.push(added), host, port),
        any_nonempty(list) ==> any_nonempty(list.push(added)),
        added@.len() > 0 ==> any_nonempty(list.push(added)),
{
    let more = list.push(added);
    assert(more[list.len() as int] == added);
    assert forall|i: int| 0 <= i < list.len() implies #[trigger] more[i] == list[i] by {}
    if any_endpoint_covers(list, host, port) {
        let i = choose|i: int|
            0 <= i < list.len() && endpoint_covered((#[trigger] list[i])@, host, port);
        assert(more[i] == list[i]);
    }
    if any_tcp_bind_covers(list, host, port) {
        let i = choose|i: int|
            0 <= i < list.len() && !is_unix_entry((#[trigger] list[i])@) && endpoint_covered(
                list[i]@,
                host,
                port,
            );
        assert(more[i] == list[i]);
    }
    if any_nonempty(list) {
        let i = choose|i: int| 0 <= i < list.len() && (#[trigger] list[i])@.len() > 0;
        assert(more[i] == list[i]);
    }
}

/// Binding at all is permitted exactly where some entry is written out.
pub proof fn any_written_bind_entry_permits(list: Seq<String>)
    ensures
        any_nonempty(list) <==> exists|i: int| 0 <= i < list.len() && (#[trigger] list[i])@ != ""@,
{
    reveal_strlit("");
    if any_nonempty(list) {
        let i = choose|i: int| 0 <= i < list.len() && (#[trigger] list[i])@.len() > 0;
        assert(list[i]@ != ""@);
    }
    if exists|i: int| 0 <= i < list.len() && (#[trigger] list[i])@ != ""@ {
        let i = choose|i: int| 0 <= i < list.len() && (#[trigger] list[i])@ != ""@;
        if list[i]@.len() == 0 {
            assert(list[i]@ =~= ""@);
        }
    }
}

/// Every file entry counts, wherever it stands in the list: `*` and `cwd://`
/// open the workspace, `home://` the home, and a path what lies under it, for a
/// path that does not climb.
pub proof fn every_file_entry_permits(
    list: Seq<String>,
    workspace: Seq<char>,
    home: Option<Seq<char>>,
    path: Seq<char>,
    i: int,
    suffix: Seq<char>,
    r: Result<(), String>,
    refusal: Seq<char>,
)
    requires
        decides(r, file_permitted(list, workspace, home, path), refusal),
        0 <= i < list.len(),
        !split(path, '/').contains(".."@),
        ({
            let e = list[i]@;
            ||| e == "*"@ && is_under(path, workspace)
            ||| e == "cwd://"@ + suffix && is_under(path, below(workspace, suffix))
            ||| e == "home://"@ + suffix && home is Some && is_under(path, below(home->0, suffix))
            ||| e != "*"@ && !"cwd://"@.is_prefix_of(e) && !"home://"@.is_prefix_of(e) && is_under(
                path,
                e,
            )
        }),
    ensures
        r is Ok,
{
    let e = list[i]@;
    reveal_strlit("*");
    reveal_strlit("cwd://");
    reveal_strlit("home://");
    climbing_is_a_part_of_two_dots(path);
    if is_home_entry(e) {
        assert(e.subrange(0, 7)[0] == 'h');
        assert(e[0] == 'h');
    }
    if "cwd://"@.is_prefix_of(e) {
        assert(e.subrange(0, 6)[0] == 'c');
        assert(e[0] == 'c');
    }
    if e == "cwd://"@ + suffix {
        assert(e.subrange(0, 6) =~= "cwd://"@);
        assert(e.skip(6) =~= suffix);
        assert(e[0] == 'c');
        placed_path_is_under_base(workspace, suffix);
        if static_pattern(e, workspace) == "*"@ {
            is_under_is_transitive(path, below(workspace, suffix), workspace);
        }
    }
    if e == "home://"@ + suffix {
        assert(e.subrange(0, 7) =~= "home://"@);
        assert(e.skip(7) =~= suffix);
    }
    if e == "*"@ {
        assert(e[0] == '*');
    }
    assert(entry_covers(list[i]@, workspace, home, path));
}

/// Nothing but a file entry permits a path, and none permits one that climbs.
pub proof fn only_file_entries_permit(
    list: Seq<String>,
    workspace: Seq<char>,
    home: Option<Seq<char>>,
    path: Seq<char>,
    r: Result<(), String>,
    refusal: Seq<char>,
)
    requires
        decides(r, file_permitted(list, workspace, home, path), refusal),
        r is Ok,
    ensures
        !split(path, '/').contains(".."@),
        exists|i: int|
            0 <= i < list.len() && {
                let e = (#[trigger] list[i])@;
                ||| (e == "*"@ || "cwd://"@.is_prefix_of(e)) && is_under(path, workspace)
                ||| "home://"@.is_prefix_of(e) && home is Some && is_under(path, home->0)
                ||| is_under(path, e)
            },
{
    climbing_is_a_part_of_two_dots(path);
    let i = choose|i: int|
        0 <= i < list.len() && entry_covers((#[trigger] list[i])@, workspace, home, path);
    let e = list[i]@;
    reveal_strlit("*");
    reveal_strlit("cwd://");
    reveal_strlit("home://");
    if is_home_entry(e) {
        let suffix = e.skip(7);
        assert(e =~= "home://"@ + suffix) by {
            assert(e.subrange(0, 7) =~= "home://"@);
        }
        home_entry_is_confined_to_home(suffix, workspace, home, path);
    } else if "cwd://"@.is_prefix_of(e) {
        let suffix = e.skip(6);
        assert(e =~= "cwd://"@ + suffix) by {
            assert(e.subrange(0, 6) =~= "cwd://"@);
        }
        cwd_entry_is_confined_to_workspace(suffix, workspace, home, path);
    } else if e == "*"@ {
        wildcard_is_confined_to_workspace(workspace, home, path);
    }
    assert(list[i]@ == e);
}

/// Declaring one more file entry takes no permission away.
pub proof fn declaring_a_file_entry_only_adds(
    list: Seq<String>,
    added: String,
    workspace: Seq<char>,
    home: Option<Seq<char>>,
    path: Seq<char>,
)
    requires
        file_permitted(list, workspace, home, path),
    ensures
        file_permitted(list.push(added), workspace, home, path),
{
    let more = list.push(added);
    let i = choose|i: int|
        0 <= i < list.len() && entry_covers((#[trigger] list[i])@, workspace, home, path);
    assert(more[i] == list[i]);
}

/// Resolving takes any identity capability, linking, unlinking and listing take
/// `link` or `admin`, and creating users takes `admin`.
pub proof fn identity_operations_take_their_capability(
    held: Seq<Seq<char>>,
    operation: IdentityOperation,
)
    ensures
        identity_satisfied(held, operation.needs()) == match operation {
            IdentityOperation::CreateUser => held.contains("admin"@),
            IdentityOperation::Resolve => held.contains("resolve"@) || held.contains("link"@)
                || held.contains("admin"@),
            _ => held.contains("link"@) || held.contains("admin"@),
        },
{
    reveal_strlit("admin");
    reveal_strlit("link");
    reveal_strlit("resolve");
    assert("admin"@.len() == 5 && "link"@.len() == 4 && "resolve"@.len() == 7);
}

}
