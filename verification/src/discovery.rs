//! Manifest discovery: which manifests a set of directories offers, and
//! whether a manifest is acceptable.
//!
//! Directories are scanned in priority order. Reading and parsing files is the
//! caller's; what to read, what to accept and what wins is decided here.

use vstd::prelude::*;
use vstd::string::*;
use vstd::utf8::*;

use crate::error::CapsuleError;
use crate::foreign::{
    semver_req_error, semver_req_matches, semver_version_parses, version_parses, version_req_error,
    version_req_matches,
};
use crate::manifest::{
    CapsuleManifest, CommandDef, CommandKind, ComponentDef, ExportNamespace, ImportNamespace,
};
use crate::capabilities::CapabilitiesDef;
use crate::lists::{first_some, lemma_first_some_at, lemma_first_some_none};
use crate::paths::{join, join_paths};
use crate::text::{chars_of, contains, is_digit, same, texts};
use crate::topic::{has_valid_segments, valid_segments};

verus! {

/// The file name of a capsule manifest.
pub const MANIFEST_FILE_NAME: &'static str = "Capsule.toml";

/// The workspace directory that is scanned last.
pub const WORKSPACE_CAPSULE_DIR: &'static str = ".astrid/capsules";

/// The runtime that manifests are checked against: its version, which is
/// valid semver, and the command verbs that it keeps for itself.
#[derive(Debug)]
pub struct Runtime {
    version: String,
    reserved_verbs: Vec<String>,
}

impl Runtime {
    #[verifier::type_invariant]
    spec fn version_is_semver(self) -> bool {
        semver_version_parses(self.version@)
    }

    pub closed spec fn version_text(&self) -> Seq<char> {
        self.version@
    }

    pub closed spec fn reserved(&self) -> Seq<Seq<char>> {
        texts(self.reserved_verbs@)
    }

    /// A runtime, if its version is valid semver.
    pub fn new(version: String, reserved_verbs: Vec<String>) -> (r: Option<Runtime>)
        ensures
            r is Some == semver_version_parses(version@),
            r matches Some(runtime) ==> runtime.version_text() == version@ && runtime.reserved()
                == texts(reserved_verbs@),
    {
        if version_parses(version.as_str()) {
            Some(Runtime { version, reserved_verbs })
        } else {
            None
        }
    }
}

/// An ASCII lower-case letter.
pub open spec fn is_lower(c: char) -> bool {
    'a' <= c <= 'z'
}

/// A character that may follow the first one of an identifier.
pub open spec fn is_identifier_char(c: char) -> bool {
    is_lower(c) || is_digit(c) || c == '-'
}

/// A namespace or interface name: `^[a-z][a-z0-9-]*$`.
pub open spec fn is_identifier(s: Seq<char>) -> bool {
    &&& s.len() > 0
    &&& is_lower(s[0])
    &&& forall|i: int| 1 <= i < s.len() ==> is_identifier_char(#[trigger] s[i])
}

fn is_valid_identifier(s: &str) -> (r: bool)
    ensures
        r == is_identifier(s@),
{
    let chars = chars_of(s);
    if chars.len() == 0 {
        return false;
    }
    if !('a' <= chars[0] && chars[0] <= 'z') {
        return false;
    }
    for i in 1..chars.len()
        invariant
            chars@ == s@,
            forall|j: int| 1 <= j < i ==> is_identifier_char(#[trigger] s@[j]),
    {
        let c = chars[i];
        if !(('a' <= c && c <= 'z') || ('0' <= c && c <= '9') || c == '-') {
            assert(!is_identifier_char(s@[i as int]));
            return false;
        }
    }
    true
}

/// What is wrong with an interface name.
pub open spec fn interface_fault(
    section: Seq<char>,
    namespace: Seq<char>,
    name: Seq<char>,
) -> Option<Seq<char>> {
    if is_identifier(name) {
        None
    } else {
        Some(
            "["@ + section + "."@ + namespace + "]."@ + name
                + ": invalid interface name (must match ^[a-z][a-z0-9-]*$)"@,
        )
    }
}

/// What is wrong with a namespace and its interface names: the namespace
/// first, then the first bad name.
pub open spec fn namespace_fault(
    section: Seq<char>,
    namespace: Seq<char>,
    names: Seq<Seq<char>>,
) -> Option<Seq<char>> {
    if !is_identifier(namespace) {
        Some(
            "["@ + section + "]."@ + namespace
                + ": invalid namespace (must match ^[a-z][a-z0-9-]*$)"@,
        )
    } else {
        first_some(names.map_values(|n: Seq<char>| interface_fault(section, namespace, n)))
    }
}

/// A check's outcome on a manifest at `path`: fine, or its fault.
pub open spec fn reports(
    r: Result<(), CapsuleError>,
    path: Seq<char>,
    fault: Option<Seq<char>>,
) -> bool {
    match r {
        Ok(()) => fault is None,
        Err(e) => fault is Some && is_parse_error(e, path, fault->0),
    }
}

/// A manifest error with the given texts.
pub open spec fn is_parse_error(e: CapsuleError, path: Seq<char>, message: Seq<char>) -> bool {
    match e {
        CapsuleError::ManifestParseError { path: p, message: m } => p@ == path && m@ == message,
        _ => false,
    }
}

fn parse_error(path: &str, message: String) -> (r: CapsuleError)
    ensures
        is_parse_error(r, path@, message@),
{
    CapsuleError::ManifestParseError { path: path.to_owned(), message }
}

/// Checks a namespace and its interface names.
fn validate_interface_identifiers(
    path: &str,
    section: &str,
    namespace: &str,
    names: &Vec<String>,
) -> (r: Result<(), CapsuleError>)
    ensures
        reports(r, path@, namespace_fault(section@, namespace@, texts(names@))),
{
    if !is_valid_identifier(namespace) {
        let mut message = "[".to_owned();
        message.append(section);
        message.append("].");
        message.append(namespace);
        message.append(": invalid namespace (must match ^[a-z][a-z0-9-]*$)");
        return Err(parse_error(path, message));
    }
    let ghost faults = texts(names@).map_values(
        |n: Seq<char>| interface_fault(section@, namespace@, n),
    );
    for i in 0..names.len()
        invariant
            is_identifier(namespace@),
            faults == texts(names@).map_values(
                |n: Seq<char>| interface_fault(section@, namespace@, n),
            ),
            forall|j: int| 0 <= j < i ==> (#[trigger] faults[j]) is None,
    {
        let name = names[i].as_str();
        assert(faults[i as int] == interface_fault(section@, namespace@, name@));
        if !is_valid_identifier(name) {
            let mut message = "[".to_owned();
            message.append(section);
            message.append(".");
            message.append(namespace);
            message.append("].");
            message.append(name);
            message.append(": invalid interface name (must match ^[a-z][a-z0-9-]*$)");
            proof {
                lemma_first_some_at(faults, i as int);
            }
            return Err(parse_error(path, message));
        }
    }
    proof {
        lemma_first_some_none(faults);
    }
    Ok(())
}

/// The first character after the first one that no identifier holds.
pub open spec fn first_bad_char(name: Seq<char>) -> Option<Seq<char>> {
    first_some(
        Seq::new(
            name.len(),
            |i: int|
                if i == 0 || is_identifier_char(name[i]) {
                    None
                } else {
                    Some(seq![name[i]])
                },
        ),
    )
}

/// What is wrong with a command-line verb.
pub open spec fn verb_fault(name: Seq<char>, reserved: Seq<Seq<char>>) -> Option<Seq<char>> {
    if name.len() == 0 {
        Some("must not be empty"@)
    } else if encode_utf8(name).len() > 32 {
        Some("must be at most 32 characters"@)
    } else if !is_lower(name[0]) {
        Some("must start with a lowercase ASCII letter (a-z)"@)
    } else if first_bad_char(name) is Some {
        Some(
            "contains invalid character '"@ + first_bad_char(name)->0
                + "' (allowed: a-z, 0-9, '-')"@,
        )
    } else if reserved.contains(name) {
        Some("'"@ + name + "' is a reserved built-in `astrid capsule` subcommand"@)
    } else {
        None
    }
}

/// Checks a command-line verb: `[a-z][a-z0-9-]*`, at most 32 long, and not
/// reserved.
pub fn validate_cli_verb_name(name: &str, reserved: &Vec<String>) -> (r: Result<(), String>)
    ensures
        match r {
            Ok(()) => verb_fault(name@, texts(reserved@)) is None,
            Err(reason) => verb_fault(name@, texts(reserved@)) == Some(reason@),
        },
{
    if name.is_empty() {
        return Err("must not be empty".to_owned());
    }
    if name.as_bytes().len() > 32 {
        return Err("must be at most 32 characters".to_owned());
    }
    let chars = chars_of(name);
    if !('a' <= chars[0] && chars[0] <= 'z') {
        return Err("must start with a lowercase ASCII letter (a-z)".to_owned());
    }
    let ghost bad: Seq<Option<Seq<char>>> = Seq::new(
        name@.len(),
        |i: int|
            if i == 0 || is_identifier_char(name@[i]) {
                None
            } else {
                Some(seq![name@[i]])
            },
    );
    assert(bad[0] is None);
    for i in 1..chars.len()
        invariant
            chars@ == name@,
            name@.len() > 0,
            encode_utf8(name@).len() <= 32,
            is_lower(name@[0]),
            bad.len() == name@.len(),
            first_bad_char(name@) == first_some(bad),
            forall|j: int|
                0 <= j < bad.len() ==> #[trigger] bad[j] == if j == 0 || is_identifier_char(
                    name@[j],
                ) {
                    None
                } else {
                    Some(seq![name@[j]])
                },
            forall|j: int| 0 <= j < i ==> (#[trigger] bad[j]) is None,
    {
        let c = chars[i];
        assert(bad[i as int] is None == is_identifier_char(c));
        if !(('a' <= c && c <= 'z') || ('0' <= c && c <= '9') || c == '-') {
            let mut reason = "contains invalid character '".to_owned();
            let shown = name.substring_char(i, i + 1);
            reason.append(shown);
            reason.append("' (allowed: a-z, 0-9, '-')");
            proof {
                lemma_first_some_at(bad, i as int);
                assert(shown@ =~= seq![c]);
            }
            return Err(reason);
        }
    }
    proof {
        lemma_first_some_none(bad);
    }
    if contains(reserved, name) {
        let mut reason = "'".to_owned();
        reason.append(name);
        reason.append("' is a reserved built-in `astrid capsule` subcommand");
        return Err(reason);
    }
    Ok(())
}

/// The entries that components add to a list of the root capabilities.
pub open spec fn collected(
    components: Seq<ComponentDef>,
    pick: spec_fn(CapabilitiesDef) -> Seq<String>,
) -> Seq<String>
    decreases components.len(),
{
    if components.len() == 0 {
        Seq::empty()
    } else {
        let rest = collected(components.drop_last(), pick);
        match components.last().capabilities {
            Some(caps) => rest + pick(caps),
            None => rest,
        }
    }
}

/// The worker count after components have had their say: the last one that
/// names a count wins over the root.
pub open spec fn merged_workers(root: Option<usize>, components: Seq<ComponentDef>) -> Option<usize>
    decreases components.len(),
{
    if components.len() == 0 {
        root
    } else {
        match components.last().capabilities {
            Some(caps) if caps.bind_workers is Some => caps.bind_workers,
            _ => merged_workers(root, components.drop_last()),
        }
    }
}

/// Whether `out` is the root capabilities with those of the components merged
/// in: the file, process, domain and bind lists are extended, the worker count
/// is promoted, and the rest stays.
pub open spec fn capabilities_merged(
    root: CapabilitiesDef,
    components: Seq<ComponentDef>,
    out: CapabilitiesDef,
) -> bool {
    &&& out.fs_read@ == root.fs_read@ + collected(components, |c: CapabilitiesDef| c.fs_read@)
    &&& out.fs_write@ == root.fs_write@ + collected(components, |c: CapabilitiesDef| c.fs_write@)
    &&& out.host_process@ == root.host_process@ + collected(
        components,
        |c: CapabilitiesDef| c.host_process@,
    )
    &&& out.net@ == root.net@ + collected(components, |c: CapabilitiesDef| c.net@)
    &&& out.net_bind@ == root.net_bind@ + collected(components, |c: CapabilitiesDef| c.net_bind@)
    &&& out.bind_workers == merged_workers(root.bind_workers, components)
    &&& out.uplink == root.uplink
    &&& out.kv == root.kv
    &&& out.allow_persistent == root.allow_persistent
    &&& out.net_connect == root.net_connect
    &&& out.identity == root.identity
    &&& out.allow_prompt_injection == root.allow_prompt_injection
}

/// Whether `out` is the manifest `m` with its capabilities merged.
pub open spec fn manifest_merged(m: CapsuleManifest, out: CapsuleManifest) -> bool {
    &&& capabilities_merged(m.capabilities, m.components@, out.capabilities)
    &&& out == (CapsuleManifest { capabilities: out.capabilities, ..m })
}

fn extend_list(list: &mut Vec<String>, more: &Vec<String>)
    ensures
        final(list)@ == old(list)@ + more@,
{
    let ghost before = list@;
    for i in 0..more.len()
        invariant
            list@ == before + more@.take(i as int),
    {
        let entry = more[i].clone();
        list.push(entry);
        assert(more@.take(i + 1) =~= more@.take(i as int).push(entry));
        assert(list@ =~= before + more@.take(i + 1));
    }
    assert(more@.take(more@.len() as int) =~= more@);
}

fn merge_capabilities(root: &mut CapabilitiesDef, components: &Vec<ComponentDef>)
    ensures
        capabilities_merged(*old(root), components@, *final(root)),
{
    let ghost before = *root;
    proof {
        assert(components@.take(0).len() == 0);
        assert(before.fs_read@ + Seq::<String>::empty() =~= before.fs_read@);
        assert(before.fs_write@ + Seq::<String>::empty() =~= before.fs_write@);
        assert(before.host_process@ + Seq::<String>::empty() =~= before.host_process@);
        assert(before.net@ + Seq::<String>::empty() =~= before.net@);
        assert(before.net_bind@ + Seq::<String>::empty() =~= before.net_bind@);
    }
    for i in 0..components.len()
        invariant
            capabilities_merged(before, components@.take(i as int), *root),
    {
        let ghost done = components@.take(i as int);
        let ghost next = components@.take(i + 1);
        proof {
            assert(next.drop_last() =~= done);
            assert(next.last() == components@[i as int]);
        }
        match &components[i].capabilities {
            Some(caps) => {
                extend_list(&mut root.fs_read, &caps.fs_read);
                extend_list(&mut root.fs_write, &caps.fs_write);
                extend_list(&mut root.host_process, &caps.host_process);
                extend_list(&mut root.net, &caps.net);
                extend_list(&mut root.net_bind, &caps.net_bind);
                if caps.bind_workers.is_some() {
                    root.bind_workers = caps.bind_workers;
                }
                proof {
                    let a = |c: CapabilitiesDef| c.fs_read@;
                    let b = |c: CapabilitiesDef| c.fs_write@;
                    let h = |c: CapabilitiesDef| c.host_process@;
                    let n = |c: CapabilitiesDef| c.net@;
                    let l = |c: CapabilitiesDef| c.net_bind@;
                    assert(root.fs_read@ =~= before.fs_read@ + collected(next, a));
                    assert(root.fs_write@ =~= before.fs_write@ + collected(next, b));
                    assert(root.host_process@ =~= before.host_process@ + collected(next, h));
                    assert(root.net@ =~= before.net@ + collected(next, n));
                    assert(root.net_bind@ =~= before.net_bind@ + collected(next, l));
                }
            },
            None => {},
        }
    }
    assert(components@.take(components@.len() as int) =~= components@);
}

/// What is wrong with the runtime versions that a capsule asks for.
pub open spec fn runtime_fault(
    constraint: Option<String>,
    runtime_version: Seq<char>,
) -> Option<Seq<char>> {
    match constraint {
        None => None,
        Some(c) => match semver_req_error(c@) {
            Some(e) => Some("invalid astrid-version '"@ + c@ + "' - "@ + e),
            None => if semver_req_matches(c@, runtime_version) {
                None
            } else {
                Some(
                    "capsule requires astrid-version "@ + c@ + ", but this runtime is "@
                        + runtime_version,
                )
            },
        },
    }
}

/// What is wrong with a package version.
pub open spec fn version_fault(version: Seq<char>) -> Option<Seq<char>> {
    version_fault_given(version, semver_version_parses(version))
}

/// What the semver rules say of the versions in a manifest.
#[derive(Debug)]
pub struct VersionAnswers {
    /// Of the runtime versions that the capsule asks for; it counts only where
    /// it asks for some.
    pub requirement: RequirementAnswer,
    /// Whether the package version is a version.
    pub version_parses: bool,
}

/// What the semver rules say of a version requirement.
#[derive(Debug)]
pub enum RequirementAnswer {
    /// It is none, for this reason.
    Invalid(String),
    /// The runtime is outside it.
    Unmatched,
    /// The runtime is inside it.
    Matched,
}

/// Whether answers are those of the semver rules.
pub open spec fn are_answers(
    answers: VersionAnswers,
    m: CapsuleManifest,
    runtime_version: Seq<char>,
) -> bool {
    &&& answers.version_parses == semver_version_parses(m.package.version@)
    &&& m.package.astrid_version matches Some(c) ==> match semver_req_error(c@) {
        Some(e) => answers.requirement matches RequirementAnswer::Invalid(text) && text@ == e,
        None => if semver_req_matches(c@, runtime_version) {
            answers.requirement is Matched
        } else {
            answers.requirement is Unmatched
        },
    }
}

/// What is wrong with the runtime versions that a capsule asks for, given an
/// answer.
pub open spec fn runtime_fault_given(
    constraint: Option<String>,
    runtime_version: Seq<char>,
    answer: RequirementAnswer,
) -> Option<Seq<char>> {
    match constraint {
        None => None,
        Some(c) => match answer {
            RequirementAnswer::Invalid(e) => Some(
                "invalid astrid-version '"@ + c@ + "' - "@ + e@,
            ),
            RequirementAnswer::Unmatched => Some(
                "capsule requires astrid-version "@ + c@ + ", but this runtime is "@
                    + runtime_version,
            ),
            RequirementAnswer::Matched => None,
        },
    }
}

/// What is wrong with a package version, given whether it is one.
pub open spec fn version_fault_given(version: Seq<char>, parses: bool) -> Option<Seq<char>> {
    if parses {
        None
    } else {
        Some(
            "invalid version '"@ + version
                + "' in [package] - must be valid semver (MAJOR.MINOR.PATCH)"@,
        )
    }
}

/// What is wrong with a topic pattern.
pub open spec fn topic_fault(kind: Seq<char>, pattern: Seq<char>) -> Option<Seq<char>> {
    if valid_segments(pattern) {
        None
    } else {
        Some(
            kind + " '"@ + pattern
                + "' contains empty segments (consecutive dots, leading/trailing dots, or is empty)"@,
        )
    }
}

/// The names of the interfaces of an import namespace.
pub open spec fn import_names(ns: ImportNamespace) -> Seq<Seq<char>> {
    ns.interfaces@.map_values(|d: crate::manifest::ImportDef| d.name@)
}

/// The names of the interfaces of an export namespace.
pub open spec fn export_names(ns: ExportNamespace) -> Seq<Seq<char>> {
    ns.interfaces@.map_values(|d: crate::manifest::ExportDef| d.name@)
}

/// What is wrong with a command.
pub open spec fn command_fault(cmd: CommandDef, reserved: Seq<Seq<char>>) -> Option<Seq<char>> {
    if cmd.kind == CommandKind::Cli {
        match verb_fault(cmd.name@, reserved) {
            Some(reason) => Some("invalid CLI command name '"@ + cmd.name@ + "': "@ + reason),
            None => None,
        }
    } else {
        None
    }
}

/// What is wrong with an uplink that imports.
pub open spec fn uplink_fault(m: CapsuleManifest) -> Option<Seq<char>> {
    if m.capabilities.uplink && m.imports@.len() > 0 {
        Some(
            "[imports] is not allowed on uplink capsules (uplinks load before non-uplinks and cannot depend on them)"@,
        )
    } else {
        None
    }
}

/// The first thing that is wrong with a manifest, in the order in which a
/// manifest is checked.
pub open spec fn manifest_fault(
    m: CapsuleManifest,
    runtime_version: Seq<char>,
    reserved: Seq<Seq<char>>,
) -> Option<Seq<char>> {
    first_some(
        faults_in_order(
            runtime_fault(m.package.astrid_version, runtime_version),
            version_fault(m.package.version@),
            m,
            reserved,
        ),
    )
}

/// The first thing that is wrong with a manifest, given what the semver rules
/// say of its versions.
pub open spec fn manifest_fault_given(
    m: CapsuleManifest,
    answers: VersionAnswers,
    runtime_version: Seq<char>,
    reserved: Seq<Seq<char>>,
) -> Option<Seq<char>> {
    first_some(
        faults_in_order(
            runtime_fault_given(m.package.astrid_version, runtime_version, answers.requirement),
            version_fault_given(m.package.version@, answers.version_parses),
            m,
            reserved,
        ),
    )
}

/// The faults of a manifest in checking order, after those of its versions.
pub open spec fn faults_in_order(
    of_runtime: Option<Seq<char>>,
    of_version: Option<Seq<char>>,
    m: CapsuleManifest,
    reserved: Seq<Seq<char>>,
) -> Seq<Option<Seq<char>>> {
    seq![
        of_runtime,
        of_version,
        first_some(publish_faults(m)),
        first_some(subscribe_faults(m)),
        first_some(import_faults(m)),
        first_some(export_faults(m)),
        first_some(command_faults(m, reserved)),
        uplink_fault(m),
    ]
}

pub open spec fn publish_faults(m: CapsuleManifest) -> Seq<Option<Seq<char>>> {
    m.publishes@.map_values(
        |d: crate::manifest::PublishDef| topic_fault("publish pattern"@, d.topic@),
    )
}

pub open spec fn subscribe_faults(m: CapsuleManifest) -> Seq<Option<Seq<char>>> {
    m.subscribes@.map_values(
        |d: crate::manifest::SubscribeDef| topic_fault("subscribe pattern"@, d.topic@),
    )
}

pub open spec fn import_faults(m: CapsuleManifest) -> Seq<Option<Seq<char>>> {
    m.imports@.map_values(
        |ns: ImportNamespace| namespace_fault("imports"@, ns.namespace@, import_names(ns)),
    )
}

pub open spec fn export_faults(m: CapsuleManifest) -> Seq<Option<Seq<char>>> {
    m.exports@.map_values(
        |ns: ExportNamespace| namespace_fault("exports"@, ns.namespace@, export_names(ns)),
    )
}

pub open spec fn command_faults(m: CapsuleManifest, reserved: Seq<Seq<char>>) -> Seq<
    Option<Seq<char>>,
> {
    m.commands@.map_values(|c: CommandDef| command_fault(c, reserved))
}

fn check_topic(path: &str, kind: &str, pattern: &str) -> (r: Result<(), CapsuleError>)
    ensures
        reports(r, path@, topic_fault(kind@, pattern@)),
{
    if has_valid_segments(pattern) {
        return Ok(());
    }
    let mut message = kind.to_owned();
    message.append(" '");
    message.append(pattern);
    message.append(
        "' contains empty segments (consecutive dots, leading/trailing dots, or is empty)",
    );
    Err(parse_error(path, message))
}

/// Checks the version of an imported interface, which is a requirement.
pub fn check_import_version(name: &str, version: &str) -> (r: Result<(), String>)
    ensures
        match semver_req_error(version@) {
            None => r is Ok,
            Some(e) => r matches Err(message) && message@ == "invalid semver requirement '"@
                + version@ + "' for import '"@ + name@ + "': "@ + e,
        },
{
    match version_req_error(version) {
        None => Ok(()),
        Some(e) => {
            let mut message = "invalid semver requirement '".to_owned();
            message.append(version);
            message.append("' for import '");
            message.append(name);
            message.append("': ");
            message.append(e.as_str());
            Err(message)
        },
    }
}

/// Checks the version of an exported interface.
pub fn check_export_version(name: &str, version: &str) -> (r: Result<(), String>)
    ensures
        if semver_version_parses(version@) {
            r is Ok
        } else {
            r matches Err(message) && message@ == "invalid semver version '"@ + version@
                + "' for export '"@ + name@ + "'"@
        },
{
    if version_parses(version) {
        return Ok(());
    }
    let mut message = "invalid semver version '".to_owned();
    message.append(version);
    message.append("' for export '");
    message.append(name);
    message.append("'");
    Err(message)
}

/// Asks the semver rules about the versions in a manifest.
fn ask_versions(m: &CapsuleManifest, runtime: &Runtime) -> (r: VersionAnswers)
    ensures
        are_answers(r, *m, runtime.version_text()),
{
    proof {
        use_type_invariant(runtime);
    }
    let requirement = match &m.package.astrid_version {
        None => RequirementAnswer::Matched,
        Some(constraint) => match version_req_error(constraint.as_str()) {
            Some(e) => RequirementAnswer::Invalid(e),
            None => if version_req_matches(constraint.as_str(), runtime.version.as_str()) {
                RequirementAnswer::Matched
            } else {
                RequirementAnswer::Unmatched
            },
        },
    };
    VersionAnswers { requirement, version_parses: version_parses(m.package.version.as_str()) }
}

fn check_runtime(
    path: &str,
    m: &CapsuleManifest,
    runtime_version: &str,
    answer: &RequirementAnswer,
) -> (r: Result<(), CapsuleError>)
    ensures
        reports(
            r,
            path@,
            runtime_fault_given(m.package.astrid_version, runtime_version@, *answer),
        ),
{
    match &m.package.astrid_version {
        None => Ok(()),
        Some(constraint) => match answer {
            RequirementAnswer::Invalid(e) => {
                let mut message = "invalid astrid-version '".to_owned();
                message.append(constraint.as_str());
                message.append("' - ");
                message.append(e.as_str());
                Err(parse_error(path, message))
            },
            RequirementAnswer::Unmatched => {
                let mut message = "capsule requires astrid-version ".to_owned();
                message.append(constraint.as_str());
                message.append(", but this runtime is ");
                message.append(runtime_version);
                Err(parse_error(path, message))
            },
            RequirementAnswer::Matched => Ok(()),
        },
    }
}

fn check_version(path: &str, version: &str, parses: bool) -> (r: Result<(), CapsuleError>)
    ensures
        reports(r, path@, version_fault_given(version@, parses)),
{
    if parses {
        return Ok(());
    }
    let mut message = "invalid version '".to_owned();
    message.append(version);
    message.append("' in [package] - must be valid semver (MAJOR.MINOR.PATCH)");
    Err(parse_error(path, message))
}

fn check_topics(path: &str, m: &CapsuleManifest) -> (r: Result<(), CapsuleError>)
    ensures
        reports(
            r,
            path@,
            first_some(seq![first_some(publish_faults(*m)), first_some(subscribe_faults(*m))]),
        ),
{
    let ghost published = publish_faults(*m);
    let ghost subscribed = subscribe_faults(*m);
    let ghost both = seq![first_some(published), first_some(subscribed)];
    for i in 0..m.publishes.len()
        invariant
            published == publish_faults(*m),
            both == seq![first_some(published), first_some(subscribe_faults(*m))],
            forall|j: int| 0 <= j < i ==> (#[trigger] published[j]) is None,
    {
        let r = check_topic(path, "publish pattern", m.publishes[i].topic.as_str());
        if r.is_err() {
            proof {
                lemma_first_some_at(published, i as int);
                lemma_first_some_at(both, 0);
            }
            return r;
        }
    }
    proof {
        lemma_first_some_none(published);
    }
    for i in 0..m.subscribes.len()
        invariant
            subscribed == subscribe_faults(*m),
            both == seq![first_some(publish_faults(*m)), first_some(subscribed)],
            first_some(publish_faults(*m)) is None,
            forall|j: int| 0 <= j < i ==> (#[trigger] subscribed[j]) is None,
    {
        let r = check_topic(path, "subscribe pattern", m.subscribes[i].topic.as_str());
        if r.is_err() {
            proof {
                lemma_first_some_at(subscribed, i as int);
                lemma_first_some_at(both, 1);
            }
            return r;
        }
    }
    proof {
        lemma_first_some_none(subscribed);
        lemma_first_some_none(both);
    }
    Ok(())
}

fn check_imports(path: &str, m: &CapsuleManifest) -> (r: Result<(), CapsuleError>)
    ensures
        reports(r, path@, first_some(import_faults(*m))),
{
    let ghost faults = import_faults(*m);
    for i in 0..m.imports.len()
        invariant
            faults == import_faults(*m),
            forall|j: int| 0 <= j < i ==> (#[trigger] faults[j]) is None,
    {
        let ns = &m.imports[i];
        let mut names: Vec<String> = Vec::new();
        for k in 0..ns.interfaces.len()
            invariant
                texts(names@) == import_names(*ns).take(k as int),
        {
            let ghost before = names@;
            let name = ns.interfaces[k].name.clone();
            names.push(name);
            assert(texts(names@) =~= texts(before).push(name@));
            assert(import_names(*ns).take(k + 1) =~= import_names(*ns).take(k as int).push(name@));
        }
        assert(texts(names@) =~= import_names(*ns));
        let r = validate_interface_identifiers(path, "imports", ns.namespace.as_str(), &names);
        if r.is_err() {
            proof {
                lemma_first_some_at(faults, i as int);
            }
            return r;
        }
    }
    proof {
        lemma_first_some_none(faults);
    }
    Ok(())
}

fn check_exports(path: &str, m: &CapsuleManifest) -> (r: Result<(), CapsuleError>)
    ensures
        reports(r, path@, first_some(export_faults(*m))),
{
    let ghost faults = export_faults(*m);
    for i in 0..m.exports.len()
        invariant
            faults == export_faults(*m),
            forall|j: int| 0 <= j < i ==> (#[trigger] faults[j]) is None,
    {
        let ns = &m.exports[i];
        let mut names: Vec<String> = Vec::new();
        for k in 0..ns.interfaces.len()
            invariant
                texts(names@) == export_names(*ns).take(k as int),
        {
            let ghost before = names@;
            let name = ns.interfaces[k].name.clone();
            names.push(name);
            assert(texts(names@) =~= texts(before).push(name@));
            assert(export_names(*ns).take(k + 1) =~= export_names(*ns).take(k as int).push(name@));
        }
        assert(texts(names@) =~= export_names(*ns));
        let r = validate_interface_identifiers(path, "exports", ns.namespace.as_str(), &names);
        if r.is_err() {
            proof {
                lemma_first_some_at(faults, i as int);
            }
            return r;
        }
    }
    proof {
        lemma_first_some_none(faults);
    }
    Ok(())
}

fn check_commands(path: &str, m: &CapsuleManifest, reserved: &Vec<String>) -> (r: Result<
    (),
    CapsuleError,
>)
    ensures
        reports(r, path@, first_some(command_faults(*m, texts(reserved@)))),
{
    let ghost faults = command_faults(*m, texts(reserved@));
    for i in 0..m.commands.len()
        invariant
            faults == command_faults(*m, texts(reserved@)),
            forall|j: int| 0 <= j < i ==> (#[trigger] faults[j]) is None,
    {
        let cmd = &m.commands[i];
        assert(faults[i as int] == command_fault(*cmd, texts(reserved@)));
        if cmd.kind == CommandKind::Cli {
            if let Err(reason) = validate_cli_verb_name(cmd.name.as_str(), reserved) {
                let mut message = "invalid CLI command name '".to_owned();
                message.append(cmd.name.as_str());
                message.append("': ");
                message.append(reason.as_str());
                proof {
                    lemma_first_some_at(faults, i as int);
                }
                return Err(parse_error(path, message));
            }
        }
    }
    proof {
        lemma_first_some_none(faults);
    }
    Ok(())
}

/// Checks a manifest, given what the semver rules say of its versions. Its
/// fault, if it has one, is the first in checking order.
pub fn check_manifest_given(
    path: &str,
    m: &CapsuleManifest,
    answers: &VersionAnswers,
    runtime_version: &str,
    reserved: &Vec<String>,
) -> (r: Result<(), CapsuleError>)
    ensures
        reports(
            r,
            path@,
            manifest_fault_given(*m, *answers, runtime_version@, texts(reserved@)),
        ),
{
    let ghost topics = seq![first_some(publish_faults(*m)), first_some(subscribe_faults(*m))];
    let ghost all = faults_in_order(
        runtime_fault_given(m.package.astrid_version, runtime_version@, answers.requirement),
        version_fault_given(m.package.version@, answers.version_parses),
        *m,
        texts(reserved@),
    );
    let r = check_runtime(path, m, runtime_version, &answers.requirement);
    if r.is_err() {
        proof {
            lemma_first_some_at(all, 0);
        }
        return r;
    }
    let r = check_version(path, m.package.version.as_str(), answers.version_parses);
    if r.is_err() {
        proof {
            lemma_first_some_at(all, 1);
        }
        return r;
    }
    let r = check_topics(path, m);
    proof {
        if topics[0] is Some {
            lemma_first_some_at(topics, 0);
            lemma_first_some_at(all, 2);
        } else if topics[1] is Some {
            lemma_first_some_at(topics, 1);
            lemma_first_some_at(all, 3);
        } else {
            lemma_first_some_none(topics);
        }
    }
    if r.is_err() {
        return r;
    }
    let r = check_imports(path, m);
    if r.is_err() {
        proof {
            lemma_first_some_at(all, 4);
        }
        return r;
    }
    let r = check_exports(path, m);
    if r.is_err() {
        proof {
            lemma_first_some_at(all, 5);
        }
        return r;
    }
    let r = check_commands(path, m, reserved);
    if r.is_err() {
        proof {
            lemma_first_some_at(all, 6);
        }
        return r;
    }
    if m.capabilities.uplink && m.has_imports() {
        let message = "[imports] is not allowed on uplink capsules (uplinks load before non-uplinks and cannot depend on them)".to_owned();
        proof {
            lemma_first_some_at(all, 7);
        }
        return Err(parse_error(path, message));
    }
    proof {
        lemma_first_some_none(all);
    }
    Ok(())
}

/// Checks a manifest.
fn check_manifest(path: &str, m: &CapsuleManifest, runtime: &Runtime) -> (r: Result<
    (),
    CapsuleError,
>)
    ensures
        reports(r, path@, manifest_fault(*m, runtime.version_text(), runtime.reserved())),
{
    let answers = ask_versions(m, runtime);
    check_manifest_given(
        path,
        m,
        &answers,
        runtime.version.as_str(),
        &runtime.reserved_verbs,
    )
}

/// Loads a manifest from what reading and parsing its file gave: the parsed
/// manifest, or the text of the failure.
///
/// A manifest without a fault comes back with the capabilities of its
/// components merged into the root, where the security gate reads them.
pub fn load_manifest(
    path: &str,
    parsed: Result<CapsuleManifest, String>,
    runtime: &Runtime,
) -> (r: Result<CapsuleManifest, CapsuleError>)
    ensures
        match parsed {
            Err(message) => r matches Err(e) && is_parse_error(e, path@, message@),
            Ok(m) => match manifest_fault(m, runtime.version_text(), runtime.reserved()) {
                Some(fault) => r matches Err(e) && is_parse_error(e, path@, fault),
                None => r matches Ok(out) && manifest_merged(m, out),
            },
        },
{
    match parsed {
        Err(message) => Err(parse_error(path, message)),
        Ok(manifest) => {
            let mut manifest = manifest;
            match check_manifest(path, &manifest, runtime) {
                Err(e) => Err(e),
                Ok(()) => {
                    merge_capabilities(&mut manifest.capabilities, &manifest.components);
                    Ok(manifest)
                },
            }
        },
    }
}

/// What a directory entry is.
#[derive(Debug, Clone, Copy, PartialEq, Eq, Structural)]
pub enum EntryKind {
    Directory,
    File,
    Other,
}

/// An entry of a scanned directory.
#[derive(Debug)]
pub struct DirEntry {
    /// The entry's own name.
    pub name: String,
    pub kind: EntryKind,
    /// What reading the manifest that the entry stands for gave; `None` where
    /// there is no such file.
    pub parsed: Option<Result<CapsuleManifest, String>>,
}

/// The manifest file that a directory entry stands for: `Capsule.toml` inside
/// a subdirectory, or a file of that name.
pub open spec fn manifest_file(
    dir: Seq<char>,
    name: Seq<char>,
    kind: EntryKind,
) -> Option<Seq<char>> {
    match kind {
        EntryKind::Directory => Some(join(join(dir, name), MANIFEST_FILE_NAME@)),
        EntryKind::File if name == MANIFEST_FILE_NAME@ => Some(join(dir, name)),
        _ => None,
    }
}

/// The directory of the capsule that a directory entry stands for.
pub open spec fn capsule_dir(dir: Seq<char>, name: Seq<char>, kind: EntryKind) -> Seq<char> {
    match kind {
        EntryKind::Directory => join(dir, name),
        _ => dir,
    }
}

/// The manifest file to read for a directory entry, if there is one.
pub fn manifest_location(dir: &str, name: &str, kind: EntryKind) -> (r: Option<String>)
    ensures
        match r {
            Some(path) => manifest_file(dir@, name@, kind) == Some(path@),
            None => manifest_file(dir@, name@, kind) is None,
        },
{
    let path = join_paths(dir, name);
    match kind {
        EntryKind::Directory => Some(join_paths(path.as_str(), MANIFEST_FILE_NAME)),
        EntryKind::File => if same(name, MANIFEST_FILE_NAME) {
            Some(path)
        } else {
            None
        },
        EntryKind::Other => None,
    }
}

/// The manifest that an entry offers: one that was read, parsed and found
/// without fault.
pub open spec fn offered(entry: DirEntry, runtime: &Runtime) -> Option<CapsuleManifest> {
    match entry.parsed {
        Some(Ok(m)) => if manifest_file(Seq::empty(), entry.name@, entry.kind) is Some
            && manifest_fault(m, runtime.version_text(), runtime.reserved()) is None {
            Some(m)
        } else {
            None
        },
        _ => None,
    }
}

/// The manifests that a directory's entries offer, each with its directory, in
/// the order of the entries.
pub open spec fn offers(
    dir: Seq<char>,
    entries: Seq<Result<DirEntry, String>>,
    runtime: &Runtime,
) -> Seq<(CapsuleManifest, Seq<char>)>
    decreases entries.len(),
{
    if entries.len() == 0 {
        Seq::empty()
    } else {
        let rest = offers(dir, entries.drop_last(), runtime);
        match entries.last() {
            Ok(entry) => match offered(entry, runtime) {
                Some(m) => rest.push((m, capsule_dir(dir, entry.name@, entry.kind))),
                None => rest,
            },
            Err(_) => rest,
        }
    }
}

/// The first entry of a listing that could not be read.
pub open spec fn entry_failure(entries: Seq<Result<DirEntry, String>>) -> Option<Seq<char>> {
    first_some(
        entries.map_values(
            |e: Result<DirEntry, String>|
                match e {
                    Ok(_) => None,
                    Err(message) => Some(message@),
                },
        ),
    )
}

/// Whether `out` holds the given manifests, each merged, with their
/// directories.
pub open spec fn realizes(
    out: Seq<(CapsuleManifest, String)>,
    wanted: Seq<(CapsuleManifest, Seq<char>)>,
) -> bool {
    &&& out.len() == wanted.len()
    &&& forall|k: int|
        0 <= k < out.len() ==> manifest_merged(wanted[k].0, (#[trigger] out[k]).0) && out[k].1@
            == wanted[k].1
}

/// Loads the manifests of one directory from its listing. An entry that cannot
/// be read fails the whole directory; a manifest that cannot be loaded is left
/// out.
pub fn load_manifests_from_dir(
    dir: &str,
    listing: Result<Vec<Result<DirEntry, String>>, String>,
    runtime: &Runtime,
) -> (r: Result<Vec<(CapsuleManifest, String)>, CapsuleError>)
    ensures
        match listing {
            Err(message) => r matches Err(e) && is_parse_error(e, dir@, message@),
            Ok(entries) => match entry_failure(entries@) {
                Some(message) => r matches Err(e) && is_parse_error(e, dir@, message),
                None => r matches Ok(found) && realizes(found@, offers(dir@, entries@, runtime)),
            },
        },
{
    let entries = match listing {
        Ok(entries) => entries,
        Err(message) => return Err(parse_error(dir, message)),
    };
    let ghost all = entries@;
    let ghost failures = all.map_values(
        |e: Result<DirEntry, String>|
            match e {
                Ok(_) => None,
                Err(message) => Some(message@),
            },
    );
    let mut found: Vec<(CapsuleManifest, String)> = Vec::new();
    for item in it: entries
        invariant
            it.seq() == all,
            listing is Ok && listing->Ok_0@ == all,
            failures == all.map_values(
                |e: Result<DirEntry, String>|
                    match e {
                        Ok(_) => None,
                        Err(message) => Some(message@),
                    },
            ),
            forall|j: int| 0 <= j < it.index() ==> (#[trigger] failures[j]) is None,
            realizes(found@, offers(dir@, all.take(it.index() as int), runtime)),
    {
        let ghost i = it.index() as int;
        proof {
            assert(all.take(i + 1).drop_last() =~= all.take(i));
            assert(all.take(i + 1).last() == all[i]);
            assert(item == all[i]);
        }
        let ghost wanted = offers(dir@, all.take(i), runtime);
        let ghost before = found@;
        match item {
            Err(message) => {
                proof {
                    lemma_first_some_at(failures, i);
                }
                return Err(parse_error(dir, message));
            },
            Ok(entry) => {
                let path = join_paths(dir, entry.name.as_str());
                let location = manifest_location(dir, entry.name.as_str(), entry.kind);
                let home: String = match entry.kind {
                    EntryKind::Directory => path,
                    _ => dir.to_owned(),
                };
                assert(home@ == capsule_dir(dir@, entry.name@, entry.kind));
                match (location, entry.parsed) {
                    (Some(file), Some(parsed)) => {
                        match load_manifest(file.as_str(), parsed, runtime) {
                            Ok(manifest) => {
                                found.push((manifest, home));
                                proof {
                                    let m = parsed->Ok_0;
                                    let next = offers(dir@, all.take(i + 1), runtime);
                                    assert(next == wanted.push((m, home@)));
                                    assert forall|k: int| 0 <= k < found@.len() implies
                                        manifest_merged(next[k].0, (#[trigger] found@[k]).0)
                                            && found@[k].1@ == next[k].1 by {
                                        if k < before.len() {
                                            assert(found@[k] == before[k]);
                                            assert(next[k] == wanted[k]);
                                        }
                                    }
                                }
                            },
                            Err(_) => {},
                        }
                    },
                    _ => {},
                }
            },
        }
    }
    proof {
        lemma_first_some_none(failures);
        assert(all.take(all.len() as int) =~= all);
    }
    Ok(found)
}

/// A directory to scan: its path and its listing, `None` where it does not
/// exist.
#[derive(Debug)]
pub struct SourceDir {
    pub path: String,
    pub listing: Option<Result<Vec<Result<DirEntry, String>>, String>>,
}

/// What a source contributes: nothing where it is missing or fails.
pub open spec fn source_offers(source: SourceDir, runtime: &Runtime) -> Seq<
    (CapsuleManifest, Seq<char>),
> {
    match source.listing {
        Some(Ok(entries)) => if entry_failure(entries@) is None {
            offers(source.path@, entries@, runtime)
        } else {
            Seq::empty()
        },
        _ => Seq::empty(),
    }
}

/// What a list of sources contributes, in order.
pub open spec fn all_offers(sources: Seq<SourceDir>, runtime: &Runtime) -> Seq<
    (CapsuleManifest, Seq<char>),
>
    decreases sources.len(),
{
    if sources.len() == 0 {
        Seq::empty()
    } else {
        all_offers(sources.drop_last(), runtime) + source_offers(sources.last(), runtime)
    }
}

/// Whether a list holds a manifest of the given package name.
pub open spec fn names_package(
    list: Seq<(CapsuleManifest, Seq<char>)>,
    name: Seq<char>,
) -> bool {
    exists|k: int| 0 <= k < list.len() && (#[trigger] list[k]).0.package.name@ == name
}

/// The first manifest of each package name, in order.
pub open spec fn first_per_name(list: Seq<(CapsuleManifest, Seq<char>)>) -> Seq<
    (CapsuleManifest, Seq<char>),
>
    decreases list.len(),
{
    if list.len() == 0 {
        Seq::empty()
    } else {
        let rest = first_per_name(list.drop_last());
        if names_package(rest, list.last().0.package.name@) {
            rest
        } else {
            rest.push(list.last())
        }
    }
}

/// Adds the manifests of one source that no earlier source has named.
fn add_unseen(
    manifests: &mut Vec<(CapsuleManifest, String)>,
    found: Vec<(CapsuleManifest, String)>,
    Ghost(earlier): Ghost<Seq<(CapsuleManifest, Seq<char>)>>,
    Ghost(more): Ghost<Seq<(CapsuleManifest, Seq<char>)>>,
)
    requires
        realizes(old(manifests)@, first_per_name(earlier)),
        realizes(found@, more),
    ensures
        realizes(final(manifests)@, first_per_name(earlier + more)),
{
    let ghost all = found@;
    assert(earlier + more.take(0) =~= earlier);
    for item in it: found
        invariant
            it.seq() == all,
            realizes(all, more),
            realizes(manifests@, first_per_name(earlier + more.take(it.index() as int))),
    {
        let ghost i = it.index() as int;
        let ghost done = earlier + more.take(i);
        let ghost next = earlier + more.take(i + 1);
        let ghost before = manifests@;
        proof {
            assert(item == all[i]);
            assert(next.drop_last() =~= done);
            assert(next.last() == more[i]);
        }
        let (manifest, dir) = item;
        let seen = names_loaded(manifests, manifest.package.name.as_str());
        proof {
            let firsts = first_per_name(done);
            assert(seen == names_package(firsts, more[i].0.package.name@)) by {
                if seen {
                    let k = choose|k: int|
                        0 <= k < before.len() && (#[trigger] before[k]).0.package.name@
                            == manifest.package.name@;
                    assert(firsts[k].0.package.name@ == manifest.package.name@);
                }
                if names_package(firsts, more[i].0.package.name@) {
                    let k = choose|k: int|
                        0 <= k < firsts.len() && (#[trigger] firsts[k]).0.package.name@
                            == more[i].0.package.name@;
                    assert(before[k].0.package.name@ == manifest.package.name@);
                }
            }
        }
        if !seen {
            manifests.push((manifest, dir));
            proof {
                let firsts = first_per_name(next);
                assert forall|k: int| 0 <= k < manifests@.len() implies manifest_merged(
                    firsts[k].0,
                    (#[trigger] manifests@[k]).0,
                ) && manifests@[k].1@ == firsts[k].1 by {
                    if k < before.len() {
                        assert(manifests@[k] == before[k]);
                        assert(firsts[k] == first_per_name(done)[k]);
                    }
                }
            }
        }
    }
    assert(more.take(more.len() as int) =~= more);
}

fn names_loaded(manifests: &Vec<(CapsuleManifest, String)>, name: &str) -> (r: bool)
    ensures
        r == exists|k: int|
            0 <= k < manifests@.len() && (#[trigger] manifests@[k]).0.package.name@ == name@,
{
    for i in 0..manifests.len()
        invariant
            forall|k: int|
                0 <= k < i ==> (#[trigger] manifests@[k]).0.package.name@ != name@,
    {
        if same(manifests[i].0.package.name.as_str(), name) {
            assert(manifests@[i as int].0.package.name@ == name@);
            return true;
        }
    }
    false
}

/// The sources in priority order: the extra ones, then the workspace.
pub open spec fn in_priority_order(extra: Option<Vec<SourceDir>>, workspace: SourceDir) -> Seq<
    SourceDir,
> {
    match extra {
        Some(list) => list@.push(workspace),
        None => seq![workspace],
    }
}

/// Discovers manifests from the extra directories, in order, and then from the
/// workspace directory. Of manifests with the same package name the first one
/// wins. A source that is missing or fails contributes nothing.
pub fn discover_manifests(
    extra: Option<Vec<SourceDir>>,
    workspace: SourceDir,
    runtime: &Runtime,
) -> (r: Vec<(CapsuleManifest, String)>)
    ensures
        realizes(r@, first_per_name(all_offers(in_priority_order(extra, workspace), runtime))),
{
    let mut sources: Vec<SourceDir> = match extra {
        Some(list) => list,
        None => Vec::new(),
    };
    sources.push(workspace);
    assert(sources@ =~= in_priority_order(extra, workspace));
    let ghost all = sources@;
    let mut manifests: Vec<(CapsuleManifest, String)> = Vec::new();
    for source in it: sources
        invariant
            it.seq() == all,
            realizes(
                manifests@,
                first_per_name(all_offers(all.take(it.index() as int), runtime)),
            ),
    {
        let ghost i = it.index() as int;
        let ghost earlier = all_offers(all.take(i), runtime);
        proof {
            assert(source == all[i]);
            assert(all.take(i + 1).drop_last() =~= all.take(i));
            assert(all.take(i + 1).last() == all[i]);
            assert(earlier + Seq::<(CapsuleManifest, Seq<char>)>::empty() =~= earlier);
        }
        match source.listing {
            None => {},
            Some(listing) => {
                match load_manifests_from_dir(source.path.as_str(), listing, runtime) {
                    Ok(found) => {
                        add_unseen(
                            &mut manifests,
                            found,
                            Ghost(earlier),
                            Ghost(source_offers(all[i], runtime)),
                        );
                    },
                    Err(_) => {},
                }
            },
        }
    }
    assert(all.take(all.len() as int) =~= all);
    manifests
}

/// Discovery keeps one manifest per package name.
pub proof fn discovered_names_are_unique(list: Seq<(CapsuleManifest, Seq<char>)>)
    ensures
        forall|i: int, j: int|
            0 <= i < j < first_per_name(list).len() ==> (#[trigger] first_per_name(
                list,
            )[i]).0.package.name@ != (#[trigger] first_per_name(list)[j]).0.package.name@,
    decreases list.len(),
{
    if list.len() > 0 {
        discovered_names_are_unique(list.drop_last());
    }
}

/// Of the manifests that share a package name, discovery keeps the one that
/// was offered first, so a source of higher priority wins; and it drops no
/// package altogether.
pub proof fn first_offer_wins(list: Seq<(CapsuleManifest, Seq<char>)>, i: int)
    requires
        0 <= i < list.len(),
        forall|j: int| 0 <= j < i ==> (#[trigger] list[j]).0.package.name@ != list[i].0.package.name@,
    ensures
        first_per_name(list).contains(list[i]),
    decreases list.len(),
{
    let front = list.drop_last();
    let rest = first_per_name(front);
    if i < list.len() - 1 {
        first_offer_wins(front, i);
        let k = choose|k: int| 0 <= k < rest.len() && rest[k] == list[i];
        assert(first_per_name(list)[k] == list[i]);
    } else {
        let name = list[i].0.package.name@;
        if names_package(rest, name) {
            let k = choose|k: int| 0 <= k < rest.len() && (#[trigger] rest[k]).0.package.name@ == name;
            discovered_is_offered(front, k);
            let j = choose|j: int| 0 <= j < front.len() && front[j] == rest[k];
            assert(list[j].0.package.name@ == name);
        }
        assert(first_per_name(list).last() == list[i]);
    }
}

/// Discovery invents nothing: what it returns was offered by a source.
pub proof fn discovered_is_offered(list: Seq<(CapsuleManifest, Seq<char>)>, k: int)
    requires
        0 <= k < first_per_name(list).len(),
    ensures
        list.contains(first_per_name(list)[k]),
    decreases list.len(),
{
    let front = list.drop_last();
    let rest = first_per_name(front);
    if k < rest.len() {
        discovered_is_offered(front, k);
        let j = choose|j: int| 0 <= j < front.len() && front[j] == rest[k];
        assert(list[j] == first_per_name(list)[k]);
    } else {
        assert(list[list.len() - 1] == first_per_name(list)[k]);
    }
}

proof fn lemma_none_before<T>(list: Seq<Option<T>>, i: int)
    requires
        first_some(list) is None,
        0 <= i < list.len(),
    ensures
        list[i] is None,
    decreases list.len(),
{
    if i < list.len() - 1 {
        lemma_none_before(list.drop_last(), i);
    }
}

proof fn lemma_names_are_identifiers(
    section: Seq<char>,
    namespace: Seq<char>,
    names: Seq<Seq<char>>,
    k: int,
)
    requires
        namespace_fault(section, namespace, names) is None,
        0 <= k < names.len(),
    ensures
        is_identifier(names[k]),
{
    let faults = names.map_values(|n: Seq<char>| interface_fault(section, namespace, n));
    lemma_none_before(faults, k);
    assert(faults[k] == interface_fault(section, namespace, names[k]));
}

/// A manifest that loads is sound: its version is semver, its topics have no
/// empty segments, its namespaces and the interfaces in them are named by
/// identifiers, its command-line verbs are free identifiers of at most 32
/// bytes, and it does not import if it is an uplink.
pub proof fn loaded_manifests_are_sound(
    m: CapsuleManifest,
    runtime_version: Seq<char>,
    reserved: Seq<Seq<char>>,
)
    requires
        manifest_fault(m, runtime_version, reserved) is None,
    ensures
        semver_version_parses(m.package.version@),
        m.package.astrid_version matches Some(c) ==> semver_req_error(c@) is None
            && semver_req_matches(c@, runtime_version),
        forall|i: int|
            0 <= i < m.publishes@.len() ==> valid_segments((#[trigger] m.publishes@[i]).topic@),
        forall|i: int|
            0 <= i < m.subscribes@.len() ==> valid_segments((#[trigger] m.subscribes@[i]).topic@),
        forall|i: int|
            0 <= i < m.imports@.len() ==> is_identifier((#[trigger] m.imports@[i]).namespace@),
        forall|i: int|
            0 <= i < m.exports@.len() ==> is_identifier((#[trigger] m.exports@[i]).namespace@),
        forall|i: int, k: int|
            0 <= i < m.imports@.len() && 0 <= k < m.imports@[i].interfaces@.len()
                ==> is_identifier((#[trigger] m.imports@[i].interfaces@[k]).name@),
        forall|i: int, k: int|
            0 <= i < m.exports@.len() && 0 <= k < m.exports@[i].interfaces@.len()
                ==> is_identifier((#[trigger] m.exports@[i].interfaces@[k]).name@),
        forall|i: int|
            0 <= i < m.commands@.len() && (#[trigger] m.commands@[i]).kind == CommandKind::Cli
                ==> is_identifier(m.commands@[i].name@) && encode_utf8(
                m.commands@[i].name@,
            ).len() <= 32 && !reserved.contains(m.commands@[i].name@),
        m.capabilities.uplink ==> m.imports@.len() == 0,
{
    let all = faults_in_order(
        runtime_fault(m.package.astrid_version, runtime_version),
        version_fault(m.package.version@),
        m,
        reserved,
    );
    assert forall|i: int| 0 <= i < 8 implies (#[trigger] all[i]) is None by {
        lemma_none_before(all, i);
    }
    assert(all[0] is None && all[1] is None && all[2] is None && all[3] is None && all[4] is None
        && all[5] is None && all[6] is None && all[7] is None);
    assert forall|i: int| 0 <= i < m.publishes@.len() implies valid_segments(
        (#[trigger] m.publishes@[i]).topic@,
    ) by {
        lemma_none_before(publish_faults(m), i);
    }
    assert forall|i: int| 0 <= i < m.subscribes@.len() implies valid_segments(
        (#[trigger] m.subscribes@[i]).topic@,
    ) by {
        lemma_none_before(subscribe_faults(m), i);
    }
    assert forall|i: int| 0 <= i < m.imports@.len() implies is_identifier(
        (#[trigger] m.imports@[i]).namespace@,
    ) by {
        lemma_none_before(import_faults(m), i);
    }
    assert forall|i: int| 0 <= i < m.exports@.len() implies is_identifier(
        (#[trigger] m.exports@[i]).namespace@,
    ) by {
        lemma_none_before(export_faults(m), i);
    }
    assert forall|i: int, k: int|
        0 <= i < m.imports@.len() && 0 <= k < m.imports@[i].interfaces@.len() implies is_identifier(
        (#[trigger] m.imports@[i].interfaces@[k]).name@,
    ) by {
        lemma_none_before(import_faults(m), i);
        let ns = m.imports@[i];
        lemma_names_are_identifiers("imports"@, ns.namespace@, import_names(ns), k);
    }
    assert forall|i: int, k: int|
        0 <= i < m.exports@.len() && 0 <= k < m.exports@[i].interfaces@.len() implies is_identifier(
        (#[trigger] m.exports@[i].interfaces@[k]).name@,
    ) by {
        lemma_none_before(export_faults(m), i);
        let ns = m.exports@[i];
        lemma_names_are_identifiers("exports"@, ns.namespace@, export_names(ns), k);
    }
    assert forall|i: int|
        0 <= i < m.commands@.len() && (#[trigger] m.commands@[i]).kind
            == CommandKind::Cli implies is_identifier(m.commands@[i].name@) && encode_utf8(
        m.commands@[i].name@,
    ).len() <= 32 && !reserved.contains(m.commands@[i].name@) by {
        let name = m.commands@[i].name@;
        lemma_none_before(command_faults(m, reserved), i);
        assert(command_faults(m, reserved)[i] == command_fault(m.commands@[i], reserved));
        let bad = Seq::new(
            name.len(),
            |k: int|
                if k == 0 || is_identifier_char(name[k]) {
                    None
                } else {
                    Some(seq![name[k]])
                },
        );
        assert forall|k: int| 1 <= k < name.len() implies is_identifier_char(#[trigger] name[k]) by {
            lemma_none_before(bad, k);
        }
    }
}

/// What a component declares of the merged lists reaches the root
/// capabilities, where the security gate reads it.
pub proof fn component_entries_reach_the_root(
    components: Seq<ComponentDef>,
    pick: spec_fn(CapabilitiesDef) -> Seq<String>,
    i: int,
    entry: String,
)
    requires
        0 <= i < components.len(),
        components[i].capabilities is Some,
        pick(components[i].capabilities->0).contains(entry),
    ensures
        collected(components, pick).contains(entry),
    decreases components.len(),
{
    let rest = collected(components.drop_last(), pick);
    let all = collected(components, pick);
    if i < components.len() - 1 {
        component_entries_reach_the_root(components.drop_last(), pick, i, entry);
        let k = choose|k: int| 0 <= k < rest.len() && rest[k] == entry;
        assert(all[k] == entry);
    } else {
        let own = pick(components[i].capabilities->0);
        let k = choose|k: int| 0 <= k < own.len() && own[k] == entry;
        assert(all[rest.len() + k] == entry);
    }
}

/// Loading keeps what the root declares: each merged list begins with the
/// root's own, the other capabilities and everything else of the manifest stay
/// as they are, and where no component declares capabilities nothing changes.
pub proof fn root_declarations_are_kept(m: CapsuleManifest, out: CapsuleManifest)
    requires
        manifest_merged(m, out),
    ensures
        m.capabilities.fs_read@.is_prefix_of(out.capabilities.fs_read@),
        m.capabilities.fs_write@.is_prefix_of(out.capabilities.fs_write@),
        m.capabilities.host_process@.is_prefix_of(out.capabilities.host_process@),
        m.capabilities.net@.is_prefix_of(out.capabilities.net@),
        m.capabilities.net_bind@.is_prefix_of(out.capabilities.net_bind@),
        out.capabilities.uplink == m.capabilities.uplink,
        out.capabilities.kv@ == m.capabilities.kv@,
        out.capabilities.allow_persistent == m.capabilities.allow_persistent,
        out.capabilities.net_connect@ == m.capabilities.net_connect@,
        out.capabilities.identity@ == m.capabilities.identity@,
        out.capabilities.allow_prompt_injection == m.capabilities.allow_prompt_injection,
        out.package == m.package,
        out.components == m.components,
        out.imports == m.imports,
        out.exports == m.exports,
        out.env == m.env,
        out.commands == m.commands,
        out.uplinks == m.uplinks,
        out.publishes == m.publishes,
        out.subscribes == m.subscribes,
        (forall|i: int|
            0 <= i < m.components@.len() ==> (#[trigger] m.components@[i]).capabilities is None)
            ==> {
            &&& out.capabilities.fs_read@ == m.capabilities.fs_read@
            &&& out.capabilities.fs_write@ == m.capabilities.fs_write@
            &&& out.capabilities.host_process@ == m.capabilities.host_process@
            &&& out.capabilities.net@ == m.capabilities.net@
            &&& out.capabilities.net_bind@ == m.capabilities.net_bind@
            &&& out.capabilities.bind_workers == m.capabilities.bind_workers
        },
{
    let root = m.capabilities;
    let caps = out.capabilities;
    let all = m.components@;
    lemma_prefix_of_sum(root.fs_read@, caps.fs_read@, collected(all, |c: CapabilitiesDef| c.fs_read@));
    lemma_prefix_of_sum(
        root.fs_write@,
        caps.fs_write@,
        collected(all, |c: CapabilitiesDef| c.fs_write@),
    );
    lemma_prefix_of_sum(
        root.host_process@,
        caps.host_process@,
        collected(all, |c: CapabilitiesDef| c.host_process@),
    );
    lemma_prefix_of_sum(root.net@, caps.net@, collected(all, |c: CapabilitiesDef| c.net@));
    lemma_prefix_of_sum(
        root.net_bind@,
        caps.net_bind@,
        collected(all, |c: CapabilitiesDef| c.net_bind@),
    );
    if forall|i: int| 0 <= i < all.len() ==> (#[trigger] all[i]).capabilities is None {
        lemma_nothing_collected(all, |c: CapabilitiesDef| c.fs_read@, root.bind_workers);
        lemma_nothing_collected(all, |c: CapabilitiesDef| c.fs_write@, root.bind_workers);
        lemma_nothing_collected(all, |c: CapabilitiesDef| c.host_process@, root.bind_workers);
        lemma_nothing_collected(all, |c: CapabilitiesDef| c.net@, root.bind_workers);
        lemma_nothing_collected(all, |c: CapabilitiesDef| c.net_bind@, root.bind_workers);
        assert(caps.fs_read@ =~= root.fs_read@);
        assert(caps.fs_write@ =~= root.fs_write@);
        assert(caps.host_process@ =~= root.host_process@);
        assert(caps.net@ =~= root.net@);
        assert(caps.net_bind@ =~= root.net_bind@);
    }
}

proof fn lemma_prefix_of_sum(a: Seq<String>, sum: Seq<String>, b: Seq<String>)
    requires
        sum == a + b,
    ensures
        a.is_prefix_of(sum),
{
    assert(sum.subrange(0, a.len() as int) =~= a);
}

proof fn lemma_nothing_collected(
    components: Seq<ComponentDef>,
    pick: spec_fn(CapabilitiesDef) -> Seq<String>,
    root: Option<usize>,
)
    requires
        forall|i: int|
            0 <= i < components.len() ==> (#[trigger] components[i]).capabilities is None,
    ensures
        collected(components, pick) == Seq::<String>::empty(),
        merged_workers(root, components) == root,
    decreases components.len(),
{
    if components.len() > 0 {
        assert(components[components.len() - 1].capabilities is None);
        assert forall|i: int| 0 <= i < components.drop_last().len() implies (
        #[trigger] components.drop_last()[i]).capabilities is None by {
            assert(components[i].capabilities is None);
        }
        lemma_nothing_collected(components.drop_last(), pick, root);
    }
}

/// Whether a component of a list declares an entry.
pub open spec fn component_declares(
    components: Seq<ComponentDef>,
    pick: spec_fn(CapabilitiesDef) -> Seq<String>,
    entry: String,
) -> bool {
    exists|i: int|
        0 <= i < components.len() && (#[trigger] components[i]).capabilities is Some && pick(
            components[i].capabilities->0,
        ).contains(entry)
}

proof fn lemma_collected_members(
    components: Seq<ComponentDef>,
    pick: spec_fn(CapabilitiesDef) -> Seq<String>,
    entry: String,
)
    ensures
        collected(components, pick).contains(entry) == component_declares(components, pick, entry),
    decreases components.len(),
{
    if component_declares(components, pick, entry) {
        let i = choose|i: int|
            0 <= i < components.len() && (#[trigger] components[i]).capabilities is Some && pick(
                components[i].capabilities->0,
            ).contains(entry);
        component_entries_reach_the_root(components, pick, i, entry);
    }
    if collected(components, pick).contains(entry) && components.len() > 0 {
        let front = components.drop_last();
        let rest = collected(front, pick);
        let all = collected(components, pick);
        let k = choose|k: int| 0 <= k < all.len() && all[k] == entry;
        if k < rest.len() {
            assert(rest[k] == entry);
            lemma_collected_members(front, pick, entry);
            let i = choose|i: int|
                0 <= i < front.len() && (#[trigger] front[i]).capabilities is Some && pick(
                    front[i].capabilities->0,
                ).contains(entry);
            assert(components[i].capabilities is Some);
        } else {
            let own = pick(components.last().capabilities->0);
            assert(own[k - rest.len()] == entry);
            assert(components[components.len() - 1].capabilities is Some);
        }
    }
}

/// A merged list holds an entry exactly where the root declares it there or a
/// component does, in the same list: nothing is lost, invented or put into
/// another list.
pub proof fn merged_lists_hold_what_was_declared(
    m: CapsuleManifest,
    out: CapsuleManifest,
    entry: String,
)
    requires
        manifest_merged(m, out),
    ensures
        out.capabilities.fs_read@.contains(entry) == (m.capabilities.fs_read@.contains(entry)
            || component_declares(m.components@, |c: CapabilitiesDef| c.fs_read@, entry)),
        out.capabilities.fs_write@.contains(entry) == (m.capabilities.fs_write@.contains(entry)
            || component_declares(m.components@, |c: CapabilitiesDef| c.fs_write@, entry)),
        out.capabilities.host_process@.contains(entry) == (m.capabilities.host_process@.contains(
            entry,
        ) || component_declares(m.components@, |c: CapabilitiesDef| c.host_process@, entry)),
        out.capabilities.net@.contains(entry) == (m.capabilities.net@.contains(entry)
            || component_declares(m.components@, |c: CapabilitiesDef| c.net@, entry)),
        out.capabilities.net_bind@.contains(entry) == (m.capabilities.net_bind@.contains(entry)
            || component_declares(m.components@, |c: CapabilitiesDef| c.net_bind@, entry)),
{
    let all = m.components@;
    let a = |c: CapabilitiesDef| c.fs_read@;
    let b = |c: CapabilitiesDef| c.fs_write@;
    let h = |c: CapabilitiesDef| c.host_process@;
    let n = |c: CapabilitiesDef| c.net@;
    let l = |c: CapabilitiesDef| c.net_bind@;
    lemma_collected_members(all, a, entry);
    lemma_collected_members(all, b, entry);
    lemma_collected_members(all, h, entry);
    lemma_collected_members(all, n, entry);
    lemma_collected_members(all, l, entry);
    lemma_sum_members(m.capabilities.fs_read@, collected(all, a), entry);
    lemma_sum_members(m.capabilities.fs_write@, collected(all, b), entry);
    lemma_sum_members(m.capabilities.host_process@, collected(all, h), entry);
    lemma_sum_members(m.capabilities.net@, collected(all, n), entry);
    lemma_sum_members(m.capabilities.net_bind@, collected(all, l), entry);
}

proof fn lemma_sum_members(a: Seq<String>, b: Seq<String>, entry: String)
    ensures
        (a + b).contains(entry) == (a.contains(entry) || b.contains(entry)),
{
    if a.contains(entry) {
        let i = choose|i: int| 0 <= i < a.len() && a[i] == entry;
        assert((a + b)[i] == entry);
    }
    if b.contains(entry) {
        let i = choose|i: int| 0 <= i < b.len() && b[i] == entry;
        assert((a + b)[a.len() + i] == entry);
    }
    if (a + b).contains(entry) {
        let i = choose|i: int| 0 <= i < (a + b).len() && (a + b)[i] == entry;
        if i < a.len() {
            assert(a[i] == entry);
        } else {
            assert(b[i - a.len()] == entry);
        }
    }
}

/// The worker count is that of the last component that names one, and the
/// root's where none does.
pub proof fn last_named_worker_count_wins(m: CapsuleManifest, out: CapsuleManifest, i: int)
    requires
        manifest_merged(m, out),
        -1 <= i < m.components@.len(),
        forall|k: int|
            i < k < m.components@.len() ==> ((#[trigger] m.components@[k]).capabilities is None
                || m.components@[k].capabilities->0.bind_workers is None),
        i >= 0 ==> m.components@[i].capabilities is Some
            && m.components@[i].capabilities->0.bind_workers is Some,
    ensures
        i >= 0 ==> out.capabilities.bind_workers == m.components@[i].capabilities->0.bind_workers,
        i < 0 ==> out.capabilities.bind_workers == m.capabilities.bind_workers,
{
    lemma_last_workers(m.capabilities.bind_workers, m.components@, i);
}

proof fn lemma_last_workers(root: Option<usize>, components: Seq<ComponentDef>, i: int)
    requires
        -1 <= i < components.len(),
        forall|k: int|
            i < k < components.len() ==> ((#[trigger] components[k]).capabilities is None
                || components[k].capabilities->0.bind_workers is None),
        i >= 0 ==> components[i].capabilities is Some
            && components[i].capabilities->0.bind_workers is Some,
    ensures
        merged_workers(root, components) == if i >= 0 {
            components[i].capabilities->0.bind_workers
        } else {
            root
        },
    decreases components.len(),
{
    if components.len() > 0 && i < components.len() - 1 {
        let last = components.len() - 1;
        assert(components[last].capabilities is None
            || components[last].capabilities->0.bind_workers is None);
        let front = components.drop_last();
        assert forall|k: int| i < k < front.len() implies ((#[trigger] front[k]).capabilities
            is None || front[k].capabilities->0.bind_workers is None) by {
            assert(components[k].capabilities is None
                || components[k].capabilities->0.bind_workers is None);
        }
        lemma_last_workers(root, front, i);
    }
}

/// A sound manifest loads: where every version, topic, name and verb is in
/// order, nothing is found wrong. Together with what holds of every loaded
/// manifest, a manifest loads exactly where it is sound.
pub proof fn sound_manifests_load(
    m: CapsuleManifest,
    runtime_version: Seq<char>,
    reserved: Seq<Seq<char>>,
)
    requires
        semver_version_parses(m.package.version@),
        m.package.astrid_version matches Some(c) ==> semver_req_error(c@) is None
            && semver_req_matches(c@, runtime_version),
        forall|i: int|
            0 <= i < m.publishes@.len() ==> valid_segments((#[trigger] m.publishes@[i]).topic@),
        forall|i: int|
            0 <= i < m.subscribes@.len() ==> valid_segments((#[trigger] m.subscribes@[i]).topic@),
        forall|i: int|
            0 <= i < m.imports@.len() ==> is_identifier((#[trigger] m.imports@[i]).namespace@),
        forall|i: int|
            0 <= i < m.exports@.len() ==> is_identifier((#[trigger] m.exports@[i]).namespace@),
        forall|i: int, k: int|
            0 <= i < m.imports@.len() && 0 <= k < m.imports@[i].interfaces@.len()
                ==> is_identifier((#[trigger] m.imports@[i].interfaces@[k]).name@),
        forall|i: int, k: int|
            0 <= i < m.exports@.len() && 0 <= k < m.exports@[i].interfaces@.len()
                ==> is_identifier((#[trigger] m.exports@[i].interfaces@[k]).name@),
        forall|i: int|
            0 <= i < m.commands@.len() && (#[trigger] m.commands@[i]).kind == CommandKind::Cli
                ==> is_identifier(m.commands@[i].name@) && encode_utf8(
                m.commands@[i].name@,
            ).len() <= 32 && !reserved.contains(m.commands@[i].name@),
        m.capabilities.uplink ==> m.imports@.len() == 0,
    ensures
        manifest_fault(m, runtime_version, reserved) is None,
{
    let all = faults_in_order(
        runtime_fault(m.package.astrid_version, runtime_version),
        version_fault(m.package.version@),
        m,
        reserved,
    );
    let p = publish_faults(m);
    assert forall|i: int| 0 <= i < p.len() implies (#[trigger] p[i]) is None by {
        assert(valid_segments(m.publishes@[i].topic@));
    }
    lemma_first_some_none(p);
    let s = subscribe_faults(m);
    assert forall|i: int| 0 <= i < s.len() implies (#[trigger] s[i]) is None by {
        assert(valid_segments(m.subscribes@[i].topic@));
    }
    lemma_first_some_none(s);
    let im = import_faults(m);
    assert forall|i: int| 0 <= i < im.len() implies (#[trigger] im[i]) is None by {
        let ns = m.imports@[i];
        assert(is_identifier(ns.namespace@));
        assert forall|k: int| 0 <= k < import_names(ns).len() implies is_identifier(
            #[trigger] import_names(ns)[k],
        ) by {
            assert(is_identifier(m.imports@[i].interfaces@[k].name@));
        }
        lemma_good_names("imports"@, ns.namespace@, import_names(ns));
    }
    lemma_first_some_none(im);
    let ex = export_faults(m);
    assert forall|i: int| 0 <= i < ex.len() implies (#[trigger] ex[i]) is None by {
        let ns = m.exports@[i];
        assert(is_identifier(ns.namespace@));
        assert forall|k: int| 0 <= k < export_names(ns).len() implies is_identifier(
            #[trigger] export_names(ns)[k],
        ) by {
            assert(is_identifier(m.exports@[i].interfaces@[k].name@));
        }
        lemma_good_names("exports"@, ns.namespace@, export_names(ns));
    }
    lemma_first_some_none(ex);
    let c = command_faults(m, reserved);
    assert forall|i: int| 0 <= i < c.len() implies (#[trigger] c[i]) is None by {
        if m.commands@[i].kind == CommandKind::Cli {
            lemma_good_verb(m.commands@[i].name@, reserved);
        }
    }
    lemma_first_some_none(c);
    assert forall|i: int| 0 <= i < all.len() implies (#[trigger] all[i]) is None by {
        assert(i == 0 || i == 1 || i == 2 || i == 3 || i == 4 || i == 5 || i == 6 || i == 7);
    }
    lemma_first_some_none(all);
}

proof fn lemma_good_names(section: Seq<char>, namespace: Seq<char>, names: Seq<Seq<char>>)
    requires
        is_identifier(namespace),
        forall|k: int| 0 <= k < names.len() ==> is_identifier(#[trigger] names[k]),
    ensures
        namespace_fault(section, namespace, names) is None,
{
    let faults = names.map_values(|n: Seq<char>| interface_fault(section, namespace, n));
    assert forall|k: int| 0 <= k < faults.len() implies (#[trigger] faults[k]) is None by {
        assert(is_identifier(names[k]));
    }
    lemma_first_some_none(faults);
}

proof fn lemma_good_verb(name: Seq<char>, reserved: Seq<Seq<char>>)
    requires
        is_identifier(name),
        encode_utf8(name).len() <= 32,
        !reserved.contains(name),
    ensures
        verb_fault(name, reserved) is None,
{
    let bad = Seq::new(
        name.len(),
        |k: int|
            if k == 0 || is_identifier_char(name[k]) {
                None
            } else {
                Some(seq![name[k]])
            },
    );
    assert forall|k: int| 0 <= k < bad.len() implies (#[trigger] bad[k]) is None by {
        if k > 0 {
            assert(is_identifier_char(name[k]));
        }
    }
    lemma_first_some_none(bad);
}

/// An identifier begins with a small letter and goes on with small letters,
/// digits and hyphens.
pub proof fn identifiers_are_small_words(s: Seq<char>)
    ensures
        is_identifier(s) <==> s.len() > 0 && 'a' <= s[0] <= 'z' && forall|i: int|
            0 <= i < s.len() ==> 'a' <= #[trigger] s[i] <= 'z' || '0' <= s[i] <= '9' || s[i] == '-',
{
    if s.len() > 0 && 'a' <= s[0] <= 'z' && forall|i: int|
        0 <= i < s.len() ==> 'a' <= #[trigger] s[i] <= 'z' || '0' <= s[i] <= '9' || s[i] == '-' {
        assert forall|i: int| 1 <= i < s.len() implies is_identifier_char(#[trigger] s[i]) by {}
    }
    if is_identifier(s) {
        assert forall|i: int| 0 <= i < s.len() implies 'a' <= #[trigger] s[i] <= 'z' || '0' <= s[i]
            <= '9' || s[i] == '-' by {
            if i > 0 {
                assert(is_identifier_char(s[i]));
            }
        }
    }
}

/// Whatever is offered comes from an entry of the listing that parsed and is
/// without fault, with the directory that the entry stands for: the entry
/// itself where it is a directory, the scanned one where it is a manifest file.
pub proof fn offers_come_from_entries(
    dir: Seq<char>,
    entries: Seq<Result<DirEntry, String>>,
    runtime: &Runtime,
    k: int,
)
    requires
        0 <= k < offers(dir, entries, runtime).len(),
    ensures
        exists|i: int| #[trigger] is_offer_of(dir, entries, runtime, i, offers(dir, entries, runtime)[k]),
    decreases entries.len(),
{
    let front = entries.drop_last();
    let rest = offers(dir, front, runtime);
    let all = offers(dir, entries, runtime);
    if k < rest.len() {
        offers_come_from_entries(dir, front, runtime, k);
        let i = choose|i: int| #[trigger] is_offer_of(dir, front, runtime, i, rest[k]);
        assert(is_offer_of(dir, entries, runtime, i, all[k]));
    } else {
        assert(is_offer_of(dir, entries, runtime, entries.len() - 1, all[k]));
    }
}

/// Whether a manifest and a directory are what entry `i` of a listing offers: a
/// directory with a manifest in it, or a file named `Capsule.toml`, that parsed
/// and is without fault.
pub open spec fn is_offer_of(
    dir: Seq<char>,
    entries: Seq<Result<DirEntry, String>>,
    runtime: &Runtime,
    i: int,
    offer: (CapsuleManifest, Seq<char>),
) -> bool {
    &&& 0 <= i < entries.len()
    &&& entries[i] is Ok
    &&& ({
        let entry = entries[i]->Ok_0;
        &&& entry.parsed == Some(Ok::<CapsuleManifest, String>(offer.0))
        &&& manifest_fault(offer.0, runtime.version_text(), runtime.reserved()) is None
        &&& entry.kind == EntryKind::Directory && offer.1 == join(dir, entry.name@) || (entry.kind
            == EntryKind::File && entry.name@ == "Capsule.toml"@ && offer.1 == dir)
    })
}

/// Every manifest of a directory that is without fault is offered.
pub proof fn sound_entries_are_offered(
    dir: Seq<char>,
    entries: Seq<Result<DirEntry, String>>,
    runtime: &Runtime,
    i: int,
    offer: (CapsuleManifest, Seq<char>),
)
    requires
        is_offer_of(dir, entries, runtime, i, offer),
    ensures
        offers(dir, entries, runtime).contains(offer),
    decreases entries.len(),
{
    let front = entries.drop_last();
    let rest = offers(dir, front, runtime);
    let all = offers(dir, entries, runtime);
    if i < entries.len() - 1 {
        assert(is_offer_of(dir, front, runtime, i, offer));
        sound_entries_are_offered(dir, front, runtime, i, offer);
        let k = choose|k: int| 0 <= k < rest.len() && rest[k] == offer;
        assert(all[k] == offer);
    } else {
        let entry = entries[i]->Ok_0;
        assert(entries.last() == entries[i]);
        assert(manifest_file(Seq::empty(), entry.name@, entry.kind) is Some);
        assert(all.last() == offer);
    }
}

/// A listing fails exactly where one of its entries could not be read.
pub proof fn unreadable_entries_fail_the_listing(entries: Seq<Result<DirEntry, String>>)
    ensures
        entry_failure(entries) is Some <==> exists|i: int|
            0 <= i < entries.len() && (#[trigger] entries[i]) is Err,
{
    let failures = entries.map_values(
        |e: Result<DirEntry, String>|
            match e {
                Ok(_) => None,
                Err(message) => Some(message@),
            },
    );
    if forall|i: int| 0 <= i < entries.len() ==> (#[trigger] entries[i]) is Ok {
        assert forall|i: int| 0 <= i < failures.len() implies (#[trigger] failures[i]) is None by {
            assert(entries[i] is Ok);
        }
        lemma_first_some_none(failures);
    } else {
        let i = choose|i: int| 0 <= i < entries.len() && !((#[trigger] entries[i]) is Ok);
        assert(entries[i] is Err);
        if entry_failure(entries) is None {
            lemma_none_before(failures, i);
        }
    }
}

/// Sources are asked in order of priority: what an extra source offers comes
/// before whatever a later one offers, and the workspace comes last.
pub proof fn extra_sources_come_first(
    extra: Vec<SourceDir>,
    workspace: SourceDir,
    runtime: &Runtime,
    i: int,
    j: int,
)
    requires
        0 <= i < j <= extra@.len(),
    ensures
        ({
            let later = if j < extra@.len() {
                extra@[j]
            } else {
                workspace
            };
            stands_before(
                all_offers(in_priority_order(Some(extra), workspace), runtime),
                source_offers(extra@[i], runtime),
                source_offers(later, runtime),
            )
        }),
        in_priority_order(None, workspace) == seq![workspace],
{
    let sources = in_priority_order(Some(extra), workspace);
    lemma_source_place(sources, runtime, i);
    lemma_source_place(sources, runtime, j);
    lemma_offers_grow(sources, runtime, i + 1, j);
    let all = all_offers(sources, runtime);
    let x = source_offers(sources[i], runtime);
    let y = source_offers(sources[j], runtime);
    let a = all_offers(sources.take(i), runtime).len() as int;
    let b = all_offers(sources.take(j), runtime).len() as int;
    assert(sources.take(i + 1).drop_last() =~= sources.take(i));
    assert(sources.take(i + 1).last() == sources[i]);
    let head = all.subrange(0, a);
    let mid = all.subrange(a + x.len(), b);
    let tail = all.subrange(b + y.len(), all.len() as int);
    assert(all =~= all.subrange(0, a) + all.subrange(a, a + x.len()) + mid + all.subrange(
        b,
        b + y.len(),
    ) + tail);
    assert(all == head + x + mid + y + tail);
    assert(sources[i] == extra@[i]);
}

/// Whether a list holds a run of items and, behind it, another one.
pub open spec fn stands_before(
    all: Seq<(CapsuleManifest, Seq<char>)>,
    x: Seq<(CapsuleManifest, Seq<char>)>,
    y: Seq<(CapsuleManifest, Seq<char>)>,
) -> bool {
    exists|
        head: Seq<(CapsuleManifest, Seq<char>)>,
        mid: Seq<(CapsuleManifest, Seq<char>)>,
        tail: Seq<(CapsuleManifest, Seq<char>)>,
    |
        all == #[trigger] (head + x + mid + y + tail)
}

proof fn lemma_offers_grow(sources: Seq<SourceDir>, runtime: &Runtime, i: int, j: int)
    requires
        0 <= i <= j <= sources.len(),
    ensures
        all_offers(sources.take(i), runtime).is_prefix_of(all_offers(sources.take(j), runtime)),
    decreases j - i,
{
    let x = all_offers(sources.take(i), runtime);
    let y = all_offers(sources.take(j), runtime);
    if i == j {
        assert(y.subrange(0, x.len() as int) =~= x);
    } else {
        lemma_offers_grow(sources, runtime, i, j - 1);
        let z = all_offers(sources.take(j - 1), runtime);
        assert(sources.take(j).drop_last() =~= sources.take(j - 1));
        assert(z.subrange(0, x.len() as int) =~= x);
        assert(y.subrange(0, x.len() as int) =~= z.subrange(0, x.len() as int));
    }
}

proof fn lemma_source_place(sources: Seq<SourceDir>, runtime: &Runtime, i: int)
    requires
        0 <= i < sources.len(),
    ensures
        ({
            let a = all_offers(sources.take(i), runtime).len() as int;
            let own = source_offers(sources[i], runtime);
            &&& a + own.len() <= all_offers(sources, runtime).len()
            &&& all_offers(sources, runtime).subrange(a, a + own.len()) == own
        }),
{
    let all = all_offers(sources, runtime);
    let own = source_offers(sources[i], runtime);
    let x = all_offers(sources.take(i), runtime);
    let y = all_offers(sources.take(i + 1), runtime);
    let a = x.len() as int;
    assert(sources.take(i + 1).drop_last() =~= sources.take(i));
    assert(sources.take(i + 1).last() == sources[i]);
    assert(sources.take(sources.len() as int) =~= sources);
    lemma_offers_grow(sources, runtime, i + 1, sources.len() as int);
    assert(y == x + own);
    assert(all.subrange(0, y.len() as int) == y);
    assert(all.subrange(a, a + own.len()) =~= y.subrange(a, a + own.len()));
    assert(y.subrange(a, a + own.len()) =~= own);
}

/// A source that is missing, or whose listing fails, offers nothing; one that
/// can be read offers what its entries offer.
pub proof fn readable_sources_offer_their_entries(source: SourceDir, runtime: &Runtime)
    ensures
        source.listing is None ==> source_offers(source, runtime).len() == 0,
        source.listing matches Some(Err(_)) ==> source_offers(source, runtime).len() == 0,
        source.listing matches Some(Ok(entries)) ==> if exists|i: int|
            0 <= i < entries@.len() && (#[trigger] entries@[i]) is Err {
            source_offers(source, runtime).len() == 0
        } else {
            source_offers(source, runtime) == offers(source.path@, entries@, runtime)
        },
{
    if let Some(Ok(entries)) = source.listing {
        unreadable_entries_fail_the_listing(entries@);
    }
}

/// Of several faults the first one is reported, in this order: the runtime that
/// is asked for, the version, the topics to publish, those to subscribe to, the
/// imports, the exports, the commands, and an uplink that imports.
pub proof fn the_first_fault_is_reported(
    m: CapsuleManifest,
    runtime_version: Seq<char>,
    reserved: Seq<Seq<char>>,
)
    ensures
        ({
            let fault = manifest_fault(m, runtime_version, reserved);
            let a = runtime_fault(m.package.astrid_version, runtime_version);
            let b = version_fault(m.package.version@);
            let c = first_some(publish_faults(m));
            let d = first_some(subscribe_faults(m));
            let e = first_some(import_faults(m));
            let f = first_some(export_faults(m));
            let g = first_some(command_faults(m, reserved));
            let h = uplink_fault(m);
            &&& a is Some ==> fault == a
            &&& a is None && b is Some ==> fault == b
            &&& a is None && b is None && c is Some ==> fault == c
            &&& a is None && b is None && c is None && d is Some ==> fault == d
            &&& a is None && b is None && c is None && d is None && e is Some ==> fault == e
            &&& a is None && b is None && c is None && d is None && e is None && f is Some ==> fault
                == f
            &&& a is None && b is None && c is None && d is None && e is None && f is None && g
                is Some ==> fault == g
            &&& a is None && b is None && c is None && d is None && e is None && f is None && g
                is None ==> fault == h
        }),
{
    let all = faults_in_order(
        runtime_fault(m.package.astrid_version, runtime_version),
        version_fault(m.package.version@),
        m,
        reserved,
    );
    if forall|i: int| 0 <= i < all.len() ==> (#[trigger] all[i]) is None {
        lemma_first_some_none(all);
        assert(all[0] is None && all[1] is None && all[2] is None && all[3] is None);
        assert(all[4] is None && all[5] is None && all[6] is None && all[7] is None);
    } else if all[0] is Some {
        lemma_first_some_at(all, 0);
    } else if all[1] is Some {
        lemma_first_some_at(all, 1);
    } else if all[2] is Some {
        lemma_first_some_at(all, 2);
    } else if all[3] is Some {
        lemma_first_some_at(all, 3);
    } else if all[4] is Some {
        lemma_first_some_at(all, 4);
    } else if all[5] is Some {
        lemma_first_some_at(all, 5);
    } else if all[6] is Some {
        lemma_first_some_at(all, 6);
    } else {
        assert forall|i: int| 0 <= i < 7 implies (#[trigger] all[i]) is None by {
            assert(i == 0 || i == 1 || i == 2 || i == 3 || i == 4 || i == 5 || i == 6);
        }
        assert(all[7] is Some);
        lemma_first_some_at(all, 7);
    }
}

/// A command-line verb is accepted exactly where it begins with a small letter,
/// goes on with small letters, digits and hyphens, has at most 32 bytes and is
/// not reserved.
pub proof fn free_small_verbs_are_accepted(name: Seq<char>, reserved: Seq<Seq<char>>)
    ensures
        verb_fault(name, reserved) is None <==> name.len() > 0 && 'a' <= name[0] <= 'z' && (forall|
            i: int,
        |
            0 <= i < name.len() ==> 'a' <= #[trigger] name[i] <= 'z' || '0' <= name[i] <= '9'
                || name[i] == '-') && encode_utf8(name).len() <= 32 && !reserved.contains(name),
{
    identifiers_are_small_words(name);
    if is_identifier(name) && encode_utf8(name).len() <= 32 && !reserved.contains(name) {
        lemma_good_verb(name, reserved);
    }
    if verb_fault(name, reserved) is None {
        let bad = Seq::new(
            name.len(),
            |k: int|
                if k == 0 || is_identifier_char(name[k]) {
                    None
                } else {
                    Some(seq![name[k]])
                },
        );
        assert forall|k: int| 1 <= k < name.len() implies is_identifier_char(#[trigger] name[k]) by {
            lemma_none_before(bad, k);
        }
    }
}

/// What is discovered is what was offered, one for one: each with its directory,
/// its package and everything else that merging leaves as it is.
pub proof fn discovered_manifests_are_the_offered_ones(
    out: Seq<(CapsuleManifest, String)>,
    wanted: Seq<(CapsuleManifest, Seq<char>)>,
    k: int,
)
    requires
        realizes(out, wanted),
    ensures
        out.len() == wanted.len(),
        0 <= k < out.len() ==> {
            &&& out[k].1@ == wanted[k].1
            &&& out[k].0.package == wanted[k].0.package
            &&& manifest_merged(wanted[k].0, out[k].0)
        },
{
    if 0 <= k < out.len() {
        assert(manifest_merged(wanted[k].0, out[k].0));
    }
}

/// Discovery keeps the order of the offers: what it lists first was offered
/// first.
pub proof fn discovery_keeps_the_order(list: Seq<(CapsuleManifest, Seq<char>)>, k: int, n: int)
    requires
        0 <= k < n < first_per_name(list).len(),
    ensures
        exists|a: int, b: int|
            0 <= a < b < list.len() && #[trigger] list[a] == first_per_name(list)[k]
                && #[trigger] list[b] == first_per_name(list)[n],
    decreases list.len(),
{
    let front = list.drop_last();
    let rest = first_per_name(front);
    let all = first_per_name(list);
    if n < rest.len() {
        discovery_keeps_the_order(front, k, n);
        let (a, b) = choose|a: int, b: int|
            0 <= a < b < front.len() && #[trigger] front[a] == rest[k] && #[trigger] front[b]
                == rest[n];
        assert(list[a] == all[k] && list[b] == all[n]);
    } else {
        discovered_is_offered(front, k);
        let a = choose|a: int| 0 <= a < front.len() && front[a] == rest[k];
        assert(list[a] == all[k] && list[list.len() - 1] == all[n]);
    }
}

}
