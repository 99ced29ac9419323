//! The `[capabilities]` block of a manifest: what a capsule asks for from the
//! operating system.
//!
//! Every field is fail-closed by default (an empty list or `false`). The
//! security gate consults these allowlists before granting access.

use vstd::prelude::*;
use vstd::string::*;

use crate::text::{chars_of, same, texts};

verus! {

/// The capabilities that a capsule requests.
#[derive(Debug, Clone)]
pub struct CapabilitiesDef {
    /// Whether the capsule is a long-lived uplink or daemon. Its calls have no
    /// deadline.
    pub uplink: bool,
    /// Network domains the capsule wants to reach.
    pub net: Vec<String>,
    /// Scoped key-value store requests.
    pub kv: Vec<String>,
    /// Readable paths.
    pub fs_read: Vec<String>,
    /// Writable paths.
    pub fs_write: Vec<String>,
    /// Host commands the capsule may run.
    pub host_process: Vec<String>,
    /// Whether background processes may outlive the instance that spawned
    /// them.
    pub allow_persistent: bool,
    /// Unix and TCP bind addresses.
    pub net_bind: Vec<String>,
    /// Concurrent run-loop workers for a loopback TCP server.
    pub bind_workers: Option<usize>,
    /// Outbound TCP destinations, as `host:port` patterns. A host `*` stands for
    /// every host, a port `*` for every port.
    pub net_connect: Vec<String>,
    /// Identity operations: `resolve`, `link` or `admin`.
    pub identity: Vec<String>,
    /// Whether the capsule may change the system prompt.
    pub allow_prompt_injection: bool,
}

impl Default for CapabilitiesDef {
    fn default() -> (r: CapabilitiesDef)
        ensures
            !r.uplink && !r.allow_persistent && !r.allow_prompt_injection,
            r.net@.len() == 0 && r.kv@.len() == 0 && r.fs_read@.len() == 0,
            r.fs_write@.len() == 0 && r.host_process@.len() == 0 && r.net_bind@.len() == 0,
            r.net_connect@.len() == 0 && r.identity@.len() == 0,
            r.bind_workers is None,
    {
        CapabilitiesDef {
            uplink: false,
            net: Vec::new(),
            kv: Vec::new(),
            fs_read: Vec::new(),
            fs_write: Vec::new(),
            host_process: Vec::new(),
            allow_persistent: false,
            net_bind: Vec::new(),
            bind_workers: None,
            net_connect: Vec::new(),
            identity: Vec::new(),
            allow_prompt_injection: false,
        }
    }
}

/// Whether two capability blocks declare the same.
pub open spec fn declare_alike(a: CapabilitiesDef, b: CapabilitiesDef) -> bool {
    &&& a.uplink == b.uplink
    &&& a.net@ == b.net@
    &&& a.kv@ == b.kv@
    &&& a.fs_read@ == b.fs_read@
    &&& a.fs_write@ == b.fs_write@
    &&& a.host_process@ == b.host_process@
    &&& a.allow_persistent == b.allow_persistent
    &&& a.net_bind@ == b.net_bind@
    &&& a.bind_workers == b.bind_workers
    &&& a.net_connect@ == b.net_connect@
    &&& a.identity@ == b.identity@
    &&& a.allow_prompt_injection == b.allow_prompt_injection
}

/// A copy of a list of texts.
pub(crate) fn copy_texts(list: &Vec<String>) -> (r: Vec<String>)
    ensures
        r@ == list@,
{
    let mut r: Vec<String> = Vec::new();
    for i in 0..list.len()
        invariant
            r@ == list@.take(i as int),
    {
        r.push(list[i].clone());
        assert(list@.take(i + 1) =~= list@.take(i as int).push(list@[i as int]));
    }
    assert(list@.take(list@.len() as int) =~= list@);
    r
}

impl CapabilitiesDef {
    /// A copy that declares the same.
    pub fn duplicate(&self) -> (r: CapabilitiesDef)
        ensures
            declare_alike(r, *self),
    {
        CapabilitiesDef {
            uplink: self.uplink,
            net: copy_texts(&self.net),
            kv: copy_texts(&self.kv),
            fs_read: copy_texts(&self.fs_read),
            fs_write: copy_texts(&self.fs_write),
            host_process: copy_texts(&self.host_process),
            allow_persistent: self.allow_persistent,
            net_bind: copy_texts(&self.net_bind),
            bind_workers: self.bind_workers,
            net_connect: copy_texts(&self.net_connect),
            identity: copy_texts(&self.identity),
            allow_prompt_injection: self.allow_prompt_injection,
        }
    }
}

/// The shape of a capability field's value.
#[derive(Debug, Clone, Copy)]
pub enum FieldValue {
    /// A flag.
    Flag(bool),
    /// A list with this many entries.
    Allowlist(usize),
    /// A number.
    Number(usize),
}

impl FieldValue {
    /// A field is held when its flag is set or its list is non-empty; any
    /// other shape is not.
    pub open spec fn held(self) -> bool {
        match self {
            FieldValue::Flag(enabled) => enabled,
            FieldValue::Allowlist(len) => len > 0,
            FieldValue::Number(_) => false,
        }
    }
}

/// A capability field: its manifest key and the shape of its value.
#[derive(Debug, Clone)]
pub struct CapabilityField {
    pub name: String,
    pub value: FieldValue,
}

/// A field whose name has the given text.
pub open spec fn is_field(f: CapabilityField, name: Seq<char>, value: FieldValue) -> bool {
    f.name@ == name && f.value == value
}

/// Whether some field has the name `n` and is held.
pub open spec fn any_held(fields: Seq<CapabilityField>, n: Seq<char>) -> bool {
    exists|i: int| 0 <= i < fields.len() && (#[trigger] fields[i]).name@ == n && fields[i].value.held()
}

/// The strict dictionary order of texts by character.
pub open spec fn precedes(a: Seq<char>, b: Seq<char>) -> bool
    decreases a.len(),
{
    if b.len() == 0 {
        false
    } else if a.len() == 0 {
        true
    } else {
        a[0] < b[0] || (a[0] == b[0] && precedes(a.skip(1), b.skip(1)))
    }
}

/// A list of texts in strictly ascending order, so without duplicates.
pub open spec fn ascending(s: Seq<Seq<char>>) -> bool {
    forall|i: int| 0 <= i < s.len() - 1 ==> precedes(#[trigger] s[i], s[i + 1])
}

proof fn lemma_precedes_total(a: Seq<char>, b: Seq<char>)
    ensures
        a == b || precedes(a, b) || precedes(b, a),
    decreases a.len(),
{
    if a.len() == 0 || b.len() == 0 {
        if a.len() == b.len() {
            assert(a =~= b);
        }
    } else if a[0] == b[0] {
        lemma_precedes_total(a.skip(1), b.skip(1));
        if a.skip(1) == b.skip(1) {
            assert(a =~= seq![a[0]] + a.skip(1));
            assert(b =~= seq![b[0]] + b.skip(1));
        }
    }
}

proof fn lemma_precedes_transitive(a: Seq<char>, b: Seq<char>, c: Seq<char>)
    requires
        precedes(a, b),
        precedes(b, c),
    ensures
        precedes(a, c),
    decreases a.len(),
{
    if a.len() > 0 && a[0] == b[0] && b[0] == c[0] {
        lemma_precedes_transitive(a.skip(1), b.skip(1), c.skip(1));
    }
}

/// Whether `a` stands before `b` in dictionary order.
fn is_before(a: &str, b: &str) -> (r: bool)
    ensures
        r == precedes(a@, b@),
{
    let x = chars_of(a);
    let y = chars_of(b);
    let mut i: usize = 0;
    assert(a@.skip(0) =~= a@ && b@.skip(0) =~= b@);
    while i < x.len() && i < y.len() && x[i] == y[i]
        invariant
            x@ == a@,
            y@ == b@,
            i <= x.len(),
            i <= y.len(),
            precedes(a@, b@) == precedes(a@.skip(i as int), b@.skip(i as int)),
        decreases x.len() - i,
    {
        assert(a@.skip(i as int).skip(1) =~= a@.skip(i + 1));
        assert(b@.skip(i as int).skip(1) =~= b@.skip(i + 1));
        i += 1;
    }
    if i == y.len() {
        false
    } else if i == x.len() {
        true
    } else {
        assert(a@.skip(i as int)[0] == a@[i as int]);
        assert(b@.skip(i as int)[0] == b@[i as int]);
        x[i] < y[i]
    }
}

/// Adds `name` to an ascending list that may already hold it.
fn insert_sorted(list: &mut Vec<String>, name: &str)
    requires
        ascending(texts(old(list)@)),
    ensures
        ascending(texts(final(list)@)),
        forall|n: Seq<char>|
            #[trigger] texts(final(list)@).contains(n) <==> texts(old(list)@).contains(n) || n
                == name@,
{
    let ghost before = texts(list@);
    let mut p: usize = 0;
    while p < list.len() && is_before(list[p].as_str(), name)
        invariant
            p <= list.len(),
            texts(list@) == before,
            p > 0 ==> precedes(before[p - 1], name@),
        decreases list.len() - p,
    {
        p += 1;
    }
    if p < list.len() && same(list[p].as_str(), name) {
        assert(texts(list@)[p as int] == name@);
        assert forall|n: Seq<char>| #[trigger] texts(list@).contains(n) <==> before.contains(n) || n
            == name@ by {
            assert(before.contains(name@));
        }
        return;
    }
    proof {
        if p < list.len() {
            lemma_precedes_total(before[p as int], name@);
        }
    }
    let entry = name.to_owned();
    list.insert(p, entry);
    let ghost after = texts(list@);
    assert(after =~= before.insert(p as int, name@));
    assert forall|n: Seq<char>| #[trigger] after.contains(n) <==> before.contains(n) || n
        == name@ by {
        if before.contains(n) {
            let k = choose|k: int| 0 <= k < before.len() && before[k] == n;
            if k < p {
                assert(after[k] == n);
            } else {
                assert(after[k + 1] == n);
            }
        }
        if n == name@ {
            assert(after[p as int] == n);
        }
        if after.contains(n) {
            let k = choose|k: int| 0 <= k < after.len() && after[k] == n;
            if k < p {
                assert(before[k] == n);
            } else if k > p {
                assert(before[k - 1] == n);
            }
        }
    }
}

impl CapabilitiesDef {
    /// Whether the capability `name` is held: its list has an entry, or its
    /// flag is set. A name that is no such field is not held.
    pub open spec fn holds(self, name: Seq<char>) -> bool {
        ||| name == "uplink"@ && self.uplink
        ||| name == "net"@ && self.net@.len() > 0
        ||| name == "kv"@ && self.kv@.len() > 0
        ||| name == "fs_read"@ && self.fs_read@.len() > 0
        ||| name == "fs_write"@ && self.fs_write@.len() > 0
        ||| name == "host_process"@ && self.host_process@.len() > 0
        ||| name == "allow_persistent"@ && self.allow_persistent
        ||| name == "net_bind"@ && self.net_bind@.len() > 0
        ||| name == "net_connect"@ && self.net_connect@.len() > 0
        ||| name == "identity"@ && self.identity@.len() > 0
        ||| name == "allow_prompt_injection"@ && self.allow_prompt_injection
    }

    /// The fields of the block under their manifest keys. An absent worker
    /// count is left out.
    pub fn fields(&self) -> (r: Vec<CapabilityField>)
        ensures
            r@.len() == if self.bind_workers is Some { 12int } else { 11 },
            is_field(r@[0], "uplink"@, FieldValue::Flag(self.uplink)),
            is_field(r@[1], "net"@, FieldValue::Allowlist(self.net.len())),
            is_field(r@[2], "kv"@, FieldValue::Allowlist(self.kv.len())),
            is_field(r@[3], "fs_read"@, FieldValue::Allowlist(self.fs_read.len())),
            is_field(r@[4], "fs_write"@, FieldValue::Allowlist(self.fs_write.len())),
            is_field(r@[5], "host_process"@, FieldValue::Allowlist(self.host_process.len())),
            is_field(r@[6], "allow_persistent"@, FieldValue::Flag(self.allow_persistent)),
            is_field(r@[7], "net_bind"@, FieldValue::Allowlist(self.net_bind.len())),
            is_field(r@[8], "net_connect"@, FieldValue::Allowlist(self.net_connect.len())),
            is_field(r@[9], "identity"@, FieldValue::Allowlist(self.identity.len())),
            is_field(
                r@[10],
                "allow_prompt_injection"@,
                FieldValue::Flag(self.allow_prompt_injection),
            ),
            self.bind_workers matches Some(n) ==> is_field(
                r@[11],
                "bind_workers"@,
                FieldValue::Number(n),
            ),
            forall|n: Seq<char>| #[trigger] any_held(r@, n) == self.holds(n),
    {
        let mut r: Vec<CapabilityField> = Vec::new();
        push_field(&mut r, "uplink", FieldValue::Flag(self.uplink));
        push_field(&mut r, "net", FieldValue::Allowlist(self.net.len()));
        push_field(&mut r, "kv", FieldValue::Allowlist(self.kv.len()));
        push_field(&mut r, "fs_read", FieldValue::Allowlist(self.fs_read.len()));
        push_field(&mut r, "fs_write", FieldValue::Allowlist(self.fs_write.len()));
        push_field(&mut r, "host_process", FieldValue::Allowlist(self.host_process.len()));
        push_field(&mut r, "allow_persistent", FieldValue::Flag(self.allow_persistent));
        push_field(&mut r, "net_bind", FieldValue::Allowlist(self.net_bind.len()));
        push_field(&mut r, "net_connect", FieldValue::Allowlist(self.net_connect.len()));
        push_field(&mut r, "identity", FieldValue::Allowlist(self.identity.len()));
        push_field(&mut r, "allow_prompt_injection", FieldValue::Flag(self.allow_prompt_injection));
        match self.bind_workers {
            Some(n) => push_field(&mut r, "bind_workers", FieldValue::Number(n)),
            None => {},
        }
        assert forall|n: Seq<char>| #[trigger] any_held(r@, n) == self.holds(n) by {
            assert(is_field(r@[0], "uplink"@, FieldValue::Flag(self.uplink)));
            assert(is_field(r@[1], "net"@, FieldValue::Allowlist(self.net.len())));
            assert(is_field(r@[2], "kv"@, FieldValue::Allowlist(self.kv.len())));
            assert(is_field(r@[3], "fs_read"@, FieldValue::Allowlist(self.fs_read.len())));
            assert(is_field(r@[4], "fs_write"@, FieldValue::Allowlist(self.fs_write.len())));
            assert(is_field(r@[5], "host_process"@, FieldValue::Allowlist(self.host_process.len())));
            assert(is_field(r@[6], "allow_persistent"@, FieldValue::Flag(self.allow_persistent)));
            assert(is_field(r@[7], "net_bind"@, FieldValue::Allowlist(self.net_bind.len())));
            assert(is_field(r@[8], "net_connect"@, FieldValue::Allowlist(self.net_connect.len())));
            assert(is_field(r@[9], "identity"@, FieldValue::Allowlist(self.identity.len())));
        }
        r
    }

    /// Whether a field's value counts as held.
    fn value_is_held(value: &FieldValue) -> (r: bool)
        ensures
            r == value.held(),
    {
        match value {
            FieldValue::Flag(enabled) => *enabled,
            FieldValue::Allowlist(len) => *len > 0,
            FieldValue::Number(_) => false,
        }
    }

    /// The names of the held capabilities, in dictionary order.
    pub fn held_names(&self) -> (r: Vec<String>)
        ensures
            ascending(texts(r@)),
            forall|n: Seq<char>| #[trigger] texts(r@).contains(n) == self.holds(n),
    {
        let fields = self.fields();
        let mut names: Vec<String> = Vec::new();
        for i in 0..fields.len()
            invariant
                ascending(texts(names@)),
                forall|n: Seq<char>|
                    #[trigger] texts(names@).contains(n) == any_held(fields@.take(i as int), n),
        {
            let ghost done = fields@.take(i as int);
            let ghost next = fields@.take(i + 1);
            proof {
                assert(next =~= done.push(fields@[i as int]));
                assert forall|n: Seq<char>| #[trigger] any_held(next, n) == (any_held(done, n) || (
                fields@[i as int].name@ == n && fields@[i as int].value.held())) by {
                    if any_held(done, n) {
                        let k = choose|k: int|
                            0 <= k < done.len() && (#[trigger] done[k]).name@ == n
                                && done[k].value.held();
                        assert(next[k] == done[k]);
                    }
                    if fields@[i as int].name@ == n && fields@[i as int].value.held() {
                        assert(next[i as int] == fields@[i as int]);
                    }
                    if any_held(next, n) {
                        let k = choose|k: int|
                            0 <= k < next.len() && (#[trigger] next[k]).name@ == n
                                && next[k].value.held();
                        if k < i {
                            assert(done[k] == next[k]);
                        }
                    }
                }
            }
            if Self::value_is_held(&fields[i].value) {
                insert_sorted(&mut names, fields[i].name.as_str());
            }
        }
        assert(fields@.take(fields@.len() as int) =~= fields@);
        names
    }

    /// Whether the capsule holds the named capability.
    pub fn has(&self, name: &str) -> (r: bool)
        ensures
            r == self.holds(name@),
    {
        let fields = self.fields();
        for i in 0..fields.len()
            invariant
                forall|j: int|
                    0 <= j < i ==> !((#[trigger] fields@[j]).name@ == name@
                        && fields@[j].value.held()),
                any_held(fields@, name@) == self.holds(name@),
        {
            if same(fields[i].name.as_str(), name) && Self::value_is_held(&fields[i].value) {
                return true;
            }
        }
        assert(any_held(fields@, name@) == self.holds(name@));
        false
    }
}

fn push_field(fields: &mut Vec<CapabilityField>, name: &str, value: FieldValue)
    ensures
        final(fields)@.len() == old(fields)@.len() + 1,
        is_field(final(fields)@[old(fields)@.len() as int], name@, value),
        forall|i: int| 0 <= i < old(fields)@.len() ==> final(fields)@[i] == old(fields)@[i],
{
    fields.push(CapabilityField { name: name.to_owned(), value });
}

/// A capability name is listed exactly when the capsule holds it, so the list
/// and the single question cannot disagree.
pub proof fn held_names_agree_with_has(
    caps: CapabilitiesDef,
    names: Seq<String>,
    name: Seq<char>,
    has: bool,
)
    requires
        forall|n: Seq<char>| #[trigger] texts(names).contains(n) == caps.holds(n),
        has == caps.holds(name),
    ensures
        has == texts(names).contains(name),
{
}

proof fn lemma_precedes_irreflexive(a: Seq<char>)
    ensures
        !precedes(a, a),
    decreases a.len(),
{
    if a.len() > 0 {
        lemma_precedes_irreflexive(a.skip(1));
    }
}

proof fn lemma_first_precedes(s: Seq<Seq<char>>, i: int)
    requires
        ascending(s),
        0 < i < s.len(),
    ensures
        precedes(s[0], s[i]),
    decreases i,
{
    assert(precedes(s[i - 1], s[i - 1 + 1]));
    if i > 1 {
        lemma_first_precedes(s, i - 1);
        lemma_precedes_transitive(s[0], s[i - 1], s[i]);
    }
}

proof fn lemma_tail_members(s: Seq<Seq<char>>, x: Seq<char>)
    requires
        ascending(s),
        s.len() > 0,
    ensures
        s.skip(1).contains(x) <==> s.contains(x) && x != s[0],
        ascending(s.skip(1)),
{
    let t = s.skip(1);
    if t.contains(x) {
        let i = choose|i: int| 0 <= i < t.len() && t[i] == x;
        assert(s[i + 1] == x);
        lemma_first_precedes(s, i + 1);
        lemma_precedes_irreflexive(x);
    }
    if s.contains(x) && x != s[0] {
        let i = choose|i: int| 0 <= i < s.len() && s[i] == x;
        assert(t[i - 1] == x);
    }
    assert forall|i: int| 0 <= i < t.len() - 1 implies precedes(#[trigger] t[i], t[i + 1]) by {
        assert(precedes(s[i + 1], s[i + 1 + 1]));
    }
}

/// An ascending list is fixed by its members, so the list of held names is
/// fixed by what is held.
pub proof fn ascending_lists_are_fixed_by_their_members(a: Seq<Seq<char>>, b: Seq<Seq<char>>)
    requires
        ascending(a),
        ascending(b),
        forall|x: Seq<char>| #[trigger] a.contains(x) == b.contains(x),
    ensures
        a == b,
    decreases a.len(),
{
    if a.len() == 0 {
        if b.len() > 0 {
            assert(b.contains(b[0]));
            assert(a.contains(b[0]));
        }
        assert(a =~= b);
    } else {
        assert(a.contains(a[0]));
        assert(b.contains(a[0]));
        assert(b.contains(b[0]));
        assert(a.contains(b[0]));
        let i = choose|i: int| 0 <= i < b.len() && b[i] == a[0];
        let j = choose|j: int| 0 <= j < a.len() && a[j] == b[0];
        if a[0] != b[0] {
            lemma_first_precedes(b, i);
            lemma_first_precedes(a, j);
            lemma_precedes_transitive(a[0], b[0], a[0]);
            lemma_precedes_irreflexive(a[0]);
        }
        assert forall|x: Seq<char>| #[trigger] a.skip(1).contains(x) == b.skip(1).contains(x) by {
            lemma_tail_members(a, x);
            lemma_tail_members(b, x);
            assert(a.contains(x) == b.contains(x));
        }
        lemma_tail_members(a, a[0]);
        lemma_tail_members(b, b[0]);
        ascending_lists_are_fixed_by_their_members(a.skip(1), b.skip(1));
        assert(a =~= seq![a[0]] + a.skip(1));
        assert(b =~= seq![b[0]] + b.skip(1));
    }
}

/// A capability is held exactly where its list has an entry or its flag is set,
/// each under its own name; a worker count is no capability.
pub proof fn capabilities_are_held_under_their_names(caps: CapabilitiesDef)
    ensures
        caps.holds("uplink"@) == caps.uplink,
        caps.holds("net"@) == (caps.net@.len() > 0),
        caps.holds("kv"@) == (caps.kv@.len() > 0),
        caps.holds("fs_read"@) == (caps.fs_read@.len() > 0),
        caps.holds("fs_write"@) == (caps.fs_write@.len() > 0),
        caps.holds("host_process"@) == (caps.host_process@.len() > 0),
        caps.holds("allow_persistent"@) == caps.allow_persistent,
        caps.holds("net_bind"@) == (caps.net_bind@.len() > 0),
        caps.holds("net_connect"@) == (caps.net_connect@.len() > 0),
        caps.holds("identity"@) == (caps.identity@.len() > 0),
        caps.holds("allow_prompt_injection"@) == caps.allow_prompt_injection,
        !caps.holds("bind_workers"@),
        !caps.holds(""@),
{
    reveal_strlit("uplink");
    reveal_strlit("net");
    reveal_strlit("kv");
    reveal_strlit("fs_read");
    reveal_strlit("fs_write");
    reveal_strlit("host_process");
    reveal_strlit("allow_persistent");
    reveal_strlit("net_bind");
    reveal_strlit("net_connect");
    reveal_strlit("identity");
    reveal_strlit("allow_prompt_injection");
    reveal_strlit("bind_workers");
    reveal_strlit("");
    assert("uplink"@.len() == 6 && "net"@.len() == 3 && "kv"@.len() == 2);
    assert("fs_read"@.len() == 7 && "fs_write"@.len() == 8 && "host_process"@.len() == 12);
    assert("allow_persistent"@.len() == 16 && "net_bind"@.len() == 8 && "net_connect"@.len() == 11);
    assert("identity"@.len() == 8 && "allow_prompt_injection"@.len() == 22);
    assert("bind_workers"@.len() == 12 && ""@.len() == 0);
    assert("fs_write"@[0] == 'f' && "net_bind"@[0] == 'n' && "identity"@[0] == 'i');
    assert("host_process"@[0] == 'h' && "bind_workers"@[0] == 'b');
}

/// A capsule that declares nothing holds nothing.
pub proof fn nothing_declared_is_nothing_held(caps: CapabilitiesDef, name: Seq<char>)
    requires
        !caps.uplink && !caps.allow_persistent && !caps.allow_prompt_injection,
        caps.net@.len() == 0 && caps.kv@.len() == 0 && caps.fs_read@.len() == 0,
        caps.fs_write@.len() == 0 && caps.host_process@.len() == 0 && caps.net_bind@.len() == 0,
        caps.net_connect@.len() == 0 && caps.identity@.len() == 0,
    ensures
        !caps.holds(name),
{
}

/// The order of names is that of a dictionary: the first character in which two
/// names differ decides, and a name comes before every longer one that begins
/// with it.
pub proof fn the_first_difference_decides(a: Seq<char>, b: Seq<char>, i: int)
    requires
        0 <= i <= a.len(),
        i < b.len(),
        forall|k: int| 0 <= k < i ==> #[trigger] a[k] == b[k],
        i < a.len() ==> a[i] < b[i],
    ensures
        precedes(a, b),
        !precedes(b, a),
    decreases i,
{
    if i > 0 {
        let x = a.skip(1);
        let y = b.skip(1);
        assert forall|k: int| 0 <= k < i - 1 implies #[trigger] x[k] == y[k] by {
            assert(a[k + 1] == b[k + 1]);
        }
        the_first_difference_decides(x, y, i - 1);
        assert(a[0] == b[0]);
    }
}

}
