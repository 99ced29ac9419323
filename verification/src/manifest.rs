//! The parts of a capsule manifest that the runtime reads.
//!
//! Tables are kept as lists of entries, in the order in which they were
//! handed over.

use vstd::prelude::*;

use crate::capabilities::CapabilitiesDef;
use crate::text::texts;

verus! {

/// The `[package]` table.
#[derive(Debug, Clone)]
pub struct PackageDef {
    pub name: String,
    pub version: String,
    /// The runtime versions the capsule accepts.
    pub astrid_version: Option<String>,
}

/// A `[[component]]` entry.
#[derive(Debug, Clone)]
pub struct ComponentDef {
    /// Path of the WebAssembly file.
    pub path: String,
    /// Capabilities declared by the component itself.
    pub capabilities: Option<CapabilitiesDef>,
}

/// An interface that a capsule imports.
#[derive(Debug, Clone)]
pub struct ImportDef {
    pub name: String,
    pub version: String,
    pub optional: bool,
}

/// The `[imports.<namespace>]` table.
#[derive(Debug, Clone)]
pub struct ImportNamespace {
    pub namespace: String,
    pub interfaces: Vec<ImportDef>,
}

/// An interface that a capsule exports.
#[derive(Debug, Clone)]
pub struct ExportDef {
    pub name: String,
    pub version: String,
}

/// The `[exports.<namespace>]` table.
#[derive(Debug, Clone)]
pub struct ExportNamespace {
    pub namespace: String,
    pub interfaces: Vec<ExportDef>,
}

/// An `[env]` entry.
#[derive(Debug, Clone)]
pub struct EnvDef {
    pub key: String,
    /// The declared type, such as `string`, `array` or `secret`.
    pub env_type: String,
    /// How the user is asked for a value.
    pub request: Option<String>,
    pub description: Option<String>,
    pub default: Option<String>,
    /// The values to choose from.
    pub enum_values: Vec<String>,
    pub placeholder: Option<String>,
}

/// How a command is reached.
#[derive(Debug, Clone, Copy, PartialEq, Eq, Structural)]
pub enum CommandKind {
    /// A slash command.
    Slash,
    /// A top-level verb of the command line.
    Cli,
}

/// A `[[command]]` entry.
#[derive(Debug, Clone)]
pub struct CommandDef {
    pub name: String,
    pub kind: CommandKind,
}

/// A `[publish]` entry.
#[derive(Debug, Clone)]
pub struct PublishDef {
    pub topic: String,
}

/// A `[subscribe]` entry.
#[derive(Debug, Clone)]
pub struct SubscribeDef {
    pub topic: String,
    /// The guest action that handles the topic; absent for an entry that only
    /// permits subscribing.
    pub handler: Option<String>,
    pub priority: u32,
}

/// An `[[uplink]]` entry.
#[derive(Debug, Clone)]
pub struct UplinkDef {
    pub name: String,
}

/// A capsule manifest.
#[derive(Debug, Clone)]
pub struct CapsuleManifest {
    pub package: PackageDef,
    pub components: Vec<ComponentDef>,
    pub imports: Vec<ImportNamespace>,
    pub exports: Vec<ExportNamespace>,
    pub capabilities: CapabilitiesDef,
    pub env: Vec<EnvDef>,
    pub commands: Vec<CommandDef>,
    pub uplinks: Vec<UplinkDef>,
    pub publishes: Vec<PublishDef>,
    pub subscribes: Vec<SubscribeDef>,
}

/// A binding of a topic pattern to a guest action.
#[derive(Debug, Clone)]
pub struct InterceptorDef {
    pub event: String,
    pub action: String,
    pub priority: u32,
}

/// Whether a binding is the one that a `[subscribe]` entry with a handler
/// declares.
pub open spec fn binds(def: InterceptorDef, entry: SubscribeDef) -> bool {
    &&& entry.handler is Some
    &&& def.event@ == entry.topic@
    &&& def.action@ == entry.handler->0@
    &&& def.priority == entry.priority
}

/// The `[subscribe]` entries that name a handler, in order.
pub open spec fn handled(entries: Seq<SubscribeDef>) -> Seq<SubscribeDef> {
    entries.filter(|e: SubscribeDef| e.handler is Some)
}

/// Whether a list of bindings is that of the entries, one for one.
pub open spec fn binds_all(defs: Seq<InterceptorDef>, entries: Seq<SubscribeDef>) -> bool {
    &&& defs.len() == entries.len()
    &&& forall|i: int| 0 <= i < defs.len() ==> binds(#[trigger] defs[i], entries[i])
}

impl CapsuleManifest {
    /// Whether the capsule imports from any namespace.
    pub fn has_imports(&self) -> (r: bool)
        ensures
            r == (self.imports@.len() > 0),
    {
        self.imports.len() > 0
    }

    /// The topics that the capsule may publish.
    pub fn effective_ipc_publish_patterns(&self) -> (r: Vec<String>)
        ensures
            texts(r@) == self.publishes@.map_values(|d: PublishDef| d.topic@),
    {
        let mut r: Vec<String> = Vec::new();
        let ghost all = self.publishes@.map_values(|d: PublishDef| d.topic@);
        for i in 0..self.publishes.len()
            invariant
                all == self.publishes@.map_values(|d: PublishDef| d.topic@),
                texts(r@) == all.take(i as int),
        {
            let ghost before = r@;
            let topic = self.publishes[i].topic.clone();
            r.push(topic);
            assert(texts(r@) =~= texts(before).push(topic@));
            assert(all.take(i + 1) =~= all.take(i as int).push(topic@));
        }
        assert(all.take(all.len() as int) =~= all);
        r
    }

    /// The topics that the capsule may subscribe to, with a handler or
    /// without.
    pub fn effective_ipc_subscribe_patterns(&self) -> (r: Vec<String>)
        ensures
            texts(r@) == self.subscribes@.map_values(|d: SubscribeDef| d.topic@),
    {
        let mut r: Vec<String> = Vec::new();
        let ghost all = self.subscribes@.map_values(|d: SubscribeDef| d.topic@);
        for i in 0..self.subscribes.len()
            invariant
                all == self.subscribes@.map_values(|d: SubscribeDef| d.topic@),
                texts(r@) == all.take(i as int),
        {
            let ghost before = r@;
            let topic = self.subscribes[i].topic.clone();
            r.push(topic);
            assert(texts(r@) =~= texts(before).push(topic@));
            assert(all.take(i + 1) =~= all.take(i as int).push(topic@));
        }
        assert(all.take(all.len() as int) =~= all);
        r
    }

    /// The bindings that the `[subscribe]` entries with a handler declare.
    pub fn effective_interceptors(&self) -> (r: Vec<InterceptorDef>)
        ensures
            binds_all(r@, handled(self.subscribes@)),
    {
        let ghost has_handler = |e: SubscribeDef| e.handler is Some;
        let mut defs: Vec<InterceptorDef> = Vec::new();
        assert(self.subscribes@.take(0).filter(has_handler) =~= Seq::empty()) by {
            reveal(Seq::filter);
        }
        for i in 0..self.subscribes.len()
            invariant
                has_handler == |e: SubscribeDef| e.handler is Some,
                binds_all(defs@, self.subscribes@.take(i as int).filter(has_handler)),
        {
            let entry = &self.subscribes[i];
            proof {
                reveal(Seq::filter);
                assert(self.subscribes@.take(i + 1).drop_last() =~= self.subscribes@.take(
                    i as int,
                ));
                assert(self.subscribes@.take(i + 1).last() == *entry);
            }
            if let Some(action) = &entry.handler {
                let ghost before = defs@;
                let ghost entries = self.subscribes@.take(i as int).filter(has_handler);
                defs.push(
                    InterceptorDef {
                        event: entry.topic.clone(),
                        action: action.clone(),
                        priority: entry.priority,
                    },
                );
                proof {
                    let more = self.subscribes@.take(i + 1).filter(has_handler);
                    assert(more == entries.push(*entry));
                    assert forall|k: int| 0 <= k < defs@.len() implies binds(
                        #[trigger] defs@[k],
                        more[k],
                    ) by {
                        if k < before.len() {
                            assert(defs@[k] == before[k]);
                            assert(more[k] == entries[k]);
                        }
                    }
                }
            }
        }
        assert(self.subscribes@.take(self.subscribes@.len() as int) =~= self.subscribes@);
        defs
    }
}

/// The bindings of a manifest are those of its `[subscribe]` entries that name a
/// handler: each of them, and no other.
pub proof fn handled_entries_name_a_handler(entries: Seq<SubscribeDef>, entry: SubscribeDef)
    ensures
        handled(entries).contains(entry) <==> entries.contains(entry) && entry.handler is Some,
        handled(entries).len() <= entries.len(),
        (forall|i: int| 0 <= i < entries.len() ==> (#[trigger] entries[i]).handler is Some)
            ==> handled(entries) == entries,
    decreases entries.len(),
{
    reveal(Seq::filter);
    let all = handled(entries);
    if entries.len() > 0 {
        let front = entries.drop_last();
        let rest = handled(front);
        handled_entries_name_a_handler(front, entry);
        if all.contains(entry) {
            let k = choose|k: int| 0 <= k < all.len() && all[k] == entry;
            if k < rest.len() {
                assert(rest[k] == entry);
                let i = choose|i: int| 0 <= i < front.len() && front[i] == entry;
                assert(entries[i] == entry);
            } else {
                assert(entries[entries.len() - 1] == entry);
            }
        }
        if entries.contains(entry) && entry.handler is Some {
            let i = choose|i: int| 0 <= i < entries.len() && entries[i] == entry;
            if i < front.len() {
                assert(front[i] == entry);
                let k = choose|k: int| 0 <= k < rest.len() && rest[k] == entry;
                assert(all[k] == entry);
            } else {
                assert(all[all.len() - 1] == entry);
            }
        }
        if forall|i: int| 0 <= i < entries.len() ==> (#[trigger] entries[i]).handler is Some {
            assert forall|i: int| 0 <= i < front.len() implies (
            #[trigger] front[i]).handler is Some by {
                assert(entries[i].handler is Some);
            }
            assert(entries[entries.len() - 1].handler is Some);
            assert(all =~= entries);
        }
    } else {
        assert(all =~= entries);
    }
}

/// Each `[subscribe]` entry that names a handler gives a binding of its topic to
/// that handler, with its priority; every binding comes from such an entry.
pub proof fn bindings_are_those_of_their_entries(
    defs: Seq<InterceptorDef>,
    entries: Seq<SubscribeDef>,
    i: int,
    k: int,
)
    requires
        binds_all(defs, handled(entries)),
    ensures
        0 <= i < entries.len() && entries[i].handler is Some ==> exists|n: int|
            0 <= n < defs.len() && (#[trigger] defs[n]).event@ == entries[i].topic@
                && defs[n].action@ == entries[i].handler->0@ && defs[n].priority
                == entries[i].priority,
        0 <= k < defs.len() ==> exists|n: int|
            0 <= n < entries.len() && (#[trigger] entries[n]).handler is Some
                && entries[n].topic@ == defs[k].event@ && entries[n].handler->0@ == defs[k].action@
                && entries[n].priority == defs[k].priority,
{
    let kept = handled(entries);
    if 0 <= i < entries.len() && entries[i].handler is Some {
        handled_entries_name_a_handler(entries, entries[i]);
        assert(entries.contains(entries[i]));
        let n = choose|n: int| 0 <= n < kept.len() && kept[n] == entries[i];
        assert(binds(defs[n], kept[n]));
    }
    if 0 <= k < defs.len() {
        assert(binds(defs[k], kept[k]));
        assert(kept.contains(kept[k]));
        handled_entries_name_a_handler(entries, kept[k]);
        let n = choose|n: int| 0 <= n < entries.len() && entries[n] == kept[k];
        assert(entries[n].handler is Some);
    }
}

}
