//! Scan of a WebAssembly binary for a real implementation of an export.
//!
//! The toolchain fills the exports `run`, `astrid-install` and
//! `astrid-upgrade` that a capsule does not implement with one shared function
//! that does nothing, so two of these names at one function index are stubs.

use vstd::prelude::*;
use vstd::string::*;

use crate::foreign::{scan_wasm, wasm_payloads};
use crate::lists::{first_some, lemma_first_some_at, lemma_first_some_none};
use crate::text::same;

verus! {

/// An export of a module or component.
#[derive(Debug, Clone)]
pub struct ScanExport {
    pub name: String,
    /// Whether it is a function.
    pub is_func: bool,
    /// Its index within its kind.
    pub index: u32,
}

/// A piece of a binary, in the order of the file.
#[derive(Debug)]
pub enum ScanPayload {
    /// An export section. `None` stands for an entry that does not parse.
    Exports(Vec<Option<ScanExport>>),
    /// Anything else that parses.
    Other,
    /// A place that does not parse.
    Failure,
}

/// An export by its text.
pub struct ExportView {
    pub name: Seq<char>,
    pub is_func: bool,
    pub index: u32,
}

/// A piece of a binary by its texts.
pub enum PayloadView {
    Exports(Seq<Option<ExportView>>),
    Other,
    Failure,
}

impl View for ScanExport {
    type V = ExportView;

    open spec fn view(&self) -> ExportView {
        ExportView { name: self.name@, is_func: self.is_func, index: self.index }
    }
}

/// The entries of an export section by their texts.
pub open spec fn entries_view(entries: Seq<Option<ScanExport>>) -> Seq<Option<ExportView>> {
    entries.map_values(
        |e: Option<ScanExport>|
            match e {
                Some(x) => Some(x@),
                None => None,
            },
    )
}

impl View for ScanPayload {
    type V = PayloadView;

    open spec fn view(&self) -> PayloadView {
        match self {
            ScanPayload::Exports(entries) => PayloadView::Exports(entries_view(entries@)),
            ScanPayload::Other => PayloadView::Other,
            ScanPayload::Failure => PayloadView::Failure,
        }
    }
}

/// The pieces of a binary by their texts.
pub open spec fn payloads_view(payloads: Seq<ScanPayload>) -> Seq<PayloadView> {
    payloads.map_values(|p: ScanPayload| p@)
}

/// A name that the toolchain fills with a stub.
pub open spec fn is_stub_prone(name: Seq<char>) -> bool {
    name == "run"@ || name == "astrid-install"@ || name == "astrid-upgrade"@
}

/// The index of the function that an export section gives a name, by the last
/// entry of that name.
pub open spec fn func_index(entries: Seq<Option<ExportView>>, name: Seq<char>) -> Option<u32>
    decreases entries.len(),
{
    if entries.len() == 0 {
        None
    } else {
        match entries.last() {
            Some(e) if e.is_func && e.name == name => Some(e.index),
            _ => func_index(entries.drop_last(), name),
        }
    }
}

/// Whether another stub-prone name has the same function as `name`.
pub open spec fn is_aliased(entries: Seq<Option<ExportView>>, name: Seq<char>) -> bool {
    exists|other: Seq<char>|
        other != name && is_stub_prone(other) && #[trigger] func_index(entries, other)
            == func_index(entries, name)
}

/// What an export section says about `name`: nothing, or whether it is really
/// implemented. An entry that does not parse counts as an implementation.
pub open spec fn section_verdict(
    name: Seq<char>,
    entries: Seq<Option<ExportView>>,
) -> Option<bool> {
    if exists|i: int| 0 <= i < entries.len() && (#[trigger] entries[i]) is None {
        Some(true)
    } else if func_index(entries, name) is None {
        None
    } else {
        Some(!(is_stub_prone(name) && is_aliased(entries, name)))
    }
}

/// What a piece of a binary says about `name`. A place that does not parse
/// counts as an implementation.
pub open spec fn payload_verdict(name: Seq<char>, payload: PayloadView) -> Option<bool> {
    match payload {
        PayloadView::Exports(entries) => section_verdict(name, entries),
        PayloadView::Other => None,
        PayloadView::Failure => Some(true),
    }
}

/// Whether a binary really implements `name`: by the first piece that says
/// anything; not, if none does.
pub open spec fn implements(name: Seq<char>, payloads: Seq<PayloadView>) -> bool {
    match first_some(payloads.map_values(|p: PayloadView| payload_verdict(name, p))) {
        Some(answer) => answer,
        None => false,
    }
}

/// What an export section says about `name`.
fn scan_section(name: &str, entries: &Vec<Option<ScanExport>>) -> (r: Option<bool>)
    ensures
        r == section_verdict(name@, entries_view(entries@)),
{
    let ghost all = entries_view(entries@);
    let mut run: Option<u32> = None;
    let mut install: Option<u32> = None;
    let mut upgrade: Option<u32> = None;
    let mut present = false;
    proof {
        reveal_strlit("run");
        reveal_strlit("astrid-install");
        reveal_strlit("astrid-upgrade");
        assert(all.take(0).len() == 0);
    }
    for i in 0..entries.len()
        invariant
            all == entries_view(entries@),
            "run"@.len() == 3,
            "astrid-install"@.len() == 14,
            "astrid-upgrade"@.len() == 14,
            "astrid-install"@[7] == 'i',
            "astrid-upgrade"@[7] == 'u',
            forall|j: int| 0 <= j < i ==> (#[trigger] all[j]) is Some,
            run == func_index(all.take(i as int), "run"@),
            install == func_index(all.take(i as int), "astrid-install"@),
            upgrade == func_index(all.take(i as int), "astrid-upgrade"@),
            present == (func_index(all.take(i as int), name@) is Some),
    {
        proof {
            assert(all.take(i + 1).drop_last() =~= all.take(i as int));
            assert(all.take(i + 1).last() == all[i as int]);
        }
        match &entries[i] {
            None => {
                assert(all[i as int] is None);
                return Some(true);
            },
            Some(e) => {
                assert(all[i as int] == Some(e@));
                if e.is_func {
                    let shown = e.name.as_str();
                    if same(shown, name) {
                        present = true;
                    }
                    if same(shown, "run") {
                        run = Some(e.index);
                    } else if same(shown, "astrid-install") {
                        install = Some(e.index);
                    } else if same(shown, "astrid-upgrade") {
                        upgrade = Some(e.index);
                    }
                }
            },
        }
    }
    assert(all.take(all.len() as int) =~= all);
    if !present {
        return None;
    }
    if same(name, "run") {
        let aliased = same_index(run, install) || same_index(run, upgrade);
        assert(aliased == is_aliased(all, name@)) by {
            assert(func_index(all, "astrid-install"@) == install);
            assert(func_index(all, "astrid-upgrade"@) == upgrade);
        }
        Some(!aliased)
    } else if same(name, "astrid-install") {
        let aliased = same_index(install, run) || same_index(install, upgrade);
        assert(aliased == is_aliased(all, name@)) by {
            assert(func_index(all, "run"@) == run);
            assert(func_index(all, "astrid-upgrade"@) == upgrade);
        }
        Some(!aliased)
    } else if same(name, "astrid-upgrade") {
        let aliased = same_index(upgrade, run) || same_index(upgrade, install);
        assert(aliased == is_aliased(all, name@)) by {
            assert(func_index(all, "run"@) == run);
            assert(func_index(all, "astrid-install"@) == install);
        }
        Some(!aliased)
    } else {
        Some(true)
    }
}

/// Whether two names share a function.
fn same_index(a: Option<u32>, b: Option<u32>) -> (r: bool)
    ensures
        r == (a is Some && a == b),
{
    match (a, b) {
        (Some(x), Some(y)) => x == y,
        _ => false,
    }
}

/// Whether the pieces of a binary show a real implementation of `name`.
pub fn payloads_implement(name: &str, payloads: &Vec<ScanPayload>) -> (r: bool)
    ensures
        r == implements(name@, payloads_view(payloads@)),
{
    let ghost verdicts = payloads_view(payloads@).map_values(
        |p: PayloadView| payload_verdict(name@, p),
    );
    for i in 0..payloads.len()
        invariant
            verdicts == payloads_view(payloads@).map_values(
                |p: PayloadView| payload_verdict(name@, p),
            ),
            forall|j: int| 0 <= j < i ==> (#[trigger] verdicts[j]) is None,
    {
        assert(verdicts[i as int] == payload_verdict(name@, payloads@[i as int]@));
        let verdict: Option<bool> = match &payloads[i] {
            ScanPayload::Exports(entries) => scan_section(name, entries),
            ScanPayload::Other => None,
            ScanPayload::Failure => Some(true),
        };
        if let Some(answer) = verdict {
            proof {
                lemma_first_some_at(verdicts, i as int);
            }
            return answer;
        }
    }
    proof {
        lemma_first_some_none(verdicts);
    }
    false
}

/// Whether a binary really implements the export `name`: the export exists and
/// is no stub. A binary that does not parse counts as implementing it.
pub fn wasm_exports_contain(name: &str, wasm_bytes: &[u8]) -> (r: bool)
    ensures
        r == implements(name@, wasm_payloads(wasm_bytes@)),
{
    let payloads = scan_wasm(wasm_bytes);
    payloads_implement(name, &payloads)
}

/// Whether a binary has a run loop of its own.
pub fn wasm_exports_contain_run(wasm_bytes: &[u8]) -> (r: bool)
    ensures
        r == implements("run"@, wasm_payloads(wasm_bytes@)),
{
    wasm_exports_contain("run", wasm_bytes)
}

/// A stub is never taken for an implementation: in the first section that
/// names an export, sharing its function with another stub-prone export means
/// that it is not implemented, and having a function of its own that it is.
pub proof fn shared_function_is_a_stub(
    name: Seq<char>,
    entries: Seq<Option<ExportView>>,
    rest: Seq<PayloadView>,
)
    requires
        is_stub_prone(name),
        forall|i: int| 0 <= i < entries.len() ==> (#[trigger] entries[i]) is Some,
        func_index(entries, name) is Some,
    ensures
        implements(name, seq![PayloadView::Exports(entries)] + rest) == !is_aliased(entries, name),
{
    let payloads = seq![PayloadView::Exports(entries)] + rest;
    let verdicts = payloads.map_values(|p: PayloadView| payload_verdict(name, p));
    assert(verdicts[0] == section_verdict(name, entries));
    lemma_first_some_at(verdicts, 0);
}

/// A binary that stops parsing before anything was said about an export counts
/// as implementing it.
pub proof fn unparsable_binary_counts_as_implementing(
    name: Seq<char>,
    payloads: Seq<PayloadView>,
    i: int,
)
    requires
        0 <= i < payloads.len(),
        payloads[i] is Failure,
        forall|j: int| 0 <= j < i ==> payload_verdict(name, #[trigger] payloads[j]) is None,
    ensures
        implements(name, payloads),
{
    let verdicts = payloads.map_values(|p: PayloadView| payload_verdict(name, p));
    assert forall|j: int| 0 <= j < i implies (#[trigger] verdicts[j]) is None by {
        assert(verdicts[j] == payload_verdict(name, payloads[j]));
    }
    lemma_first_some_at(verdicts, i);
}

/// Whether entry `i` of an export section is a function of the given name.
pub open spec fn is_function_named(
    entries: Seq<Option<ExportView>>,
    i: int,
    name: Seq<char>,
) -> bool {
    0 <= i < entries.len() && entries[i] is Some && entries[i]->0.is_func && entries[i]->0.name
        == name
}

proof fn lemma_last_function(entries: Seq<Option<ExportView>>, name: Seq<char>, i: int)
    requires
        is_function_named(entries, i, name),
        forall|k: int| i < k < entries.len() ==> !is_function_named(entries, k, name),
    ensures
        func_index(entries, name) == Some(entries[i]->0.index),
    decreases entries.len(),
{
    if i < entries.len() - 1 {
        assert(!is_function_named(entries, entries.len() - 1, name));
        let front = entries.drop_last();
        assert(is_function_named(front, i, name));
        assert forall|k: int| i < k < front.len() implies !is_function_named(front, k, name) by {
            assert(!is_function_named(entries, k, name));
        }
        lemma_last_function(front, name, i);
    }
}

proof fn lemma_no_function(entries: Seq<Option<ExportView>>, name: Seq<char>)
    requires
        forall|k: int| 0 <= k < entries.len() ==> !is_function_named(entries, k, name),
    ensures
        func_index(entries, name) is None,
    decreases entries.len(),
{
    if entries.len() > 0 {
        assert(!is_function_named(entries, entries.len() - 1, name));
        let front = entries.drop_last();
        assert forall|k: int| 0 <= k < front.len() implies !is_function_named(front, k, name) by {
            assert(!is_function_named(entries, k, name));
        }
        lemma_no_function(front, name);
    }
}

/// A binary that parses and exports no function of a name does not implement it.
pub proof fn unexported_names_are_not_implemented(name: Seq<char>, payloads: Seq<PayloadView>)
    requires
        forall|p: int| 0 <= p < payloads.len() ==> !((#[trigger] payloads[p]) is Failure),
        forall|p: int, i: int|
            0 <= p < payloads.len() && (#[trigger] payloads[p]) is Exports && 0 <= i
                < payloads[p]->Exports_0.len() ==> (#[trigger] payloads[p]->Exports_0[i]) is Some
                && !is_function_named(payloads[p]->Exports_0, i, name),
    ensures
        !implements(name, payloads),
{
    let verdicts = payloads.map_values(|p: PayloadView| payload_verdict(name, p));
    assert forall|p: int| 0 <= p < verdicts.len() implies (#[trigger] verdicts[p]) is None by {
        assert(verdicts[p] == payload_verdict(name, payloads[p]));
        if payloads[p] is Exports {
            let entries = payloads[p]->Exports_0;
            assert forall|i: int| 0 <= i < entries.len() implies !is_function_named(
                entries,
                i,
                name,
            ) by {
                assert(payloads[p]->Exports_0[i] is Some);
            }
            lemma_no_function(entries, name);
            assert forall|i: int| 0 <= i < entries.len() implies (#[trigger] entries[i]) is Some by {
                assert(payloads[p]->Exports_0[i] is Some);
            }
        }
    }
    lemma_first_some_none(verdicts);
}

/// Whether a name is `run`, `astrid-install` or `astrid-upgrade`.
pub open spec fn is_filled_in(name: Seq<char>) -> bool {
    name == "run"@ || name == "astrid-install"@ || name == "astrid-upgrade"@
}

/// A binary that parses and exports a function in its one export section, where
/// no name occurs twice, implements it, unless the name is one of the three that
/// the toolchain fills in and another of the three has the very same function.
pub proof fn functions_of_their_own_are_implementations(
    name: Seq<char>,
    before: Seq<PayloadView>,
    entries: Seq<Option<ExportView>>,
    after: Seq<PayloadView>,
    i: int,
)
    requires
        forall|p: int| 0 <= p < before.len() ==> (#[trigger] before[p]) is Other,
        forall|k: int| 0 <= k < entries.len() ==> (#[trigger] entries[k]) is Some,
        forall|a: int, b: int|
            0 <= a < b < entries.len() && (#[trigger] entries[a])->0.is_func && (
            #[trigger] entries[b])->0.is_func ==> entries[a]->0.name != entries[b]->0.name,
        is_function_named(entries, i, name),
    ensures
        implements(name, before.push(PayloadView::Exports(entries)) + after) <==> !(is_filled_in(
            name,
        ) && exists|k: int|
            0 <= k < entries.len() && k != i && (#[trigger] entries[k])->0.is_func && is_filled_in(
                entries[k]->0.name,
            ) && entries[k]->0.index == entries[i]->0.index),
{
    let payloads = before.push(PayloadView::Exports(entries)) + after;
    let verdicts = payloads.map_values(|p: PayloadView| payload_verdict(name, p));
    let n = before.len() as int;
    assert forall|p: int| 0 <= p < n implies (#[trigger] verdicts[p]) is None by {
        assert(payloads[p] == before[p]);
        assert(before[p] is Other);
    }
    assert(payloads[n] == PayloadView::Exports(entries));
    assert(verdicts[n] == section_verdict(name, entries));
    lemma_only_function(entries, name, i);
    lemma_first_some_at(verdicts, n);
    let shared = exists|k: int|
        0 <= k < entries.len() && k != i && (#[trigger] entries[k])->0.is_func && is_filled_in(
            entries[k]->0.name,
        ) && entries[k]->0.index == entries[i]->0.index;
    if shared {
        let k = choose|k: int|
            0 <= k < entries.len() && k != i && (#[trigger] entries[k])->0.is_func && is_filled_in(
                entries[k]->0.name,
            ) && entries[k]->0.index == entries[i]->0.index;
        let other = entries[k]->0.name;
        lemma_only_function(entries, other, k);
        if k < i {
            assert(entries[k]->0.name != entries[i]->0.name);
        } else {
            assert(entries[i]->0.name != entries[k]->0.name);
        }
        assert(func_index(entries, other) == func_index(entries, name));
        if is_filled_in(name) {
            assert(is_aliased(entries, name));
        }
    }
    if is_stub_prone(name) && is_aliased(entries, name) {
        let other = choose|other: Seq<char>|
            other != name && is_stub_prone(other) && #[trigger] func_index(entries, other)
                == func_index(entries, name);
        if forall|k: int| 0 <= k < entries.len() ==> !is_function_named(entries, k, other) {
            lemma_no_function(entries, other);
        }
        let k = choose|k: int|
            0 <= k < entries.len() && is_function_named(entries, k, other);
        lemma_only_function(entries, other, k);
        assert(entries[k]->0.is_func && k != i);
        assert(shared);
    }
}

proof fn lemma_only_function(entries: Seq<Option<ExportView>>, name: Seq<char>, i: int)
    requires
        forall|k: int| 0 <= k < entries.len() ==> (#[trigger] entries[k]) is Some,
        forall|a: int, b: int|
            0 <= a < b < entries.len() && (#[trigger] entries[a])->0.is_func && (
            #[trigger] entries[b])->0.is_func ==> entries[a]->0.name != entries[b]->0.name,
        is_function_named(entries, i, name),
    ensures
        func_index(entries, name) == Some(entries[i]->0.index),
{
    assert forall|k: int| i < k < entries.len() implies !is_function_named(entries, k, name) by {
        if is_function_named(entries, k, name) {
            assert(entries[i]->0.name != entries[k]->0.name);
        }
    }
    lemma_last_function(entries, name, i);
}

/// A section with an entry that does not parse counts as implementing every
/// name, as long as nothing was said before.
pub proof fn unparsable_sections_count_as_implementing(
    name: Seq<char>,
    before: Seq<PayloadView>,
    entries: Seq<Option<ExportView>>,
    after: Seq<PayloadView>,
    i: int,
)
    requires
        forall|p: int| 0 <= p < before.len() ==> (#[trigger] before[p]) is Other,
        0 <= i < entries.len(),
        entries[i] is None,
    ensures
        implements(name, before.push(PayloadView::Exports(entries)) + after),
        implements(name, before.push(PayloadView::Failure) + after),
{
    let n = before.len() as int;
    let first = before.push(PayloadView::Exports(entries)) + after;
    let second = before.push(PayloadView::Failure) + after;
    let a = first.map_values(|p: PayloadView| payload_verdict(name, p));
    let b = second.map_values(|p: PayloadView| payload_verdict(name, p));
    assert forall|p: int| 0 <= p < n implies (#[trigger] a[p]) is None by {
        assert(first[p] == before[p]);
        assert(before[p] is Other);
    }
    assert forall|p: int| 0 <= p < n implies (#[trigger] b[p]) is None by {
        assert(second[p] == before[p]);
        assert(before[p] is Other);
    }
    assert(first[n] == PayloadView::Exports(entries));
    assert(second[n] == PayloadView::Failure);
    assert(a[n] == Some(true));
    assert(b[n] == Some(true));
    lemma_first_some_at(a, n);
    lemma_first_some_at(b, n);
}

}
