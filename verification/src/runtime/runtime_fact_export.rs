//! The export of a run: its facts, one to a line, and its manifest.
//!
//! Facts are kept apart: none is ever merged with another.
use vstd::prelude::*;
use vstd::string::*;

use crate::runtime::run_manifest_v1::RunManifestV1;
use crate::runtime::runtime_fact_v1::RuntimeFactFamily;
use crate::runtime::runtime_fact_v1::RuntimeFactV1;
use crate::runtime::runtime_locator::RuntimeLocator;
use crate::text;
use crate::utils;

verus! {

broadcast use vstd::string::group_string_axioms;

/// A symbol in source code.
#[derive(Debug, PartialEq, Eq)]
pub struct SymbolUID {
    pub uid: String,
    /// Kind of symbol, such as `function`.
    pub kind: String,
    pub file: String,
    pub line: u32,
}

impl SymbolUID {
    /// A symbol.
    pub fn new(uid: String, kind: String, file: String, line: u32) -> (r: Self)
        ensures
            r == (SymbolUID { uid, kind, file, line }),
    {
        SymbolUID { uid, kind, file, line }
    }
}

/// What a locator resolves to.
#[derive(Debug, PartialEq, Eq)]
pub enum SymbolUidResolution {
    /// The symbol.
    Resolved { symbol_uid: SymbolUID },
    /// Nothing, for a reason.
    Unresolved { locator: RuntimeLocator, reason: String },
}

/// The kind of symbol that a frame is in.
pub open spec fn symbol_kind(locator: RuntimeLocator) -> Seq<char> {
    match locator {
        RuntimeLocator::Python { .. } => "method"@,
        RuntimeLocator::Jvm { .. } => "method"@,
        RuntimeLocator::DotNet { .. } => "method"@,
        RuntimeLocator::Native { .. } => "function"@,
        RuntimeLocator::JsTs { .. } => "function"@,
    }
}

/// `r` is what `locator` resolves to: its symbol, or itself where the code graph cannot be asked.
pub open spec fn resolves_to(
    locator: RuntimeLocator,
    codegraph_available: bool,
    r: SymbolUidResolution,
) -> bool {
    if codegraph_available {
        &&& r matches SymbolUidResolution::Resolved { symbol_uid }
        &&& symbol_uid.file@ == locator.place().0
        &&& symbol_uid.line == locator.place().1
        &&& symbol_uid.kind@ == symbol_kind(locator)
        &&& symbol_uid.uid@ == locator.place().0 + ":"@ + text::decimal(locator.place().1 as nat)
            + ":"@ + symbol_kind(locator)
    } else {
        &&& r matches SymbolUidResolution::Unresolved { locator: kept, reason }
        &&& kept == locator
        &&& reason@
            == "Codegraph unavailable — export works without Codegraph; locator documented but not resolved"@
    }
}

/// Resolves a locator to the symbol at its file and line, or to itself where the code graph is not
/// available.
pub fn resolve_locator(locator: &RuntimeLocator, codegraph_available: bool) -> (r:
    SymbolUidResolution)
    ensures
        resolves_to(*locator, codegraph_available, r),
{
    if codegraph_available {
        let file = match locator.file() {
            Some(f) => f.to_owned(),
            None => "unknown".to_owned(),
        };
        let line: u32 = match locator.line() {
            Some(n) => n,
            None => 0,
        };
        let kind = match locator {
            RuntimeLocator::Python { .. } => "method",
            RuntimeLocator::Jvm { .. } => "method",
            RuntimeLocator::DotNet { .. } => "method",
            RuntimeLocator::Native { .. } => "function",
            RuntimeLocator::JsTs { .. } => "function",
        };
        let mut uid = file.clone();
        uid.append(":");
        uid.append(text::decimal_text(line as u64).as_str());
        uid.append(":");
        uid.append(kind);
        SymbolUidResolution::Resolved {
            symbol_uid: SymbolUID::new(uid, kind.to_owned(), file, line),
        }
    } else {
        SymbolUidResolution::Unresolved {
            locator: locator.clone(),
            reason: "Codegraph unavailable — export works without Codegraph; locator documented but not resolved".to_owned(),
        }
    }
}

/// How many facts of a family there are.
pub open spec fn family_count(facts: Seq<RuntimeFactV1>, family: RuntimeFactFamily) -> nat
    decreases facts.len(),
{
    if facts.len() == 0 {
        0
    } else {
        family_count(facts.drop_last(), family) + (if facts.last().family == family {
            1nat
        } else {
            0nat
        })
    }
}

/// Every fact is counted under its family.
pub open spec fn none_merged(facts: Seq<RuntimeFactV1>) -> bool {
    facts.len() == family_count(facts, RuntimeFactFamily::ObservedExec) + family_count(
        facts,
        RuntimeFactFamily::ObservedExit,
    ) + family_count(facts, RuntimeFactFamily::ObservedClassLoad) + family_count(
        facts,
        RuntimeFactFamily::ObservedException,
    ) + family_count(facts, RuntimeFactFamily::ObservedCall)
}

/// Adding up the families gives all facts.
proof fn lemma_none_merged(facts: Seq<RuntimeFactV1>)
    ensures
        none_merged(facts),
    decreases facts.len(),
{
    if facts.len() > 0 {
        lemma_none_merged(facts.drop_last());
    }
}

/// Counts the facts of a family.
fn count_family(facts: &Vec<RuntimeFactV1>, family: RuntimeFactFamily) -> (n: usize)
    ensures
        n == family_count(facts@, family),
        n <= facts.len(),
{
    let mut n: usize = 0;
    for i in 0..facts.len()
        invariant
            n == family_count(facts@.take(i as int), family),
            n <= i,
    {
        assert(facts@.take(i + 1).drop_last() =~= facts@.take(i as int));
        if facts[i].family == family {
            n = n + 1;
        }
    }
    assert(facts@.take(facts@.len() as int) =~= facts@);
    n
}

/// A place in the order of their first question, where the locator with the text `key` stands.
pub open spec fn position_of(resolutions: Seq<(String, SymbolUidResolution)>, key: Seq<char>) -> int
    decreases resolutions.len(),
{
    if resolutions.len() == 0 {
        0
    } else if resolutions[0].0@ == key {
        0
    } else {
        1 + position_of(resolutions.drop_first(), key)
    }
}

/// The facts of a run on their way out.
pub struct RuntimeFactExport {
    run_id: String,
    facts: Vec<RuntimeFactV1>,
    manifest: Option<RunManifestV1>,
    codegraph_available: bool,
    resolutions: Vec<(String, SymbolUidResolution)>,
}

/// No locator was resolved twice.
pub open spec fn each_once(resolutions: Seq<(String, SymbolUidResolution)>) -> bool {
    forall|i: int, j: int|
        0 <= i < j < resolutions.len() ==> #[trigger] resolutions[i].0@ != #[trigger] resolutions[j].0@
}

impl RuntimeFactExport {
    /// The identifier of the run.
    pub closed spec fn run(self) -> Seq<char> {
        self.run_id@
    }

    /// The facts, in the order in which they were added.
    pub closed spec fn all_facts(self) -> Seq<RuntimeFactV1> {
        self.facts@
    }

    /// The manifest.
    pub closed spec fn attested(self) -> Option<RunManifestV1> {
        self.manifest
    }

    /// Whether the code graph can be asked.
    pub closed spec fn asks_codegraph(self) -> bool {
        self.codegraph_available
    }

    /// What was resolved, by the texts of the locators, in the order of the first question.
    pub closed spec fn resolved(self) -> Seq<(String, SymbolUidResolution)> {
        self.resolutions@
    }

    /// No locator stands twice among the resolved ones.
    pub open spec fn well_formed(self) -> bool {
        each_once(self.resolved())
    }

    /// An export of the run `run_id`, with nothing in it.
    pub fn new(run_id: String) -> (r: Self)
        ensures
            r.well_formed(),
            r.run() == run_id@,
            r.all_facts().len() == 0,
            r.attested() is None,
            !r.asks_codegraph(),
            r.resolved().len() == 0,
    {
        RuntimeFactExport {
            run_id,
            facts: Vec::new(),
            manifest: None,
            codegraph_available: false,
            resolutions: Vec::new(),
        }
    }

    /// Resolves a locator outside any export.
    pub fn resolve_locator_for_test(locator: &RuntimeLocator, codegraph_available: bool) -> (r:
        SymbolUidResolution)
        ensures
            resolves_to(*locator, codegraph_available, r),
    {
        resolve_locator(locator, codegraph_available)
    }

    /// Says whether the code graph can be asked.
    pub fn set_codegraph_available(&mut self, available: bool)
        ensures
            final(self).run() == old(self).run(),
            final(self).all_facts() == old(self).all_facts(),
            final(self).attested() == old(self).attested(),
            final(self).asks_codegraph() == available,
            final(self).resolved() == old(self).resolved(),
    {
        self.codegraph_available = available;
    }

    /// Adds a fact, as an entry of its own.
    pub fn add_fact(&mut self, fact: RuntimeFactV1)
        ensures
            final(self).run() == old(self).run(),
            final(self).all_facts() == old(self).all_facts().push(fact),
            final(self).attested() == old(self).attested(),
            final(self).asks_codegraph() == old(self).asks_codegraph(),
            final(self).resolved() == old(self).resolved(),
    {
        self.facts.push(fact);
    }

    /// Sets the manifest.
    pub fn set_manifest(&mut self, manifest: RunManifestV1)
        ensures
            final(self).run() == old(self).run(),
            final(self).all_facts() == old(self).all_facts(),
            final(self).attested() == Some(manifest),
            final(self).asks_codegraph() == old(self).asks_codegraph(),
            final(self).resolved() == old(self).resolved(),
    {
        self.manifest = Some(manifest);
    }

    /// The number of facts.
    pub fn fact_count(&self) -> (n: usize)
        ensures
            n == self.all_facts().len(),
    {
        self.facts.len()
    }

    /// Whether no facts were merged: the facts of the families add up to all facts. They always
    /// do.
    pub fn facts_are_distinct(&self) -> (r: bool)
        ensures
            r == none_merged(self.all_facts()),
            r,
    {
        proof {
            lemma_none_merged(self.facts@);
        }
        let exec = count_family(&self.facts, RuntimeFactFamily::ObservedExec);
        let exit = count_family(&self.facts, RuntimeFactFamily::ObservedExit);
        let load = count_family(&self.facts, RuntimeFactFamily::ObservedClassLoad);
        let exception = count_family(&self.facts, RuntimeFactFamily::ObservedException);
        let call = count_family(&self.facts, RuntimeFactFamily::ObservedCall);
        exec + exit + load + exception + call == self.facts.len()
    }

    /// What a locator resolves to. The first answer stands, whatever is asked later.
    pub fn resolve_locator(&mut self, locator: &RuntimeLocator) -> (r: &SymbolUidResolution)
        requires
            old(self).well_formed(),
        ensures
            final(self).well_formed(),
            final(self).run() == old(self).run(),
            final(self).all_facts() == old(self).all_facts(),
            final(self).attested() == old(self).attested(),
            final(self).asks_codegraph() == old(self).asks_codegraph(),
            ({
                let at = position_of(old(self).resolved(), locator.shown());
                &&& 0 <= at < final(self).resolved().len()
                &&& final(self).resolved()[at].0@ == locator.shown()
                &&& final(self).resolved()[at].1 == *r
                &&& at < old(self).resolved().len() ==> final(self).resolved()
                    == old(self).resolved()
                &&& at == old(self).resolved().len() ==> {
                    &&& final(self).resolved().drop_last() == old(self).resolved()
                    &&& resolves_to(*locator, old(self).asks_codegraph(), *r)
                }
            }),
    {
        let key = locator.show();
        let ghost first = self.resolutions@;
        let mut at: usize = 0;
        assert(first.skip(0) =~= first);
        while at < self.resolutions.len() && !text::same(
            self.resolutions[at].0.as_str(),
            key.as_str(),
        )
            invariant
                self.resolutions@ == first,
                at <= first.len(),
                position_of(first, key@) == at + position_of(first.skip(at as int), key@),
                forall|i: int| 0 <= i < at ==> (#[trigger] first[i]).0@ != key@,
            decreases first.len() - at,
        {
            assert(first.skip(at as int).drop_first() =~= first.skip(at + 1));
            at = at + 1;
        }
        if at == self.resolutions.len() {
            let resolution = resolve_locator(locator, self.codegraph_available);
            self.resolutions.push((key, resolution));
            assert(self.resolutions@.drop_last() =~= first);
        }
        &self.resolutions[at].1
    }

    /// The text of the file of facts: `lines`, the JSON texts of the facts, each ended.
    pub fn jsonl_content(&self, lines: &Vec<String>) -> (r: String)
        requires
            lines.len() == self.all_facts().len(),
        ensures
            r@ == text::joined(text::texts(lines@), "\n"@) + "\n"@,
    {
        let mut r = text::join(lines, "\n");
        r.append("\n");
        r
    }

    /// The manifest to write, or why there is none.
    pub fn manifest_to_export(&self) -> (r: Result<&RunManifestV1, String>)
        ensures
            match r {
                Ok(m) => self.attested() == Some(*m),
                Err(e) => self.attested() is None && e@ == "Manifest not set"@,
            },
    {
        match &self.manifest {
            Some(m) => Ok(m),
            None => Err("Manifest not set".to_owned()),
        }
    }

    /// The files of facts and of the manifest in the directory `dir`.
    pub fn export_paths(dir: &str) -> (r: (String, String))
        ensures
            r.0@ == utils::below(dir@, "runtime-facts-v1.jsonl"@),
            r.1@ == utils::below(dir@, "run-manifest-v1.json"@),
    {
        (utils::join(dir, "runtime-facts-v1.jsonl"), utils::join(dir, "run-manifest-v1.json"))
    }

    /// The facts.
    pub fn facts(&self) -> (r: &Vec<RuntimeFactV1>)
        ensures
            r@ == self.all_facts(),
    {
        &self.facts
    }

    /// The manifest, if it was set.
    pub fn manifest(&self) -> (r: Option<&RunManifestV1>)
        ensures
            match r {
                Some(m) => self.attested() == Some(*m),
                None => self.attested() is None,
            },
    {
        match &self.manifest {
            Some(m) => Some(m),
            None => None,
        }
    }

    /// What was resolved.
    pub fn resolutions(&self) -> (r: &Vec<(String, SymbolUidResolution)>)
        ensures
            r@ == self.resolved(),
    {
        &self.resolutions
    }
}


/// Facts are counted family by family, one by one, and each belongs to one family.
pub proof fn law_families(
    a: Seq<RuntimeFactV1>,
    b: Seq<RuntimeFactV1>,
    f: RuntimeFactV1,
    family: RuntimeFactFamily,
)
    ensures
        family_count(a + b, family) == family_count(a, family) + family_count(b, family),
        f.family == family ==> family_count(seq![f], family) == 1,
        f.family != family ==> family_count(seq![f], family) == 0,
    decreases b.len(),
{
    assert(seq![f].drop_last() =~= Seq::<RuntimeFactV1>::empty());
    assert(family_count(seq![f].drop_last(), family) == 0);
    if b.len() == 0 {
        assert(a + b =~= a);
    } else {
        law_families(a, b.drop_last(), f, family);
        assert((a + b).drop_last() =~= a + b.drop_last());
        assert((a + b).last() == b.last());
    }
}

/// A locator is resolved only where the code graph can be asked: to its own file and line, as a
/// method or a function by its language. Elsewhere it is kept as it is, with the reason.
pub proof fn law_resolution(l: RuntimeLocator, available: bool, r: SymbolUidResolution)
    requires
        call_ensures(resolve_locator, (&l, available), r),
    ensures
        r is Resolved <==> available,
        r is Unresolved ==> r->locator == l && r->reason@
            == "Codegraph unavailable — export works without Codegraph; locator documented but not resolved"@,
        r is Resolved ==> ({
            let s = r->symbol_uid;
            &&& s.file@ == l.place().0
            &&& s.line == l.place().1
            &&& s.uid@ == s.file@ + ":"@ + text::decimal(s.line as nat) + ":"@ + s.kind@
            &&& l is Python || l is Jvm || l is DotNet ==> s.kind@ == "method"@
            &&& l is Native || l is JsTs ==> s.kind@ == "function"@
        }),
{
}

/// A locator that was resolved before is answered as before, whatever may be asked now.
pub proof fn law_resolved_once(
    before: RuntimeFactExport,
    after: RuntimeFactExport,
    l: RuntimeLocator,
    r: &SymbolUidResolution,
    i: int,
)
    requires
        exists|e: &mut RuntimeFactExport|
            *e == before && *final(e) == after && #[trigger] call_ensures(
                RuntimeFactExport::resolve_locator,
                (e, &l),
                r,
            ),
        0 <= i < before.resolved().len(),
        before.resolved()[i].0@ == l.shown(),
        before.well_formed(),
    ensures
        after.resolved() == before.resolved(),
        *r == before.resolved()[i].1,
        after.all_facts() == before.all_facts(),
{
    law_position(before.resolved(), l.shown());
    let at = position_of(before.resolved(), l.shown());
    if at < i {
        assert(before.resolved()[at].0@ == l.shown());
    }
}

/// The position of a locator is that of the first entry under it.
pub proof fn law_position(s: Seq<(String, SymbolUidResolution)>, key: Seq<char>)
    ensures
        0 <= position_of(s, key) <= s.len(),
        position_of(s, key) < s.len() ==> s[position_of(s, key)].0@ == key,
        forall|i: int| 0 <= i < position_of(s, key) ==> (#[trigger] s[i]).0@ != key,
    decreases s.len(),
{
    if s.len() > 0 && s[0].0@ != key {
        let rest = s.drop_first();
        law_position(rest, key);
        assert forall|i: int| 0 <= i < position_of(s, key) implies (#[trigger] s[i]).0@ != key by {
            if i > 0 {
                assert(rest[i - 1] == s[i]);
            }
        }
        if position_of(s, key) < s.len() {
            assert(rest[position_of(rest, key)] == s[position_of(s, key)]);
        }
    }
}

/// A locator that is new is resolved now, and its answer is kept behind the others.
pub proof fn law_newly_resolved(
    before: RuntimeFactExport,
    after: RuntimeFactExport,
    l: RuntimeLocator,
    r: &SymbolUidResolution,
)
    requires
        exists|e: &mut RuntimeFactExport|
            *e == before && *final(e) == after && #[trigger] call_ensures(
                RuntimeFactExport::resolve_locator,
                (e, &l),
                r,
            ),
        forall|i: int|
            0 <= i < before.resolved().len() ==> (#[trigger] before.resolved()[i]).0@ != l.shown(),
    ensures
        after.resolved().len() == before.resolved().len() + 1,
        after.resolved().drop_last() == before.resolved(),
        after.resolved().last().0@ == l.shown(),
        after.resolved().last().1 == *r,
        *r is Resolved <==> before.asks_codegraph(),
{
    law_position(before.resolved(), l.shown());
}

/// A fact that is added stands behind the others; a manifest that is set replaces the one before.
pub proof fn law_added_facts(
    before: RuntimeFactExport,
    after: RuntimeFactExport,
    fact: RuntimeFactV1,
)
    requires
        exists|e: &mut RuntimeFactExport|
            *e == before && *final(e) == after && #[trigger] call_ensures(
                RuntimeFactExport::add_fact,
                (e, fact),
                (),
            ),
    ensures
        after.all_facts().len() == before.all_facts().len() + 1,
        after.all_facts().drop_last() == before.all_facts(),
        after.all_facts().last() == fact,
        after.attested() == before.attested(),
        after.resolved() == before.resolved(),
        after.run() == before.run(),
{
    assert(after.all_facts().drop_last() =~= before.all_facts());
}

/// What is exported: one line for each fact, each line ended, beside the manifest, which must be
/// set.
pub proof fn law_exports(
    e: RuntimeFactExport,
    lines: Vec<String>,
    content: String,
    m: Result<&RunManifestV1, String>,
    dir: &str,
    paths: (String, String),
)
    requires
        call_ensures(RuntimeFactExport::jsonl_content, (&e, &lines), content),
        call_ensures(RuntimeFactExport::manifest_to_export, (&e,), m),
        call_ensures(RuntimeFactExport::export_paths, (dir,), paths),
    ensures
        content@ == text::joined(text::texts(lines@), "\n"@) + "\n"@,
        m is Ok <==> e.attested() is Some,
        m is Ok ==> *(m->Ok_0) == e.attested()->0,
        m is Err ==> (m->Err_0)@ == "Manifest not set"@,
        paths.0@ == utils::below(dir@, "runtime-facts-v1.jsonl"@),
        paths.1@ == utils::below(dir@, "run-manifest-v1.json"@),
{
}

} // verus!
