//! What a process imports, spawns, raises and loads: few events, and every one of them kept or
//! counted.
use vstd::prelude::*;
use vstd::string::*;

use crate::json;
use crate::json::Json;
use crate::json::Object;
use crate::json::Value;
use crate::telemetry;
use crate::text;
use crate::wal::WalEvent;
use crate::wal::WalEventType;

verus! {

broadcast use vstd::string::group_string_axioms;

/// The most events that wait.
pub const AUDIT_CHANNEL_CAP: usize = 512;

/// What a process did.
#[derive(Debug, Clone, Copy, PartialEq, Eq, Structural)]
pub enum AuditKind {
    Import,
    Spawn,
    /// Raised an exception.
    Raise,
    /// Loaded code while running.
    DynamicLoad,
    FileOp,
}

impl AuditKind {
    /// The name of the kind.
    pub open spec fn name(self) -> Seq<char> {
        match self {
            AuditKind::Import => "Import"@,
            AuditKind::Spawn => "Spawn"@,
            AuditKind::Raise => "Raise"@,
            AuditKind::DynamicLoad => "DynamicLoad"@,
            AuditKind::FileOp => "FileOp"@,
        }
    }

    fn as_str(self) -> (r: &'static str)
        ensures
            r@ == self.name(),
    {
        match self {
            AuditKind::Import => "Import",
            AuditKind::Spawn => "Spawn",
            AuditKind::Raise => "Raise",
            AuditKind::DynamicLoad => "DynamicLoad",
            AuditKind::FileOp => "FileOp",
        }
    }
}

// ---------------------------------------------------------------------------
// Secrets
// ---------------------------------------------------------------------------

/// A text that may give a secret away, in whatever case it is written.
pub open spec fn secret(s: Seq<char>) -> bool {
    ||| text::contains_text(text::folded(s), "auth_token"@)
    ||| text::contains_text(text::folded(s), "bearer"@)
    ||| text::contains_text(text::folded(s), "api_key"@)
}

/// A text, or a blot in its place where it may give a secret away.
pub open spec fn blotted(s: Seq<char>) -> Seq<char> {
    if secret(s) {
        "REDACTED"@
    } else {
        s
    }
}

/// Whether a text may give a secret away.
pub fn redact_secret(input: &str) -> (r: bool)
    ensures
        r == secret(input@),
{
    let lower = text::lower_ascii(input);
    text::contains(lower.as_str(), "auth_token") || text::contains(lower.as_str(), "bearer")
        || text::contains(lower.as_str(), "api_key")
}

/// A text, or a blot in its place where it may give a secret away.
pub fn blot(s: &str) -> (r: String)
    ensures
        r@ == blotted(s@),
{
    if redact_secret(s) {
        "REDACTED".to_owned()
    } else {
        s.to_owned()
    }
}

/// What stands in place of a text that may give a secret away gives none away.
pub proof fn law_blots_hide(s: Seq<char>)
    ensures
        !secret(blotted(s)),
{
    reveal_strlit("REDACTED");
    reveal_strlit("auth_token");
    reveal_strlit("bearer");
    reveal_strlit("api_key");
    let low = text::folded("REDACTED"@);
    assert(low.len() == 8);
    assert forall|i: int| !text::occurs_at(low, "auth_token"@, i) by {}
    assert forall|i: int| !text::occurs_at(low, "bearer"@, i) by {
        if text::occurs_at(low, "bearer"@, i) {
            assert(low.subrange(i, i + 6)[0] == 'b');
            assert(low[i] == 'b');
        }
    }
    assert forall|i: int| !text::occurs_at(low, "api_key"@, i) by {
        if text::occurs_at(low, "api_key"@, i) {
            assert(low.subrange(i, i + 7)[0] == 'a');
            assert(low[i] == 'a');
        }
    }
}

/// What is shown of a text: no secret, and no more than `n` bytes of it. The secret is looked for in
/// the whole text, so one behind the cut hides the rest too.
pub open spec fn shown(t: Seq<char>, n: nat) -> Seq<char> {
    if secret(t) {
        "REDACTED"@
    } else if text::byte_length(t) > n {
        text::within(t, n) + "...[truncated]"@
    } else {
        t
    }
}

/// What is shown of `t`, of which no more than `n` bytes.
pub fn show(t: &str, n: usize) -> (r: String)
    ensures
        r@ == shown(t@, n as nat),
{
    if redact_secret(t) {
        "REDACTED".to_owned()
    } else if text::byte_len(t) > n {
        let mut r = text::cut(t, n);
        r.append("...[truncated]");
        r
    } else {
        t.to_owned()
    }
}

proof fn lemma_within_prefix(s: Seq<char>, n: nat)
    ensures
        text::within(s, n).len() <= s.len(),
        text::within(s, n) == s.take(text::within(s, n).len() as int),
    decreases s.len(),
{
    if s.len() == 0 || text::byte_length(s) <= n {
        assert(s.take(s.len() as int) =~= s);
    } else {
        lemma_within_prefix(s.drop_last(), n);
        let k = text::within(s, n).len() as int;
        assert(s.drop_last().take(k) =~= s.take(k));
    }
}

/// A part of a text with the note of a cut behind it has nothing in it that the text has not, but
/// for what the note has or touches.
proof fn lemma_cut_adds_nothing(t: Seq<char>, n: nat, p: Seq<char>)
    requires
        p.len() > 0,
        !p.contains('.'),
        !text::contains_text(text::folded(t), p),
        !text::contains_text(text::folded("...[truncated]"@), p),
    ensures
        !text::contains_text(text::folded(text::within(t, n) + "...[truncated]"@), p),
{
    reveal_strlit("...[truncated]");
    lemma_within_prefix(t, n);
    let part = text::within(t, n);
    let note = "...[truncated]"@;
    let k = part.len() as int;
    let low = text::folded(part + note);
    assert forall|i: int| !text::occurs_at(low, p, i) by {
        if text::occurs_at(low, p, i) {
            let found = low.subrange(i, i + p.len());
            if i + p.len() <= k {
                assert(text::folded(t).subrange(i, i + p.len()) =~= found);
                assert(text::occurs_at(text::folded(t), p, i));
            } else if i >= k {
                assert(text::folded(note).subrange(i - k, i - k + p.len()) =~= found);
                assert(text::occurs_at(text::folded(note), p, i - k));
            } else {
                assert(low[k] == '.');
                assert(found[k - i] == '.');
                assert(p.contains(p[k - i]));
            }
        }
    }
}

/// What is shown of a text gives no secret away, cut or not.
pub proof fn law_shown_hides(t: Seq<char>, n: nat)
    ensures
        !secret(shown(t, n)),
{
    if secret(t) {
        law_blots_hide(t);
    } else if text::byte_length(t) > n {
        reveal_strlit("auth_token");
        reveal_strlit("bearer");
        reveal_strlit("api_key");
        reveal_strlit("...[truncated]");
        let low = text::folded("...[truncated]"@);
        assert(low.len() == 14);
        assert forall|i: int| !text::occurs_at(low, "auth_token"@, i) by {
            if text::occurs_at(low, "auth_token"@, i) {
                assert(low.subrange(i, i + 10)[0] == low[i]);
                assert(low[i] == 'a');
                assert(i <= 4);
            }
        }
        assert forall|i: int| !text::occurs_at(low, "bearer"@, i) by {
            if text::occurs_at(low, "bearer"@, i) {
                assert(low.subrange(i, i + 6)[0] == low[i]);
                assert(low[i] == 'b');
            }
        }
        assert forall|i: int| !text::occurs_at(low, "api_key"@, i) by {
            if text::occurs_at(low, "api_key"@, i) {
                assert(low.subrange(i, i + 7)[0] == low[i]);
                assert(low[i] == 'a');
                assert(i <= 7);
            }
        }
        lemma_cut_adds_nothing(t, n, "auth_token"@);
        lemma_cut_adds_nothing(t, n, "bearer"@);
        lemma_cut_adds_nothing(t, n, "api_key"@);
    }
}

// ---------------------------------------------------------------------------
// Events
// ---------------------------------------------------------------------------

/// Something that a process did.
#[derive(Debug)]
pub struct AuditEvent {
    pub id: u64,
    /// Unix time, in nanoseconds.
    pub ts_ns: u64,
    pub kind: AuditKind,
    /// Name of the module, command, exception or library.
    pub target: String,
    /// File and line.
    pub location: Option<String>,
    /// The event stands for events that were dropped.
    pub truncated: bool,
}

impl Clone for AuditEvent {
    fn clone(&self) -> (r: Self)
        ensures
            r == *self,
    {
        AuditEvent {
            id: self.id,
            ts_ns: self.ts_ns,
            kind: self.kind,
            target: self.target.clone(),
            location: telemetry::clone_text(&self.location),
            truncated: self.truncated,
        }
    }
}

/// A target as it is kept: no secret, and at most 1024 bytes of it.
pub open spec fn kept(target: Seq<char>) -> Seq<char> {
    shown(target, 1024)
}

/// The model of a location in the log.
pub open spec fn place(location: Option<String>) -> Json {
    match location {
        Some(s) => Json::Text(blotted(s@)),
        None => Json::Null,
    }
}

impl AuditEvent {
    /// The event as it is made.
    pub open spec fn made(self, id: u64, ts_ns: u64, kind: AuditKind, target: Seq<char>) -> bool {
        &&& self.id == id
        &&& self.ts_ns == ts_ns
        &&& self.kind == kind
        &&& self.target@ == kept(target)
        &&& self.location is None
        &&& !self.truncated
    }

    /// An event at the time `ts_ns`.
    pub fn new(id: u64, kind: AuditKind, target: String, ts_ns: u64) -> (r: AuditEvent)
        ensures
            r.made(id, ts_ns, kind, target@),
    {
        AuditEvent {
            id,
            ts_ns,
            kind,
            target: show(target.as_str(), 1024),
            location: None,
            truncated: false,
        }
    }

    /// What the log says of the event.
    pub open spec fn output(self) -> Json {
        Json::Object(
            json::inserted(
                json::inserted(
                    json::inserted(
                        json::inserted(Seq::empty(), "kind"@, Json::Text(self.kind.name())),
                        "target"@,
                        Json::Text(blotted(self.target@)),
                    ),
                    "location"@,
                    place(self.location),
                ),
                "truncated"@,
                Json::Bool(self.truncated),
            ),
        )
    }

    /// The event of the log that stands for the event.
    pub open spec fn logged_as(self, w: WalEvent) -> bool {
        &&& w.seq == self.id
        &&& w.ts == self.ts_ns / 1_000_000_000
        &&& w.event_type == (if self.truncated {
            WalEventType::ObserveTruncated
        } else {
            WalEventType::ObserveBatch
        })
        &&& w.job_id@ == "audit-"@ + text::decimal(self.id as nat)
        &&& json::option_view(w.output) == Some(self.output())
        &&& w.mono_ns == Some(self.ts_ns)
        &&& w.wall_ns == Some(self.ts_ns)
        &&& (WalEvent { output: None, mono_ns: None, wall_ns: None, ..w }).bare()
    }

    /// The event for the log. Secrets are blotted out once more.
    pub fn to_wal_event(&self) -> (r: WalEvent)
        ensures
            self.logged_as(r),
    {
        let mut job_id = "audit-".to_owned();
        job_id.append(text::decimal_text(self.id).as_str());
        let location = match &self.location {
            Some(s) => Value::String(blot(s.as_str())),
            None => Value::Null,
        };
        let output = Object::new().with(
            "kind".to_owned(),
            Value::from_text(self.kind.as_str()),
        ).with("target".to_owned(), Value::String(blot(self.target.as_str()))).with(
            "location".to_owned(),
            location,
        ).with("truncated".to_owned(), Value::Bool(self.truncated));
        let mut r = WalEvent::default();
        r.seq = self.id;
        r.ts = self.ts_ns / 1_000_000_000;
        r.event_type =
        if self.truncated {
            WalEventType::ObserveTruncated
        } else {
            WalEventType::ObserveBatch
        };
        r.job_id = job_id;
        r.output = Some(Value::Object(output));
        r.mono_ns = Some(self.ts_ns);
        r.wall_ns = Some(self.ts_ns);
        r
    }
}

// ---------------------------------------------------------------------------
// The hook
// ---------------------------------------------------------------------------

/// Events that wait to be written. When too many wait, new ones are dropped and counted.
#[derive(Debug)]
pub struct AuditHook {
    queue: Vec<AuditEvent>,
    next_id: u64,
    dropped: u64,
    cap: usize,
}

impl AuditHook {
    /// The events that wait.
    pub closed spec fn queued(self) -> Seq<AuditEvent> {
        self.queue@
    }

    /// How many events were dropped since the last time that all were taken.
    pub closed spec fn lost(self) -> nat {
        self.dropped as nat
    }

    /// The number of the next event.
    pub closed spec fn upcoming(self) -> nat {
        self.next_id as nat
    }

    /// The most events that wait.
    pub closed spec fn capacity(self) -> nat {
        self.cap as nat
    }

    /// No more events wait than may, their numbers increase, and none gives a secret away.
    pub open spec fn wf(self) -> bool {
        &&& self.queued().len() <= self.capacity()
        &&& forall|i: int|
            0 <= i < self.queued().len() ==> (#[trigger] self.queued()[i]).id < self.upcoming()
                && !secret(self.queued()[i].target@) && (self.queued()[i].location matches Some(s)
                ==> !secret(s@))
        &&& forall|i: int, j: int|
            0 <= i < j < self.queued().len() ==> (#[trigger] self.queued()[i]).id < (
            #[trigger] self.queued()[j]).id
    }

    /// A hook on which 512 events may wait.
    pub fn new() -> (r: AuditHook)
        ensures
            r.wf(),
            r.queued().len() == 0,
            r.lost() == 0,
            r.upcoming() == 0,
            r.capacity() == AUDIT_CHANNEL_CAP,
    {
        AuditHook::with_capacity(AUDIT_CHANNEL_CAP)
    }

    /// A hook on which `cap` events may wait.
    pub fn with_capacity(cap: usize) -> (r: AuditHook)
        ensures
            r.wf(),
            r.queued().len() == 0,
            r.lost() == 0,
            r.upcoming() == 0,
            r.capacity() == cap,
    {
        AuditHook { queue: Vec::new(), next_id: 0, dropped: 0, cap }
    }

    /// Another event fits, or is counted.
    pub open spec fn roomy(self) -> bool {
        self.lost() < u64::MAX && self.upcoming() < u64::MAX
    }

    /// What becomes of the hook with an event, or without it where there is no room.
    pub open spec fn takes(self, after: AuditHook, event: Option<AuditEvent>) -> bool {
        &&& after.capacity() == self.capacity()
        &&& match event {
            Some(e) => {
                &&& self.queued().len() < self.capacity()
                &&& after.queued() == self.queued().push(e)
                &&& after.lost() == self.lost()
                &&& after.upcoming() == self.upcoming() + 1
            },
            None => {
                &&& self.queued().len() >= self.capacity()
                &&& after.queued() == self.queued()
                &&& after.lost() == self.lost() + 1
                &&& after.upcoming() == self.upcoming()
            },
        }
    }

    /// Records an event at the time `ts_ns`. Where too many wait it is dropped and counted.
    pub fn record(&mut self, kind: AuditKind, target: String, ts_ns: u64) -> (r: Option<AuditEvent>)
        requires
            old(self).wf(),
            old(self).roomy(),
        ensures
            final(self).wf(),
            old(self).takes(*final(self), r),
            r matches Some(e) ==> e.made(old(self).upcoming() as u64, ts_ns, kind, target@),
    {
        if self.queue.len() >= self.cap {
            self.dropped = self.dropped + 1;
            return None;
        }
        let ghost t = target@;
        let ev = AuditEvent::new(self.next_id, kind, target, ts_ns);
        proof {
            law_shown_hides(t, 1024);
        }
        self.next_id = self.next_id + 1;
        self.queue.push(ev.clone());
        Some(ev)
    }

    /// Records an event with its file and line.
    pub fn record_with_location(
        &mut self,
        kind: AuditKind,
        target: String,
        location: String,
        ts_ns: u64,
    ) -> (r: Option<AuditEvent>)
        requires
            old(self).wf(),
            old(self).roomy(),
        ensures
            final(self).wf(),
            old(self).takes(*final(self), r),
            r matches Some(e) ==> {
                &&& (AuditEvent { location: None, ..e }).made(
                    old(self).upcoming() as u64,
                    ts_ns,
                    kind,
                    target@,
                )
                &&& telemetry::text_view(e.location) == Some(blotted(location@))
            },
    {
        if self.queue.len() >= self.cap {
            self.dropped = self.dropped + 1;
            return None;
        }
        let ghost t = target@;
        let mut ev = AuditEvent::new(self.next_id, kind, target, ts_ns);
        ev.location = Some(blot(location.as_str()));
        proof {
            law_shown_hides(t, 1024);
            law_blots_hide(location@);
        }
        self.next_id = self.next_id + 1;
        self.queue.push(ev.clone());
        Some(ev)
    }

    /// What waits, with a marker behind it where events were dropped.
    pub open spec fn gives(self, events: Seq<AuditEvent>, ts_ns: u64) -> bool {
        if self.lost() == 0 {
            events == self.queued()
        } else {
            &&& events.len() == self.queued().len() + 1
            &&& events.drop_last() == self.queued()
            &&& events.last().truncated
            &&& (AuditEvent { truncated: false, ..events.last() }).made(
                self.upcoming() as u64,
                ts_ns,
                AuditKind::Raise,
                "TRUNCATED dropped="@ + text::decimal(self.lost()),
            )
        }
    }

    /// Takes all events that wait. Where events were dropped, a marker with their number comes
    /// last.
    pub fn drain(&mut self, ts_ns: u64) -> (r: Vec<AuditEvent>)
        requires
            old(self).wf(),
            old(self).upcoming() < u64::MAX,
        ensures
            final(self).wf(),
            final(self).queued().len() == 0,
            final(self).lost() == 0,
            final(self).capacity() == old(self).capacity(),
            old(self).gives(r@, ts_ns),
            final(self).upcoming() == old(self).upcoming() + (if old(self).lost() == 0 {
                0int
            } else {
                1
            }),
    {
        let mut out: Vec<AuditEvent> = Vec::new();
        core::mem::swap(&mut out, &mut self.queue);
        let ghost waiting = out@;
        if self.dropped > 0 {
            let mut words = "TRUNCATED dropped=".to_owned();
            words.append(text::decimal_text(self.dropped).as_str());
            let mut marker = AuditEvent::new(self.next_id, AuditKind::Raise, words, ts_ns);
            marker.truncated = true;
            self.next_id = self.next_id + 1;
            out.push(marker);
            self.dropped = 0;
            assert(out@.drop_last() =~= waiting);
        }
        out
    }

    /// How many events wait.
    pub fn len(&self) -> (r: usize)
        ensures
            r == self.queued().len(),
    {
        self.queue.len()
    }

    /// Whether no event waits.
    pub fn is_empty(&self) -> (r: bool)
        ensures
            r == (self.queued().len() == 0),
    {
        self.queue.len() == 0
    }

    /// The number of the next event.
    pub fn upcoming_id(&self) -> (r: u64)
        ensures
            r == self.upcoming(),
    {
        self.next_id
    }

    /// How many events were dropped since the last time that all were taken.
    pub fn dropped(&self) -> (r: u64)
        ensures
            r == self.lost(),
    {
        self.dropped
    }
}

impl Default for AuditHook {
    fn default() -> (r: Self)
        ensures
            r.wf(),
            r.queued().len() == 0,
            r.lost() == 0,
            r.upcoming() == 0,
            r.capacity() == AUDIT_CHANNEL_CAP,
    {
        AuditHook::new()
    }
}

/// Nothing is lost in silence: every event that comes waits or is counted, one of the two.
pub proof fn law_events_wait_or_count(before: AuditHook, after: AuditHook, event: Option<AuditEvent>)
    requires
        before.takes(after, event),
    ensures
        after.queued().len() + after.lost() == before.queued().len() + before.lost() + 1,
        event is None ==> after.queued() == before.queued(),
{
}

/// The log gives no secret away that an event may hold in its target or its location.
pub proof fn law_log_hides_secrets(e: AuditEvent)
    ensures
        json::member(e.output(), "target"@) matches Some(Json::Text(t)) && !secret(t),
        match json::member(e.output(), "location"@) {
            Some(Json::Text(l)) => !secret(l),
            other => other == Some(Json::Null),
        },
{
    reveal_strlit("kind");
    reveal_strlit("target");
    reveal_strlit("location");
    reveal_strlit("truncated");
    assert("kind"@.len() == 4 && "target"@.len() == 6 && "location"@.len() == 8
        && "truncated"@.len() == 9);
    let m0 = Seq::<(Seq<char>, Json)>::empty();
    let m1 = json::inserted(m0, "kind"@, Json::Text(e.kind.name()));
    let m2 = json::inserted(m1, "target"@, Json::Text(blotted(e.target@)));
    let m3 = json::inserted(m2, "location"@, place(e.location));
    json::lemma_lookup_inserted(m3, "truncated"@, Json::Bool(e.truncated), "target"@);
    json::lemma_lookup_inserted(m2, "location"@, place(e.location), "target"@);
    json::lemma_lookup_inserted(m1, "target"@, Json::Text(blotted(e.target@)), "target"@);
    json::lemma_lookup_inserted(m3, "truncated"@, Json::Bool(e.truncated), "location"@);
    json::lemma_lookup_inserted(m2, "location"@, place(e.location), "location"@);
    law_blots_hide(e.target@);
    if let Some(s) = e.location {
        law_blots_hide(s@);
    }
}


// ---------------------------------------------------------------------------
// What holds of events
// ---------------------------------------------------------------------------

/// A text holds a word somewhere, in capitals or not.
pub open spec fn holds_word(s: Seq<char>, word: Seq<char>) -> bool {
    exists|i: int| #[trigger] word_at(s, word, i)
}

/// A word stands at a place of a text, in capitals or not.
pub open spec fn word_at(s: Seq<char>, word: Seq<char>, i: int) -> bool {
    &&& 0 <= i <= s.len() - word.len()
    &&& forall|k: int| 0 <= k < word.len() ==> text::ascii_lower(#[trigger] s[i + k]) == word[k]
}

proof fn lemma_word_at(s: Seq<char>, word: Seq<char>, i: int)
    ensures
        word_at(s, word, i) <==> text::occurs_at(text::folded(s), word, i),
{
    let low = text::folded(s);
    assert(low.len() == s.len());
    if word_at(s, word, i) {
        assert forall|k: int| 0 <= k < word.len() implies low.subrange(i, i + word.len())[k]
            == word[k] by {
            assert(low[i + k] == text::ascii_lower(s[i + k]));
        }
        assert(low.subrange(i, i + word.len()) =~= word);
    }
    if text::occurs_at(low, word, i) {
        assert forall|k: int| 0 <= k < word.len() implies text::ascii_lower(#[trigger] s[i + k])
            == word[k] by {
            assert(low.subrange(i, i + word.len())[k] == low[i + k]);
        }
    }
}

/// A text is secret exactly where it holds one of three words, and is blotted out whole just
/// there; any other text stands as it is.
pub proof fn law_secrets(s: Seq<char>)
    ensures
        secret(s) <==> holds_word(s, "auth_token"@) || holds_word(s, "bearer"@) || holds_word(
            s,
            "api_key"@,
        ),
        secret(s) ==> blotted(s) == "REDACTED"@,
        !secret(s) ==> blotted(s) == s,
{
    assert forall|word: Seq<char>| #[trigger] holds_word(s, word) == text::contains_text(
        text::folded(s),
        word,
    ) by {
        if holds_word(s, word) {
            let i = choose|i: int| #[trigger] word_at(s, word, i);
            lemma_word_at(s, word, i);
        }
        if text::contains_text(text::folded(s), word) {
            let i = choose|i: int| text::occurs_at(text::folded(s), word, i);
            lemma_word_at(s, word, i);
        }
    }
}

/// A text is shown whole where it is no secret and takes up no more bytes than are allowed; a
/// longer one is cut, and says so.
pub proof fn law_shown(t: Seq<char>, n: nat)
    ensures
        secret(t) ==> shown(t, n) == "REDACTED"@,
        !secret(t) && text::byte_length(t) <= n ==> shown(t, n) == t,
        !secret(t) && text::byte_length(t) > n ==> shown(t, n) == text::within(t, n)
            + "...[truncated]"@,
        kept(t) == shown(t, 1024),
{
}

/// What is recorded is kept behind what waits, under the next number, as long as there is room;
/// where there is none it is counted as lost and nothing else changes.
pub proof fn law_recording(
    before: AuditHook,
    after: AuditHook,
    kind: AuditKind,
    target: String,
    ts_ns: u64,
    r: Option<AuditEvent>,
)
    requires
        exists|h: &mut AuditHook|
            *h == before && *final(h) == after && #[trigger] call_ensures(
                AuditHook::record,
                (h, kind, target, ts_ns),
                r,
            ),
        before.upcoming() < u64::MAX,
    ensures
        r is Some <==> before.queued().len() < before.capacity(),
        r is Some ==> after.queued() == before.queued().push(r->0),
        r is Some ==> after.lost() == before.lost() && after.upcoming() == before.upcoming() + 1,
        r is Some ==> (r->0).id == before.upcoming() && (r->0).ts_ns == ts_ns && (r->0).kind == kind,
        r is Some ==> (r->0).location is None && !(r->0).truncated,
        r is Some && secret(target@) ==> (r->0).target@ == "REDACTED"@,
        r is Some && !secret(target@) && text::byte_length(target@) <= 1024 ==> (r->0).target@
            == target@,
        r is None ==> after.queued() == before.queued() && after.lost() == before.lost() + 1,
        r is None ==> after.upcoming() == before.upcoming(),
        after.capacity() == before.capacity(),
{
}

/// A place is recorded with the event, unless it is secret.
pub proof fn law_recording_places(
    before: AuditHook,
    after: AuditHook,
    kind: AuditKind,
    target: String,
    location: String,
    ts_ns: u64,
    r: Option<AuditEvent>,
)
    requires
        exists|h: &mut AuditHook|
            *h == before && *final(h) == after && #[trigger] call_ensures(
                AuditHook::record_with_location,
                (h, kind, target, location, ts_ns),
                r,
            ),
        before.upcoming() < u64::MAX,
    ensures
        r is Some <==> before.queued().len() < before.capacity(),
        r is Some ==> after.queued() == before.queued().push(r->0),
        r is Some ==> after.lost() == before.lost() && after.upcoming() == before.upcoming() + 1,
        r is Some ==> (r->0).id == before.upcoming() && (r->0).ts_ns == ts_ns && (r->0).kind == kind,
        r is Some && !secret(target@) && text::byte_length(target@) <= 1024 ==> (r->0).target@
            == target@,
        r is Some && secret(location@) ==> (r->0).location is Some && ((r->0).location->0)@
            == "REDACTED"@,
        r is Some && !secret(location@) ==> (r->0).location is Some && ((r->0).location->0)@
            == location@,
        r is None ==> after.queued() == before.queued() && after.lost() == before.lost() + 1,
{
}

/// To drain is to take out everything that waits, in order, with one mark behind it that says how
/// many were lost, if any; nothing waits and nothing counts as lost from there on.
pub proof fn law_draining(before: AuditHook, after: AuditHook, ts_ns: u64, r: Vec<AuditEvent>)
    requires
        exists|h: &mut AuditHook|
            *h == before && *final(h) == after && #[trigger] call_ensures(
                AuditHook::drain,
                (h, ts_ns),
                r,
            ),
        before.upcoming() < u64::MAX,
    ensures
        after.queued().len() == 0,
        after.lost() == 0,
        after.capacity() == before.capacity(),
        before.lost() == 0 ==> r@ == before.queued() && after.upcoming() == before.upcoming(),
        before.lost() > 0 ==> r@.len() == before.queued().len() + 1 && r@.drop_last()
            == before.queued() && after.upcoming() == before.upcoming() + 1,
        before.lost() > 0 ==> r@.last().truncated && r@.last().id == before.upcoming()
            && r@.last().ts_ns == ts_ns && r@.last().kind == AuditKind::Raise
            && r@.last().location is None,
        before.lost() > 0 ==> r@.last().target@ == kept(
            "TRUNCATED dropped="@ + text::decimal(before.lost()),
        ),
{
}

/// A new hook has nothing waiting, and room for 512 events unless it is told otherwise.
pub proof fn law_new_hooks(cap: usize, a: AuditHook, b: AuditHook)
    requires
        call_ensures(AuditHook::new, (), a),
        call_ensures(AuditHook::with_capacity, (cap,), b),
    ensures
        a.capacity() == 512,
        b.capacity() == cap,
        a.queued().len() == 0 && b.queued().len() == 0,
        a.lost() == 0 && b.lost() == 0,
        a.upcoming() == 0 && b.upcoming() == 0,
{
}

/// An event is logged under its number and its time; a mark of loss is logged as such.
pub proof fn law_logged_events(e: AuditEvent, w: WalEvent)
    requires
        call_ensures(AuditEvent::to_wal_event, (&e,), w),
    ensures
        w.seq == e.id,
        w.ts == e.ts_ns / 1_000_000_000,
        w.job_id@ == "audit-"@ + text::decimal(e.id as nat),
        e.truncated ==> w.event_type == WalEventType::ObserveTruncated,
        !e.truncated ==> w.event_type == WalEventType::ObserveBatch,
        w.mono_ns == Some(e.ts_ns),
        w.wall_ns == Some(e.ts_ns),
        w.output is Some,
        json::member((w.output->0)@, "kind"@) == Some(Json::Text(e.kind.name())),
        json::member((w.output->0)@, "truncated"@) == Some(Json::Bool(e.truncated)),
        !secret(e.target@) ==> json::member((w.output->0)@, "target"@) == Some(
            Json::Text(e.target@),
        ),
        secret(e.target@) ==> json::member((w.output->0)@, "target"@) == Some(
            Json::Text("REDACTED"@),
        ),
        e.location is None ==> json::member((w.output->0)@, "location"@) == Some(Json::Null),
        e.location is Some && !secret((e.location->0)@) ==> json::member(
            (w.output->0)@,
            "location"@,
        ) == Some(Json::Text((e.location->0)@)),
{
    reveal_strlit("kind");
    reveal_strlit("target");
    reveal_strlit("location");
    reveal_strlit("truncated");
    assert("kind"@.len() == 4 && "target"@.len() == 6);
    assert("location"@.len() == 8 && "truncated"@.len() == 9);
    assert((w.output->0)@ == e.output());
    let none = Seq::<(Seq<char>, Json)>::empty();
    let kind = Json::Text(e.kind.name());
    let target = Json::Text(blotted(e.target@));
    let one = json::inserted(none, "kind"@, kind);
    let two = json::inserted(one, "target"@, target);
    let three = json::inserted(two, "location"@, place(e.location));
    let last = Json::Bool(e.truncated);
    json::law_insertion(none, "kind"@, kind, "target"@);
    json::law_insertion(one, "target"@, target, "kind"@);
    json::law_insertion(two, "location"@, place(e.location), "kind"@);
    json::law_insertion(two, "location"@, place(e.location), "target"@);
    json::law_insertion(three, "truncated"@, last, "kind"@);
    json::law_insertion(three, "truncated"@, last, "target"@);
    json::law_insertion(three, "truncated"@, last, "location"@);
}

/// Each kind of event goes by its own name.
pub proof fn law_kind_names(k: AuditKind)
    ensures
        AuditKind::Import.name() == "Import"@,
        AuditKind::Spawn.name() == "Spawn"@,
        AuditKind::Raise.name() == "Raise"@,
        AuditKind::DynamicLoad.name() == "DynamicLoad"@,
        AuditKind::FileOp.name() == "FileOp"@,
{
}

} // verus!
