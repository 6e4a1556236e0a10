//! The bundle of a run: events in batches, each chained to the one before by its hash.
//!
//! The writer numbers events, fills batches and links them. Turning an event into bytes and the
//! writing itself is the caller's part, and so is reading a bundle back.
use vstd::prelude::*;
use vstd::string::*;

use crate::digest;
use crate::json;
use crate::json::Json;
use crate::json::Num;
use crate::json::Object;
use crate::json::Value;
use crate::telemetry;
use crate::text;
use crate::utils;
use crate::validation::path;
use crate::validation::path::PathContext;
use crate::validation::path::PathFacts;
use crate::validation::path::PathPolicy;
use crate::wal::WalEvent;
use crate::wal::WalEventType;

use super::Clock;

verus! {

broadcast use vstd::string::group_string_axioms;

/// The events that fill a batch.
pub const BATCH_SIZE: usize = 256;

/// Nanoseconds that a batch waits at most.
pub const BATCH_WINDOW_NS: u64 = 100_000_000;

/// Events between checkpoints.
pub const CHECKPOINT_EVENTS: u64 = 1000;

/// Nanoseconds between checkpoints.
pub const CHECKPOINT_INTERVAL_NS: u64 = 5_000_000_000;

// ---------------------------------------------------------------------------
// Paths
// ---------------------------------------------------------------------------

/// The path of the bundle of a run.
pub open spec fn bundle_place(data: Seq<char>, run_id: Seq<char>) -> Seq<char> {
    utils::below(utils::below(data, "bundles"@), run_id + ".jsonl"@)
}

/// The path could be taken for the write-ahead log.
pub open spec fn names_the_log(p: Seq<char>) -> bool {
    text::ends_in(p, "wal.jsonl"@)
}

/// The path of the bundle of a run in a data directory.
pub fn bundle_path(run_id: &str, data: &str) -> (r: String)
    requires
        !names_the_log(run_id@),
        !names_the_log(bundle_place(data@, run_id@)),
    ensures
        r@ == bundle_place(data@, run_id@),
        !names_the_log(r@),
{
    let mut file = run_id.to_owned();
    file.append(".jsonl");
    utils::join(utils::join(data, "bundles").as_str(), file.as_str())
}

/// Whether the bundle of a run could be taken for the write-ahead log.
pub fn bundle_path_refused(run_id: &str, data: &str) -> (r: bool)
    ensures
        r == (names_the_log(run_id@) || names_the_log(bundle_place(data@, run_id@))),
{
    let mut file = run_id.to_owned();
    file.append(".jsonl");
    let p = utils::join(utils::join(data, "bundles").as_str(), file.as_str());
    text::ends_with(run_id, "wal.jsonl") || text::ends_with(p.as_str(), "wal.jsonl")
}

// ---------------------------------------------------------------------------
// Links
// ---------------------------------------------------------------------------

/// Byte strings in a row.
pub open spec fn flat(b: Seq<Seq<u8>>) -> Seq<u8>
    decreases b.len(),
{
    if b.len() == 0 {
        Seq::empty()
    } else {
        flat(b.drop_last()) + b.last()
    }
}

/// The byte strings that vectors hold.
pub open spec fn bytes_of(v: Seq<Vec<u8>>) -> Seq<Seq<u8>> {
    v.map_values(|b: Vec<u8>| b@)
}

/// The hash of a batch: over the hash of the batch before, and the bytes of its events.
pub open spec fn link(before: Seq<char>, encoded: Seq<Seq<u8>>) -> Seq<char> {
    digest::hex_digest(vstd::utf8::encode_utf8(before) + flat(encoded))
}

/// The hash before the first batch.
pub open spec fn genesis() -> Seq<char> {
    Seq::new(64, |i: int| '0')
}

fn first_link() -> (r: String)
    ensures
        r@ == genesis(),
{
    let mut r: String = String::new();
    for i in 0..64usize
        invariant
            r@ == Seq::new(i as nat, |j: int| '0'),
    {
        text::push_char(&mut r, '0');
        assert(r@ =~= Seq::new((i + 1) as nat, |j: int| '0'));
    }
    r
}

fn append_bytes(out: &mut Vec<u8>, b: &[u8])
    ensures
        final(out)@ == old(out)@ + b@,
{
    let ghost before = out@;
    assert(before + b@.take(0) =~= before);
    for i in 0..b.len()
        invariant
            out@ == before + b@.take(i as int),
    {
        out.push(b[i]);
        assert(before + b@.take(i + 1) =~= (before + b@.take(i as int)).push(b@[i as int]));
    }
    assert(b@.take(b@.len() as int) =~= b@);
}

fn link_of(before: &str, encoded: &Vec<Vec<u8>>, from: usize, to: usize) -> (r: String)
    requires
        from <= to <= encoded@.len(),
    ensures
        r@ == link(before@, bytes_of(encoded@).subrange(from as int, to as int)),
        r@.len() == 64,
{
    let ghost all = bytes_of(encoded@);
    let ghost lead = vstd::utf8::encode_utf8(before@);
    let mut input: Vec<u8> = Vec::new();
    append_bytes(&mut input, before.as_bytes());
    assert(all.subrange(from as int, from as int) =~= Seq::<Seq<u8>>::empty());
    assert(input@ =~= lead + flat(Seq::<Seq<u8>>::empty()));
    for i in from..to
        invariant
            from <= to <= encoded@.len(),
            all == bytes_of(encoded@),
            input@ == lead + flat(all.subrange(from as int, i as int)),
    {
        append_bytes(&mut input, encoded[i].as_slice());
        proof {
            let longer = all.subrange(from as int, i + 1);
            assert(longer.drop_last() =~= all.subrange(from as int, i as int));
            assert(longer.last() == encoded@[i as int]@);
            assert(lead + flat(longer) =~= (lead + flat(all.subrange(from as int, i as int)))
                + encoded@[i as int]@);
        }
    }
    digest::hex_digest_of(input.as_slice())
}

// ---------------------------------------------------------------------------
// The writer
// ---------------------------------------------------------------------------

/// Writes the bundle of a run.
#[derive(Debug)]
pub struct BundleWriter {
    path: String,
    batch: Vec<WalEvent>,
    prev_hash: String,
    event_count: u64,
    next_seq: u64,
    last_flush_ns: u64,
    last_checkpoint: (u64, u64),
    dropped: u64,
}

/// An event with its number, and with the clocks where it has no times of its own.
pub open spec fn placed(e: WalEvent, seq: u64, clock: Clock) -> WalEvent {
    WalEvent {
        seq,
        mono_ns: if e.mono_ns is Some {
            e.mono_ns
        } else {
            Some(clock.mono_ns)
        },
        wall_ns: if e.wall_ns is Some {
            e.wall_ns
        } else {
            Some(clock.wall_ns)
        },
        ..e
    }
}

/// Events with the hash of their batch.
pub open spec fn stamped(events: Seq<WalEvent>, hash: String) -> Seq<WalEvent> {
    events.map_values(|e: WalEvent| WalEvent { bundle_hash: Some(hash), ..e })
}

/// What the log says of events that were dropped.
pub open spec fn drop_output(lost: nat) -> Json {
    Json::Object(
        json::inserted(Seq::empty(), "dropped"@, Json::Number(Num::PosInt(lost as u64))),
    )
}

/// The marker for dropped events, with the hash of its batch or without one.
pub open spec fn is_drop_marker(
    e: WalEvent,
    seq: int,
    lost: nat,
    clock: Clock,
    hash: Option<String>,
) -> bool {
    &&& e.seq == seq
    &&& e.ts == clock.secs
    &&& e.event_type == WalEventType::ObserveTruncated
    &&& e.job_id@ == "bundle"@
    &&& json::option_view(e.output) == Some(drop_output(lost))
    &&& e.bundle_hash == hash
    &&& e.mono_ns == Some(clock.mono_ns)
    &&& e.wall_ns == Some(clock.wall_ns)
    &&& (WalEvent { output: None, bundle_hash: None, mono_ns: None, wall_ns: None, ..e }).bare()
}

/// The number after those of some events.
pub open spec fn next_after(events: Seq<WalEvent>) -> nat
    decreases events.len(),
{
    if events.len() == 0 {
        0
    } else {
        let rest = next_after(events.drop_last());
        let own = (events.last().seq + 1) as nat;
        if own > rest {
            own
        } else {
            rest
        }
    }
}

fn next_seq_after(events: &Vec<WalEvent>) -> (r: u64)
    requires
        forall|i: int| 0 <= i < events@.len() ==> (#[trigger] events@[i]).seq < u64::MAX,
    ensures
        r == next_after(events@),
{
    let ghost all = events@;
    let mut r: u64 = 0;
    assert(all.take(0) =~= Seq::<WalEvent>::empty());
    for i in 0..events.len()
        invariant
            all == events@,
            forall|j: int| 0 <= j < all.len() ==> (#[trigger] all[j]).seq < u64::MAX,
            r == next_after(all.take(i as int)),
    {
        assert(all.take(i + 1).drop_last() =~= all.take(i as int));
        assert(all[i as int].seq < u64::MAX);
        let own = events[i].seq + 1;
        if own > r {
            r = own;
        }
    }
    assert(all.take(all.len() as int) =~= all);
    r
}

impl BundleWriter {
    /// The path of the bundle.
    pub closed spec fn place(self) -> Seq<char> {
        self.path@
    }

    /// The events that wait for their batch to be written.
    pub closed spec fn waiting(self) -> Seq<WalEvent> {
        self.batch@
    }

    /// The hash of the last batch.
    pub closed spec fn last_link(self) -> Seq<char> {
        self.prev_hash@
    }

    /// How many events there were.
    pub closed spec fn count(self) -> int {
        self.event_count as int
    }

    /// The number of the next event.
    pub closed spec fn upcoming(self) -> int {
        self.next_seq as int
    }

    /// How many events were dropped and not yet marked.
    pub closed spec fn lost(self) -> nat {
        self.dropped as nat
    }

    /// When the last batch was written.
    pub closed spec fn flushed_at(self) -> int {
        self.last_flush_ns as int
    }

    /// How many events there were at the last checkpoint, and when that was.
    pub closed spec fn checkpointed_at(self) -> (int, int) {
        (self.last_checkpoint.0 as int, self.last_checkpoint.1 as int)
    }

    /// The events that wait are numbered in a row, up to the next number.
    pub open spec fn wf(self) -> bool {
        &&& self.waiting().len() <= self.upcoming()
        &&& forall|i: int|
            0 <= i < self.waiting().len() ==> (#[trigger] self.waiting()[i]).seq == self.upcoming()
                - self.waiting().len() + i
    }

    /// Another event can be numbered and counted.
    pub open spec fn roomy(self) -> bool {
        self.upcoming() < u64::MAX && self.count() < u64::MAX
    }

    /// Whether another event can be numbered and counted.
    pub fn has_room(&self) -> (r: bool)
        ensures
            r == self.roomy(),
    {
        self.next_seq < u64::MAX && self.event_count < u64::MAX
    }

    /// A writer at the start of a bundle that already holds some events.
    pub open spec fn fresh(self, place: Seq<char>, held: Seq<WalEvent>, now_ns: u64) -> bool {
        &&& self.wf()
        &&& self.place() == place
        &&& self.waiting().len() == 0
        &&& self.last_link() == genesis()
        &&& self.count() == next_after(held)
        &&& self.upcoming() == next_after(held)
        &&& self.lost() == 0
        &&& self.flushed_at() == now_ns
        &&& self.checkpointed_at() == (next_after(held) as int, now_ns as int)
    }

    fn start(path: String, held: &Vec<WalEvent>, now_ns: u64) -> (r: BundleWriter)
        requires
            forall|i: int| 0 <= i < held@.len() ==> (#[trigger] held@[i]).seq < u64::MAX,
        ensures
            r.fresh(path@, held@, now_ns),
    {
        let next_seq = next_seq_after(held);
        BundleWriter {
            path,
            batch: Vec::new(),
            prev_hash: first_link(),
            event_count: next_seq,
            next_seq,
            last_flush_ns: now_ns,
            last_checkpoint: (next_seq, now_ns),
            dropped: 0,
        }
    }

    /// A writer for a run. `held` are the events that the bundle already holds.
    pub fn create(
        run_id: &str,
        data: &str,
        policy: &PathPolicy,
        facts: &PathFacts,
        held: &Vec<WalEvent>,
        now_ns: u64,
    ) -> (r: Result<BundleWriter, String>)
        requires
            !names_the_log(run_id@),
            !names_the_log(bundle_place(data@, run_id@)),
            forall|i: int| 0 <= i < held@.len() ==> (#[trigger] held@[i]).seq < u64::MAX,
        ensures
            match path::judged(
                bundle_place(data@, run_id@),
                seq![data@],
                false,
                false,
                *policy,
                *facts,
            ) {
                Ok(_) => r matches Ok(w) && w.fresh(bundle_place(data@, run_id@), held@, now_ns),
                Err(e) => r matches Err(m) && m@ == "bundle path invalid: "@ + e,
            },
    {
        let path = bundle_path(run_id, data);
        let mut allowed: Vec<String> = Vec::new();
        allowed.push(data.to_owned());
        assert(text::texts(allowed@) =~= seq![data@]);
        let ctx = PathContext {
            allowed_prefixes: allowed,
            require_exists: false,
            require_file: false,
        };
        match path::validate_path(path.as_str(), &ctx, policy, facts) {
            Ok(_) => Ok(BundleWriter::start(path, held, now_ns)),
            Err(e) => {
                let mut m = "bundle path invalid: ".to_owned();
                m.append(e.as_str());
                Err(m)
            },
        }
    }

    /// A writer at a path in the data directory or the directory for temporary files.
    pub fn create_at(
        path: &str,
        data: &str,
        temporary: &str,
        policy: &PathPolicy,
        facts: &PathFacts,
        held: &Vec<WalEvent>,
        now_ns: u64,
    ) -> (r: Result<BundleWriter, String>)
        requires
            !names_the_log(path@),
            forall|i: int| 0 <= i < held@.len() ==> (#[trigger] held@[i]).seq < u64::MAX,
        ensures
            match path::judged(path@, seq![data@, temporary@], false, false, *policy, *facts) {
                Ok(_) => r matches Ok(w) && w.fresh(path@, held@, now_ns),
                Err(e) => r matches Err(m) && m@ == "bundle path invalid: "@ + e,
            },
    {
        let mut allowed: Vec<String> = Vec::new();
        allowed.push(data.to_owned());
        allowed.push(temporary.to_owned());
        assert(text::texts(allowed@) =~= seq![data@, temporary@]);
        let ctx = PathContext {
            allowed_prefixes: allowed,
            require_exists: false,
            require_file: false,
        };
        match path::validate_path(path, &ctx, policy, facts) {
            Ok(_) => Ok(BundleWriter::start(path.to_owned(), held, now_ns)),
            Err(e) => {
                let mut m = "bundle path invalid: ".to_owned();
                m.append(e.as_str());
                Err(m)
            },
        }
    }

    /// The path of the bundle.
    pub fn path(&self) -> (r: &str)
        ensures
            r@ == self.place(),
    {
        self.path.as_str()
    }

    /// How many events were dropped and not yet marked.
    pub fn dropped(&self) -> (r: u64)
        ensures
            r == self.lost(),
    {
        self.dropped
    }

    /// The events that wait for their batch to be written.
    pub fn pending(&self) -> (r: &Vec<WalEvent>)
        ensures
            r@ == self.waiting(),
    {
        &self.batch
    }

    /// What does not change while events are taken in.
    pub open spec fn same_record(self, other: BundleWriter) -> bool {
        &&& self.place() == other.place()
        &&& self.last_link() == other.last_link()
        &&& self.flushed_at() == other.flushed_at()
        &&& self.checkpointed_at() == other.checkpointed_at()
    }

    /// Numbers an event and adds it to the batch. Tells whether the batch is full and is to be
    /// written now.
    pub fn append(&mut self, event: WalEvent, clock: Clock) -> (r: bool)
        requires
            old(self).wf(),
            old(self).roomy(),
        ensures
            final(self).wf(),
            final(self).waiting() == old(self).waiting().push(
                placed(event, old(self).upcoming() as u64, clock),
            ),
            final(self).upcoming() == old(self).upcoming() + 1,
            final(self).count() == old(self).count() + 1,
            final(self).lost() == old(self).lost(),
            final(self).same_record(*old(self)),
            r == (final(self).waiting().len() >= BATCH_SIZE),
    {
        let mut e = event;
        e.seq = self.next_seq;
        self.next_seq = self.next_seq + 1;
        if e.mono_ns.is_none() {
            e.mono_ns = Some(clock.mono_ns);
        }
        if e.wall_ns.is_none() {
            e.wall_ns = Some(clock.wall_ns);
        }
        self.batch.push(e);
        self.event_count = self.event_count + 1;
        self.batch.len() >= BATCH_SIZE
    }

    /// Whether the batch has waited for 100 milliseconds and is to be written now.
    pub fn maybe_flush_time(&self, now_ns: u64) -> (r: bool)
        ensures
            r == (self.waiting().len() > 0 && now_ns - self.flushed_at() >= BATCH_WINDOW_NS),
    {
        self.batch.len() > 0 && now_ns >= self.last_flush_ns && now_ns - self.last_flush_ns
            >= BATCH_WINDOW_NS
    }

    /// Counts an event that was dropped. A marker follows with the next batch, or alone where no
    /// event waits.
    pub fn record_drop(&mut self)
        requires
            old(self).lost() < u64::MAX,
        ensures
            final(self).lost() == old(self).lost() + 1,
            final(self).waiting() == old(self).waiting(),
            final(self).upcoming() == old(self).upcoming(),
            final(self).count() == old(self).count(),
            final(self).same_record(*old(self)),
    {
        self.dropped = self.dropped + 1;
    }

    /// The marker for what was dropped is all that there is to write.
    pub open spec fn marks_alone(self) -> bool {
        self.waiting().len() == 0 && self.lost() > 0
    }

    /// How many events the hash of the batch is over: those that wait, or the marker where it is
    /// written alone.
    pub open spec fn due(self) -> nat {
        if self.marks_alone() {
            1
        } else {
            self.waiting().len()
        }
    }

    fn marker(&self, clock: Clock) -> (r: WalEvent)
        ensures
            is_drop_marker(r, self.upcoming(), self.lost(), clock, None),
    {
        let mut m = WalEvent::default();
        m.seq = self.next_seq;
        m.ts = clock.secs;
        m.event_type = WalEventType::ObserveTruncated;
        m.job_id = "bundle".to_owned();
        m.output = Some(
            Value::Object(
                Object::new().with("dropped".to_owned(), Value::from_natural(self.dropped)),
            ),
        );
        m.mono_ns = Some(clock.mono_ns);
        m.wall_ns = Some(clock.wall_ns);
        m
    }

    /// The marker for what was dropped, where it is written alone. Its hash is over itself, so its
    /// bytes are needed before the batch is closed.
    pub fn lone_marker(&self, clock: Clock) -> (r: Option<WalEvent>)
        ensures
            match r {
                Some(m) => self.marks_alone() && is_drop_marker(
                    m,
                    self.upcoming(),
                    self.lost(),
                    clock,
                    None,
                ),
                None => !self.marks_alone(),
            },
    {
        if self.batch.len() == 0 && self.dropped > 0 {
            Some(self.marker(clock))
        } else {
            None
        }
    }

    /// What closing the batch comes to.
    pub open spec fn seals(
        self,
        after: BundleWriter,
        encoded: Seq<Seq<u8>>,
        clock: Clock,
        hash: String,
    ) -> bool {
        &&& self.due() > 0
        &&& hash@ == link(self.last_link(), encoded)
        &&& hash@.len() == 64
        &&& after.lost() == 0
        &&& if self.lost() == 0 {
            &&& after.waiting() == stamped(self.waiting(), hash)
            &&& after.upcoming() == self.upcoming()
            &&& after.count() == self.count()
        } else {
            &&& after.waiting().len() == self.waiting().len() + 1
            &&& after.waiting().drop_last() == stamped(self.waiting(), hash)
            &&& is_drop_marker(
                after.waiting().last(),
                self.upcoming(),
                self.lost(),
                clock,
                Some(hash),
            )
            &&& after.upcoming() == self.upcoming() + 1
            &&& after.count() == self.count() + 1
        }
    }

    /// Closes the batch: every event gets the hash of the batch, and a marker for what was dropped
    /// comes last. `encoded` are the bytes of the events as they wait, or of the marker for the same
    /// `clock` where it is written alone. Gives the hash, or nothing where no event waits and none
    /// was dropped.
    pub fn flush_batch(&mut self, encoded: &Vec<Vec<u8>>, clock: Clock) -> (r: Option<String>)
        requires
            old(self).wf(),
            old(self).roomy(),
            encoded@.len() == old(self).due(),
        ensures
            final(self).wf(),
            final(self).same_record(*old(self)),
            match r {
                None => old(self).waiting().len() == 0 && old(self).lost() == 0 && *final(self)
                    == *old(self),
                Some(hash) => old(self).seals(*final(self), bytes_of(encoded@), clock, hash),
            },
    {
        if self.batch.len() == 0 && self.dropped == 0 {
            return None;
        }
        let hash = link_of(self.prev_hash.as_str(), encoded, 0, encoded.len());
        assert(bytes_of(encoded@).subrange(0, encoded@.len() as int) =~= bytes_of(encoded@));
        let ghost before = self.batch@;
        let mut marker = self.marker(clock);
        let mut batch: Vec<WalEvent> = Vec::new();
        core::mem::swap(&mut batch, &mut self.batch);
        let n = batch.len();
        for i in 0..n
            invariant
                n == before.len(),
                batch@.len() == n,
                forall|j: int|
                    0 <= j < i ==> #[trigger] batch@[j] == (WalEvent {
                        bundle_hash: Some(hash),
                        ..before[j]
                    }),
                forall|j: int| i <= j < before.len() ==> #[trigger] batch@[j] == before[j],
        {
            batch[i].bundle_hash = Some(hash.clone());
        }
        assert(batch@ =~= stamped(before, hash));
        let ghost sealed = batch@;
        if self.dropped > 0 {
            marker.bundle_hash = Some(hash.clone());
            self.next_seq = self.next_seq + 1;
            self.event_count = self.event_count + 1;
            batch.push(marker);
            assert(batch@.drop_last() =~= sealed);
            self.dropped = 0;
        }
        self.batch = batch;
        Some(hash)
    }

    /// Notes that the closed batch was written, at the time `now_ns`.
    pub fn flushed(&mut self, hash: String, now_ns: u64)
        ensures
            final(self).wf(),
            final(self).waiting().len() == 0,
            final(self).last_link() == hash@,
            final(self).flushed_at() == now_ns,
            final(self).place() == old(self).place(),
            final(self).upcoming() == old(self).upcoming(),
            final(self).count() == old(self).count(),
            final(self).lost() == old(self).lost(),
            final(self).checkpointed_at() == old(self).checkpointed_at(),
    {
        self.prev_hash = hash;
        self.batch = Vec::new();
        self.last_flush_ns = now_ns;
    }

    /// Whether a checkpoint is due: after 1000 events, or after five seconds.
    pub fn maybe_checkpoint(&self, now_ns: u64) -> (r: bool)
        ensures
            r == (self.count() - self.checkpointed_at().0 >= CHECKPOINT_EVENTS || now_ns
                - self.checkpointed_at().1 >= CHECKPOINT_INTERVAL_NS),
    {
        let events = self.event_count >= self.last_checkpoint.0 && self.event_count
            - self.last_checkpoint.0 >= CHECKPOINT_EVENTS;
        let time = now_ns >= self.last_checkpoint.1 && now_ns - self.last_checkpoint.1
            >= CHECKPOINT_INTERVAL_NS;
        events || time
    }

    /// The path of the checkpoint of a bundle.
    pub fn checkpoint_path(path: &str) -> (r: String)
        ensures
            r@ == path@ + ".checkpoint"@,
    {
        let mut r = path.to_owned();
        r.append(".checkpoint");
        r
    }

    /// The checkpoint: where it is written and what it says.
    pub fn checkpoint(&self) -> (r: (String, String))
        ensures
            r.0@ == self.place() + ".checkpoint"@,
            r.1@ == text::decimal(self.count() as nat) + " "@ + self.last_link() + "\n"@,
    {
        let mut content = text::decimal_text(self.event_count);
        content.append(" ");
        content.append(self.prev_hash.as_str());
        content.append("\n");
        (BundleWriter::checkpoint_path(self.path.as_str()), content)
    }

    /// Notes that the checkpoint was written.
    pub fn checkpointed(&mut self, now_ns: u64)
        ensures
            final(self).checkpointed_at() == (old(self).count(), now_ns as int),
            final(self).wf() == old(self).wf(),
            final(self).waiting() == old(self).waiting(),
            final(self).last_link() == old(self).last_link(),
            final(self).flushed_at() == old(self).flushed_at(),
            final(self).place() == old(self).place(),
            final(self).upcoming() == old(self).upcoming(),
            final(self).count() == old(self).count(),
            final(self).lost() == old(self).lost(),
    {
        self.last_checkpoint = (self.event_count, now_ns);
    }
}

// ---------------------------------------------------------------------------
// Reading back
// ---------------------------------------------------------------------------

/// What a check of a bundle found.
#[derive(Debug)]
pub struct VerifyResult {
    pub total: usize,
    /// How often a number does not follow on the one before.
    pub truncated_gaps: usize,
    /// The hashes follow from one another.
    pub hash_ok: bool,
    pub error: Option<String>,
}

/// A bundle as it is read: its events, and the bytes of each with its hash left out.
#[derive(Debug)]
pub struct BundleContent {
    pub events: Vec<WalEvent>,
    pub encoded: Vec<Vec<u8>>,
}

/// How often a number does not follow on the one before.
pub open spec fn gaps(events: Seq<WalEvent>) -> nat
    decreases events.len(),
{
    if events.len() < 2 {
        0
    } else if events[events.len() - 1].seq != events[events.len() - 2].seq + 1 {
        gaps(events.drop_last()) + 1
    } else {
        gaps(events.drop_last())
    }
}

/// The hash that an event bears.
pub open spec fn hash_of(e: WalEvent) -> Option<Seq<char>> {
    telemetry::text_view(e.bundle_hash)
}

/// An event that speaks of dropped events.
pub open spec fn drop_note(e: WalEvent) -> bool {
    &&& e.event_type == WalEventType::ObserveTruncated
    &&& match json::option_view(e.output) {
        Some(v) => json::member(v, "dropped"@) is Some,
        None => false,
    }
}

/// How many events bear the hash `h` before one bears another.
pub open spec fn lead(events: Seq<WalEvent>, h: Seq<char>) -> nat
    decreases events.len(),
{
    if events.len() > 0 && hash_of(events[0]) == Some(h) {
        1 + lead(events.skip(1), h)
    } else {
        0
    }
}

/// No more events bear a hash than there are.
pub proof fn lemma_lead_bound(events: Seq<WalEvent>, h: Seq<char>)
    ensures
        lead(events, h) <= events.len(),
    decreases events.len(),
{
    if events.len() > 0 && hash_of(events[0]) == Some(h) {
        lemma_lead_bound(events.skip(1), h);
    }
}

/// How many of the events that bear the hash `h` the hash is over: all but a note of dropped ones
/// at their end.
pub open spec fn hashed(events: Seq<WalEvent>, h: Seq<char>) -> nat {
    let n = lead(events, h);
    if n > 1 && drop_note(events[n - 1]) {
        (n - 1) as nat
    } else {
        n
    }
}

/// The hashes that events bear follow from one another. An event without a hash is passed over, and
/// so is one with an empty hash.
pub open spec fn chained(events: Seq<WalEvent>, encoded: Seq<Seq<u8>>, before: Seq<char>) -> bool
    decreases events.len(),
{
    if events.len() == 0 {
        true
    } else {
        match hash_of(events[0]) {
            None => chained(events.skip(1), encoded.skip(1), before),
            Some(h) => {
                let n = lead(events, h) as int;
                proof {
                    lemma_lead_bound(events, h);
                }
                &&& h.len() == 0 || link(before, encoded.take(hashed(events, h) as int)) == h
                &&& chained(
                    events.skip(n),
                    encoded.skip(n),
                    if h.len() == 0 {
                        before
                    } else {
                        h
                    },
                )
            },
        }
    }
}

fn count_gaps(events: &Vec<WalEvent>) -> (r: usize)
    ensures
        r == gaps(events@),
{
    let ghost all = events@;
    let mut n: usize = 0;
    let mut i: usize = 1;
    if events.len() == 0 {
        return 0;
    }
    assert(gaps(all.take(1)) == 0);
    while i < events.len()
        invariant
            all == events@,
            1 <= i <= all.len(),
            n == gaps(all.take(i as int)),
            n < i,
        decreases all.len() - i,
    {
        assert(all.take(i + 1).drop_last() =~= all.take(i as int));
        if events[i - 1].seq == u64::MAX || events[i].seq != events[i - 1].seq + 1 {
            n = n + 1;
        }
        i = i + 1;
    }
    assert(all.take(all.len() as int) =~= all);
    n
}

fn notes_drops(e: &WalEvent) -> (r: bool)
    ensures
        r == drop_note(*e),
{
    if !matches!(e.event_type, WalEventType::ObserveTruncated) {
        return false;
    }
    match &e.output {
        Some(v) => v.get("dropped").is_some(),
        None => false,
    }
}

fn bears(e: &WalEvent, h: &str) -> (r: bool)
    ensures
        r == (hash_of(*e) == Some(h@)),
{
    match &e.bundle_hash {
        Some(x) => text::same(x.as_str(), h),
        None => false,
    }
}

fn check_chain(events: &Vec<WalEvent>, encoded: &Vec<Vec<u8>>) -> (r: bool)
    requires
        encoded@.len() == events@.len(),
    ensures
        r == chained(events@, bytes_of(encoded@), genesis()),
{
    let ghost all = events@;
    let ghost enc = bytes_of(encoded@);
    let mut ok = true;
    let mut prev = first_link();
    let mut idx: usize = 0;
    assert(all.skip(0) =~= all);
    assert(enc.skip(0) =~= enc);
    while idx < events.len()
        invariant
            all == events@,
            enc == bytes_of(encoded@),
            encoded@.len() == all.len(),
            idx <= all.len(),
            chained(all, enc, genesis()) == (ok && chained(
                all.skip(idx as int),
                enc.skip(idx as int),
                prev@,
            )),
        decreases all.len() - idx,
    {
        let ghost rest = all.skip(idx as int);
        assert(rest[0] == all[idx as int]);
        match &events[idx].bundle_hash {
            None => {
                assert(rest.skip(1) =~= all.skip(idx + 1));
                assert(enc.skip(idx as int).skip(1) =~= enc.skip(idx + 1));
                idx = idx + 1;
            },
            Some(current) => {
                let mut end = idx;
                while end < events.len() && bears(&events[end], current.as_str())
                    invariant
                        all == events@,
                        idx <= end <= all.len(),
                        rest == all.skip(idx as int),
                        lead(rest, current@) == (end - idx) + lead(all.skip(end as int), current@),
                    decreases all.len() - end,
                {
                    assert(all.skip(end as int).skip(1) =~= all.skip(end + 1));
                    end = end + 1;
                }
                proof {
                    assert(lead(all.skip(end as int), current@) == 0);
                    assert(lead(rest, current@) == end - idx);
                    assert(end > idx);
                }
                let trailing = end - idx > 1 && notes_drops(&events[end - 1]);
                let hash_end = if trailing {
                    end - 1
                } else {
                    end
                };
                assert(rest[end - idx - 1] == all[end - 1]);
                assert(hashed(rest, current@) == hash_end - idx);
                assert(enc.skip(idx as int).take(hash_end - idx) =~= enc.subrange(
                    idx as int,
                    hash_end as int,
                ));
                assert(rest.skip(end - idx) =~= all.skip(end as int));
                assert(enc.skip(idx as int).skip(end - idx) =~= enc.skip(end as int));
                if !current.as_str().is_empty() {
                    let computed = link_of(prev.as_str(), encoded, idx, hash_end);
                    if !text::same(computed.as_str(), current.as_str()) {
                        ok = false;
                    }
                    prev = current.clone();
                }
                idx = end;
            },
        }
    }
    assert(all.skip(all.len() as int) =~= Seq::<WalEvent>::empty());
    ok
}

/// An event as it was when its batch was closed: the hash is over the bytes of the event without it.
pub fn without_hash(e: WalEvent) -> (r: WalEvent)
    ensures
        r == (WalEvent { bundle_hash: None, ..e }),
{
    let mut r = e;
    r.bundle_hash = None;
    r
}

/// Checks a bundle that was read, or says why it could not be.
pub fn verify_bundle(read: &Result<BundleContent, String>) -> (r: VerifyResult)
    requires
        read matches Ok(c) ==> c.encoded@.len() == c.events@.len(),
    ensures
        match *read {
            Ok(c) => {
                &&& r.total == c.events@.len()
                &&& r.truncated_gaps == gaps(c.events@)
                &&& r.hash_ok == chained(c.events@, bytes_of(c.encoded@), genesis())
                &&& r.error is None
            },
            Err(e) => {
                &&& r.total == 0
                &&& r.truncated_gaps == 0
                &&& !r.hash_ok
                &&& telemetry::text_view(r.error) == Some("read failed: "@ + e@)
            },
        },
{
    match read {
        Ok(c) => VerifyResult {
            total: c.events.len(),
            truncated_gaps: count_gaps(&c.events),
            hash_ok: check_chain(&c.events, &c.encoded),
            error: None,
        },
        Err(e) => {
            let mut m = "read failed: ".to_owned();
            m.append(e.as_str());
            VerifyResult { total: 0, truncated_gaps: 0, hash_ok: false, error: Some(m) }
        },
    }
}

// ---------------------------------------------------------------------------
// What holds of a bundle that was written
// ---------------------------------------------------------------------------

/// A batch as it was written: its events as they waited, their bytes, the marker for dropped events
/// with its own bytes, and the hash.
pub ghost struct Batch {
    pub events: Seq<WalEvent>,
    pub encoded: Seq<Seq<u8>>,
    pub marker: Option<(WalEvent, Seq<u8>)>,
    pub hash: String,
}

impl Batch {
    /// The events as they stand in the bundle.
    pub open spec fn written(self) -> Seq<WalEvent> {
        match self.marker {
            Some(m) => stamped(self.events, self.hash).push(m.0),
            None => stamped(self.events, self.hash),
        }
    }

    /// The bytes of the events with their hashes left out.
    pub open spec fn bytes(self) -> Seq<Seq<u8>> {
        match self.marker {
            Some(m) => self.encoded.push(m.1),
            None => self.encoded,
        }
    }

    /// The batch is one that the writer closes after the hash `before`, and no event of it is taken
    /// for a marker.
    pub open spec fn closes(self, before: Seq<char>) -> bool {
        &&& self.events.len() > 0
        &&& self.encoded.len() == self.events.len()
        &&& self.hash@ == link(before, self.encoded)
        &&& self.hash@.len() == 64
        &&& match self.marker {
            Some(m) => drop_note(m.0) && m.0.bundle_hash == Some(self.hash),
            None => self.events.len() == 1 || !drop_note(self.events.last()),
        }
    }
}

/// The batch that closing one makes. A marker that is written alone is an event of its own batch.
pub open spec fn closed_batch(
    before: BundleWriter,
    after: BundleWriter,
    encoded: Seq<Seq<u8>>,
    hash: String,
    marker_bytes: Seq<u8>,
) -> Batch {
    let last = after.waiting().last();
    if before.marks_alone() {
        Batch {
            events: seq![WalEvent { bundle_hash: None, ..last }],
            encoded,
            marker: None,
            hash,
        }
    } else {
        Batch {
            events: before.waiting(),
            encoded,
            marker: if before.lost() == 0 {
                None
            } else {
                Some((last, marker_bytes))
            },
            hash,
        }
    }
}

/// Closing a batch makes one that fits into a run, if no event of it is taken for a marker, and what
/// then waits is what it writes.
pub proof fn law_flush_closes(
    before: BundleWriter,
    after: BundleWriter,
    encoded: Seq<Seq<u8>>,
    clock: Clock,
    hash: String,
    marker_bytes: Seq<u8>,
)
    requires
        before.seals(after, encoded, clock, hash),
        encoded.len() == before.due(),
        before.lost() > 0 || before.waiting().len() == 1 || !drop_note(before.waiting().last()),
    ensures
        closed_batch(before, after, encoded, hash, marker_bytes).closes(before.last_link()),
        closed_batch(before, after, encoded, hash, marker_bytes).written() == after.waiting(),
{
    if before.lost() > 0 {
        let m = after.waiting().last();
        law_drops_are_marked(before, after, encoded, clock, hash);
        assert(stamped(before.waiting(), hash).push(m) =~= after.waiting());
        if before.marks_alone() {
            let alone = seq![WalEvent { bundle_hash: None, ..m }];
            assert(stamped(alone, hash) =~= after.waiting());
        }
    }
}

/// What was dropped is never passed over: closing the batch puts a marker last that says how many
/// events are missing, also where no event waits, and then nothing is left to be marked.
pub proof fn law_drops_are_marked(
    before: BundleWriter,
    after: BundleWriter,
    encoded: Seq<Seq<u8>>,
    clock: Clock,
    hash: String,
)
    requires
        before.seals(after, encoded, clock, hash),
        before.lost() > 0,
    ensures
        after.waiting().len() > 0,
        drop_note(after.waiting().last()),
        after.waiting().last().seq == before.upcoming(),
        json::option_view(after.waiting().last().output) == Some(drop_output(before.lost())),
        after.lost() == 0,
{
    json::lemma_lookup_inserted(
        Seq::empty(),
        "dropped"@,
        Json::Number(Num::PosInt(before.lost() as u64)),
        "dropped"@,
    );
}

/// Batches that were written one after another, each with another hash than the one before.
pub open spec fn run_of(batches: Seq<Batch>, before: Seq<char>) -> bool
    decreases batches.len(),
{
    batches.len() > 0 ==> {
        &&& batches[0].closes(before)
        &&& batches.len() > 1 ==> batches[1].hash@ != batches[0].hash@
        &&& run_of(batches.skip(1), batches[0].hash@)
    }
}

/// The events of batches in a row.
pub open spec fn all_written(batches: Seq<Batch>) -> Seq<WalEvent>
    decreases batches.len(),
{
    if batches.len() == 0 {
        Seq::empty()
    } else {
        batches[0].written() + all_written(batches.skip(1))
    }
}

/// The bytes of the events of batches in a row.
pub open spec fn all_bytes(batches: Seq<Batch>) -> Seq<Seq<u8>>
    decreases batches.len(),
{
    if batches.len() == 0 {
        Seq::empty()
    } else {
        batches[0].bytes() + all_bytes(batches.skip(1))
    }
}

proof fn lemma_lead_of_group(group: Seq<WalEvent>, rest: Seq<WalEvent>, h: Seq<char>)
    requires
        forall|i: int| 0 <= i < group.len() ==> hash_of(#[trigger] group[i]) == Some(h),
        rest.len() > 0 ==> hash_of(rest[0]) != Some(h),
    ensures
        lead(group + rest, h) == group.len(),
    decreases group.len(),
{
    if group.len() == 0 {
        assert(group + rest =~= rest);
    } else {
        assert((group + rest).skip(1) =~= group.skip(1) + rest);
        assert forall|i: int| 0 <= i < group.skip(1).len() implies hash_of(
            #[trigger] group.skip(1)[i],
        ) == Some(h) by {
            assert(group.skip(1)[i] == group[i + 1]);
        }
        assert(hash_of(group[0]) == Some(h));
        assert((group + rest)[0] == group[0]);
        lemma_lead_of_group(group.skip(1), rest, h);
    }
}

proof fn lemma_written_first(batches: Seq<Batch>, before: Seq<char>)
    requires
        run_of(batches, before),
        batches.len() > 0,
    ensures
        all_written(batches).len() > 0,
        hash_of(all_written(batches)[0]) == Some(batches[0].hash@),
{
    let w = batches[0].written();
    assert(w[0] == stamped(batches[0].events, batches[0].hash)[0]);
    assert(all_written(batches)[0] == w[0]);
}

/// A bundle that was written is found in order when it is read back.
///
/// It is left out that an event with the note of a marker stands last in a batch without one, and
/// that two batches in a row have the same hash: there the check goes astray.
pub proof fn law_written_bundle_checks(batches: Seq<Batch>, before: Seq<char>)
    requires
        run_of(batches, before),
    ensures
        chained(all_written(batches), all_bytes(batches), before),
    decreases batches.len(),
{
    if batches.len() > 0 {
        let b = batches[0];
        let rest = all_written(batches.skip(1));
        let rest_bytes = all_bytes(batches.skip(1));
        let all = all_written(batches);
        let bytes = all_bytes(batches);
        let group = b.written();
        let h = b.hash@;
        law_written_bundle_checks(batches.skip(1), h);
        assert forall|i: int| 0 <= i < group.len() implies hash_of(#[trigger] group[i]) == Some(
            h,
        ) by {
            if i < b.events.len() {
                assert(group[i] == stamped(b.events, b.hash)[i]);
            }
        }
        if rest.len() > 0 {
            assert(batches.len() > 1) by {
                if batches.len() == 1 {
                    assert(batches.skip(1).len() == 0);
                }
            }
            lemma_written_first(batches.skip(1), h);
            assert(batches.skip(1)[0] == batches[1]);
        }
        lemma_lead_of_group(group, rest, h);
        let n = group.len() as int;
        assert(all[0] == group[0]);
        assert(hash_of(all[0]) == Some(h));
        assert(all[n - 1] == group[n - 1]);
        match b.marker {
            Some(m) => {
                assert(group[n - 1] == m.0);
                assert(hashed(all, h) == b.events.len());
                assert(bytes.take(b.events.len() as int) =~= b.encoded);
            },
            None => {
                assert(group[n - 1] == stamped(b.events, b.hash)[n - 1]);
                assert(drop_note(group[n - 1]) == drop_note(b.events.last()));
                assert(hashed(all, h) == n);
                assert(bytes.take(n) =~= b.encoded);
            },
        }
        assert(all.skip(n) =~= rest);
        assert(bytes.skip(n) =~= rest_bytes);
    }
}

/// What the hashes of a bundle are over, batch by batch.
pub open spec fn covered(events: Seq<WalEvent>, encoded: Seq<Seq<u8>>) -> Seq<Seq<u8>>
    decreases events.len(),
{
    if events.len() == 0 {
        Seq::empty()
    } else {
        match hash_of(events[0]) {
            None => covered(events.skip(1), encoded.skip(1)),
            Some(h) => {
                let n = lead(events, h) as int;
                proof {
                    lemma_lead_bound(events, h);
                }
                let later = covered(events.skip(n), encoded.skip(n));
                if h.len() == 0 {
                    later
                } else {
                    seq![flat(encoded.take(hashed(events, h) as int))] + later
                }
            },
        }
    }
}

/// Two byte strings have the same digest.
pub open spec fn collision() -> bool {
    exists|a: Seq<u8>, b: Seq<u8>|
        a != b && #[trigger] digest::sha256(a) == #[trigger] digest::sha256(b)
}

/// Tampering shows: where the check finds two readings of a bundle with the same hashes in order,
/// the hashes are over the same bytes in both, or a collision of SHA-256 has been found.
pub proof fn law_tampering_shows(
    events: Seq<WalEvent>,
    encoded: Seq<Seq<u8>>,
    other: Seq<Seq<u8>>,
    before: Seq<char>,
)
    requires
        encoded.len() == events.len(),
        other.len() == events.len(),
        chained(events, encoded, before),
        chained(events, other, before),
    ensures
        covered(events, encoded) == covered(events, other) || collision(),
    decreases events.len(),
{
    if events.len() > 0 {
        match hash_of(events[0]) {
            None => {
                law_tampering_shows(events.skip(1), encoded.skip(1), other.skip(1), before);
            },
            Some(h) => {
                let n = lead(events, h) as int;
                lemma_lead_bound(events, h);
                let next = if h.len() == 0 {
                    before
                } else {
                    h
                };
                law_tampering_shows(events.skip(n), encoded.skip(n), other.skip(n), next);
                if h.len() > 0 {
                    let k = hashed(events, h) as int;
                    let opening = vstd::utf8::encode_utf8(before);
                    let a = flat(encoded.take(k));
                    let b = flat(other.take(k));
                    let x = digest::sha256(opening + a);
                    let y = digest::sha256(opening + b);
                    utils::lemma_hex_bytes_len(x);
                    utils::lemma_hex_bytes_len(y);
                    utils::law_ids_differ(x, y);
                    if opening + a == opening + b {
                        assert(a =~= (opening + a).skip(opening.len() as int));
                        assert(b =~= (opening + b).skip(opening.len() as int));
                    }
                }
            },
        }
    }
}

/// Events that are numbered in a row leave no gap.
pub proof fn law_numbered_in_a_row_no_gaps(events: Seq<WalEvent>, first: int)
    requires
        forall|i: int| 0 <= i < events.len() ==> (#[trigger] events[i]).seq == first + i,
    ensures
        gaps(events) == 0,
    decreases events.len(),
{
    if events.len() >= 2 {
        assert(events[events.len() - 1].seq == first + events.len() - 1);
        assert(events[events.len() - 2].seq == first + events.len() - 2);
        law_numbered_in_a_row_no_gaps(events.drop_last(), first);
    }
}

/// The places at which a number does not follow on the one before.
pub open spec fn gap_places(events: Seq<WalEvent>) -> Set<int> {
    Set::new(|i: int| 0 < i < events.len() && events[i].seq != events[i - 1].seq + 1)
}

proof fn lemma_gap_places_grow(events: Seq<WalEvent>)
    requires
        events.len() >= 2,
    ensures
        gap_places(events) == (if events[events.len() - 1].seq != events[events.len() - 2].seq + 1 {
            gap_places(events.drop_last()).insert(events.len() - 1)
        } else {
            gap_places(events.drop_last())
        }),
        !gap_places(events.drop_last()).contains(events.len() - 1),
{
    let all = gap_places(events);
    let rest = events.drop_last();
    let some = gap_places(rest);
    let k = events.len() - 1;
    assert forall|i: int| i != k implies some.contains(i) == #[trigger] all.contains(i) by {
        if 0 < i < rest.len() {
            assert(rest[i] == events[i] && rest[i - 1] == events[i - 1]);
        }
    }
    if events[k].seq != events[k - 1].seq + 1 {
        assert(all =~= some.insert(k));
    } else {
        assert(all =~= some);
    }
}

/// The gaps of a bundle are counted place by place: there are as many as there are events whose
/// number is not the one after that of the event before, however many are missing in between.
pub proof fn law_gaps_are_counted(events: Seq<WalEvent>)
    ensures
        gap_places(events).finite(),
        gaps(events) == gap_places(events).len(),
    decreases events.len(),
{
    if events.len() < 2 {
        assert(gap_places(events) =~= Set::<int>::empty());
    } else {
        law_gaps_are_counted(events.drop_last());
        lemma_gap_places_grow(events);
    }
}

/// No gap is found exactly where every number follows on the one before.
pub proof fn law_no_gap_means_in_a_row(events: Seq<WalEvent>)
    ensures
        gaps(events) == 0 <==> forall|i: int, j: int|
            0 <= i && j == i + 1 && j < events.len() ==> (#[trigger] events[j]).seq == (
            #[trigger] events[i]).seq + 1,
{
    law_gaps_are_counted(events);
    let all = gap_places(events);
    if gaps(events) == 0 {
        assert(all =~= Set::<int>::empty());
        assert forall|i: int, j: int| 0 <= i && j == i + 1 && j < events.len() implies (
        #[trigger] events[j]).seq == (#[trigger] events[i]).seq + 1 by {
            assert(!all.contains(j));
        }
    } else {
        if forall|i: int, j: int|
            0 <= i && j == i + 1 && j < events.len() ==> (#[trigger] events[j]).seq == (
            #[trigger] events[i]).seq + 1 {
            assert forall|k: int| !all.contains(k) by {
                if 0 < k < events.len() {
                    let i = k - 1;
                    assert(events[k].seq == events[i].seq + 1);
                }
            }
            assert(all =~= Set::<int>::empty());
        }
    }
}

/// Taking events out of the middle of a bundle that was numbered in a row leaves one gap, however
/// many are taken.
pub proof fn law_removed_events_leave_a_gap(
    before: Seq<WalEvent>,
    behind: Seq<WalEvent>,
    first: int,
    missing: int,
)
    requires
        before.len() > 0,
        behind.len() > 0,
        missing > 0,
        forall|i: int| 0 <= i < before.len() ==> (#[trigger] before[i]).seq == first + i,
        forall|i: int|
            0 <= i < behind.len() ==> (#[trigger] behind[i]).seq == first + before.len() + missing
                + i,
    ensures
        gaps(before + behind) == 1,
    decreases behind.len(),
{
    let all = before + behind;
    let k = before.len() as int;
    assert(before[k - 1].seq == first + k - 1);
    assert(behind[0].seq == first + k + missing);
    if behind.len() == 1 {
        assert(all.drop_last() =~= before);
        law_numbered_in_a_row_no_gaps(before, first);
        assert(all[all.len() - 1] == behind[0] && all[all.len() - 2] == before[k - 1]);
    } else {
        let less = behind.drop_last();
        assert(all.drop_last() =~= before + less);
        law_removed_events_leave_a_gap(before, less, first, missing);
        let n = behind.len() - 1;
        assert(all[all.len() - 1] == behind[n] && all[all.len() - 2] == behind[n - 1]);
        assert(behind[n].seq == first + k + missing + n);
        assert(behind[n - 1].seq == first + k + missing + n - 1);
    }
}

/// Byte strings in a row are the bytes of each in turn: nothing of any of them is left out.
pub proof fn law_bytes_in_a_row(a: Seq<Seq<u8>>, b: Seq<Seq<u8>>, one: Seq<u8>)
    ensures
        flat(a + b) == flat(a) + flat(b),
        flat(seq![one]) == one,
    decreases b.len(),
{
    assert(seq![one].drop_last() =~= Seq::<Seq<u8>>::empty());
    reveal_with_fuel(flat, 2);
    assert(Seq::<u8>::empty() + one =~= one);
    if b.len() == 0 {
        assert(a + b =~= a);
        assert(flat(a) + flat(b) =~= flat(a));
    } else {
        law_bytes_in_a_row(a, b.drop_last(), one);
        assert((a + b).drop_last() =~= a + b.drop_last());
        assert(flat(a) + flat(b.drop_last()) + b.last() =~= flat(a) + (flat(b.drop_last())
            + b.last()));
    }
}

/// The check goes batch by batch. A batch are the events in a row that bear the same hash; it is in
/// order exactly where that hash is the digest, in hexadecimal, of the hash before it and the bytes
/// of its events, but for a note of dropped events at the end of more than one; and the hash of the
/// batch is the one before the next. The first batch comes after sixty-four zeros.
pub proof fn law_batches_are_checked(
    group: Seq<WalEvent>,
    bytes: Seq<Seq<u8>>,
    rest: Seq<WalEvent>,
    rest_bytes: Seq<Seq<u8>>,
    before: Seq<char>,
    h: Seq<char>,
)
    requires
        group.len() > 0,
        bytes.len() == group.len(),
        rest_bytes.len() == rest.len(),
        h.len() > 0,
        forall|i: int|
            0 <= i < group.len() ==> (#[trigger] group[i]).bundle_hash is Some
                && group[i].bundle_hash->0@ == h,
        rest.len() > 0 ==> rest[0].bundle_hash is None || rest[0].bundle_hash->0@ != h,
    ensures
        ({
            let marked = group.len() > 1 && group.last().event_type
                == WalEventType::ObserveTruncated && group.last().output is Some && json::member(
                group.last().output->0@,
                "dropped"@,
            ) is Some;
            let over = if marked {
                bytes.take(bytes.len() - 1)
            } else {
                bytes
            };
            chained(group + rest, bytes + rest_bytes, before) <==> h == utils::hex_bytes(
                digest::sha256(vstd::utf8::encode_utf8(before) + flat(over)),
            ) && chained(rest, rest_bytes, h)
        }),
        genesis() == seq!['0', '0', '0', '0', '0', '0', '0', '0'] + genesis().skip(8),
        genesis().len() == 64,
        forall|i: int| 0 <= i < 64 ==> #[trigger] genesis()[i] == '0',
{
    assert(genesis() =~= seq!['0', '0', '0', '0', '0', '0', '0', '0'] + genesis().skip(8));
    let all = group + rest;
    let enc = bytes + rest_bytes;
    let n = group.len() as int;
    assert forall|i: int| 0 <= i < group.len() implies hash_of(#[trigger] group[i]) == Some(h) by {
        assert(group[i].bundle_hash->0@ == h);
    }
    lemma_lead_of_group(group, rest, h);
    assert(all[0] == group[0]);
    assert(hash_of(group[0]) == Some(h));
    assert(all[n - 1] == group[n - 1]);
    assert(all.skip(n) =~= rest);
    assert(enc.skip(n) =~= rest_bytes);
    assert(enc.take(n) =~= bytes);
    assert(enc.take(n - 1) =~= bytes.take(n - 1));
}

/// An event without a hash is passed over, and a bundle without events is in order.
pub proof fn law_unhashed_events_pass(e: WalEvent, events: Seq<WalEvent>, bytes: Seq<u8>, encoded: Seq<Seq<u8>>, before: Seq<char>)
    requires
        e.bundle_hash is None,
    ensures
        chained(Seq::empty(), Seq::empty(), before),
        chained(seq![e] + events, seq![bytes] + encoded, before) == chained(events, encoded, before),
{
    assert((seq![e] + events).skip(1) =~= events);
    assert((seq![bytes] + encoded).skip(1) =~= encoded);
    assert((seq![e] + events)[0] == e);
}

/// An event that is added keeps all that it says but its number, and gets the times of the clock
/// where it has none of its own.
pub proof fn law_added_events_keep_what_they_say(e: WalEvent, seq: u64, clock: Clock)
    ensures
        placed(e, seq, clock).seq == seq,
        e.mono_ns is Some ==> placed(e, seq, clock).mono_ns == e.mono_ns,
        e.mono_ns is None ==> placed(e, seq, clock).mono_ns == Some(clock.mono_ns),
        e.wall_ns is Some ==> placed(e, seq, clock).wall_ns == e.wall_ns,
        e.wall_ns is None ==> placed(e, seq, clock).wall_ns == Some(clock.wall_ns),
        (WalEvent { seq: e.seq, mono_ns: e.mono_ns, wall_ns: e.wall_ns, ..placed(e, seq, clock) })
            == e,
{
}

/// A bundle that holds events already goes on behind the highest of their numbers.
pub proof fn law_numbering_goes_on(events: Seq<WalEvent>)
    ensures
        forall|i: int| 0 <= i < events.len() ==> (#[trigger] events[i]).seq < next_after(events),
        events.len() == 0 ==> next_after(events) == 0,
        events.len() > 0 ==> exists|i: int|
            0 <= i < events.len() && next_after(events) == (#[trigger] events[i]).seq + 1,
    decreases events.len(),
{
    if events.len() > 0 {
        let rest = events.drop_last();
        law_numbering_goes_on(rest);
        let k = events.len() - 1;
        assert forall|i: int| 0 <= i < events.len() implies (#[trigger] events[i]).seq < next_after(
            events,
        ) by {
            if i < k {
                assert(rest[i] == events[i]);
            }
        }
        if events[k].seq + 1 > next_after(rest) {
            assert(next_after(events) == events[k].seq + 1);
        } else {
            let i = choose|i: int|
                0 <= i < rest.len() && next_after(rest) == (#[trigger] rest[i]).seq + 1;
            assert(next_after(events) == events[i].seq + 1);
        }
    }
}

/// Closing a batch keeps every event that waits, in its order and with all that it says, and gives
/// each the hash of the batch: the digest of the hash before and the bytes.
pub proof fn law_closing_keeps_events(
    before: BundleWriter,
    after: BundleWriter,
    encoded: Seq<Seq<u8>>,
    clock: Clock,
    hash: String,
    i: int,
)
    requires
        before.seals(after, encoded, clock, hash),
        0 <= i < before.waiting().len(),
    ensures
        i < after.waiting().len(),
        after.waiting()[i] == (WalEvent { bundle_hash: Some(hash), ..before.waiting()[i] }),
        hash@ == utils::hex_bytes(
            digest::sha256(vstd::utf8::encode_utf8(before.last_link()) + flat(encoded)),
        ),
        before.lost() == 0 ==> after.waiting().len() == before.waiting().len(),
        before.lost() > 0 ==> after.waiting().len() == before.waiting().len() + 1,
{
    let s = stamped(before.waiting(), hash);
    assert(s[i] == (WalEvent { bundle_hash: Some(hash), ..before.waiting()[i] }));
    if before.lost() > 0 {
        assert(after.waiting().drop_last()[i] == after.waiting()[i]);
    }
}

/// A bundle lies in `bundles` below the data directory, under the identifier of its run; a path that
/// ends like the event log is taken for it.
pub proof fn law_bundle_place(data: Seq<char>, run_id: Seq<char>, front: Seq<char>)
    requires
        data.len() > 0,
        data[data.len() - 1] != '/',
    ensures
        bundle_place(data, run_id) == data + "/"@ + "bundles"@ + "/"@ + (run_id + ".jsonl"@),
        names_the_log(front + "wal.jsonl"@),
        names_the_log(front) ==> exists|dir: Seq<char>| front == #[trigger] (dir + "wal.jsonl"@),
{
    reveal_strlit("bundles");
    text::law_found_at_end(front, "wal.jsonl"@);
    text::law_found_at_end(front + "wal.jsonl"@, "wal.jsonl"@);
    let d = data + "/"@ + "bundles"@;
    assert(d[d.len() - 1] == 's');
}

/// A batch is full at 256 events and waits a tenth of a second at most; a checkpoint is due after
/// 1000 events or five seconds.
pub proof fn law_batch_limits()
    ensures
        BATCH_SIZE == 256,
        BATCH_WINDOW_NS == 100_000_000,
        CHECKPOINT_EVENTS == 1000,
        CHECKPOINT_INTERVAL_NS == 5_000_000_000,
{
}


/// An event that is appended waits behind the others under the next number; the batch is full with
/// 256 of them.
pub proof fn law_appending(
    before: BundleWriter,
    after: BundleWriter,
    event: WalEvent,
    clock: Clock,
    r: bool,
)
    requires
        exists|w: &mut BundleWriter|
            *w == before && *final(w) == after && #[trigger] call_ensures(
                BundleWriter::append,
                (w, event, clock),
                r,
            ),
        0 <= before.upcoming() <= u64::MAX,
    ensures
        after.waiting().len() == before.waiting().len() + 1,
        after.waiting().drop_last() == before.waiting(),
        after.waiting().last().seq == before.upcoming(),
        after.waiting().last().ts == event.ts,
        after.waiting().last().event_type == event.event_type,
        after.waiting().last().job_id == event.job_id,
        after.waiting().last().output == event.output,
        after.upcoming() == before.upcoming() + 1,
        after.count() == before.count() + 1,
        after.lost() == before.lost(),
        after.last_link() == before.last_link(),
        r <==> after.waiting().len() >= 256,
{
    assert(after.waiting().drop_last() =~= before.waiting());
}

/// What is told as lost is counted, and nothing else changes.
pub proof fn law_losses(before: BundleWriter, after: BundleWriter)
    requires
        exists|w: &mut BundleWriter|
            *w == before && *final(w) == after && #[trigger] call_ensures(
                BundleWriter::record_drop,
                (w,),
                (),
            ),
    ensures
        after.lost() == before.lost() + 1,
        after.waiting() == before.waiting(),
        after.upcoming() == before.upcoming(),
        after.count() == before.count(),
        after.last_link() == before.last_link(),
{
}

/// A batch that was written is gone, and the next one is linked to it.
pub proof fn law_flushed(before: BundleWriter, after: BundleWriter, hash: String, now_ns: u64)
    requires
        exists|w: &mut BundleWriter|
            *w == before && *final(w) == after && #[trigger] call_ensures(
                BundleWriter::flushed,
                (w, hash, now_ns),
                (),
            ),
    ensures
        after.waiting().len() == 0,
        after.last_link() == hash@,
        after.flushed_at() == now_ns,
        after.upcoming() == before.upcoming(),
        after.count() == before.count(),
        after.lost() == before.lost(),
        after.checkpointed_at() == before.checkpointed_at(),
        after.place() == before.place(),
{
}

/// A batch is written when it has waited long enough, and only where something waits.
pub proof fn law_time_to_flush(w: BundleWriter, now_ns: u64, r: bool)
    requires
        call_ensures(BundleWriter::maybe_flush_time, (&w, now_ns), r),
    ensures
        w.waiting().len() == 0 ==> !r,
        w.waiting().len() > 0 ==> (r <==> now_ns - w.flushed_at() >= 100_000_000),
{
}

/// A checkpoint is due after so many events, or after so much time, whichever comes first; it says
/// how many events there are and how the last batch is linked, beside the bundle.
pub proof fn law_checkpoints(w: BundleWriter, now_ns: u64, due: bool, r: (String, String))
    requires
        call_ensures(BundleWriter::maybe_checkpoint, (&w, now_ns), due),
        call_ensures(BundleWriter::checkpoint, (&w,), r),
    ensures
        due <==> w.count() - w.checkpointed_at().0 >= 1000 || now_ns - w.checkpointed_at().1
            >= 5_000_000_000,
        r.0@ == w.place() + ".checkpoint"@,
        r.1@ == text::decimal(w.count() as nat) + " "@ + w.last_link() + "\n"@,
{
}

/// A checkpoint that was made is the one that the next is counted from.
pub proof fn law_checkpointed(before: BundleWriter, after: BundleWriter, now_ns: u64)
    requires
        exists|w: &mut BundleWriter|
            *w == before && *final(w) == after && #[trigger] call_ensures(
                BundleWriter::checkpointed,
                (w, now_ns),
                (),
            ),
    ensures
        after.checkpointed_at() == (before.count(), now_ns as int),
        after.waiting() == before.waiting(),
        after.count() == before.count(),
        after.last_link() == before.last_link(),
        after.upcoming() == before.upcoming(),
        after.lost() == before.lost(),
{
}

/// The mark of a loss that stands alone comes where nothing waits and something was lost; it says
/// how much.
pub proof fn law_lone_markers(w: BundleWriter, clock: Clock, r: Option<WalEvent>)
    requires
        call_ensures(BundleWriter::lone_marker, (&w, clock), r),
    ensures
        r is Some <==> w.waiting().len() == 0 && w.lost() > 0,
        r is Some ==> (r->0).event_type == WalEventType::ObserveTruncated && (r->0).seq
            == w.upcoming() && (r->0).ts == clock.secs && (r->0).job_id@ == "bundle"@ && (
        r->0).bundle_hash is None,
        r is Some ==> (r->0).output is Some && json::member(((r->0).output->0)@, "dropped"@)
            == Some(Json::Number(Num::PosInt(w.lost() as u64))),
{
    if r is Some {
        let n = Json::Number(Num::PosInt(w.lost() as u64));
        assert(((r->0).output->0)@ == drop_output(w.lost()));
        json::law_insertion(Seq::empty(), "dropped"@, n, "dropped"@);
    }
}

/// The check of a bundle counts its events and its gaps and follows its links from the first; one
/// that cannot be read is in order in no way, and says why.
pub proof fn law_checks_of_bundles(read: Result<BundleContent, String>, r: VerifyResult)
    requires
        call_ensures(verify_bundle, (&read,), r),
        read is Ok ==> (read->Ok_0).encoded@.len() == (read->Ok_0).events@.len(),
    ensures
        read is Ok ==> r.total == (read->Ok_0).events@.len() && r.error is None
            && r.truncated_gaps == gaps((read->Ok_0).events@),
        read is Ok ==> r.hash_ok == chained(
            (read->Ok_0).events@,
            bytes_of((read->Ok_0).encoded@),
            Seq::new(64, |i: int| '0'),
        ),
        read is Err ==> !r.hash_ok && r.total == 0 && r.truncated_gaps == 0 && r.error is Some && (
        r.error->0)@ == "read failed: "@ + (read->Err_0)@,
{
}

/// A bundle goes on from what the file holds, with nothing waiting and the first link, where its
/// place is accepted below the directory of the data; else it says why not.
pub proof fn law_new_bundles(
    run_id: &str,
    data: &str,
    policy: PathPolicy,
    facts: PathFacts,
    held: Vec<WalEvent>,
    now_ns: u64,
    r: Result<BundleWriter, String>,
)
    requires
        call_ensures(BundleWriter::create, (run_id, data, &policy, &facts, &held, now_ns), r),
    ensures
        ({
            let place = utils::below(utils::below(data@, "bundles"@), run_id@ + ".jsonl"@);
            let verdict = path::judged(place, seq![data@], false, false, policy, facts);
            &&& r is Ok <==> verdict is Ok
            &&& r is Ok ==> (r->Ok_0).place() == place && (r->Ok_0).waiting().len() == 0 && (
            r->Ok_0).lost() == 0 && (r->Ok_0).upcoming() == next_after(held@) && (
            r->Ok_0).last_link() == Seq::new(64, |i: int| '0') && (r->Ok_0).flushed_at() == now_ns
            &&& r is Err ==> (r->Err_0)@ == "bundle path invalid: "@ + verdict->Err_0
        }),
{
}

/// A bundle at a place of its own may stand below the directory of the data or below that of
/// temporary files.
pub proof fn law_new_bundles_elsewhere(
    place: &str,
    data: &str,
    temporary: &str,
    policy: PathPolicy,
    facts: PathFacts,
    held: Vec<WalEvent>,
    now_ns: u64,
    r: Result<BundleWriter, String>,
)
    requires
        call_ensures(
            BundleWriter::create_at,
            (place, data, temporary, &policy, &facts, &held, now_ns),
            r,
        ),
    ensures
        ({
            let verdict = path::judged(
                place@,
                seq![data@, temporary@],
                false,
                false,
                policy,
                facts,
            );
            &&& r is Ok <==> verdict is Ok
            &&& r is Ok ==> (r->Ok_0).place() == place@ && (r->Ok_0).waiting().len() == 0 && (
            r->Ok_0).upcoming() == next_after(held@) && (r->Ok_0).last_link() == Seq::new(
                64,
                |i: int| '0',
            )
            &&& r is Err ==> (r->Err_0)@ == "bundle path invalid: "@ + verdict->Err_0
        }),
{
}

} // verus!
