//! Samples of the stack of another process, read from outside.
//!
//! Every tick passes the guard and the budget first. A read that gives nothing leaves a marker, and
//! what does not fit in the queue is counted.
use vstd::prelude::*;
use vstd::string::*;

use crate::guard;
use crate::guard::LlmoSafeGuard;
use crate::json;
use crate::json::Json;
use crate::json::Num;
use crate::json::Object;
use crate::json::Value;
use crate::telemetry;
use crate::text;
use crate::wal::WalEvent;
use crate::wal::WalEventType;

use super::audit;
use super::budget::ObserveBudget;
use super::Clock;

verus! {

broadcast use vstd::string::group_string_axioms;

/// The most samples that wait.
pub const SAMPLER_CHANNEL_CAP: usize = 512;

// ---------------------------------------------------------------------------
// Samples
// ---------------------------------------------------------------------------

/// A sample of a stack.
#[derive(Debug)]
pub struct SampleEvent {
    pub seq: u64,
    pub pid: u32,
    /// Nanoseconds of a clock that never goes back.
    pub mono_ns: u64,
    /// Unix time, in nanoseconds.
    pub wall_ns: u64,
    /// The frames of the stack, or a marker.
    pub frames: Vec<String>,
    /// The sample is a marker.
    pub truncated: bool,
    /// What the marker stands for.
    pub error: Option<String>,
    /// When the process started, in clock ticks; with the pid it names the process.
    pub process_start_time: u64,
}

/// The model of a [`SampleEvent`].
pub ghost struct Sample {
    pub seq: int,
    pub pid: u32,
    pub mono_ns: u64,
    pub wall_ns: u64,
    pub frames: Seq<Seq<char>>,
    pub truncated: bool,
    pub error: Option<Seq<char>>,
    pub start: u64,
}

impl SampleEvent {
    pub open spec fn view(&self) -> Sample {
        Sample {
            seq: self.seq as int,
            pid: self.pid,
            mono_ns: self.mono_ns,
            wall_ns: self.wall_ns,
            frames: text::texts(self.frames@),
            truncated: self.truncated,
            error: telemetry::text_view(self.error),
            start: self.process_start_time,
        }
    }
}

impl Clone for SampleEvent {
    fn clone(&self) -> (r: Self)
        ensures
            r@ == self@,
    {
        SampleEvent {
            seq: self.seq,
            pid: self.pid,
            mono_ns: self.mono_ns,
            wall_ns: self.wall_ns,
            frames: text::copy_texts(&self.frames),
            truncated: self.truncated,
            error: telemetry::clone_text(&self.error),
            process_start_time: self.process_start_time,
        }
    }
}

/// A frame as it is logged: without secrets, and no more than 512 bytes of it.
pub open spec fn logged(frame: Seq<char>) -> Seq<char> {
    audit::shown(frame, 512)
}

/// Frames as they are logged.
pub open spec fn logged_frames(frames: Seq<Seq<char>>) -> Seq<Json> {
    frames.map_values(|f: Seq<char>| Json::Text(logged(f)))
}

impl Sample {
    /// What the log says of a sample.
    pub open spec fn output(self) -> Json {
        let base = json::inserted(
            json::inserted(
                json::inserted(Seq::empty(), "pid"@, Json::Number(Num::PosInt(self.pid as u64))),
                "frames"@,
                Json::Array(logged_frames(self.frames)),
            ),
            "truncated"@,
            Json::Bool(self.truncated),
        );
        Json::Object(
            match self.error {
                Some(e) => json::inserted(base, "error"@, Json::Text(audit::blotted(e))),
                None => base,
            },
        )
    }
}

impl Sample {
    /// The event of the log that stands for the sample.
    pub open spec fn logged_as(self, w: WalEvent) -> bool {
        &&& w.seq == self.seq
        &&& w.ts == self.wall_ns / 1_000_000_000
        &&& w.event_type == (if self.truncated {
            WalEventType::ObserveTruncated
        } else {
            WalEventType::ObserveBatch
        })
        &&& w.job_id@ == "sample-"@ + text::decimal(self.seq as nat)
        &&& json::option_view(w.output) == Some(self.output())
        &&& w.mono_ns == Some(self.mono_ns)
        &&& w.wall_ns == Some(self.wall_ns)
        &&& (WalEvent { output: None, mono_ns: None, wall_ns: None, ..w }).bare()
    }
}

impl SampleEvent {
    /// Whether the sample is a marker.
    pub fn is_truncated(&self) -> (r: bool)
        ensures
            r == self@.truncated,
    {
        self.truncated
    }

    /// The sample for the log. Secrets are blotted out.
    pub fn to_wal_event(&self) -> (r: WalEvent)
        ensures
            self@.logged_as(r),
    {
        let mut job_id = "sample-".to_owned();
        job_id.append(text::decimal_text(self.seq).as_str());
        let ghost all = text::texts(self.frames@);
        let mut frames: Vec<Value> = Vec::new();
        for i in 0..self.frames.len()
            invariant
                all == text::texts(self.frames@),
                json::views(frames@) == logged_frames(all.take(i as int)),
        {
            let ghost before = frames@;
            frames.push(Value::String(audit::show(self.frames[i].as_str(), 512)));
            proof {
                assert(all.take(i + 1) =~= all.take(i as int).push(all[i as int]));
                assert(logged_frames(all.take(i + 1)) =~= logged_frames(all.take(i as int)).push(
                    Json::Text(logged(all[i as int])),
                ));
                assert(json::views(frames@) =~= json::views(before).push(
                    Json::Text(logged(all[i as int])),
                ));
            }
        }
        assert(all.take(all.len() as int) =~= all);
        let list = Value::Array(frames);
        assert(list@ == Json::Array(logged_frames(all))) by {
            assert(list@->Array_0 =~= json::views(frames@));
        }
        let base = Object::new().with("pid".to_owned(), Value::from_natural(self.pid as u64)).with(
            "frames".to_owned(),
            list,
        ).with("truncated".to_owned(), Value::Bool(self.truncated));
        let output = match &self.error {
            Some(e) => base.with("error".to_owned(), Value::String(audit::blot(e.as_str()))),
            None => base,
        };
        let mut r = WalEvent::default();
        r.seq = self.seq;
        r.ts = self.wall_ns / 1_000_000_000;
        r.event_type =
        if self.truncated {
            WalEventType::ObserveTruncated
        } else {
            WalEventType::ObserveBatch
        };
        r.job_id = job_id;
        r.output = Some(Value::Object(output));
        r.mono_ns = Some(self.mono_ns);
        r.wall_ns = Some(self.wall_ns);
        r
    }
}

// ---------------------------------------------------------------------------
// Reading
// ---------------------------------------------------------------------------

/// What reading the stack of a process gave.
#[derive(Debug)]
pub enum StackReading {
    /// The text of the stack.
    Stack(String),
    /// The read was not permitted, with the system's words.
    PermissionDenied(String),
    /// There was nothing to read, with the system's words.
    NotFound(String),
    /// The read failed in another way, with the system's words.
    Failed(String),
}

/// The lines of a stack that hold anything, without white space at their ends.
pub open spec fn filled(lines: Seq<Seq<char>>) -> Seq<Seq<char>>
    decreases lines.len(),
{
    if lines.len() == 0 {
        Seq::empty()
    } else {
        let line = text::trimmed(lines.last());
        if line.len() > 0 {
            filled(lines.drop_last()).push(line)
        } else {
            filled(lines.drop_last())
        }
    }
}

/// The first 64 frames of a stack.
pub open spec fn frames_of(content: Seq<char>) -> Seq<Seq<char>> {
    let all = filled(text::lines(content));
    if all.len() > 64 {
        all.take(64)
    } else {
        all
    }
}

/// The path of the stack of a process.
pub open spec fn stack_path(pid: u32) -> Seq<char> {
    "/proc/"@ + text::decimal(pid as nat) + "/stack"@
}

/// What a reading comes to: frames, whether they are a marker, and what for.
pub open spec fn content_of(pid: u32, reading: StackReading) -> (
    Seq<Seq<char>>,
    bool,
    Option<Seq<char>>,
) {
    let path = stack_path(pid);
    if pid == 0 {
        (seq!["TRUNCATED fallback"@], true, Some("invalid pid 0"@))
    } else {
        match reading {
            StackReading::Stack(content) => if frames_of(content@).len() == 0 {
                (
                    seq!["SAMPLED empty-stack"@],
                    true,
                    Some("empty stack \u{2014} sampled marker"@),
                )
            } else {
                (frames_of(content@), false, None)
            },
            StackReading::PermissionDenied(e) => (
                seq!["TRUNCATED fallback"@],
                true,
                Some("EPERM reading "@ + path + ": "@ + e@),
            ),
            StackReading::NotFound(e) => (
                seq!["TRUNCATED fallback"@],
                true,
                Some("unknown runtime/no stack "@ + path + ": "@ + e@),
            ),
            StackReading::Failed(e) => (
                seq!["TRUNCATED fallback"@],
                true,
                Some("remote-read failed "@ + path + ": "@ + e@),
            ),
        }
    }
}

/// The sample that a reading makes.
pub open spec fn sample_of(
    seq: int,
    pid: u32,
    reading: StackReading,
    clock: Clock,
    start: u64,
) -> Sample {
    let content = content_of(pid, reading);
    Sample {
        seq,
        pid,
        mono_ns: clock.mono_ns,
        wall_ns: clock.wall_ns,
        frames: content.0,
        truncated: content.1,
        error: content.2,
        start,
    }
}

/// No sample is empty in silence: it has frames, and where they are a marker it says what for.
pub proof fn law_no_silent_sample(
    seq: int,
    pid: u32,
    reading: StackReading,
    clock: Clock,
    start: u64,
)
    ensures
        sample_of(seq, pid, reading, clock, start).frames.len() > 0,
        sample_of(seq, pid, reading, clock, start).truncated <==> sample_of(
            seq,
            pid,
            reading,
            clock,
            start,
        ).error is Some,
{
}

proof fn lemma_filled_prefix(lines: Seq<Seq<char>>, i: int)
    requires
        0 <= i <= lines.len(),
    ensures
        filled(lines.take(i)).is_prefix_of(filled(lines)),
    decreases lines.len() - i,
{
    if i == lines.len() {
        assert(lines.take(i) =~= lines);
    } else {
        lemma_filled_prefix(lines, i + 1);
        assert(lines.take(i + 1).drop_last() =~= lines.take(i));
    }
}

fn read_frames(content: &str) -> (r: Vec<String>)
    ensures
        text::texts(r@) == frames_of(content@),
{
    let lines = text::split_lines(content);
    let ghost all = text::texts(lines@);
    let mut r: Vec<String> = Vec::new();
    assert(all.take(0) =~= Seq::<Seq<char>>::empty());
    for i in 0..lines.len()
        invariant
            all == text::texts(lines@),
            all == text::lines(content@),
            r@.len() <= 64,
            text::texts(r@) == filled(all.take(i as int)),
    {
        if r.len() == 64 {
            proof {
                lemma_filled_prefix(all, i as int);
                assert(filled(all).take(64) =~= filled(all.take(i as int)));
                if filled(all).len() == 64 {
                    assert(filled(all).take(64) =~= filled(all));
                }
            }
            return r;
        }
        let ghost before = r@;
        let line = text::trim(lines[i].as_str());
        proof {
            assert(all.take(i + 1).drop_last() =~= all.take(i as int));
        }
        if !line.as_str().is_empty() {
            r.push(line);
            assert(text::texts(r@) =~= text::texts(before).push(line@));
        }
    }
    proof {
        assert(all.take(all.len() as int) =~= all);
        if filled(all).len() > 64 {
            assert(filled(all).take(64) =~= filled(all));
        }
    }
    r
}

fn one_text(s: &str) -> (r: Vec<String>)
    ensures
        text::texts(r@) == seq![s@],
{
    let mut r: Vec<String> = Vec::new();
    r.push(s.to_owned());
    assert(text::texts(r@) =~= seq![s@]);
    r
}

fn read_error(lead: &str, pid: u32, words: &str) -> (r: String)
    ensures
        r@ == lead@ + stack_path(pid) + ": "@ + words@,
{
    let mut path = "/proc/".to_owned();
    path.append(text::decimal_text(pid as u64).as_str());
    path.append("/stack");
    let mut r = lead.to_owned();
    r.append(path.as_str());
    r.append(": ");
    r.append(words);
    r
}

/// A text that gives no secret away.
pub open spec fn shows_no_secret(v: Json) -> bool {
    v matches Json::Text(t) && !audit::secret(t)
}

/// The log gives no secret away that a sample may hold in its frames or its error, cut or not.
pub proof fn law_sample_log_hides_secrets(s: Sample)
    ensures
        json::member(s.output(), "frames"@) matches Some(Json::Array(frames)) && frames.len()
            == s.frames.len() && forall|i: int|
            0 <= i < frames.len() ==> shows_no_secret(#[trigger] frames[i]),
        match json::member(s.output(), "error"@) {
            Some(Json::Text(e)) => !audit::secret(e),
            other => other is None,
        },
{
    reveal_strlit("pid");
    reveal_strlit("frames");
    reveal_strlit("truncated");
    reveal_strlit("error");
    assert("pid"@.len() == 3 && "frames"@.len() == 6 && "truncated"@.len() == 9 && "error"@.len()
        == 5);
    let m0 = Seq::<(Seq<char>, Json)>::empty();
    let pid = Json::Number(Num::PosInt(s.pid as u64));
    let frames = Json::Array(logged_frames(s.frames));
    let mark = Json::Bool(s.truncated);
    let m1 = json::inserted(m0, "pid"@, pid);
    let m2 = json::inserted(m1, "frames"@, frames);
    let m3 = json::inserted(m2, "truncated"@, mark);
    json::lemma_lookup_inserted(m0, "pid"@, pid, "error"@);
    json::lemma_lookup_inserted(m1, "frames"@, frames, "frames"@);
    json::lemma_lookup_inserted(m1, "frames"@, frames, "error"@);
    json::lemma_lookup_inserted(m2, "truncated"@, mark, "frames"@);
    json::lemma_lookup_inserted(m2, "truncated"@, mark, "error"@);
    if let Some(e) = s.error {
        let words = Json::Text(audit::blotted(e));
        json::lemma_lookup_inserted(m3, "error"@, words, "frames"@);
        json::lemma_lookup_inserted(m3, "error"@, words, "error"@);
        audit::law_blots_hide(e);
    }
    assert forall|i: int| 0 <= i < s.frames.len() implies shows_no_secret(
        #[trigger] logged_frames(s.frames)[i],
    ) by {
        audit::law_shown_hides(s.frames[i], 512);
    }
}

// ---------------------------------------------------------------------------
// When a tick may sample
// ---------------------------------------------------------------------------

/// Whether a tick may sample.
#[derive(Debug)]
pub enum Gate {
    Open,
    /// Not now.
    Shut,
    /// The guard failed.
    Broken(String),
}

/// The guard's words speak of pressure or of a suspension.
pub open spec fn speaks_of_pressure(words: Seq<char>) -> bool {
    text::contains_text(words, "suspended"@) || text::contains_text(words, "pressure"@)
}

/// Whether a tick may sample, by what the guard says and whether the budget is strained. Where the
/// guard speaks of pressure the tick is only put off.
pub fn gate(guard_says: Result<(), String>, strained: bool) -> (r: Gate)
    ensures
        match guard_says {
            Ok(()) => if strained {
                r is Shut
            } else {
                r is Open
            },
            Err(m) => if speaks_of_pressure(m@) {
                r is Shut
            } else {
                r == Gate::Broken(m)
            },
        },
{
    match guard_says {
        Ok(()) => if strained {
            Gate::Shut
        } else {
            Gate::Open
        },
        Err(m) => if text::contains(m.as_str(), "suspended") || text::contains(
            m.as_str(),
            "pressure",
        ) {
            Gate::Shut
        } else {
            Gate::Broken(m)
        },
    }
}

/// A refusal for pressure speaks of pressure, pinned or measured; one for exhausted memory does
/// not.
pub proof fn law_pressure_puts_off(p: int)
    ensures
        speaks_of_pressure(guard::pressure_text(p)),
        speaks_of_pressure(guard::pinned_text(p)),
        !speaks_of_pressure(
            "Resource guard check failed: RSS memory exceeds configured safety ceiling"@,
        ),
{
    reveal_strlit("Resource pressure at ");
    reveal_strlit("pressure");
    reveal_strlit("suspended");
    reveal_strlit("Resource guard check failed: RSS memory exceeds configured safety ceiling");
    let c = "Resource guard check failed: RSS memory exceeds configured safety ceiling"@;
    assert forall|i: int| !text::occurs_at(c, "pressure"@, i) by {
        if text::occurs_at(c, "pressure"@, i) {
            assert(c.subrange(i, i + 8)[0] == c[i]);
        }
    }
    assert forall|i: int| !text::occurs_at(c, "suspended"@, i) by {
        if text::occurs_at(c, "suspended"@, i) {
            assert(c.subrange(i, i + 9)[0] == c[i]);
            assert(c.subrange(i, i + 9)[1] == c[i + 1]);
        }
    }
    let a = guard::pressure_text(p);
    let b = guard::pinned_text(p);
    assert(a.subrange(9, 17) =~= "pressure"@);
    assert(b.subrange(9, 17) =~= "pressure"@);
    assert(text::occurs_at(a, "pressure"@, 9));
    assert(text::occurs_at(b, "pressure"@, 9));
}

// ---------------------------------------------------------------------------
// Samplers
// ---------------------------------------------------------------------------

/// The models of samples, one by one.
pub open spec fn samples(s: Seq<SampleEvent>) -> Seq<Sample> {
    s.map_values(|e: SampleEvent| e@)
}

/// The marker for dropped samples.
pub open spec fn marker(seq: int, pid: u32, clock: Clock, lost: nat, start: u64) -> Sample {
    Sample {
        seq,
        pid,
        mono_ns: clock.mono_ns,
        wall_ns: clock.wall_ns,
        frames: seq!["TRUNCATED dropped="@ + text::decimal(lost)],
        truncated: true,
        error: Some("TRUNCATED dropped="@ + text::decimal(lost)),
        start,
    }
}

/// Something that samples a process from outside.
pub trait StackSampler {
    /// The samples that wait.
    spec fn queued(&self) -> Seq<Sample>;

    /// How many samples were dropped since the last time that all were taken.
    spec fn lost(&self) -> nat;

    /// The sampler is sound, and its counts have room.
    spec fn sound(&self) -> bool;

    /// Makes a sample of a reading.
    fn sample(&mut self, reading: StackReading, clock: Clock, process_start_time: u64) -> (r: Result<
        SampleEvent,
        String,
    >)
        requires
            old(self).sound(),
        ensures
            final(self).queued() == old(self).queued(),
            final(self).lost() == old(self).lost(),
    ;

    /// Reads and samples if the guard and the budget admit it. Gives the sample, or nothing where
    /// the tick was put off or the sample dropped.
    fn gated_tick<R: FnOnce() -> (StackReading, Clock)>(
        &mut self,
        guard: &LlmoSafeGuard,
        budget: &ObserveBudget,
        read: R,
        process_start_time: u64,
    ) -> (r: Result<Option<SampleEvent>, String>)
        requires
            old(self).sound(),
            read.requires(()),
            budget.kept().len() <= 0x80_0000_0000_0000,
        ensures
            match r {
                Ok(Some(e)) => final(self).queued() == old(self).queued().push(e@) && final(self).lost() == old(self).lost(),
                Ok(None) => final(self).queued() == old(self).queued() && old(self).lost()
                    <= final(self).lost() <= old(self).lost() + 1,
                Err(_) => final(self).queued() == old(self).queued() && final(self).lost() == old(self).lost(),
            },
    ;

    /// Takes all samples that wait. Where samples were dropped, a marker comes last.
    fn drain(&mut self, clock: Clock) -> (r: Vec<SampleEvent>)
        requires
            old(self).sound(),
        ensures
            final(self).queued().len() == 0,
            final(self).lost() == 0,
            if old(self).lost() == 0 {
                samples(r@) == old(self).queued()
            } else {
                &&& r@.len() == old(self).queued().len() + 1
                &&& samples(r@).drop_last() == old(self).queued()
                &&& r@.last().truncated
            },
    ;

    /// How many samples wait.
    fn len(&self) -> (r: usize)
        ensures
            r == self.queued().len(),
    ;

    /// Whether no sample waits.
    fn is_empty(&self) -> (r: bool)
        ensures
            r == (self.queued().len() == 0),
    ;

    /// How many samples were dropped since the last time that all were taken.
    fn dropped(&self) -> (r: u64)
        ensures
            r == self.lost(),
    ;

    /// Samples per second.
    fn rate_hz(&self) -> (r: u64)
        requires
            self.sound(),
        ensures
            1 <= r <= 1000,
    ;

    /// Microseconds between samples.
    fn interval(&self) -> (r: u64)
        requires
            self.sound(),
    ;
}

/// The rate that is taken for a rate that is asked for: 50 where none is, and 1000 at most.
pub open spec fn fit_rate(hz: u64) -> u64 {
    if hz == 0 {
        50
    } else if hz > 1000 {
        1000
    } else {
        hz
    }
}

/// Samples a process by reading its stack from `/proc`.
#[derive(Debug)]
pub struct OutOfProcessSampler {
    pid: u32,
    rate_hz: u64,
    interval_us: u64,
    queue: Vec<SampleEvent>,
    cap: usize,
    dropped: u64,
    next_seq: u64,
    inject_drop: bool,
    process_start_time: u64,
}

impl OutOfProcessSampler {
    /// The process.
    pub closed spec fn target(self) -> u32 {
        self.pid
    }

    /// Samples per second.
    pub closed spec fn rate(self) -> u64 {
        self.rate_hz
    }

    /// The most samples that wait.
    pub closed spec fn capacity(self) -> nat {
        self.cap as nat
    }

    /// The number of the next sample.
    pub closed spec fn upcoming(self) -> int {
        self.next_seq as int
    }

    /// The next tick drops its sample.
    pub closed spec fn drops_next(self) -> bool {
        self.inject_drop
    }

    /// When the process started, by default.
    pub closed spec fn started(self) -> u64 {
        self.process_start_time
    }

    /// Microseconds between samples.
    pub closed spec fn spacing(self) -> u64 {
        self.interval_us
    }

    /// No more samples wait than may, and the rate is one that is taken.
    pub open spec fn wf(self) -> bool {
        &&& self.queued().len() <= self.capacity() <= SAMPLER_CHANNEL_CAP
        &&& 1 <= self.rate() <= 1000
        &&& self.spacing() == 1_000_000u64 / self.rate()
    }

    /// Nothing but what waits, the counts and the forced drop differs.
    pub open spec fn same_target(self, other: OutOfProcessSampler) -> bool {
        &&& self.target() == other.target()
        &&& self.rate() == other.rate()
        &&& self.capacity() == other.capacity()
        &&& self.started() == other.started()
    }

    /// A sampler of a process.
    pub fn new(pid: u32, rate_hz: u64, process_start_time: u64) -> (r: OutOfProcessSampler)
        ensures
            r.wf(),
            r.sound(),
            r.queued().len() == 0,
            r.lost() == 0,
            r.upcoming() == 0,
            r.target() == pid,
            r.rate() == fit_rate(rate_hz),
            r.capacity() == SAMPLER_CHANNEL_CAP,
            !r.drops_next(),
            r.started() == process_start_time,
    {
        OutOfProcessSampler::with_capacity(pid, rate_hz, SAMPLER_CHANNEL_CAP, process_start_time)
    }

    /// A sampler on which `cap` samples may wait, but no more than
    /// [`SAMPLER_CHANNEL_CAP`].
    pub fn with_capacity(pid: u32, rate_hz: u64, cap: usize, process_start_time: u64) -> (r:
        OutOfProcessSampler)
        ensures
            r.wf(),
            r.sound(),
            r.queued().len() == 0,
            r.lost() == 0,
            r.upcoming() == 0,
            r.target() == pid,
            r.rate() == fit_rate(rate_hz),
            r.capacity() == (if cap < SAMPLER_CHANNEL_CAP {
                cap
            } else {
                SAMPLER_CHANNEL_CAP
            }),
            !r.drops_next(),
            r.started() == process_start_time,
    {
        let hz: u64 = if rate_hz == 0 {
            50
        } else if rate_hz > 1000 {
            1000
        } else {
            rate_hz
        };
        let effective = if cap < SAMPLER_CHANNEL_CAP {
            cap
        } else {
            SAMPLER_CHANNEL_CAP
        };
        let r = OutOfProcessSampler {
            pid,
            rate_hz: hz,
            interval_us: 1_000_000 / hz,
            queue: Vec::new(),
            cap: effective,
            dropped: 0,
            next_seq: 0,
            inject_drop: false,
            process_start_time,
        };
        assert(r.queued() =~= Seq::<Sample>::empty());
        r
    }

    /// Whether another sample can be numbered, and another drop counted.
    pub fn has_room(&self) -> (r: bool)
        requires
            self.wf(),
        ensures
            r == self.sound(),
    {
        self.next_seq < u64::MAX && self.dropped < u64::MAX
    }

    /// Has the next tick drop its sample.
    pub fn inject_drop_next(&mut self)
        ensures
            final(self).drops_next(),
            final(self).wf() == old(self).wf(),
            final(self).sound() == old(self).sound(),
            final(self).queued() == old(self).queued(),
            final(self).lost() == old(self).lost(),
            final(self).upcoming() == old(self).upcoming(),
            final(self).same_target(*old(self)),
    {
        self.inject_drop = true;
    }

    fn try_remote_read(&mut self, reading: StackReading, clock: Clock, process_start_time: u64) -> (r:
        SampleEvent)
        requires
            old(self).sound(),
        ensures
            r@ == sample_of(
                old(self).upcoming(),
                old(self).target(),
                reading,
                clock,
                process_start_time,
            ),
            final(self).wf(),
            final(self).upcoming() == old(self).upcoming() + 1,
            final(self).queue@ == old(self).queue@,
            final(self).dropped == old(self).dropped,
            final(self).drops_next() == old(self).drops_next(),
            final(self).same_target(*old(self)),
    {
        let seq = self.next_seq;
        self.next_seq = self.next_seq + 1;
        let mut truncated = true;
        let frames: Vec<String>;
        let error: Option<String>;
        if self.pid == 0 {
            frames = one_text("TRUNCATED fallback");
            error = Some("invalid pid 0".to_owned());
        } else {
            match reading {
                StackReading::Stack(content) => {
                    let found = read_frames(content.as_str());
                    if found.len() == 0 {
                        frames = one_text("SAMPLED empty-stack");
                        error = Some("empty stack \u{2014} sampled marker".to_owned());
                    } else {
                        frames = found;
                        error = None;
                        truncated = false;
                    }
                },
                StackReading::PermissionDenied(e) => {
                    frames = one_text("TRUNCATED fallback");
                    error = Some(read_error("EPERM reading ", self.pid, e.as_str()));
                },
                StackReading::NotFound(e) => {
                    frames = one_text("TRUNCATED fallback");
                    error = Some(read_error("unknown runtime/no stack ", self.pid, e.as_str()));
                },
                StackReading::Failed(e) => {
                    frames = one_text("TRUNCATED fallback");
                    error = Some(read_error("remote-read failed ", self.pid, e.as_str()));
                },
            }
        }
        SampleEvent {
            seq,
            pid: self.pid,
            mono_ns: clock.mono_ns,
            wall_ns: clock.wall_ns,
            frames,
            truncated,
            error,
            process_start_time,
        }
    }

    /// Puts a sample into the queue. Where too many wait it is dropped and counted.
    pub fn enqueue(&mut self, ev: SampleEvent) -> (r: Option<SampleEvent>)
        requires
            old(self).wf(),
            old(self).lost() < u64::MAX,
        ensures
            final(self).wf(),
            match r {
                Some(e) => {
                    &&& e@ == ev@
                    &&& old(self).queued().len() < old(self).capacity()
                    &&& final(self).queued() == old(self).queued().push(ev@)
                    &&& final(self).lost() == old(self).lost()
                },
                None => {
                    &&& old(self).queued().len() >= old(self).capacity()
                    &&& final(self).queued() == old(self).queued()
                    &&& final(self).lost() == old(self).lost() + 1
                },
            },
            final(self).upcoming() == old(self).upcoming(),
            final(self).drops_next() == old(self).drops_next(),
            final(self).same_target(*old(self)),
    {
        if self.queue.len() >= self.cap {
            self.dropped = self.dropped + 1;
            return None;
        }
        let ghost before = self.queue@;
        self.queue.push(ev.clone());
        assert(samples(self.queue@) =~= samples(before).push(ev@));
        Some(ev)
    }

    /// What becomes of the sampler with the sample of a reading: it is queued, or dropped and counted
    /// where too many wait. Its number is used up either way.
    pub open spec fn takes(
        self,
        after: OutOfProcessSampler,
        reading: StackReading,
        clock: Clock,
        process_start_time: u64,
        sample: Option<SampleEvent>,
    ) -> bool {
        &&& match sample {
            Some(e) => {
                &&& self.queued().len() < self.capacity()
                &&& e@ == sample_of(
                    self.upcoming(),
                    self.target(),
                    reading,
                    clock,
                    process_start_time,
                )
                &&& after.queued() == self.queued().push(e@)
                &&& after.lost() == self.lost()
            },
            None => {
                &&& self.queued().len() >= self.capacity()
                &&& after.queued() == self.queued()
                &&& after.lost() == self.lost() + 1
            },
        }
        &&& after.upcoming() == self.upcoming() + 1
        &&& after.drops_next() == self.drops_next()
        &&& after.same_target(self)
    }

    /// Makes a sample of a reading and puts it into the queue. Where too many wait it is dropped and
    /// counted; its number is used up all the same.
    pub fn take(&mut self, reading: StackReading, clock: Clock, process_start_time: u64) -> (r: Option<
        SampleEvent,
    >)
        requires
            old(self).sound(),
        ensures
            final(self).wf(),
            old(self).takes(*final(self), reading, clock, process_start_time, r),
    {
        let ev = self.try_remote_read(reading, clock, process_start_time);
        self.enqueue(ev)
    }

    /// A tick, by what the guard says and whether the budget is strained. Where both admit it, the
    /// stack is read and the sample taken. Where the guard speaks of pressure, or the budget is
    /// strained, nothing is read and nothing changes. Any other refusal is handed on.
    pub fn tick<R: FnOnce() -> (StackReading, Clock)>(
        &mut self,
        guard_says: Result<(), String>,
        strained: bool,
        read: R,
        process_start_time: u64,
    ) -> (r: Result<Option<SampleEvent>, String>)
        requires
            old(self).sound(),
            read.requires(()),
        ensures
            match guard_says {
                Ok(()) => if strained {
                    r == Ok::<Option<SampleEvent>, String>(None) && *final(self) == *old(self)
                } else {
                    &&& final(self).wf()
                    &&& r is Ok
                    &&& exists|reading: StackReading, clock: Clock|
                        {
                            &&& #[trigger] read.ensures((), (reading, clock))
                            &&& old(self).takes(
                                *final(self),
                                reading,
                                clock,
                                process_start_time,
                                r->Ok_0,
                            )
                        }
                },
                Err(m) => if speaks_of_pressure(m@) {
                    r == Ok::<Option<SampleEvent>, String>(None) && *final(self) == *old(self)
                } else {
                    r == Err::<Option<SampleEvent>, String>(m) && *final(self) == *old(self)
                },
            },
    {
        match gate(guard_says, strained) {
            Gate::Open => {
                let (reading, clock) = read();
                Ok(self.take(reading, clock, process_start_time))
            },
            Gate::Shut => Ok(None),
            Gate::Broken(m) => Err(m),
        }
    }
}

/// However long a sampler runs, no more samples wait than it was made for, and never more than
/// [`SAMPLER_CHANNEL_CAP`]. `states` are the states that it goes through: every operation keeps it
/// well formed and keeps its target.
pub proof fn law_queue_is_bounded(states: Seq<OutOfProcessSampler>)
    requires
        forall|i: int| 0 <= i < states.len() ==> (#[trigger] states[i]).wf(),
        forall|i: int, j: int|
            0 <= i && j == i + 1 && j < states.len() ==> (#[trigger] states[j]).same_target(
                #[trigger] states[i],
            ),
    ensures
        forall|i: int|
            0 <= i < states.len() ==> (#[trigger] states[i]).queued().len() <= states[0].capacity()
                <= SAMPLER_CHANNEL_CAP,
    decreases states.len(),
{
    if states.len() > 1 {
        let rest = states.drop_last();
        law_queue_is_bounded(rest);
        lemma_capacity_stays(states, states.len() - 1);
        assert forall|i: int| 0 <= i < states.len() implies (#[trigger] states[i]).queued().len()
            <= states[0].capacity() <= SAMPLER_CHANNEL_CAP by {
            if i < rest.len() {
                assert(rest[i] == states[i]);
                assert(rest[0] == states[0]);
            }
        }
    }
}

proof fn lemma_capacity_stays(states: Seq<OutOfProcessSampler>, k: int)
    requires
        0 <= k < states.len(),
        forall|i: int, j: int|
            0 <= i && j == i + 1 && j < states.len() ==> (#[trigger] states[j]).same_target(
                #[trigger] states[i],
            ),
    ensures
        states[k].capacity() == states[0].capacity(),
    decreases k,
{
    if k > 0 {
        lemma_capacity_stays(states, k - 1);
        assert(states[k].same_target(states[k - 1]));
    }
}

impl StackSampler for OutOfProcessSampler {
    closed spec fn queued(&self) -> Seq<Sample> {
        samples(self.queue@)
    }

    closed spec fn lost(&self) -> nat {
        self.dropped as nat
    }

    open spec fn sound(&self) -> bool {
        self.wf() && self.upcoming() < u64::MAX && self.lost() < u64::MAX
    }

    fn sample(&mut self, reading: StackReading, clock: Clock, process_start_time: u64) -> (r: Result<
        SampleEvent,
        String,
    >)
        ensures
            r is Ok,
            (r->Ok_0)@ == sample_of(
                old(self).upcoming(),
                old(self).target(),
                reading,
                clock,
                process_start_time,
            ),
            final(self).wf(),
            final(self).upcoming() == old(self).upcoming() + 1,
            final(self).drops_next() == old(self).drops_next(),
            final(self).same_target(*old(self)),
    {
        Ok(self.try_remote_read(reading, clock, process_start_time))
    }

    fn gated_tick<R: FnOnce() -> (StackReading, Clock)>(
        &mut self,
        guard: &LlmoSafeGuard,
        budget: &ObserveBudget,
        read: R,
        process_start_time: u64,
    ) -> (r: Result<Option<SampleEvent>, String>)
        ensures
            final(self).wf(),
            !final(self).drops_next(),
            final(self).same_target(*old(self)),
            old(self).drops_next() ==> r == Ok::<Option<SampleEvent>, String>(None) && final(self).lost() == old(self).lost() + 1 && final(self).upcoming() == old(self).upcoming(),
            !old(self).drops_next() && (guard.pin() matches Some(p) && p > 80) ==> r == Ok::<
                Option<SampleEvent>,
                String,
            >(None) && final(self).lost() == old(self).lost() && final(self).upcoming() == old(self).upcoming(),
            r matches Ok(Some(e)) ==> {
                &&& !budget.strained(0)
                &&& guard::ceiling(guard.measure()) > 0
                &&& exists|reading: StackReading, clock: Clock|
                    #![trigger sample_of(old(self).upcoming(), old(self).target(), reading, clock, process_start_time)]
                    read.ensures((), (reading, clock)) && e@ == sample_of(
                        old(self).upcoming(),
                        old(self).target(),
                        reading,
                        clock,
                        process_start_time,
                    )
                &&& final(self).upcoming() == old(self).upcoming() + 1
            },
            r matches Ok(None) && !old(self).drops_next() ==> {
                ||| final(self).upcoming() == old(self).upcoming() && final(self).lost() == old(
                    self).lost()
                ||| old(self).queued().len() >= old(self).capacity() && final(self).upcoming()
                    == old(self).upcoming() + 1 && final(self).lost() == old(self).lost() + 1
            },
            r matches Err(m) ==> m@
                == "Resource guard check failed: RSS memory exceeds configured safety ceiling"@
                && final(self).upcoming() == old(self).upcoming(),
            guard.pin() is Some ==> r is Ok,
    {
        if self.inject_drop {
            self.inject_drop = false;
            self.dropped = self.dropped + 1;
            return Ok(None);
        }
        let verdict = guard.check();
        let strained = if verdict.is_ok() {
            budget.should_suspend(guard.pressure())
        } else {
            false
        };
        proof {
            if verdict is Err {
                let m = verdict->Err_0;
                if let Some(p) = guard.pin() {
                    law_pressure_puts_off(p as int);
                } else if exists|p: int| 80 < p <= 100 && m@ == #[trigger] guard::pressure_text(p) {
                    let p = choose|p: int| 80 < p <= 100 && m@ == #[trigger] guard::pressure_text(p);
                    law_pressure_puts_off(p);
                }
            }
        }
        self.tick(verdict, strained, read, process_start_time)
    }

    fn drain(&mut self, clock: Clock) -> (r: Vec<SampleEvent>)
        ensures
            final(self).wf(),
            final(self).same_target(*old(self)),
            final(self).drops_next() == old(self).drops_next(),
            old(self).lost() == 0 ==> final(self).upcoming() == old(self).upcoming(),
            old(self).lost() > 0 ==> final(self).upcoming() == old(self).upcoming() + 1
                && r@.last()@ == marker(
                old(self).upcoming(),
                old(self).target(),
                clock,
                old(self).lost(),
                old(self).started(),
            ),
    {
        let mut out: Vec<SampleEvent> = Vec::new();
        core::mem::swap(&mut out, &mut self.queue);
        let ghost waiting = out@;
        assert(samples(self.queue@) =~= Seq::<Sample>::empty());
        if self.dropped > 0 {
            let mut words = "TRUNCATED dropped=".to_owned();
            words.append(text::decimal_text(self.dropped).as_str());
            let m = SampleEvent {
                seq: self.next_seq,
                pid: self.pid,
                mono_ns: clock.mono_ns,
                wall_ns: clock.wall_ns,
                frames: one_text(words.as_str()),
                truncated: true,
                error: Some(words),
                process_start_time: self.process_start_time,
            };
            self.next_seq = self.next_seq + 1;
            out.push(m);
            self.dropped = 0;
            assert(samples(out@).drop_last() =~= samples(waiting));
        }
        out
    }

    fn len(&self) -> (r: usize) {
        self.queue.len()
    }

    fn is_empty(&self) -> (r: bool) {
        self.queue.len() == 0
    }

    fn dropped(&self) -> (r: u64) {
        self.dropped
    }

    fn rate_hz(&self) -> (r: u64)
        ensures
            r == self.rate(),
    {
        self.rate_hz
    }

    fn interval(&self) -> (r: u64)
        ensures
            r == 1_000_000u64 / self.rate(),
    {
        self.interval_us
    }
}


// ---------------------------------------------------------------------------
// What holds of samples
// ---------------------------------------------------------------------------

/// The lines of a stack that hold something are kept, in order, each without the white space round
/// it.
pub proof fn law_filled(a: Seq<Seq<char>>, b: Seq<Seq<char>>, l: Seq<char>)
    ensures
        filled(a + b) == filled(a) + filled(b),
        text::trimmed(l).len() == 0 ==> filled(seq![l]) == Seq::<Seq<char>>::empty(),
        text::trimmed(l).len() > 0 ==> filled(seq![l]) == seq![text::trimmed(l)],
    decreases b.len(),
{
    assert(seq![l].drop_last() =~= Seq::<Seq<char>>::empty());
    assert(filled(seq![l].drop_last()) == Seq::<Seq<char>>::empty());
    assert(Seq::<Seq<char>>::empty().push(text::trimmed(l)) =~= seq![text::trimmed(l)]);
    if b.len() == 0 {
        assert(a + b =~= a);
        assert(filled(a) + filled(b) =~= filled(a));
    } else {
        law_filled(a, b.drop_last(), l);
        assert((a + b).drop_last() =~= a + b.drop_last());
        assert((a + b).last() == b.last());
        let x = text::trimmed(b.last());
        assert(filled(a) + filled(b.drop_last()).push(x) =~= (filled(a) + filled(
            b.drop_last(),
        )).push(x));
    }
}

/// A sample holds the first 64 frames of the stack, in order, or all of them where there are fewer.
pub proof fn law_frames(content: Seq<char>, i: int)
    ensures
        filled(text::lines(content)).len() <= 64 ==> frames_of(content) == filled(
            text::lines(content),
        ),
        filled(text::lines(content)).len() > 64 ==> frames_of(content).len() == 64,
        0 <= i < frames_of(content).len() ==> frames_of(content)[i] == filled(
            text::lines(content),
        )[i],
{
}

/// What a sample says for each way a reading can come out. Only a stack with frames gives a sample
/// that is no marker.
pub proof fn law_sample_of(
    seq: int,
    pid: u32,
    reading: StackReading,
    clock: Clock,
    start: u64,
)
    ensures
        ({
            let s = sample_of(seq, pid, reading, clock, start);
            let path = "/proc/"@ + text::decimal(pid as nat) + "/stack"@;
            &&& s.seq == seq && s.pid == pid && s.start == start
            &&& s.mono_ns == clock.mono_ns && s.wall_ns == clock.wall_ns
            &&& s.truncated <==> pid == 0 || !(reading is Stack) || frames_of(
                (reading->Stack_0)@,
            ).len() == 0
            &&& !s.truncated ==> s.frames == frames_of((reading->Stack_0)@) && s.error is None
            &&& s.truncated ==> s.frames.len() == 1 && s.error is Some
            &&& pid == 0 ==> s.frames[0] == "TRUNCATED fallback"@ && s.error == Some(
                "invalid pid 0"@,
            )
            &&& pid != 0 && reading is Stack && s.truncated ==> s.frames[0]
                == "SAMPLED empty-stack"@ && s.error == Some("empty stack \u{2014} sampled marker"@)
            &&& pid != 0 && !(reading is Stack) ==> s.frames[0] == "TRUNCATED fallback"@
            &&& pid != 0 && reading is PermissionDenied ==> s.error == Some(
                "EPERM reading "@ + path + ": "@ + (reading->PermissionDenied_0)@,
            )
            &&& pid != 0 && reading is NotFound ==> s.error == Some(
                "unknown runtime/no stack "@ + path + ": "@ + (reading->NotFound_0)@,
            )
            &&& pid != 0 && reading is Failed ==> s.error == Some(
                "remote-read failed "@ + path + ": "@ + (reading->Failed_0)@,
            )
        }),
{
}

/// Whether a tick may sample: it may where guard and budget admit it, it is put off where either asks,
/// and it fails where the guard fails for another reason than pressure.
pub proof fn law_gate(says: Result<(), String>, strained: bool, r: Gate)
    requires
        call_ensures(gate, (says, strained), r),
    ensures
        r is Open <==> says is Ok && !strained,
        r is Shut <==> (says is Ok && strained) || (says is Err && (text::contains_text(
            (says->Err_0)@,
            "suspended"@,
        ) || text::contains_text((says->Err_0)@, "pressure"@))),
        r is Broken ==> says is Err && r->Broken_0 == says->Err_0,
{
}

/// A rate is taken as it is asked for from 1 to 1000 a second; none is taken for 50, and what is
/// higher for 1000.
pub proof fn law_rates(pid: u32, hz: u64, cap: usize, start: u64, r: OutOfProcessSampler)
    requires
        call_ensures(OutOfProcessSampler::with_capacity, (pid, hz, cap, start), r),
    ensures
        hz == 0 ==> r.rate() == 50,
        1 <= hz <= 1000 ==> r.rate() == hz,
        hz > 1000 ==> r.rate() == 1000,
        r.spacing() == 1_000_000u64 / r.rate(),
        r.target() == pid,
        r.started() == start,
        cap <= 512 ==> r.capacity() == cap,
        cap > 512 ==> r.capacity() == 512,
        r.queued().len() == 0,
        r.lost() == 0,
        r.upcoming() == 0,
        !r.drops_next(),
{
}

/// A sample that is taken waits behind those that wait, under the next number; where too many wait
/// it is counted as lost and its number is used up all the same.
pub proof fn law_taking(
    before: OutOfProcessSampler,
    after: OutOfProcessSampler,
    reading: StackReading,
    clock: Clock,
    start: u64,
    r: Option<SampleEvent>,
)
    requires
        exists|s: &mut OutOfProcessSampler|
            *s == before && *final(s) == after && #[trigger] call_ensures(
                OutOfProcessSampler::take,
                (s, reading, clock, start),
                r,
            ),
    ensures
        r is Some <==> before.queued().len() < before.capacity(),
        r is Some ==> after.queued() == before.queued().push((r->0)@) && after.lost()
            == before.lost(),
        r is Some ==> (r->0).seq == before.upcoming() && (r->0).pid == before.target()
            && (r->0).mono_ns == clock.mono_ns && (r->0).wall_ns == clock.wall_ns
            && (r->0).process_start_time == start,
        r is None ==> after.queued() == before.queued() && after.lost() == before.lost() + 1,
        after.upcoming() == before.upcoming() + 1,
        after.capacity() == before.capacity(),
        after.target() == before.target(),
        after.rate() == before.rate(),
        after.started() == before.started(),
        after.drops_next() == before.drops_next(),
{
    if r is Some {
        assert((r->0)@.seq == (r->0).seq && (r->0)@.pid == (r->0).pid);
    }
}

/// What is put into the queue waits there as it is, and only where there is room.
pub proof fn law_enqueuing(
    before: OutOfProcessSampler,
    after: OutOfProcessSampler,
    ev: SampleEvent,
    r: Option<SampleEvent>,
)
    requires
        exists|s: &mut OutOfProcessSampler|
            *s == before && *final(s) == after && #[trigger] call_ensures(
                OutOfProcessSampler::enqueue,
                (s, ev),
                r,
            ),
    ensures
        r is Some <==> before.queued().len() < before.capacity(),
        r is Some ==> (r->0)@ == ev@ && after.queued() == before.queued().push(ev@) && after.lost()
            == before.lost(),
        r is None ==> after.queued() == before.queued() && after.lost() == before.lost() + 1,
        after.upcoming() == before.upcoming(),
        after.capacity() == before.capacity(),
{
}

/// To drain is to take all samples that wait, in order, with a marker behind them that says how
/// many were lost, if any.
pub proof fn law_draining(
    before: OutOfProcessSampler,
    after: OutOfProcessSampler,
    clock: Clock,
    r: Vec<SampleEvent>,
)
    requires
        exists|s: &mut OutOfProcessSampler|
            *s == before && *final(s) == after && #[trigger] call_ensures(
                OutOfProcessSampler::drain,
                (s, clock),
                r,
            ),
    ensures
        after.queued().len() == 0,
        after.lost() == 0,
        before.lost() == 0 ==> samples(r@) == before.queued() && after.upcoming()
            == before.upcoming(),
        before.lost() > 0 ==> samples(r@).drop_last() == before.queued() && r@.len()
            == before.queued().len() + 1 && after.upcoming() == before.upcoming() + 1,
        before.lost() > 0 ==> r@.last().truncated && r@.last().seq == before.upcoming()
            && r@.last().pid == before.target() && r@.last().mono_ns == clock.mono_ns
            && r@.last().wall_ns == clock.wall_ns && r@.last().process_start_time
            == before.started(),
        before.lost() > 0 ==> r@.last().frames@.len() == 1 && r@.last().frames@[0]@
            == "TRUNCATED dropped="@ + text::decimal(before.lost()),
        before.lost() > 0 ==> r@.last().error is Some && (r@.last().error->0)@
            == "TRUNCATED dropped="@ + text::decimal(before.lost()),
{
    if before.lost() > 0 {
        let m = r@.last();
        assert(m@.seq == m.seq && m@.truncated == m.truncated);
        assert(m@.frames == text::texts(m.frames@));
        assert(text::texts(m.frames@).len() == m.frames@.len());
        assert(text::texts(m.frames@)[0] == m.frames@[0]@);
    }
}

/// A sample is logged under its number and its times; a marker is logged as such.
pub proof fn law_logged_samples(e: SampleEvent, w: WalEvent, i: int)
    requires
        call_ensures(SampleEvent::to_wal_event, (&e,), w),
    ensures
        w.seq == e.seq,
        w.ts == e.wall_ns / 1_000_000_000,
        w.job_id@ == "sample-"@ + text::decimal(e.seq as nat),
        e.truncated ==> w.event_type == WalEventType::ObserveTruncated,
        !e.truncated ==> w.event_type == WalEventType::ObserveBatch,
        w.mono_ns == Some(e.mono_ns),
        w.wall_ns == Some(e.wall_ns),
        w.output is Some,
        json::member((w.output->0)@, "pid"@) == Some(Json::Number(Num::PosInt(e.pid as u64))),
        json::member((w.output->0)@, "truncated"@) == Some(Json::Bool(e.truncated)),
        json::member((w.output->0)@, "frames"@) is Some,
        ({
            let f = json::member((w.output->0)@, "frames"@)->0;
            &&& f is Array && f->Array_0.len() == e.frames@.len()
            &&& 0 <= i < e.frames@.len() && !audit::secret(e.frames@[i]@) && text::byte_length(
                e.frames@[i]@,
            ) <= 512 ==> f->Array_0[i] == Json::Text(e.frames@[i]@)
            &&& 0 <= i < e.frames@.len() && audit::secret(e.frames@[i]@) ==> f->Array_0[i]
                == Json::Text("REDACTED"@)
        }),
        e.error is None ==> json::member((w.output->0)@, "error"@) is None,
        e.error is Some && !audit::secret((e.error->0)@) ==> json::member(
            (w.output->0)@,
            "error"@,
        ) == Some(Json::Text((e.error->0)@)),
{
    reveal_strlit("pid");
    reveal_strlit("frames");
    reveal_strlit("truncated");
    reveal_strlit("error");
    assert("pid"@.len() == 3 && "frames"@.len() == 6);
    assert("truncated"@.len() == 9 && "error"@.len() == 5);
    let s = e@;
    assert((w.output->0)@ == s.output());
    let none = Seq::<(Seq<char>, Json)>::empty();
    let pid = Json::Number(Num::PosInt(s.pid as u64));
    let frames = Json::Array(logged_frames(s.frames));
    let mark = Json::Bool(s.truncated);
    let one = json::inserted(none, "pid"@, pid);
    let two = json::inserted(one, "frames"@, frames);
    let three = json::inserted(two, "truncated"@, mark);
    json::law_members_are_found(none, "error"@, Json::Null);
    json::law_insertion(none, "pid"@, pid, "error"@);
    json::law_insertion(one, "frames"@, frames, "pid"@);
    json::law_insertion(one, "frames"@, frames, "error"@);
    json::law_insertion(two, "truncated"@, mark, "pid"@);
    json::law_insertion(two, "truncated"@, mark, "frames"@);
    json::law_insertion(two, "truncated"@, mark, "error"@);
    if s.error is Some {
        let words = Json::Text(audit::blotted(s.error->0));
        json::law_insertion(three, "error"@, words, "pid"@);
        json::law_insertion(three, "error"@, words, "frames"@);
        json::law_insertion(three, "error"@, words, "truncated"@);
    }
    assert(text::texts(e.frames@).len() == e.frames@.len());
    if 0 <= i < e.frames@.len() {
        assert(text::texts(e.frames@)[i] == e.frames@[i]@);
    }
}

/// A tick samples exactly where the guard and the budget admit it; one that is put off or refused
/// leaves the sampler as it was.
pub proof fn law_ticks<R: FnOnce() -> (StackReading, Clock)>(
    before: OutOfProcessSampler,
    after: OutOfProcessSampler,
    says: Result<(), String>,
    strained: bool,
    read: R,
    start: u64,
    r: Result<Option<SampleEvent>, String>,
)
    requires
        exists|s: &mut OutOfProcessSampler|
            *s == before && *final(s) == after && #[trigger] call_ensures(
                OutOfProcessSampler::tick::<R>,
                (s, says, strained, read, start),
                r,
            ),
    ensures
        says is Ok && strained ==> r is Ok && r->Ok_0 is None && after == before,
        says is Ok && !strained ==> r is Ok && after.upcoming() == before.upcoming() + 1,
        says is Ok && !strained ==> (r->Ok_0 is Some <==> before.queued().len()
            < before.capacity()),
        says is Ok && !strained && r->Ok_0 is Some ==> after.queued() == before.queued().push(
            (r->Ok_0->0)@,
        ) && (r->Ok_0->0).seq == before.upcoming(),
        says is Ok && !strained && r->Ok_0 is None ==> after.queued() == before.queued()
            && after.lost() == before.lost() + 1,
        says is Err && (text::contains_text((says->Err_0)@, "suspended"@) || text::contains_text(
            (says->Err_0)@,
            "pressure"@,
        )) ==> r is Ok && r->Ok_0 is None && after == before,
        says is Err && !text::contains_text((says->Err_0)@, "suspended"@) && !text::contains_text(
            (says->Err_0)@,
            "pressure"@,
        ) ==> r is Err && r->Err_0 == says->Err_0 && after == before,
{
    if says is Ok && !strained && r->Ok_0 is Some {
        assert((r->Ok_0->0)@.seq == (r->Ok_0->0).seq);
    }
}

} // verus!
