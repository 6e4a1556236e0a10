//! The supervisor of an observation: it samples and audits, and says what goes into the bundle.
//!
//! Whatever fails, only the mark on the bundle changes; the observed process is left alone. The
//! supervisor gives out the events, and the caller has a writer put them into the bundle.
use vstd::prelude::*;
use vstd::string::*;

use crate::config::Environment;
use crate::config::RuntimoConfig;
use crate::guard;
use crate::guard::DesignAssuranceLevel;
use crate::guard::LlmoSafeGuard;
use crate::json;
use crate::json::Json;
use crate::json::Num;
use crate::json::Object;
use crate::json::Value;
use crate::text;
use crate::wal::WalEvent;
use crate::wal::WalEventType;

use super::audit::AuditEvent;
use super::audit::AuditHook;
use super::audit::AuditKind;
use super::budget::ObserveBudget;
use super::sampler;
use super::sampler::OutOfProcessSampler;
use super::sampler::SampleEvent;
use super::sampler::StackReading;
use super::sampler::StackSampler;
use super::Clock;

verus! {

broadcast use vstd::string::group_string_axioms;

// ---------------------------------------------------------------------------
// Marks and failures
// ---------------------------------------------------------------------------

/// How much of a run the bundle holds.
#[derive(Debug, Clone, Copy, PartialEq, Eq, Structural)]
pub enum BundleWatermark {
    /// All of it.
    Complete,
    /// Something is missing, and marked.
    Truncated,
    /// The collection was given up.
    Incomplete,
}

impl BundleWatermark {
    /// How bad the mark is.
    pub open spec fn rank(self) -> int {
        match self {
            BundleWatermark::Complete => 0,
            BundleWatermark::Truncated => 1,
            BundleWatermark::Incomplete => 2,
        }
    }

    /// The name of the mark.
    pub open spec fn name(self) -> Seq<char> {
        match self {
            BundleWatermark::Complete => "Complete"@,
            BundleWatermark::Truncated => "Truncated"@,
            BundleWatermark::Incomplete => "Incomplete"@,
        }
    }

    fn as_str(self) -> (r: &'static str)
        ensures
            r@ == self.name(),
    {
        match self {
            BundleWatermark::Complete => "Complete",
            BundleWatermark::Truncated => "Truncated",
            BundleWatermark::Incomplete => "Incomplete",
        }
    }
}

/// Why a collection stopped or suffered.
#[derive(Debug, Clone, Copy, PartialEq, Eq, Structural)]
pub enum CollectorFailure {
    CollectorKilled,
    DiskFull,
    ClockSkew,
    Restart,
    PressureSpike,
}

impl CollectorFailure {
    /// The name of the failure.
    pub open spec fn name(self) -> Seq<char> {
        match self {
            CollectorFailure::CollectorKilled => "collector-killed"@,
            CollectorFailure::DiskFull => "disk-full"@,
            CollectorFailure::ClockSkew => "clock-skew"@,
            CollectorFailure::Restart => "restart"@,
            CollectorFailure::PressureSpike => "pressure-spike"@,
        }
    }

    /// The name of the failure.
    pub fn as_str(&self) -> (r: &'static str)
        ensures
            r@ == self.name(),
    {
        match self {
            CollectorFailure::CollectorKilled => "collector-killed",
            CollectorFailure::DiskFull => "disk-full",
            CollectorFailure::ClockSkew => "clock-skew",
            CollectorFailure::Restart => "restart",
            CollectorFailure::PressureSpike => "pressure-spike",
        }
    }
}

/// What a failure means for the collection. The observed process is not concerned.
#[derive(Debug, Clone, Copy, PartialEq, Eq, Structural)]
pub enum DalDecision {
    /// Give up.
    Halt,
    /// Go on, with marks.
    Degraded,
    /// Go on.
    Proceed,
}

impl DalDecision {
    /// How strict the decision is.
    pub open spec fn rank(self) -> int {
        match self {
            DalDecision::Halt => 2,
            DalDecision::Degraded => 1,
            DalDecision::Proceed => 0,
        }
    }

    /// The name of the decision.
    pub open spec fn name(self) -> Seq<char> {
        match self {
            DalDecision::Halt => "Halt"@,
            DalDecision::Degraded => "Degraded"@,
            DalDecision::Proceed => "Proceed"@,
        }
    }

    fn as_str(self) -> (r: &'static str)
        ensures
            r@ == self.name(),
    {
        match self {
            DalDecision::Halt => "Halt",
            DalDecision::Degraded => "Degraded",
            DalDecision::Proceed => "Proceed",
        }
    }
}

/// What a failure means at a level.
pub open spec fn consequence(dal: DesignAssuranceLevel) -> DalDecision {
    match dal {
        DesignAssuranceLevel::A => DalDecision::Halt,
        DesignAssuranceLevel::E => DalDecision::Proceed,
        _ => DalDecision::Degraded,
    }
}

/// What a failure means at a level.
pub fn dal_decision_for(dal: DesignAssuranceLevel) -> (r: DalDecision)
    ensures
        r == consequence(dal),
{
    match dal {
        DesignAssuranceLevel::A => DalDecision::Halt,
        DesignAssuranceLevel::B | DesignAssuranceLevel::C | DesignAssuranceLevel::D => {
            DalDecision::Degraded
        },
        DesignAssuranceLevel::E => DalDecision::Proceed,
    }
}

/// A level is no stricter on a failure than one before it in the alphabet, as it is no stricter on a
/// decision: only `A` gives up, as only `A` halts, and `E` goes on, as it has everything proceed.
pub proof fn law_levels_agree(
    strict: DesignAssuranceLevel,
    lenient: DesignAssuranceLevel,
    d: guard::SafetyDecision,
    softened: guard::SafetyDecision,
)
    requires
        strict.place() <= lenient.place(),
        guard::softened(strict, d, softened),
    ensures
        consequence(lenient).rank() <= consequence(strict).rank(),
        softened is Halt ==> consequence(strict) == DalDecision::Halt,
        consequence(strict) == DalDecision::Proceed ==> softened is Proceed,
{
}

/// The mark that a failure leaves at a level.
pub open spec fn mark_of(dal: DesignAssuranceLevel) -> BundleWatermark {
    if consequence(dal) == DalDecision::Halt {
        BundleWatermark::Incomplete
    } else {
        BundleWatermark::Truncated
    }
}

// ---------------------------------------------------------------------------
// Events
// ---------------------------------------------------------------------------

/// An event of the log for a run, at a time. The writer numbers it.
pub open spec fn run_event(
    w: WalEvent,
    kind: WalEventType,
    run_id: Seq<char>,
    secs: u64,
    output: Option<Json>,
) -> bool {
    &&& w.seq == 0
    &&& w.ts == secs
    &&& w.event_type == kind
    &&& w.job_id@ == run_id
    &&& json::option_view(w.output) == output
    &&& (WalEvent { output: None, ..w }).bare()
}

fn make_event(kind: WalEventType, run_id: &str, secs: u64, output: Option<Value>) -> (r: WalEvent)
    ensures
        run_event(r, kind, run_id@, secs, json::option_view(output)),
{
    let mut r = WalEvent::default();
    r.ts = secs;
    r.event_type = kind;
    r.job_id = run_id.to_owned();
    r.output = output;
    r
}

/// What the log says of a refused attachment.
pub open spec fn refusal_output(dal: DesignAssuranceLevel) -> Json {
    Json::Object(
        json::inserted(
            json::inserted(
                Seq::empty(),
                "error"@,
                Json::Text("attach(0) rejected: PID 0 is the kernel idle task"@),
            ),
            "dal"@,
            Json::Text(dal.letter()),
        ),
    )
}

/// What the log says of a failure.
pub open spec fn failure_output(
    failure: CollectorFailure,
    dal: DesignAssuranceLevel,
    mark: BundleWatermark,
) -> Json {
    Json::Object(
        json::inserted(
            json::inserted(
                json::inserted(
                    json::inserted(
                        json::inserted(Seq::empty(), "failure"@, Json::Text(failure.name())),
                        "dal"@,
                        Json::Text(dal.letter()),
                    ),
                    "decision"@,
                    Json::Text(consequence(dal).name()),
                ),
                "watermark"@,
                Json::Text(mark.name()),
            ),
            "note"@,
            Json::Text("target never signalled; collector Halt never kills target"@),
        ),
    )
}

/// What the log says of the end of a run.
pub open spec fn completion_output(
    mark: BundleWatermark,
    elapsed_ms: u64,
    dal: DesignAssuranceLevel,
) -> Json {
    Json::Object(
        json::inserted(
            json::inserted(
                json::inserted(Seq::empty(), "watermark"@, Json::Text(mark.name())),
                "elapsed_ms"@,
                Json::Number(Num::PosInt(elapsed_ms)),
            ),
            "dal"@,
            Json::Text(dal.letter()),
        ),
    )
}

// ---------------------------------------------------------------------------
// The supervisor
// ---------------------------------------------------------------------------

/// Where the budget keeps the time of its last check, and what stands there.
#[derive(Debug)]
pub struct BudgetState {
    /// `RUNTIMO_STATE_DIR`.
    pub state_dir: Option<String>,
    /// `HOME`.
    pub home: Option<String>,
    pub content: Option<String>,
}

/// Why a process was not attached, with the event for the bundle.
#[derive(Debug)]
pub struct AttachRefused {
    pub error: String,
    pub event: WalEvent,
}

/// What came of a tick.
#[derive(Debug)]
pub struct Tick {
    pub sample: Option<SampleEvent>,
    /// The event for the bundle; none where the observation has ended.
    pub event: Option<WalEvent>,
    /// The batch is to be written after the event.
    pub flush_first: bool,
}

/// Supervises the observation of a process.
#[derive(Debug)]
pub struct ObserveSupervisor {
    guard: LlmoSafeGuard,
    budget: ObserveBudget,
    sampler: OutOfProcessSampler,
    audit: AuditHook,
    run_id: String,
    bundle: String,
    dal: DesignAssuranceLevel,
    started_ns: u64,
    watermark: BundleWatermark,
    last_failure: Option<CollectorFailure>,
    stopped: bool,
    process_start_time: u64,
}

/// The pause, in seconds, of a suspension in milliseconds: one second at least.
pub open spec fn pause_of(suspend_ms: u64) -> u64 {
    if suspend_ms / 1000 == 0 {
        1
    } else {
        suspend_ms / 1000
    }
}

impl ObserveSupervisor {
    /// The guard of the ticks.
    pub closed spec fn guarding(self) -> LlmoSafeGuard {
        self.guard
    }

    /// The budget of the ticks.
    pub closed spec fn budgeting(self) -> ObserveBudget {
        self.budget
    }

    /// The sampler.
    pub closed spec fn sampling(self) -> OutOfProcessSampler {
        self.sampler
    }

    /// The hook for what the process does.
    pub closed spec fn auditing(self) -> AuditHook {
        self.audit
    }

    /// The identifier of the run.
    pub closed spec fn run(self) -> Seq<char> {
        self.run_id@
    }

    /// The path of the bundle.
    pub closed spec fn place(self) -> Seq<char> {
        self.bundle@
    }

    /// The level.
    pub closed spec fn level(self) -> DesignAssuranceLevel {
        self.dal
    }

    /// When the observation began.
    pub closed spec fn began_at(self) -> int {
        self.started_ns as int
    }

    /// The mark on the bundle.
    pub closed spec fn mark(self) -> BundleWatermark {
        self.watermark
    }

    /// The last failure.
    pub closed spec fn failed_with(self) -> Option<CollectorFailure> {
        self.last_failure
    }

    /// The observation is to end.
    pub closed spec fn ending(self) -> bool {
        self.stopped
    }

    /// When the observed process started.
    pub closed spec fn started(self) -> u64 {
        self.process_start_time
    }

    /// The parts are sound, and their counts have room.
    pub open spec fn ready(self) -> bool {
        &&& self.sampling().sound()
        &&& self.auditing().wf()
        &&& self.auditing().upcoming() < u64::MAX
        &&& self.budgeting().kept().len() <= 0x80_0000_0000_0000
    }

    /// What stays from one step to the next.
    pub open spec fn same_run(self, other: ObserveSupervisor) -> bool {
        &&& self.guarding() == other.guarding()
        &&& self.budgeting() == other.budgeting()
        &&& self.run() == other.run()
        &&& self.place() == other.place()
        &&& self.level() == other.level()
        &&& self.began_at() == other.began_at()
    }

    /// A supervisor for a run whose bundle stands at `bundle`, and the first event for it. Until a
    /// process is attached it samples `own_pid`.
    pub fn new(
        run_id: &str,
        sample_rate_hz: u64,
        dal: &str,
        pressure_suspend_ms: u64,
        bundle: &str,
        guard: LlmoSafeGuard,
        kept: &BudgetState,
        own_pid: u32,
        clock: Clock,
    ) -> (r: (ObserveSupervisor, WalEvent))
        ensures
            r.0.ready(),
            r.0.run() == run_id@,
            r.0.place() == bundle@,
            r.0.guarding() == guard,
            r.0.budgeting().window() == 30,
            r.0.budgeting().pause() == pause_of(pressure_suspend_ms),
            r.0.budgeting().kept().len() == 0,
            r.0.sampling().target() == own_pid,
            r.0.sampling().rate() == sampler::fit_rate(sample_rate_hz),
            r.0.sampling().queued().len() == 0,
            r.0.sampling().lost() == 0,
            r.0.sampling().upcoming() == 0,
            !r.0.sampling().drops_next(),
            r.0.auditing().queued().len() == 0,
            r.0.auditing().lost() == 0,
            r.0.auditing().upcoming() == 0,
            r.0.level() == guard::level_named(text::capitals(dal@)),
            r.0.began_at() == clock.mono_ns,
            r.0.mark() == BundleWatermark::Complete,
            r.0.failed_with() is None,
            !r.0.ending(),
            r.0.started() == 0,
            run_event(r.1, WalEventType::ObserveStarted, run_id@, clock.secs, None),
    {
        let pause = if pressure_suspend_ms / 1000 == 0 {
            1
        } else {
            pressure_suspend_ms / 1000
        };
        let upper = text::upper_ascii(dal);
        let supervisor = ObserveSupervisor {
            guard,
            budget: ObserveBudget::new(
                30,
                pause,
                &kept.state_dir,
                &kept.home,
                &kept.content,
                clock.secs,
                clock.mono_ns,
            ),
            sampler: OutOfProcessSampler::new(own_pid, sample_rate_hz, 0),
            audit: AuditHook::new(),
            run_id: run_id.to_owned(),
            bundle: bundle.to_owned(),
            dal: guard::dal_from_str(upper.as_str()),
            started_ns: clock.mono_ns,
            watermark: BundleWatermark::Complete,
            last_failure: None,
            stopped: false,
            process_start_time: 0,
        };
        let event = make_event(WalEventType::ObserveStarted, run_id, clock.secs, None);
        (supervisor, event)
    }

    /// Samples a process from now on, at the same rate. Process 0 is refused.
    pub fn attach(&mut self, pid: u32, process_start_time: u64, clock: Clock) -> (r: Result<
        (),
        AttachRefused,
    >)
        requires
            old(self).ready(),
        ensures
            final(self).ready(),
            final(self).same_run(*old(self)),
            final(self).auditing() == old(self).auditing(),
            final(self).mark() == old(self).mark(),
            final(self).failed_with() == old(self).failed_with(),
            final(self).ending() == old(self).ending(),
            match r {
                Ok(()) => {
                    &&& pid != 0
                    &&& final(self).started() == process_start_time
                    &&& final(self).sampling().target() == pid
                    &&& final(self).sampling().rate() == old(self).sampling().rate()
                    &&& final(self).sampling().started() == process_start_time
                    &&& final(self).sampling().queued().len() == 0
                    &&& final(self).sampling().lost() == 0
                    &&& final(self).sampling().upcoming() == 0
                    &&& !final(self).sampling().drops_next()
                },
                Err(e) => {
                    &&& pid == 0
                    &&& *final(self) == *old(self)
                    &&& e.error@ == "attach(0) rejected: PID 0 is the kernel idle task"@
                    &&& run_event(
                        e.event,
                        WalEventType::ObserveTruncated,
                        old(self).run(),
                        clock.secs,
                        Some(refusal_output(old(self).level())),
                    )
                },
            },
    {
        if pid == 0 {
            let output = Object::new().with(
                "error".to_owned(),
                Value::from_text("attach(0) rejected: PID 0 is the kernel idle task"),
            ).with("dal".to_owned(), Value::from_text(self.dal.as_str()));
            return Err(
                AttachRefused {
                    error: "attach(0) rejected: PID 0 is the kernel idle task".to_owned(),
                    event: make_event(
                        WalEventType::ObserveTruncated,
                        self.run_id.as_str(),
                        clock.secs,
                        Some(Value::Object(output)),
                    ),
                },
            );
        }
        let hz = self.sampler.rate_hz();
        self.sampler = OutOfProcessSampler::new(pid, hz, process_start_time);
        self.process_start_time = process_start_time;
        Ok(())
    }

    /// Has the observation end at the next tick.
    pub fn stop(&mut self)
        ensures
            final(self).ending(),
            final(self).same_run(*old(self)),
            final(self).sampling() == old(self).sampling(),
            final(self).auditing() == old(self).auditing(),
            final(self).mark() == old(self).mark(),
            final(self).failed_with() == old(self).failed_with(),
            final(self).started() == old(self).started(),
    {
        self.stopped = true;
    }

    /// Notes when the observed process started.
    pub fn set_process_start_time(&mut self, pts: u64)
        ensures
            final(self).started() == pts,
            final(self).same_run(*old(self)),
            final(self).sampling() == old(self).sampling(),
            final(self).auditing() == old(self).auditing(),
            final(self).mark() == old(self).mark(),
            final(self).failed_with() == old(self).failed_with(),
            final(self).ending() == old(self).ending(),
    {
        self.process_start_time = pts;
    }

    /// When the observed process started, or 0 where none is attached.
    pub fn process_start_time(&self) -> (r: u64)
        ensures
            r == self.started(),
    {
        self.process_start_time
    }

    /// Whether the observation is to end.
    pub fn is_stopped(&self) -> (r: bool)
        ensures
            r == self.ending(),
    {
        self.stopped
    }

    /// The level.
    pub fn dal(&self) -> (r: DesignAssuranceLevel)
        ensures
            r == self.level(),
    {
        self.dal
    }

    /// The mark on the bundle.
    pub fn watermark(&self) -> (r: &BundleWatermark)
        ensures
            *r == self.mark(),
    {
        &self.watermark
    }

    /// The path of the bundle.
    pub fn bundle_path(&self) -> (r: &str)
        ensures
            r@ == self.place(),
    {
        self.bundle.as_str()
    }

    /// The identifier of the run.
    pub fn run_id(&self) -> (r: &str)
        ensures
            r@ == self.run(),
    {
        self.run_id.as_str()
    }

    /// The start that a tick goes by: the one it is given, or that of the attached process.
    pub open spec fn start_for(self, given: u64) -> u64 {
        if given == 0 {
            self.started()
        } else {
            given
        }
    }

    /// The event of a tick tells what came of sampling. Where no sample came, it is not to wait.
    pub open spec fn told(self, t: Tick, clock: Clock) -> bool {
        t.event matches Some(event) && match t.sample {
            Some(e) => e@.logged_as(event) && !t.flush_first,
            None => run_event(
                event,
                WalEventType::ObserveSuspended,
                self.run(),
                clock.secs,
                None,
            ) && t.flush_first,
        }
    }

    /// The events for the bundle of what the process did.
    pub open spec fn reported(self, events: Seq<WalEvent>, clock: Clock) -> bool {
        exists|audits: Seq<AuditEvent>|
            {
                &&& #[trigger] self.auditing().gives(audits, clock.wall_ns)
                &&& events.len() == audits.len()
                &&& forall|i: int| 0 <= i < audits.len() ==> audits[i].logged_as(#[trigger] events[i])
            }
    }

    /// The mark after a tick: where no sample came, a bundle that was complete no longer is.
    pub open spec fn mark_after(self, sample: Option<SampleEvent>) -> BundleWatermark {
        if sample is None && self.mark() == BundleWatermark::Complete {
            BundleWatermark::Truncated
        } else {
            self.mark()
        }
    }

    /// Gives out the event for the bundle of a tick that came to `sample`. Where no sample came, the
    /// bundle is marked. What the process did stays queued until the event is in the bundle: see
    /// [`ObserveSupervisor::report`].
    pub fn fan_out(&mut self, sample: Option<SampleEvent>, clock: Clock) -> (t: Tick)
        ensures
            t.sample == sample,
            old(self).told(t, clock),
            final(self).mark() == old(self).mark_after(sample),
            final(self).auditing() == old(self).auditing(),
            final(self).same_run(*old(self)),
            final(self).sampling() == old(self).sampling(),
            final(self).ending() == old(self).ending(),
            final(self).started() == old(self).started(),
            final(self).failed_with() == old(self).failed_with(),
    {
        let (event, flush_first) = match &sample {
            None => {
                if matches!(self.watermark, BundleWatermark::Complete) {
                    self.watermark = BundleWatermark::Truncated;
                }
                let suspended = make_event(
                    WalEventType::ObserveSuspended,
                    self.run_id.as_str(),
                    clock.secs,
                    None,
                );
                (suspended, true)
            },
            Some(e) => (e.to_wal_event(), false),
        };
        Tick { sample, event: Some(event), flush_first }
    }

    /// Gives out the events for the bundle of what the process did, once the event of the tick is in
    /// the bundle.
    pub fn report(&mut self, clock: Clock) -> (r: Vec<WalEvent>)
        requires
            old(self).auditing().wf(),
            old(self).auditing().upcoming() < u64::MAX,
        ensures
            old(self).reported(r@, clock),
            final(self).auditing().wf(),
            final(self).auditing().queued().len() == 0,
            final(self).auditing().lost() == 0,
            final(self).auditing().capacity() == old(self).auditing().capacity(),
            final(self).auditing().upcoming() == old(self).auditing().upcoming() + (if old(
                self,
            ).auditing().lost() == 0 {
                0int
            } else {
                1
            }),
            final(self).same_run(*old(self)),
            final(self).sampling() == old(self).sampling(),
            final(self).mark() == old(self).mark(),
            final(self).ending() == old(self).ending(),
            final(self).started() == old(self).started(),
            final(self).failed_with() == old(self).failed_with(),
    {
        let audits = self.audit.drain(clock.wall_ns);
        let mut events: Vec<WalEvent> = Vec::new();
        for i in 0..audits.len()
            invariant
                events@.len() == i,
                forall|j: int| 0 <= j < i ==> audits@[j].logged_as(#[trigger] events@[j]),
        {
            events.push(audits[i].to_wal_event());
        }
        assert(old(self).auditing().gives(audits@, clock.wall_ns));
        events
    }

    /// Samples if the guard and the budget admit it, and gives out the event for the bundle. Where
    /// no sample came, the bundle is marked. What the process did stays queued. `process_start_time` may be 0: then the start of the
    /// attached process counts.
    pub fn gated_tick<R: FnOnce() -> (StackReading, Clock)>(
        &mut self,
        process_start_time: u64,
        read: R,
        clock: Clock,
    ) -> (r: Result<Tick, String>)
        requires
            old(self).ready(),
            read.requires(()),
        ensures
            final(self).same_run(*old(self)),
            final(self).auditing() == old(self).auditing(),
            final(self).sampling().wf(),
            final(self).sampling().same_target(old(self).sampling()),
            final(self).ending() == old(self).ending(),
            final(self).started() == old(self).started(),
            final(self).failed_with() == old(self).failed_with(),
            old(self).ending() ==> r is Ok && (r->Ok_0).sample is None && (r->Ok_0).event is None
                && !(r->Ok_0).flush_first && *final(self) == *old(self),
            !old(self).ending() && (old(self).sampling().drops_next() || (old(
                self).guarding().pin() matches Some(p) && p > 80)) ==> r is Ok && (
            r->Ok_0).sample is None,
            old(self).guarding().pin() is Some ==> r is Ok,
            !old(self).ending() ==> !final(self).sampling().drops_next() && match r {
                Ok(t) => {
                    &&& old(self).told(t, clock)
                    &&& final(self).mark() == old(self).mark_after(t.sample)
                    &&& match t.sample {
                        Some(e) => {
                            &&& final(self).sampling().queued() == old(
                                self).sampling().queued().push(e@)
                            &&& final(self).sampling().lost() == old(self).sampling().lost()
                            &&& final(self).sampling().upcoming() == old(
                                self).sampling().upcoming() + 1
                            &&& e.process_start_time == old(self).start_for(process_start_time)
                            &&& e.pid == old(self).sampling().target()
                            &&& !old(self).budgeting().strained(0)
                            &&& guard::ceiling(old(self).guarding().measure()) > 0
                            &&& exists|reading: StackReading, at: Clock|
                                #![trigger read.ensures((), (reading, at))]
                                read.ensures((), (reading, at)) && e@ == sampler::sample_of(
                                    old(self).sampling().upcoming(),
                                    old(self).sampling().target(),
                                    reading,
                                    at,
                                    old(self).start_for(process_start_time),
                                )
                        },
                        None => {
                            &&& final(self).sampling().queued() == old(self).sampling().queued()
                            &&& old(self).went_without(final(self).sampling())
                        },
                    }
                },
                Err(m) => {
                    &&& m@
                        == "Resource guard check failed: RSS memory exceeds configured safety ceiling"@
                    &&& final(self).mark() == old(self).mark()
                    &&& final(self).sampling().queued() == old(self).sampling().queued()
                    &&& final(self).sampling().lost() == old(self).sampling().lost()
                    &&& final(self).sampling().upcoming() == old(self).sampling().upcoming()
                },
            },
    {
        if self.stopped {
            return Ok(Tick { sample: None, event: None, flush_first: false });
        }
        let pts = if process_start_time == 0 {
            self.process_start_time
        } else {
            process_start_time
        };
        match self.sampler.gated_tick(&self.guard, &self.budget, read, pts) {
            Ok(sample) => Ok(self.fan_out(sample, clock)),
            Err(m) => Err(m),
        }
    }

    /// What a tick without a sample does to the sampler: a forced drop is counted; otherwise the
    /// tick was put off, or the queue was full and the sample dropped.
    pub open spec fn went_without(self, after: OutOfProcessSampler) -> bool {
        if self.sampling().drops_next() {
            &&& after.lost() == self.sampling().lost() + 1
            &&& after.upcoming() == self.sampling().upcoming()
        } else {
            ||| after.lost() == self.sampling().lost() && after.upcoming()
                == self.sampling().upcoming()
            ||| self.sampling().queued().len() >= self.sampling().capacity() && after.lost()
                == self.sampling().lost() + 1 && after.upcoming() == self.sampling().upcoming() + 1
        }
    }

    /// Whether a collector that has made `done` of at most `ticks` ticks makes another one: not
    /// after the deadline, and not after it was stopped.
    pub fn goes_on(&self, done: usize, ticks: usize, now_ns: u64, deadline_ns: u64) -> (r: bool)
        ensures
            r == (done < ticks && now_ns < deadline_ns && !self.ending()),
    {
        done < ticks && now_ns < deadline_ns && !self.stopped
    }

    /// How long a collector sleeps between ticks, in microseconds: the interval of the sampler, but
    /// no more than 50 milliseconds.
    pub fn nap_us(&self) -> (r: u64)
        requires
            self.sampling().sound(),
        ensures
            r == (if 1_000_000u64 / self.sampling().rate() < 50_000 {
                1_000_000u64 / self.sampling().rate()
            } else {
                50_000
            }),
    {
        let us = self.sampler.interval();
        if us < 50_000 {
            us
        } else {
            50_000
        }
    }

    /// Whether the counts have room for another tick.
    pub fn has_room(&self) -> (r: bool)
        requires
            self.sampling().wf(),
            self.auditing().wf(),
        ensures
            r == self.ready(),
    {
        self.sampler.has_room() && self.audit.upcoming_id() < u64::MAX && (
        self.budget.measured() as u64) <= 0x80_0000_0000_0000
    }

    /// Has the guard go by the setting for the pinned pressure as it now stands.
    pub fn repin(&mut self, setting: &Option<String>)
        ensures
            match final(self).guarding().pin() {
                Some(p) => guard::pinned_pressure(*setting) == Some(p as int),
                None => guard::pinned_pressure(*setting) is None,
            },
            final(self).guarding().rules() == old(self).guarding().rules(),
            final(self).guarding().measure() == old(self).guarding().measure(),
            final(self).budgeting() == old(self).budgeting(),
            final(self).sampling() == old(self).sampling(),
            final(self).auditing() == old(self).auditing(),
            final(self).run() == old(self).run(),
            final(self).place() == old(self).place(),
            final(self).level() == old(self).level(),
            final(self).began_at() == old(self).began_at(),
            final(self).mark() == old(self).mark(),
            final(self).failed_with() == old(self).failed_with(),
            final(self).ending() == old(self).ending(),
            final(self).started() == old(self).started(),
    {
        self.guard.repin(setting);
    }

    /// What a failure does: it is kept, the bundle is marked by the level, and an event tells of it.
    /// The mark on the bundle never gets better.
    pub open spec fn fails(
        self,
        after: ObserveSupervisor,
        failure: CollectorFailure,
        clock: Clock,
        event: WalEvent,
    ) -> bool {
        &&& after.failed_with() == Some(failure)
        &&& after.mark() == (if self.mark() == BundleWatermark::Incomplete {
            self.mark()
        } else {
            mark_of(self.level())
        })
        &&& run_event(
            event,
            if failure == CollectorFailure::PressureSpike {
                WalEventType::ObserveSuspended
            } else {
                WalEventType::ObserveTruncated
            },
            self.run(),
            clock.secs,
            Some(failure_output(failure, self.level(), after.mark())),
        )
        &&& after.same_run(self)
        &&& after.sampling() == self.sampling()
        &&& after.auditing() == self.auditing()
        &&& after.ending() == self.ending()
        &&& after.started() == self.started()
    }

    /// What follows where an event could not be put into the bundle because of `error`: the event
    /// that tells of it, if there is one, and the error to hand on. A sample that is lost so is a
    /// failure of the disk.
    pub fn append_failed(&mut self, sampled: bool, error: &str, clock: Clock) -> (r: (
        Option<WalEvent>,
        String,
    ))
        ensures
            match r.0 {
                Some(event) => {
                    &&& sampled
                    &&& old(self).fails(*final(self), CollectorFailure::DiskFull, clock, event)
                    &&& r.1@ == "bundle append failed (disk-full): "@ + error@
                },
                None => !sampled && r.1@ == error@ && *final(self) == *old(self),
            },
    {
        if !sampled {
            return (None, error.to_owned());
        }
        let (_mark, event) = self.on_failure(CollectorFailure::DiskFull, clock);
        let mut words = "bundle append failed (disk-full): ".to_owned();
        words.append(error);
        (Some(event), words)
    }

    /// Notes a failure. Gives the mark that it leaves and the event for the bundle.
    pub fn on_failure(&mut self, failure: CollectorFailure, clock: Clock) -> (r: (
        BundleWatermark,
        WalEvent,
    ))
        ensures
            r.0 == mark_of(old(self).level()),
            old(self).fails(*final(self), failure, clock, r.1),
    {
        self.last_failure = Some(failure);
        let decision = dal_decision_for(self.dal);
        let wm = match decision {
            DalDecision::Halt => BundleWatermark::Incomplete,
            DalDecision::Degraded | DalDecision::Proceed => BundleWatermark::Truncated,
        };
        if !matches!(self.watermark, BundleWatermark::Incomplete) {
            self.watermark = wm;
        }
        let kind = match failure {
            CollectorFailure::PressureSpike => WalEventType::ObserveSuspended,
            _ => WalEventType::ObserveTruncated,
        };
        let output = Object::new().with(
            "failure".to_owned(),
            Value::from_text(failure.as_str()),
        ).with("dal".to_owned(), Value::from_text(self.dal.as_str())).with(
            "decision".to_owned(),
            Value::from_text(decision.as_str()),
        ).with("watermark".to_owned(), Value::from_text(self.watermark.as_str())).with(
            "note".to_owned(),
            Value::from_text("target never signalled; collector Halt never kills target"),
        );
        let event = make_event(
            kind,
            self.run_id.as_str(),
            clock.secs,
            Some(Value::Object(output)),
        );
        (wm, event)
    }

    /// The event that ends the bundle.
    pub fn finalize(&self, clock: Clock) -> (r: WalEvent)
        ensures
            run_event(
                r,
                WalEventType::ObserveCompleted,
                self.run(),
                clock.secs,
                Some(
                    completion_output(
                        self.mark(),
                        (if clock.mono_ns >= self.began_at() {
                            (clock.mono_ns - self.began_at()) / 1_000_000
                        } else {
                            0
                        }) as u64,
                        self.level(),
                    ),
                ),
            ),
    {
        let elapsed_ms: u64 = if clock.mono_ns >= self.started_ns {
            (clock.mono_ns - self.started_ns) / 1_000_000
        } else {
            0
        };
        let output = Object::new().with(
            "watermark".to_owned(),
            Value::from_text(self.watermark.as_str()),
        ).with("elapsed_ms".to_owned(), Value::from_natural(elapsed_ms)).with(
            "dal".to_owned(),
            Value::from_text(self.dal.as_str()),
        );
        make_event(
            WalEventType::ObserveCompleted,
            self.run_id.as_str(),
            clock.secs,
            Some(Value::Object(output)),
        )
    }

    /// The level in force: the one of the command line, or that of the configuration.
    pub fn resolve_dal(cli_dal: Option<&str>, config: &RuntimoConfig, env: &Environment) -> (r:
        String)
        ensures
            r@ == (match cli_dal {
                Some(d) if d@.len() > 0 => text::capitals(d@),
                _ => config.dal_in_force(*env),
            }),
    {
        if let Some(d) = cli_dal {
            if !d.is_empty() {
                return text::upper_ascii(d);
            }
        }
        config.get_dal(env)
    }

    /// Has the next tick drop its sample.
    pub fn inject_drop_next(&mut self)
        ensures
            final(self).sampling().drops_next(),
            final(self).ready() == old(self).ready(),
            final(self).sampling().wf() == old(self).sampling().wf(),
            final(self).same_run(*old(self)),
            final(self).sampling().queued() == old(self).sampling().queued(),
            final(self).sampling().lost() == old(self).sampling().lost(),
            final(self).sampling().upcoming() == old(self).sampling().upcoming(),
            final(self).sampling().same_target(old(self).sampling()),
            final(self).auditing() == old(self).auditing(),
            final(self).mark() == old(self).mark(),
            final(self).failed_with() == old(self).failed_with(),
            final(self).ending() == old(self).ending(),
            final(self).started() == old(self).started(),
    {
        self.sampler.inject_drop_next();
    }

    /// The hook for what the process does.
    pub fn audit_hook(&self) -> (r: &AuditHook)
        ensures
            *r == self.auditing(),
    {
        &self.audit
    }

    /// Records what the process did.
    pub fn record(&mut self, kind: AuditKind, target: String, ts_ns: u64) -> (r: Option<AuditEvent>)
        requires
            old(self).auditing().wf(),
            old(self).auditing().roomy(),
        ensures
            final(self).auditing().wf(),
            old(self).auditing().takes(final(self).auditing(), r),
            r matches Some(e) ==> e.made(
                old(self).auditing().upcoming() as u64,
                ts_ns,
                kind,
                target@,
            ),
            final(self).same_run(*old(self)),
            final(self).sampling() == old(self).sampling(),
            final(self).mark() == old(self).mark(),
            final(self).failed_with() == old(self).failed_with(),
            final(self).ending() == old(self).ending(),
            final(self).started() == old(self).started(),
    {
        self.audit.record(kind, target, ts_ns)
    }

    /// Microseconds between samples.
    pub fn sampler_interval(&self) -> (r: u64)
        requires
            self.sampling().sound(),
        ensures
            r == 1_000_000u64 / self.sampling().rate(),
    {
        self.sampler.interval()
    }

    /// Samples per second.
    pub fn sampler_rate_hz(&self) -> (r: u64)
        requires
            self.sampling().sound(),
        ensures
            r == self.sampling().rate(),
    {
        self.sampler.rate_hz()
    }
}

/// Once a collection is given up its bundle stays marked so, and no failure makes a mark better: at
/// the level `A` every failure has the collection given up, at any other it leaves a mark at least.
pub proof fn law_marks_never_improve(
    before: BundleWatermark,
    dal: DesignAssuranceLevel,
    after: BundleWatermark,
)
    requires
        after == (if before == BundleWatermark::Incomplete {
            before
        } else {
            mark_of(dal)
        }),
    ensures
        before.rank() <= after.rank(),
        after != BundleWatermark::Complete,
        dal == DesignAssuranceLevel::A ==> after == BundleWatermark::Incomplete,
{
}

// ---------------------------------------------------------------------------
// The start of a process
// ---------------------------------------------------------------------------

/// The path of the state of a process.
pub open spec fn stat_path(pid: u32) -> Seq<char> {
    "/proc/"@ + text::decimal(pid as nat) + "/stat"@
}

/// What follows on the last closing bracket of a text, where it has one.
pub open spec fn after_bracket(s: Seq<char>) -> Option<Seq<char>>
    decreases s.len(),
{
    if s.len() == 0 {
        None
    } else if s.last() == ')' {
        Some(Seq::empty())
    } else {
        match after_bracket(s.drop_last()) {
            Some(t) => Some(t.push(s.last())),
            None => None,
        }
    }
}

/// The start of a process by the text of its state: field 22, which is the twentieth after the name
/// of the process in brackets.
pub open spec fn start_in(pid: u32, content: Result<String, String>) -> Result<int, Seq<char>> {
    match content {
        Err(e) => Err("failed to read "@ + stat_path(pid) + ": "@ + e@),
        Ok(c) => match after_bracket(c@) {
            None => Err("malformed "@ + stat_path(pid)),
            Some(rest) => {
                let fields = text::words(rest);
                if fields.len() <= 19 {
                    Err("missing starttime field in "@ + stat_path(pid))
                } else {
                    match text::parsed(fields[19], 10, u64::MAX as int) {
                        Some(t) => Ok(t),
                        None => Err(
                            "failed to parse starttime in "@ + stat_path(pid) + ": "@ + text::fault(
                                fields[19],
                                u64::MAX as int,
                            ),
                        ),
                    }
                }
            },
        },
    }
}

proof fn lemma_after_bracket(s: Seq<char>, k: int)
    requires
        0 <= k < s.len(),
        s[k] == ')',
        forall|j: int| k < j < s.len() ==> #[trigger] s[j] != ')',
    ensures
        after_bracket(s) == Some(s.skip(k + 1)),
    decreases s.len(),
{
    if k == s.len() - 1 {
        assert(s.skip(k + 1) =~= Seq::<char>::empty());
    } else {
        lemma_after_bracket(s.drop_last(), k);
        assert(s.drop_last().skip(k + 1).push(s.last()) =~= s.skip(k + 1));
    }
}

proof fn lemma_no_bracket(s: Seq<char>)
    requires
        forall|j: int| 0 <= j < s.len() ==> #[trigger] s[j] != ')',
    ensures
        after_bracket(s) is None,
    decreases s.len(),
{
    if s.len() > 0 {
        lemma_no_bracket(s.drop_last());
    }
}

fn behind_bracket(s: &str) -> (r: Option<String>)
    ensures
        match r {
            Some(t) => after_bracket(s@) == Some(t@),
            None => after_bracket(s@) is None,
        },
{
    let cs = text::chars_of(s);
    let mut i = cs.len();
    while i > 0
        invariant
            cs@ == s@,
            i <= cs@.len(),
            forall|j: int| i <= j < cs@.len() ==> #[trigger] cs@[j] != ')',
        decreases i,
    {
        if cs[i - 1] == ')' {
            proof {
                lemma_after_bracket(s@, i - 1);
                assert(s@.skip(i as int) =~= s@.subrange(i as int, s@.len() as int));
            }
            return Some(text::string_of(&cs, i, cs.len()));
        }
        i = i - 1;
    }
    proof {
        lemma_no_bracket(s@);
    }
    None
}

impl ObserveSupervisor {
    /// The start of a process, by what reading its state gave.
    pub fn read_proc_starttime(pid: u32, content: &Result<String, String>) -> (r: Result<u64, String>)
        ensures
            match r {
                Ok(t) => start_in(pid, *content) == Result::<int, Seq<char>>::Ok(t as int),
                Err(m) => start_in(pid, *content) == Result::<int, Seq<char>>::Err(m@),
            },
    {
        let mut path = "/proc/".to_owned();
        path.append(text::decimal_text(pid as u64).as_str());
        path.append("/stat");
        let text = match content {
            Ok(c) => c,
            Err(e) => {
                let mut m = "failed to read ".to_owned();
                m.append(path.as_str());
                m.append(": ");
                m.append(e.as_str());
                return Err(m);
            },
        };
        let rest = match behind_bracket(text.as_str()) {
            Some(t) => t,
            None => {
                let mut m = "malformed ".to_owned();
                m.append(path.as_str());
                return Err(m);
            },
        };
        let fields = text::split_words(rest.as_str());
        if fields.len() <= 19 {
            let mut m = "missing starttime field in ".to_owned();
            m.append(path.as_str());
            return Err(m);
        }
        match text::parse_number(fields[19].as_str(), 10, u64::MAX) {
            Some(t) => Ok(t),
            None => {
                let mut m = "failed to parse starttime in ".to_owned();
                m.append(path.as_str());
                m.append(": ");
                m.append(text::number_fault(fields[19].as_str(), u64::MAX));
                Err(m)
            },
        }
    }
}


// ---------------------------------------------------------------------------
// What holds of every run
// ---------------------------------------------------------------------------

/// What a failure means at each level, and how it marks the bundle: `A` gives the collection up and
/// leaves it incomplete, `E` goes on, the others go on with marks.
pub proof fn law_consequences(dal: DesignAssuranceLevel)
    ensures
        consequence(dal) == DalDecision::Halt <==> dal == DesignAssuranceLevel::A,
        consequence(dal) == DalDecision::Proceed <==> dal == DesignAssuranceLevel::E,
        mark_of(dal) == BundleWatermark::Incomplete <==> dal == DesignAssuranceLevel::A,
        mark_of(dal) == BundleWatermark::Truncated <==> dal != DesignAssuranceLevel::A,
        BundleWatermark::Complete.name() == "Complete"@,
        BundleWatermark::Truncated.name() == "Truncated"@,
        BundleWatermark::Incomplete.name() == "Incomplete"@,
        DalDecision::Halt.name() == "Halt"@,
        DalDecision::Degraded.name() == "Degraded"@,
        DalDecision::Proceed.name() == "Proceed"@,
        CollectorFailure::CollectorKilled.name() == "collector-killed"@,
        CollectorFailure::DiskFull.name() == "disk-full"@,
        CollectorFailure::ClockSkew.name() == "clock-skew"@,
        CollectorFailure::Restart.name() == "restart"@,
        CollectorFailure::PressureSpike.name() == "pressure-spike"@,
{
}

/// A new run stands at its beginning: nothing is sampled, nothing recorded, nothing missing. It is
/// announced under its own name.
pub proof fn law_new_run(
    run_id: &str,
    hz: u64,
    dal: &str,
    suspend_ms: u64,
    bundle: &str,
    guard: LlmoSafeGuard,
    kept: BudgetState,
    own_pid: u32,
    clock: Clock,
    r: (ObserveSupervisor, WalEvent),
)
    requires
        call_ensures(
            ObserveSupervisor::new,
            (run_id, hz, dal, suspend_ms, bundle, guard, &kept, own_pid, clock),
            r,
        ),
    ensures
        r.0.run() == run_id@,
        r.0.place() == bundle@,
        r.0.guarding() == guard,
        r.0.budgeting().window() == 30,
        suspend_ms < 2000 ==> r.0.budgeting().pause() == 1,
        suspend_ms >= 1000 ==> r.0.budgeting().pause() == suspend_ms / 1000,
        r.0.sampling().target() == own_pid,
        hz == 0 ==> r.0.sampling().rate() == 50,
        1 <= hz <= 1000 ==> r.0.sampling().rate() == hz,
        hz > 1000 ==> r.0.sampling().rate() == 1000,
        r.0.sampling().queued().len() == 0 && r.0.sampling().lost() == 0,
        r.0.auditing().queued().len() == 0 && r.0.auditing().lost() == 0,
        r.0.mark() == BundleWatermark::Complete,
        r.0.failed_with() is None,
        !r.0.ending(),
        r.0.began_at() == clock.mono_ns,
        r.0.started() == 0,
        r.1.event_type == WalEventType::ObserveStarted,
        r.1.job_id@ == run_id@,
        r.1.ts == clock.secs,
        r.1.output is None,
{
}

/// A process is attached to unless its number is 0; from there on it is the one that is sampled, at
/// the rate from before, and nothing of another waits.
pub proof fn law_attaching(
    before: ObserveSupervisor,
    after: ObserveSupervisor,
    pid: u32,
    start: u64,
    clock: Clock,
    r: Result<(), AttachRefused>,
)
    requires
        exists|s: &mut ObserveSupervisor|
            *s == before && *final(s) == after && #[trigger] call_ensures(
                ObserveSupervisor::attach,
                (s, pid, start, clock),
                r,
            ),
    ensures
        r is Ok <==> pid != 0,
        r is Ok ==> after.sampling().target() == pid && after.sampling().started() == start
            && after.started() == start,
        r is Ok ==> after.sampling().rate() == before.sampling().rate()
            && after.sampling().queued().len() == 0 && after.sampling().lost() == 0,
        r is Err ==> after == before && (r->Err_0).error@
            == "attach(0) rejected: PID 0 is the kernel idle task"@,
        r is Err ==> (r->Err_0).event.event_type == WalEventType::ObserveTruncated && (
        r->Err_0).event.job_id@ == before.run() && (r->Err_0).event.ts == clock.secs && (
        r->Err_0).event.output is Some && ((r->Err_0).event.output->0)@ == refusal_output(
            before.level(),
        ),
        after.run() == before.run(),
        after.mark() == before.mark(),
        after.level() == before.level(),
        after.auditing() == before.auditing(),
{
}

/// The refusal of an attachment says why, and at which level.
pub proof fn law_refusal_output(dal: DesignAssuranceLevel)
    ensures
        json::member(refusal_output(dal), "error"@) == Some(
            Json::Text("attach(0) rejected: PID 0 is the kernel idle task"@),
        ),
        json::member(refusal_output(dal), "dal"@) == Some(Json::Text(dal.letter())),
{
    reveal_strlit("error");
    reveal_strlit("dal");
    assert("error"@.len() == 5 && "dal"@.len() == 3);
    let none = Seq::<(Seq<char>, Json)>::empty();
    let why = Json::Text("attach(0) rejected: PID 0 is the kernel idle task"@);
    json::law_insertion(none, "error"@, why, "dal"@);
    json::law_insertion(
        json::inserted(none, "error"@, why),
        "dal"@,
        Json::Text(dal.letter()),
        "error"@,
    );
}

/// The record of a failure says which it was, at which level, what it means and how the bundle is
/// marked; the observed process is left alone.
pub proof fn law_failure_output(
    failure: CollectorFailure,
    dal: DesignAssuranceLevel,
    mark: BundleWatermark,
)
    ensures
        ({
            let o = failure_output(failure, dal, mark);
            &&& json::member(o, "failure"@) == Some(Json::Text(failure.name()))
            &&& json::member(o, "dal"@) == Some(Json::Text(dal.letter()))
            &&& json::member(o, "decision"@) == Some(Json::Text(consequence(dal).name()))
            &&& json::member(o, "watermark"@) == Some(Json::Text(mark.name()))
            &&& json::member(o, "note"@) == Some(
                Json::Text("target never signalled; collector Halt never kills target"@),
            )
        }),
{
    reveal_strlit("failure");
    reveal_strlit("dal");
    reveal_strlit("decision");
    reveal_strlit("watermark");
    reveal_strlit("note");
    assert("failure"@.len() == 7 && "dal"@.len() == 3 && "decision"@.len() == 8);
    assert("watermark"@.len() == 9 && "note"@.len() == 4);
    let none = Seq::<(Seq<char>, Json)>::empty();
    let a = Json::Text(failure.name());
    let b = Json::Text(dal.letter());
    let c = Json::Text(consequence(dal).name());
    let d = Json::Text(mark.name());
    let e = Json::Text("target never signalled; collector Halt never kills target"@);
    let one = json::inserted(none, "failure"@, a);
    let two = json::inserted(one, "dal"@, b);
    let three = json::inserted(two, "decision"@, c);
    let four = json::inserted(three, "watermark"@, d);
    json::law_insertion(none, "failure"@, a, "dal"@);
    json::law_insertion(one, "dal"@, b, "failure"@);
    json::law_insertion(two, "decision"@, c, "failure"@);
    json::law_insertion(two, "decision"@, c, "dal"@);
    json::law_insertion(three, "watermark"@, d, "failure"@);
    json::law_insertion(three, "watermark"@, d, "dal"@);
    json::law_insertion(three, "watermark"@, d, "decision"@);
    json::law_insertion(four, "note"@, e, "failure"@);
    json::law_insertion(four, "note"@, e, "dal"@);
    json::law_insertion(four, "note"@, e, "decision"@);
    json::law_insertion(four, "note"@, e, "watermark"@);
}

/// A failure marks the bundle by the level, never for the better, and is recorded under the run;
/// a spike of pressure counts as a suspension, any other failure as a truncation.
pub proof fn law_failures(
    before: ObserveSupervisor,
    after: ObserveSupervisor,
    failure: CollectorFailure,
    clock: Clock,
    r: (BundleWatermark, WalEvent),
)
    requires
        exists|s: &mut ObserveSupervisor|
            *s == before && *final(s) == after && #[trigger] call_ensures(
                ObserveSupervisor::on_failure,
                (s, failure, clock),
                r,
            ),
    ensures
        before.level() == DesignAssuranceLevel::A ==> r.0 == BundleWatermark::Incomplete
            && after.mark() == BundleWatermark::Incomplete,
        before.level() != DesignAssuranceLevel::A ==> r.0 == BundleWatermark::Truncated,
        before.level() != DesignAssuranceLevel::A && before.mark() != BundleWatermark::Incomplete
            ==> after.mark() == BundleWatermark::Truncated,
        before.mark() == BundleWatermark::Incomplete ==> after.mark()
            == BundleWatermark::Incomplete,
        after.failed_with() == Some(failure),
        failure == CollectorFailure::PressureSpike ==> r.1.event_type
            == WalEventType::ObserveSuspended,
        failure != CollectorFailure::PressureSpike ==> r.1.event_type
            == WalEventType::ObserveTruncated,
        r.1.job_id@ == before.run(),
        r.1.ts == clock.secs,
        r.1.output is Some && (r.1.output->0)@ == failure_output(
            failure,
            before.level(),
            after.mark(),
        ),
        after.sampling() == before.sampling(),
        after.auditing() == before.auditing(),
        after.ending() == before.ending(),
        after.run() == before.run(),
{
}

/// A bundle that cannot be written to is a full disk where a sample was lost by it, and only an
/// error where none was.
pub proof fn law_append_failures(
    before: ObserveSupervisor,
    after: ObserveSupervisor,
    sampled: bool,
    error: &str,
    clock: Clock,
    r: (Option<WalEvent>, String),
)
    requires
        exists|s: &mut ObserveSupervisor|
            *s == before && *final(s) == after && #[trigger] call_ensures(
                ObserveSupervisor::append_failed,
                (s, sampled, error, clock),
                r,
            ),
    ensures
        r.0 is Some <==> sampled,
        !sampled ==> after == before && r.1@ == error@,
        sampled ==> after.failed_with() == Some(CollectorFailure::DiskFull) && r.1@
            == "bundle append failed (disk-full): "@ + error@,
        sampled ==> (r.0->0).event_type == WalEventType::ObserveTruncated && (r.0->0).job_id@
            == before.run(),
        sampled ==> after.mark() != BundleWatermark::Complete,
{
}

/// The end of a run is recorded with its mark, how long it took in milliseconds, and the level.
pub proof fn law_completion(s: ObserveSupervisor, clock: Clock, r: WalEvent)
    requires
        call_ensures(ObserveSupervisor::finalize, (&s, clock), r),
        0 <= s.began_at() <= u64::MAX,
    ensures
        r.event_type == WalEventType::ObserveCompleted,
        r.job_id@ == s.run(),
        r.ts == clock.secs,
        r.output is Some,
        json::member((r.output->0)@, "watermark"@) == Some(Json::Text(s.mark().name())),
        json::member((r.output->0)@, "dal"@) == Some(Json::Text(s.level().letter())),
        clock.mono_ns >= s.began_at() ==> json::member((r.output->0)@, "elapsed_ms"@) == Some(
            Json::Number(Num::PosInt(((clock.mono_ns - s.began_at()) / 1_000_000) as u64)),
        ),
        clock.mono_ns < s.began_at() ==> json::member((r.output->0)@, "elapsed_ms"@) == Some(
            Json::Number(Num::PosInt(0)),
        ),
{
    reveal_strlit("watermark");
    reveal_strlit("elapsed_ms");
    reveal_strlit("dal");
    assert("watermark"@.len() == 9 && "elapsed_ms"@.len() == 10 && "dal"@.len() == 3);
    let ms = (if clock.mono_ns >= s.began_at() {
        (clock.mono_ns - s.began_at()) / 1_000_000
    } else {
        0
    }) as u64;
    let none = Seq::<(Seq<char>, Json)>::empty();
    let a = Json::Text(s.mark().name());
    let b = Json::Number(Num::PosInt(ms));
    let c = Json::Text(s.level().letter());
    let one = json::inserted(none, "watermark"@, a);
    let two = json::inserted(one, "elapsed_ms"@, b);
    json::law_insertion(none, "watermark"@, a, "dal"@);
    json::law_insertion(one, "elapsed_ms"@, b, "watermark"@);
    json::law_insertion(two, "dal"@, c, "watermark"@);
    json::law_insertion(two, "dal"@, c, "elapsed_ms"@);
    assert((r.output->0)@ == Json::Object(json::inserted(two, "dal"@, c)));
}

/// A tick that went without a sample is told of as a suspension, at once, and a bundle that was
/// complete is so no longer; one with a sample hands the sample on and changes no mark.
pub proof fn law_fan_out(
    before: ObserveSupervisor,
    after: ObserveSupervisor,
    sample: Option<SampleEvent>,
    clock: Clock,
    t: Tick,
)
    requires
        exists|s: &mut ObserveSupervisor|
            *s == before && *final(s) == after && #[trigger] call_ensures(
                ObserveSupervisor::fan_out,
                (s, sample, clock),
                t,
            ),
    ensures
        t.sample == sample,
        t.event is Some,
        sample is Some ==> !t.flush_first && after.mark() == before.mark() && (t.event->0).seq
            == (sample->0).seq && (t.event->0).job_id@ == "sample-"@ + text::decimal(
            (sample->0).seq as nat,
        ),
        sample is None ==> t.flush_first && (t.event->0).event_type
            == WalEventType::ObserveSuspended && (t.event->0).job_id@ == before.run() && (
        t.event->0).ts == clock.secs && (t.event->0).output is None,
        sample is None && before.mark() == BundleWatermark::Complete ==> after.mark()
            == BundleWatermark::Truncated,
        sample is None && before.mark() != BundleWatermark::Complete ==> after.mark()
            == before.mark(),
        after.sampling() == before.sampling(),
        after.auditing() == before.auditing(),
        after.run() == before.run(),
        after.ending() == before.ending(),
{
    if sample is Some {
        assert((sample->0)@.seq == (sample->0).seq);
    }
}

/// What was recorded is reported in order, each as its own event; nothing waits from there on.
pub proof fn law_reports(
    before: ObserveSupervisor,
    after: ObserveSupervisor,
    clock: Clock,
    r: Vec<WalEvent>,
    i: int,
)
    requires
        exists|s: &mut ObserveSupervisor|
            *s == before && *final(s) == after && #[trigger] call_ensures(
                ObserveSupervisor::report,
                (s, clock),
                r,
            ),
    ensures
        after.auditing().queued().len() == 0,
        after.auditing().lost() == 0,
        before.auditing().lost() == 0 ==> r@.len() == before.auditing().queued().len(),
        before.auditing().lost() > 0 ==> r@.len() == before.auditing().queued().len() + 1
            && r@.last().event_type == WalEventType::ObserveTruncated,
        0 <= i < before.auditing().queued().len() ==> r@[i].seq == before.auditing().queued()[i].id
            && r@[i].mono_ns == Some(before.auditing().queued()[i].ts_ns),
        after.sampling() == before.sampling(),
        after.mark() == before.mark(),
        after.run() == before.run(),
{
    let audits = choose|audits: Seq<AuditEvent>|
        {
            &&& #[trigger] before.auditing().gives(audits, clock.wall_ns)
            &&& r@.len() == audits.len()
            &&& forall|i: int| 0 <= i < audits.len() ==> audits[i].logged_as(#[trigger] r@[i])
        };
    let waiting = before.auditing().queued();
    if before.auditing().lost() > 0 {
        assert(audits.drop_last() == waiting);
        assert(audits[audits.len() - 1].logged_as(r@[audits.len() - 1]));
    }
    if 0 <= i < waiting.len() {
        if before.auditing().lost() > 0 {
            assert(audits.drop_last()[i] == audits[i]);
        }
        assert(audits[i] == waiting[i]);
        assert(audits[i].logged_as(r@[i]));
    }
}

/// A loop of ticks goes on while there are ticks and time left and no one has called it off, and
/// naps no longer than fifty milliseconds.
pub proof fn law_loops(
    s: ObserveSupervisor,
    done: usize,
    ticks: usize,
    now_ns: u64,
    deadline_ns: u64,
    r: bool,
    nap: u64,
)
    requires
        call_ensures(ObserveSupervisor::goes_on, (&s, done, ticks, now_ns, deadline_ns), r),
        call_ensures(ObserveSupervisor::nap_us, (&s,), nap),
        1 <= s.sampling().rate() <= 1000,
    ensures
        r ==> done < ticks && now_ns < deadline_ns && !s.ending(),
        done < ticks && now_ns < deadline_ns && !s.ending() ==> r,
        s.sampling().rate() > 20 ==> nap == 1_000_000u64 / s.sampling().rate(),
        s.sampling().rate() <= 20 ==> nap == 50_000,
{
    let rate = s.sampling().rate();
    if rate > 20 {
        assert(1_000_000u64 / rate < 50_000) by (nonlinear_arith)
            requires
                20 < rate <= 1000,
        ;
    } else {
        assert(1_000_000u64 / rate >= 50_000) by (nonlinear_arith)
            requires
                1 <= rate <= 20,
        ;
    }
}

/// The level is the one of the command line where it names one, in capitals, else the one in force.
pub proof fn law_resolved_level(
    given: Option<&str>,
    config: RuntimoConfig,
    env: Environment,
    r: String,
)
    requires
        call_ensures(ObserveSupervisor::resolve_dal, (given, &config, &env), r),
    ensures
        given is Some && (given->0)@.len() > 0 ==> r@ == text::capitals((given->0)@),
        given is Some && (given->0)@.len() == 0 ==> r@ == config.dal_in_force(env),
        given is None ==> r@ == config.dal_in_force(env),
{
}

/// To call a run off, or to tell it when its process began, changes nothing else.
pub proof fn law_called_off(before: ObserveSupervisor, after: ObserveSupervisor)
    requires
        exists|s: &mut ObserveSupervisor|
            *s == before && *final(s) == after && #[trigger] call_ensures(
                ObserveSupervisor::stop,
                (s,),
                (),
            ),
    ensures
        after.ending(),
        after.mark() == before.mark(),
        after.sampling() == before.sampling(),
        after.auditing() == before.auditing(),
        after.run() == before.run(),
        after.failed_with() == before.failed_with(),
{
}

/// What stands behind the last closing bracket of a text.
pub proof fn law_after_bracket(front: Seq<char>, rest: Seq<char>)
    requires
        forall|i: int| 0 <= i < rest.len() ==> #[trigger] rest[i] != ')',
    ensures
        after_bracket(front.push(')') + rest) == Some(rest),
        after_bracket(rest) is None,
    decreases rest.len(),
{
    let all = front.push(')') + rest;
    if rest.len() == 0 {
        assert(all =~= front.push(')'));
        assert(rest =~= Seq::<char>::empty());
    } else {
        law_after_bracket(front, rest.drop_last());
        assert(all.drop_last() =~= front.push(')') + rest.drop_last());
        assert(all.last() == rest.last());
        assert(rest.last() != ')');
        assert(rest.drop_last().push(rest.last()) =~= rest);
    }
}

/// The time at which a process began is the twentieth word behind its name, which may hold brackets
/// of its own; what is wrong with a file that does not tell it is said.
pub proof fn law_start_time(
    pid: u32,
    c: String,
    front: Seq<char>,
    rest: Seq<char>,
    t: nat,
    r: Result<u64, String>,
)
    requires
        c@ == front.push(')') + rest,
        forall|i: int| 0 <= i < rest.len() ==> #[trigger] rest[i] != ')',
        call_ensures(ObserveSupervisor::read_proc_starttime, (pid, &Ok::<String, String>(c)), r),
    ensures
        text::words(rest).len() >= 20 && text::words(rest)[19] == text::decimal(t) && t <= u64::MAX
            ==> r is Ok && r->Ok_0 == t,
        text::words(rest).len() >= 20 && text::words(rest)[19] == text::decimal(t) && t > u64::MAX
            ==> r is Err,
        text::words(rest).len() < 20 ==> r is Err && (r->Err_0)@
            == "missing starttime field in "@ + ("/proc/"@ + text::decimal(pid as nat)
            + "/stat"@),
{
    law_after_bracket(front, rest);
    text::law_decimal(t, u64::MAX as int);
}

/// A file that cannot be read, or that holds no bracket, tells no time.
pub proof fn law_no_start_time(
    pid: u32,
    c: String,
    why: String,
    a: Result<u64, String>,
    b: Result<u64, String>,
)
    requires
        forall|i: int| 0 <= i < c@.len() ==> #[trigger] c@[i] != ')',
        call_ensures(ObserveSupervisor::read_proc_starttime, (pid, &Ok::<String, String>(c)), a),
        call_ensures(
            ObserveSupervisor::read_proc_starttime,
            (pid, &Err::<String, String>(why)),
            b,
        ),
    ensures
        a is Err && (a->Err_0)@ == "malformed "@ + ("/proc/"@ + text::decimal(pid as nat)
            + "/stat"@),
        b is Err && (b->Err_0)@ == "failed to read "@ + ("/proc/"@ + text::decimal(pid as nat)
            + "/stat"@) + ": "@ + why@,
{
    law_after_bracket(Seq::empty(), c@);
}


/// A run that is called off does nothing more. A tick of any other gives a sample of the process it
/// is attached to, or is told of as a suspension; the time at which the process began is the one
/// that is given, and the one that is known where none is.
pub proof fn law_supervised_ticks<R: FnOnce() -> (StackReading, Clock)>(
    before: ObserveSupervisor,
    after: ObserveSupervisor,
    start: u64,
    read: R,
    clock: Clock,
    r: Result<Tick, String>,
)
    requires
        exists|s: &mut ObserveSupervisor|
            *s == before && *final(s) == after && #[trigger] call_ensures(
                ObserveSupervisor::gated_tick::<R>,
                (s, start, read, clock),
                r,
            ),
    ensures
        before.ending() ==> after == before && r is Ok && (r->Ok_0).sample is None && (
        r->Ok_0).event is None && !(r->Ok_0).flush_first,
        !before.ending() && r is Ok && (r->Ok_0).sample is Some ==> ({
            let e = (r->Ok_0).sample->0;
            &&& e.pid == before.sampling().target()
            &&& start != 0 ==> e.process_start_time == start
            &&& start == 0 ==> e.process_start_time == before.started()
            &&& e.seq == before.sampling().upcoming()
            &&& after.sampling().queued() == before.sampling().queued().push(e@)
            &&& after.sampling().upcoming() == before.sampling().upcoming() + 1
            &&& after.mark() == before.mark()
            &&& (r->Ok_0).event is Some && ((r->Ok_0).event->0).seq == e.seq
            &&& !(r->Ok_0).flush_first
            &&& super::budget::total(before.budgeting().kept()) <= 80
                * before.budgeting().kept().len()
        }),
        !before.ending() && r is Ok && (r->Ok_0).sample is None ==> ({
            &&& after.sampling().queued() == before.sampling().queued()
            &&& after.mark() != BundleWatermark::Complete
            &&& before.mark() == BundleWatermark::Incomplete ==> after.mark()
                == BundleWatermark::Incomplete
            &&& (r->Ok_0).event is Some && ((r->Ok_0).event->0).event_type
                == WalEventType::ObserveSuspended && ((r->Ok_0).event->0).job_id@ == before.run()
            &&& (r->Ok_0).flush_first
        }),
        !before.ending() && before.sampling().drops_next() ==> r is Ok && (r->Ok_0).sample is None
            && after.sampling().lost() == before.sampling().lost() + 1,
        !before.ending() && before.guarding().pin() is Some && before.guarding().pin()->0 > 80
            ==> r is Ok && (r->Ok_0).sample is None,
        r is Err ==> after.mark() == before.mark() && after.sampling().queued()
            == before.sampling().queued() && (r->Err_0)@
            == "Resource guard check failed: RSS memory exceeds configured safety ceiling"@,
        after.run() == before.run(),
        after.auditing() == before.auditing(),
{
    if !before.ending() && r is Ok && (r->Ok_0).sample is Some {
        let e = (r->Ok_0).sample->0;
        assert(e@.seq == e.seq);
    }
}

} // verus!
