//! The self-test of observation: that audits are exact, that a bundle at the level `A` is never
//! called complete after a loss, and that tampering is found out.
use vstd::prelude::*;
use vstd::string::*;

use crate::guard::DesignAssuranceLevel;
use crate::json;
use crate::text;
use crate::wal::WalEvent;
use crate::wal::WalEventType;

use super::audit::AuditEvent;
use super::audit::AuditHook;
use super::audit::AuditKind;
use super::bundle::VerifyResult;
use super::sampler::SampleEvent;
use super::sampler::StackReading;
use super::supervisor::BundleWatermark;
use super::supervisor::CollectorFailure;
use super::supervisor::ObserveSupervisor;
use super::Clock;

verus! {

broadcast use vstd::string::group_string_axioms;

/// What a check found.
#[derive(Debug)]
pub struct SelfTestCheck {
    pub name: &'static str,
    pub passed: bool,
    pub detail: String,
}

/// How many events are of a kind.
pub open spec fn count_of(events: Seq<AuditEvent>, kind: AuditKind) -> nat
    decreases events.len(),
{
    if events.len() == 0 {
        0
    } else if events.last().kind == kind {
        count_of(events.drop_last(), kind) + 1
    } else {
        count_of(events.drop_last(), kind)
    }
}

fn count(events: &Vec<AuditEvent>, kind: AuditKind) -> (r: usize)
    ensures
        r == count_of(events@, kind),
{
    let ghost all = events@;
    let mut n: usize = 0;
    assert(all.take(0) =~= Seq::<AuditEvent>::empty());
    for i in 0..events.len()
        invariant
            all == events@,
            n <= i,
            n == count_of(all.take(i as int), kind),
    {
        assert(all.take(i + 1).drop_last() =~= all.take(i as int));
        if events[i].kind == kind {
            n = n + 1;
        }
    }
    assert(all.take(all.len() as int) =~= all);
    n
}

fn none_truncated(events: &Vec<AuditEvent>) -> (r: bool)
    ensures
        r == (forall|i: int| 0 <= i < events@.len() ==> !(#[trigger] events@[i]).truncated),
{
    for i in 0..events.len()
        invariant
            forall|j: int| 0 <= j < i ==> !(#[trigger] events@[j]).truncated,
    {
        if events[i].truncated {
            return false;
        }
    }
    true
}

/// The hook holds `n` events and lost none, of which so many are imports and spawns.
spec fn holds(hook: AuditHook, n: int, imports: int, spawns: int) -> bool {
    &&& hook.wf()
    &&& hook.capacity() == 512
    &&& hook.queued().len() == n
    &&& hook.lost() == 0
    &&& hook.upcoming() == n
    &&& count_of(hook.queued(), AuditKind::Import) == imports
    &&& count_of(hook.queued(), AuditKind::Spawn) == spawns
    &&& forall|i: int| 0 <= i < n ==> !(#[trigger] hook.queued()[i]).truncated
}

fn put(hook: &mut AuditHook, kind: AuditKind, target: String, ts_ns: u64, Ghost(n): Ghost<int>, Ghost(
    imports,
): Ghost<int>, Ghost(spawns): Ghost<int>)
    requires
        holds(*old(hook), n, imports, spawns),
        n < 100,
    ensures
        holds(
            *final(hook),
            n + 1,
            if kind == AuditKind::Import {
                imports + 1
            } else {
                imports
            },
            if kind == AuditKind::Spawn {
                spawns + 1
            } else {
                spawns
            },
        ),
{
    let ghost before = hook.queued();
    let e = hook.record(kind, target, ts_ns);
    proof {
        assert(hook.queued().drop_last() =~= before);
        assert(hook.queued().last().kind == kind);
    }
}

/// The check of audits, passed.
pub open spec fn shows_exactness(c: SelfTestCheck) -> bool {
    &&& c.name@ == "fixture A exactness"@
    &&& c.passed
    &&& c.detail@ == "14 events exact (10 imports + 2 spawns + 1 raise + 1 dynamic), Complete"@
}

/// Ten imports, two spawns, a raise and a load are recorded and come out as they are.
pub fn fixture_a_exactness(ts_ns: u64) -> (r: SelfTestCheck)
    ensures
        shows_exactness(r),
{
    let mut hook = AuditHook::with_capacity(512);
    for i in 0..10u64
        invariant
            holds(hook, i as int, i as int, 0),
    {
        let mut target = "mod_".to_owned();
        target.append(text::decimal_text(i).as_str());
        put(&mut hook, AuditKind::Import, target, ts_ns, Ghost(i as int), Ghost(i as int), Ghost(0));
    }
    put(
        &mut hook,
        AuditKind::Spawn,
        "subprocess.Popen(['ls'])".to_owned(),
        ts_ns,
        Ghost(10),
        Ghost(10),
        Ghost(0),
    );
    put(&mut hook, AuditKind::Spawn, "fork()".to_owned(), ts_ns, Ghost(11), Ghost(10), Ghost(1));
    put(&mut hook, AuditKind::Raise, "ValueError".to_owned(), ts_ns, Ghost(12), Ghost(10), Ghost(2));
    put(
        &mut hook,
        AuditKind::DynamicLoad,
        "ctypes.CDLL('libfoo.so')".to_owned(),
        ts_ns,
        Ghost(13),
        Ghost(10),
        Ghost(2),
    );
    let events = hook.drain(ts_ns);
    let imports_ok = count(&events, AuditKind::Import) == 10;
    let spawns_ok = count(&events, AuditKind::Spawn) == 2;
    let truncated_ok = none_truncated(&events) && hook.dropped() == 0;
    let passed = events.len() == 14 && imports_ok && spawns_ok && truncated_ok;
    let detail = if passed {
        "14 events exact (10 imports + 2 spawns + 1 raise + 1 dynamic), Complete".to_owned()
    } else {
        let mut d = "expected 14, got ".to_owned();
        d.append(text::decimal_text(events.len() as u64).as_str());
        d
    };
    SelfTestCheck { name: "fixture A exactness", passed, detail }
}

/// A check that could not be made.
pub fn unable(name: &'static str, what: &str, why: &str) -> (r: SelfTestCheck)
    ensures
        shows_inability(r, name@, what@, why@),
{
    let mut detail = what.to_owned();
    detail.append(" failed: ");
    detail.append(why);
    SelfTestCheck { name, passed: false, detail }
}

// ---------------------------------------------------------------------------
// Sampling
// ---------------------------------------------------------------------------

/// What came of some ticks.
#[derive(Debug, Clone, Copy, PartialEq, Eq, Structural)]
pub struct Tally {
    /// How many gave a sample.
    pub got: usize,
    /// One of the samples had frames.
    pub covered: bool,
}

impl Tally {
    /// No tick was made yet.
    pub fn new() -> (r: Tally)
        ensures
            r == (Tally { got: 0, covered: false }),
    {
        Tally { got: 0, covered: false }
    }

    /// Counts what came of a tick. One that was put off or failed counts for nothing.
    pub fn count(&mut self, tick: &Result<Option<SampleEvent>, String>)
        requires
            old(self).got < usize::MAX,
        ensures
            *final(self) == (match *tick {
                Ok(Some(e)) => Tally {
                    got: (old(self).got + 1) as usize,
                    covered: old(self).covered || e.frames@.len() > 0,
                },
                _ => *old(self),
            }),
    {
        if let Ok(Some(e)) = tick {
            self.got = self.got + 1;
            if e.frames.len() > 0 {
                self.covered = true;
            }
        }
    }
}

/// The rate at which samples came, against the rate that was asked for.
#[derive(Debug)]
pub struct ObservedRate {
    /// The rate that was asked for, in samples per second.
    pub hz: u64,
    /// It is off by a tenth at most.
    pub within: bool,
    /// The rate, with one decimal.
    pub observed: String,
    /// The lowest rate that is not off, with one decimal.
    pub low: String,
    /// The highest rate that is not off, with one decimal.
    pub high: String,
}

/// Samples came at the rate that was asked for or at half the ticks at least, and showed
/// something.
pub open spec fn samples_well(tally: Tally, ticks: usize, rate: ObservedRate, drained: usize) -> bool {
    (rate.within || tally.got >= ticks / 2) && (tally.covered || drained > 0)
}

/// The findings of the check of sampling as they are shown.
pub open spec fn sampling_text(tally: Tally, ticks: usize, rate: ObservedRate, drained: usize) -> Seq<
    char,
> {
    "hz="@ + text::decimal(rate.hz as nat) + " observed="@ + rate.observed@ + " got "@
        + text::decimal(tally.got as nat) + "/"@ + text::decimal(ticks as nat) + " coverage="@
        + bool_text(tally.covered || drained > 0) + (if samples_well(tally, ticks, rate, drained) {
        " within bounds"@
    } else {
        " out of ["@ + rate.low@ + ","@ + rate.high@ + "]"@
    })
}

/// Judges some ticks. `drained` samples were left in the end.
pub fn fixture_b_sampling_bounds(tally: &Tally, ticks: usize, rate: &ObservedRate, drained: usize) -> (r:
    SelfTestCheck)
    ensures
        r.name@ == "fixture B sampling bounds"@,
        r.passed == samples_well(*tally, ticks, *rate, drained),
        r.detail@ == sampling_text(*tally, ticks, *rate, drained),
{
    let covered = tally.covered || drained > 0;
    let passed = (rate.within || tally.got >= ticks / 2) && covered;
    let mut detail = "hz=".to_owned();
    detail.append(text::decimal_text(rate.hz).as_str());
    detail.append(" observed=");
    detail.append(rate.observed.as_str());
    detail.append(" got ");
    detail.append(text::decimal_text(tally.got as u64).as_str());
    detail.append("/");
    detail.append(text::decimal_text(ticks as u64).as_str());
    detail.append(" coverage=");
    detail.append(
        if covered {
            "true"
        } else {
            "false"
        },
    );
    let end = if passed {
        " within bounds".to_owned()
    } else {
        let mut e = " out of [".to_owned();
        e.append(rate.low.as_str());
        e.append(",");
        e.append(rate.high.as_str());
        e.append("]");
        e
    };
    detail.append(end.as_str());
    SelfTestCheck { name: "fixture B sampling bounds", passed, detail }
}

// ---------------------------------------------------------------------------
// Marks and tampering
// ---------------------------------------------------------------------------

/// The check of marks, passed.
pub open spec fn shows_gate(c: SelfTestCheck) -> bool {
    &&& c.name@ == "DAL-A gate"@
    &&& c.passed
    &&& c.detail@ == "DAL A Halt \u{21d2} Incomplete (never COMPLETE), target never signalled"@
}

/// At the level `A` a forced loss and a failure have the collection given up. The process that is
/// observed is `pid`.
pub fn dal_a_gate(supervisor: &mut ObserveSupervisor, pid: u32, clock: Clock) -> (r: SelfTestCheck)
    requires
        old(supervisor).ready(),
        old(supervisor).level() == DesignAssuranceLevel::A,
    ensures
        shows_gate(r),
        final(supervisor).mark() == BundleWatermark::Incomplete,
        final(supervisor).same_run(*old(supervisor)),
{
    let _attached = supervisor.attach(pid, 0, clock);
    supervisor.inject_drop_next();
    let read = || -> (r: (StackReading, Clock)) {
        (StackReading::Stack(String::new()), clock)
    };
    let _tick = supervisor.gated_tick(0, read, clock);
    let (wm, _event) = supervisor.on_failure(CollectorFailure::PressureSpike, clock);
    let marked = matches!(*supervisor.watermark(), BundleWatermark::Incomplete);
    let passed = matches!(wm, BundleWatermark::Incomplete) && marked;
    let detail = if passed {
        "DAL A Halt \u{21d2} Incomplete (never COMPLETE), target never signalled".to_owned()
    } else {
        "FAIL: must never be Complete on drop".to_owned()
    };
    SelfTestCheck { name: "DAL-A gate", passed, detail }
}

/// The events of the bundle that is tampered with.
pub fn tamper_events() -> (r: Vec<WalEvent>)
    ensures
        r@.len() == 3,
        forall|i: int|
            0 <= i < 3 ==> {
                &&& (#[trigger] r@[i]).ts == 1000 + i
                &&& r@[i].event_type == WalEventType::ObserveBatch
                &&& r@[i].job_id@ == "tamper-"@ + text::decimal(i as nat)
                &&& r@[i].bare()
            },
{
    let mut r: Vec<WalEvent> = Vec::new();
    for i in 0..3u64
        invariant
            r@.len() == i,
            forall|j: int|
                0 <= j < i ==> {
                    &&& (#[trigger] r@[j]).ts == 1000 + j
                    &&& r@[j].event_type == WalEventType::ObserveBatch
                    &&& r@[j].job_id@ == "tamper-"@ + text::decimal(j as nat)
                    &&& r@[j].bare()
                },
    {
        let mut event = WalEvent::default();
        event.ts = 1000 + i;
        event.event_type = WalEventType::ObserveBatch;
        let mut job_id = "tamper-".to_owned();
        job_id.append(text::decimal_text(i).as_str());
        event.job_id = job_id;
        r.push(event);
    }
    r
}

/// Turns every bit of the byte in the middle, unless there are only a few bytes.
pub fn corrupt(content: Vec<u8>) -> (r: Vec<u8>)
    ensures
        r@ == (if content@.len() > 20 {
            content@.update(
                content@.len() as int / 2,
                content@[content@.len() as int / 2] ^ 0xffu8,
            )
        } else {
            content@
        }),
        content@.len() > 20 ==> r@ != content@,
{
    let mut r = content;
    if r.len() > 20 {
        let mid = r.len() / 2;
        let byte = r[mid];
        assert(byte ^ 0xffu8 != byte) by (bit_vector);
        r.set(mid, byte ^ 0xffu8);
        assert(r@[mid as int] != content@[mid as int]);
    }
    r
}

/// A bundle of three events shows that it was tampered with.
pub open spec fn found_out(v: VerifyResult) -> bool {
    !v.hash_ok || v.error is Some || v.truncated_gaps > 0 || v.total != 3
}

/// A truth value as it is shown.
pub open spec fn bool_text(b: bool) -> Seq<char> {
    if b {
        "true"@
    } else {
        "false"@
    }
}

/// A text that may be absent as it is shown.
pub open spec fn option_text(o: Option<String>) -> Seq<char> {
    match o {
        Some(s) => "Some("@ + json::debug_quoted(s@) + ")"@,
        None => "None"@,
    }
}

/// The findings of a check of a bundle as they are shown.
pub open spec fn findings(v: VerifyResult) -> Seq<char> {
    "(hash_ok="@ + bool_text(v.hash_ok) + " total="@ + text::decimal(v.total as nat) + " gaps="@
        + text::decimal(v.truncated_gaps as nat) + " err="@ + option_text(v.error) + ")"@
}

fn show_findings(v: &VerifyResult) -> (r: String)
    ensures
        r@ == findings(*v),
{
    let mut r = "(hash_ok=".to_owned();
    r.append(
        if v.hash_ok {
            "true"
        } else {
            "false"
        },
    );
    r.append(" total=");
    r.append(text::decimal_text(v.total as u64).as_str());
    r.append(" gaps=");
    r.append(text::decimal_text(v.truncated_gaps as u64).as_str());
    r.append(" err=");
    let shown = match &v.error {
        Some(s) => {
            let mut o = "Some(".to_owned();
            o.append(json::quote_debug(s.as_str()).as_str());
            o.append(")");
            o
        },
        None => "None".to_owned(),
    };
    r.append(shown.as_str());
    r.append(")");
    r
}

/// The check of tampering, passed or not.
pub open spec fn shows_tampering(c: SelfTestCheck, v: VerifyResult) -> bool {
    &&& c.name@ == "tamper detection"@
    &&& c.passed == found_out(v)
    &&& c.detail@ == (if found_out(v) {
        "corruption detected "@
    } else {
        "FAIL: tamper not detected "@
    }) + findings(v)
}

/// Whether the check of a bundle of three events with a byte of it changed found that out.
pub fn tamper_detection(v: &VerifyResult) -> (r: SelfTestCheck)
    ensures
        shows_tampering(r, *v),
{
    let passed = !v.hash_ok || v.error.is_some() || v.truncated_gaps > 0 || v.total != 3;
    let mut detail = if passed {
        "corruption detected ".to_owned()
    } else {
        "FAIL: tamper not detected ".to_owned()
    };
    detail.append(show_findings(v).as_str());
    SelfTestCheck { name: "tamper detection", passed, detail }
}

/// Why there is no tampered bundle to check.
#[derive(Debug)]
pub enum NoBundle {
    NotCreated(String),
    NotRead(String),
}

/// The check could not be made.
pub open spec fn shows_inability(
    c: SelfTestCheck,
    name: Seq<char>,
    what: Seq<char>,
    why: Seq<char>,
) -> bool {
    &&& c.name@ == name
    &&& !c.passed
    &&& c.detail@ == what + " failed: "@ + why
}

/// All checks: two are run here and sampling is timed elsewhere. `supervisor` is one at the level
/// `A`, and `tampered` what the check of a tampered bundle of three events gave; where there is
/// none, its check fails and says why.
pub fn checks(
    supervisor: Result<&mut ObserveSupervisor, String>,
    pid: u32,
    sampling: SelfTestCheck,
    tampered: &Result<VerifyResult, NoBundle>,
    clock: Clock,
) -> (r: Vec<SelfTestCheck>)
    requires
        supervisor matches Ok(s) ==> s.ready() && s.level() == DesignAssuranceLevel::A,
    ensures
        r@.len() == 4,
        shows_exactness(r@[0]),
        r@[1] == sampling,
        match supervisor {
            Ok(s) => shows_gate(r@[2]) && final(s).mark() == BundleWatermark::Incomplete,
            Err(e) => shows_inability(r@[2], "DAL-A gate"@, "supervisor create"@, e@),
        },
        match *tampered {
            Ok(v) => shows_tampering(r@[3], v),
            Err(NoBundle::NotCreated(e)) => shows_inability(
                r@[3],
                "tamper detection"@,
                "bundle create"@,
                e@,
            ),
            Err(NoBundle::NotRead(e)) => shows_inability(
                r@[3],
                "tamper detection"@,
                "read bundle"@,
                e@,
            ),
        },
{
    let mut r: Vec<SelfTestCheck> = Vec::new();
    r.push(fixture_a_exactness(clock.wall_ns));
    r.push(sampling);
    let gate = match supervisor {
        Ok(s) => dal_a_gate(s, pid, clock),
        Err(e) => unable("DAL-A gate", "supervisor create", e.as_str()),
    };
    r.push(gate);
    let tampering = match tampered {
        Ok(v) => tamper_detection(v),
        Err(NoBundle::NotCreated(e)) => unable("tamper detection", "bundle create", e.as_str()),
        Err(NoBundle::NotRead(e)) => unable("tamper detection", "read bundle", e.as_str()),
    };
    r.push(tampering);
    r
}

/// What to print, line by line and whether as an error, and the exit code.
#[derive(Debug)]
pub struct SelfTestReport {
    pub lines: Vec<(bool, String)>,
    pub code: i32,
}

/// All checks passed.
pub open spec fn all_passed(checks: Seq<SelfTestCheck>) -> bool {
    forall|i: int| 0 <= i < checks.len() ==> (#[trigger] checks[i]).passed
}

/// The line of a check.
pub open spec fn check_line(c: SelfTestCheck) -> (bool, Seq<char>) {
    (
        !c.passed,
        (if c.passed {
            "ok  "@
        } else {
            "FAIL "@
        }) + c.name@ + " \u{2014} "@ + c.detail@,
    )
}

/// The last line.
pub open spec fn closing_line(checks: Seq<SelfTestCheck>) -> (bool, Seq<char>) {
    if all_passed(checks) {
        (false, "observe self-test: ok ("@ + text::decimal(checks.len()) + " checks)"@)
    } else {
        (
            true,
            "observe self-test: FAILED ("@ + text::decimal(checks.len())
                + " checks, at least one FAIL)"@,
        )
    }
}

/// The lines for checks and the exit code: 0 where all passed, else 1.
pub fn run(checks: &Vec<SelfTestCheck>) -> (r: SelfTestReport)
    ensures
        r.code == (if all_passed(checks@) {
            0int
        } else {
            1
        }),
        r.lines@.len() == checks@.len() + 1,
        forall|i: int|
            0 <= i < checks@.len() ==> (#[trigger] r.lines@[i]).0 == check_line(checks@[i]).0
                && r.lines@[i].1@ == check_line(checks@[i]).1,
        r.lines@.last().0 == closing_line(checks@).0,
        r.lines@.last().1@ == closing_line(checks@).1,
{
    let mut lines: Vec<(bool, String)> = Vec::new();
    let mut any_fail = false;
    for i in 0..checks.len()
        invariant
            lines@.len() == i,
            any_fail == !(forall|j: int| 0 <= j < i ==> (#[trigger] checks@[j]).passed),
            forall|j: int|
                0 <= j < i ==> (#[trigger] lines@[j]).0 == check_line(checks@[j]).0
                    && lines@[j].1@ == check_line(checks@[j]).1,
    {
        let c = &checks[i];
        let mut line = if c.passed {
            "ok  ".to_owned()
        } else {
            "FAIL ".to_owned()
        };
        line.append(c.name);
        line.append(" \u{2014} ");
        line.append(c.detail.as_str());
        if !c.passed {
            any_fail = true;
        }
        lines.push((!c.passed, line));
    }
    let mut last = if any_fail {
        "observe self-test: FAILED (".to_owned()
    } else {
        "observe self-test: ok (".to_owned()
    };
    last.append(text::decimal_text(checks.len() as u64).as_str());
    if any_fail {
        last.append(" checks, at least one FAIL)");
    } else {
        last.append(" checks)");
    }
    lines.push((any_fail, last));
    SelfTestReport {
        lines,
        code: if any_fail {
            1
        } else {
            0
        },
    }
}


// ---------------------------------------------------------------------------
// What holds of the checks
// ---------------------------------------------------------------------------

/// The events of a kind are counted one by one.
pub proof fn law_counts(a: Seq<AuditEvent>, b: Seq<AuditEvent>, e: AuditEvent, kind: AuditKind)
    ensures
        count_of(a + b, kind) == count_of(a, kind) + count_of(b, kind),
        e.kind == kind ==> count_of(seq![e], kind) == 1,
        e.kind != kind ==> count_of(seq![e], kind) == 0,
    decreases b.len(),
{
    assert(seq![e].drop_last() =~= Seq::<AuditEvent>::empty());
    assert(count_of(seq![e].drop_last(), kind) == 0);
    if b.len() == 0 {
        assert(a + b =~= a);
    } else {
        law_counts(a, b.drop_last(), e, kind);
        assert((a + b).drop_last() =~= a + b.drop_last());
        assert((a + b).last() == b.last());
    }
}

/// A tick that gave a sample counts, and one whose sample has frames covers; nothing else does.
pub proof fn law_tally(
    before: Tally,
    after: Tally,
    tick: Result<Option<SampleEvent>, String>,
)
    requires
        exists|t: &mut Tally|
            *t == before && *final(t) == after && #[trigger] call_ensures(
                Tally::count,
                (t, &tick),
                (),
            ),
        before.got < usize::MAX,
    ensures
        tick is Ok && tick->Ok_0 is Some ==> after.got == before.got + 1 && (after.covered
            <==> before.covered || (tick->Ok_0->0).frames@.len() > 0),
        !(tick is Ok && tick->Ok_0 is Some) ==> after == before,
{
}

/// Sampling is well where the rate is kept, or at least half of the ticks gave a sample, and where
/// something was seen.
pub proof fn law_sampling_bounds(
    tally: Tally,
    ticks: usize,
    rate: ObservedRate,
    drained: usize,
    r: SelfTestCheck,
)
    requires
        call_ensures(fixture_b_sampling_bounds, (&tally, ticks, &rate, drained), r),
    ensures
        r.name@ == "fixture B sampling bounds"@,
        !tally.covered && drained == 0 ==> !r.passed,
        !rate.within && tally.got < ticks / 2 ==> !r.passed,
        (rate.within || tally.got >= ticks / 2) && (tally.covered || drained > 0) ==> r.passed,
        r.passed ==> r.detail@ == "hz="@ + text::decimal(rate.hz as nat) + " observed="@
            + rate.observed@ + " got "@ + text::decimal(tally.got as nat) + "/"@ + text::decimal(
            ticks as nat,
        ) + " coverage="@ + "true"@ + " within bounds"@,
        !r.passed && (tally.covered || drained > 0) ==> r.detail@ == "hz="@ + text::decimal(
            rate.hz as nat,
        ) + " observed="@ + rate.observed@ + " got "@ + text::decimal(tally.got as nat) + "/"@
            + text::decimal(ticks as nat) + " coverage="@ + "true"@ + (" out of ["@ + rate.low@
            + ","@ + rate.high@ + "]"@),
{
}

/// Damage counts as found out where the digests do not fit, an error is told, events are missing,
/// or there are not three of them; the check passes exactly there, and says what it saw.
pub proof fn law_tampering(v: VerifyResult, r: SelfTestCheck)
    requires
        call_ensures(tamper_detection, (&v,), r),
    ensures
        r.name@ == "tamper detection"@,
        r.passed <==> !v.hash_ok || v.error is Some || v.truncated_gaps > 0 || v.total != 3,
        r.passed && v.error is None ==> r.detail@ == "corruption detected "@ + ("(hash_ok="@
            + bool_text(v.hash_ok) + " total="@ + text::decimal(v.total as nat) + " gaps="@
            + text::decimal(v.truncated_gaps as nat) + " err="@ + "None"@ + ")"@),
        r.passed && v.error is Some ==> r.detail@ == "corruption detected "@ + ("(hash_ok="@
            + bool_text(v.hash_ok) + " total="@ + text::decimal(v.total as nat) + " gaps="@
            + text::decimal(v.truncated_gaps as nat) + " err="@ + ("Some("@ + json::debug_quoted(
            (v.error->0)@,
        ) + ")"@) + ")"@),
        !r.passed ==> r.detail@ == "FAIL: tamper not detected "@ + ("(hash_ok="@ + "true"@
            + " total="@ + text::decimal(3) + " gaps="@ + text::decimal(0) + " err="@ + "None"@
            + ")"@),
        bool_text(true) == "true"@,
        bool_text(false) == "false"@,
{
}

/// Damage is one byte in the middle, all of whose bits are turned; a text of no more than twenty
/// bytes is left alone.
pub proof fn law_damage(content: Vec<u8>, r: Vec<u8>, i: int)
    requires
        call_ensures(corrupt, (content,), r),
    ensures
        r@.len() == content@.len(),
        content@.len() <= 20 ==> r@ == content@,
        0 <= i < content@.len() && i != content@.len() as int / 2 ==> r@[i] == content@[i],
        content@.len() > 20 && i == content@.len() as int / 2 ==> r@[i] == 255 - content@[i],
{
    if content@.len() > 20 && i == content@.len() as int / 2 {
        let b = content@[i];
        assert((b ^ 0xffu8) == 255 - b) by (bit_vector);
    }
}

/// What cannot be tried has failed, and says what and why.
pub proof fn law_unable(name: &'static str, what: &str, why: &str, r: SelfTestCheck)
    requires
        call_ensures(unable, (name, what, why), r),
    ensures
        r.name@ == name@,
        !r.passed,
        r.detail@ == what@ + " failed: "@ + why@,
{
}

/// The report has a line for each check and one to close it; it ends in success exactly where every
/// check passed, and only failures go to the second channel.
pub proof fn law_self_test_report(checks: Vec<SelfTestCheck>, r: SelfTestReport, i: int)
    requires
        call_ensures(run, (&checks,), r),
    ensures
        r.lines@.len() == checks@.len() + 1,
        r.code == 0 <==> forall|k: int| 0 <= k < checks@.len() ==> (#[trigger] checks@[k]).passed,
        r.code == 0 || r.code == 1,
        0 <= i < checks@.len() ==> r.lines@[i].0 == !checks@[i].passed,
        0 <= i < checks@.len() && checks@[i].passed ==> r.lines@[i].1@ == "ok  "@
            + checks@[i].name@ + " \u{2014} "@ + checks@[i].detail@,
        0 <= i < checks@.len() && !checks@[i].passed ==> r.lines@[i].1@ == "FAIL "@
            + checks@[i].name@ + " \u{2014} "@ + checks@[i].detail@,
        r.code == 0 ==> !r.lines@.last().0 && r.lines@.last().1@ == "observe self-test: ok ("@
            + text::decimal(checks@.len()) + " checks)"@,
        r.code == 1 ==> r.lines@.last().0 && r.lines@.last().1@ == "observe self-test: FAILED ("@
            + text::decimal(checks@.len()) + " checks, at least one FAIL)"@,
{
}

/// The events that are tampered with are three in a row.
pub proof fn law_tamper_events(r: Vec<WalEvent>, i: int)
    requires
        call_ensures(tamper_events, (), r),
    ensures
        r@.len() == 3,
        0 <= i < 3 ==> r@[i].ts == 1000 + i && r@[i].event_type == WalEventType::ObserveBatch
            && r@[i].job_id@ == "tamper-"@ + text::decimal(i as nat),
{
}

} // verus!
