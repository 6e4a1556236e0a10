//! Health checks: what each periodic reading changes, and the alerts that it raises.
//!
//! An alert is raised for more than ten zombies, for a processor that is above ninety percent for
//! five checks in a row, and for memory use that grows five checks in a row.
use vstd::prelude::*;
use vstd::string::*;

use crate::processes::Percent;
use crate::processes::ProcessSnapshot;
use crate::telemetry;
use crate::telemetry::Telemetry;
use crate::text;

verus! {

broadcast use vstd::string::group_string_axioms;

/// More zombies than this raise an alert.
pub const ZOMBIE_THRESHOLD: usize = 10;

/// The rank of ninety percent: a processor above it is busy.
pub const CPU_THRESHOLD: i32 = 1119092736;

/// How many checks in a row the processor is busy before an alert is raised.
pub const CPU_ALERT_MINUTES: usize = 5;

/// How many checks in a row memory use grows before an alert is raised.
pub const RAM_ALERT_CHECKS: usize = 5;

/// Seconds between two checks.
pub const CHECK_INTERVAL_SECS: u64 = 60;

/// How many alerts are kept.
pub const ALERTS_KEPT: usize = 100;

/// The health of the machine at the last check.
#[derive(Debug)]
pub struct HealthState {
    /// Unix time of the check.
    pub timestamp: u64,
    pub cpu_percent: Percent,
    pub ram_percent: Percent,
    pub zombie_count: usize,
    pub process_count: usize,
    /// Command of the process that uses the processor most.
    pub top_cpu_process: Option<String>,
    /// Command of the process that uses memory most.
    pub top_mem_process: Option<String>,
    /// How many checks in a row the processor was busy.
    pub cpu_alert_count: usize,
    /// How many checks in a row memory use has grown.
    pub ram_alert_count: usize,
    /// Memory use grew since the check before.
    pub ram_increasing: bool,
    /// Memory use at the last check, if there was one.
    pub last_ram_percent: Option<Percent>,
}

/// An alert.
#[derive(Debug)]
pub enum HealthAlert {
    /// More zombies than allowed.
    ZombieCount { count: usize, threshold: usize },
    /// The processor was busy for this many checks in a row.
    CpuHigh { percent: Percent, minutes: usize },
    /// Memory use keeps growing.
    MemoryLeak { ram_percent: Percent },
}

/// What one check reads off the machine.
#[derive(Debug)]
pub struct Reading {
    pub timestamp: u64,
    pub cpu_percent: Percent,
    pub ram_percent: Percent,
    pub zombie_count: usize,
    pub process_count: usize,
    pub top_cpu_process: Option<String>,
    pub top_mem_process: Option<String>,
}

impl Reading {
    /// The reading that a telemetry record, a listing of the processes and the memory use give.
    pub fn new(telemetry: &Telemetry, processes: &ProcessSnapshot, ram_percent: Percent) -> (r:
        Reading)
        ensures
            r.timestamp == telemetry.timestamp,
            r.cpu_percent == processes.summary.total_cpu_percent,
            r.ram_percent == ram_percent,
            r.zombie_count == processes.summary.zombie_count,
            r.process_count == processes.summary.total_processes,
            r.top_cpu_process == processes.summary.top_cpu_consumer,
            r.top_mem_process == processes.summary.top_mem_consumer,
    {
        Reading {
            timestamp: telemetry.timestamp,
            cpu_percent: processes.summary.total_cpu_percent.clone(),
            ram_percent,
            zombie_count: processes.summary.zombie_count,
            process_count: processes.summary.total_processes,
            top_cpu_process: telemetry::clone_text(&processes.summary.top_cpu_consumer),
            top_mem_process: telemetry::clone_text(&processes.summary.top_mem_consumer),
        }
    }
}

/// The processor is busy.
pub open spec fn busy(r: Reading) -> bool {
    r.cpu_percent.rank > CPU_THRESHOLD
}

/// Memory use has grown since `last`.
pub open spec fn grown(last: Option<Percent>, r: Reading) -> bool {
    last matches Some(p) && r.ram_percent.rank > p.rank
}

/// The number of busy checks in a row, after one more check.
pub open spec fn busy_count(before: nat, r: Reading) -> nat {
    if busy(r) {
        before + 1
    } else {
        0
    }
}

/// The number of checks in a row with growing memory use, after one more check. The first check
/// leaves it as it is.
pub open spec fn grown_count(before: nat, last: Option<Percent>, r: Reading) -> nat {
    if last is None {
        before
    } else if grown(last, r) {
        before + 1
    } else {
        0
    }
}

/// `after` is the state that a check with the reading `r` makes of `before`.
pub open spec fn follows(before: HealthState, r: Reading, after: HealthState) -> bool {
    &&& after.timestamp == r.timestamp
    &&& after.cpu_percent == r.cpu_percent
    &&& after.ram_percent == r.ram_percent
    &&& after.zombie_count == r.zombie_count
    &&& after.process_count == r.process_count
    &&& after.top_cpu_process == r.top_cpu_process
    &&& after.top_mem_process == r.top_mem_process
    &&& after.cpu_alert_count == busy_count(before.cpu_alert_count as nat, r)
    &&& after.ram_alert_count == grown_count(
        before.ram_alert_count as nat,
        before.last_ram_percent,
        r,
    )
    &&& after.ram_increasing == (if before.last_ram_percent is None {
        before.ram_increasing
    } else {
        grown(before.last_ram_percent, r)
    })
    &&& after.last_ram_percent == Some(r.ram_percent)
}

/// The alert for a processor that has been busy for `count` checks.
pub open spec fn cpu_alert(count: nat, r: Reading) -> Seq<HealthAlert> {
    if busy(r) && count >= CPU_ALERT_MINUTES {
        seq![HealthAlert::CpuHigh { percent: r.cpu_percent, minutes: count as usize }]
    } else {
        seq![]
    }
}

/// The alert for memory use that has grown since `last`, the `count`-th time in a row.
pub open spec fn ram_alert(count: nat, last: Option<Percent>, r: Reading) -> Seq<HealthAlert> {
    if grown(last, r) && count >= RAM_ALERT_CHECKS {
        seq![HealthAlert::MemoryLeak { ram_percent: r.ram_percent }]
    } else {
        seq![]
    }
}

/// The alert for zombies.
pub open spec fn zombie_alert(r: Reading) -> Seq<HealthAlert> {
    if r.zombie_count > ZOMBIE_THRESHOLD {
        seq![HealthAlert::ZombieCount { count: r.zombie_count, threshold: ZOMBIE_THRESHOLD }]
    } else {
        seq![]
    }
}

/// The alerts that a check with the reading `r` raises in the state `before`, in order.
pub open spec fn raised(before: HealthState, r: Reading) -> Seq<HealthAlert> {
    cpu_alert(busy_count(before.cpu_alert_count as nat, r), r) + ram_alert(
        grown_count(before.ram_alert_count as nat, before.last_ram_percent, r),
        before.last_ram_percent,
        r,
    ) + zombie_alert(r)
}

/// The alerts that are kept of `all`: the latest.
pub open spec fn kept(all: Seq<HealthAlert>) -> Seq<HealthAlert> {
    if all.len() <= ALERTS_KEPT {
        all
    } else {
        all.skip(all.len() - ALERTS_KEPT)
    }
}

impl Clone for HealthAlert {
    fn clone(&self) -> (r: Self)
        ensures
            r == *self,
    {
        match self {
            HealthAlert::ZombieCount { count, threshold } => HealthAlert::ZombieCount {
                count: *count,
                threshold: *threshold,
            },
            HealthAlert::CpuHigh { percent, minutes } => HealthAlert::CpuHigh {
                percent: percent.clone(),
                minutes: *minutes,
            },
            HealthAlert::MemoryLeak { ram_percent } => HealthAlert::MemoryLeak {
                ram_percent: ram_percent.clone(),
            },
        }
    }
}

impl HealthAlert {
    /// The words of an alert.
    pub open spec fn words(self) -> Seq<char> {
        match self {
            HealthAlert::ZombieCount { count, threshold } => "Zombie processes: "@ + text::decimal(
                count as nat,
            ) + " (threshold: "@ + text::decimal(threshold as nat) + ")"@,
            HealthAlert::CpuHigh { percent, minutes } => "CPU usage: "@ + percent.text@ + "% for "@
                + text::decimal(minutes as nat) + " minutes"@,
            HealthAlert::MemoryLeak { ram_percent } => "Memory leak detected: "@ + ram_percent.text@
                + "% RAM"@,
        }
    }

    /// The words of the alert.
    pub fn message(&self) -> (r: String)
        ensures
            r@ == self.words(),
    {
        match self {
            HealthAlert::ZombieCount { count, threshold } => {
                let mut r = "Zombie processes: ".to_owned();
                r.append(text::decimal_text(*count as u64).as_str());
                r.append(" (threshold: ");
                r.append(text::decimal_text(*threshold as u64).as_str());
                r.append(")");
                r
            },
            HealthAlert::CpuHigh { percent, minutes } => {
                let mut r = "CPU usage: ".to_owned();
                r.append(percent.text.as_str());
                r.append("% for ");
                r.append(text::decimal_text(*minutes as u64).as_str());
                r.append(" minutes");
                r
            },
            HealthAlert::MemoryLeak { ram_percent } => {
                let mut r = "Memory leak detected: ".to_owned();
                r.append(ram_percent.text.as_str());
                r.append("% RAM");
                r
            },
        }
    }
}

/// Copies a percentage that may be missing.
fn clone_percent(p: &Option<Percent>) -> (r: Option<Percent>)
    ensures
        r == *p,
{
    match p {
        Some(x) => Some(x.clone()),
        None => None,
    }
}

impl Clone for HealthState {
    fn clone(&self) -> (r: Self)
        ensures
            r == *self,
    {
        HealthState {
            timestamp: self.timestamp,
            cpu_percent: self.cpu_percent.clone(),
            ram_percent: self.ram_percent.clone(),
            zombie_count: self.zombie_count,
            process_count: self.process_count,
            top_cpu_process: telemetry::clone_text(&self.top_cpu_process),
            top_mem_process: telemetry::clone_text(&self.top_mem_process),
            cpu_alert_count: self.cpu_alert_count,
            ram_alert_count: self.ram_alert_count,
            ram_increasing: self.ram_increasing,
            last_ram_percent: clone_percent(&self.last_ram_percent),
        }
    }
}

impl HealthState {
    /// Nothing has been read yet.
    pub open spec fn unread(self) -> bool {
        &&& self.timestamp == 0
        &&& self.cpu_percent.rank == 0
        &&& self.cpu_percent.text@ == "0.0"@
        &&& self.ram_percent.rank == 0
        &&& self.ram_percent.text@ == "0.0"@
        &&& self.zombie_count == 0
        &&& self.process_count == 0
        &&& self.top_cpu_process is None
        &&& self.top_mem_process is None
        &&& self.cpu_alert_count == 0
        &&& self.ram_alert_count == 0
        &&& !self.ram_increasing
        &&& self.last_ram_percent is None
    }
}

impl Default for HealthState {
    fn default() -> (r: Self)
        ensures
            r.unread(),
    {
        HealthState {
            timestamp: 0,
            cpu_percent: Percent { rank: 0, text: "0.0".to_owned() },
            ram_percent: Percent { rank: 0, text: "0.0".to_owned() },
            zombie_count: 0,
            process_count: 0,
            top_cpu_process: None,
            top_mem_process: None,
            cpu_alert_count: 0,
            ram_alert_count: 0,
            ram_increasing: false,
            last_ram_percent: None,
        }
    }
}

/// Adds an alert to the history and drops the oldest where there are too many.
fn add_alert(alerts: &mut Vec<HealthAlert>, alert: HealthAlert)
    requires
        old(alerts).len() <= ALERTS_KEPT,
    ensures
        final(alerts)@ == kept(old(alerts)@.push(alert)),
        final(alerts).len() <= ALERTS_KEPT,
{
    alerts.push(alert);
    if alerts.len() > ALERTS_KEPT {
        let ghost all = alerts@;
        alerts.remove(0);
        assert(alerts@ =~= all.skip(1));
    }
}

/// Keeping the latest of the kept ones and more is keeping the latest of all.
proof fn lemma_kept_again(all: Seq<HealthAlert>, more: Seq<HealthAlert>)
    ensures
        kept(kept(all) + more) == kept(all + more),
{
    assert(kept(kept(all) + more) =~= kept(all + more));
}

/// Watches the health of the machine, one check at a time.
pub struct HealthMonitor {
    state: HealthState,
    alerts: Vec<HealthAlert>,
    running: bool,
}

impl HealthMonitor {
    /// The state at the last check.
    pub closed spec fn state(self) -> HealthState {
        self.state
    }

    /// The alerts that are kept.
    pub closed spec fn history(self) -> Seq<HealthAlert> {
        self.alerts@
    }

    /// The monitor has not been stopped.
    pub closed spec fn running(self) -> bool {
        self.running
    }

    /// The history never holds more than its share.
    pub closed spec fn well_formed(self) -> bool {
        self.alerts.len() <= ALERTS_KEPT
    }

    /// A monitor that has made no check yet.
    pub fn start() -> (r: HealthMonitor)
        ensures
            r.well_formed(),
            r.running(),
            r.state().unread(),
            r.history() == Seq::<HealthAlert>::empty(),
    {
        HealthMonitor { state: HealthState::default(), alerts: Vec::new(), running: true }
    }

    /// Takes a reading into account: the state becomes that of the reading, the counts of checks
    /// in a row go on or start over, and what is out of bounds is added to the history.
    pub fn check(&mut self, reading: Reading)
        requires
            old(self).well_formed(),
            old(self).state().cpu_alert_count < usize::MAX,
            old(self).state().ram_alert_count < usize::MAX,
        ensures
            final(self).well_formed(),
            final(self).running() == old(self).running(),
            follows(old(self).state(), reading, final(self).state()),
            final(self).history() == kept(
                old(self).history() + raised(old(self).state(), reading),
            ),
    {
        let ghost before = self.state;
        let ghost first = self.alerts@;
        let ghost cpu = cpu_alert(busy_count(before.cpu_alert_count as nat, reading), reading);
        let ghost ram = ram_alert(
            grown_count(before.ram_alert_count as nat, before.last_ram_percent, reading),
            before.last_ram_percent,
            reading,
        );
        if reading.cpu_percent.rank > CPU_THRESHOLD {
            self.state.cpu_alert_count = self.state.cpu_alert_count + 1;
            if self.state.cpu_alert_count >= CPU_ALERT_MINUTES {
                let alert = HealthAlert::CpuHigh {
                    percent: reading.cpu_percent.clone(),
                    minutes: self.state.cpu_alert_count,
                };
                assert(first.push(alert) =~= first + cpu);
                add_alert(&mut self.alerts, alert);
            }
        } else {
            self.state.cpu_alert_count = 0;
        }
        assert(first + Seq::<HealthAlert>::empty() =~= first);
        assert(self.alerts@ == kept(first + cpu));
        let ghost second = self.alerts@;
        if let Some(last) = &self.state.last_ram_percent {
            if reading.ram_percent.rank > last.rank {
                self.state.ram_increasing = true;
                self.state.ram_alert_count = self.state.ram_alert_count + 1;
                if self.state.ram_alert_count >= RAM_ALERT_CHECKS {
                    let alert = HealthAlert::MemoryLeak {
                        ram_percent: reading.ram_percent.clone(),
                    };
                    assert(second.push(alert) =~= second + ram);
                    add_alert(&mut self.alerts, alert);
                }
            } else {
                self.state.ram_increasing = false;
                self.state.ram_alert_count = 0;
            }
        }
        assert(second + Seq::<HealthAlert>::empty() =~= second);
        assert(self.alerts@ == kept(second + ram));
        let ghost third = self.alerts@;
        if reading.zombie_count > ZOMBIE_THRESHOLD {
            let alert = HealthAlert::ZombieCount {
                count: reading.zombie_count,
                threshold: ZOMBIE_THRESHOLD,
            };
            assert(third.push(alert) =~= third + zombie_alert(reading));
            add_alert(&mut self.alerts, alert);
        }
        assert(third + Seq::<HealthAlert>::empty() =~= third);
        assert(self.alerts@ == kept(third + zombie_alert(reading)));
        proof {
            lemma_kept_again(first + cpu, ram);
            lemma_kept_again(first + cpu + ram, zombie_alert(reading));
            assert(first + cpu + ram + zombie_alert(reading) =~= first + (cpu + ram + zombie_alert(
                reading,
            )));
        }
        self.state.last_ram_percent = Some(reading.ram_percent.clone());
        self.state.timestamp = reading.timestamp;
        self.state.cpu_percent = reading.cpu_percent;
        self.state.ram_percent = reading.ram_percent;
        self.state.zombie_count = reading.zombie_count;
        self.state.process_count = reading.process_count;
        self.state.top_cpu_process = reading.top_cpu_process;
        self.state.top_mem_process = reading.top_mem_process;
    }

    /// A copy of the state at the last check.
    pub fn health(&self) -> (r: HealthState)
        ensures
            r == self.state(),
    {
        self.state.clone()
    }

    /// A copy of the kept alerts, oldest first.
    pub fn alerts(&self) -> (r: Vec<HealthAlert>)
        ensures
            r@ == self.history(),
    {
        let mut r: Vec<HealthAlert> = Vec::new();
        for i in 0..self.alerts.len()
            invariant
                r@ == self.alerts@.take(i as int),
        {
            r.push(self.alerts[i].clone());
            assert(r@ =~= self.alerts@.take(i + 1));
        }
        assert(r@ =~= self.alerts@);
        r
    }

    /// Ends the checks.
    pub fn stop(&mut self)
        requires
            old(self).well_formed(),
        ensures
            final(self).well_formed(),
            !final(self).running(),
            final(self).state() == old(self).state(),
            final(self).history() == old(self).history(),
    {
        self.running = false;
    }

    /// Whether checks go on.
    pub fn is_running(&self) -> (r: bool)
        ensures
            r == self.running(),
    {
        self.running
    }
}

/// The state of a monitor and all alerts that it has raised.
pub ghost struct Course {
    pub busy: nat,
    pub grown: nat,
    pub last: Option<Percent>,
    pub raised: Seq<HealthAlert>,
}

/// How the counts and the alerts of a monitor go on with each reading.
pub open spec fn course(readings: Seq<Reading>) -> Course
    decreases readings.len(),
{
    if readings.len() == 0 {
        Course { busy: 0, grown: 0, last: None, raised: seq![] }
    } else {
        let before = course(readings.drop_last());
        let r = readings.last();
        let b = busy_count(before.busy, r);
        let g = grown_count(before.grown, before.last, r);
        Course {
            busy: b,
            grown: g,
            last: Some(r.ram_percent),
            raised: before.raised + (cpu_alert(b, r) + ram_alert(g, before.last, r)
                + zombie_alert(r)),
        }
    }
}

/// The monitor stands where the readings lead.
pub open spec fn on_course(m: HealthMonitor, readings: Seq<Reading>) -> bool {
    &&& m.state().cpu_alert_count == course(readings).busy
    &&& m.state().ram_alert_count == course(readings).grown
    &&& m.state().last_ram_percent == course(readings).last
    &&& m.history() == kept(course(readings).raised)
}

/// A monitor follows its readings: a new one stands at their start, and a check that keeps to its
/// contract leads from where some readings lead to where they lead with one more. So the history
/// always holds the latest alerts of all that were raised.
pub proof fn law_checks_stay_on_course(
    fresh: HealthMonitor,
    before: HealthMonitor,
    after: HealthMonitor,
    readings: Seq<Reading>,
    r: Reading,
)
    requires
        fresh.state().unread(),
        fresh.history() == Seq::<HealthAlert>::empty(),
        on_course(before, readings),
        follows(before.state(), r, after.state()),
        after.history() == kept(before.history() + raised(before.state(), r)),
    ensures
        on_course(fresh, seq![]),
        on_course(after, readings.push(r)),
{
    assert(readings.push(r).drop_last() =~= readings);
    lemma_kept_again(course(readings).raised, raised(before.state(), r));
}

/// Memory use grew between the check before `i` and check `i`.
pub open spec fn grew(readings: Seq<Reading>, i: int) -> bool {
    0 < i < readings.len() && readings[i].ram_percent.rank > readings[i - 1].ram_percent.rank
}

/// The counts are the numbers of checks in a row: the count of busy checks reaches `n` exactly
/// when the last `n` readings were busy, and the count of growing memory use reaches `n` exactly
/// when each of the last `n` readings was above the one before it.
pub proof fn law_counts_are_runs(readings: Seq<Reading>, n: nat)
    ensures
        course(readings).busy >= n <==> (n <= readings.len() && forall|i: int|
            readings.len() - n <= i < readings.len() ==> busy(#[trigger] readings[i])),
        course(readings).grown >= n <==> (n <= readings.len() && forall|i: int|
            readings.len() - n <= i < readings.len() ==> #[trigger] grew(readings, i)),
    decreases readings.len(),
{
    if readings.len() > 0 {
        let rest = readings.drop_last();
        let last = readings.len() - 1;
        if n > 0 {
            law_counts_are_runs(rest, (n - 1) as nat);
            lemma_last(rest);
            assert(busy(readings[last]) == busy(readings.last()));
            assert(grew(readings, last) == grown(course(rest).last, readings.last()));
            assert(forall|i: int| 0 <= i < rest.len() ==> rest[i] == readings[i]);
            assert forall|i: int| 0 <= i < rest.len() implies grew(rest, i) == grew(readings, i) by {
            }
            if course(readings).busy >= n {
                assert forall|i: int| readings.len() - n <= i < readings.len() implies busy(
                    #[trigger] readings[i],
                ) by {
                    if i < last {
                        assert(busy(rest[i]));
                    }
                }
            } else if n <= readings.len() && busy(readings[last]) {
                let i = choose|i: int| rest.len() - (n - 1) <= i < rest.len() && !busy(rest[i]);
                assert(!busy(readings[i]));
            }
            if course(readings).grown >= n {
                if readings.len() == 1 {
                    assert(course(rest).grown == 0);
                    assert(false);
                }
                assert forall|i: int| readings.len() - n <= i < readings.len() implies #[trigger] grew(
                    readings,
                    i,
                ) by {
                    if i < last {
                        assert(grew(rest, i));
                    }
                }
            } else if n <= readings.len() && grew(readings, last) {
                let i = choose|i: int| rest.len() - (n - 1) <= i < rest.len() && !grew(rest, i);
                assert(!grew(readings, i));
            }
        }
    }
}

/// The last reading of memory use is that of the last reading.
proof fn lemma_last(readings: Seq<Reading>)
    ensures
        course(readings).last == (if readings.len() == 0 {
            None
        } else {
            Some(readings.last().ram_percent)
        }),
{
}

/// A check raises the alert on the processor exactly when the last five readings were busy, and
/// the alert on memory exactly when memory use grew at each of the last five.
pub proof fn law_alerts_need_five_in_a_row(readings: Seq<Reading>)
    requires
        readings.len() > 0,
    ensures
        cpu_alert(course(readings).busy, readings.last()).len() == 1 <==> (5 <= readings.len()
            && forall|i: int|
            readings.len() - 5 <= i < readings.len() ==> busy(#[trigger] readings[i])),
        ram_alert(
            course(readings).grown,
            course(readings.drop_last()).last,
            readings.last(),
        ).len() == 1 <==> (5 <= readings.len() && forall|i: int|
            readings.len() - 5 <= i < readings.len() ==> #[trigger] grew(readings, i)),
{
    law_counts_are_runs(readings, 5);
    lemma_last(readings.drop_last());
    assert(busy(readings[readings.len() - 1]) == busy(readings.last()));
    assert(grew(readings, readings.len() - 1) == grown(
        course(readings.drop_last()).last,
        readings.last(),
    ));
}

/// The units in which sizes of memory are given.
#[derive(Debug, Clone, Copy, PartialEq, Eq, Structural)]
pub enum SizeUnit {
    /// 1024 mebibytes; sizes are counted in these.
    Gi,
    Mi,
    Ki,
    /// A thousandth of a gigabyte, which counts as one gibibyte.
    Mb,
    Gb,
}

/// `s` without the repetitions of `p` at its end.
pub open spec fn without_ending(s: Seq<char>, p: Seq<char>) -> Seq<char>
    decreases s.len(),
{
    if p.len() > 0 && text::ends_in(s, p) {
        without_ending(s.take(s.len() - p.len()), p)
    } else {
        s
    }
}

/// What a size says: the text of its number, and its unit. Other texts say no size.
pub open spec fn size_said(s: Seq<char>) -> Option<(Seq<char>, SizeUnit)> {
    let t = text::trimmed(s);
    if text::ends_in(t, "Gi"@) {
        Some((without_ending(t, "Gi"@), SizeUnit::Gi))
    } else if text::ends_in(t, "Mi"@) {
        Some((without_ending(t, "Mi"@), SizeUnit::Mi))
    } else if text::ends_in(t, "Ki"@) {
        Some((without_ending(t, "Ki"@), SizeUnit::Ki))
    } else if text::ends_in(t, "MB"@) {
        Some((without_ending(t, "MB"@), SizeUnit::Mb))
    } else if text::ends_in(t, "GB"@) {
        Some((without_ending(t, "GB"@), SizeUnit::Gb))
    } else {
        None
    }
}

/// Strips the repetitions of `p` off the end of `s`.
fn strip_ending(s: &str, p: &str) -> (r: String)
    ensures
        r@ == without_ending(s@, p@),
{
    let p_chars = text::chars_of(p);
    let all = text::chars_of(s);
    let mut r = s.to_owned();
    let mut n: usize = all.len();
    assert(s@.take(n as int) =~= s@);
    while p_chars.len() > 0 && text::ends_with(r.as_str(), p)
        invariant
            all@ == s@,
            p_chars@ == p@,
            n <= all.len(),
            r@ == s@.take(n as int),
            without_ending(s@, p@) == without_ending(r@, p@),
        decreases n,
    {
        let ghost before = n as int;
        n = n - p_chars.len();
        r = text::string_of(&all, 0, n);
        assert(s@.take(before).take(before - p@.len()) =~= s@.take(n as int));
        assert(r@ =~= s@.take(n as int));
    }
    r
}

/// Takes a size such as `13Gi`, `512Mi` or `16384MB` apart: the text of its number and its unit.
pub fn size_parts(size: &str) -> (r: Option<(String, SizeUnit)>)
    ensures
        r is Some <==> size_said(size@) is Some,
        r matches Some(p) ==> size_said(size@) == Some((p.0@, p.1)),
{
    let t = text::trim(size);
    let s = t.as_str();
    if text::ends_with(s, "Gi") {
        Some((strip_ending(s, "Gi"), SizeUnit::Gi))
    } else if text::ends_with(s, "Mi") {
        Some((strip_ending(s, "Mi"), SizeUnit::Mi))
    } else if text::ends_with(s, "Ki") {
        Some((strip_ending(s, "Ki"), SizeUnit::Ki))
    } else if text::ends_with(s, "MB") {
        Some((strip_ending(s, "MB"), SizeUnit::Mb))
    } else if text::ends_with(s, "GB") {
        Some((strip_ending(s, "GB"), SizeUnit::Gb))
    } else {
        None
    }
}


// ---------------------------------------------------------------------------
// What holds of every check
// ---------------------------------------------------------------------------

/// What one check changes. A processor above ninety percent adds to the count of busy checks and
/// any other ends it; memory use above that of the check before adds to its count and any other
/// ends it; the first check has nothing to hold memory use against.
pub proof fn law_one_check(before: HealthState, r: Reading, after: HealthState)
    requires
        follows(before, r, after),
    ensures
        r.cpu_percent.rank > 1119092736 ==> after.cpu_alert_count == before.cpu_alert_count + 1,
        r.cpu_percent.rank <= 1119092736 ==> after.cpu_alert_count == 0,
        before.last_ram_percent is Some && r.ram_percent.rank > (before.last_ram_percent->0).rank
            ==> after.ram_alert_count == before.ram_alert_count + 1 && after.ram_increasing,
        before.last_ram_percent is Some && r.ram_percent.rank <= (before.last_ram_percent->0).rank
            ==> after.ram_alert_count == 0 && !after.ram_increasing,
        before.last_ram_percent is None ==> after.ram_alert_count == before.ram_alert_count
            && after.ram_increasing == before.ram_increasing,
        after.last_ram_percent == Some(r.ram_percent),
        after.timestamp == r.timestamp,
        after.cpu_percent == r.cpu_percent,
        after.ram_percent == r.ram_percent,
        after.zombie_count == r.zombie_count,
        after.process_count == r.process_count,
        after.top_cpu_process == r.top_cpu_process,
        after.top_mem_process == r.top_mem_process,
{
}

/// Which alerts a check raises: on the processor where it is busy the fifth time in a row or later,
/// on memory where its use grew the fifth time in a row or later, on zombies where there are more
/// than ten; at most one of each, in this order, each with what it is about.
pub proof fn law_alerts_of_a_check(before: HealthState, r: Reading, after: HealthState)
    requires
        follows(before, r, after),
    ensures
        ({
            let cpu = r.cpu_percent.rank > 1119092736 && after.cpu_alert_count >= 5;
            let ram = before.last_ram_percent is Some && r.ram_percent.rank > (
            before.last_ram_percent->0).rank && after.ram_alert_count >= 5;
            let zombies = r.zombie_count > 10;
            let all = raised(before, r);
            let first = HealthAlert::CpuHigh {
                percent: r.cpu_percent,
                minutes: after.cpu_alert_count,
            };
            let second = HealthAlert::MemoryLeak { ram_percent: r.ram_percent };
            let third = HealthAlert::ZombieCount { count: r.zombie_count, threshold: 10 };
            &&& all.len() == (if cpu {
                1int
            } else {
                0
            }) + (if ram {
                1int
            } else {
                0
            }) + (if zombies {
                1int
            } else {
                0
            })
            &&& cpu ==> all[0] == first
            &&& ram && cpu ==> all[1] == second
            &&& ram && !cpu ==> all[0] == second
            &&& zombies ==> all.last() == third
        }),
{
}

/// Of the alerts the latest hundred are kept, in order.
pub proof fn law_latest_are_kept(all: Seq<HealthAlert>, i: int)
    ensures
        all.len() <= 100 ==> kept(all) == all,
        all.len() > 100 ==> kept(all).len() == 100,
        all.len() > 100 && 0 <= i < 100 ==> kept(all)[i] == all[all.len() - 100 + i],
{
}

/// An alert says what it is about and how far things have gone.
pub proof fn law_words_of_alerts(count: usize, threshold: usize, percent: Percent, minutes: usize)
    ensures
        (HealthAlert::ZombieCount { count, threshold }).words() == "Zombie processes: "@
            + text::decimal(count as nat) + " (threshold: "@ + text::decimal(threshold as nat)
            + ")"@,
        (HealthAlert::CpuHigh { percent, minutes }).words() == "CPU usage: "@ + percent.text@
            + "% for "@ + text::decimal(minutes as nat) + " minutes"@,
        (HealthAlert::MemoryLeak { ram_percent: percent }).words() == "Memory leak detected: "@
            + percent.text@ + "% RAM"@,
{
}

/// A reading holds the sums and the most demanding processes of the listing.
pub proof fn law_reading(t: Telemetry, p: ProcessSnapshot, ram: Percent, r: Reading)
    requires
        call_ensures(Reading::new, (&t, &p, ram), r),
    ensures
        r.timestamp == t.timestamp,
        r.cpu_percent == p.summary.total_cpu_percent,
        r.ram_percent == ram,
        r.zombie_count == p.summary.zombie_count,
        r.process_count == p.summary.total_processes,
        r.top_cpu_process == p.summary.top_cpu_consumer,
        r.top_mem_process == p.summary.top_mem_consumer,
{
}

/// A new state has counted nothing and has no memory use to hold the next one against.
pub proof fn law_unread(s: HealthState)
    requires
        s.unread(),
    ensures
        s.cpu_alert_count == 0,
        s.ram_alert_count == 0,
        s.last_ram_percent is None,
        !s.ram_increasing,
        s.timestamp == 0,
        s.zombie_count == 0,
        s.process_count == 0,
        s.top_cpu_process is None,
        s.top_mem_process is None,
{
}

/// An ending is stripped off as often as it stands there, and nothing else is.
pub proof fn law_endings(s: Seq<char>, p: Seq<char>)
    requires
        p.len() > 0,
    ensures
        without_ending(s + p, p) == without_ending(s, p),
        !text::ends_in(s, p) ==> without_ending(s, p) == s,
        !text::ends_in(without_ending(s, p), p),
        without_ending(s, p).len() <= s.len(),
        without_ending(s, p) == s.take(without_ending(s, p).len() as int),
    decreases s.len(),
{
    assert((s + p).skip(s.len() as int) =~= p);
    assert((s + p).take(s.len() as int) =~= s);
    assert(s.take(s.len() as int) =~= s);
    if text::ends_in(s, p) {
        let front = s.take(s.len() - p.len());
        law_endings(front, p);
        assert(front.take(without_ending(front, p).len() as int) =~= s.take(
            without_ending(front, p).len() as int,
        ));
    }
}

/// A size is its number followed by its unit, with white space round both; a text that ends in no
/// unit is no size.
pub proof fn law_sizes(s: Seq<char>, n: Seq<char>, unit: Seq<char>)
    requires
        text::trimmed(s) == n + unit,
        !text::ends_in(n, unit),
    ensures
        unit == "Gi"@ ==> size_said(s) == Some((n, SizeUnit::Gi)),
        unit == "Mi"@ ==> size_said(s) == Some((n, SizeUnit::Mi)),
        unit == "Ki"@ ==> size_said(s) == Some((n, SizeUnit::Ki)),
        unit == "MB"@ ==> size_said(s) == Some((n, SizeUnit::Mb)),
        unit == "GB"@ ==> size_said(s) == Some((n, SizeUnit::Gb)),
        unit.len() == 2 && unit != "Gi"@ && unit != "Mi"@ && unit != "Ki"@ && unit != "MB"@ && unit
            != "GB"@ ==> size_said(s) is None,
        (n + unit).len() < 2 ==> size_said(s) is None,
{
    reveal_strlit("Gi");
    reveal_strlit("Mi");
    reveal_strlit("Ki");
    reveal_strlit("MB");
    reveal_strlit("GB");
    assert("Gi"@[0] == 'G' && "Mi"@[0] == 'M' && "Ki"@[0] == 'K');
    assert("MB"@[0] == 'M' && "GB"@[0] == 'G');
    assert("Gi"@[1] == 'i' && "Mi"@[1] == 'i' && "Ki"@[1] == 'i');
    assert("MB"@[1] == 'B' && "GB"@[1] == 'B');
    if unit.len() == 2 {
        assert((n + unit).skip(n.len() as int) =~= unit);
        law_endings(n, unit);
    }
}


/// A monitor runs from its start until it is stopped, and to stop it forgets nothing.
pub proof fn law_running(
    fresh: HealthMonitor,
    before: HealthMonitor,
    after: HealthMonitor,
    goes: bool,
    health: HealthState,
    alerts: Vec<HealthAlert>,
)
    requires
        call_ensures(HealthMonitor::start, (), fresh),
        exists|m: &mut HealthMonitor|
            *m == before && *final(m) == after && #[trigger] call_ensures(
                HealthMonitor::stop,
                (m,),
                (),
            ),
        call_ensures(HealthMonitor::is_running, (&after,), goes),
        call_ensures(HealthMonitor::health, (&after,), health),
        call_ensures(HealthMonitor::alerts, (&after,), alerts),
    ensures
        fresh.running(),
        fresh.history().len() == 0,
        fresh.state().cpu_alert_count == 0 && fresh.state().ram_alert_count == 0,
        !goes,
        health == before.state(),
        alerts@ == before.history(),
{
}

/// A check follows the reading: what it says of the machine becomes the state, and its alerts are
/// kept behind those before, the latest hundred of them.
pub proof fn law_checks(before: HealthMonitor, after: HealthMonitor, r: Reading)
    requires
        exists|m: &mut HealthMonitor|
            *m == before && *final(m) == after && #[trigger] call_ensures(
                HealthMonitor::check,
                (m, r),
                (),
            ),
    ensures
        after.state().timestamp == r.timestamp,
        after.state().cpu_percent == r.cpu_percent,
        after.state().ram_percent == r.ram_percent,
        after.state().zombie_count == r.zombie_count,
        after.state().last_ram_percent == Some(r.ram_percent),
        r.cpu_percent.rank <= 1119092736 ==> after.state().cpu_alert_count == 0,
        r.cpu_percent.rank > 1119092736 ==> after.state().cpu_alert_count
            == before.state().cpu_alert_count + 1,
        after.history() == kept(before.history() + raised(before.state(), r)),
        after.running() == before.running(),
{
}

} // verus!
