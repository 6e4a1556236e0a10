//! Events of the write-ahead log.
use vstd::prelude::*;
use vstd::string::*;

use crate::json::Value;
use crate::processes::ProcessSummary;
use crate::telemetry::Telemetry;
use crate::text;

verus! {

broadcast use vstd::string::group_string_axioms;

/// The kind of a log event.
#[derive(Debug, Clone, Copy, PartialEq, Eq, Structural)]
pub enum WalEventType {
    JobStarted,
    JobCompleted,
    JobFailed,
    BackupCreated,
    CommandExecuted,
    ObserveStarted,
    ObserveSuspended,
    ObserveTruncated,
    ObserveBatch,
    ObserveCompleted,
}

impl WalEventType {
    /// The name of the kind in the log.
    pub open spec fn name(self) -> Seq<char> {
        match self {
            WalEventType::JobStarted => "job_started"@,
            WalEventType::JobCompleted => "job_completed"@,
            WalEventType::JobFailed => "job_failed"@,
            WalEventType::BackupCreated => "backup_created"@,
            WalEventType::CommandExecuted => "command_executed"@,
            WalEventType::ObserveStarted => "observe_started"@,
            WalEventType::ObserveSuspended => "observe_suspended"@,
            WalEventType::ObserveTruncated => "observe_truncated"@,
            WalEventType::ObserveBatch => "observe_batch"@,
            WalEventType::ObserveCompleted => "observe_completed"@,
        }
    }

    /// The name of the kind in the log.
    pub fn as_str(&self) -> (r: &'static str)
        ensures
            r@ == self.name(),
    {
        match self {
            WalEventType::JobStarted => "job_started",
            WalEventType::JobCompleted => "job_completed",
            WalEventType::JobFailed => "job_failed",
            WalEventType::BackupCreated => "backup_created",
            WalEventType::CommandExecuted => "command_executed",
            WalEventType::ObserveStarted => "observe_started",
            WalEventType::ObserveSuspended => "observe_suspended",
            WalEventType::ObserveTruncated => "observe_truncated",
            WalEventType::ObserveBatch => "observe_batch",
            WalEventType::ObserveCompleted => "observe_completed",
        }
    }
}

/// An event of the log.
#[derive(Debug)]
pub struct WalEvent {
    /// Place in the log.
    pub seq: u64,
    /// Unix time, in seconds.
    pub ts: u64,
    pub event_type: WalEventType,
    pub job_id: String,
    pub capability: Option<String>,
    pub output: Option<Value>,
    pub error: Option<String>,
    pub telemetry_before: Option<Telemetry>,
    pub telemetry_after: Option<Telemetry>,
    pub process_before: Option<ProcessSummary>,
    pub process_after: Option<ProcessSummary>,
    pub cmd: Option<String>,
    pub cmd_stdout: Option<String>,
    pub cmd_stderr: Option<String>,
    pub cmd_exit_code: Option<i32>,
    pub cmd_corrected: Option<String>,
    pub oov_ratio: Option<u8>,
    pub detection_flags: Option<u8>,
    pub backup_path: Option<String>,
    pub bundle_hash: Option<String>,
    /// Nanoseconds of the monotonic clock.
    pub mono_ns: Option<u64>,
    /// Nanoseconds of Unix time.
    pub wall_ns: Option<u64>,
}

impl WalEvent {
    /// All that an event may leave out is left out.
    pub open spec fn bare(self) -> bool {
        &&& self.capability is None
        &&& self.output is None
        &&& self.error is None
        &&& self.telemetry_before is None
        &&& self.telemetry_after is None
        &&& self.process_before is None
        &&& self.process_after is None
        &&& self.cmd is None
        &&& self.cmd_stdout is None
        &&& self.cmd_stderr is None
        &&& self.cmd_exit_code is None
        &&& self.cmd_corrected is None
        &&& self.oov_ratio is None
        &&& self.detection_flags is None
        &&& self.backup_path is None
        &&& self.bundle_hash is None
        &&& self.mono_ns is None
        &&& self.wall_ns is None
    }
}

impl Default for WalEvent {
    fn default() -> (r: Self)
        ensures
            r.seq == 0,
            r.ts == 0,
            r.event_type == WalEventType::JobStarted,
            r.job_id@.len() == 0,
            r.bare(),
    {
        WalEvent {
            seq: 0,
            ts: 0,
            event_type: WalEventType::JobStarted,
            job_id: String::new(),
            capability: None,
            output: None,
            error: None,
            telemetry_before: None,
            telemetry_after: None,
            process_before: None,
            process_after: None,
            cmd: None,
            cmd_stdout: None,
            cmd_stderr: None,
            cmd_exit_code: None,
            cmd_corrected: None,
            oov_ratio: None,
            detection_flags: None,
            backup_path: None,
            bundle_hash: None,
            mono_ns: None,
            wall_ns: None,
        }
    }
}

// ---------------------------------------------------------------------------
// The text of a log
// ---------------------------------------------------------------------------

/// The lines that are more than white space.
pub open spec fn filled_lines(ls: Seq<Seq<char>>) -> Seq<Seq<char>>
    decreases ls.len(),
{
    if ls.len() == 0 {
        Seq::empty()
    } else {
        let before = filled_lines(ls.drop_last());
        if text::trimmed(ls.last()).len() > 0 {
            before.push(ls.last())
        } else {
            before
        }
    }
}

/// The lines of the text of a log that may hold an event, in order. Blank ones are passed over.
pub fn event_lines(content: &str) -> (r: Vec<String>)
    ensures
        text::texts(r@) == filled_lines(text::lines(content@)),
{
    let lines = text::split_lines(content);
    let ghost all = text::texts(lines@);
    let mut r: Vec<String> = Vec::new();
    assert(all.take(0) =~= Seq::<Seq<char>>::empty());
    assert(text::texts(r@) =~= Seq::<Seq<char>>::empty());
    for i in 0..lines.len()
        invariant
            all == text::texts(lines@),
            text::texts(r@) == filled_lines(all.take(i as int)),
    {
        assert(all.take(i + 1).drop_last() =~= all.take(i as int));
        if !text::trim(lines[i].as_str()).as_str().is_empty() {
            let ghost before = r@;
            r.push(lines[i].clone());
            assert(text::texts(r@) =~= text::texts(before).push(lines@[i as int]@));
        }
    }
    assert(all.take(all.len() as int) =~= all);
    r
}


/// The lines of a log that hold an event are those that are not blank, in order.
pub proof fn law_filled_lines(a: Seq<Seq<char>>, b: Seq<Seq<char>>, l: Seq<char>)
    ensures
        filled_lines(a + b) == filled_lines(a) + filled_lines(b),
        text::blank_text(l) ==> filled_lines(seq![l]) == Seq::<Seq<char>>::empty(),
        !text::blank_text(l) ==> filled_lines(seq![l]) == seq![l],
    decreases b.len(),
{
    assert(seq![l].drop_last() =~= Seq::<Seq<char>>::empty());
    assert(filled_lines(seq![l].drop_last()) == Seq::<Seq<char>>::empty());
    assert(Seq::<Seq<char>>::empty().push(l) =~= seq![l]);
    text::law_trimming(l);
    let (i, j) = choose|i: int, j: int|
        #![trigger l.subrange(i, j)]
        0 <= i <= j <= l.len() && text::trimmed(l) == l.subrange(i, j) && text::blank_text(
            l.take(i),
        ) && text::blank_text(l.skip(j));
    if text::trimmed(l).len() == 0 {
        assert forall|k: int| 0 <= k < l.len() implies text::is_space(#[trigger] l[k]) by {
            if k < i {
                assert(l.take(i)[k] == l[k]);
            } else {
                assert(l.skip(j)[k - j] == l[k]);
            }
        }
    } else {
        assert(text::trimmed(l)[0] == l[i]);
    }
    if b.len() == 0 {
        assert(a + b =~= a);
        assert(filled_lines(a) + filled_lines(b) =~= filled_lines(a));
    } else {
        law_filled_lines(a, b.drop_last(), l);
        assert((a + b).drop_last() =~= a + b.drop_last());
        assert((a + b).last() == b.last());
        assert(filled_lines(a) + filled_lines(b.drop_last()).push(b.last()) =~= (filled_lines(a)
            + filled_lines(b.drop_last())).push(b.last()));
    }
}

/// Each kind of event goes by its own name in the log.
pub proof fn law_names_in_the_log(r: WalEvent)
    ensures
        WalEventType::JobStarted.name() == "job_started"@,
        WalEventType::JobCompleted.name() == "job_completed"@,
        WalEventType::JobFailed.name() == "job_failed"@,
        WalEventType::BackupCreated.name() == "backup_created"@,
        WalEventType::CommandExecuted.name() == "command_executed"@,
        WalEventType::ObserveStarted.name() == "observe_started"@,
        WalEventType::ObserveSuspended.name() == "observe_suspended"@,
        WalEventType::ObserveTruncated.name() == "observe_truncated"@,
        WalEventType::ObserveBatch.name() == "observe_batch"@,
        WalEventType::ObserveCompleted.name() == "observe_completed"@,
        r.bare() ==> r.capability is None && r.output is None && r.error is None && r.cmd is None
            && r.cmd_exit_code is None && r.backup_path is None && r.bundle_hash is None,
{
}

} // verus!
