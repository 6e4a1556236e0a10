//! The execution of a capability: checks before it, a log around it, and what becomes of it.
//!
//! An execution is a sequence of steps. Each takes what the last action gave and says what to do
//! next; doing it is the caller's part.
use vstd::prelude::*;
use vstd::string::*;

use crate::capability::Context;
use crate::capability::Output;
use crate::config::RuntimoConfig;
use crate::error::Error;
use crate::guard::PipelineResult;
use crate::json;
use crate::json::Json;
use crate::json::Num;
use crate::json::Object;
use crate::json::Value;
use crate::processes::ProcessInfo;
use crate::processes::ProcessSnapshot;
use crate::processes::ProcessSummary;
use crate::telemetry::Telemetry;
use crate::text;
use crate::utils;
use crate::wal::WalEvent;
use crate::wal::WalEventType;

verus! {

broadcast use vstd::string::group_string_axioms;

/// Seconds that a capability is given where nothing else is said.
pub const CAPABILITY_TIMEOUT_SECS: u64 = 30;

/// The most bytes of arguments.
pub const MAX_ARGS_SIZE_BYTES: usize = 1_048_576;

/// The most bytes of a text that is looked at.
pub const SIFT_MAX_BYTES: usize = 8192;

/// The timeout of a capability.
pub fn capability_timeout(config: &RuntimoConfig, capability: &str) -> (r: u64)
    ensures
        r == (match crate::config::first_value(config.capability_timeouts@, capability@) {
            Some(n) => n,
            None => CAPABILITY_TIMEOUT_SECS,
        }),
{
    config.get_capability_timeout(capability, CAPABILITY_TIMEOUT_SECS)
}

// ---------------------------------------------------------------------------
// Arguments
// ---------------------------------------------------------------------------

/// The text under a key of the arguments.
pub open spec fn text_under(args: Json, key: Seq<char>) -> Option<Seq<char>> {
    match json::member(args, key) {
        Some(Json::Text(s)) => Some(s),
        _ => None,
    }
}

/// The text under a key of the arguments.
pub fn get_text<'a>(args: &'a Value, key: &str) -> (r: Option<&'a str>)
    ensures
        match r {
            Some(s) => text_under(args@, key@) == Some(s@),
            None => text_under(args@, key@) is None,
        },
{
    match args.get(key) {
        Some(v) => v.as_str(),
        None => None,
    }
}

/// The arguments hold text that somebody wrote.
pub open spec fn natural(args: Json) -> bool {
    ||| text_under(args, "cmd"@) is Some
    ||| text_under(args, "content"@) is Some
    ||| text_under(args, "url"@) is Some
    ||| text_under(args, "message"@) is Some
}

/// Whether the arguments hold text that somebody wrote.
pub fn has_natural_content(args: &Value) -> (r: bool)
    ensures
        r == natural(args@),
{
    get_text(args, "cmd").is_some() || get_text(args, "content").is_some() || get_text(
        args,
        "url",
    ).is_some() || get_text(args, "message").is_some()
}

/// As much of a text as is looked at, with the number of bytes that are not.
pub open spec fn sifted_part(s: Seq<char>) -> Seq<char> {
    if text::byte_length(s) <= SIFT_MAX_BYTES {
        s
    } else {
        let part = text::within(s, SIFT_MAX_BYTES as nat);
        part + "... [truncated "@ + text::decimal(
            (text::byte_length(s) - text::byte_length(part)) as nat,
        ) + " bytes]"@
    }
}

/// As much of a text as is looked at, with the number of bytes that are not.
pub fn truncate_for_sift(s: &str) -> (r: String)
    ensures
        r@ == sifted_part(s@),
{
    let len = text::byte_len(s);
    if len <= SIFT_MAX_BYTES {
        s.to_owned()
    } else {
        let part = text::cut(s, SIFT_MAX_BYTES);
        let used = text::byte_len(part.as_str());
        proof {
            text::lemma_within_shorter(s@, SIFT_MAX_BYTES as nat);
        }
        let mut r = part;
        r.append("... [truncated ");
        r.append(text::decimal_text((len - used) as u64).as_str());
        r.append(" bytes]");
        r
    }
}

/// What of a request is looked at: its command, its content, its URL or its message, whichever
/// comes first, and the description of the capability where there is none.
pub open spec fn observed(description: Seq<char>, args: Json) -> Seq<char> {
    if let Some(s) = text_under(args, "cmd"@) {
        sifted_part(s)
    } else if let Some(s) = text_under(args, "content"@) {
        sifted_part(s)
    } else if let Some(s) = text_under(args, "url"@) {
        s
    } else if let Some(s) = text_under(args, "message"@) {
        sifted_part(s)
    } else {
        description
    }
}

/// What of a request is looked at.
pub fn sift_observation(description: &str, args: &Value) -> (r: String)
    ensures
        r@ == observed(description@, args@),
{
    if let Some(s) = get_text(args, "cmd") {
        return truncate_for_sift(s);
    }
    if let Some(s) = get_text(args, "content") {
        return truncate_for_sift(s);
    }
    if let Some(s) = get_text(args, "url") {
        return s.to_owned();
    }
    if let Some(s) = get_text(args, "message") {
        return truncate_for_sift(s);
    }
    description.to_owned()
}

/// Arguments with a timeout, if they are an object without one.
pub open spec fn timed(args: Json, timeout_secs: u64) -> Json {
    match args {
        Json::Object(m) => if json::lookup(m, "timeout_secs"@) is Some {
            args
        } else {
            Json::Object(json::inserted(m, "timeout_secs"@, Json::Number(Num::PosInt(timeout_secs))))
        },
        _ => args,
    }
}

/// Arguments with a timeout, if they are an object without one.
pub fn inject_timeout(args: &Value, timeout_secs: u64) -> (r: Value)
    ensures
        r@ == timed(args@, timeout_secs),
{
    match args {
        Value::Object(o) => {
            if o.get("timeout_secs").is_some() {
                args.clone()
            } else {
                Value::Object(
                    o.clone().with("timeout_secs".to_owned(), Value::from_natural(timeout_secs)),
                )
            }
        },
        _ => args.clone(),
    }
}

/// A timeout that a request names stands, and one that it does not name is put in.
pub proof fn law_named_timeout_stands(m: Seq<(Seq<char>, Json)>, timeout_secs: u64, key: Seq<char>)
    ensures
        json::member(timed(Json::Object(m), timeout_secs), key) == (if key == "timeout_secs"@
            && json::lookup(m, key) is None {
            Some(Json::Number(Num::PosInt(timeout_secs)))
        } else {
            json::lookup(m, key)
        }),
{
    json::lemma_lookup_inserted(m, "timeout_secs"@, Json::Number(Num::PosInt(timeout_secs)), key);
}

// ---------------------------------------------------------------------------
// Results
// ---------------------------------------------------------------------------

/// The data of an output that came too late.
pub open spec fn late_data(data: Option<Json>) -> Json {
    Json::Object(
        match data {
            Some(Json::Object(m)) => json::inserted(m, "timed_out"@, Json::Bool(true)),
            Some(v) => json::inserted(
                json::inserted(Seq::empty(), "value"@, v),
                "timed_out"@,
                Json::Bool(true),
            ),
            None => json::inserted(Seq::empty(), "timed_out"@, Json::Bool(true)),
        },
    )
}

/// An output, with a flag in its data where it came too late. Nothing of it is lost.
pub fn flag_timeout(output: Output, slow: bool) -> (r: Output)
    ensures
        !slow ==> r == output,
        slow ==> r.status == output.status && r.output == output.output && r.error == output.error
            && json::option_view(r.data) == Some(late_data(json::option_view(output.data))),
{
    if !slow {
        return output;
    }
    let data = match output.data {
        Some(Value::Object(o)) => o.with("timed_out".to_owned(), Value::Bool(true)),
        Some(v) => Object::new().with("value".to_owned(), v).with(
            "timed_out".to_owned(),
            Value::Bool(true),
        ),
        None => Object::new().with("timed_out".to_owned(), Value::Bool(true)),
    };
    Output {
        status: output.status,
        output: output.output,
        data: Some(Value::Object(data)),
        error: output.error,
    }
}

/// An output that came too late says so.
pub proof fn law_late_output_says_so(data: Option<Json>)
    ensures
        json::member(late_data(data), "timed_out"@) == Some(Json::Bool(true)),
{
    let m = match data {
        Some(Json::Object(m)) => m,
        Some(v) => json::inserted(Seq::empty(), "value"@, v),
        None => Seq::empty(),
    };
    json::lemma_lookup_inserted(m, "timed_out"@, Json::Bool(true), "timed_out"@);
}

/// A process of a listing has a pid.
pub open spec fn lists(processes: Seq<ProcessInfo>, pid: u32) -> bool {
    exists|i: int| 0 <= i < processes.len() && (#[trigger] processes[i]).pid == pid
}

/// The pids of the second listing that the first does not have.
pub open spec fn spawned(before: Seq<ProcessInfo>, after: Seq<ProcessInfo>) -> Seq<u32>
    decreases after.len(),
{
    if after.len() == 0 {
        Seq::empty()
    } else if lists(before, after.last().pid) {
        spawned(before, after.drop_last())
    } else {
        spawned(before, after.drop_last()).push(after.last().pid)
    }
}

fn has_pid(processes: &Vec<ProcessInfo>, pid: u32) -> (r: bool)
    ensures
        r == lists(processes@, pid),
{
    for i in 0..processes.len()
        invariant
            forall|j: int| 0 <= j < i ==> (#[trigger] processes@[j]).pid != pid,
    {
        if processes[i].pid == pid {
            return true;
        }
    }
    false
}

/// The pids of the second listing that the first does not have, in its order.
pub fn identify_spawned_pids(before: &ProcessSnapshot, after: &ProcessSnapshot) -> (r: Vec<u32>)
    ensures
        r@ == spawned(before.processes@, after.processes@),
{
    let ghost all = after.processes@;
    let mut r: Vec<u32> = Vec::new();
    assert(all.take(0) =~= Seq::<ProcessInfo>::empty());
    for i in 0..after.processes.len()
        invariant
            all == after.processes@,
            r@ == spawned(before.processes@, all.take(i as int)),
    {
        assert(all.take(i + 1).drop_last() =~= all.take(i as int));
        if !has_pid(&before.processes, after.processes[i].pid) {
            r.push(after.processes[i].pid);
        }
    }
    assert(all.take(all.len() as int) =~= all);
    r
}

// ---------------------------------------------------------------------------
// Backups
// ---------------------------------------------------------------------------

/// The last piece that names something: not nothing, and not the directory itself.
pub open spec fn last_named(pieces: Seq<Seq<char>>) -> Option<Seq<char>>
    decreases pieces.len(),
{
    if pieces.len() == 0 {
        None
    } else if pieces.last().len() == 0 || pieces.last() == "."@ {
        last_named(pieces.drop_last())
    } else if pieces.last() == ".."@ {
        None
    } else {
        Some(pieces.last())
    }
}

/// The name of the file that a path leads to, where it leads to one.
pub open spec fn file_name(path: Seq<char>) -> Option<Seq<char>> {
    last_named(text::pieces(path, '/'))
}

/// The name of the file that a path leads to, where it leads to one.
pub fn file_name_of(path: &str) -> (r: Option<String>)
    ensures
        match r {
            Some(n) => file_name(path@) == Some(n@),
            None => file_name(path@) is None,
        },
{
    let pieces = text::split(path, '/');
    let ghost all = text::texts(pieces@);
    let mut i = pieces.len();
    assert(all.take(all.len() as int) =~= all);
    while i > 0
        invariant
            all == text::texts(pieces@),
            all == text::pieces(path@, '/'),
            i <= all.len(),
            last_named(all) == last_named(all.take(i as int)),
        decreases i,
    {
        let piece = &pieces[i - 1];
        proof {
            assert(all.take(i as int).last() == piece@);
            assert(all.take(i as int).drop_last() =~= all.take(i - 1));
        }
        if piece.as_str().is_empty() || text::same(piece.as_str(), ".") {
            i = i - 1;
        } else if text::same(piece.as_str(), "..") {
            return None;
        } else {
            return Some(piece.clone());
        }
    }
    None
}

/// Where a backup of a file may lie: under its name, or under its name with a number up to ten.
pub open spec fn backup_places(job_dir: Seq<char>, name: Seq<char>) -> Seq<Seq<char>> {
    Seq::new(
        11,
        |i: int|
            if i == 0 {
                utils::below(job_dir, name)
            } else {
                utils::below(job_dir, name + "."@ + text::decimal(i as nat))
            },
    )
}

/// Where a backup of a file may lie.
pub fn backup_candidates(job_dir: &str, name: &str) -> (r: Vec<String>)
    ensures
        text::texts(r@) == backup_places(job_dir@, name@),
{
    let mut r: Vec<String> = Vec::new();
    r.push(utils::join(job_dir, name));
    for i in 1..11u64
        invariant
            r@.len() == i,
            forall|j: int| 0 <= j < i ==> (#[trigger] r@[j])@ == backup_places(job_dir@, name@)[j],
    {
        let mut numbered = name.to_owned();
        numbered.append(".");
        numbered.append(text::decimal_text(i).as_str());
        r.push(utils::join(job_dir, numbered.as_str()));
    }
    assert(text::texts(r@) =~= backup_places(job_dir@, name@));
    r
}

/// The first place at which something is.
pub open spec fn first_present(places: Seq<Seq<char>>, present: Seq<bool>) -> Option<Seq<char>>
    decreases places.len(),
{
    if places.len() == 0 || present.len() == 0 {
        None
    } else if present[0] {
        Some(places[0])
    } else {
        first_present(places.skip(1), present.skip(1))
    }
}

/// The first place at which a backup is. `present` says of each place whether something is there.
pub fn find_backup_candidate(places: &Vec<String>, present: &Vec<bool>) -> (r: Option<String>)
    ensures
        match r {
            Some(p) => first_present(text::texts(places@), present@) == Some(p@),
            None => first_present(text::texts(places@), present@) is None,
        },
{
    let ghost all = text::texts(places@);
    let mut i: usize = 0;
    assert(all.skip(0) =~= all);
    assert(present@.skip(0) =~= present@);
    while i < places.len() && i < present.len()
        invariant
            all == text::texts(places@),
            i <= all.len(),
            i <= present@.len(),
            first_present(all, present@) == first_present(
                all.skip(i as int),
                present@.skip(i as int),
            ),
        decreases all.len() - i,
    {
        proof {
            assert(all.skip(i as int)[0] == all[i as int]);
            assert(present@.skip(i as int)[0] == present@[i as int]);
            assert(all.skip(i as int).skip(1) =~= all.skip(i + 1));
            assert(present@.skip(i as int).skip(1) =~= present@.skip(i + 1));
        }
        if present[i] {
            return Some(places[i].clone());
        }
        i = i + 1;
    }
    None
}

// ---------------------------------------------------------------------------
// Events of the log
// ---------------------------------------------------------------------------

/// What the log holds of a snapshot: the snapshot, or nothing where telemetry is off.
pub open spec fn noted(enabled: bool, tel: Telemetry, field: Option<Telemetry>) -> bool {
    match field {
        Some(t) => enabled && t.same(tel),
        None => !enabled,
    }
}

/// What the log holds of a snapshot: the snapshot, or nothing where telemetry is off.
pub fn telemetry_opt(enabled: bool, tel: &Telemetry) -> (r: Option<Telemetry>)
    ensures
        noted(enabled, *tel, r),
{
    if enabled {
        Some(tel.clone())
    } else {
        None
    }
}

/// The place in the log and the time.
#[derive(Debug, Clone, Copy, PartialEq, Eq, Structural)]
pub struct Cue {
    /// The place in the log of the next event.
    pub seq: u64,
    /// Unix time, in seconds.
    pub now: u64,
}

/// What is to be executed, and how.
#[derive(Debug)]
pub struct Request {
    pub job_id: String,
    pub capability: String,
    pub description: String,
    pub args: Value,
    pub dry_run: bool,
    pub working_dir: Option<String>,
    pub timeout_secs: u64,
    /// The session that the job belongs to.
    pub session: Option<String>,
    /// The directory under which each job has its backups.
    pub backup_dir: String,
    /// Telemetry is taken.
    pub telemetry_on: bool,
    /// Shell commands are logged once more on their own.
    pub log_commands: bool,
}

/// The machine before an execution.
#[derive(Debug)]
pub struct Before {
    pub telemetry: Telemetry,
    pub processes: ProcessSnapshot,
}

/// The machine after an execution.
#[derive(Debug)]
pub struct After {
    pub telemetry: Telemetry,
    pub processes: ProcessSnapshot,
}

/// An event of the log about a job, but for what it says.
pub open spec fn about(w: WalEvent, req: Request, kind: WalEventType, seq: u64, ts: u64) -> bool {
    &&& w.seq == seq
    &&& w.ts == ts
    &&& w.event_type == kind
    &&& w.job_id@ == req.job_id@
    &&& w.cmd is None
    &&& w.cmd_stdout is None
    &&& w.cmd_stderr is None
    &&& w.cmd_exit_code is None
    &&& w.cmd_corrected is None
    &&& w.bundle_hash is None
    &&& w.mono_ns is None
    &&& w.wall_ns is None
}

/// The capability of an event is that of the request.
pub open spec fn names_capability(w: WalEvent, req: Request) -> bool {
    match w.capability {
        Some(c) => c@ == req.capability@,
        None => false,
    }
}

/// The event of a start.
pub open spec fn is_started(w: WalEvent, req: Request, before: Before, cue: Cue) -> bool {
    &&& about(w, req, WalEventType::JobStarted, cue.seq, before.telemetry.timestamp)
    &&& names_capability(w, req)
    &&& w.output is None
    &&& w.error is None
    &&& noted(req.telemetry_on, before.telemetry, w.telemetry_before)
    &&& w.telemetry_after is None
    &&& w.process_before == Some(before.processes.summary)
    &&& w.process_after is None
    &&& w.oov_ratio is None
    &&& w.detection_flags is None
    &&& w.backup_path is None
}

/// The event of a failure.
pub open spec fn is_failed(
    w: WalEvent,
    req: Request,
    error: Seq<char>,
    tel_before: Telemetry,
    tel_after: Telemetry,
    proc_before: ProcessSummary,
    proc_after: ProcessSummary,
    oov_ratio: Option<u8>,
    detection_flags: Option<u8>,
    cue: Cue,
) -> bool {
    &&& about(w, req, WalEventType::JobFailed, cue.seq, cue.now)
    &&& names_capability(w, req)
    &&& w.output is None
    &&& match w.error {
        Some(e) => e@ == error,
        None => false,
    }
    &&& noted(req.telemetry_on, tel_before, w.telemetry_before)
    &&& noted(req.telemetry_on, tel_after, w.telemetry_after)
    &&& w.process_before == Some(proc_before)
    &&& w.process_after == Some(proc_after)
    &&& w.oov_ratio == oov_ratio
    &&& w.detection_flags == detection_flags
    &&& w.backup_path is None
}

/// What the log says of a backup.
pub open spec fn backup_output(original: Seq<char>, backup: Seq<char>) -> Json {
    Json::Object(
        json::inserted(
            Seq::empty(),
            "data"@,
            Json::Object(
                json::inserted(
                    json::inserted(Seq::empty(), "path"@, Json::Text(original)),
                    "backup_path"@,
                    Json::Text(backup),
                ),
            ),
        ),
    )
}

/// The event of a backup.
pub open spec fn is_backup(
    w: WalEvent,
    req: Request,
    original: Seq<char>,
    backup: Seq<char>,
    after: After,
    cue: Cue,
) -> bool {
    &&& about(w, req, WalEventType::BackupCreated, cue.seq, after.telemetry.timestamp)
    &&& names_capability(w, req)
    &&& json::option_view(w.output) == Some(backup_output(original, backup))
    &&& w.error is None
    &&& w.telemetry_before is None
    &&& w.telemetry_after is None
    &&& w.process_before is None
    &&& w.process_after is None
    &&& w.oov_ratio is None
    &&& w.detection_flags is None
    &&& match w.backup_path {
        Some(p) => p@ == backup,
        None => false,
    }
}

/// The event of a success.
pub open spec fn is_completed(
    w: WalEvent,
    req: Request,
    output: Output,
    before: Before,
    after: After,
    cue: Cue,
) -> bool {
    &&& about(w, req, WalEventType::JobCompleted, cue.seq, after.telemetry.timestamp)
    &&& names_capability(w, req)
    &&& json::option_view(w.output) == Some(output.json())
    &&& w.error is None
    &&& noted(req.telemetry_on, before.telemetry, w.telemetry_before)
    &&& noted(req.telemetry_on, after.telemetry, w.telemetry_after)
    &&& w.process_before == Some(before.processes.summary)
    &&& w.process_after == Some(after.processes.summary)
    &&& w.oov_ratio is None
    &&& w.detection_flags is None
    &&& w.backup_path is None
}

/// The text under a key of the data of an output, or an empty one.
pub open spec fn data_text(output: Output, key: Seq<char>) -> Seq<char> {
    match json::option_view(output.data) {
        Some(d) => match text_under(d, key) {
            Some(s) => s,
            None => Seq::empty(),
        },
        None => Seq::empty(),
    }
}

/// The exit code in the data of an output, or -1.
pub open spec fn exit_code(output: Output) -> int {
    match json::option_view(output.data) {
        Some(d) => match json::member(d, "exit_code"@) {
            Some(Json::Number(Num::PosInt(n))) => if n <= i64::MAX {
                n as int
            } else {
                -1
            },
            Some(Json::Number(Num::NegInt(n))) => n as int,
            _ => -1,
        },
        None => -1,
    }
}

/// The event of a shell command.
pub open spec fn is_command(w: WalEvent, req: Request, output: Output, cue: Cue) -> bool {
    &&& w.seq == cue.seq
    &&& w.ts == cue.now
    &&& w.event_type == WalEventType::CommandExecuted
    &&& w.job_id@ == req.job_id@
    &&& match w.cmd {
        Some(s) => s@ == data_text(output, "cmd"@),
        None => false,
    }
    &&& match w.cmd_stdout {
        Some(s) => s@ == text::within(data_text(output, "stdout"@), 1024),
        None => false,
    }
    &&& match w.cmd_stderr {
        Some(s) => s@ == text::within(data_text(output, "stderr"@), 1024),
        None => false,
    }
    &&& w.cmd_exit_code == Some(exit_code(output) as i32)
    &&& (WalEvent { cmd: None, cmd_stdout: None, cmd_stderr: None, cmd_exit_code: None, ..w }).bare()
}

fn job_event(req: &Request, kind: WalEventType, seq: u64, ts: u64) -> (r: WalEvent)
    ensures
        about(r, *req, kind, seq, ts),
        names_capability(r, *req),
        (WalEvent { capability: None, ..r }).bare(),
{
    let mut r = WalEvent::default();
    r.seq = seq;
    r.ts = ts;
    r.event_type = kind;
    r.job_id = req.job_id.clone();
    r.capability = Some(req.capability.clone());
    r
}

fn started_event(req: &Request, before: &Before, cue: Cue) -> (r: WalEvent)
    ensures
        is_started(r, *req, *before, cue),
{
    let mut r = job_event(req, WalEventType::JobStarted, cue.seq, before.telemetry.timestamp);
    r.telemetry_before = telemetry_opt(req.telemetry_on, &before.telemetry);
    r.process_before = Some(before.processes.summary.clone());
    r
}

/// The event of a failure.
pub fn log_job_failed_with_snapshots(
    req: &Request,
    error: &str,
    tel_before: &Telemetry,
    tel_after: &Telemetry,
    proc_before: &ProcessSummary,
    proc_after: &ProcessSummary,
    oov_ratio: Option<u8>,
    detection_flags: Option<u8>,
    cue: Cue,
) -> (r: WalEvent)
    ensures
        is_failed(
            r,
            *req,
            error@,
            *tel_before,
            *tel_after,
            *proc_before,
            *proc_after,
            oov_ratio,
            detection_flags,
            cue,
        ),
{
    let mut r = job_event(req, WalEventType::JobFailed, cue.seq, cue.now);
    r.error = Some(error.to_owned());
    r.telemetry_before = telemetry_opt(req.telemetry_on, tel_before);
    r.telemetry_after = telemetry_opt(req.telemetry_on, tel_after);
    r.process_before = Some(proc_before.clone());
    r.process_after = Some(proc_after.clone());
    r.oov_ratio = oov_ratio;
    r.detection_flags = detection_flags;
    r
}

fn backup_event(req: &Request, original: &str, backup: &str, after: &After, cue: Cue) -> (r:
    WalEvent)
    ensures
        is_backup(r, *req, original@, backup@, *after, cue),
{
    let data = Object::new().with("path".to_owned(), Value::from_text(original)).with(
        "backup_path".to_owned(),
        Value::from_text(backup),
    );
    let mut r = job_event(req, WalEventType::BackupCreated, cue.seq, after.telemetry.timestamp);
    r.output = Some(Value::Object(Object::new().with("data".to_owned(), Value::Object(data))));
    r.backup_path = Some(backup.to_owned());
    r
}

fn completed_event(req: &Request, output: &Output, before: &Before, after: &After, cue: Cue) -> (r:
    WalEvent)
    ensures
        is_completed(r, *req, *output, *before, *after, cue),
{
    let mut r = job_event(req, WalEventType::JobCompleted, cue.seq, after.telemetry.timestamp);
    r.output = Some(output.to_value());
    r.telemetry_before = telemetry_opt(req.telemetry_on, &before.telemetry);
    r.telemetry_after = telemetry_opt(req.telemetry_on, &after.telemetry);
    r.process_before = Some(before.processes.summary.clone());
    r.process_after = Some(after.processes.summary.clone());
    r
}

fn data_text_of(output: &Output, key: &str) -> (r: String)
    ensures
        r@ == data_text(*output, key@),
{
    match &output.data {
        Some(d) => match get_text(d, key) {
            Some(s) => s.to_owned(),
            None => String::new(),
        },
        None => String::new(),
    }
}

fn exit_code_of(output: &Output) -> (r: i64)
    ensures
        r == exit_code(*output),
{
    match &output.data {
        Some(d) => match d.get("exit_code") {
            Some(Value::Number(json::Number::PosInt(n))) => if *n <= i64::MAX as u64 {
                *n as i64
            } else {
                -1
            },
            Some(Value::Number(json::Number::NegInt(n))) => *n,
            _ => -1,
        },
        None => -1,
    }
}

fn command_event(req: &Request, output: &Output, cue: Cue) -> (r: WalEvent)
    ensures
        is_command(r, *req, *output, cue),
{
    let mut r = WalEvent::default();
    r.seq = cue.seq;
    r.ts = cue.now;
    r.event_type = WalEventType::CommandExecuted;
    r.job_id = req.job_id.clone();
    r.cmd = Some(data_text_of(output, "cmd"));
    r.cmd_stdout = Some(text::cut(data_text_of(output, "stdout").as_str(), 1024));
    r.cmd_stderr = Some(text::cut(data_text_of(output, "stderr").as_str(), 1024));
    r.cmd_exit_code = Some(
        #[verifier::truncate]
        (exit_code_of(output) as i32),
    );
    r
}

// ---------------------------------------------------------------------------
// Admission
// ---------------------------------------------------------------------------

/// Why a request is refused before it is started: the guard, more than ten zombies, or more than a
/// megabyte of arguments.
pub open spec fn turned_away(
    guard: Result<(), String>,
    zombies: usize,
    args: Json,
) -> Option<Seq<char>> {
    match guard {
        Err(m) => Some(m@),
        Ok(()) => if zombies > 10 {
            Some("Zombie processes: "@ + text::decimal(zombies as nat) + " (limit: 10)"@)
        } else if text::byte_length(json::compact(args)) > MAX_ARGS_SIZE_BYTES {
            Some(
                "Capability args too large: "@ + text::decimal(
                    text::byte_length(json::compact(args)),
                ) + " bytes (limit: 1MB)"@,
            )
        } else {
            None
        },
    }
}

/// Why a request is refused before it is started, if it is.
pub fn admission_refusal(guard: Result<(), String>, zombies: usize, args: &Value) -> (r: Option<
    String,
>)
    ensures
        match r {
            Some(m) => turned_away(guard, zombies, args@) == Some(m@),
            None => turned_away(guard, zombies, args@) is None,
        },
{
    if let Err(m) = guard {
        return Some(m);
    }
    if zombies > 10 {
        let mut m = "Zombie processes: ".to_owned();
        m.append(text::decimal_text(zombies as u64).as_str());
        m.append(" (limit: 10)");
        return Some(m);
    }
    let bytes = text::byte_len(args.to_text().as_str());
    if bytes > MAX_ARGS_SIZE_BYTES {
        let mut m = "Capability args too large: ".to_owned();
        m.append(text::decimal_text(bytes as u64).as_str());
        m.append(" bytes (limit: 1MB)");
        return Some(m);
    }
    None
}

/// What somebody wrote in the arguments is looked at, except for shell commands, which have checks
/// of their own.
pub open spec fn looked_at(req: Request) -> bool {
    req.capability@ != "ShellExec"@ && natural(req.args@)
}

// ---------------------------------------------------------------------------
// Results
// ---------------------------------------------------------------------------

/// What came of an execution.
#[derive(Debug)]
pub struct ExecutionResult {
    pub job_id: String,
    pub capability: String,
    pub success: bool,
    pub output: Output,
    pub telemetry_before: Telemetry,
    pub telemetry_after: Telemetry,
    pub process_before: ProcessSummary,
    pub process_after: ProcessSummary,
    /// Place in the log of the event that ended the job.
    pub wal_seq: u64,
}

impl ExecutionResult {
    /// The result of a request, but for the output.
    pub open spec fn of(self, req: Request, before: Before, after: After, wal_seq: u64) -> bool {
        &&& self.job_id@ == req.job_id@
        &&& self.capability@ == req.capability@
        &&& self.telemetry_before.same(before.telemetry)
        &&& self.telemetry_after.same(after.telemetry)
        &&& self.process_before == before.processes.summary
        &&& self.process_after == after.processes.summary
        &&& self.wal_seq == wal_seq
    }
}

/// The result of a failure.
pub open spec fn is_failure(
    r: ExecutionResult,
    req: Request,
    error: Seq<char>,
    before: Before,
    after: After,
    wal_seq: u64,
) -> bool {
    &&& r.of(req, before, after, wal_seq)
    &&& !r.success
    &&& r.output.status@ == "error"@
    &&& r.output.output@ == error
    &&& r.output.data is None
    &&& match r.output.error {
        Some(e) => e@ == error,
        None => false,
    }
}

/// The result of a failure.
pub fn fail_result(
    req: &Request,
    error: &str,
    before: &Before,
    after: &After,
    wal_seq: u64,
) -> (r: ExecutionResult)
    ensures
        is_failure(r, *req, error@, *before, *after, wal_seq),
{
    ExecutionResult {
        job_id: req.job_id.clone(),
        capability: req.capability.clone(),
        success: false,
        output: Output::error(error.to_owned(), error.to_owned()),
        telemetry_before: before.telemetry.clone(),
        telemetry_after: after.telemetry.clone(),
        process_before: before.processes.summary.clone(),
        process_after: after.processes.summary.clone(),
        wal_seq,
    }
}

fn success_result(
    req: &Request,
    output: Output,
    before: &Before,
    after: &After,
    wal_seq: u64,
) -> (r: ExecutionResult)
    ensures
        r.of(*req, *before, *after, wal_seq),
        r.success == output.succeeded(),
        r.output == output,
{
    ExecutionResult {
        job_id: req.job_id.clone(),
        capability: req.capability.clone(),
        success: text::same(output.status.as_str(), "ok"),
        output,
        telemetry_before: before.telemetry.clone(),
        telemetry_after: after.telemetry.clone(),
        process_before: before.processes.summary.clone(),
        process_after: after.processes.summary.clone(),
        wal_seq,
    }
}

// ---------------------------------------------------------------------------
// Steps
// ---------------------------------------------------------------------------

/// A file and the backup of it that was found.
#[derive(Debug)]
pub struct Found {
    pub original: String,
    pub backup: String,
}

/// How far an execution has come, by what it waits for.
#[derive(Debug)]
pub enum Stage {
    /// The guard's verdict.
    Admitting,
    /// That the refusal is logged.
    Refusing(String),
    /// That the start is logged.
    Starting,
    /// What the guard makes of the text.
    Screening,
    /// The machine after a text was refused.
    Vetoing { message: String, oov_ratio: u8, detection_flags: u8 },
    /// That the refusal of a text is logged.
    Vetoed(String),
    /// The capability.
    Running,
    /// The machine after a failure.
    Failing(String),
    /// Which backups of the files there are.
    Probing { error: String, after: After, originals: Vec<String> },
    /// That a backup is logged. `next` of those that were found are.
    Auditing { error: String, after: After, found: Vec<Found>, next: usize },
    /// That the failure is logged.
    Failed { error: String, after: After, wal_seq: u64 },
    /// The machine after a success.
    Succeeding(Output),
    /// That the backup is logged.
    Saving { output: Output, after: After },
    /// That the success is logged.
    Completing { output: Output, after: After, wal_seq: u64 },
    /// That the command is logged.
    Commanding { output: Output, after: After, wal_seq: u64 },
    /// That the job is added to its session.
    Joining { output: Output, after: After, wal_seq: u64 },
    /// Nothing.
    Done,
}

/// What the last action gave.
#[derive(Debug)]
pub enum Input {
    Guard(Result<(), String>),
    Logged(Result<(), Error>),
    Screened(Result<PipelineResult, String>),
    /// What the capability gave, and whether it took longer than it was given.
    Ran { outcome: Result<Output, String>, slow: bool },
    Snapped(After),
    /// Of each place of each file, whether something is there.
    Probed(Vec<Vec<bool>>),
    Joined,
}

/// What is to be done next.
#[derive(Debug)]
pub enum Action {
    /// Log an event. Where that fails and is not fatal, the failure is only noted.
    Log { event: WalEvent, fatal: bool },
    /// Have the guard look at a text.
    Screen(String),
    /// Execute the capability.
    Run { args: Value, context: Context },
    /// Take a snapshot of the machine.
    Snap,
    /// Look at the places at which backups may lie, file by file.
    Probe(Vec<Vec<String>>),
    /// Add the job to its session. Where that fails, the failure is only noted.
    Join { session: String, job_id: String },
    /// End.
    Finish(Result<ExecutionResult, Error>),
}

/// The text under a key, if it leads to a file.
pub open spec fn file_under(args: Json, key: Seq<char>) -> Seq<Seq<char>> {
    match text_under(args, key) {
        Some(s) => if s.len() > 0 && file_name(s) is Some {
            seq![s]
        } else {
            Seq::empty()
        },
        None => Seq::empty(),
    }
}

/// The files that a request is about.
pub open spec fn originals_of(args: Json) -> Seq<Seq<char>> {
    file_under(args, "path"@) + file_under(args, "repo_path"@) + file_under(args, "dir"@)
}

/// Where the backups of each file may lie.
pub open spec fn places_of(originals: Seq<Seq<char>>, job_dir: Seq<char>) -> Seq<Seq<Seq<char>>> {
    originals.map_values(
        |o: Seq<char>|
            match file_name(o) {
                Some(n) => backup_places(job_dir, n),
                None => Seq::empty(),
            },
    )
}

/// Which backups there are: each file with the first of its places at which something is.
pub open spec fn backups_of(
    originals: Seq<Seq<char>>,
    job_dir: Seq<char>,
    present: Seq<Seq<bool>>,
) -> Seq<(Seq<char>, Seq<char>)>
    decreases originals.len(),
{
    if originals.len() == 0 || present.len() < originals.len() {
        Seq::empty()
    } else {
        let n = originals.len() - 1;
        let rest = backups_of(originals.drop_last(), job_dir, present.take(n));
        match first_present(places_of(originals, job_dir)[n], present[n]) {
            Some(p) => rest.push((originals[n], p)),
            None => rest,
        }
    }
}

/// The models of what was found.
pub open spec fn pairs(found: Seq<Found>) -> Seq<(Seq<char>, Seq<char>)> {
    found.map_values(|f: Found| (f.original@, f.backup@))
}

/// The backup that an output reports, and of which file.
pub open spec fn reported_backup(output: Output) -> Option<(Seq<char>, Seq<char>)> {
    match json::option_view(output.data) {
        Some(d) => match (text_under(d, "path"@), text_under(d, "backup_path"@)) {
            (Some(original), Some(backup)) => if backup.len() > 0 {
                Some((original, backup))
            } else {
                None
            },
            _ => None,
        },
        None => None,
    }
}

/// An execution on its way.
#[derive(Debug)]
pub struct Execution {
    pub request: Request,
    pub before: Before,
    pub stage: Stage,
}

/// The directory of the backups of a job.
pub open spec fn job_dir(req: Request) -> Seq<char> {
    utils::below(req.backup_dir@, req.job_id@)
}

impl Execution {
    /// No more backups are logged than were found.
    pub open spec fn wf(self) -> bool {
        match self.stage {
            Stage::Auditing { found, next, .. } => next <= found@.len(),
            Stage::Probing { originals, .. } => forall|i: int|
                0 <= i < originals@.len() ==> file_name((#[trigger] originals@[i])@) is Some,
            _ => true,
        }
    }

    /// The input is what the execution waits for.
    pub open spec fn expects(self, input: Input) -> bool {
        match self.stage {
            Stage::Admitting => input is Guard,
            Stage::Refusing(_)
            | Stage::Starting
            | Stage::Vetoed(_)
            | Stage::Auditing { .. }
            | Stage::Failed { .. }
            | Stage::Saving { .. }
            | Stage::Completing { .. }
            | Stage::Commanding { .. } => input is Logged,
            Stage::Screening => input is Screened,
            Stage::Vetoing { .. } | Stage::Failing(_) | Stage::Succeeding(_) => input is Snapped,
            Stage::Running => input is Ran,
            Stage::Probing { originals, .. } => input matches Input::Probed(p) && p@.len()
                == originals@.len(),
            Stage::Joining { .. } => input is Joined,
            Stage::Done => false,
        }
    }

    /// The capability is executed.
    pub open spec fn runs(self, next: Stage, action: Action) -> bool {
        &&& next is Running
        &&& action matches Action::Run { args, context } && {
            &&& args@ == timed(self.request.args@, self.request.timeout_secs)
            &&& context.dry_run == self.request.dry_run
            &&& context.job_id@ == self.request.job_id@
            &&& context.working_dir@ == text::text_or(self.request.working_dir, "/"@)
        }
    }

    /// The next backup is logged, or the failure where all backups are.
    pub open spec fn audits(
        self,
        error: Seq<char>,
        after: After,
        found: Seq<(Seq<char>, Seq<char>)>,
        done: int,
        cue: Cue,
        next: Stage,
        action: Action,
    ) -> bool {
        if done < found.len() {
            &&& next matches Stage::Auditing { error: e, after: a, found: f, next: n } && e@ == error
                && a == after && pairs(f@) == found && n == done + 1
            &&& action matches Action::Log { event, fatal } && !fatal && is_backup(
                event,
                self.request,
                found[done].0,
                found[done].1,
                after,
                cue,
            )
        } else {
            &&& next matches Stage::Failed { error: e, after: a, wal_seq } && e@ == error && a
                == after && wal_seq == cue.seq
            &&& action matches Action::Log { event, fatal } && fatal && is_failed(
                event,
                self.request,
                error,
                self.before.telemetry,
                after.telemetry,
                self.before.processes.summary,
                after.processes.summary,
                None,
                None,
                cue,
            )
        }
    }

    /// The success is logged.
    pub open spec fn completes(
        self,
        output: Output,
        after: After,
        cue: Cue,
        next: Stage,
        action: Action,
    ) -> bool {
        &&& next == (Stage::Completing { output, after, wal_seq: cue.seq })
        &&& action matches Action::Log { event, fatal } && fatal && is_completed(
            event,
            self.request,
            output,
            self.before,
            after,
            cue,
        )
    }

    /// The job is added to its session, or the execution ends with a success.
    pub open spec fn ends(
        self,
        output: Output,
        after: After,
        wal_seq: u64,
        next: Stage,
        action: Action,
    ) -> bool {
        match self.request.session {
            Some(s) => {
                &&& next == (Stage::Joining { output, after, wal_seq })
                &&& action matches Action::Join { session, job_id } && session@ == s@ && job_id@
                    == self.request.job_id@
            },
            None => self.succeeds(output, after, wal_seq, next, action),
        }
    }

    /// The execution ends with a success.
    pub open spec fn succeeds(
        self,
        output: Output,
        after: After,
        wal_seq: u64,
        next: Stage,
        action: Action,
    ) -> bool {
        &&& next is Done
        &&& action matches Action::Finish(Ok(r)) && r.of(self.request, self.before, after, wal_seq)
            && r.output == output && r.success == output.succeeded()
    }

    /// The execution ends with an error.
    pub open spec fn stops(self, e: Error, next: Stage, action: Action) -> bool {
        next is Done && action == Action::Finish(Err(e))
    }

    /// Where an input takes the execution, and what is to be done next.
    pub open spec fn leads_to(self, input: Input, cue: Cue, next: Stage, action: Action) -> bool {
        let req = self.request;
        match (self.stage, input) {
            (Stage::Admitting, Input::Guard(guard)) => match turned_away(
                guard,
                self.before.processes.summary.zombie_count,
                req.args@,
            ) {
                Some(m) => {
                    &&& next matches Stage::Refusing(t) && t@ == m
                    &&& action matches Action::Log { event, fatal } && !fatal && is_failed(
                        event,
                        req,
                        m,
                        self.before.telemetry,
                        self.before.telemetry,
                        self.before.processes.summary,
                        self.before.processes.summary,
                        None,
                        None,
                        cue,
                    )
                },
                None => {
                    &&& next is Starting
                    &&& action matches Action::Log { event, fatal } && fatal && is_started(
                        event,
                        req,
                        self.before,
                        cue,
                    )
                },
            },
            (Stage::Refusing(m), Input::Logged(_)) => self.stops(
                Error::ResourceLimitExceeded(m),
                next,
                action,
            ),
            (Stage::Starting, Input::Logged(Err(e))) => self.stops(e, next, action),
            (Stage::Starting, Input::Logged(Ok(()))) => if looked_at(req) {
                &&& next is Screening
                &&& action matches Action::Screen(s) && s@ == observed(req.description@, req.args@)
            } else {
                self.runs(next, action)
            },
            (Stage::Screening, Input::Screened(Err(e))) => {
                &&& next is Done
                &&& action matches Action::Finish(Err(Error::ExecutionFailed(m))) && m@
                    == "Cognitive safety check failed: "@ + e@
            },
            (Stage::Screening, Input::Screened(Ok(p))) => if p.decision.rank() <= 1 {
                self.runs(next, action)
            } else {
                &&& next matches Stage::Vetoing { message, oov_ratio, detection_flags } && message@
                    == "Cognitive safety violation: decision "@ + p.decision.shown() && oov_ratio
                    == p.oov_ratio && detection_flags == p.detection_flags
                &&& action is Snap
            },
            (Stage::Vetoing { message, oov_ratio, detection_flags }, Input::Snapped(after)) => {
                &&& next == Stage::Vetoed(message)
                &&& action matches Action::Log { event, fatal } && fatal && is_failed(
                    event,
                    req,
                    message@,
                    self.before.telemetry,
                    after.telemetry,
                    self.before.processes.summary,
                    after.processes.summary,
                    Some(oov_ratio),
                    Some(detection_flags),
                    cue,
                )
            },
            (Stage::Vetoed(_), Input::Logged(Err(e))) => self.stops(e, next, action),
            (Stage::Vetoed(message), Input::Logged(Ok(()))) => self.stops(
                Error::CognitiveSafetyViolation(message),
                next,
                action,
            ),
            (Stage::Running, Input::Ran { outcome: Err(e), .. }) => {
                &&& next matches Stage::Failing(m) && m@ == "Execution failed: "@ + e@
                &&& action is Snap
            },
            (Stage::Running, Input::Ran { outcome: Ok(output), slow }) => {
                &&& next matches Stage::Succeeding(o) && {
                    &&& !slow ==> o == output
                    &&& slow ==> o.status == output.status && o.output == output.output && o.error
                        == output.error && json::option_view(o.data) == Some(
                        late_data(json::option_view(output.data)),
                    )
                }
                &&& action is Snap
            },
            (Stage::Failing(error), Input::Snapped(after)) => {
                &&& next matches Stage::Probing { error: e, after: a, originals } && e == error && a
                    == after && text::texts(originals@) == originals_of(req.args@)
                &&& action matches Action::Probe(places) && places@.map_values(
                    |v: Vec<String>| text::texts(v@),
                ) == places_of(originals_of(req.args@), job_dir(req))
            },
            (
                Stage::Probing { error, after, originals },
                Input::Probed(present),
            ) => self.audits(
                error@,
                after,
                backups_of(
                    text::texts(originals@),
                    job_dir(req),
                    present@.map_values(|v: Vec<bool>| v@),
                ),
                0,
                cue,
                next,
                action,
            ),
            (
                Stage::Auditing { error, after, found, next: done },
                Input::Logged(_),
            ) => self.audits(error@, after, pairs(found@), done as int, cue, next, action),
            (Stage::Failed { .. }, Input::Logged(Err(e))) => self.stops(e, next, action),
            (Stage::Failed { error, after, wal_seq }, Input::Logged(Ok(()))) => {
                &&& next is Done
                &&& action matches Action::Finish(Ok(r)) && is_failure(
                    r,
                    req,
                    error@,
                    self.before,
                    after,
                    wal_seq,
                )
            },
            (Stage::Succeeding(output), Input::Snapped(after)) => match reported_backup(output) {
                Some(b) => {
                    &&& next == (Stage::Saving { output, after })
                    &&& action matches Action::Log { event, fatal } && fatal && is_backup(
                        event,
                        req,
                        b.0,
                        b.1,
                        after,
                        cue,
                    )
                },
                None => self.completes(output, after, cue, next, action),
            },
            (Stage::Saving { .. }, Input::Logged(Err(e))) => self.stops(e, next, action),
            (Stage::Saving { output, after }, Input::Logged(Ok(()))) => self.completes(
                output,
                after,
                cue,
                next,
                action,
            ),
            (Stage::Completing { .. }, Input::Logged(Err(e))) => self.stops(e, next, action),
            (Stage::Completing { output, after, wal_seq }, Input::Logged(Ok(()))) => if req.log_commands
                && req.capability@ == "ShellExec"@ {
                &&& next == (Stage::Commanding { output, after, wal_seq })
                &&& action matches Action::Log { event, fatal } && !fatal && is_command(
                    event,
                    req,
                    output,
                    cue,
                )
            } else {
                self.ends(output, after, wal_seq, next, action)
            },
            (Stage::Commanding { output, after, wal_seq }, Input::Logged(_)) => self.ends(
                output,
                after,
                wal_seq,
                next,
                action,
            ),
            (Stage::Joining { output, after, wal_seq }, Input::Joined) => self.succeeds(
                output,
                after,
                wal_seq,
                next,
                action,
            ),
            _ => false,
        }
    }

    /// An execution at its start.
    pub fn new(request: Request, before: Before) -> (r: Execution)
        ensures
            r == (Execution { request, before, stage: Stage::Admitting }),
            r.wf(),
    {
        Execution { request, before, stage: Stage::Admitting }
    }
}

fn run_action(req: &Request) -> (r: Action)
    ensures
        r matches Action::Run { args, context } && {
            &&& args@ == timed(req.args@, req.timeout_secs)
            &&& context.dry_run == req.dry_run
            &&& context.job_id@ == req.job_id@
            &&& context.working_dir@ == text::text_or(req.working_dir, "/"@)
        },
{
    Action::Run {
        args: inject_timeout(&req.args, req.timeout_secs),
        context: Context {
            dry_run: req.dry_run,
            job_id: req.job_id.clone(),
            working_dir: text::or_text(&req.working_dir, "/"),
        },
    }
}

fn push_file(out: &mut Vec<String>, args: &Value, key: &str)
    requires
        forall|i: int| 0 <= i < old(out)@.len() ==> file_name((#[trigger] old(out)@[i])@) is Some,
    ensures
        text::texts(final(out)@) == text::texts(old(out)@) + file_under(args@, key@),
        forall|i: int| 0 <= i < final(out)@.len() ==> file_name((#[trigger] final(out)@[i])@) is Some,
{
    let ghost before = out@;
    if let Some(s) = get_text(args, key) {
        if !s.is_empty() && file_name_of(s).is_some() {
            out.push(s.to_owned());
            assert(text::texts(out@) =~= text::texts(before) + seq![s@]);
            assert forall|i: int| 0 <= i < out@.len() implies file_name(
                (#[trigger] out@[i])@,
            ) is Some by {
                if i < before.len() {
                    assert(out@[i] == before[i]);
                }
            }
            return ;
        }
    }
    assert(text::texts(out@) =~= text::texts(before) + Seq::<Seq<char>>::empty());
}

fn find_originals(args: &Value) -> (r: Vec<String>)
    ensures
        text::texts(r@) == originals_of(args@),
        forall|i: int| 0 <= i < r@.len() ==> file_name((#[trigger] r@[i])@) is Some,
{
    let mut r: Vec<String> = Vec::new();
    push_file(&mut r, args, "path");
    push_file(&mut r, args, "repo_path");
    push_file(&mut r, args, "dir");
    assert(text::texts(r@) =~= originals_of(args@));
    r
}

fn candidates_for(original: &str, job_dir: &str) -> (r: Vec<String>)
    ensures
        text::texts(r@) == (match file_name(original@) {
            Some(n) => backup_places(job_dir@, n),
            None => Seq::empty(),
        }),
{
    match file_name_of(original) {
        Some(n) => backup_candidates(job_dir, n.as_str()),
        None => {
            let r: Vec<String> = Vec::new();
            assert(text::texts(r@) =~= Seq::<Seq<char>>::empty());
            r
        },
    }
}

fn find_places(originals: &Vec<String>, job_dir: &str) -> (r: Vec<Vec<String>>)
    ensures
        r@.map_values(|v: Vec<String>| text::texts(v@)) == places_of(
            text::texts(originals@),
            job_dir@,
        ),
{
    let ghost all = text::texts(originals@);
    let mut r: Vec<Vec<String>> = Vec::new();
    for i in 0..originals.len()
        invariant
            all == text::texts(originals@),
            r@.len() == i,
            forall|j: int|
                0 <= j < i ==> text::texts((#[trigger] r@[j])@) == places_of(all, job_dir@)[j],
    {
        r.push(candidates_for(originals[i].as_str(), job_dir));
    }
    assert(r@.map_values(|v: Vec<String>| text::texts(v@)) =~= places_of(all, job_dir@));
    r
}

fn find_backups(originals: &Vec<String>, job_dir: &str, present: &Vec<Vec<bool>>) -> (r: Vec<Found>)
    requires
        present@.len() == originals@.len(),
    ensures
        pairs(r@) == backups_of(
            text::texts(originals@),
            job_dir@,
            present@.map_values(|v: Vec<bool>| v@),
        ),
{
    let ghost all = text::texts(originals@);
    let ghost flags = present@.map_values(|v: Vec<bool>| v@);
    let mut r: Vec<Found> = Vec::new();
    assert(all.take(0) =~= Seq::<Seq<char>>::empty());
    assert(pairs(r@) =~= Seq::<(Seq<char>, Seq<char>)>::empty());
    for i in 0..originals.len()
        invariant
            all == text::texts(originals@),
            flags == present@.map_values(|v: Vec<bool>| v@),
            present@.len() == originals@.len(),
            pairs(r@) == backups_of(all.take(i as int), job_dir@, flags.take(i as int)),
    {
        let ghost before = r@;
        proof {
            assert(all.take(i + 1).drop_last() =~= all.take(i as int));
            assert(flags.take(i + 1).take(i as int) =~= flags.take(i as int));
            assert(places_of(all.take(i + 1), job_dir@)[i as int] == places_of(
                all,
                job_dir@,
            )[i as int]);
        }
        let places = candidates_for(originals[i].as_str(), job_dir);
        match find_backup_candidate(&places, &present[i]) {
            Some(p) => {
                r.push(Found { original: originals[i].clone(), backup: p });
                assert(pairs(r@) =~= pairs(before).push((all[i as int], p@)));
            },
            None => {},
        }
    }
    proof {
        assert(all.take(all.len() as int) =~= all);
        assert(flags.take(flags.len() as int) =~= flags);
    }
    r
}

fn reported(output: &Output) -> (r: Option<Found>)
    ensures
        match r {
            Some(f) => reported_backup(*output) == Some((f.original@, f.backup@)),
            None => reported_backup(*output) is None,
        },
{
    match &output.data {
        Some(d) => match (get_text(d, "path"), get_text(d, "backup_path")) {
            (Some(original), Some(backup)) => {
                if !backup.is_empty() {
                    Some(Found { original: original.to_owned(), backup: backup.to_owned() })
                } else {
                    None
                }
            },
            _ => None,
        },
        None => None,
    }
}

impl Execution {
    fn audit_step(
        self,
        error: String,
        after: After,
        found: Vec<Found>,
        done: usize,
        cue: Cue,
    ) -> (r: (Execution, Action))
        requires
            done <= found@.len(),
        ensures
            r.0.request == self.request,
            r.0.before == self.before,
            r.0.wf(),
            self.audits(error@, after, pairs(found@), done as int, cue, r.0.stage, r.1),
    {
        if done < found.len() {
            let event = backup_event(
                &self.request,
                found[done].original.as_str(),
                found[done].backup.as_str(),
                &after,
                cue,
            );
            (
                Execution {
                    request: self.request,
                    before: self.before,
                    stage: Stage::Auditing { error, after, found, next: done + 1 },
                },
                Action::Log { event, fatal: false },
            )
        } else {
            let event = log_job_failed_with_snapshots(
                &self.request,
                error.as_str(),
                &self.before.telemetry,
                &after.telemetry,
                &self.before.processes.summary,
                &after.processes.summary,
                None,
                None,
                cue,
            );
            (
                Execution {
                    request: self.request,
                    before: self.before,
                    stage: Stage::Failed { error, after, wal_seq: cue.seq },
                },
                Action::Log { event, fatal: true },
            )
        }
    }

    fn completion_step(self, output: Output, after: After, cue: Cue) -> (r: (Execution, Action))
        ensures
            r.0.request == self.request,
            r.0.before == self.before,
            r.0.wf(),
            self.completes(output, after, cue, r.0.stage, r.1),
    {
        let event = completed_event(&self.request, &output, &self.before, &after, cue);
        (
            Execution {
                request: self.request,
                before: self.before,
                stage: Stage::Completing { output, after, wal_seq: cue.seq },
            },
            Action::Log { event, fatal: true },
        )
    }

    fn success_step(self, output: Output, after: After, wal_seq: u64) -> (r: (Execution, Action))
        ensures
            r.0.request == self.request,
            r.0.before == self.before,
            r.0.wf(),
            self.succeeds(output, after, wal_seq, r.0.stage, r.1),
    {
        let result = success_result(&self.request, output, &self.before, &after, wal_seq);
        (
            Execution { request: self.request, before: self.before, stage: Stage::Done },
            Action::Finish(Ok(result)),
        )
    }

    fn end_step(self, output: Output, after: After, wal_seq: u64) -> (r: (Execution, Action))
        ensures
            r.0.request == self.request,
            r.0.before == self.before,
            r.0.wf(),
            self.ends(output, after, wal_seq, r.0.stage, r.1),
    {
        match &self.request.session {
            Some(s) => {
                let action = Action::Join {
                    session: s.clone(),
                    job_id: self.request.job_id.clone(),
                };
                (
                    Execution {
                        request: self.request,
                        before: self.before,
                        stage: Stage::Joining { output, after, wal_seq },
                    },
                    action,
                )
            },
            None => self.success_step(output, after, wal_seq),
        }
    }

    fn at(self, stage: Stage) -> (r: Execution)
        ensures
            r == (Execution { stage, ..self }),
    {
        Execution { request: self.request, before: self.before, stage }
    }

    /// Takes what the last action gave, and says what to do next.
    pub fn advance(self, input: Input, cue: Cue) -> (r: (Execution, Action))
        requires
            self.wf(),
            self.expects(input),
        ensures
            r.0.request == self.request,
            r.0.before == self.before,
            r.0.wf(),
            self.leads_to(input, cue, r.0.stage, r.1),
    {
        let rest = Execution { request: self.request, before: self.before, stage: Stage::Done };
        match (self.stage, input) {
            (Stage::Admitting, Input::Guard(guard)) => {
                match admission_refusal(
                    guard,
                    rest.before.processes.summary.zombie_count,
                    &rest.request.args,
                ) {
                    Some(m) => {
                        let event = log_job_failed_with_snapshots(
                            &rest.request,
                            m.as_str(),
                            &rest.before.telemetry,
                            &rest.before.telemetry,
                            &rest.before.processes.summary,
                            &rest.before.processes.summary,
                            None,
                            None,
                            cue,
                        );
                        (rest.at(Stage::Refusing(m)), Action::Log { event, fatal: false })
                    },
                    None => {
                        let event = started_event(&rest.request, &rest.before, cue);
                        (rest.at(Stage::Starting), Action::Log { event, fatal: true })
                    },
                }
            },
            (Stage::Refusing(m), Input::Logged(_)) => (
                rest,
                Action::Finish(Err(Error::ResourceLimitExceeded(m))),
            ),
            (Stage::Starting, Input::Logged(Err(e))) => (rest, Action::Finish(Err(e))),
            (Stage::Starting, Input::Logged(Ok(()))) => {
                if !text::same(rest.request.capability.as_str(), "ShellExec")
                    && has_natural_content(&rest.request.args) {
                    let observation = sift_observation(
                        rest.request.description.as_str(),
                        &rest.request.args,
                    );
                    (rest.at(Stage::Screening), Action::Screen(observation))
                } else {
                    let action = run_action(&rest.request);
                    (rest.at(Stage::Running), action)
                }
            },
            (Stage::Screening, Input::Screened(Err(e))) => {
                let mut m = "Cognitive safety check failed: ".to_owned();
                m.append(e.as_str());
                (rest, Action::Finish(Err(Error::ExecutionFailed(m))))
            },
            (Stage::Screening, Input::Screened(Ok(p))) => {
                if p.decision.can_proceed() {
                    let action = run_action(&rest.request);
                    (rest.at(Stage::Running), action)
                } else {
                    let mut message = "Cognitive safety violation: decision ".to_owned();
                    message.append(p.decision.show().as_str());
                    (
                        rest.at(
                            Stage::Vetoing {
                                message,
                                oov_ratio: p.oov_ratio,
                                detection_flags: p.detection_flags,
                            },
                        ),
                        Action::Snap,
                    )
                }
            },
            (Stage::Vetoing { message, oov_ratio, detection_flags }, Input::Snapped(after)) => {
                let event = log_job_failed_with_snapshots(
                    &rest.request,
                    message.as_str(),
                    &rest.before.telemetry,
                    &after.telemetry,
                    &rest.before.processes.summary,
                    &after.processes.summary,
                    Some(oov_ratio),
                    Some(detection_flags),
                    cue,
                );
                (rest.at(Stage::Vetoed(message)), Action::Log { event, fatal: true })
            },
            (Stage::Vetoed(_), Input::Logged(Err(e))) => (rest, Action::Finish(Err(e))),
            (Stage::Vetoed(message), Input::Logged(Ok(()))) => (
                rest,
                Action::Finish(Err(Error::CognitiveSafetyViolation(message))),
            ),
            (Stage::Running, Input::Ran { outcome: Err(e), .. }) => {
                let mut m = "Execution failed: ".to_owned();
                m.append(e.as_str());
                (rest.at(Stage::Failing(m)), Action::Snap)
            },
            (Stage::Running, Input::Ran { outcome: Ok(output), slow }) => (
                rest.at(Stage::Succeeding(flag_timeout(output, slow))),
                Action::Snap,
            ),
            (Stage::Failing(error), Input::Snapped(after)) => {
                let originals = find_originals(&rest.request.args);
                let dir = utils::join(
                    rest.request.backup_dir.as_str(),
                    rest.request.job_id.as_str(),
                );
                let places = find_places(&originals, dir.as_str());
                (rest.at(Stage::Probing { error, after, originals }), Action::Probe(places))
            },
            (Stage::Probing { error, after, originals }, Input::Probed(present)) => {
                let dir = utils::join(
                    rest.request.backup_dir.as_str(),
                    rest.request.job_id.as_str(),
                );
                let found = find_backups(&originals, dir.as_str(), &present);
                rest.audit_step(error, after, found, 0, cue)
            },
            (
                Stage::Auditing { error, after, found, next },
                Input::Logged(_),
            ) => rest.audit_step(error, after, found, next, cue),
            (Stage::Failed { .. }, Input::Logged(Err(e))) => (rest, Action::Finish(Err(e))),
            (Stage::Failed { error, after, wal_seq }, Input::Logged(Ok(()))) => {
                let result = fail_result(
                    &rest.request,
                    error.as_str(),
                    &rest.before,
                    &after,
                    wal_seq,
                );
                (rest, Action::Finish(Ok(result)))
            },
            (Stage::Succeeding(output), Input::Snapped(after)) => {
                match reported(&output) {
                    Some(f) => {
                        let event = backup_event(
                            &rest.request,
                            f.original.as_str(),
                            f.backup.as_str(),
                            &after,
                            cue,
                        );
                        (
                            rest.at(Stage::Saving { output, after }),
                            Action::Log { event, fatal: true },
                        )
                    },
                    None => rest.completion_step(output, after, cue),
                }
            },
            (Stage::Saving { .. }, Input::Logged(Err(e))) => (rest, Action::Finish(Err(e))),
            (Stage::Saving { output, after }, Input::Logged(Ok(()))) => rest.completion_step(
                output,
                after,
                cue,
            ),
            (Stage::Completing { .. }, Input::Logged(Err(e))) => (rest, Action::Finish(Err(e))),
            (Stage::Completing { output, after, wal_seq }, Input::Logged(Ok(()))) => {
                if rest.request.log_commands && text::same(
                    rest.request.capability.as_str(),
                    "ShellExec",
                ) {
                    let event = command_event(&rest.request, &output, cue);
                    (
                        rest.at(Stage::Commanding { output, after, wal_seq }),
                        Action::Log { event, fatal: false },
                    )
                } else {
                    rest.end_step(output, after, wal_seq)
                }
            },
            (Stage::Commanding { output, after, wal_seq }, Input::Logged(_)) => rest.end_step(
                output,
                after,
                wal_seq,
            ),
            (Stage::Joining { output, after, wal_seq }, Input::Joined) => rest.success_step(
                output,
                after,
                wal_seq,
            ),
            _ => (rest, Action::Snap),
        }
    }
}

// ---------------------------------------------------------------------------
// What holds of the log
// ---------------------------------------------------------------------------

/// The kinds of the events that an action logs.
pub open spec fn logs(action: Action) -> Seq<WalEventType> {
    match action {
        Action::Log { event, .. } => seq![event.event_type],
        _ => Seq::empty(),
    }
}

/// An event that ends a job.
pub open spec fn terminal(kind: WalEventType) -> bool {
    kind == WalEventType::JobFailed || kind == WalEventType::JobCompleted
}

/// So many backups.
pub open spec fn backups(n: nat) -> Seq<WalEventType> {
    Seq::new(n, |i: int| WalEventType::BackupCreated)
}

/// A log in order: it starts a job once and first, ends it once, has every backup before the end,
/// and nothing after it but the shell command.
pub open spec fn orderly(h: Seq<WalEventType>) -> bool {
    &&& forall|i: int| 0 < i < h.len() ==> #[trigger] h[i] != WalEventType::JobStarted
    &&& forall|i: int, j: int|
        0 <= i < j < h.len() && terminal(#[trigger] h[i]) ==> #[trigger] h[j]
            == WalEventType::CommandExecuted
    &&& forall|i: int|
        0 <= i < h.len() && #[trigger] h[i] != WalEventType::JobFailed ==> h[0]
            == WalEventType::JobStarted
}

/// What the log of a job may hold when its execution has come to a stage.
pub open spec fn so_far(stage: Stage, h: Seq<WalEventType>) -> bool {
    let started = seq![WalEventType::JobStarted];
    match stage {
        Stage::Admitting => h == Seq::<WalEventType>::empty(),
        Stage::Refusing(_) => h == seq![WalEventType::JobFailed],
        Stage::Starting
        | Stage::Screening
        | Stage::Vetoing { .. }
        | Stage::Running
        | Stage::Failing(_)
        | Stage::Probing { .. }
        | Stage::Succeeding(_) => h == started,
        Stage::Vetoed(_) => h == started.push(WalEventType::JobFailed),
        Stage::Auditing { next, .. } => h == started + backups(next as nat),
        Stage::Failed { .. } => h.len() > 0 && h == (started + backups((h.len() - 2) as nat)).push(
            WalEventType::JobFailed,
        ),
        Stage::Saving { .. } => h == started.push(WalEventType::BackupCreated),
        Stage::Completing { .. } => h == started.push(WalEventType::JobCompleted) || h
            == started.push(WalEventType::BackupCreated).push(WalEventType::JobCompleted),
        Stage::Commanding { .. } => {
            ||| h == started.push(WalEventType::JobCompleted).push(WalEventType::CommandExecuted)
            ||| h == started.push(WalEventType::BackupCreated).push(
                WalEventType::JobCompleted,
            ).push(WalEventType::CommandExecuted)
        },
        Stage::Joining { .. } => {
            ||| so_far_completed(h)
            ||| h.len() > 0 && h.last() == WalEventType::CommandExecuted && so_far_completed(
                h.drop_last(),
            )
        },
        Stage::Done => orderly(h),
    }
}

/// A log that ends with a success, with a backup before it or without.
pub open spec fn so_far_completed(h: Seq<WalEventType>) -> bool {
    let started = seq![WalEventType::JobStarted];
    h == started.push(WalEventType::JobCompleted) || h == started.push(
        WalEventType::BackupCreated,
    ).push(WalEventType::JobCompleted)
}

proof fn lemma_so_far_orderly(stage: Stage, h: Seq<WalEventType>)
    requires
        so_far(stage, h),
    ensures
        orderly(h),
{
    match stage {
        Stage::Failed { .. } => {
            assert(h.len() >= 2) by {
                if h.len() == 1 {
                    assert((seq![WalEventType::JobStarted] + backups(
                        (h.len() - 2) as nat,
                    )).len() >= 1);
                }
            }
        },
        Stage::Joining { .. } => {
            if !so_far_completed(h) {
                assert(h =~= h.drop_last().push(WalEventType::CommandExecuted));
            }
        },
        _ => {},
    }
}

/// Whatever the inputs are, the log of a job stays in order from step to step: in particular every
/// backup is logged before the event that ends the job, and nothing ends twice.
pub proof fn law_log_stays_in_order(
    e: Execution,
    input: Input,
    cue: Cue,
    next: Stage,
    action: Action,
    h: Seq<WalEventType>,
)
    requires
        so_far(e.stage, h),
        e.leads_to(input, cue, next, action),
    ensures
        so_far(next, h + logs(action)),
        orderly(h + logs(action)),
{
    lemma_so_far_orderly(e.stage, h);
    let started = seq![WalEventType::JobStarted];
    let after = h + logs(action);
    match e.stage {
        Stage::Admitting => {
            assert(after =~= logs(action));
            assert(input is Guard);
            assert(action is Log);
            if next is Starting {
                assert(after =~= started);
            } else {
                assert(after =~= seq![WalEventType::JobFailed]);
            }
        },
        Stage::Vetoing { .. } => {
            assert(after =~= started.push(WalEventType::JobFailed));
        },
        Stage::Probing { error, after: a, originals } => {
            if next is Failed {
                assert(after =~= (started + backups(0)).push(WalEventType::JobFailed));
            } else {
                assert(after =~= started + backups(1));
            }
        },
        Stage::Auditing { error, after: a, found, next: done } => {
            if next is Failed {
                assert(after =~= (started + backups(done as nat)).push(WalEventType::JobFailed));
            } else {
                assert(after =~= started + backups((done + 1) as nat));
            }
        },
        Stage::Succeeding(_) => {
            if next is Saving {
                assert(after =~= started.push(WalEventType::BackupCreated));
            } else {
                assert(after =~= started.push(WalEventType::JobCompleted));
            }
        },
        Stage::Saving { .. } => {
            if next is Completing {
                assert(after =~= started.push(WalEventType::BackupCreated).push(
                    WalEventType::JobCompleted,
                ));
            } else {
                assert(after =~= h);
            }
        },
        Stage::Completing { .. } => {
            if next is Commanding {
                assert(after =~= h.push(WalEventType::CommandExecuted));
            } else {
                assert(after =~= h);
            }
        },
        Stage::Commanding { .. } => {
            assert(after =~= h);
            if h.drop_last() != started.push(WalEventType::JobCompleted) {
                assert(h.drop_last() =~= started.push(WalEventType::BackupCreated).push(
                    WalEventType::JobCompleted,
                ) || h.drop_last() =~= started.push(WalEventType::JobCompleted));
            }
        },
        _ => {
            assert(after =~= h);
        },
    }
    lemma_so_far_orderly(next, after);
}

/// An execution that ends with a result has an event in its log that ends the job: the one of a
/// success where the result is one.
pub proof fn law_results_are_logged(
    e: Execution,
    input: Input,
    cue: Cue,
    next: Stage,
    r: ExecutionResult,
    h: Seq<WalEventType>,
)
    requires
        so_far(e.stage, h),
        e.leads_to(input, cue, next, Action::Finish(Ok(r))),
    ensures
        exists|i: int| 0 <= i < h.len() && terminal(#[trigger] h[i]),
        r.success ==> exists|i: int| 0 <= i < h.len() && #[trigger] h[i]
            == WalEventType::JobCompleted,
{
    match e.stage {
        Stage::Failed { .. } => {
            assert(h.last() == WalEventType::JobFailed);
        },
        Stage::Completing { .. } => {
            assert(h.last() == WalEventType::JobCompleted);
        },
        Stage::Commanding { .. } => {
            assert(h[h.len() - 2] == WalEventType::JobCompleted);
        },
        Stage::Joining { .. } => {
            if so_far_completed(h) {
                assert(h.last() == WalEventType::JobCompleted);
            } else {
                assert(h.drop_last().last() == WalEventType::JobCompleted);
                assert(h[h.len() - 2] == WalEventType::JobCompleted);
            }
        },
        _ => {},
    }
}

/// A request that the guard, the zombies or the size of its arguments turn away, and one whose text
/// is refused, is logged as failed before it is answered; and none of them is executed.
pub proof fn law_refusals_are_logged(e: Execution, h: Seq<WalEventType>)
    requires
        so_far(e.stage, h),
        e.stage is Refusing || e.stage is Vetoed,
    ensures
        h.last() == WalEventType::JobFailed,
        forall|input: Input, cue: Cue, next: Stage, action: Action| #[trigger]
            e.leads_to(input, cue, next, action) ==> action is Finish && (action->Finish_0) is Err,
{
}

/// A capability is executed only after its start is logged, and a text that somebody wrote only after
/// it was looked at and not refused; shell commands are not looked at.
pub proof fn law_run_only_when_cleared(
    e: Execution,
    input: Input,
    cue: Cue,
    next: Stage,
    action: Action,
    h: Seq<WalEventType>,
)
    requires
        so_far(e.stage, h),
        e.leads_to(input, cue, next, action),
        action is Run,
    ensures
        h == seq![WalEventType::JobStarted],
        looked_at(e.request) ==> (input matches Input::Screened(Ok(p)) && p.decision.rank() <= 1),
{
}

// ---------------------------------------------------------------------------
// What every execution does
// ---------------------------------------------------------------------------

/// A text stands under a key of the arguments.
pub open spec fn holds_text(args: Json, key: Seq<char>) -> bool {
    json::member(args, key) matches Some(v) && v is Text
}

/// A request that is not a shell command is looked at as soon as its start is logged where a text
/// stands under any one of `cmd`, `content`, `url` and `message`. One with none of them, and every
/// shell command, is executed at once.
pub proof fn law_written_text_is_screened(
    e: Execution,
    cue: Cue,
    next: Stage,
    action: Action,
)
    requires
        e.stage is Starting,
        e.leads_to(Input::Logged(Ok(())), cue, next, action),
    ensures
        e.request.capability@ != "ShellExec"@ && (holds_text(e.request.args@, "cmd"@) || holds_text(
            e.request.args@,
            "content"@,
        ) || holds_text(e.request.args@, "url"@) || holds_text(e.request.args@, "message"@)) ==> {
            action is Screen && next is Screening
        },
        e.request.capability@ == "ShellExec"@ || !(holds_text(e.request.args@, "cmd"@)
            || holds_text(e.request.args@, "content"@) || holds_text(e.request.args@, "url"@)
            || holds_text(e.request.args@, "message"@)) ==> action is Run && next is Running,
{
}

/// Exactly a text under `cmd`, `content`, `url` or `message` is text that somebody wrote.
pub proof fn law_natural_keys(args: Json)
    ensures
        natural(args) <==> (json::member(args, "cmd"@) matches Some(Json::Text(_))) || (
        json::member(args, "content"@) matches Some(Json::Text(_))) || (json::member(
            args,
            "url"@,
        ) matches Some(Json::Text(_))) || (json::member(args, "message"@) matches Some(
            Json::Text(_),
        )),
{
}

/// The text that is looked at is the command, else the content, else the URL, else the message. Up
/// to 8192 bytes it stands as it is; of a longer one, but for a URL, the longest beginning that fits
/// comes first, and what follows says how much is left out.
pub proof fn law_screened_text(
    e: Execution,
    cue: Cue,
    next: Stage,
    action: Action,
    key: Seq<char>,
    s: Seq<char>,
)
    requires
        e.stage is Starting,
        e.leads_to(Input::Logged(Ok(())), cue, next, action),
        action is Screen,
        json::member(e.request.args@, key) == Some(Json::Text(s)),
        key == "cmd"@ || (key == "content"@ && !holds_text(e.request.args@, "cmd"@)) || (key
            == "url"@ && !holds_text(e.request.args@, "cmd"@) && !holds_text(
            e.request.args@,
            "content"@,
        )) || (key == "message"@ && !holds_text(e.request.args@, "cmd"@) && !holds_text(
            e.request.args@,
            "content"@,
        ) && !holds_text(e.request.args@, "url"@)),
    ensures
        text::byte_length(s) <= 8192 || key == "url"@ && !holds_text(e.request.args@, "cmd"@)
            && !holds_text(e.request.args@, "content"@) ==> action->Screen_0@ == s,
        text::byte_length(s) > 8192 && (key == "cmd"@ || key == "content"@ || (key == "message"@
            && !holds_text(e.request.args@, "url"@))) ==> {
            let k = text::within(s, 8192).len() as int;
            &&& k <= s.len() && action->Screen_0@.len() > k
            &&& action->Screen_0@.take(k) == s.take(k)
            &&& text::byte_length(s.take(k)) <= 8192
            &&& k < s.len() ==> text::byte_length(s.take(k + 1)) > 8192
            &&& action->Screen_0@.skip(k) == "... [truncated "@ + text::decimal(
                (text::byte_length(s) - text::byte_length(s.take(k))) as nat,
            ) + " bytes]"@
        },
{
    lemma_key_names();
    assert(text_under(e.request.args@, key) == Some(s));
    if text::byte_length(s) > 8192 {
        let part = text::within(s, 8192);
        let k = part.len() as int;
        text::law_cut_to_fit(s, 8192, k + 1);
        let shown = sifted_part(s);
        let tail = "... [truncated "@ + text::decimal(
            (text::byte_length(s) - text::byte_length(part)) as nat,
        ) + " bytes]"@;
        reveal_strlit("... [truncated ");
        assert(shown =~= part + tail);
        assert(shown.take(k) =~= part);
        assert(shown.skip(k) =~= tail);
    }
}

proof fn lemma_key_names()
    ensures
        "cmd"@ != "content"@,
        "cmd"@ != "url"@,
        "cmd"@ != "message"@,
        "content"@ != "url"@,
        "content"@ != "message"@,
        "url"@ != "message"@,
{
    reveal_strlit("cmd");
    reveal_strlit("content");
    reveal_strlit("url");
    reveal_strlit("message");
    assert("cmd"@[1] == 'm' && "content"@[1] == 'o' && "url"@[1] == 'r' && "message"@[1] == 'e');
}

/// What the log says of a failure that ends a job.
pub open spec fn tells_failure(action: Action, e: Execution, words: Seq<char>) -> bool {
    action matches Action::Log { event, .. } && event.event_type == WalEventType::JobFailed
        && event.job_id@ == e.request.job_id@ && event.error is Some && event.error->0@ == words
}

/// A request is turned away exactly where the guard refuses it, more than ten zombies run, or its
/// arguments take more than a megabyte as text: then a failure with the reason is logged, and the
/// answer is that a limit was exceeded. Any other request has its start logged.
pub proof fn law_admission(
    e: Execution,
    guard: Result<(), String>,
    cue: Cue,
    next: Stage,
    action: Action,
)
    requires
        e.stage is Admitting,
        e.leads_to(Input::Guard(guard), cue, next, action),
    ensures
        guard matches Err(m) ==> tells_failure(action, e, m@) && (next matches
            Stage::Refusing(t) && t@ == m@),
        guard is Ok && e.before.processes.summary.zombie_count > 10 ==> next is Refusing
            && tells_failure(
            action,
            e,
            "Zombie processes: "@ + text::decimal(e.before.processes.summary.zombie_count as nat)
                + " (limit: 10)"@,
        ),
        guard is Ok && e.before.processes.summary.zombie_count <= 10 && text::byte_length(
            json::compact(e.request.args@),
        ) > 1_048_576 ==> next is Refusing && tells_failure(
            action,
            e,
            "Capability args too large: "@ + text::decimal(
                text::byte_length(json::compact(e.request.args@)),
            ) + " bytes (limit: 1MB)"@,
        ),
        guard is Ok && e.before.processes.summary.zombie_count <= 10 && text::byte_length(
            json::compact(e.request.args@),
        ) <= 1_048_576 ==> next is Starting && (action matches Action::Log { event, .. }
            && event.event_type == WalEventType::JobStarted),
{
}

/// A refusal is answered by its reason: one by a limit as such, one of a text as a violation, and
/// neither is executed.
pub proof fn law_refusals_are_answered(
    e: Execution,
    input: Input,
    cue: Cue,
    next: Stage,
    action: Action,
)
    requires
        e.leads_to(input, cue, next, action),
    ensures
        e.stage matches Stage::Refusing(m) ==> next is Done && action == Action::Finish(
            Err(Error::ResourceLimitExceeded(m)),
        ),
        e.stage matches Stage::Vetoed(m) ==> input == Input::Logged(Ok(())) ==> next is Done && action
            == Action::Finish(Err(Error::CognitiveSafetyViolation(m))),
{
}

/// A text that is found safe, or only worth a warning, has the capability executed. One that is to be
/// escalated, or that is to have the work halted or left, has it never executed: the failure is
/// logged and names the decision.
pub proof fn law_verdict_decides(
    e: Execution,
    p: PipelineResult,
    cue: Cue,
    next: Stage,
    action: Action,
)
    requires
        e.stage is Screening,
        e.leads_to(Input::Screened(Ok(p)), cue, next, action),
    ensures
        p.decision is Proceed || p.decision is Warn ==> action is Run && next is Running,
        p.decision is Escalate || p.decision is Halt || p.decision is Exit ==> action is Snap && (
        next matches Stage::Vetoing { message, oov_ratio, detection_flags } && message@
            == "Cognitive safety violation: decision "@ + p.decision.shown() && oov_ratio
            == p.oov_ratio && detection_flags == p.detection_flags),
{
}

/// Where a text is refused, the machine is looked at once more, the failure is logged with what was
/// found in the text, and the request is answered with an error.
pub proof fn law_veto_is_logged(
    e: Execution,
    after: After,
    cue: Cue,
    next: Stage,
    action: Action,
)
    requires
        e.stage is Vetoing,
        e.leads_to(Input::Snapped(after), cue, next, action),
    ensures
        next matches Stage::Vetoed(m) && m == e.stage->Vetoing_message && tells_failure(
            action,
            e,
            m@,
        ),
        action matches Action::Log { event, fatal } && fatal && event.oov_ratio == Some(
            e.stage->Vetoing_oov_ratio,
        ) && event.detection_flags == Some(e.stage->Vetoing_detection_flags),
{
}

/// Where the text cannot be looked at, nothing is executed, and the answer says why.
pub proof fn law_unscreened_is_not_run(
    e: Execution,
    why: String,
    cue: Cue,
    next: Stage,
    action: Action,
)
    requires
        e.stage is Screening,
        e.leads_to(Input::Screened(Err(why)), cue, next, action),
    ensures
        next is Done,
        action matches Action::Finish(Err(Error::ExecutionFailed(m))) && m@
            == "Cognitive safety check failed: "@ + why@,
{
}

/// A capability gets its arguments as they were handed over, but that a timeout is put in where none
/// is named, and the job and the directory of the request, `/` where it names none.
pub proof fn law_run_gets_the_request(
    e: Execution,
    input: Input,
    cue: Cue,
    next: Stage,
    action: Action,
    m: Seq<(Seq<char>, Json)>,
    key: Seq<char>,
)
    requires
        e.leads_to(input, cue, next, action),
        action is Run,
    ensures
        e.request.args@ == Json::Object(m) ==> json::member(action->args@, key) == (if key
            == "timeout_secs"@ && json::member(e.request.args@, key) is None {
            Some(Json::Number(Num::PosInt(e.request.timeout_secs)))
        } else {
            json::member(e.request.args@, key)
        }),
        !(e.request.args@ is Object) ==> action->args@ == e.request.args@,
        action->context.job_id@ == e.request.job_id@,
        action->context.dry_run == e.request.dry_run,
        action->context.working_dir@ == (match e.request.working_dir {
            Some(d) => d@,
            None => "/"@,
        }),
{
    json::lemma_lookup_inserted(
        m,
        "timeout_secs"@,
        Json::Number(Num::PosInt(e.request.timeout_secs)),
        key,
    );
}

/// Nothing of what a capability gave is lost: an output in time stands as it is; one that came too
/// late keeps its status, text and error, all that its data hold under other keys, or its data as a
/// value where they are no object, and says that it came too late.
pub proof fn law_output_is_kept(
    e: Execution,
    output: Output,
    slow: bool,
    cue: Cue,
    next: Stage,
    action: Action,
    m: Seq<(Seq<char>, Json)>,
    key: Seq<char>,
)
    requires
        e.stage is Running,
        e.leads_to(Input::Ran { outcome: Ok(output), slow }, cue, next, action),
    ensures
        action is Snap,
        !slow ==> next == Stage::Succeeding(output),
        slow ==> next is Succeeding && {
            let o = next->Succeeding_0;
            &&& o.status == output.status && o.output == output.output && o.error == output.error
            &&& o.data is Some
            &&& json::member(o.data->0@, "timed_out"@) == Some(Json::Bool(true))
            &&& json::option_view(output.data) == Some(Json::Object(m)) && key != "timed_out"@
                ==> json::member(o.data->0@, key) == json::member(Json::Object(m), key)
            &&& output.data is Some && !(output.data->0@ is Object) ==> json::member(
                o.data->0@,
                "value"@,
            ) == Some(output.data->0@)
        },
{
    if slow {
        law_late_output_says_so(json::option_view(output.data));
        json::lemma_lookup_inserted(m, "timed_out"@, Json::Bool(true), key);
        reveal_strlit("value");
        reveal_strlit("timed_out");
        assert("value"@.len() != "timed_out"@.len());
        if let Some(v) = output.data {
            let one = json::inserted(Seq::empty(), "value"@, v@);
            json::lemma_lookup_inserted(one, "timed_out"@, Json::Bool(true), "value"@);
            json::lemma_lookup_inserted(Seq::empty(), "value"@, v@, "value"@);
        }
    }
}

/// A capability that fails is logged as failed, with its words.
pub proof fn law_failures_keep_their_words(
    e: Execution,
    why: String,
    slow: bool,
    cue: Cue,
    next: Stage,
    action: Action,
)
    requires
        e.stage is Running,
        e.leads_to(Input::Ran { outcome: Err(why), slow }, cue, next, action),
    ensures
        action is Snap,
        next matches Stage::Failing(m) && m@ == "Execution failed: "@ + why@,
{
}

/// The machine as it was before and as it is after stand in the event that ends a job.
pub open spec fn frames_job(event: WalEvent, e: Execution, after: After) -> bool {
    &&& event.job_id@ == e.request.job_id@
    &&& event.capability is Some && event.capability->0@ == e.request.capability@
    &&& event.process_before == Some(e.before.processes.summary)
    &&& event.process_after == Some(after.processes.summary)
    &&& e.request.telemetry_on ==> event.telemetry_before is Some && event.telemetry_after is Some
        && event.telemetry_before->0.same(e.before.telemetry) && event.telemetry_after->0.same(
        after.telemetry,
    )
    &&& !e.request.telemetry_on ==> event.telemetry_before is None && event.telemetry_after is None
}

/// Every event that is logged bears the next number, the job and, but for a shell command, the
/// capability of the request.
pub proof fn law_events_bear_the_job(
    e: Execution,
    input: Input,
    cue: Cue,
    next: Stage,
    action: Action,
)
    requires
        e.leads_to(input, cue, next, action),
        action is Log,
    ensures
        action->event.seq == cue.seq,
        action->event.job_id@ == e.request.job_id@,
        action->event.event_type != WalEventType::CommandExecuted ==> action->event.capability
            is Some && action->event.capability->0@ == e.request.capability@,
        action->event.event_type == WalEventType::JobStarted
            || action->event.event_type == WalEventType::JobFailed
            || action->event.event_type == WalEventType::BackupCreated
            || action->event.event_type == WalEventType::JobCompleted
            || action->event.event_type == WalEventType::CommandExecuted,
        action->event.event_type == WalEventType::JobStarted ==> action->event.process_before
            == Some(e.before.processes.summary) && action->event.process_after is None
            && action->event.error is None && action->event.output is None,
{
}

/// Once a capability has succeeded, the backup that it tells of is logged first, with the file and
/// the place that it names; then the completion, with its output and the machine before and after.
pub proof fn law_success_is_logged(
    e: Execution,
    after: After,
    cue: Cue,
    next: Stage,
    action: Action,
)
    requires
        e.stage is Succeeding,
        e.leads_to(Input::Snapped(after), cue, next, action),
    ensures
        action is Log,
        ({
            let o = e.stage->Succeeding_0;
            let told = o.data is Some && holds_text(o.data->0@, "path"@) && holds_text(
                o.data->0@,
                "backup_path"@,
            ) && (json::member(o.data->0@, "backup_path"@)->0)->Text_0.len() > 0;
            &&& told ==> next is Saving && action->event.event_type == WalEventType::BackupCreated
                && action->event.backup_path is Some && Some(
                Json::Text(action->event.backup_path->0@),
            ) == json::member(o.data->0@, "backup_path"@)
            &&& !told ==> next is Completing && action->event.event_type
                == WalEventType::JobCompleted && json::option_view(action->event.output) == Some(
                o.json(),
            ) && frames_job(action->event, e, after)
        }),
{
}

/// After the backup the completion is logged, with the output and the machine before and after.
pub proof fn law_completion_follows_backup(e: Execution, cue: Cue, next: Stage, action: Action)
    requires
        e.stage is Saving,
        e.leads_to(Input::Logged(Ok(())), cue, next, action),
    ensures
        next is Completing,
        action matches Action::Log { event, .. } && event.event_type == WalEventType::JobCompleted
            && json::option_view(event.output) == Some(e.stage->Saving_output.json()) && frames_job(
            event,
            e,
            e.stage->Saving_after,
        ),
{
}

/// A job that is complete joins its session where it has one, and then the answer is its output: a
/// success exactly where the status is `ok`, with the machine before and after.
pub proof fn law_answer_is_the_output(
    e: Execution,
    input: Input,
    cue: Cue,
    next: Stage,
    action: Action,
    output: Output,
    after: After,
    wal_seq: u64,
)
    requires
        e.leads_to(input, cue, next, action),
        e.stage == (Stage::Completing { output, after, wal_seq }) && input == Input::Logged(Ok(()))
            && !(e.request.log_commands && e.request.capability@ == "ShellExec"@) || e.stage == (
        Stage::Commanding { output, after, wal_seq }) || e.stage == (Stage::Joining {
            output,
            after,
            wal_seq,
        }),
    ensures
        e.request.session is Some && !(e.stage is Joining) ==> (action matches Action::Join {
            session,
            job_id,
        } && session@ == e.request.session->0@ && job_id@ == e.request.job_id@),
        e.request.session is None || e.stage is Joining ==> next is Done && (action matches
            Action::Finish(Ok(r)) && r.output == output && (r.success <==> output.status@ == "ok"@)
            && r.job_id@ == e.request.job_id@ && r.capability@ == e.request.capability@ && r.wal_seq
            == wal_seq && r.process_before == e.before.processes.summary && r.process_after
            == after.processes.summary && r.telemetry_before.same(e.before.telemetry)
            && r.telemetry_after.same(after.telemetry)),
{
}

/// A shell command that is complete is logged once more on its own where that is wanted, with the
/// first 1024 bytes of what it wrote. No other capability is.
pub proof fn law_commands_are_logged(e: Execution, cue: Cue, next: Stage, action: Action)
    requires
        e.stage is Completing,
        e.leads_to(Input::Logged(Ok(())), cue, next, action),
    ensures
        action is Log <==> e.request.log_commands && e.request.capability@ == "ShellExec"@,
        action is Log ==> {
            let event = action->event;
            let data = json::option_view(e.stage->Completing_output.data);
            &&& event.event_type == WalEventType::CommandExecuted
            &&& data matches Some(d) ==> {
                &&& json::member(d, "cmd"@) matches Some(Json::Text(s)) ==> event.cmd is Some
                    && event.cmd->0@ == s
                &&& json::member(d, "stdout"@) matches Some(Json::Text(s)) ==> event.cmd_stdout
                    is Some && event.cmd_stdout->0@ == text::within(s, 1024)
                &&& json::member(d, "stderr"@) matches Some(Json::Text(s)) ==> event.cmd_stderr
                    is Some && event.cmd_stderr->0@ == text::within(s, 1024)
                &&& json::member(d, "exit_code"@) matches Some(Json::Number(Num::PosInt(n))) ==> n
                    <= i32::MAX ==> event.cmd_exit_code == Some(n as i32)
                &&& json::member(d, "exit_code"@) matches Some(Json::Number(Num::NegInt(n))) ==> n
                    >= i32::MIN && n <= i32::MAX ==> event.cmd_exit_code == Some(n as i32)
            }
            &&& data is None ==> event.cmd_exit_code == Some(-1i32)
        },
{
}

/// A failed job is answered with a result that is no success and holds the words of the failure.
pub proof fn law_failure_is_answered(e: Execution, cue: Cue, next: Stage, action: Action)
    requires
        e.stage is Failed,
        e.leads_to(Input::Logged(Ok(())), cue, next, action),
    ensures
        next is Done,
        action matches Action::Finish(Ok(r)) && !r.success && r.output.output@
            == e.stage->Failed_error@ && r.output.error is Some && r.output.error->0@
            == e.stage->Failed_error@ && r.job_id@ == e.request.job_id@ && r.wal_seq
            == e.stage->Failed_wal_seq && r.process_before == e.before.processes.summary
            && r.process_after == e.stage->Failed_after.processes.summary,
{
}

/// A log that cannot be written ends the execution with that error, wherever the event counts.
pub proof fn law_log_errors_are_handed_on(
    e: Execution,
    error: Error,
    cue: Cue,
    next: Stage,
    action: Action,
)
    requires
        e.leads_to(Input::Logged(Err(error)), cue, next, action),
        e.stage is Starting || e.stage is Vetoed || e.stage is Failed || e.stage is Saving
            || e.stage is Completing,
    ensures
        next is Done,
        action == Action::Finish(Err(error)),
{
}

/// A process was spawned in between exactly where it is listed after and not before, and
/// the spawned ones come in the order of the listing.
pub proof fn law_spawned(before: Seq<ProcessInfo>, after: Seq<ProcessInfo>, pid: u32)
    ensures
        spawned(before, after).contains(pid) <==> (exists|i: int|
            0 <= i < after.len() && (#[trigger] after[i]).pid == pid) && !(exists|i: int|
            0 <= i < before.len() && (#[trigger] before[i]).pid == pid),
        forall|p: ProcessInfo| #[trigger]
            spawned(before, after.push(p)) == spawned(before, after) + (if exists|i: int|
                0 <= i < before.len() && (#[trigger] before[i]).pid == p.pid {
                Seq::<u32>::empty()
            } else {
                seq![p.pid]
            }),
    decreases after.len(),
{
    assert forall|p: ProcessInfo| #[trigger]
        spawned(before, after.push(p)) == spawned(before, after) + (if exists|i: int|
            0 <= i < before.len() && (#[trigger] before[i]).pid == p.pid {
            Seq::<u32>::empty()
        } else {
            seq![p.pid]
        }) by {
        assert(after.push(p).drop_last() =~= after);
        if lists(before, p.pid) {
            assert(spawned(before, after) + Seq::<u32>::empty() =~= spawned(before, after));
        } else {
            assert(spawned(before, after) + seq![p.pid] =~= spawned(before, after).push(p.pid));
        }
    }
    if after.len() > 0 {
        let rest = after.drop_last();
        let last = after.last();
        law_spawned(before, rest, pid);
        let some = spawned(before, rest);
        let all = spawned(before, after);
        if lists(before, last.pid) {
            if exists|i: int| 0 <= i < after.len() && (#[trigger] after[i]).pid == pid {
                let i = choose|i: int| 0 <= i < after.len() && (#[trigger] after[i]).pid == pid;
                if i < rest.len() {
                    assert(rest[i].pid == pid);
                }
            }
        } else {
            assert(all == some.push(last.pid));
            if all.contains(pid) {
                let k = choose|k: int| 0 <= k < all.len() && all[k] == pid;
                if k < some.len() {
                    assert(some[k] == pid);
                    assert(some.contains(pid));
                } else {
                    assert(after[after.len() - 1].pid == pid);
                    assert(!lists(before, pid));
                }
            }
            if exists|i: int| 0 <= i < after.len() && (#[trigger] after[i]).pid == pid {
                let i = choose|i: int| 0 <= i < after.len() && (#[trigger] after[i]).pid == pid;
                if i < rest.len() {
                    assert(rest[i].pid == pid);
                    if some.contains(pid) {
                        let k = choose|k: int| 0 <= k < some.len() && some[k] == pid;
                        assert(all[k] == pid);
                    }
                } else {
                    assert(all[all.len() - 1] == pid);
                }
            }
        }
        if spawned(before, rest).contains(pid) {
            let i = choose|i: int| 0 <= i < rest.len() && (#[trigger] rest[i]).pid == pid;
            assert(after[i].pid == pid);
        }
    }
}

/// The name of a file is what stands behind the last slash of its path, whatever directory it lies
/// in; slashes behind it are passed over.
pub proof fn law_file_name(dir: Seq<char>, name: Seq<char>)
    requires
        name.len() > 0,
        name != "."@,
        name != ".."@,
        forall|i: int| 0 <= i < name.len() ==> #[trigger] name[i] != '/',
    ensures
        file_name(name) == Some(name),
        file_name(dir.push('/') + name) == Some(name),
        file_name((dir.push('/') + name).push('/')) == Some(name),
{
    let path = dir.push('/') + name;
    lemma_pieces_after(dir, name);
    lemma_pieces_after(Seq::empty(), name);
    text::law_pieces_make_the_text(name, '/');
    let p = text::pieces(path, '/');
    assert(p.last() == name);
    let q = text::pieces(path.push('/'), '/');
    assert(path.push('/').drop_last() =~= path);
    assert(q == p.push(Seq::empty()));
    assert(q.drop_last() =~= p);
    text::lemma_pieces_of_one(name, '/');
}

proof fn lemma_pieces_after(dir: Seq<char>, name: Seq<char>)
    requires
        forall|i: int| 0 <= i < name.len() ==> #[trigger] name[i] != '/',
    ensures
        text::pieces(dir.push('/') + name, '/').len() > 0,
        text::pieces(dir.push('/') + name, '/').last() == name,
    decreases name.len(),
{
    let path = dir.push('/') + name;
    if name.len() == 0 {
        assert(path =~= dir.push('/'));
        assert(path.drop_last() =~= dir);
        assert(name =~= Seq::<char>::empty());
    } else {
        let rest = name.drop_last();
        assert forall|i: int| 0 <= i < rest.len() implies #[trigger] rest[i] != '/' by {
            assert(rest[i] == name[i]);
        }
        lemma_pieces_after(dir, rest);
        assert(path.drop_last() =~= dir.push('/') + rest);
        assert(name[name.len() - 1] != '/');
        assert(path.last() == name.last());
        assert(rest.push(name.last()) =~= name);
    }
}

/// A backup is looked for below the directory of the job: under the name of the file first, then
/// under the name with `.1`, and so on up to `.10`.
pub proof fn law_backup_places(job_dir: Seq<char>, name: Seq<char>, k: int)
    requires
        job_dir.len() > 0,
        job_dir[job_dir.len() - 1] != '/',
    ensures
        backup_places(job_dir, name).len() == 11,
        backup_places(job_dir, name)[0] == job_dir + "/"@ + name,
        1 <= k <= 10 ==> backup_places(job_dir, name)[k] == job_dir + "/"@ + (name + "."@
            + text::decimal(k as nat)),
{
}

/// The place that is taken is the first one at which something is.
pub proof fn law_first_present(places: Seq<Seq<char>>, present: Seq<bool>)
    requires
        places.len() == present.len(),
    ensures
        match first_present(places, present) {
            Some(p) => exists|i: int|
                0 <= i < places.len() && #[trigger] places[i] == p && present[i] && forall|j: int|
                    0 <= j < i ==> !#[trigger] present[j],
            None => forall|i: int| 0 <= i < present.len() ==> !#[trigger] present[i],
        },
    decreases places.len(),
{
    if places.len() > 0 {
        if present[0] {
            assert(places[0] == first_present(places, present)->0);
        } else {
            let p = places.skip(1);
            let q = present.skip(1);
            law_first_present(p, q);
            match first_present(p, q) {
                Some(x) => {
                    let i = choose|i: int|
                        0 <= i < p.len() && #[trigger] p[i] == x && q[i] && forall|j: int|
                            0 <= j < i ==> !#[trigger] q[j];
                    assert(places[i + 1] == x && present[i + 1]);
                    assert forall|j: int| 0 <= j < i + 1 implies !#[trigger] present[j] by {
                        if j > 0 {
                            assert(q[j - 1] == present[j]);
                        }
                    }
                },
                None => {
                    assert forall|i: int| 0 <= i < present.len() implies !#[trigger] present[i] by {
                        if i > 0 {
                            assert(q[i - 1] == present[i]);
                        }
                    }
                },
            }
        }
    }
}

/// After a failure the backups are looked for of each file that the arguments name under `path`,
/// `repo_path` and `dir`, and of nothing else.
pub proof fn law_files_of_a_failure(
    e: Execution,
    after: After,
    cue: Cue,
    next: Stage,
    action: Action,
    s: Seq<char>,
)
    requires
        e.stage is Failing,
        e.leads_to(Input::Snapped(after), cue, next, action),
    ensures
        next is Probing && next->Probing_error == e.stage->Failing_0,
        text::texts(next->originals@).contains(s) <==> s.len() > 0 && file_name(s) is Some && (
        json::member(e.request.args@, "path"@) == Some(Json::Text(s)) || json::member(
            e.request.args@,
            "repo_path"@,
        ) == Some(Json::Text(s)) || json::member(e.request.args@, "dir"@) == Some(Json::Text(s))),
{
    let a = file_under(e.request.args@, "path"@);
    let b = file_under(e.request.args@, "repo_path"@);
    let c = file_under(e.request.args@, "dir"@);
    let all = originals_of(e.request.args@);
    assert(all == a + b + c);
    if a.contains(s) {
        assert(all[0] == s);
    }
    if b.contains(s) {
        assert(all[a.len() as int] == s);
    }
    if c.contains(s) {
        assert(all[(a.len() + b.len()) as int] == s);
    }
    assert(a.len() > 0 ==> a[0] == a.last());
    if a.len() > 0 && a[0] == s {
        assert(a.contains(s));
    }
    if b.len() > 0 && b[0] == s {
        assert(b.contains(s));
    }
    if c.len() > 0 && c[0] == s {
        assert(c.contains(s));
    }
    if all.contains(s) {
        let k = choose|k: int| 0 <= k < all.len() && all[k] == s;
        if k < a.len() {
            assert(a[k] == s);
        } else if k < a.len() + b.len() {
            assert(b[k - a.len()] == s);
        } else {
            assert(c[k - a.len() - b.len()] == s);
        }
    }
}


/// A failure that is logged says what went wrong and holds the snapshots from before and after.
pub proof fn law_failed_events(
    req: Request,
    error: &str,
    tel_before: Telemetry,
    tel_after: Telemetry,
    proc_before: ProcessSummary,
    proc_after: ProcessSummary,
    oov_ratio: Option<u8>,
    flags: Option<u8>,
    cue: Cue,
    r: WalEvent,
)
    requires
        call_ensures(
            log_job_failed_with_snapshots,
            (
                &req,
                error,
                &tel_before,
                &tel_after,
                &proc_before,
                &proc_after,
                oov_ratio,
                flags,
                cue,
            ),
            r,
        ),
    ensures
        r.event_type == WalEventType::JobFailed,
        r.seq == cue.seq && r.ts == cue.now,
        r.job_id@ == req.job_id@,
        r.capability is Some && (r.capability->0)@ == req.capability@,
        r.error is Some && (r.error->0)@ == error@,
        r.output is None,
        r.process_before == Some(proc_before) && r.process_after == Some(proc_after),
        r.oov_ratio == oov_ratio && r.detection_flags == flags,
        r.backup_path is None,
        req.telemetry_on ==> r.telemetry_before is Some && r.telemetry_after is Some && (
        r.telemetry_before->0).same(tel_before) && (r.telemetry_after->0).same(tel_after),
        !req.telemetry_on ==> r.telemetry_before is None && r.telemetry_after is None,
{
}

/// A failure is framed by what the machine was like before and after; one that was turned away at
/// the door by what it was like before alone.
pub proof fn law_failures_are_framed(
    e: Execution,
    input: Input,
    cue: Cue,
    next: Stage,
    action: Action,
)
    requires
        e.leads_to(input, cue, next, action),
        action is Log,
        action->event.event_type == WalEventType::JobFailed,
    ensures
        action->event.ts == cue.now,
        action->event.output is None,
        action->event.backup_path is None,
        action->event.error is Some,
        action->event.process_before == Some(e.before.processes.summary),
        e.stage is Admitting ==> action->event.process_after == Some(e.before.processes.summary)
            && !action->fatal,
        e.stage is Vetoing ==> input is Snapped && frames_job(
            action->event,
            e,
            input->Snapped_0,
        ) && action->fatal,
        e.stage is Probing ==> frames_job(action->event, e, e.stage->Probing_after)
            && action->event.error->0@ == e.stage->Probing_error@ && action->fatal,
        e.stage is Auditing ==> frames_job(action->event, e, e.stage->Auditing_after)
            && action->event.error->0@ == e.stage->Auditing_error@ && action->fatal,
        e.request.telemetry_on <==> action->event.telemetry_before is Some,
        e.request.telemetry_on <==> action->event.telemetry_after is Some,
{
}

/// The start of a job is dated by its first snapshot, its end by its last; what cannot be logged
/// then ends the execution, but a shell command that cannot be logged does not.
pub proof fn law_dates_and_weights(
    e: Execution,
    input: Input,
    cue: Cue,
    next: Stage,
    action: Action,
)
    requires
        e.leads_to(input, cue, next, action),
        action is Log,
    ensures
        action->event.event_type == WalEventType::JobStarted ==> action->event.ts
            == e.before.telemetry.timestamp && action->fatal && (action->event.telemetry_before
            is Some <==> e.request.telemetry_on) && action->event.telemetry_after is None,
        action->event.event_type == WalEventType::JobCompleted ==> action->fatal
            && action->event.error is None && action->event.backup_path is None,
        action->event.event_type == WalEventType::JobCompleted && e.stage is Saving
            ==> action->event.ts == e.stage->Saving_after.telemetry.timestamp,
        action->event.event_type == WalEventType::JobCompleted && e.stage is Succeeding
            ==> action->event.ts == (input->Snapped_0).telemetry.timestamp,
        action->event.event_type == WalEventType::CommandExecuted ==> action->event.ts == cue.now
            && !action->fatal && action->event.output is None && action->event.error is None,
        action->event.event_type == WalEventType::BackupCreated ==> (action->fatal <==> e.stage
            is Succeeding),
{
}

/// A backup is logged with the file it was made of and with where it lies.
pub proof fn law_backups_are_told(
    e: Execution,
    input: Input,
    cue: Cue,
    next: Stage,
    action: Action,
)
    requires
        e.leads_to(input, cue, next, action),
        action is Log,
        action->event.event_type == WalEventType::BackupCreated,
    ensures
        action->event.output is Some,
        action->event.backup_path is Some,
        json::member((action->event.output->0)@, "data"@) is Some,
        ({
            let data = json::member((action->event.output->0)@, "data"@)->0;
            &&& json::member(data, "backup_path"@) == Some(
                Json::Text(action->event.backup_path->0@),
            )
            &&& e.stage is Succeeding ==> json::member(data, "path"@) == json::member(
                (e.stage->Succeeding_0.data->0)@,
                "path"@,
            )
            &&& e.stage is Auditing ==> json::member(data, "path"@) == Some(
                Json::Text(e.stage->found@[e.stage->Auditing_next as int].original@),
            ) && json::member(data, "backup_path"@) == Some(
                Json::Text(e.stage->found@[e.stage->Auditing_next as int].backup@),
            )
        }),
{
    reveal_strlit("path");
    reveal_strlit("backup_path");
    assert("path"@.len() == 4 && "backup_path"@.len() == 11);
    let none = Seq::<(Seq<char>, Json)>::empty();
    let original = if e.stage is Succeeding {
        (reported_backup(e.stage->Succeeding_0)->0).0
    } else if e.stage is Auditing {
        pairs(e.stage->found@)[e.stage->Auditing_next as int].0
    } else {
        backups_of(
            text::texts(e.stage->originals@),
            job_dir(e.request),
            (input->Probed_0)@.map_values(|v: Vec<bool>| v@),
        )[0].0
    };
    let backup = action->event.backup_path->0@;
    let a = Json::Text(original);
    let b = Json::Text(backup);
    let one = json::inserted(none, "path"@, a);
    json::law_insertion(none, "path"@, a, "backup_path"@);
    json::law_insertion(one, "backup_path"@, b, "path"@);
    let data = Json::Object(json::inserted(one, "backup_path"@, b));
    json::law_insertion(none, "data"@, data, "data"@);
    assert((action->event.output->0)@ == backup_output(original, backup));
}

/// The backups of a failure are logged one after the other, each once and in order, and the failure
/// after the last of them.
pub proof fn law_backups_of_a_failure(
    e: Execution,
    r: Result<(), Error>,
    cue: Cue,
    next: Stage,
    action: Action,
)
    requires
        e.stage is Auditing,
        e.leads_to(Input::Logged(r), cue, next, action),
    ensures
        action is Log,
        e.stage->Auditing_next < e.stage->found@.len() ==> action->event.event_type
            == WalEventType::BackupCreated && next is Auditing && next->Auditing_next
            == e.stage->Auditing_next + 1 && next->Auditing_error@ == e.stage->Auditing_error@
            && next->Auditing_after == e.stage->Auditing_after && pairs(next->found@) == pairs(
            e.stage->found@,
        ),
        e.stage->Auditing_next >= e.stage->found@.len() ==> action->event.event_type
            == WalEventType::JobFailed && next is Failed && next->Failed_error@
            == e.stage->Auditing_error@ && next->Failed_after == e.stage->Auditing_after
            && next->Failed_wal_seq == cue.seq,
{
}

/// A file that may have been harmed has a backup where one is found at one of its places, and the
/// first of them counts.
pub proof fn law_backups_found(
    originals: Seq<Seq<char>>,
    dir: Seq<char>,
    present: Seq<Seq<bool>>,
    o: Seq<char>,
    p: Seq<bool>,
    name: Seq<char>,
)
    requires
        present.len() == originals.len(),
        file_name(o) == Some(name),
    ensures
        backups_of(originals.push(o), dir, present.push(p)) == backups_of(originals, dir, present)
            + (match first_present(backup_places(dir, name), p) {
            Some(b) => seq![(o, b)],
            None => Seq::empty(),
        }),
        backups_of(Seq::empty(), dir, present) == Seq::<(Seq<char>, Seq<char>)>::empty(),
{
    let all = originals.push(o);
    let n = all.len() - 1;
    assert(all.drop_last() =~= originals);
    assert(present.push(p).take(n) =~= present);
    assert(places_of(all, dir)[n] == backup_places(dir, name));
    let rest = backups_of(originals, dir, present);
    match first_present(backup_places(dir, name), p) {
        Some(b) => {
            assert(rest.push((o, b)) =~= rest + seq![(o, b)]);
        },
        None => {
            assert(rest =~= rest + Seq::<(Seq<char>, Seq<char>)>::empty());
        },
    }
}

/// What a failure leaves is looked for below the directory of the job: each file at each of its
/// places.
pub proof fn law_places_probed(
    e: Execution,
    after: After,
    cue: Cue,
    next: Stage,
    action: Action,
    i: int,
)
    requires
        e.stage is Failing,
        e.leads_to(Input::Snapped(after), cue, next, action),
        0 <= i < next->originals@.len(),
        file_name(next->originals@[i]@) is Some,
    ensures
        action is Probe,
        (action->Probe_0)@.len() == next->originals@.len(),
        text::texts((action->Probe_0)@[i]@) == backup_places(
            utils::below(e.request.backup_dir@, e.request.job_id@),
            file_name(next->originals@[i]@)->0,
        ),
{
    let originals = text::texts(next->originals@);
    assert(originals.len() == next->originals@.len());
    let shown = (action->Probe_0)@.map_values(|v: Vec<String>| text::texts(v@));
    assert(shown == places_of(originals, job_dir(e.request)));
    assert(shown.len() == originals.len());
    assert(shown[i] == text::texts((action->Probe_0)@[i]@));
    assert(originals[i] == next->originals@[i]@);
}

/// What a shell command did not report is logged as empty.
pub proof fn law_commands_without_data(e: Execution, cue: Cue, next: Stage, action: Action)
    requires
        e.stage is Completing,
        e.leads_to(Input::Logged(Ok(())), cue, next, action),
        action is Log,
    ensures
        next is Commanding,
        e.stage->Completing_output.data is None ==> action->event.cmd is Some
            && action->event.cmd->0@.len() == 0 && action->event.cmd_stdout is Some
            && action->event.cmd_stdout->0@.len() == 0 && action->event.cmd_stderr is Some
            && action->event.cmd_stderr->0@.len() == 0,
{
    text::law_cut_to_fit(Seq::empty(), 1024, 0);
}

} // verus!
