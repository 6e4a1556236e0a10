use runtimo_core::capability::Output;
use runtimo_core::config::{Environment, RuntimoConfig};
use runtimo_core::error::Error;
use runtimo_core::executor::{
    admission_refusal, backup_candidates, capability_timeout, file_name_of, find_backup_candidate,
    flag_timeout, has_natural_content, identify_spawned_pids, inject_timeout, sift_observation,
    telemetry_opt, truncate_for_sift, Action, After, Before, Cue, Execution, ExecutionResult, Input,
    Request,
};
use runtimo_core::guard::{DesignAssuranceLevel, LlmoSafeGuard, SemanticPolicy};
use runtimo_core::json::{Object, Value};
use runtimo_core::processes::{Percent, ProcessInfo, ProcessSnapshot, ProcessSummary};
use runtimo_core::telemetry::Telemetry;
use runtimo_core::wal::{WalEvent, WalEventType};

fn object(pairs: &[(&str, Value)]) -> Value {
    let mut o = Object::new();
    for (k, v) in pairs {
        o = o.with(k.to_string(), v.clone());
    }
    Value::Object(o)
}

fn text(s: &str) -> Value {
    Value::from_text(s)
}

fn percent(value: f32) -> Percent {
    Percent { rank: value.to_bits() as i32, text: format!("{:.1}", value) }
}

fn process(pid: u32, command: &str) -> ProcessInfo {
    ProcessInfo {
        pid,
        ppid: 0,
        user: "user".to_string(),
        cpu_percent: percent(0.0),
        mem_percent: percent(0.0),
        vsz: 0,
        rss: 0,
        stat: "S".to_string(),
        start_time: String::new(),
        elapsed: String::new(),
        command: command.to_string(),
    }
}

fn snapshot(processes: Vec<ProcessInfo>, zombies: usize) -> ProcessSnapshot {
    ProcessSnapshot {
        timestamp: 1000,
        summary: ProcessSummary {
            total_processes: processes.len(),
            total_cpu_percent: percent(1.0),
            total_mem_percent: percent(0.5),
            top_cpu_consumer: None,
            top_mem_consumer: None,
            zombie_count: zombies,
        },
        processes,
    }
}

#[test]
fn inject_timeout_adds_missing_key() {
    let args = object(&[("cmd", text("ls"))]);
    let injected = inject_timeout(&args, 3600);
    assert_eq!(injected.get("timeout_secs").unwrap().as_u64(), Some(3600));
    assert_eq!(injected.get("cmd").unwrap().as_str(), Some("ls"));
}

#[test]
fn inject_timeout_preserves_existing_key() {
    let args = object(&[("cmd", text("ls")), ("timeout_secs", Value::from_natural(90))]);
    let injected = inject_timeout(&args, 3600);
    assert_eq!(
        injected.get("timeout_secs").unwrap().as_u64(),
        Some(90),
        "explicit arg must win"
    );
}

#[test]
fn inject_timeout_noop_for_non_object_args() {
    let args = text("just a string");
    assert!(inject_timeout(&args, 3600).equals(&text("just a string")));
}

#[test]
fn test_execute_with_timeout_returns_error() {
    let out = flag_timeout(Output::ok("slow completed".to_string()), true);
    assert_eq!(out.status, "ok");
    let data = out.data.expect("slow-success should have data with timed_out");
    assert_eq!(
        data.get("timed_out").unwrap().as_bool(),
        Some(true),
        "timed_out flag must be true for slow success, got: {:?}",
        data
    );
}

#[test]
fn test_execute_with_timeout_preserves_output_with_timed_out_flag() {
    let mut given = Output::ok("slow completed".to_string());
    given.data = Some(object(&[("extra", text("keep"))]));
    let result = flag_timeout(given, true);
    assert_eq!(result.status, "ok");
    assert_eq!(result.output, "slow completed");
    let data = result.data.unwrap();
    assert_eq!(data.get("timed_out").unwrap().as_bool(), Some(true));
    assert_eq!(data.get("extra").unwrap().as_str(), Some("keep"));
    let mut given = Output::ok("slow completed".to_string());
    given.data = Some(Value::from_natural(7));
    let data = flag_timeout(given, true).data.unwrap();
    assert_eq!(data.get("value").unwrap().as_u64(), Some(7));
    assert_eq!(data.get("timed_out").unwrap().as_bool(), Some(true));
}

#[test]
fn test_execute_with_timeout_fast_path_no_flag() {
    let result = flag_timeout(Output::ok("fast completed".to_string()), false);
    assert_eq!(result.status, "ok");
    if let Some(data) = result.data {
        assert!(
            data.get("timed_out").is_none(),
            "fast path must not have timed_out flag, got: {:?}",
            data
        );
    }
}

#[test]
fn test_telemetry_opt_gates_wal_field() {
    let tel = Telemetry::empty();
    assert!(telemetry_opt(false, &tel).is_none());
    let some = telemetry_opt(true, &tel);
    assert!(some.is_some());
    assert_eq!(some.unwrap().system.cpu_model, "unknown");
}

#[test]
fn test_identify_spawned_pids() {
    let before = snapshot(vec![process(1, "init"), process(42, "existing")], 0);
    let after = snapshot(
        vec![process(1, "init"), process(42, "existing"), process(99, "spawned")],
        0,
    );
    assert_eq!(identify_spawned_pids(&before, &after), vec![99]);
    assert!(identify_spawned_pids(&after, &before).is_empty());
}

#[test]
fn test_find_backup_candidate_with_suffix() {
    let places = backup_candidates("/b/job_suffix", "suffix_test.txt");
    assert_eq!(places[0], "/b/job_suffix/suffix_test.txt");
    assert_eq!(places[1], "/b/job_suffix/suffix_test.txt.1");
    assert_eq!(places[10], "/b/job_suffix/suffix_test.txt.10");
    assert_eq!(places.len(), 11);
    let mut present = vec![false; 11];
    assert!(find_backup_candidate(&places, &present).is_none());
    present[1] = true;
    present[5] = true;
    let found = find_backup_candidate(&places, &present);
    assert!(found.is_some());
    assert_eq!(found.unwrap(), "/b/job_suffix/suffix_test.txt.1");
    assert_eq!(file_name_of("/a/b.txt/").as_deref(), Some("b.txt"));
    assert_eq!(file_name_of("/a/.."), None);
    assert_eq!(file_name_of("/"), None);
}

#[test]
fn observation_takes_the_first_text() {
    let args = object(&[("content", text("words")), ("message", text("other"))]);
    assert!(has_natural_content(&args));
    assert_eq!(sift_observation("describes", &args), "words");
    assert_eq!(sift_observation("describes", &object(&[("path", text("/tmp"))])), "describes");
    assert!(!has_natural_content(&object(&[("path", text("/tmp"))])));
    let long = "é".repeat(5000);
    let seen = truncate_for_sift(&long);
    assert_eq!(seen, format!("{}... [truncated 1808 bytes]", "é".repeat(4096)));
    let odd = format!("x{}", long);
    assert!(truncate_for_sift(&odd).ends_with("... [truncated 1810 bytes]"));
    assert_eq!(truncate_for_sift("short"), "short");
}

#[test]
fn timeouts_come_from_the_config() {
    assert_eq!(capability_timeout(&RuntimoConfig::unset(), "ShellExec"), 30);
    let config = RuntimoConfig {
        capability_timeouts: vec![("ShellExec".to_string(), 7)],
        ..RuntimoConfig::unset()
    };
    assert_eq!(capability_timeout(&config, "ShellExec"), 7);
}

#[test]
fn refusals_come_in_order() {
    let args = object(&[("content", text(&"x".repeat(2_000_000)))]);
    assert_eq!(
        admission_refusal(Err("pressure".to_string()), 11, &args).as_deref(),
        Some("pressure")
    );
    assert_eq!(
        admission_refusal(Ok(()), 11, &args).as_deref(),
        Some("Zombie processes: 11 (limit: 10)")
    );
    assert_eq!(
        admission_refusal(Ok(()), 10, &args).as_deref(),
        Some("Capability args too large: 2000014 bytes (limit: 1MB)")
    );
    assert!(admission_refusal(Ok(()), 10, &object(&[])).is_none());
}

/// A world for an execution: what the guard says, what the capability gives, what lies where.
struct World {
    guard: Result<(), String>,
    pressure: &'static str,
    dal: DesignAssuranceLevel,
    outcome: Result<Output, String>,
    slow: bool,
    present: Vec<&'static str>,
    log_fails: bool,
}

fn idle_world() -> World {
    World {
        guard: Ok(()),
        pressure: "10",
        dal: DesignAssuranceLevel::E,
        outcome: Ok(Output::ok("done".to_string())),
        slow: false,
        present: Vec::new(),
        log_fails: false,
    }
}

fn request(capability: &str, args: Value) -> Request {
    Request {
        job_id: "job-1".to_string(),
        capability: capability.to_string(),
        description: "does something".to_string(),
        args,
        dry_run: false,
        working_dir: None,
        timeout_secs: 30,
        session: Some("s-1".to_string()),
        backup_dir: "/backups".to_string(),
        telemetry_on: true,
        log_commands: true,
    }
}

fn run(request: Request, zombies: usize, world: World) -> (Vec<WalEvent>, Vec<String>, Result<ExecutionResult, Error>) {
    let env = Environment {
        test_pressure: Some(world.pressure.to_string()),
        ..Default::default()
    };
    let guard = LlmoSafeGuard::new(
        llmosafe::ResourceGuard::auto(0.8),
        &RuntimoConfig::unset(),
        &env,
    )
    .with_dal(world.dal)
    .with_semantic_policy(SemanticPolicy::Enforce);
    let before = Before {
        telemetry: Telemetry { timestamp: 4999, ..Telemetry::empty() },
        processes: snapshot(vec![process(1, "init")], zombies),
    };
    let mut events: Vec<WalEvent> = Vec::new();
    let mut notes: Vec<String> = Vec::new();
    let mut outcome = Some(world.outcome);
    let mut state = Execution::new(request, before);
    let mut input = Input::Guard(world.guard);
    loop {
        let cue = Cue { seq: events.len() as u64 + 1, now: 5000 + events.len() as u64 };
        let (next, action) = state.advance(input, cue);
        state = next;
        input = match action {
            Action::Log { event, fatal: _ } => {
                notes.push(event.event_type.as_str().to_string());
                if world.log_fails {
                    Input::Logged(Err(Error::WalError("disk full".to_string())))
                } else {
                    events.push(event);
                    Input::Logged(Ok(()))
                }
            }
            Action::Screen(observation) => {
                notes.push("screen".to_string());
                Input::Screened(guard.check_cognitive_pipeline("", &observation))
            }
            Action::Run { args, context } => {
                notes.push(format!("run {}", args.to_text()));
                assert_eq!(context.working_dir, "/");
                Input::Ran { outcome: outcome.take().unwrap(), slow: world.slow }
            }
            Action::Snap => Input::Snapped(After {
                telemetry: Telemetry { timestamp: 5003, ..Telemetry::empty() },
                processes: snapshot(vec![process(1, "init"), process(9, "new")], 0),
            }),
            Action::Probe(places) => Input::Probed(
                places
                    .iter()
                    .map(|of_file| {
                        of_file.iter().map(|p| world.present.contains(&p.as_str())).collect()
                    })
                    .collect(),
            ),
            Action::Join { session, job_id } => {
                notes.push(format!("join {} {}", session, job_id));
                Input::Joined
            }
            Action::Finish(result) => return (events, notes, result),
        };
    }
}

fn kinds(events: &[WalEvent]) -> Vec<WalEventType> {
    events.iter().map(|e| e.event_type).collect()
}

#[test]
fn test_execute_with_telemetry_happy_path() {
    let (_, notes, result) =
        run(request("FileRead", object(&[("path", text("/tmp/test.txt"))])), 0, idle_world());
    assert!(result.is_ok(), "Execute failed: {:?}", result.err());
    let r = result.unwrap();
    assert!(r.success, "Execution should succeed");
    assert_eq!(r.capability, "FileRead");
    assert!(!r.job_id.is_empty());
    assert!(r.telemetry_before.timestamp > 0);
    assert!(r.telemetry_after.timestamp > 0);
    assert!(r.telemetry_after.timestamp >= r.telemetry_before.timestamp);
    assert_eq!((r.telemetry_before.timestamp, r.telemetry_after.timestamp), (4999, 5003));
    assert!(r.process_before.total_processes > 0);
    assert!(r.process_after.total_processes > 0);
    assert_eq!(r.process_after.total_processes, 2);
    assert_eq!(r.wal_seq, 2);
    assert!(notes.contains(&"join s-1 job-1".to_string()));
}

#[test]
fn test_execute_writes_wal_events() {
    let (events, notes, result) =
        run(request("FileRead", object(&[("path", text("/tmp/test.txt"))])), 0, idle_world());
    assert!(result.is_ok());
    assert!(events.len() >= 2, "WAL should have at least 2 events, got {}", events.len());
    assert_eq!(kinds(&events), vec![WalEventType::JobStarted, WalEventType::JobCompleted]);
    assert_eq!(events[0].job_id, "job-1");
    assert!(
        notes.contains(&"run {\"path\":\"/tmp/test.txt\",\"timeout_secs\":30}".to_string()),
        "{:?}",
        notes
    );
}

#[test]
fn test_early_args_rejection_logs_job_failed() {
    let large = object(&[("content", text(&"x".repeat(2_000_000)))]);
    let (events, _, result) = run(request("Echo", large), 0, idle_world());
    assert!(result.is_err(), "Should reject args > 1MB");
    assert!(
        events.iter().any(|e| e.event_type == WalEventType::JobFailed),
        "early-Err rejection must log JobFailed"
    );
}

#[test]
fn test_args_size_guard_rejects_large_args() {
    let large = object(&[("content", text(&"x".repeat(2_000_000)))]);
    let (_, _, result) = run(request("Echo", large), 0, idle_world());
    assert!(result.is_err(), "Should reject args > 1MB");
    let err = result.unwrap_err().message();
    assert!(
        err.contains("too large") || err.contains("args"),
        "Error should mention args size: {}",
        err
    );
}

#[test]
fn test_cognitive_pipeline_dal_a_rejects() {
    let mut world = idle_world();
    world.dal = DesignAssuranceLevel::A;
    world.pressure = "90";
    let args = object(&[("content", text("suspicious manipulation of system files"))]);
    let (events, notes, result) = run(request("Echo", args), 0, world);
    assert!(notes.contains(&"screen".to_string()));
    match result {
        Ok(r) => assert!(!r.success),
        Err(e) => assert!(!e.message().is_empty()),
    }
    assert_eq!(kinds(&events), vec![WalEventType::JobStarted, WalEventType::JobFailed]);
    assert!(!notes.iter().any(|n| n.starts_with("run")));
}

#[test]
fn test_cognitive_pipeline_dal_e_passes() {
    let args = object(&[("content", text("suspicious manipulation of system files"))]);
    let (_, notes, result) = run(request("Echo", args), 0, idle_world());
    assert!(result.unwrap().success);
    assert!(notes.iter().any(|n| n.starts_with("run")));
}

#[test]
fn test_backup_orphan_on_err_path_is_audited() {
    let mut world = idle_world();
    world.outcome = Err("disk error".to_string());
    world.present = vec!["/backups/job-1/a.txt.1"];
    let args = object(&[("path", text("/tmp/a.txt"))]);
    let (events, _, result) = run(request("FileWrite", args), 0, world);
    assert_eq!(
        kinds(&events),
        vec![WalEventType::JobStarted, WalEventType::BackupCreated, WalEventType::JobFailed]
    );
    assert_eq!(events[1].backup_path.as_deref(), Some("/backups/job-1/a.txt.1"));
    assert!(events[2].error.as_deref().unwrap().contains("disk error"));
    match result {
        Ok(r) => assert!(!r.success),
        Err(e) => assert!(e.message().contains("disk error")),
    }
}

#[test]
fn failed_log_ends_the_job() {
    let mut world = idle_world();
    world.log_fails = true;
    let (events, notes, result) = run(request("FileRead", object(&[])), 0, world);
    assert!(events.is_empty());
    assert!(result.is_err());
    assert!(!notes.iter().any(|n| n.starts_with("run")));
}

#[test]
fn late_output_is_flagged_in_the_result() {
    let mut world = idle_world();
    world.slow = true;
    let (_, _, result) = run(request("FileRead", object(&[])), 0, world);
    let data = result.unwrap().output.data.unwrap();
    assert_eq!(data.get("timed_out").unwrap().as_bool(), Some(true));
}

#[test]
fn refused_machine_does_not_run() {
    let mut world = idle_world();
    world.guard = Err("Memory pressure 95%".to_string());
    let (events, notes, result) = run(request("FileRead", object(&[])), 0, world);
    assert_eq!(kinds(&events), vec![WalEventType::JobFailed]);
    assert!(result.is_err());
    assert!(!notes.iter().any(|n| n.starts_with("run")));
    let (events, _, result) = run(request("FileRead", object(&[])), 11, idle_world());
    assert_eq!(kinds(&events), vec![WalEventType::JobFailed]);
    assert!(result.unwrap_err().message().contains("Zombie processes: 11"));
}
