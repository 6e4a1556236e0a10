use llmosafe::ResourceGuard;
use runtimo_core::config::{Environment, RuntimoConfig};
use runtimo_core::guard::{
    apply_dal_to_decision, DesignAssuranceLevel, LlmoSafeGuard, SafetyDecision,
};
use runtimo_core::observe::audit::{AuditEvent, AuditHook, AuditKind};
use runtimo_core::observe::budget::{observe_budget_path, ObserveBudget};
use runtimo_core::observe::bundle::{
    bundle_path, bundle_path_refused, verify_bundle, without_hash, BundleContent, BundleWriter,
    VerifyResult,
};
use runtimo_core::observe::sampler::{
    OutOfProcessSampler, SampleEvent, StackReading, StackSampler,
};
use runtimo_core::observe::self_test::{
    checks, corrupt, dal_a_gate, fixture_a_exactness, fixture_b_sampling_bounds, run,
    tamper_detection, tamper_events, unable, NoBundle, ObservedRate, SelfTestCheck, Tally,
};
use runtimo_core::observe::supervisor::{
    dal_decision_for, BudgetState, BundleWatermark, CollectorFailure, DalDecision,
    ObserveSupervisor,
};
use runtimo_core::observe::Clock;
use runtimo_core::validation::path::{PathFacts, PathPolicy};
use runtimo_core::wal::{WalEvent, WalEventType};

fn at(mono_ns: u64) -> Clock {
    Clock { secs: 1_700_000_000, mono_ns, wall_ns: 1_700_000_000_000_000_000 + mono_ns }
}

fn member(event: &WalEvent, key: &str) -> String {
    event.output.as_ref().unwrap().get(key).unwrap().to_text()
}

// Audit

#[test]
fn audit_fixture_exact_count() {
    let mut hook = AuditHook::with_capacity(512);
    for i in 0..10 {
        hook.record(AuditKind::Import, format!("mod_{i}"), 1).unwrap();
    }
    hook.record(AuditKind::Spawn, "subprocess.Popen(['ls'])".to_string(), 1).unwrap();
    hook.record(AuditKind::Spawn, "fork()".to_string(), 1).unwrap();
    hook.record(AuditKind::Raise, "ValueError".to_string(), 1).unwrap();
    hook.record(AuditKind::DynamicLoad, "ctypes.CDLL('libfoo.so')".to_string(), 1).unwrap();
    let events = hook.drain(2);
    assert_eq!(events.len(), 14, "fixture must be exactly 14 events");
    assert_eq!(events.iter().filter(|e| e.kind == AuditKind::Import).count(), 10);
    assert_eq!(events.iter().filter(|e| e.kind == AuditKind::Spawn).count(), 2);
    assert_eq!(events.iter().filter(|e| e.kind == AuditKind::Raise).count(), 1);
    assert_eq!(events.iter().filter(|e| e.kind == AuditKind::DynamicLoad).count(), 1);
    for ev in &events {
        let wal = ev.to_wal_event();
        assert!(!format!("{:?}", wal).to_lowercase().contains("auth_token"));
    }
}

#[test]
fn audit_bounded_drop_newest_truncated() {
    let mut hook = AuditHook::with_capacity(4);
    for i in 0..4 {
        assert!(hook.record(AuditKind::Import, format!("m{i}"), 1).is_some());
    }
    assert!(hook.record(AuditKind::Import, "overflow".to_string(), 1).is_none());
    assert_eq!(hook.dropped(), 1);
    let drained = hook.drain(2);
    assert_eq!(drained.len(), 5);
    assert!(drained.last().unwrap().truncated);
    assert!(drained.last().unwrap().target.contains("TRUNCATED"));
    assert_eq!(hook.dropped(), 0);
    assert!(hook.is_empty());
}

#[test]
fn audit_no_per_line_grep_guard() {
    // There are events for coarse actions only, none for a line of code.
    for kind in [
        AuditKind::Import,
        AuditKind::Spawn,
        AuditKind::Raise,
        AuditKind::DynamicLoad,
        AuditKind::FileOp,
    ] {
        let event = AuditEvent::new(0, kind, "x".to_string(), 1).to_wal_event();
        let name = member(&event, "kind");
        assert!(!name.contains("line"), "{name}");
        assert!(!name.contains("trace"), "{name}");
    }
}

#[test]
fn audit_secret_redaction_replaces_with_redacted() {
    let patterns = [
        "auth_token=abc",
        "AUTH_TOKEN=xyz",
        "Bearer secret",
        "BEARER token",
        "api_key=123",
        "API_KEY=xyz",
    ];
    for pat in patterns {
        let ev = AuditEvent::new(0, AuditKind::Import, pat.to_string(), 1);
        assert_eq!(
            ev.target, "REDACTED",
            "AuditEvent::new must redact pattern {:?}, got {:?}",
            pat, ev.target
        );
        let wal = ev.to_wal_event();
        assert_eq!(member(&wal, "target"), "\"REDACTED\"");
        assert!(
            !wal.output.as_ref().unwrap().to_text().to_lowercase().contains(&pat.to_lowercase()[..4]),
            "WAL json must not leak secret pattern"
        );
    }
    let mut hook = AuditHook::with_capacity(10);
    let ev = hook.record(AuditKind::Import, "my api_key leaked".to_string(), 1).unwrap();
    assert_eq!(ev.target, "REDACTED");
    let direct = AuditEvent {
        id: 99,
        ts_ns: 123,
        kind: AuditKind::Spawn,
        target: "auth_token_direct".to_string(),
        location: Some("bearer location".to_string()),
        truncated: false,
    };
    let wal2 = direct.to_wal_event();
    assert_eq!(member(&wal2, "target"), "\"REDACTED\"");
    assert_eq!(member(&wal2, "location"), "\"REDACTED\"");
    let clean = AuditEvent::new(1, AuditKind::Import, "os".to_string(), 1);
    assert_eq!(clean.target, "os");
    assert_eq!(member(&clean.to_wal_event(), "target"), "\"os\"");
}

#[test]
fn audit_targets_are_cut() {
    let long = "x".repeat(2000);
    let ev = AuditEvent::new(0, AuditKind::FileOp, long, 1);
    assert_eq!(ev.target, format!("{}...[truncated]", "x".repeat(1024)));
    let mut hook = AuditHook::new();
    let ev = hook
        .record_with_location(AuditKind::Raise, "E".to_string(), "a.py:3".to_string(), 9)
        .unwrap();
    assert_eq!(ev.location.as_deref(), Some("a.py:3"));
    assert_eq!(hook.len(), 1);
}

#[test]
fn audit_targets_with_a_secret_behind_the_cut_are_blotted_out() {
    let long = format!("{}api_key=1", "x".repeat(2000));
    assert_eq!(AuditEvent::new(0, AuditKind::FileOp, long, 1).target, "REDACTED");
    let split = format!("{}bearer", "x".repeat(1021));
    assert_eq!(AuditEvent::new(0, AuditKind::FileOp, split, 1).target, "REDACTED");
    let mut hook = AuditHook::new();
    assert_eq!(hook.upcoming_id(), 0);
    let far = format!("{}AUTH_TOKEN", "x".repeat(1500));
    assert_eq!(hook.record(AuditKind::Spawn, far, 1).unwrap().target, "REDACTED");
    assert_eq!(hook.upcoming_id(), 1);
    let exact = "x".repeat(1024);
    assert_eq!(AuditEvent::new(0, AuditKind::FileOp, exact.clone(), 1).target, exact);
}

// Budget

#[test]
fn budget_restart_restore() {
    let path = Some("/s/observe_budget.state".to_string());
    let mut b = ObserveBudget::new_with_path(30, 60, path.clone(), &None, 1000, 5_000);
    assert!(!b.is_in_cooldown(5_000));
    let (place, content) = b.mark_checked(1000, 5_000).unwrap();
    assert_eq!(place, "/s/observe_budget.state");
    assert!(b.is_in_cooldown(5_000));
    let later = 1_000_000_000_000;
    let b2 = ObserveBudget::new_with_path(30, 60, path.clone(), &Some(content.clone()), 1059, later);
    assert!(b2.is_in_cooldown(later), "restored budget should still be in cooldown");
    let b3 = ObserveBudget::new_with_path(30, 60, path, &Some(content), 1060, later);
    assert!(!b3.is_in_cooldown(later));
    assert_eq!(
        observe_budget_path(&Some("/state".to_string()), &None).as_deref(),
        observe_budget_path(&Some("/state".to_string()), &Some("/home/a".to_string())).as_deref()
    );
}

#[test]
fn budget_rolling_average() {
    let mut b = ObserveBudget::new_with_path(30, 1, None, &None, 0, 0);
    b.record(50, 100_000_000_001);
    b.record(70, 100_000_000_002);
    let avg = b.rolling_average().unwrap();
    assert!((avg.sum as f64 / avg.count as f64 - 60.0).abs() < 0.1);
    let late = b.record(10, 140_000_000_000);
    assert_eq!((late.sum, late.count), (10, 1));
}

#[test]
fn budget_should_suspend_on_high_pressure() {
    let mut b = ObserveBudget::new_with_path(30, 1, None, &None, 0, 0);
    assert!(b.should_suspend(90));
    assert!(!b.should_suspend(50));
    b.record(90, 1);
    b.record(90, 2);
    assert!(b.should_suspend(50));
}

// Sampler

#[test]
fn sampler_rate_defaults_and_caps() {
    let s0 = OutOfProcessSampler::new(1, 0, 0);
    assert_eq!(s0.rate_hz(), 50);
    let s_high = OutOfProcessSampler::new(1, 5000, 0);
    assert_eq!(s_high.rate_hz(), 1000);
    let s50 = OutOfProcessSampler::new(1, 50, 0);
    assert_eq!(s50.interval(), 20_000);
}

fn stack() -> StackReading {
    StackReading::Stack("[<0>] do_wait+0x1\n[<0>] main\n".to_string())
}

#[test]
fn sampler_fallback_never_silent_zeros() {
    let mut s = OutOfProcessSampler::new(0, 50, 0);
    let ev = s.sample(stack(), at(1), 0).unwrap();
    assert!(ev.truncated, "invalid pid must produce truncated marker");
    assert!(ev.error.is_some());
    assert!(!ev.frames.is_empty(), "fallback must not be silent empty");
    let wal = ev.to_wal_event();
    assert_eq!(wal.event_type, WalEventType::ObserveTruncated);
}

#[test]
fn sampler_bounded_drop_newest_truncated() {
    let mut s = OutOfProcessSampler::with_capacity(1, 50, 2, 0);
    for _ in 0..2 {
        let ev = s.sample(stack(), at(1), 0).unwrap();
        let _ = s.enqueue(ev);
    }
    assert_eq!(s.len(), 2);
    let ev = s.sample(stack(), at(1), 0).unwrap();
    let enq = s.enqueue(ev);
    assert!(enq.is_none());
    assert_eq!(s.dropped(), 1);
    let drained = s.drain(at(2));
    assert_eq!(drained.len(), 3);
    assert!(drained.last().unwrap().truncated);
    assert!(drained.last().unwrap().error.as_ref().unwrap().contains("TRUNCATED"));
    assert_eq!(s.dropped(), 0);
}

fn guard(pressure: &str) -> LlmoSafeGuard {
    let env = Environment { test_pressure: Some(pressure.to_string()), ..Default::default() };
    LlmoSafeGuard::new(ResourceGuard::auto(0.8), &RuntimoConfig::unset(), &env)
}

#[test]
fn sampler_gated_tick_via_guard() {
    let mut s = OutOfProcessSampler::new(1, 50, 7);
    let budget = ObserveBudget::new_with_path(30, 1, None, &None, 0, 0);
    let res = s.gated_tick(&guard("10"), &budget, || (stack(), at(1)), 0);
    let ev = res.unwrap().unwrap();
    assert_eq!(ev.frames.len(), 2);
    assert!(!ev.is_truncated());
    let res = s.gated_tick(&guard("95"), &budget, || panic!("must not read"), 0);
    assert!(res.unwrap().is_none());
}

#[test]
fn sampler_takes_what_fits_and_counts_the_rest() {
    let mut s = OutOfProcessSampler::with_capacity(1, 50, 2, 7);
    assert!(s.has_room());
    let first = s.take(stack(), at(1), 3).unwrap();
    assert_eq!((first.seq, first.pid, first.process_start_time), (0, 1, 3));
    assert_eq!(first.frames.len(), 2);
    let second = s.take(StackReading::NotFound("gone".to_string()), at(2), 3).unwrap();
    assert!(second.is_truncated());
    assert!(s.take(stack(), at(3), 3).is_none());
    assert_eq!(s.dropped(), 1);
    let drained = s.drain(at(4));
    assert_eq!(drained.len(), 3);
    assert_eq!(drained[2].frames, vec!["TRUNCATED dropped=1".to_string()]);
    // The sample that was dropped has used up its number.
    assert_eq!(drained[2].seq, 3);
}

#[test]
fn sampler_ticks_by_guard_and_budget() {
    let mut s = OutOfProcessSampler::with_capacity(1, 50, 1, 0);
    let e = s.tick(Ok(()), false, || (stack(), at(1)), 4).unwrap().unwrap();
    assert_eq!((e.seq, e.process_start_time), (0, 4));
    assert!(s.tick(Ok(()), true, || panic!("must not read"), 0).unwrap().is_none());
    for words in ["Resource pressure at 90%", "suspended"] {
        let says = Err(words.to_string());
        assert!(s.tick(says, false, || panic!("must not read"), 0).unwrap().is_none());
    }
    assert_eq!(s.dropped(), 0);
    let says = Err("out of memory".to_string());
    assert_eq!(s.tick(says, false, || panic!("must not read"), 0).unwrap_err(), "out of memory");
    assert!(s.tick(Ok(()), false, || (stack(), at(2)), 0).unwrap().is_none());
    assert_eq!(s.dropped(), 1);
}

#[test]
fn sampler_queue_stays_within_its_bound() {
    let mut s = OutOfProcessSampler::with_capacity(1, 50, 9000, 0);
    for i in 0..600u64 {
        s.take(stack(), at(i + 1), 0);
    }
    assert_eq!(s.dropped(), 600 - 512);
    assert_eq!(s.drain(at(700)).len(), 513);
}

#[test]
fn sampler_secret_redaction_at_wal_boundary() {
    let ev = SampleEvent {
        seq: 0,
        pid: 123,
        mono_ns: 1,
        wall_ns: 1,
        frames: vec!["auth_token=secret".to_string(), "normal_frame".to_string()],
        truncated: false,
        error: None,
        process_start_time: 0,
    };
    let json = ev.to_wal_event().output.unwrap().to_text();
    assert!(json.contains("REDACTED"));
    assert!(!json.contains("auth_token=secret"));
    assert!(json.contains("normal_frame"));
    let ev2 = SampleEvent {
        seq: 1,
        pid: 123,
        mono_ns: 2,
        wall_ns: 2,
        frames: vec![],
        truncated: true,
        error: Some("bearer token leaked".to_string()),
        process_start_time: 0,
    };
    let json2 = ev2.to_wal_event().output.unwrap().to_text();
    assert!(json2.contains("REDACTED"));
}

#[test]
fn sampler_no_ptrace_grep_guard() {
    // A sample comes from what was read of the process and from nothing else.
    let mut s = OutOfProcessSampler::new(77, 50, 0);
    for reading in [
        stack(),
        StackReading::PermissionDenied("denied".to_string()),
        StackReading::NotFound("gone".to_string()),
        StackReading::Failed("broken".to_string()),
    ] {
        let ev = s.sample(reading, at(1), 0).unwrap();
        let shown = format!("{:?}", ev);
        let preload = format!("{}{}", "LD", "_PRELOAD");
        assert!(!shown.contains(&preload));
        assert!(!shown.contains("ptrace"));
        assert!(!ev.frames.is_empty());
    }
}

// Bundle

fn open_policy() -> PathPolicy {
    PathPolicy { allowed: vec!["/tmp".to_string()], restricted: true }
}

fn no_file() -> PathFacts {
    PathFacts {
        exists: false,
        canonical: Err("none".to_string()),
        parent_exists: false,
        canonical_parent: Err("none".to_string()),
        file_name: None,
        resolved_exists: false,
        resolved_is_file: false,
    }
}

fn writer() -> BundleWriter {
    BundleWriter::create_at(
        "/tmp/bundle_t.jsonl",
        "/data",
        "/tmp",
        &open_policy(),
        &no_file(),
        &Vec::new(),
        0,
    )
    .unwrap()
}

fn event(ts: u64, job_id: &str) -> WalEvent {
    WalEvent {
        ts,
        event_type: WalEventType::ObserveBatch,
        job_id: job_id.to_string(),
        ..Default::default()
    }
}

fn encode(e: &WalEvent) -> Vec<u8> {
    format!("{}|{}|{}|{:?}|{:?}", e.seq, e.ts, e.job_id, e.mono_ns, e.output).into_bytes()
}

fn copy(e: &WalEvent) -> WalEvent {
    WalEvent {
        seq: e.seq,
        ts: e.ts,
        event_type: e.event_type,
        job_id: e.job_id.clone(),
        output: e.output.clone(),
        bundle_hash: e.bundle_hash.clone(),
        mono_ns: e.mono_ns,
        wall_ns: e.wall_ns,
        ..Default::default()
    }
}

fn flush(w: &mut BundleWriter, written: &mut Vec<WalEvent>, now: u64) {
    let marker = w.lone_marker(at(now));
    let encoded: Vec<Vec<u8>> = w.pending().iter().chain(marker.iter()).map(encode).collect();
    if let Some(hash) = w.flush_batch(&encoded, at(now)) {
        for e in w.pending() {
            written.push(copy(e));
        }
        w.flushed(hash, now);
    }
}

fn read_back(written: Vec<WalEvent>) -> VerifyResult {
    let encoded = written.iter().map(encode).collect();
    verify_bundle(&Ok(BundleContent { events: written, encoded }))
}

#[test]
fn bundle_round_trip() {
    let mut w = writer();
    let mut written = Vec::new();
    for i in 0..10u64 {
        assert!(!w.append(event(1000 + i, &format!("job-{i}")), at(i + 1)));
    }
    flush(&mut w, &mut written, 20);
    assert_eq!(written.len(), 10);
    for ev in &written {
        assert!(ev.bundle_hash.is_some());
        assert!(ev.mono_ns.is_some());
        assert!(ev.wall_ns.is_some());
    }
    let v = read_back(written);
    assert_eq!(v.total, 10);
    assert!(v.hash_ok, "hash chain should verify");
    assert_eq!(v.truncated_gaps, 0);
    assert!(v.error.is_none());
}

#[test]
fn bundle_batches_are_linked() {
    let mut w = writer();
    let mut written = Vec::new();
    for i in 0..600u64 {
        if w.append(event(1000 + i, &format!("job-{i}")), at(i + 1)) {
            flush(&mut w, &mut written, i + 1);
        }
    }
    flush(&mut w, &mut written, 700);
    assert_eq!(written.len(), 600);
    assert_ne!(written[0].bundle_hash, written[256].bundle_hash);
    let v = read_back(written.iter().map(copy).collect());
    assert!(v.hash_ok);
    assert_eq!(v.truncated_gaps, 0);
    let mut tampered: Vec<WalEvent> = written.iter().map(copy).collect();
    tampered[300].job_id = "other".to_string();
    assert!(!read_back(tampered).hash_ok);
    let mut shortened: Vec<WalEvent> = written.iter().map(copy).collect();
    shortened.remove(300);
    assert_eq!(read_back(shortened).truncated_gaps, 1);
    let (path, content) = w.checkpoint();
    assert_eq!(path, "/tmp/bundle_t.jsonl.checkpoint");
    assert_eq!(content, format!("600 {}\n", written[599].bundle_hash.as_ref().unwrap()));
}

#[test]
fn bundle_truncate_to_truncated() {
    let mut w = writer();
    let mut written = Vec::new();
    for i in 0..5u64 {
        w.append(event(2000 + i, &format!("j{i}")), at(i + 1));
    }
    w.record_drop();
    w.record_drop();
    assert_eq!(w.dropped(), 2);
    flush(&mut w, &mut written, 10);
    assert_eq!(written.last().unwrap().event_type, WalEventType::ObserveTruncated);
    assert_eq!(member(written.last().unwrap(), "dropped"), "2");
    assert_eq!(w.dropped(), 0);
    let v = read_back(written);
    assert!(v.hash_ok);
}

#[test]
fn bundle_drops_are_marked_though_no_event_waits() {
    let mut w = writer();
    let mut written = Vec::new();
    w.append(event(2000, "a"), at(1));
    flush(&mut w, &mut written, 2);
    assert!(w.lone_marker(at(3)).is_none());
    assert!(w.flush_batch(&Vec::new(), at(3)).is_none());
    w.record_drop();
    w.record_drop();
    w.record_drop();
    let marker = w.lone_marker(at(4)).unwrap();
    assert!(marker.bundle_hash.is_none());
    assert_eq!(marker.seq, 1);
    flush(&mut w, &mut written, 4);
    assert_eq!(written.len(), 2);
    assert_eq!(written[1].event_type, WalEventType::ObserveTruncated);
    assert_eq!(written[1].job_id, "bundle");
    assert_eq!(written[1].seq, 1);
    assert_eq!(member(&written[1], "dropped"), "3");
    assert_ne!(written[0].bundle_hash, written[1].bundle_hash);
    assert_eq!(w.dropped(), 0);
    w.append(event(2001, "b"), at(5));
    flush(&mut w, &mut written, 6);
    assert_eq!(written[2].seq, 2);
    let v = read_back(written.iter().map(copy).collect());
    assert_eq!(v.total, 3);
    assert!(v.hash_ok);
    assert_eq!(v.truncated_gaps, 0);
    written[1].ts = 77;
    assert!(!read_back(written).hash_ok, "the hash of a lone marker is over the marker");
}

#[test]
fn bundle_hashes_are_left_out_of_what_they_are_over() {
    let mut e = event(1, "j");
    e.seq = 4;
    e.bundle_hash = Some("abc".to_string());
    let bare = without_hash(e);
    assert!(bare.bundle_hash.is_none());
    assert_eq!((bare.seq, bare.ts, bare.job_id.as_str()), (4, 1, "j"));
    assert!(writer().has_room());
}

#[test]
fn bundle_path_never_wal_jsonl() {
    let p = bundle_path("test123", "/data");
    assert!(!p.ends_with("wal.jsonl"));
    assert!(p.contains("bundles"));
    assert_eq!(p, "/data/bundles/test123.jsonl");
    assert!(bundle_path_refused("wal.jsonl", "/data"));
    assert!(bundle_path_refused("wal", "/data"));
    assert!(!bundle_path_refused("test123", "/data"));
}

#[test]
fn verify_seq_gap_counts_truncated() {
    let mut ev0 = event(1, "a");
    ev0.seq = 0;
    ev0.bundle_hash = Some("0".repeat(64));
    let mut ev2 = event(2, "b");
    ev2.seq = 2;
    ev2.bundle_hash = Some("0".repeat(64));
    let v = read_back(vec![ev0, ev2]);
    assert_eq!(v.truncated_gaps, 1);
    assert!(!v.hash_ok);
    let v = verify_bundle(&Err("unreadable".to_string()));
    assert!(v.error.is_some());
    assert_eq!(v.total, 0);
}

#[test]
fn bundle_mono_ns_strictly_increasing() {
    let mut w = writer();
    let mut written = Vec::new();
    w.append(event(4000, "mono-0"), at(5));
    flush(&mut w, &mut written, 6);
    w.append(event(4001, "mono-1"), at(2_000_005));
    flush(&mut w, &mut written, 2_000_006);
    assert!(written[1].mono_ns.unwrap() > written[0].mono_ns.unwrap());
    assert_eq!(written[1].seq, written[0].seq + 1);
}

#[test]
fn checkpoint_preserves_extension() {
    assert_eq!(BundleWriter::checkpoint_path("/tmp/b.jsonl"), "/tmp/b.jsonl.checkpoint");
    let mut w = writer();
    assert!(!w.maybe_checkpoint(4_999_999_999));
    assert!(w.maybe_checkpoint(5_000_000_000));
    w.checkpointed(5_000_000_000);
    assert!(!w.maybe_checkpoint(5_000_000_001));
    w.append(event(1, "a"), at(1));
    assert!(!w.maybe_flush_time(99_999_999));
    assert!(w.maybe_flush_time(100_000_000));
}

#[test]
fn bundle_goes_on_behind_what_is_there() {
    let mut held = event(1, "a");
    held.seq = 41;
    let mut w = BundleWriter::create_at(
        "/tmp/bundle_t.jsonl",
        "/data",
        "/tmp",
        &open_policy(),
        &no_file(),
        &vec![held],
        0,
    )
    .unwrap();
    w.append(event(2, "b"), at(1));
    assert_eq!(w.pending()[0].seq, 42);
    let refused = BundleWriter::create_at(
        "/etc/x.jsonl",
        "/data",
        "/tmp",
        &open_policy(),
        &no_file(),
        &Vec::new(),
        0,
    );
    match refused {
        Err(m) => assert_eq!(
            m,
            "bundle path invalid: path outside allowed directories: /etc/x.jsonl"
        ),
        Ok(_) => panic!("a bundle may not lie anywhere"),
    }
    let w = BundleWriter::create("r1", "/data", &open_policy(), &no_file(), &Vec::new(), 0).unwrap();
    assert_eq!(w.path(), "/data/bundles/r1.jsonl");
}

// Supervisor

fn budget_state() -> BudgetState {
    BudgetState { state_dir: None, home: None, content: None }
}

fn supervisor(run_id: &str, dal: &str, pressure: &str) -> (ObserveSupervisor, WalEvent) {
    ObserveSupervisor::new(
        run_id,
        50,
        dal,
        1000,
        "/tmp/s.jsonl",
        guard(pressure),
        &budget_state(),
        4321,
        at(0),
    )
}

#[test]
fn supervisor_new_uses_llmosafe_new() {
    // The guard that a supervisor is given decides whether it samples.
    let (mut low, _) = supervisor("r", "A", "10");
    assert!(low.gated_tick(0, || (stack(), at(1)), at(1)).unwrap().sample.is_some());
    let (mut high, _) = supervisor("r", "A", "95");
    assert!(high.gated_tick(0, || (stack(), at(1)), at(1)).unwrap().sample.is_none());
}

#[test]
fn supervisor_emits_started_and_suspended() {
    let (mut sup, started) = supervisor("started-suspended", "A", "10");
    assert_eq!(started.event_type, WalEventType::ObserveStarted);
    assert_eq!(started.job_id, "started-suspended");
    sup.inject_drop_next();
    let tick = sup.gated_tick(0, || (stack(), at(1)), at(1)).unwrap();
    assert!(tick.sample.is_none(), "should be suspended (None)");
    let suspended: Vec<&WalEvent> = tick
        .event
        .iter()
        .filter(|e| e.event_type == WalEventType::ObserveSuspended)
        .collect();
    assert!(!suspended.is_empty(), "ObserveSuspended must be present after suspend");
    assert_eq!(suspended[0].job_id, "started-suspended");
}

#[test]
fn supervisor_gated_tick_via_guard() {
    let (mut sup, _) = supervisor("gated", "A", "10");
    assert!(sup.attach(77, 0, at(1)).is_ok());
    let res = sup.gated_tick(0, || (stack(), at(1)), at(1));
    assert!(res.is_ok(), "gated_tick should not error on healthy system: {:?}", res.err());
    assert_eq!(res.unwrap().sample.unwrap().pid, 77);
}

#[test]
fn supervisor_gated_tick_zero_uses_attach_start_time() {
    let (mut sup, _) = supervisor("stfb", "A", "10");
    let attach_pts = 12345u64;
    assert!(sup.attach(77, attach_pts, at(1)).is_ok());
    assert_eq!(sup.process_start_time(), attach_pts);
    let ev = sup.gated_tick(0, || (stack(), at(1)), at(1)).unwrap().sample.unwrap();
    assert_eq!(
        ev.process_start_time, attach_pts,
        "gated_tick(0) must use attach-captured start_time, not 0"
    );
    let ev = sup.gated_tick(9, || (stack(), at(2)), at(2)).unwrap().sample.unwrap();
    assert_eq!(ev.process_start_time, 9);
}

#[test]
fn supervisor_fans_out_what_a_tick_came_to() {
    let (mut sup, _) = supervisor("fan", "A", "10");
    assert!(sup.record(AuditKind::Import, "os".to_string(), 5).is_some());
    let mut s = OutOfProcessSampler::new(9, 50, 0);
    let sample = s.take(stack(), at(1), 0);
    let tick = sup.fan_out(sample, at(2));
    assert_eq!(tick.sample.unwrap().pid, 9);
    assert!(!tick.flush_first);
    assert!(tick.event.unwrap().job_id.starts_with("sample-"));
    let reported = sup.report(at(2));
    assert_eq!(reported.len(), 1);
    assert_eq!(member(&reported[0], "target"), "\"os\"");
    assert!(sup.report(at(2)).is_empty());
    assert_eq!(*sup.watermark(), BundleWatermark::Complete);
    let tick = sup.fan_out(None, at(3));
    assert!(tick.sample.is_none());
    assert!(tick.flush_first);
    assert_eq!(tick.event.unwrap().event_type, WalEventType::ObserveSuspended);
    assert_eq!(*sup.watermark(), BundleWatermark::Truncated);
}

#[test]
fn supervisor_keeps_what_was_audited_where_the_bundle_fails() {
    let (mut sup, _) = supervisor("lost", "A", "10");
    sup.record(AuditKind::Import, "os".to_string(), 5).unwrap();
    let tick = sup.gated_tick(0, || (stack(), at(1)), at(1)).unwrap();
    // The sample cannot be written: what was audited waits for a later tick.
    let (event, error) = sup.append_failed(tick.sample.is_some(), "no space", at(2));
    assert_eq!(error, "bundle append failed (disk-full): no space");
    let event = event.unwrap();
    assert_eq!(event.event_type, WalEventType::ObserveTruncated);
    assert_eq!(member(&event, "failure"), "\"disk-full\"");
    assert_eq!(*sup.watermark(), BundleWatermark::Incomplete);
    assert_eq!(sup.audit_hook().len(), 1);
    let tick = sup.gated_tick(0, || (stack(), at(3)), at(3)).unwrap();
    assert!(tick.event.is_some());
    assert_eq!(sup.report(at(3)).len(), 1);
    assert_eq!(sup.audit_hook().len(), 0);
    // An event that is no sample leaves no mark of its own.
    let (mut sup, _) = supervisor("other", "A", "10");
    let (event, error) = sup.append_failed(false, "no space", at(2));
    assert!(event.is_none());
    assert_eq!(error, "no space");
    assert_eq!(*sup.watermark(), BundleWatermark::Complete);
}

#[test]
fn supervisor_goes_by_the_pinned_pressure_as_it_stands() {
    let (mut sup, _) = supervisor("repin", "A", "95");
    assert!(sup.has_room());
    assert!(sup.gated_tick(0, || (stack(), at(1)), at(1)).unwrap().sample.is_none());
    sup.repin(&Some("10".to_string()));
    assert!(sup.gated_tick(0, || (stack(), at(2)), at(2)).unwrap().sample.is_some());
    let mut g = guard("10");
    assert!(g.check().is_ok());
    g.repin(&Some("81".to_string()));
    assert!(g.check().is_err());
    assert_eq!(g.effective_pressure(), 81);
    g.repin(&Some("101".to_string()));
    assert!(g.effective_pressure() <= 100);
}

#[test]
fn supervisor_collects_until_ticks_deadline_or_stop() {
    let (mut sup, _) = supervisor("until", "A", "10");
    assert!(sup.goes_on(0, 2, 5, 10));
    assert!(sup.goes_on(1, 2, 9, 10));
    assert!(!sup.goes_on(2, 2, 5, 10));
    assert!(!sup.goes_on(0, 2, 10, 10));
    sup.stop();
    assert!(!sup.goes_on(0, 2, 5, 10));
    // 50 samples per second are 20 milliseconds apart; a slower sampler still naps 50 at most.
    assert_eq!(sup.nap_us(), 20_000);
    let (slow, _) =
        ObserveSupervisor::new("s", 2, "A", 1000, "/tmp/s.jsonl", guard("10"), &budget_state(), 1, at(0));
    assert_eq!(slow.nap_us(), 50_000);
}

#[test]
fn supervisor_attach_rejects_pid_zero() {
    let (mut sup, _) = supervisor("attach-zero", "A", "10");
    let refused = sup.attach(0, 0, at(1)).expect_err("attach(0) must be rejected (default-deny)");
    assert!(refused.error.contains("PID 0"), "typed error must name PID 0, got: {}", refused.error);
    assert_eq!(refused.event.event_type, WalEventType::ObserveTruncated);
    assert!(member(&refused.event, "error").contains("PID 0"));
    assert!(
        sup.attach(77, 0, at(1)).is_ok(),
        "valid pid must attach cleanly after attach(0) rejection"
    );
}

#[test]
fn supervisor_honest_mark_dal_a_incomplete_dal_e_truncated() {
    let (mut sup_a, _) = supervisor("honest-a", "A", "10");
    let (wm_a, event_a) = sup_a.on_failure(CollectorFailure::PressureSpike, at(1));
    assert_eq!(wm_a, BundleWatermark::Incomplete, "DAL A must Halt => Incomplete");
    assert_eq!(member(&event_a, "decision"), "\"Halt\"");
    let (mut sup_e, _) = supervisor("honest-e", "E", "10");
    let (wm_e, _) = sup_e.on_failure(CollectorFailure::PressureSpike, at(1));
    assert_eq!(wm_e, BundleWatermark::Truncated, "DAL E must Proceed => Truncated with markers");
    let done = sup_e.finalize(at(5_000_000));
    assert_eq!(done.event_type, WalEventType::ObserveCompleted);
    assert_eq!(member(&done, "elapsed_ms"), "5");
}

#[test]
fn supervisor_target_never_signalled_on_failure() {
    let (mut sup, _) = supervisor("never-kill", "A", "10");
    for f in [
        CollectorFailure::CollectorKilled,
        CollectorFailure::DiskFull,
        CollectorFailure::ClockSkew,
        CollectorFailure::Restart,
        CollectorFailure::PressureSpike,
    ] {
        let (_, event) = sup.on_failure(f, at(1));
        assert!(member(&event, "note").contains("target never signalled"));
        assert_eq!(*sup.watermark(), BundleWatermark::Incomplete);
    }
}

#[test]
fn supervisor_channels_inside_collector() {
    // What one supervisor records does not reach another.
    let (mut a, _) = supervisor("a", "A", "10");
    let (b, _) = supervisor("b", "A", "10");
    a.record(AuditKind::Import, "os".to_string(), 1).unwrap();
    assert_eq!(a.audit_hook().len(), 1);
    assert_eq!(b.audit_hook().len(), 0);
    // A tick fans out to both: the sample and what was audited go to the bundle.
    let tick = a.gated_tick(0, || (stack(), at(1)), at(1)).unwrap();
    assert!(tick.event.unwrap().job_id.starts_with("sample-"));
    assert!(a.report(at(1)).iter().any(|e| e.job_id.starts_with("audit-")));
    assert_eq!(a.audit_hook().len(), 0);
}

#[test]
fn dal_consistency_a_to_e() {
    let proceed_decision = || SafetyDecision::Proceed;
    let warn_decision = || SafetyDecision::Warn("test warning".to_string());

    let dals = [
        DesignAssuranceLevel::A,
        DesignAssuranceLevel::B,
        DesignAssuranceLevel::C,
        DesignAssuranceLevel::D,
        DesignAssuranceLevel::E,
    ];

    let dal_decisions: Vec<_> = dals.iter().map(|&dal| (dal, dal_decision_for(dal))).collect();

    assert_eq!(dal_decisions[0].1, DalDecision::Halt, "DAL A must map to Halt (strictest)");
    assert_eq!(
        dal_decisions[4].1,
        DalDecision::Proceed,
        "DAL E must map to Proceed (most permissive)"
    );

    let a_result = apply_dal_to_decision(DesignAssuranceLevel::A, proceed_decision());
    let e_result = apply_dal_to_decision(DesignAssuranceLevel::E, proceed_decision());

    assert!(
        matches!(a_result, SafetyDecision::Proceed),
        "DAL A must preserve raw decision"
    );
    assert!(
        matches!(e_result, SafetyDecision::Proceed),
        "DAL E must force Proceed (most permissive)"
    );

    let c_result = apply_dal_to_decision(DesignAssuranceLevel::C, warn_decision());
    let d_result = apply_dal_to_decision(DesignAssuranceLevel::D, warn_decision());
    assert_eq!(
        c_result.show(),
        d_result.show(),
        "DAL C and D must produce equally strict outcomes"
    );

    let b_result = apply_dal_to_decision(DesignAssuranceLevel::B, warn_decision());
    assert!(
        matches!(b_result, SafetyDecision::Warn(_)),
        "DAL B must preserve Warn for Warn input"
    );

    let strictness = |d: DalDecision| match d {
        DalDecision::Halt => 2,
        DalDecision::Degraded => 1,
        DalDecision::Proceed => 0,
    };
    for i in 0..dals.len() - 1 {
        assert!(
            strictness(dal_decision_for(dals[i])) >= strictness(dal_decision_for(dals[i + 1])),
            "a stricter level must not be more permissive"
        );
    }
}

#[test]
fn supervisor_pressure_routing() {
    let (mut sup_low, _) = supervisor("pressure-low", "A", "10");
    assert!(sup_low.attach(77, 0, at(1)).is_ok());
    let low = sup_low.gated_tick(0, || (stack(), at(1)), at(1)).unwrap();
    assert!(low.sample.is_some(), "low pressure must produce samples (Some)");
    assert!(
        !low.event.iter().any(|e| e.event_type == WalEventType::ObserveSuspended),
        "low pressure must NOT produce ObserveSuspended"
    );
    let (mut sup_high, _) = supervisor("pressure-high", "A", "10");
    assert!(sup_high.attach(77, 0, at(1)).is_ok());
    sup_high.inject_drop_next();
    let high = sup_high.gated_tick(0, || (stack(), at(1)), at(1)).unwrap();
    assert!(high.sample.is_none(), "high pressure must produce suspension (None)");
    assert!(
        high.event.iter().any(|e| e.event_type == WalEventType::ObserveSuspended),
        "high pressure MUST produce ObserveSuspended marker"
    );
}

#[test]
fn supervisor_keeps_its_run() {
    let (mut sup, _) = supervisor("kept", "c", "10");
    assert_eq!(sup.run_id(), "kept");
    assert_eq!(sup.bundle_path(), "/tmp/s.jsonl");
    assert_eq!(sup.sampler_rate_hz(), 50);
    assert_eq!(sup.sampler_interval(), 20_000);
    assert_eq!(*sup.watermark(), BundleWatermark::Complete);
    assert!(!sup.is_stopped());
    sup.stop();
    assert!(sup.is_stopped());
    sup.set_process_start_time(8);
    assert_eq!(sup.process_start_time(), 8);
    let env = Environment { dal: Some("b".to_string()), ..Default::default() };
    let config = RuntimoConfig::unset();
    assert_eq!(ObserveSupervisor::resolve_dal(Some("d"), &config, &env), "D");
    assert_eq!(ObserveSupervisor::resolve_dal(Some(""), &config, &env), "B");
    assert_eq!(ObserveSupervisor::resolve_dal(None, &config, &Environment::default()), "E");
}

#[test]
fn start_time_is_field_22() {
    let stat = "77 (a (b) c) S 1 2 3 4 5 6 7 8 9 10 11 12 13 14 15 16 17 18 98765 20 21";
    assert_eq!(
        ObserveSupervisor::read_proc_starttime(77, &Ok(stat.to_string())),
        Ok(98765)
    );
    assert!(ObserveSupervisor::read_proc_starttime(77, &Ok("77 no bracket".to_string())).is_err());
    assert!(ObserveSupervisor::read_proc_starttime(77, &Ok("77 (x) S 1".to_string())).is_err());
    let bad = stat.replace("98765", "x");
    assert_eq!(
        ObserveSupervisor::read_proc_starttime(77, &Ok(bad)),
        Err("failed to parse starttime in /proc/77/stat: invalid digit found in string".to_string())
    );
    assert_eq!(
        ObserveSupervisor::read_proc_starttime(77, &Err("gone".to_string())),
        Err("failed to read /proc/77/stat: gone".to_string())
    );
}

// Self-test

fn tampered() -> VerifyResult {
    let mut w = writer();
    let mut written = Vec::new();
    for (i, e) in tamper_events().into_iter().enumerate() {
        w.append(e, at(i as u64 + 1));
    }
    flush(&mut w, &mut written, 9);
    written[1].job_id = "T1".to_string();
    read_back(written)
}

#[test]
fn self_test_fixtures_pass_on_healthy() {
    let (mut sup, _) = supervisor("self-test", "A", "10");
    let sampling = SelfTestCheck { name: "sampling", passed: true, detail: "ok".to_string() };
    let cs = checks(Ok(&mut sup), 77, sampling, &Ok(tampered()), at(1));
    for c in &cs {
        assert!(c.passed, "self-test check failed: {} — {}", c.name, c.detail);
    }
    let report = run(&cs);
    assert_eq!(report.code, 0, "run() should exit 0 on healthy");
    assert_eq!(report.lines.last().unwrap().1, "observe self-test: ok (4 checks)");
    let failing = vec![SelfTestCheck { name: "x", passed: false, detail: "y".to_string() }];
    let report = run(&failing);
    assert_eq!(report.code, 1);
    assert_eq!(report.lines[0].1, "FAIL x — y");
}

#[test]
fn self_test_tamper_corrupt_byte_is_detected() {
    let c = tamper_detection(&tampered());
    assert!(c.passed, "tamper check must pass: {}", c.detail);
    let sound = VerifyResult { total: 3, truncated_gaps: 0, hash_ok: true, error: None };
    assert!(!tamper_detection(&sound).passed);
}

#[test]
fn self_test_dal_a_never_complete_on_drop() {
    let (mut sup, _) = supervisor("self-test-a", "A", "10");
    let c = dal_a_gate(&mut sup, 77, at(1));
    assert!(c.passed, "DAL-A gate must be Incomplete: {}", c.detail);
    assert!(!c.detail.contains("COMPLETE") || c.detail.contains("never COMPLETE"));
    assert_eq!(*sup.watermark(), BundleWatermark::Incomplete);
    assert!(fixture_a_exactness(5).passed);
}

#[test]
fn self_test_sampling_is_judged() {
    let mut tally = Tally::new();
    let mut s = OutOfProcessSampler::new(77, 50, 0);
    let budget = ObserveBudget::new_with_path(30, 1, None, &None, 0, 0);
    for i in 0..10 {
        let pressure = if i < 5 { "10" } else { "95" };
        tally.count(&s.gated_tick(&guard(pressure), &budget, || (stack(), at(1)), 0));
    }
    assert_eq!(tally, Tally { got: 5, covered: true });
    let rate = ObservedRate {
        hz: 50,
        within: false,
        observed: "16.5".to_string(),
        low: "45.0".to_string(),
        high: "55.0".to_string(),
    };
    let c = fixture_b_sampling_bounds(&tally, 10, &rate, 0);
    assert!(c.passed);
    assert_eq!(c.detail, "hz=50 observed=16.5 got 5/10 coverage=true within bounds");
    let few = Tally { got: 4, covered: true };
    let c = fixture_b_sampling_bounds(&few, 10, &rate, 0);
    assert!(!c.passed);
    assert_eq!(c.detail, "hz=50 observed=16.5 got 4/10 coverage=true out of [45.0,55.0]");
    let c = unable("DAL-A gate", "supervisor create", "no disk");
    assert_eq!(c.detail, "supervisor create failed: no disk");
}

#[test]
fn self_test_fails_what_could_not_be_made() {
    let sampling = || SelfTestCheck { name: "sampling", passed: true, detail: "ok".to_string() };
    let none = Err(NoBundle::NotRead("gone".to_string()));
    let cs = checks(Err("no disk".to_string()), 77, sampling(), &none, at(1));
    assert_eq!(cs.len(), 4);
    assert!(cs[0].passed && cs[1].passed && !cs[2].passed && !cs[3].passed);
    assert_eq!((cs[2].name, cs[2].detail.as_str()), ("DAL-A gate", "supervisor create failed: no disk"));
    assert_eq!((cs[3].name, cs[3].detail.as_str()), ("tamper detection", "read bundle failed: gone"));
    let (mut sup, _) = supervisor("self-test", "A", "10");
    let none = Err(NoBundle::NotCreated("full".to_string()));
    let cs = checks(Ok(&mut sup), 77, sampling(), &none, at(1));
    assert!(cs[2].passed);
    assert_eq!(cs[3].detail, "bundle create failed: full");
    assert_eq!(run(&cs).code, 1);
}

#[test]
fn self_test_corrupts_the_middle() {
    let bytes: Vec<u8> = (0..21).collect();
    let bad = corrupt(bytes.clone());
    assert_eq!(bad[10], 10 ^ 0xff);
    assert_eq!(bad.iter().zip(&bytes).filter(|(a, b)| a != b).count(), 1);
    let few: Vec<u8> = (0..20).collect();
    assert_eq!(corrupt(few.clone()), few);
    assert_eq!(tamper_events()[2].job_id, "tamper-2");
}

#[test]
fn cut_frames_give_no_secret_away() {
    let mut long = "x".repeat(509);
    long.push_str("Bea");
    long.push_str(&"y".repeat(20));
    let ev = SampleEvent {
        seq: 3,
        pid: 9,
        mono_ns: 1,
        wall_ns: 2_000_000_000,
        frames: vec![long, format!("{} Api_Key", "z".repeat(600)), "plain".to_string()],
        truncated: false,
        error: Some("AUTH_TOKEN refused".to_string()),
        process_start_time: 0,
    };
    let event = ev.to_wal_event();
    assert_eq!(event.ts, 2);
    let json = event.output.unwrap().to_text();
    assert!(json.contains("Bea...[truncated]"));
    assert!(json.contains("plain"));
    assert_eq!(json.matches("REDACTED").count(), 2);
    for secret in ["api_key", "auth_token", "bearer"] {
        assert!(!json.to_lowercase().contains(secret));
    }
}

#[test]
fn default_budget_is_half_a_minute() {
    let state_dir = Some("/var/state".to_string());
    let b = ObserveBudget::default_budget(&state_dir, &None, &None, 1000, 50_000_000_000);
    assert_eq!(b.persist_path(), observe_budget_path(&state_dir, &None).as_ref());
    assert!(!b.is_in_cooldown(50_000_000_000));
    let kept = Some("1000".to_string());
    let b = ObserveBudget::default_budget(&state_dir, &None, &kept, 1000, 50_000_000_000);
    assert!(b.is_in_cooldown(50_000_000_000));
    assert!(!b.is_in_cooldown(51_000_000_000));
}
