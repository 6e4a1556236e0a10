use runtimo_core::processes::{
    format_size, parse_ps_line, percent_fields, truncate, Percent, ProcessCache, ProcessInfo,
    ProcessSnapshot,
};

fn percent(value: f32) -> Percent {
    Percent { rank: value.to_bits() as i32, text: format!("{:.1}", value) }
}

fn listed(line: &str) -> ProcessInfo {
    let (cpu, mem) = percent_fields(line).unwrap();
    parse_ps_line(line, percent(cpu.parse().unwrap()), percent(mem.parse().unwrap())).unwrap()
}

fn some_processes() -> Vec<ProcessInfo> {
    vec![
        listed("1 0 root 0.5 0.1 169000 13000 Ss Jan01 00:10:00 /sbin/init splash"),
        listed("42 1 alice 93.2 4.0 2048 1024 R 10:00 00:20 worker --fast"),
        listed("43 42 alice 0.0 12.5 0 0 Z 10:01 00:00 defunct"),
        listed("44 1 bob 93.2 4.0 x 512 S 10:02 00:01 other"),
    ]
}

fn snapshot() -> ProcessSnapshot {
    let mut cache = ProcessCache::new();
    ProcessSnapshot::capture(
        &mut cache,
        0,
        1_700_000_000,
        some_processes(),
        percent(186.9),
        percent(20.6),
    )
}

#[test]
fn test_process_snapshot() {
    let snapshot = snapshot();
    assert!(!snapshot.processes.is_empty());
    assert!(snapshot.summary.total_processes > 0);
    assert_eq!(snapshot.summary.total_processes, 4);
    assert_eq!(snapshot.summary.zombie_count, 1);
    // Of equal percentages the last process counts as the highest.
    assert_eq!(snapshot.summary.top_cpu_consumer.as_deref(), Some("other"));
    assert_eq!(snapshot.summary.top_mem_consumer.as_deref(), Some("defunct"));
}

#[test]
fn test_truncate_ascii() {
    assert_eq!(truncate("hello world", 8), "hello...");
    assert_eq!(truncate("short", 10), "short");
}

#[test]
fn test_truncate_multibyte_utf8() {
    let cjk = "你好世界这是一个很长的命令行参数";
    let result = truncate(cjk, 8);
    assert!(result.ends_with("..."));
    assert!(result.is_char_boundary(result.len()));
}

#[test]
fn test_format_size() {
    assert_eq!(format_size(0), "0K");
    assert_eq!(format_size(512), "512K");
    assert_eq!(format_size(1024), "1.0M");
    assert_eq!(format_size(1024 * 1024), "1.0G");
    assert_eq!(format_size(1024 * 512), "512.0M");
    assert_eq!(format_size(1024 * 1024 * 2), "2.0G");
}

#[test]
fn size_has_one_rounded_decimal() {
    assert_eq!(format_size(1025), "1.0M");
    assert_eq!(format_size(1126), "1.1M");
    assert_eq!(format_size(1536), "1.5M");
    for kb in [1024u64, 1100, 1331, 5000, 99_999, 1_048_575, 1_048_576, 3_333_333, 123_456_789] {
        let expected = if kb >= 1024 * 1024 {
            format!("{:.1}G", kb as f64 / 1024.0 / 1024.0)
        } else {
            format!("{:.1}M", kb as f64 / 1024.0)
        };
        assert_eq!(format_size(kb), expected);
    }
}

#[test]
fn test_process_vsz_rss_in_kb() {
    let snap = snapshot();
    for p in &snap.processes {
        assert!(
            p.vsz < 1_000_000_000,
            "vsz={}KB is unreasonably large for {}",
            p.vsz,
            p.command
        );
        assert!(
            p.rss < 100_000_000,
            "rss={}KB is unreasonably large for {}",
            p.rss,
            p.command
        );
    }
    assert_eq!(snap.processes[0].vsz, 169_000);
    assert_eq!(snap.processes[0].rss, 13_000);
    // A size that is no number counts as 0.
    assert_eq!(snap.processes[3].vsz, 0);
}

#[test]
fn lines_that_describe_no_process() {
    assert!(percent_fields("PID PPID USER %CPU %MEM VSZ RSS STAT START TIME COMMAND").is_none());
    assert!(percent_fields("1 0 root 0.5 0.1 169000 13000 Ss Jan01").is_none());
    assert!(parse_ps_line("x 0 r 0 0 1 1 S a b c", percent(0.0), percent(0.0)).is_none());
    let bare = listed("1 0 root 0.5 0.1 169000 13000 Ss Jan01 00:10:00");
    assert_eq!(bare.command, "");
    assert_eq!(bare.elapsed, "00:10:00");
}

#[test]
fn order_of_the_highest() {
    let snap = snapshot();
    let by_cpu = snap.top_by_cpu(3);
    assert_eq!(by_cpu.iter().map(|p| p.pid).collect::<Vec<u32>>(), vec![42, 44, 1]);
    let by_mem = snap.top_by_mem(9);
    assert_eq!(by_mem.iter().map(|p| p.pid).collect::<Vec<u32>>(), vec![43, 42, 44, 1]);
    let zombies = snap.zombies();
    assert_eq!(zombies.len(), 1);
    assert_eq!(zombies[0].pid, 43);
}

#[test]
fn listing_is_served_while_young() {
    let mut cache = ProcessCache::new();
    let first = ProcessSnapshot::capture(
        &mut cache,
        5,
        100,
        some_processes(),
        percent(1.0),
        percent(1.0),
    );
    assert!(cache.is_fresh(5 + 29_999_999_999));
    let second = ProcessSnapshot::capture(
        &mut cache,
        5 + 29_999_999_999,
        129,
        Vec::new(),
        percent(0.0),
        percent(0.0),
    );
    assert_eq!(first.timestamp, second.timestamp);
    assert_eq!(second.processes.len(), 4);
    assert!(!cache.is_fresh(5 + 30_000_000_000));
    let third = ProcessSnapshot::capture(
        &mut cache,
        5 + 30_000_000_000,
        130,
        Vec::new(),
        percent(0.0),
        percent(0.0),
    );
    assert_eq!(third.timestamp, 130);
    assert_eq!(third.processes.len(), 0);
    ProcessSnapshot::clear_cache(&mut cache);
    assert!(!cache.is_fresh(5 + 30_000_000_000));
}

#[test]
fn report_shows_sums_and_highest() {
    let lines = snapshot().report();
    assert_eq!(lines[2], " PROCESS SNAPSHOT [1700000000]");
    assert_eq!(lines[6], " Total Processes: 4");
    assert_eq!(lines[7], " Total CPU: 186.9%");
    assert_eq!(lines[9], " Zombies: 1");
    assert_eq!(lines[10], " Top CPU: other (93.2%)");
    assert_eq!(lines[11], " Top Memory: defunct (12.5%)");
    assert_eq!(lines[13], "--- TOP 10 BY CPU ---");
    assert_eq!(
        lines[14],
        " 1.     42 alice   93.2   4.0 2.0M     1.0M     \"R\" worker --fast"
    );
}
