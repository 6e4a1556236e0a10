use runtimo_core::telemetry::{
    detect_cloudflared, format_mem_kb, format_uptime, parse_meminfo_kb, read_listening_ports,
    AcceleratorInfo, HardwareInfo, HardwareReadings, NetworkInfo, NetworkReadings, SystemInfo,
    SystemReadings, Telemetry, TelemetryCache,
};

fn system_readings() -> SystemReadings {
    SystemReadings {
        cpuinfo: "processor\t: 0\nmodel name\t: AMD EPYC 7B13\nprocessor\t: 1\nmodel name\t: AMD EPYC 7B13\n".to_string(),
        meminfo: "MemTotal:       32768000 kB\nMemFree:         8000000 kB\nMemAvailable:   22000000 kB\n".to_string(),
        uptime_seconds: 93_784,
        loadavg: "0.50 0.25 0.10 1/300 12345\n".to_string(),
        disk_total: "100G".to_string(),
        disk_free: "40G".to_string(),
        disk_percent: "60%".to_string(),
    }
}

fn hardware_readings() -> HardwareReadings {
    HardwareReadings {
        tpu_count: "8".to_string(),
        nvidia_count: "4".to_string(),
        nvidia_model: "A100".to_string(),
        amd_count: "".to_string(),
        dri_count: "2".to_string(),
        jax_import: "".to_string(),
        jax_version: "".to_string(),
        jax_devices: "".to_string(),
    }
}

const TCP: &str = "  sl  local_address rem_address   st tx_queue rx_queue\n   0: 0100007F:1F90 00000000:0000 0A 00000000:00000000\n   1: 00000000:0016 00000000:0000 0A 00000000:00000000\n   2: 0100007F:0050 0100007F:9C40 01 00000000:00000000\n";
const TCP6: &str = "  sl  local_address rem_address   st tx_queue rx_queue\n   0: 00000000000000000000000000000000:0016 00000000000000000000000000000000:0000 0A 00000000:00000000\n   1: 00000000000000000000000000000000:01BB 00000000000000000000000000000000:0000 0A 00000000:00000000\n";

fn network_readings() -> NetworkReadings {
    NetworkReadings {
        public_ip_setting: None,
        public_ip_answer: "".to_string(),
        processes: Vec::new(),
        tcp: TCP.to_string(),
        tcp6: TCP6.to_string(),
    }
}

fn captured(cache: &mut TelemetryCache, now_ns: u64, timestamp: u64) -> Telemetry {
    Telemetry::capture(
        cache,
        now_ns,
        timestamp,
        SystemInfo::capture(&system_readings()),
        HardwareInfo::capture(&hardware_readings()),
        NetworkInfo::capture(&network_readings()),
    )
}

#[test]
fn test_telemetry_capture() {
    let mut cache = TelemetryCache::new();
    let telemetry = captured(&mut cache, 1, 1_700_000_000);
    assert!(telemetry.timestamp > 0, "timestamp must be positive");

    let s = &telemetry.system;
    assert!(!s.cpu_model.is_empty(), "cpu_model must not be empty");
    assert!(s.cpu_count > 0, "cpu_count must be > 0");
    assert!(!s.ram_total.is_empty(), "ram_total must not be empty");
    assert!(!s.ram_free.is_empty(), "ram_free must not be empty");
    assert!(!s.ram_available.is_empty(), "ram_available must not be empty");
    assert!(!s.disk_total.is_empty(), "disk_total must not be empty");
    assert!(s.uptime_seconds > 0, "uptime_seconds must be > 0");
    assert!(!s.load_average.is_empty(), "load_average must not be empty");

    let h = &telemetry.hardware;
    assert!(
        h.accelerators.iter().all(|a| !a.kind.is_empty()),
        "accelerator kind must not be empty"
    );
    assert!(h.accelerators.iter().all(|a| a.count > 0), "accelerator count must be > 0");

    let net = &telemetry.network;
    assert!(!net.public_ip.is_empty(), "public_ip must not be empty");
    assert_eq!(net.public_ip, "unknown", "public_ip should be 'unknown' by default");
    assert!(net.listening_ports.iter().all(|p| *p > 0), "all listening ports must be > 0");
}

#[test]
fn test_telemetry_cache_works() {
    let mut cache = TelemetryCache::new();
    let t1 = captured(&mut cache, 1_000, 1_700_000_000);
    let t2 = captured(&mut cache, 2_000, 1_700_000_001);
    assert_eq!(t1.timestamp, t2.timestamp, "cached telemetry should be identical");
    let t3 = captured(&mut cache, 1_000 + 30_000_000_000, 1_700_000_030);
    assert_eq!(t3.timestamp, 1_700_000_030);
}

#[test]
fn test_system_info_from_proc() {
    let sys = SystemInfo::capture(&system_readings());
    assert!(sys.cpu_count > 0, "cpu_count from /proc/cpuinfo");
    assert!(!sys.ram_available.is_empty(), "ram_available from /proc/meminfo MemAvailable");
    assert!(sys.uptime_seconds > 0, "uptime_seconds from /proc/uptime");
    assert!(
        sys.uptime.starts_with("up "),
        "uptime string should start with 'up ': got '{}'",
        sys.uptime
    );
    assert!(!sys.cpu_model.is_empty(), "cpu_model from /proc/cpuinfo model name");
    assert_eq!(sys.cpu_model, "AMD EPYC 7B13");
    assert_eq!(sys.cpu_count, 2);
    assert_eq!(sys.ram_total, "31Gi");
    assert_eq!(sys.load_average, "0.50, 0.25, 0.10");
    assert_eq!(sys.disk_used_percent, "60");
    assert_eq!(sys.uptime, "up 1 day, 2 hours, 3 minutes");
}

#[test]
fn test_cloudflared_detection() {
    let entries = vec![
        ("self".to_string(), "cloudflared\n".to_string()),
        ("17".to_string(), "pgrep\n".to_string()),
        ("23".to_string(), "cloudflared\n".to_string()),
        ("29".to_string(), "cloudflared\n".to_string()),
    ];
    let (running, pid) = detect_cloudflared(&entries);
    assert!(running);
    assert_eq!(pid, Some(23));
    let (running, pid) = detect_cloudflared(&Vec::new());
    assert!(!running || pid.is_some());
    assert!(!running);
    assert_eq!(pid, None);
}

#[test]
fn test_listening_ports() {
    let ports = read_listening_ports(TCP, TCP6);

    let mut uniq = ports.clone();
    uniq.dedup();
    assert_eq!(ports.len(), uniq.len(), "listening ports must have no duplicates");

    for w in ports.windows(2) {
        assert!(w[0] <= w[1], "listening ports must be sorted: {:?}", ports);
    }

    for &p in &ports {
        assert!(p > 0, "port 0 is not a valid listening port");
    }
    assert_eq!(ports, vec![22, 443, 8080]);
}

#[test]
fn test_format_mem_kb() {
    assert_eq!(format_mem_kb(512), "512Ki");
    assert_eq!(format_mem_kb(1024), "1Mi");
    assert_eq!(format_mem_kb(1536), "1Mi");
    assert_eq!(format_mem_kb(1048576), "1Gi");
    assert_eq!(format_mem_kb(2097152), "2Gi");
    assert_eq!(format_mem_kb(768000), "750Mi");
    assert_eq!(format_mem_kb(0), "0Ki");
}

#[test]
fn test_format_uptime() {
    assert!(format_uptime(0).contains("minute"), "zero uptime: {}", format_uptime(0));
    assert!(format_uptime(60).contains("1 minute"), "60s: {}", format_uptime(60));
    assert!(format_uptime(3600).contains("1 hour"), "3600s: {}", format_uptime(3600));
    assert!(format_uptime(86400).contains("1 day"), "86400s: {}", format_uptime(86400));
    assert!(format_uptime(12345).starts_with("up "), "uptime should start with 'up '");
}

#[test]
fn test_parse_meminfo_kb() {
    let sample = "MemTotal:       32768000 kB\nMemFree:         8000000 kB\nMemAvailable:   22000000 kB\n";
    assert_eq!(parse_meminfo_kb(sample, "MemTotal:"), 32_768_000);
    assert_eq!(parse_meminfo_kb(sample, "MemFree:"), 8_000_000);
    assert_eq!(parse_meminfo_kb(sample, "MemAvailable:"), 22_000_000);
    assert_eq!(parse_meminfo_kb(sample, "SwapTotal:"), 0);
    assert_eq!(parse_meminfo_kb("", "MemTotal:"), 0);
}

#[test]
fn test_accelerators_back_compat() {
    let hw = HardwareInfo {
        accelerators: vec![
            AcceleratorInfo {
                kind: "gpu".into(),
                count: 4,
                vendor: Some("nvidia".into()),
                model: Some("A100".into()),
            },
            AcceleratorInfo {
                kind: "tpu".into(),
                count: 8,
                vendor: Some("google".into()),
                model: None,
            },
        ],
        jax_available: false,
        jax_version: None,
        jax_device_count: None,
    };

    let total_tpu: usize =
        hw.accelerators.iter().filter(|a| a.kind == "tpu").map(|a| a.count).sum();
    let total_gpu: usize =
        hw.accelerators.iter().filter(|a| a.kind == "gpu").map(|a| a.count).sum();

    assert_eq!(total_tpu, 8, "total tpu should be 8");
    assert_eq!(total_gpu, 4, "total gpu should be 4");
}

#[test]
fn test_accelerators_empty_is_valid() {
    let hw = HardwareInfo {
        accelerators: vec![],
        jax_available: false,
        jax_version: None,
        jax_device_count: None,
    };

    assert!(hw.accelerators.is_empty());
}

#[test]
fn probes_name_the_accelerators() {
    let hw = HardwareInfo::capture(&hardware_readings());
    // Render devices count only where no vendor reported a GPU.
    assert_eq!(hw.accelerators.len(), 2);
    assert_eq!(hw.accelerators[0].kind, "tpu");
    assert_eq!(hw.accelerators[0].count, 8);
    assert_eq!(hw.accelerators[1].vendor.as_deref(), Some("nvidia"));
    assert_eq!(hw.accelerators[1].model.as_deref(), Some("A100"));
    let mut readings = hardware_readings();
    readings.tpu_count = "none".to_string();
    readings.nvidia_count = "0".to_string();
    let hw = HardwareInfo::capture(&readings);
    assert_eq!(hw.accelerators.len(), 1);
    assert_eq!(hw.accelerators[0].count, 2);
    assert_eq!(hw.accelerators[0].model.as_deref(), Some("drm-render"));
}

#[test]
fn report_shows_a_snapshot() {
    let mut cache = TelemetryCache::new();
    let lines = captured(&mut cache, 1, 1_700_000_000).report();
    assert_eq!(lines[2], " RUNTIMO TELEMETRY [1700000000]");
    assert_eq!(lines[6], " CPU   : AMD EPYC 7B13 (2 cores)");
    assert_eq!(lines[9], " Uptime: up 1 day, 2 hours, 3 minutes (93784s)");
    assert!(lines.contains(&" tpu: 8x unknown (google)".to_string()));
    assert!(lines.contains(&" gpu: 4x A100 (nvidia)".to_string()));
    assert!(lines.contains(&" Listening ports: 22, 443, 8080".to_string()));
    assert!(lines.contains(&" Tunnel: none".to_string()));
}
