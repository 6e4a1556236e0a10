use runtimo_core::monitor::{
    size_parts, HealthAlert, HealthMonitor, HealthState, Reading, SizeUnit, CPU_THRESHOLD,
};
use runtimo_core::processes::Percent;

fn percent(value: f32) -> Percent {
    Percent { rank: value.to_bits() as i32, text: format!("{:.1}", value) }
}

fn reading(cpu: f32, ram: f32, zombies: usize) -> Reading {
    Reading {
        timestamp: 1,
        cpu_percent: percent(cpu),
        ram_percent: percent(ram),
        zombie_count: zombies,
        process_count: 10,
        top_cpu_process: Some("a".to_string()),
        top_mem_process: None,
    }
}

#[test]
fn test_health_monitor_lifecycle() {
    let mut monitor = HealthMonitor::start();
    assert!(monitor.is_running());
    monitor.stop();
    assert!(!monitor.is_running());
}

#[test]
fn test_health_state_defaults() {
    let state = HealthState::default();
    assert_eq!(state.cpu_alert_count, 0);
    assert_eq!(state.ram_alert_count, 0);
    assert!(!state.ram_increasing);
    assert!(state.last_ram_percent.is_none());
}

#[test]
fn threshold_is_ninety_percent() {
    assert_eq!(CPU_THRESHOLD, 90.0f32.to_bits() as i32);
}

#[test]
fn test_cpu_alert_after_consecutive_checks() {
    let mut monitor = HealthMonitor::start();
    for i in 0..5 {
        assert_eq!(monitor.alerts().len(), 0);
        assert_eq!(monitor.health().cpu_alert_count, i);
        monitor.check(reading(95.0, 10.0, 0));
    }
    assert_eq!(monitor.health().cpu_alert_count, 5);
    assert_eq!(monitor.alerts().len(), 1);
    assert_eq!(monitor.alerts()[0].message(), "CPU usage: 95.0% for 5 minutes");
    monitor.check(reading(90.0, 10.0, 0));
    assert_eq!(monitor.health().cpu_alert_count, 0);
    assert_eq!(monitor.alerts().len(), 1);
}

#[test]
fn test_ram_alert_uses_ram_counter_not_cpu() {
    let mut monitor = HealthMonitor::start();
    monitor.check(reading(10.0, 50.0, 0));
    for i in 0..5 {
        monitor.check(reading(10.0, 50.0 + (i as f32 + 1.0), 0));
    }
    let state = monitor.health();
    assert_eq!(state.ram_alert_count, 5);
    assert_eq!(state.cpu_alert_count, 0);
    assert!(state.ram_increasing);
    assert_eq!(monitor.alerts().len(), 1);
    assert_eq!(monitor.alerts()[0].message(), "Memory leak detected: 55.0% RAM");
}

#[test]
fn test_ram_alert_resets_when_ram_decreases() {
    let mut monitor = HealthMonitor::start();
    monitor.check(reading(10.0, 50.0, 0));
    monitor.check(reading(10.0, 52.0, 0));
    monitor.check(reading(10.0, 55.0, 0));
    assert_eq!(monitor.health().ram_alert_count, 2);
    monitor.check(reading(10.0, 40.0, 0));
    let state = monitor.health();
    assert_eq!(state.ram_alert_count, 0);
    assert!(!state.ram_increasing);
    assert_eq!(state.last_ram_percent.unwrap().text, "40.0");
}

#[test]
fn zombies_are_reported_at_once() {
    let mut monitor = HealthMonitor::start();
    monitor.check(reading(1.0, 1.0, 10));
    assert!(monitor.alerts().is_empty());
    monitor.check(reading(1.0, 1.0, 11));
    match &monitor.alerts()[0] {
        HealthAlert::ZombieCount { count, threshold } => {
            assert_eq!((*count, *threshold), (11, 10));
        }
        _ => panic!("zombies must be reported"),
    }
    assert_eq!(monitor.alerts()[0].message(), "Zombie processes: 11 (threshold: 10)");
    assert_eq!(monitor.health().zombie_count, 11);
    assert_eq!(monitor.health().top_cpu_process.as_deref(), Some("a"));
}

#[test]
fn history_keeps_the_latest_hundred() {
    let mut monitor = HealthMonitor::start();
    for i in 0..150 {
        monitor.check(reading(1.0, 1.0, 11 + i));
    }
    let alerts = monitor.alerts();
    assert_eq!(alerts.len(), 100);
    assert_eq!(alerts[0].message(), "Zombie processes: 61 (threshold: 10)");
    assert_eq!(alerts[99].message(), "Zombie processes: 160 (threshold: 10)");
}

fn parse_size_value(size: &str) -> f32 {
    match size_parts(size) {
        Some((number, unit)) => {
            let v: f32 = number.parse().unwrap_or(0.0);
            match unit {
                SizeUnit::Gi | SizeUnit::Gb => v,
                SizeUnit::Mi => v / 1024.0,
                SizeUnit::Ki => v / (1024.0 * 1024.0),
                SizeUnit::Mb => v / 1000.0,
            }
        }
        None => 0.0,
    }
}

#[test]
fn test_parse_size_value() {
    assert!((parse_size_value("13Gi") - 13.0).abs() < 0.01);
    assert!((parse_size_value("512Mi") - 0.5).abs() < 0.01);
    assert_eq!(parse_size_value("invalid"), 0.0);
    assert_eq!(size_parts(" 16384MB "), Some(("16384".to_string(), SizeUnit::Mb)));
    assert_eq!(size_parts("1GiGi"), Some(("1".to_string(), SizeUnit::Gi)));
}
