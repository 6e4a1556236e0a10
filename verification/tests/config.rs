use runtimo_core::config::{
    unknown_keys, ConfigFile, Environment, GuardsConfig, ObserveConfig, RuntimoConfig, WalConfig,
};
use runtimo_core::template::{read_back, unknown_keys_in};

fn unset() -> RuntimoConfig {
    RuntimoConfig::unset()
}

fn no_env() -> Environment {
    Environment::default()
}

fn text(s: &str) -> Option<String> {
    Some(s.to_string())
}

#[test]
fn config_path_is_absolute() {
    for home in [None, text("/home/alice")] {
        for xdg in [None, text("/etc/xdg"), text("relative/path")] {
            assert!(RuntimoConfig::config_path(&xdg, &home).starts_with('/'));
        }
    }
}

#[test]
fn config_path_rejects_relative_xdg() {
    let path = RuntimoConfig::config_path(&text("relative/path"), &text("/home/alice"));
    assert!(path.starts_with('/'), "relative XDG_CONFIG_HOME must fall through, got {:?}", path);
    assert!(!path.contains("relative/path"), "relative base must not leak into {:?}", path);
    assert_eq!(path, "/home/alice/.config/runtimo/config.toml");
    assert_eq!(
        RuntimoConfig::config_path(&text("/etc/xdg"), &None),
        "/etc/xdg/runtimo/config.toml"
    );
    assert_eq!(RuntimoConfig::config_path(&None, &None), "/tmp/runtimo/config.toml");
}

#[test]
fn load_returns_defaults_when_no_file() {
    let config = RuntimoConfig::load("/c", ConfigFile::Missing);
    assert!(config.allowed_paths.is_empty());
    let config = RuntimoConfig::load("/c", ConfigFile::Malformed("torn".to_string()));
    assert!(config.allowed_paths.is_empty());
    let config = RuntimoConfig { allowed_paths: vec!["/srv".to_string()], ..unset() };
    assert_eq!(RuntimoConfig::load("/c", ConfigFile::Read(config)).allowed_paths, vec!["/srv"]);
}

#[test]
fn refused_files_say_why() {
    assert!(RuntimoConfig::load_result("/c", ConfigFile::Missing).is_ok());
    assert_eq!(
        RuntimoConfig::load_result("/c", ConfigFile::Unreadable("denied".to_string())).unwrap_err(),
        "Cannot read config file '/c': denied"
    );
    assert_eq!(
        RuntimoConfig::load_result("/c", ConfigFile::Malformed("torn".to_string())).unwrap_err(),
        "Cannot parse config file '/c': torn"
    );
}

#[test]
fn get_allowed_prefixes_includes_defaults_excludes_home() {
    let prefixes = unset().get_allowed_prefixes(&no_env());
    assert!(prefixes.iter().any(|p| p == "/tmp"));
    assert!(prefixes.iter().any(|p| p == "/var/tmp"));
    assert!(!prefixes.iter().any(|p| p == "/home"));
}

#[test]
fn env_var_prefers_config_env_over_process_env() {
    let config = RuntimoConfig {
        env: vec![("A".to_string(), "file".to_string())],
        ..unset()
    };
    assert_eq!(config.env_var("A", text("process")), text("file"));
    assert_eq!(config.env_var("B", text("process")), text("process"));
    assert_eq!(config.env_var("B", None), None);
    assert_eq!(config.env_map().len(), 1);
}

#[test]
fn unknown_top_level_key_ignored_but_loads() {
    let keys = vec!["allowed_paths".to_string(), "future".to_string(), "dal".to_string()];
    assert_eq!(unknown_keys(&keys), vec!["future"]);
    let content = "future = 1\ndal = \"A\"\n[wall]\nmode = \"batch\"\n[wal]\nx = 1\n";
    assert_eq!(unknown_keys_in(content).unwrap(), vec!["future", "wall"]);
    assert!(unknown_keys_in("this is {{{ not toml").unwrap_err().contains("TOML parse error"));
}

#[test]
fn templates_are_read_back() {
    for (name, profile) in
        [("ephemeral", "ephemeral"), ("SERVICE", "service"), ("minimal", "minimal"), ("x", "minimal")]
    {
        let content = RuntimoConfig::init_template(Some(name));
        assert_eq!(read_back(&content).unwrap().as_deref(), Some(profile));
        assert!(unknown_keys_in(&content).unwrap().is_empty());
    }
    assert_eq!(read_back("dal = \"A\"\n").unwrap(), None);
    assert_eq!(read_back("profile = 3\n").unwrap(), None);
    assert_eq!(read_back("[t]\nprofile = \"q\"\n").unwrap(), None);
    let twice = read_back("profile = \"a\"\nprofile = \"b\"\n").unwrap_err();
    assert!(twice.starts_with("generated config failed to parse: TOML parse error"));
}

#[test]
fn capability_timeout_reads_config() {
    let config = RuntimoConfig {
        capability_timeouts: vec![("ShellExec".to_string(), 7)],
        ..unset()
    };
    assert_eq!(config.get_capability_timeout("ShellExec", 30), 7);
    assert_eq!(config.get_capability_timeout("FileRead", 30), 30);
}

#[test]
fn defense_toggles_default_enabled() {
    assert!(unset().blocklist_enabled());
    assert!(unset().critical_files_enabled());
    assert!(unset().path_restriction_enabled());
    assert!(unset().path_sanitization_enabled());
}

#[test]
fn defense_toggles_can_be_disabled_via_config() {
    let config = RuntimoConfig {
        blocklist_enabled: Some(false),
        critical_files_enabled: Some(false),
        path_restriction_enabled: Some(false),
        path_sanitization_enabled: Some(false),
        ..unset()
    };
    assert!(!config.blocklist_enabled());
    assert!(!config.critical_files_enabled());
    assert!(!config.path_restriction_enabled());
    assert!(!config.path_sanitization_enabled());
}

#[test]
fn dal_config_file_value_is_case_insensitive() {
    let config = RuntimoConfig { dal: text("b"), ..unset() };
    assert_eq!(config.get_dal(&no_env()), "B", "config dal = \"b\" must resolve to uppercase B");
}

#[test]
fn dal_env_var_value_is_case_insensitive() {
    let env = Environment { dal: text("e"), ..no_env() };
    assert_eq!(unset().get_dal(&env), "E", "RUNTIMO_DAL=e must resolve to uppercase E");
}

fn template(profile: &str) -> toml::Table {
    RuntimoConfig::init_template(Some(profile)).parse().expect("template must parse")
}

#[test]
fn init_template_roundtrip_minimal() {
    assert_eq!(template("minimal")["profile"].as_str(), Some("minimal"));
    assert_eq!(RuntimoConfig::init_template(None), RuntimoConfig::init_template(Some("MINIMAL")));
}

#[test]
fn init_template_roundtrip_ephemeral() {
    let t = template("ephemeral");
    assert_eq!(t["profile"].as_str(), Some("ephemeral"));
    assert_eq!(t["output"]["format"].as_str(), Some("json"));
    assert_eq!(t["output"]["renderer"].as_str(), Some("plain"));
    assert_eq!(t["backup"]["enabled"].as_bool(), Some(false));
    assert_eq!(t["wal"]["mode"].as_str(), Some("batch"));
    assert_eq!(t["guards"]["dal"].as_str(), Some("E"));
    assert_eq!(t["guards"]["blocklist_enabled"].as_bool(), Some(false));
    assert_eq!(t["session"]["max_sessions"].as_integer(), Some(20));
    assert_eq!(t["session"]["timeout_secs"].as_integer(), Some(300));
    assert_eq!(t["session"]["on_limit"].as_str(), Some("continue"));
}

#[test]
fn init_template_roundtrip_service() {
    let t = template("service");
    assert_eq!(t["profile"].as_str(), Some("service"));
    assert_eq!(t["output"]["format"].as_str(), Some("human"));
    assert_eq!(t["output"]["renderer"].as_str(), Some("markdown"));
    assert_eq!(t["backup"]["enabled"].as_bool(), Some(true));
    assert_eq!(t["wal"]["mode"].as_str(), Some("always"));
    assert_eq!(t["guards"]["dal"].as_str(), Some("A"));
    assert_eq!(t["guards"]["blocklist_enabled"].as_bool(), Some(true));
    assert_eq!(t["session"]["max_sessions"].as_integer(), Some(100));
    assert_eq!(t["session"]["timeout_secs"].as_integer(), Some(3600));
    assert_eq!(t["session"]["on_limit"].as_str(), Some("stop"));
}

#[test]
fn init_at_exists_without_force_fails() {
    assert!(RuntimoConfig::init_at("/tmp/c", Some("minimal"), false, false).is_ok());
    let err = RuntimoConfig::init_at("/tmp/c", Some("minimal"), false, true).unwrap_err();
    assert!(
        err.contains("already exists") && err.contains("--force"),
        "error must mention already exists and --force, got: {}",
        err
    );
}

#[test]
fn init_at_force_overwrites() {
    let content = RuntimoConfig::init_at("/tmp/c", Some("ephemeral"), true, true).unwrap();
    assert_eq!(content, RuntimoConfig::init_template(Some("ephemeral")));
    assert_eq!(RuntimoConfig::temp_name(&text("config.toml")), ".config.toml.tmp");
}

#[test]
fn a_throwaway_configuration_in_a_lasting_place_is_warned_of_first() {
    let warning = RuntimoConfig::init_warning("/home/a/c", Some("Ephemeral"), "").unwrap();
    assert_eq!(
        warning,
        "[runtimo] WARNING: ephemeral profile target '/home/a/c' is outside /tmp, /var/tmp, \
         /kaggle/working, or $XDG_CONFIG_HOME - ephemeral is for throwaway environments"
    );
    // The warning does not hang on whether the file may be written.
    assert!(RuntimoConfig::init_at("/home/a/c", Some("ephemeral"), false, true).is_err());
    assert!(RuntimoConfig::init_warning("/home/a/c", Some("minimal"), "").is_none());
    assert!(RuntimoConfig::init_warning("/home/a/c", None, "").is_none());
    assert!(RuntimoConfig::init_warning("/home/a/c", Some("ephemeral"), "/home/a").is_none());
    for path in ["/tmp", "/tmp/c", "/var/tmp/c", "/kaggle/working/c", "/h/.config/runtimo/c"] {
        assert!(RuntimoConfig::init_warning(path, Some("ephemeral"), "").is_none());
    }
}

#[test]
fn resolved_precedence_env_over_file_over_profile() {
    let file = RuntimoConfig {
        profile: text("ephemeral"),
        dal: text("C"),
        guards: GuardsConfig { dal: text("C"), ..Default::default() },
        ..unset()
    };
    assert_eq!(file.resolved(&no_env()).dal, "C", "file DAL should beat profile E");
    let env = Environment { dal: text("B"), ..no_env() };
    assert_eq!(file.resolved(&env).dal, "B", "env DAL should beat file C");
    let ephemeral = RuntimoConfig { profile: text("ephemeral"), ..unset() };
    assert_eq!(ephemeral.resolved(&no_env()).dal, "E", "profile ephemeral should give E");
    assert_eq!(unset().resolved(&no_env()).dal, "E", "bare should be E per provisional");
    let always = RuntimoConfig {
        profile: text("ephemeral"),
        wal: WalConfig { mode: text("always"), enabled: None },
        ..unset()
    };
    assert_eq!(always.resolved(&no_env()).wal_mode, "always", "file wal should beat profile batch");
    assert_eq!(ephemeral.resolved(&no_env()).wal_mode, "batch", "ephemeral WAL must be batch");
    assert_eq!(ephemeral.resolved(&no_env()).session_max, 20);
    assert!(!ephemeral.resolved(&no_env()).backup_enabled);
}

#[test]
fn resolved_cli_over_env_placeholder() {
    let file = RuntimoConfig {
        profile: text("service"),
        guards: GuardsConfig { dal: text("A"), ..Default::default() },
        ..unset()
    };
    let env = Environment { dal: text("E"), ..no_env() };
    assert_eq!(file.resolved(&env).dal, "E");
}

#[test]
fn resolved_malformed_env_falls_through_to_file() {
    let config = RuntimoConfig {
        observe: ObserveConfig { sample_rate_hz: Some(77), pressure_suspend_ms: None },
        ..unset()
    };
    let env = Environment { observe_sample_hz: text("not_a_number"), ..no_env() };
    assert_eq!(config.resolved(&env).observe_sample_hz, 77);
    assert_eq!(config.effective_observe_sample_hz(&env, None), 77);
    assert_eq!(unset().resolved(&env).observe_sample_hz, 50);
    assert_eq!(unset().effective_observe_sample_hz(&env, None), 50);
    let env = Environment { observe_sample_hz: text("60"), ..no_env() };
    assert_eq!(config.effective_observe_sample_hz(&env, None), 60);
    assert_eq!(config.effective_observe_sample_hz(&env, Some(9)), 9);
}

#[test]
fn get_dal_agrees_with_resolved_for_all_states() {
    let dal = |top: Option<&str>, guards: Option<&str>, profile: Option<&str>, env: Option<&str>| {
        let config = RuntimoConfig {
            dal: top.map(str::to_string),
            profile: profile.map(str::to_string),
            guards: GuardsConfig { dal: guards.map(str::to_string), ..Default::default() },
            ..unset()
        };
        let env = Environment { dal: env.map(str::to_string), ..no_env() };
        assert_eq!(config.get_dal(&env), config.resolved(&env).dal);
        config.get_dal(&env)
    };
    assert_eq!(dal(None, None, None, None), "E", "bare install resolves to provisioned E");
    assert_eq!(dal(Some("C"), None, None, None), "C");
    assert_eq!(dal(None, Some("D"), None, None), "D");
    assert_eq!(dal(Some("B"), Some("D"), None, None), "B");
    assert_eq!(dal(None, None, Some("service"), None), "A", "service profile defaults to A");
    assert_eq!(dal(None, None, Some("ephemeral"), None), "E", "ephemeral profile defaults to E");
    assert_eq!(dal(Some("C"), Some("D"), None, Some("b")), "B", "env var beats file");
}

#[test]
fn get_allowed_prefixes_normalizes_config_file_entries() {
    let config = RuntimoConfig {
        allowed_paths: vec![
            "/runtimo_prefix_x/".to_string(),
            "/runtimo_prefix_y".to_string(),
            "/".to_string(),
        ],
        ..unset()
    };
    let prefixes = config.get_allowed_prefixes(&no_env());
    assert!(prefixes.contains(&"/runtimo_prefix_x".to_string()));
    assert!(!prefixes.contains(&"/runtimo_prefix_x/".to_string()));
    assert!(prefixes.contains(&"/runtimo_prefix_y".to_string()));
    assert!(prefixes.contains(&"/".to_string()));
}

#[test]
fn guard_accessors_agree_with_resolved_when_guards_table_false() {
    let config = RuntimoConfig {
        guards: GuardsConfig {
            blocklist_enabled: Some(false),
            critical_files_enabled: Some(false),
            path_restriction_enabled: Some(false),
            path_sanitization_enabled: Some(false),
            ..Default::default()
        },
        ..unset()
    };
    let resolved = config.resolved(&no_env());
    assert!(!resolved.blocklist_enabled && !config.blocklist_enabled());
    assert!(!resolved.critical_files_enabled && !config.critical_files_enabled());
    assert!(!resolved.path_restriction_enabled && !config.path_restriction_enabled());
    assert!(!resolved.path_sanitization_enabled && !config.path_sanitization_enabled());
    assert!(RuntimoConfig::guards_off_via_profile(&resolved));
}

#[test]
fn guard_accessors_agree_with_resolved_when_ephemeral_profile() {
    let config = RuntimoConfig { profile: text("ephemeral"), ..unset() };
    let resolved = config.resolved(&no_env());
    assert_eq!(resolved.profile, "ephemeral");
    assert!(!resolved.blocklist_enabled && !config.blocklist_enabled());
    assert!(!resolved.critical_files_enabled && !config.critical_files_enabled());
    assert!(!resolved.path_restriction_enabled && !config.path_restriction_enabled());
    assert!(!resolved.path_sanitization_enabled && !config.path_sanitization_enabled());
    let config = RuntimoConfig {
        profile: text("ephemeral"),
        blocklist_enabled: Some(true),
        critical_files_enabled: Some(true),
        path_restriction_enabled: Some(true),
        path_sanitization_enabled: Some(true),
        ..unset()
    };
    let resolved = config.resolved(&no_env());
    assert!(resolved.blocklist_enabled && config.blocklist_enabled());
    assert!(resolved.critical_files_enabled && config.critical_files_enabled());
    assert!(resolved.path_restriction_enabled && config.path_restriction_enabled());
    assert!(resolved.path_sanitization_enabled && config.path_sanitization_enabled());
}

#[test]
fn profile_names_are_taken_in_any_case() {
    let config = RuntimoConfig { profile: text("Ephemeral"), ..unset() };
    let resolved = config.resolved(&no_env());
    assert_eq!(resolved.profile, "ephemeral");
    assert!(!resolved.blocklist_enabled && !config.blocklist_enabled());
}

#[test]
fn settings_come_from_a_file_that_can_be_read() {
    let file = || RuntimoConfig {
        observe: ObserveConfig { sample_rate_hz: Some(77), pressure_suspend_ms: None },
        blocklist_overrides: vec!["rm".to_string()],
        ..unset()
    };
    assert_eq!(file().get_blocklist_overrides(), &vec!["rm".to_string()]);
    let read = RuntimoConfig::resolved_from_file("/c", ConfigFile::Read(file()), &no_env());
    assert_eq!(read.observe_sample_hz, 77);
    let torn = RuntimoConfig::resolved_from_file(
        "/c",
        ConfigFile::Malformed("torn".to_string()),
        &no_env(),
    );
    let missing = RuntimoConfig::resolved_from_file("/c", ConfigFile::Missing, &no_env());
    assert_eq!(format!("{torn:?}"), format!("{missing:?}"));
    let hz = |cli: Option<u64>| {
        RuntimoConfig::observe_sample_hz_with_cli("/c", ConfigFile::Read(file()), &no_env(), cli)
    };
    assert_eq!(hz(None), 77);
    assert_eq!(hz(Some(200)), 200);
}

#[test]
fn templates_are_written_line_by_line() {
    let ephemeral = [
        "# Runtimo config - profile: ephemeral",
        "# Optimized for short-lived, throwaway environments (notebooks, CI).",
        "# Guards are relaxed - not for service machines.",
        "profile = \"ephemeral\"",
        "",
        "# ephemeral profile - json/plain, WAL batch, guards off",
        "",
        "[output]",
        "# json/plain - machine-readable, no decoration",
        "format = \"json\"",
        "renderer = \"plain\"",
        "",
        "[wal]",
        "# batch - fewer fsyncs for ephemeral speed",
        "mode = \"batch\"",
        "enabled = true",
        "",
        "[backup]",
        "# no backup for ephemeral - speed over safety",
        "enabled = false",
        "",
        "[guards]",
        "# DAL=E permissive, blocklist off for ephemeral",
        "dal = \"E\"",
        "blocklist_enabled = false",
        "",
        "[session]",
        "max_sessions = 20",
        "timeout_secs = 300",
        "on_limit = \"continue\"",
        "",
        "[telemetry]",
        "enabled = false",
    ];
    let service = [
        "# Runtimo config - profile: service",
        "# Optimized for long-running service machines.",
        "# Strict guards - do not disable.",
        "profile = \"service\"",
        "",
        "[output]",
        "# human/markdown - readable service logs",
        "format = \"human\"",
        "renderer = \"markdown\"",
        "",
        "[wal]",
        "# always - fsync every event for durability",
        "mode = \"always\"",
        "enabled = true",
        "",
        "[backup]",
        "enabled = true",
        "",
        "[guards]",
        "# DAL=A strict, blocklist on for service",
        "dal = \"A\"",
        "blocklist_enabled = true",
        "critical_files_enabled = true",
        "path_restriction_enabled = true",
        "",
        "[session]",
        "max_sessions = 100",
        "timeout_secs = 3600",
        "on_limit = \"stop\"",
        "",
        "[telemetry]",
        "enabled = true",
    ];
    let minimal = [
        "# Runtimo config - profile: minimal",
        "# Minimal passthrough - no overrides, use builtins.",
        "# Uncomment to customize.",
        "profile = \"minimal\"",
        "",
        "# allowed_paths = [\"/srv\", \"/opt\"]",
        "# dal = \"A\"",
        "",
        "# [output]",
        "# format = \"human\"",
        "# renderer = \"markdown\"",
        "",
        "# [wal]",
        "# mode = \"always\"",
        "# enabled = true",
        "",
        "# [backup]",
        "# enabled = true",
        "",
        "# [guards]",
        "# dal = \"A\"",
        "# blocklist_enabled = true",
        "",
        "# [session]",
        "# max_sessions = 100",
        "# timeout_secs = 3600",
        "# on_limit = \"stop\"",
        "",
        "# [telemetry]",
        "# enabled = true",
    ];
    for (name, lines) in [
        ("ephemeral", &ephemeral[..]),
        ("Service", &service[..]),
        ("minimal", &minimal[..]),
        ("other", &minimal[..]),
    ] {
        let content = RuntimoConfig::init_template(Some(name));
        assert!(content.ends_with('\n'));
        assert_eq!(content.lines().collect::<Vec<&str>>(), lines);
    }
}
