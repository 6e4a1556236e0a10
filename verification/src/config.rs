//! Configuration: what a config file says, what the environment says, and what results from both.
//!
//! The highest source that speaks decides: the environment, then the file, then the profile, then
//! the built-in value. Reading the file and the environment is the caller's part.
use vstd::prelude::*;
use vstd::string::*;

use crate::template;
use crate::text;
use crate::utils;

verus! {

broadcast use vstd::string::group_string_axioms;

/// How results are shown.
#[derive(Debug, Default)]
pub struct OutputConfig {
    /// `human` or `json`.
    pub format: Option<String>,
    /// `markdown` or `plain`.
    pub renderer: Option<String>,
}

/// The write-ahead log.
#[derive(Debug, Default)]
pub struct WalConfig {
    /// `always` or `batch`.
    pub mode: Option<String>,
    pub enabled: Option<bool>,
}

/// Backups.
#[derive(Debug, Default)]
pub struct BackupConfig {
    pub enabled: Option<bool>,
}

/// Assurance level and defences.
#[derive(Debug, Default)]
pub struct GuardsConfig {
    pub dal: Option<String>,
    pub blocklist_enabled: Option<bool>,
    pub critical_files_enabled: Option<bool>,
    pub path_restriction_enabled: Option<bool>,
    pub path_sanitization_enabled: Option<bool>,
    pub semantic_policy: Option<String>,
}

/// Sessions.
#[derive(Debug, Default)]
pub struct SessionConfig {
    pub max_sessions: Option<u32>,
    pub timeout_secs: Option<u64>,
    /// `continue` or `stop`.
    pub on_limit: Option<String>,
}

/// Telemetry.
#[derive(Debug, Default)]
pub struct TelemetryConfig {
    pub enabled: Option<bool>,
}

/// Sampling.
#[derive(Debug, Default)]
pub struct ObserveConfig {
    /// Samples per second.
    pub sample_rate_hz: Option<u64>,
    /// How long sampling pauses under pressure, in milliseconds.
    pub pressure_suspend_ms: Option<u64>,
}

/// What a config file says. A table of names is a list of pairs; the first pair with a name counts.
#[derive(Debug, Default)]
pub struct RuntimoConfig {
    /// Further directories that paths may lie in.
    pub allowed_paths: Vec<String>,
    /// Design assurance level, from `A` to `E`.
    pub dal: Option<String>,
    /// Further patterns of commands that are refused.
    pub blocklist_overrides: Vec<String>,
    /// Timeouts of capabilities, in seconds.
    pub capability_timeouts: Vec<(String, u64)>,
    /// Variables that count as set in the environment.
    pub env: Vec<(String, String)>,
    pub blocklist_enabled: Option<bool>,
    pub critical_files_enabled: Option<bool>,
    pub path_restriction_enabled: Option<bool>,
    pub path_sanitization_enabled: Option<bool>,
    pub semantic_policy: Option<String>,
    /// `minimal`, `ephemeral` or `service`.
    pub profile: Option<String>,
    pub output: OutputConfig,
    pub wal: WalConfig,
    pub backup: BackupConfig,
    pub guards: GuardsConfig,
    pub session: SessionConfig,
    pub telemetry: TelemetryConfig,
    pub observe: ObserveConfig,
}

/// What the environment says: the variables of these names, where they are set.
#[derive(Debug, Default)]
pub struct Environment {
    /// `RUNTIMO_DAL`.
    pub dal: Option<String>,
    /// `RUNTIMO_SEMANTIC_POLICY`.
    pub semantic_policy: Option<String>,
    /// `RUNTIMO_OBSERVE_SAMPLE_HZ`.
    pub observe_sample_hz: Option<String>,
    /// `RUNTIMO_ALLOWED_PATHS`.
    pub allowed_paths: Option<String>,
    /// `RUNTIMO_TEST_PRESSURE`.
    pub test_pressure: Option<String>,
    /// `RUNTIMO_MEMORY_CEILING_BYTES`.
    pub memory_ceiling_bytes: Option<String>,
}

/// The configuration in force.
#[derive(Debug)]
pub struct ResolvedConfig {
    pub profile: String,
    pub dal: String,
    pub wal_mode: String,
    pub backup_enabled: bool,
    pub output_format: String,
    pub output_renderer: String,
    pub blocklist_enabled: bool,
    pub critical_files_enabled: bool,
    pub path_restriction_enabled: bool,
    pub path_sanitization_enabled: bool,
    pub session_max: u32,
    pub session_timeout: u64,
    pub session_on_limit: String,
    pub telemetry_enabled: bool,
    pub observe_sample_hz: u64,
    pub observe_pressure_suspend_ms: u64,
}

// ---------------------------------------------------------------------------
// What is in force
// ---------------------------------------------------------------------------

/// The profile that a name stands for: itself in lower case, or `minimal` where there is no such
/// profile.
pub open spec fn profile_named(name: Seq<char>) -> Seq<char> {
    let p = text::lowered(name);
    if p == "ephemeral"@ || p == "service"@ || p == "minimal"@ {
        p
    } else {
        "minimal"@
    }
}

/// A switch: as the top level says, else as the guards table says, else on unless the profile is
/// `ephemeral`.
pub open spec fn switch(top: Option<bool>, guard: Option<bool>, profile: Seq<char>) -> bool {
    match (top, guard) {
        (Some(b), _) => b,
        (None, Some(b)) => b,
        (None, None) => profile != "ephemeral"@,
    }
}

/// One value for the `ephemeral` profile and another for the rest.
pub open spec fn by_profile<A>(profile: Seq<char>, ephemeral: A, other: A) -> A {
    if profile == "ephemeral"@ {
        ephemeral
    } else {
        other
    }
}

/// The sample rate that the environment says, where it is a number.
pub open spec fn said_rate(env: Environment) -> Option<int> {
    match env.observe_sample_hz {
        Some(v) => text::parsed(v@, 10, u64::MAX as int),
        None => None,
    }
}

impl RuntimoConfig {
    /// The profile in force.
    pub open spec fn profile_in_force(self) -> Seq<char> {
        profile_named(text::text_or(self.profile, "minimal"@))
    }

    /// The assurance level in force: of the environment, of the file's top level, of its guards
    /// table, each in upper case, else `A` for the `service` profile and `E` for the others.
    pub open spec fn dal_in_force(self, env: Environment) -> Seq<char> {
        if env.dal is Some {
            text::raised(env.dal->0@)
        } else if self.dal is Some {
            text::raised(self.dal->0@)
        } else if self.guards.dal is Some {
            text::raised(self.guards.dal->0@)
        } else if self.profile_in_force() == "service"@ {
            "A"@
        } else {
            "E"@
        }
    }

    /// The semantic policy in force: of the environment, of the file's top level, of its guards
    /// table, else `corroborate`.
    pub open spec fn policy_in_force(self, env: Environment) -> Seq<char> {
        if env.semantic_policy is Some {
            env.semantic_policy->0@
        } else if self.semantic_policy is Some {
            self.semantic_policy->0@
        } else {
            text::text_or(self.guards.semantic_policy, "corroborate"@)
        }
    }

    /// The sample rate in force: of the command line, of the environment where it is a number, of
    /// the file, else 50.
    pub open spec fn rate_in_force(self, env: Environment, cli: Option<u64>) -> int {
        match (cli, said_rate(env), self.observe.sample_rate_hz) {
            (Some(n), _, _) => n as int,
            (None, Some(n), _) => n,
            (None, None, Some(n)) => n as int,
            (None, None, None) => 50,
        }
    }

    /// `r` is the configuration in force.
    pub open spec fn resolves_to(self, env: Environment, r: ResolvedConfig) -> bool {
        let p = self.profile_in_force();
        &&& r.profile@ == p
        &&& r.dal@ == self.dal_in_force(env)
        &&& r.wal_mode@ == text::text_or(self.wal.mode, by_profile(p, "batch"@, "always"@))
        &&& r.backup_enabled == switch(self.backup.enabled, None, p)
        &&& r.output_format@ == text::text_or(self.output.format, by_profile(p, "json"@, "human"@))
        &&& r.output_renderer@ == text::text_or(
            self.output.renderer,
            by_profile(p, "plain"@, "markdown"@),
        )
        &&& r.blocklist_enabled == switch(self.blocklist_enabled, self.guards.blocklist_enabled, p)
        &&& r.critical_files_enabled == switch(
            self.critical_files_enabled,
            self.guards.critical_files_enabled,
            p,
        )
        &&& r.path_restriction_enabled == switch(
            self.path_restriction_enabled,
            self.guards.path_restriction_enabled,
            p,
        )
        &&& r.path_sanitization_enabled == switch(
            self.path_sanitization_enabled,
            self.guards.path_sanitization_enabled,
            p,
        )
        &&& r.session_max == (match self.session.max_sessions {
            Some(n) => n,
            None => by_profile(p, 20u32, 100u32),
        })
        &&& r.session_timeout == (match self.session.timeout_secs {
            Some(n) => n,
            None => by_profile(p, 300u64, 3600u64),
        })
        &&& r.session_on_limit@ == text::text_or(
            self.session.on_limit,
            by_profile(p, "continue"@, "stop"@),
        )
        &&& r.telemetry_enabled == switch(self.telemetry.enabled, None, p)
        &&& r.observe_sample_hz == self.rate_in_force(env, None)
        &&& r.observe_pressure_suspend_ms == (match self.observe.pressure_suspend_ms {
            Some(n) => n,
            None => 1000u64,
        })
    }
}

/// A switch.
fn decide(top: Option<bool>, guard: Option<bool>, profile: &str) -> (r: bool)
    ensures
        r == switch(top, guard, profile@),
{
    match top {
        Some(b) => b,
        None => match guard {
            Some(b) => b,
            None => !text::same(profile, "ephemeral"),
        },
    }
}

/// The text that the file gives, or the one for the profile.
fn decide_text(said: &Option<String>, profile: &str, ephemeral: &str, other: &str) -> (r: String)
    ensures
        r@ == text::text_or(*said, by_profile(profile@, ephemeral@, other@)),
{
    if text::same(profile, "ephemeral") {
        text::or_text(said, ephemeral)
    } else {
        text::or_text(said, other)
    }
}

impl RuntimoConfig {
    /// The profile in force.
    fn effective_profile(&self) -> (r: String)
        ensures
            r@ == self.profile_in_force(),
    {
        let p = text::to_lower(text::or_text(&self.profile, "minimal").as_str());
        if text::same(p.as_str(), "ephemeral") || text::same(p.as_str(), "service") || text::same(
            p.as_str(),
            "minimal",
        ) {
            p
        } else {
            "minimal".to_owned()
        }
    }

    /// The configuration in force.
    pub fn resolved(&self, env: &Environment) -> (r: ResolvedConfig)
        ensures
            self.resolves_to(*env, r),
    {
        let profile = self.effective_profile();
        let p = profile.as_str();
        let ephemeral = text::same(p, "ephemeral");
        let session_max: u32 = match self.session.max_sessions {
            Some(n) => n,
            None => if ephemeral {
                20
            } else {
                100
            },
        };
        let session_timeout: u64 = match self.session.timeout_secs {
            Some(n) => n,
            None => if ephemeral {
                300
            } else {
                3600
            },
        };
        let observe_pressure_suspend_ms: u64 = match self.observe.pressure_suspend_ms {
            Some(n) => n,
            None => 1000,
        };
        ResolvedConfig {
            dal: self.get_dal(env),
            wal_mode: decide_text(&self.wal.mode, p, "batch", "always"),
            backup_enabled: decide(self.backup.enabled, None, p),
            output_format: decide_text(&self.output.format, p, "json", "human"),
            output_renderer: decide_text(&self.output.renderer, p, "plain", "markdown"),
            blocklist_enabled: decide(self.blocklist_enabled, self.guards.blocklist_enabled, p),
            critical_files_enabled: decide(
                self.critical_files_enabled,
                self.guards.critical_files_enabled,
                p,
            ),
            path_restriction_enabled: decide(
                self.path_restriction_enabled,
                self.guards.path_restriction_enabled,
                p,
            ),
            path_sanitization_enabled: decide(
                self.path_sanitization_enabled,
                self.guards.path_sanitization_enabled,
                p,
            ),
            session_max,
            session_timeout,
            session_on_limit: decide_text(&self.session.on_limit, p, "continue", "stop"),
            telemetry_enabled: decide(self.telemetry.enabled, None, p),
            observe_sample_hz: self.effective_observe_sample_hz(env, None),
            observe_pressure_suspend_ms,
            profile,
        }
    }

    /// The configuration in force, given what reading the config file at `path` gave.
    pub fn resolved_from_file(path: &str, file: ConfigFile, env: &Environment) -> (r: ResolvedConfig)
        ensures
            match file {
                ConfigFile::Read(c) => c.resolves_to(*env, r),
                _ => exists|c: RuntimoConfig| is_default(c) && #[trigger] c.resolves_to(*env, r),
            },
    {
        let c = RuntimoConfig::load(path, file);
        c.resolved(env)
    }

    /// Whether the guards count as off: the blocklist is off, or the assurance level is `E`.
    pub fn guards_off_via_profile(resolved: &ResolvedConfig) -> (r: bool)
        ensures
            r == (!resolved.blocklist_enabled || resolved.dal@ == "E"@),
    {
        !resolved.blocklist_enabled || text::same(resolved.dal.as_str(), "E")
    }

    /// The sample rate in force. What the command line says comes first.
    pub fn effective_observe_sample_hz(&self, env: &Environment, cli_override: Option<u64>) -> (r:
        u64)
        ensures
            r == self.rate_in_force(*env, cli_override),
    {
        if let Some(n) = cli_override {
            return n;
        }
        if let Some(v) = &env.observe_sample_hz {
            if let Some(n) = text::parse_number(v.as_str(), 10, u64::MAX) {
                return n;
            }
        }
        match self.observe.sample_rate_hz {
            Some(n) => n,
            None => 50,
        }
    }

    /// The sample rate in force, given what reading the config file at `path` gave.
    pub fn observe_sample_hz_with_cli(
        path: &str,
        file: ConfigFile,
        env: &Environment,
        cli_override: Option<u64>,
    ) -> (r: u64)
        ensures
            match file {
                ConfigFile::Read(c) => r == c.rate_in_force(*env, cli_override),
                _ => exists|c: RuntimoConfig|
                    is_default(c) && r == #[trigger] c.rate_in_force(*env, cli_override),
            },
    {
        let c = RuntimoConfig::load(path, file);
        c.effective_observe_sample_hz(env, cli_override)
    }

    /// The assurance level in force, in upper case.
    pub fn get_dal(&self, env: &Environment) -> (r: String)
        ensures
            r@ == self.dal_in_force(*env),
    {
        if let Some(d) = &env.dal {
            return text::to_upper(d.as_str());
        }
        if let Some(d) = &self.dal {
            return text::to_upper(d.as_str());
        }
        if let Some(d) = &self.guards.dal {
            return text::to_upper(d.as_str());
        }
        let profile = self.effective_profile();
        if text::same(profile.as_str(), "service") {
            "A".to_owned()
        } else {
            "E".to_owned()
        }
    }

    /// The semantic policy in force.
    pub fn get_semantic_policy(&self, env: &Environment) -> (r: String)
        ensures
            r@ == self.policy_in_force(*env),
    {
        if let Some(p) = &env.semantic_policy {
            return p.clone();
        }
        if let Some(p) = &self.semantic_policy {
            return p.clone();
        }
        text::or_text(&self.guards.semantic_policy, "corroborate")
    }

    /// Whether dangerous commands are refused.
    pub fn blocklist_enabled(&self) -> (r: bool)
        ensures
            r == switch(
                self.blocklist_enabled,
                self.guards.blocklist_enabled,
                self.profile_in_force(),
            ),
    {
        decide(
            self.blocklist_enabled,
            self.guards.blocklist_enabled,
            self.effective_profile().as_str(),
        )
    }

    /// Whether critical files are protected.
    pub fn critical_files_enabled(&self) -> (r: bool)
        ensures
            r == switch(
                self.critical_files_enabled,
                self.guards.critical_files_enabled,
                self.profile_in_force(),
            ),
    {
        decide(
            self.critical_files_enabled,
            self.guards.critical_files_enabled,
            self.effective_profile().as_str(),
        )
    }

    /// Whether paths are held to the allowed directories.
    pub fn path_restriction_enabled(&self) -> (r: bool)
        ensures
            r == switch(
                self.path_restriction_enabled,
                self.guards.path_restriction_enabled,
                self.profile_in_force(),
            ),
    {
        decide(
            self.path_restriction_enabled,
            self.guards.path_restriction_enabled,
            self.effective_profile().as_str(),
        )
    }

    /// Whether commands run with a fixed search path.
    pub fn path_sanitization_enabled(&self) -> (r: bool)
        ensures
            r == switch(
                self.path_sanitization_enabled,
                self.guards.path_sanitization_enabled,
                self.profile_in_force(),
            ),
    {
        decide(
            self.path_sanitization_enabled,
            self.guards.path_sanitization_enabled,
            self.effective_profile().as_str(),
        )
    }
}

/// Every way to ask for the assurance level gives the same answer, whatever is set.
pub proof fn law_dal_agrees(c: RuntimoConfig, env: Environment, r: ResolvedConfig)
    requires
        c.resolves_to(env, r),
    ensures
        r.dal@ == c.dal_in_force(env),
{
}

/// Every way to ask whether a guard is on gives the same answer.
pub proof fn law_guards_agree(c: RuntimoConfig, env: Environment, r: ResolvedConfig)
    requires
        c.resolves_to(env, r),
    ensures
        r.blocklist_enabled == switch(
            c.blocklist_enabled,
            c.guards.blocklist_enabled,
            c.profile_in_force(),
        ),
        r.critical_files_enabled == switch(
            c.critical_files_enabled,
            c.guards.critical_files_enabled,
            c.profile_in_force(),
        ),
        r.path_restriction_enabled == switch(
            c.path_restriction_enabled,
            c.guards.path_restriction_enabled,
            c.profile_in_force(),
        ),
        r.path_sanitization_enabled == switch(
            c.path_sanitization_enabled,
            c.guards.path_sanitization_enabled,
            c.profile_in_force(),
        ),
{
}

/// What a file says of a switch: its top level, else its guards table.
pub open spec fn file_switch(top: Option<bool>, guard: Option<bool>) -> Option<bool> {
    if top is Some {
        top
    } else {
        guard
    }
}

/// The environment decides over the file, the top level of the file over its guards table, and the
/// file over the profile.
pub proof fn law_precedence(c: RuntimoConfig, env: Environment, r: ResolvedConfig)
    requires
        c.resolves_to(env, r),
    ensures
        env.dal is Some ==> r.dal@ == text::raised(env.dal->0@),
        env.dal is None && c.dal is Some ==> r.dal@ == text::raised(c.dal->0@),
        c.wal.mode is Some ==> r.wal_mode@ == c.wal.mode->0@,
        c.backup.enabled is Some ==> r.backup_enabled == c.backup.enabled->0,
        c.output.format is Some ==> r.output_format@ == c.output.format->0@,
        c.output.renderer is Some ==> r.output_renderer@ == c.output.renderer->0@,
        c.session.max_sessions is Some ==> r.session_max == c.session.max_sessions->0,
        c.session.timeout_secs is Some ==> r.session_timeout == c.session.timeout_secs->0,
        c.session.on_limit is Some ==> r.session_on_limit@ == c.session.on_limit->0@,
        c.telemetry.enabled is Some ==> r.telemetry_enabled == c.telemetry.enabled->0,
        env.dal is None && c.dal is None && c.guards.dal is Some ==> r.dal@ == text::raised(
            c.guards.dal->0@,
        ),
        said_rate(env) is Some ==> r.observe_sample_hz == said_rate(env)->0,
        said_rate(env) is None && c.observe.sample_rate_hz is Some ==> r.observe_sample_hz
            == c.observe.sample_rate_hz->0,
        file_switch(c.blocklist_enabled, c.guards.blocklist_enabled) matches Some(b)
            ==> r.blocklist_enabled == b,
        file_switch(c.critical_files_enabled, c.guards.critical_files_enabled) matches Some(b)
            ==> r.critical_files_enabled == b,
        file_switch(c.path_restriction_enabled, c.guards.path_restriction_enabled) matches Some(b)
            ==> r.path_restriction_enabled == b,
        file_switch(c.path_sanitization_enabled, c.guards.path_sanitization_enabled) matches Some(b)
            ==> r.path_sanitization_enabled == b,
{
}

/// A sample rate in the environment that is no number is passed over, not taken for the default.
pub proof fn law_malformed_rate_falls_through(c: RuntimoConfig, env: Environment, r: ResolvedConfig)
    requires
        c.resolves_to(env, r),
        env.observe_sample_hz is Some,
        text::parsed(env.observe_sample_hz->0@, 10, u64::MAX as int) is None,
        c.observe.sample_rate_hz is Some,
    ensures
        r.observe_sample_hz == c.observe.sample_rate_hz->0,
{
}

// ---------------------------------------------------------------------------
// Reading the file
// ---------------------------------------------------------------------------

/// What reading the config file gave.
#[derive(Debug)]
pub enum ConfigFile {
    /// There is no such file.
    Missing,
    /// The file could not be read, for this reason.
    Unreadable(String),
    /// The file is not written as a config file is, for this reason.
    Malformed(String),
    Read(RuntimoConfig),
}

/// Nothing is set.
pub open spec fn is_default(c: RuntimoConfig) -> bool {
    &&& c.allowed_paths@.len() == 0
    &&& c.dal is None
    &&& c.blocklist_overrides@.len() == 0
    &&& c.capability_timeouts@.len() == 0
    &&& c.env@.len() == 0
    &&& c.blocklist_enabled is None
    &&& c.critical_files_enabled is None
    &&& c.path_restriction_enabled is None
    &&& c.path_sanitization_enabled is None
    &&& c.semantic_policy is None
    &&& c.profile is None
    &&& c.output.format is None
    &&& c.output.renderer is None
    &&& c.wal.mode is None
    &&& c.wal.enabled is None
    &&& c.backup.enabled is None
    &&& c.guards.dal is None
    &&& c.guards.blocklist_enabled is None
    &&& c.guards.critical_files_enabled is None
    &&& c.guards.path_restriction_enabled is None
    &&& c.guards.path_sanitization_enabled is None
    &&& c.guards.semantic_policy is None
    &&& c.session.max_sessions is None
    &&& c.session.timeout_secs is None
    &&& c.session.on_limit is None
    &&& c.telemetry.enabled is None
    &&& c.observe.sample_rate_hz is None
    &&& c.observe.pressure_suspend_ms is None
}

/// The message for a config file that cannot be used.
fn file_message(verb: &str, path: &str, why: &String) -> (r: String)
    ensures
        r@ == "Cannot "@ + verb@ + " config file '"@ + path@ + "': "@ + why@,
{
    let mut r = "Cannot ".to_owned();
    r.append(verb);
    r.append(" config file '");
    r.append(path);
    r.append("': ");
    r.append(why.as_str());
    r
}

impl RuntimoConfig {
    /// The configuration in which nothing is set.
    pub fn unset() -> (r: RuntimoConfig)
        ensures
            is_default(r),
    {
        RuntimoConfig {
            allowed_paths: Vec::new(),
            dal: None,
            blocklist_overrides: Vec::new(),
            capability_timeouts: Vec::new(),
            env: Vec::new(),
            blocklist_enabled: None,
            critical_files_enabled: None,
            path_restriction_enabled: None,
            path_sanitization_enabled: None,
            semantic_policy: None,
            profile: None,
            output: OutputConfig { format: None, renderer: None },
            wal: WalConfig { mode: None, enabled: None },
            backup: BackupConfig { enabled: None },
            guards: GuardsConfig {
                dal: None,
                blocklist_enabled: None,
                critical_files_enabled: None,
                path_restriction_enabled: None,
                path_sanitization_enabled: None,
                semantic_policy: None,
            },
            session: SessionConfig { max_sessions: None, timeout_secs: None, on_limit: None },
            telemetry: TelemetryConfig { enabled: None },
            observe: ObserveConfig { sample_rate_hz: None, pressure_suspend_ms: None },
        }
    }

    /// The configuration that the file at `path` gives, or why it gives none. A file that is not
    /// there gives the one in which nothing is set.
    pub fn load_result(path: &str, file: ConfigFile) -> (r: Result<RuntimoConfig, String>)
        ensures
            match file {
                ConfigFile::Missing => r matches Ok(c) && is_default(c),
                ConfigFile::Unreadable(why) => r matches Err(m) && m@ == "Cannot "@ + "read"@
                    + " config file '"@ + path@ + "': "@ + why@,
                ConfigFile::Malformed(why) => r matches Err(m) && m@ == "Cannot "@ + "parse"@
                    + " config file '"@ + path@ + "': "@ + why@,
                ConfigFile::Read(c) => r == Result::<RuntimoConfig, String>::Ok(c),
            },
    {
        match file {
            ConfigFile::Missing => Ok(RuntimoConfig::unset()),
            ConfigFile::Unreadable(why) => Err(file_message("read", path, &why)),
            ConfigFile::Malformed(why) => Err(file_message("parse", path, &why)),
            ConfigFile::Read(c) => Ok(c),
        }
    }

    /// The configuration that the file at `path` gives, and the one in which nothing is set where
    /// it gives none.
    pub fn load(path: &str, file: ConfigFile) -> (r: RuntimoConfig)
        ensures
            match file {
                ConfigFile::Read(c) => r == c,
                _ => is_default(r),
            },
    {
        match RuntimoConfig::load_result(path, file) {
            Ok(c) => c,
            Err(_) => RuntimoConfig::unset(),
        }
    }
}

/// A key that the top level of a config file can have.
pub open spec fn known_key(k: Seq<char>) -> bool {
    ||| k == "allowed_paths"@
    ||| k == "dal"@
    ||| k == "blocklist_overrides"@
    ||| k == "capability_timeouts"@
    ||| k == "env"@
    ||| k == "blocklist_enabled"@
    ||| k == "critical_files_enabled"@
    ||| k == "path_restriction_enabled"@
    ||| k == "path_sanitization_enabled"@
    ||| k == "semantic_policy"@
    ||| k == "profile"@
    ||| k == "output"@
    ||| k == "wal"@
    ||| k == "backup"@
    ||| k == "guards"@
    ||| k == "session"@
    ||| k == "telemetry"@
    ||| k == "observe"@
}

/// The keys that no config file has, in their order.
pub open spec fn unknown_of(keys: Seq<Seq<char>>) -> Seq<Seq<char>>
    decreases keys.len(),
{
    if keys.len() == 0 {
        Seq::empty()
    } else if known_key(keys.last()) {
        unknown_of(keys.drop_last())
    } else {
        unknown_of(keys.drop_last()).push(keys.last())
    }
}

/// Whether the top level of a config file can have a key.
fn is_known_key(k: &str) -> (r: bool)
    ensures
        r == known_key(k@),
{
    text::same(k, "allowed_paths") || text::same(k, "dal") || text::same(k, "blocklist_overrides")
        || text::same(k, "capability_timeouts") || text::same(k, "env") || text::same(
        k,
        "blocklist_enabled",
    ) || text::same(k, "critical_files_enabled") || text::same(k, "path_restriction_enabled")
        || text::same(k, "path_sanitization_enabled") || text::same(k, "semantic_policy")
        || text::same(k, "profile") || text::same(k, "output") || text::same(k, "wal")
        || text::same(k, "backup") || text::same(k, "guards") || text::same(k, "session")
        || text::same(k, "telemetry") || text::same(k, "observe")
}

/// The keys of a config file that mean nothing, so that a mistyped one can be told.
pub fn unknown_keys(keys: &Vec<String>) -> (r: Vec<String>)
    ensures
        text::texts(r@) == unknown_of(text::texts(keys@)),
{
    let ghost all = text::texts(keys@);
    let mut r: Vec<String> = Vec::new();
    assert(text::texts(r@) =~= unknown_of(all.take(0)));
    for i in 0..keys.len()
        invariant
            all == text::texts(keys@),
            text::texts(r@) == unknown_of(all.take(i as int)),
    {
        assert(all.take(i + 1).drop_last() =~= all.take(i as int));
        if !is_known_key(keys[i].as_str()) {
            let ghost before = r@;
            r.push(keys[i].clone());
            assert(text::texts(r@) =~= text::texts(before).push(keys@[i as int]@));
        }
    }
    assert(all.take(all.len() as int) =~= all);
    r
}

// ---------------------------------------------------------------------------
// Tables of the file
// ---------------------------------------------------------------------------

/// The value of the first pair with a name.
pub open spec fn first_value<A>(pairs: Seq<(String, A)>, name: Seq<char>) -> Option<A>
    decreases pairs.len(),
{
    if pairs.len() == 0 {
        None
    } else if pairs[0].0@ == name {
        Some(pairs[0].1)
    } else {
        first_value(pairs.skip(1), name)
    }
}

impl RuntimoConfig {
    /// The value of a variable: of the file's table, else `process`, which is what the process
    /// environment holds.
    pub fn env_var(&self, name: &str, process: Option<String>) -> (r: Option<String>)
        ensures
            r == (match first_value(self.env@, name@) {
                Some(v) => Some(v),
                None => process,
            }),
    {
        assert(self.env@.skip(0) =~= self.env@);
        for i in 0..self.env.len()
            invariant
                first_value(self.env@, name@) == first_value(self.env@.skip(i as int), name@),
        {
            assert(self.env@.skip(i as int)[0] == self.env@[i as int]);
            if text::same(self.env[i].0.as_str(), name) {
                return Some(self.env[i].1.clone());
            }
            assert(self.env@.skip(i as int).skip(1) =~= self.env@.skip(i + 1));
        }
        process
    }

    /// The file's table of variables.
    pub fn env_map(&self) -> (r: &Vec<(String, String)>)
        ensures
            *r == self.env,
    {
        &self.env
    }

    /// The file's further patterns of refused commands.
    pub fn get_blocklist_overrides(&self) -> (r: &Vec<String>)
        ensures
            *r == self.blocklist_overrides,
    {
        &self.blocklist_overrides
    }

    /// The timeout of a capability, or `fallback` where the file gives none.
    pub fn get_capability_timeout(&self, capability: &str, fallback: u64) -> (r: u64)
        ensures
            r == (match first_value(self.capability_timeouts@, capability@) {
                Some(n) => n,
                None => fallback,
            }),
    {
        let pairs = &self.capability_timeouts;
        assert(pairs@.skip(0) =~= pairs@);
        for i in 0..pairs.len()
            invariant
                first_value(pairs@, capability@) == first_value(pairs@.skip(i as int), capability@),
                pairs == self.capability_timeouts,
        {
            assert(pairs@.skip(i as int)[0] == pairs@[i as int]);
            if text::same(pairs[i].0.as_str(), capability) {
                return pairs[i].1;
            }
            assert(pairs@.skip(i as int).skip(1) =~= pairs@.skip(i + 1));
        }
        fallback
    }
}

// ---------------------------------------------------------------------------
// Allowed directories
// ---------------------------------------------------------------------------

/// A directory as it is kept among the allowed ones: without white space around it and without
/// slashes at its end, but for the root, which stays a slash.
pub open spec fn normal_prefix(p: Seq<char>) -> Seq<char> {
    let bare = text::without_back(text::trimmed(p), '/');
    if bare.len() == 0 {
        "/"@
    } else {
        bare
    }
}

/// The directories that some others are added to, each once and in its normal form. What is white
/// space alone is passed over.
pub open spec fn with_prefixes(have: Seq<Seq<char>>, more: Seq<Seq<char>>) -> Seq<Seq<char>>
    decreases more.len(),
{
    if more.len() == 0 {
        have
    } else {
        let before = with_prefixes(have, more.drop_last());
        let p = more.last();
        if text::trimmed(p).len() == 0 || before.contains(normal_prefix(p)) {
            before
        } else {
            before.push(normal_prefix(p))
        }
    }
}

/// The allowed directories: the built-in ones, those of the environment, those of the file.
pub open spec fn prefixes_allowed(c: RuntimoConfig, env: Environment) -> Seq<Seq<char>> {
    let listed = match env.allowed_paths {
        Some(v) => text::pieces(v@, ':'),
        None => Seq::empty(),
    };
    with_prefixes(
        with_prefixes(seq!["/tmp"@, "/var/tmp"@], listed),
        text::texts(c.allowed_paths@),
    )
}

/// Adds directories to the allowed ones.
fn add_prefixes(have: &mut Vec<String>, more: &Vec<String>)
    ensures
        text::texts(final(have)@) == with_prefixes(text::texts(old(have)@), text::texts(more@)),
{
    let ghost first = text::texts(have@);
    let ghost all = text::texts(more@);
    for i in 0..more.len()
        invariant
            all == text::texts(more@),
            text::texts(have@) == with_prefixes(first, all.take(i as int)),
    {
        assert(all.take(i + 1).drop_last() =~= all.take(i as int));
        assert(all.take(i + 1).last() == more@[i as int]@);
        let trimmed = text::trim(more[i].as_str());
        if !trimmed.as_str().is_empty() {
            let bare = text::strip_back(trimmed.as_str(), '/');
            let normal = if bare.as_str().is_empty() {
                "/".to_owned()
            } else {
                bare
            };
            if !text::holds_text(have, normal.as_str()) {
                let ghost before = have@;
                let ghost n = normal@;
                have.push(normal);
                assert(text::texts(have@) =~= text::texts(before).push(n));
            }
        }
    }
    assert(all.take(all.len() as int) =~= all);
}

impl RuntimoConfig {
    /// The directories that paths may lie in.
    pub fn get_allowed_prefixes(&self, env: &Environment) -> (r: Vec<String>)
        ensures
            text::texts(r@) == prefixes_allowed(*self, *env),
    {
        let mut r: Vec<String> = Vec::new();
        r.push("/tmp".to_owned());
        r.push("/var/tmp".to_owned());
        assert(text::texts(r@) =~= seq!["/tmp"@, "/var/tmp"@]);
        let listed = match &env.allowed_paths {
            Some(v) => text::split(v.as_str(), ':'),
            None => Vec::new(),
        };
        assert(env.allowed_paths is None ==> text::texts(listed@) =~= Seq::empty());
        add_prefixes(&mut r, &listed);
        add_prefixes(&mut r, &self.allowed_paths);
        r
    }
}

/// Adding directories keeps those that are there, and no directory is empty or comes twice.
pub proof fn lemma_with_prefixes(have: Seq<Seq<char>>, more: Seq<Seq<char>>)
    requires
        forall|i: int| 0 <= i < have.len() ==> (#[trigger] have[i]).len() > 0,
        have.no_duplicates(),
    ensures
        with_prefixes(have, more).no_duplicates(),
        forall|i: int|
            0 <= i < with_prefixes(have, more).len() ==> (#[trigger] with_prefixes(have, more)[i]).len()
                > 0,
        have.is_prefix_of(with_prefixes(have, more)),
    decreases more.len(),
{
    if more.len() > 0 {
        lemma_with_prefixes(have, more.drop_last());
        let before = with_prefixes(have, more.drop_last());
        let after = with_prefixes(have, more);
        let p = normal_prefix(more.last());
        reveal_strlit("/");
        assert(p.len() > 0);
        if after != before {
            assert(after == before.push(p));
            assert forall|i: int, j: int|
                0 <= i < after.len() && 0 <= j < after.len() && i != j implies after[i] != after[j] by {
                if i < before.len() && j < before.len() {
                    assert(after[i] == before[i] && after[j] == before[j]);
                } else if i < before.len() {
                    assert(before.contains(before[i]));
                } else {
                    assert(before.contains(before[j]));
                }
            }
            assert(have =~= after.take(have.len() as int)) by {
                assert(have =~= before.take(have.len() as int));
            }
        }
    }
}

/// The built-in directories are always allowed, no allowed directory is empty, and none comes
/// twice.
pub proof fn law_prefixes(c: RuntimoConfig, env: Environment)
    ensures
        prefixes_allowed(c, env).contains("/tmp"@),
        prefixes_allowed(c, env).contains("/var/tmp"@),
        prefixes_allowed(c, env).no_duplicates(),
        forall|i: int|
            0 <= i < prefixes_allowed(c, env).len() ==> (#[trigger] prefixes_allowed(
                c,
                env,
            )[i]).len() > 0,
{
    reveal_strlit("/tmp");
    reveal_strlit("/var/tmp");
    let base = seq!["/tmp"@, "/var/tmp"@];
    assert(base.no_duplicates()) by {
        assert("/tmp"@.len() != "/var/tmp"@.len());
    }
    let listed = match env.allowed_paths {
        Some(v) => text::pieces(v@, ':'),
        None => Seq::empty(),
    };
    lemma_with_prefixes(base, listed);
    let mid = with_prefixes(base, listed);
    lemma_with_prefixes(mid, text::texts(c.allowed_paths@));
    let all = prefixes_allowed(c, env);
    assert(all[0] == mid[0] && mid[0] == base[0]);
    assert(all[1] == mid[1] && mid[1] == base[1]);
}

/// With nothing set, the home directories are not among the allowed ones.
pub proof fn law_home_not_allowed(c: RuntimoConfig, env: Environment)
    requires
        is_default(c),
        env.allowed_paths is None,
    ensures
        prefixes_allowed(c, env) == seq!["/tmp"@, "/var/tmp"@],
        !prefixes_allowed(c, env).contains("/home"@),
{
    reveal_strlit("/tmp");
    reveal_strlit("/var/tmp");
    reveal_strlit("/home");
    assert("/home"@.len() != "/tmp"@.len() && "/home"@.len() != "/var/tmp"@.len());
}

// ---------------------------------------------------------------------------
// Where the file lies, and making one
// ---------------------------------------------------------------------------

/// The place of the config file.
pub open spec fn config_place(xdg_config_home: Option<String>, home: Option<String>) -> Seq<char> {
    match utils::base_dir(xdg_config_home, home, ".config"@) {
        Some(d) => utils::below(d, "runtimo/config.toml"@),
        None => "/tmp/runtimo/config.toml"@,
    }
}

/// The config file lies at an absolute place wherever the home directory does.
pub proof fn law_config_place_absolute(xdg_config_home: Option<String>, home: Option<String>)
    requires
        home is Some ==> utils::absolute(home->0@),
    ensures
        utils::absolute(config_place(xdg_config_home, home)),
{
    reveal_strlit("/tmp/runtimo/config.toml");
    reveal_strlit("runtimo/config.toml");
    reveal_strlit(".config");
    reveal_strlit("/");
}

/// The model of a name that may be absent.
pub open spec fn name_view(o: Option<&str>) -> Option<Seq<char>> {
    match o {
        Some(s) => Some(s@),
        None => None,
    }
}

/// A place where a throwaway configuration belongs.
pub open spec fn throwaway_place(path: Seq<char>, xdg_config_home: Seq<char>) -> bool {
    ||| "/tmp/"@.is_prefix_of(path)
    ||| path == "/tmp"@
    ||| "/var/tmp/"@.is_prefix_of(path)
    ||| "/kaggle/working/"@.is_prefix_of(path)
    ||| xdg_config_home.len() > 0 && xdg_config_home.is_prefix_of(path)
    ||| text::contains_text(path, ".config/runtimo"@)
}

impl RuntimoConfig {
    /// The place of the config file.
    ///
    /// A setting that is not absolute is passed over. Where neither `XDG_CONFIG_HOME` nor `HOME`
    /// gives a place, it lies below `/tmp`, which does not outlive a restart of the machine.
    pub fn config_path(xdg_config_home: &Option<String>, home: &Option<String>) -> (r: String)
        ensures
            r@ == config_place(*xdg_config_home, *home),
    {
        match utils::choose_base(xdg_config_home, home, ".config") {
            Some(d) => utils::join(d.as_str(), "runtimo/config.toml"),
            None => "/tmp/runtimo/config.toml".to_owned(),
        }
    }

    /// The config template of a profile.
    pub fn init_template(profile: Option<&str>) -> (r: String)
        ensures
            r@ == template::template_of(name_view(profile)),
    {
        let p = text::to_lower(
            match profile {
                Some(n) => n,
                None => "minimal",
            },
        );
        proof {
            template::lemma_profile_names_differ();
        }
        if text::same(p.as_str(), "ephemeral") {
            template::write_lines(&template::list_ephemeral())
        } else if text::same(p.as_str(), "service") {
            template::write_lines(&template::list_service())
        } else {
            template::write_lines(&template::list_minimal())
        }
    }

    /// The warning that comes before a throwaway configuration is made in a place for lasting ones.
    pub fn init_warning(path: &str, profile: Option<&str>, xdg_config_home: &str) -> (r: Option<
        String,
    >)
        ensures
            r is Some <==> profile is Some && text::lowered(profile->0@) == "ephemeral"@
                && !throwaway_place(path@, xdg_config_home@),
            r matches Some(w) ==> w@ == "[runtimo] WARNING: ephemeral profile target '"@ + path@
                + "' is outside /tmp, /var/tmp, /kaggle/working, or $XDG_CONFIG_HOME - ephemeral is for throwaway environments"@,
    {
        let throwaway = match profile {
            Some(n) => text::same(text::to_lower(n).as_str(), "ephemeral"),
            None => false,
        };
        let fits = text::starts_with(path, "/tmp/") || text::same(path, "/tmp")
            || text::starts_with(path, "/var/tmp/") || text::starts_with(path, "/kaggle/working/")
            || (!xdg_config_home.is_empty() && text::starts_with(path, xdg_config_home))
            || text::contains(path, ".config/runtimo");
        if throwaway && !fits {
            let mut w = "[runtimo] WARNING: ephemeral profile target '".to_owned();
            w.append(path);
            w.append(
                "' is outside /tmp, /var/tmp, /kaggle/working, or $XDG_CONFIG_HOME - ephemeral is for throwaway environments",
            );
            Some(w)
        } else {
            None
        }
    }

    /// What is written to make the config file at `path`, or why it is refused: there is a file that
    /// may not be overwritten. [`RuntimoConfig::init_warning`] comes first, whichever it is.
    pub fn init_at(path: &str, profile: Option<&str>, force: bool, present: bool) -> (r: Result<
        String,
        String,
    >)
        ensures
            match r {
                Err(m) => present && !force && m@ == "config already exists at "@ + path@
                    + " - use --force to overwrite"@,
                Ok(content) => (!present || force) && content@ == template::template_of(name_view(profile)),
            },
    {
        if present && !force {
            let mut m = "config already exists at ".to_owned();
            m.append(path);
            m.append(" - use --force to overwrite");
            return Err(m);
        }
        Ok(RuntimoConfig::init_template(profile))
    }

    /// The name of the file that a new configuration is written to before it takes the place of
    /// the old one.
    pub fn temp_name(file_name: &Option<String>) -> (r: String)
        ensures
            r@ == "."@ + text::text_or(*file_name, "config.toml"@) + ".tmp"@,
    {
        let mut r = ".".to_owned();
        r.append(text::or_text(file_name, "config.toml").as_str());
        r.append(".tmp");
        r
    }
}

// ---------------------------------------------------------------------------
// What every configuration comes to
// ---------------------------------------------------------------------------

/// The profile in force is one of three: the named one in lower case, and `minimal` where none is
/// named or there is no such profile.
pub proof fn law_profiles(c: RuntimoConfig)
    ensures
        c.profile is None && text::lowered("minimal"@) == "minimal"@ ==> c.profile_in_force()
            == "minimal"@,
        c.profile_in_force() == "ephemeral"@ || c.profile_in_force() == "service"@
            || c.profile_in_force() == "minimal"@,
        c.profile matches Some(p) ==> (text::lowered(p@) == "ephemeral"@ || text::lowered(p@)
            == "service"@ || text::lowered(p@) == "minimal"@) ==> c.profile_in_force()
            == text::lowered(p@),
        c.profile matches Some(p) ==> text::lowered(p@) != "ephemeral"@ && text::lowered(p@)
            != "service"@ ==> c.profile_in_force() == "minimal"@,
{
}

/// What is not set anywhere goes by the profile. In `ephemeral` speed counts: results for machines,
/// a batched log, no backup, no guards, no telemetry, and few and short sessions that go on at the
/// limit. In the others safety counts. The level is `A` in `service` and `E` in the others.
pub proof fn law_profile_defaults(c: RuntimoConfig, env: Environment, r: ResolvedConfig)
    requires
        c.resolves_to(env, r),
    ensures
        ({
            let throwaway = c.profile matches Some(p) && text::lowered(p@) == "ephemeral"@;
            let service = c.profile matches Some(p) && text::lowered(p@) == "service"@;
            let none = text::lowered("minimal"@) == "minimal"@ || c.profile is Some;
            none ==> {
                &&& c.wal.mode is None ==> r.wal_mode@ == (if throwaway {
                    "batch"@
                } else {
                    "always"@
                })
                &&& c.output.format is None ==> r.output_format@ == (if throwaway {
                    "json"@
                } else {
                    "human"@
                })
                &&& c.output.renderer is None ==> r.output_renderer@ == (if throwaway {
                    "plain"@
                } else {
                    "markdown"@
                })
                &&& c.backup.enabled is None ==> r.backup_enabled == !throwaway
                &&& c.telemetry.enabled is None ==> r.telemetry_enabled == !throwaway
                &&& c.blocklist_enabled is None && c.guards.blocklist_enabled is None
                    ==> r.blocklist_enabled == !throwaway
                &&& c.critical_files_enabled is None && c.guards.critical_files_enabled is None
                    ==> r.critical_files_enabled == !throwaway
                &&& c.path_restriction_enabled is None && c.guards.path_restriction_enabled is None
                    ==> r.path_restriction_enabled == !throwaway
                &&& c.path_sanitization_enabled is None && c.guards.path_sanitization_enabled
                    is None ==> r.path_sanitization_enabled == !throwaway
                &&& c.session.max_sessions is None ==> r.session_max == (if throwaway {
                    20
                } else {
                    100int
                })
                &&& c.session.timeout_secs is None ==> r.session_timeout == (if throwaway {
                    300
                } else {
                    3600int
                })
                &&& c.session.on_limit is None ==> r.session_on_limit@ == (if throwaway {
                    "continue"@
                } else {
                    "stop"@
                })
                &&& env.dal is None && c.dal is None && c.guards.dal is None ==> r.dal@ == (
                if service {
                    "A"@
                } else {
                    "E"@
                })
            }
        }),
        said_rate(env) is None && c.observe.sample_rate_hz is None ==> r.observe_sample_hz == 50,
        r.observe_pressure_suspend_ms == (match c.observe.pressure_suspend_ms {
            Some(n) => n,
            None => 1000u64,
        }),
{
    crate::template::lemma_profile_names_differ();
}

/// A sample rate in the environment is a number in decimal, or counts as not said.
pub proof fn law_rate_of_the_environment(env: Environment, n: u64)
    ensures
        env.observe_sample_hz is None ==> said_rate(env) is None,
        env.observe_sample_hz matches Some(v) ==> v@ == text::decimal(n as nat) ==> said_rate(env)
            == Some(n as int),
{
    text::lemma_decimal_reads_back(n as nat, u64::MAX as int);
}

/// The command line decides over the environment, that over the file, and where none of them says a
/// rate it is 50.
pub proof fn law_rates(c: RuntimoConfig, env: Environment, cli: Option<u64>)
    ensures
        cli matches Some(n) ==> c.rate_in_force(env, cli) == n,
        cli is None && said_rate(env) is Some ==> c.rate_in_force(env, cli) == said_rate(env)->0,
        cli is None && said_rate(env) is None ==> c.rate_in_force(env, cli) == (
        match c.observe.sample_rate_hz {
            Some(n) => n as int,
            None => 50,
        }),
{
}

/// The semantic policy is that of the environment, else of the file's top level, else of its guards
/// table, else `corroborate`.
pub proof fn law_policies(c: RuntimoConfig, env: Environment)
    ensures
        env.semantic_policy matches Some(p) ==> c.policy_in_force(env) == p@,
        env.semantic_policy is None ==> (c.semantic_policy matches Some(p) ==> c.policy_in_force(env)
            == p@),
        env.semantic_policy is None && c.semantic_policy is None ==> (
        c.guards.semantic_policy matches Some(p) ==> c.policy_in_force(env) == p@),
        env.semantic_policy is None && c.semantic_policy is None && c.guards.semantic_policy is None
            ==> c.policy_in_force(env) == "corroborate"@,
{
}

/// Exactly the keys that mean nothing are told, in their order: a key means something where it is one
/// of eighteen.
pub proof fn law_unknown_keys(keys: Seq<Seq<char>>, k: Seq<char>)
    ensures
        ({
            let means = seq![
                "allowed_paths"@,
                "dal"@,
                "blocklist_overrides"@,
                "capability_timeouts"@,
                "env"@,
                "blocklist_enabled"@,
                "critical_files_enabled"@,
                "path_restriction_enabled"@,
                "path_sanitization_enabled"@,
                "semantic_policy"@,
                "profile"@,
                "output"@,
                "wal"@,
                "backup"@,
                "guards"@,
                "session"@,
                "telemetry"@,
                "observe"@,
            ];
            unknown_of(keys.push(k)) == unknown_of(keys) + (if means.contains(k) {
                Seq::<Seq<char>>::empty()
            } else {
                seq![k]
            })
        }),
        unknown_of(Seq::empty()) == Seq::<Seq<char>>::empty(),
{
    let means = seq![
        "allowed_paths"@,
        "dal"@,
        "blocklist_overrides"@,
        "capability_timeouts"@,
        "env"@,
        "blocklist_enabled"@,
        "critical_files_enabled"@,
        "path_restriction_enabled"@,
        "path_sanitization_enabled"@,
        "semantic_policy"@,
        "profile"@,
        "output"@,
        "wal"@,
        "backup"@,
        "guards"@,
        "session"@,
        "telemetry"@,
        "observe"@,
    ];
    assert(keys.push(k).drop_last() =~= keys);
    let before = unknown_of(keys);
    assert(before + Seq::<Seq<char>>::empty() =~= before);
    assert(before + seq![k] =~= before.push(k));
    assert(means[0] == "allowed_paths"@ && means[1] == "dal"@ && means[2] == "blocklist_overrides"@
        && means[3] == "capability_timeouts"@ && means[4] == "env"@ && means[5]
        == "blocklist_enabled"@ && means[6] == "critical_files_enabled"@ && means[7]
        == "path_restriction_enabled"@ && means[8] == "path_sanitization_enabled"@ && means[9]
        == "semantic_policy"@ && means[10] == "profile"@ && means[11] == "output"@ && means[12]
        == "wal"@ && means[13] == "backup"@ && means[14] == "guards"@ && means[15] == "session"@
        && means[16] == "telemetry"@ && means[17] == "observe"@);
    if means.contains(k) {
        let i = choose|i: int| 0 <= i < means.len() && means[i] == k;
        assert(known_key(means[i]));
    }
}

/// What a table holds under a name is what its first pair with that name holds.
pub proof fn law_first_value<A>(pairs: Seq<(String, A)>, name: Seq<char>)
    ensures
        match first_value(pairs, name) {
            Some(v) => exists|i: int|
                0 <= i < pairs.len() && (#[trigger] pairs[i]).0@ == name && pairs[i].1 == v
                    && forall|j: int| 0 <= j < i ==> (#[trigger] pairs[j]).0@ != name,
            None => forall|i: int| 0 <= i < pairs.len() ==> (#[trigger] pairs[i]).0@ != name,
        },
    decreases pairs.len(),
{
    if pairs.len() > 0 {
        if pairs[0].0@ != name {
            let rest = pairs.skip(1);
            law_first_value(rest, name);
            match first_value(rest, name) {
                Some(v) => {
                    let i = choose|i: int|
                        0 <= i < rest.len() && (#[trigger] rest[i]).0@ == name && rest[i].1 == v
                            && forall|j: int| 0 <= j < i ==> (#[trigger] rest[j]).0@ != name;
                    assert(pairs[i + 1] == rest[i]);
                    assert forall|j: int| 0 <= j < i + 1 implies (#[trigger] pairs[j]).0@ != name by {
                        if j > 0 {
                            assert(rest[j - 1] == pairs[j]);
                        }
                    }
                },
                None => {
                    assert forall|i: int| 0 <= i < pairs.len() implies (#[trigger] pairs[i]).0@
                        != name by {
                        if i > 0 {
                            assert(rest[i - 1] == pairs[i]);
                        }
                    }
                },
            }
        } else {
            assert(pairs[0].0@ == name);
        }
    }
}

/// A variable is what the file's table says of it, and what the process says where it says nothing;
/// likewise a timeout is the one of the file's table, or the given one.
pub proof fn law_tables_decide(c: RuntimoConfig, name: &str, process: Option<String>, fallback: u64)
    ensures
        forall|r: Option<String>| #[trigger]
            call_ensures(RuntimoConfig::env_var, (&c, name, process), r) ==> r == (match first_value(
                c.env@,
                name@,
            ) {
                Some(v) => Some(v),
                None => process,
            }),
        forall|r: u64| #[trigger]
            call_ensures(RuntimoConfig::get_capability_timeout, (&c, name, fallback), r) ==> r == (
            match first_value(c.capability_timeouts@, name@) {
                Some(n) => n,
                None => fallback,
            }),
{
}

/// The guards count as off where no commands are blocked, or where the level is the lowest.
pub proof fn law_guards_off(resolved: ResolvedConfig)
    ensures
        forall|r: bool| #[trigger]
            call_ensures(RuntimoConfig::guards_off_via_profile, (&resolved,), r) ==> (r
                <==> !resolved.blocklist_enabled || resolved.dal@ == "E"@),
{
}

/// A directory that is listed, in the environment or in the file, is allowed: without the white space
/// around it and the slashes at its end, but that the root stays the root. An empty entry adds
/// nothing, and nothing else is allowed but what was there.
pub proof fn law_listed_directories(have: Seq<Seq<char>>, more: Seq<Seq<char>>, d: Seq<char>)
    ensures
        with_prefixes(have, more).contains(d) <==> have.contains(d) || exists|i: int|
            0 <= i < more.len() && !text::blank_text(#[trigger] more[i]) && d == normal_prefix(
                more[i],
            ),
    decreases more.len(),
{
    if more.len() > 0 {
        let rest = more.drop_last();
        law_listed_directories(have, rest, d);
        let before = with_prefixes(have, rest);
        let after = with_prefixes(have, more);
        let p = more.last();
        lemma_blank_is_empty(p);
        if after.contains(d) && !before.contains(d) {
            let k = choose|k: int| 0 <= k < after.len() && after[k] == d;
            if k < before.len() {
                assert(before[k] == d);
            }
            assert(!text::blank_text(more[more.len() - 1]));
        }
        if before.contains(d) {
            let k = choose|k: int| 0 <= k < before.len() && before[k] == d;
            assert(after[k] == d);
            if exists|i: int|
                0 <= i < rest.len() && !text::blank_text(#[trigger] rest[i]) && d == normal_prefix(
                    rest[i],
                ) {
                let i = choose|i: int|
                    0 <= i < rest.len() && !text::blank_text(#[trigger] rest[i]) && d
                        == normal_prefix(rest[i]);
                assert(more[i] == rest[i]);
            }
        }
        if exists|i: int|
            0 <= i < more.len() && !text::blank_text(#[trigger] more[i]) && d == normal_prefix(
                more[i],
            ) {
            let i = choose|i: int|
                0 <= i < more.len() && !text::blank_text(#[trigger] more[i]) && d == normal_prefix(
                    more[i],
                );
            if i < rest.len() {
                assert(rest[i] == more[i]);
            } else if !before.contains(d) {
                assert(after[after.len() - 1] == d);
            }
        }
    }
}

proof fn lemma_blank_is_empty(s: Seq<char>)
    ensures
        text::blank_text(s) <==> text::trimmed(s).len() == 0,
{
    text::law_trimming(s);
    let (i, j) = choose|i: int, j: int|
        #![trigger s.subrange(i, j)]
        0 <= i <= j <= s.len() && text::trimmed(s) == s.subrange(i, j) && text::blank_text(s.take(i))
            && text::blank_text(s.skip(j));
    if text::blank_text(s) {
        if i < j {
            assert(s.subrange(i, j)[0] == s[i]);
        }
    }
    if text::trimmed(s).len() == 0 {
        assert forall|k: int| 0 <= k < s.len() implies text::is_space(#[trigger] s[k]) by {
            if k < i {
                assert(s.take(i)[k] == s[k]);
            } else {
                assert(s.skip(j)[k - j] == s[k]);
            }
        }
    }
}

/// The directories of the environment, between colons, and those of the file are all allowed, beside
/// the two for temporary files.
pub proof fn law_allowed_directories(c: RuntimoConfig, env: Environment, i: int)
    ensures
        prefixes_allowed(c, env).contains("/tmp"@),
        prefixes_allowed(c, env).contains("/var/tmp"@),
        0 <= i < c.allowed_paths@.len() && !text::blank_text(c.allowed_paths@[i]@)
            ==> prefixes_allowed(c, env).contains(normal_prefix(c.allowed_paths@[i]@)),
        env.allowed_paths matches Some(v) ==> 0 <= i < text::pieces(v@, ':').len()
            && !text::blank_text(text::pieces(v@, ':')[i]) ==> prefixes_allowed(c, env).contains(
            normal_prefix(text::pieces(v@, ':')[i]),
        ),
{
    law_prefixes(c, env);
    let base = seq!["/tmp"@, "/var/tmp"@];
    let listed = match env.allowed_paths {
        Some(v) => text::pieces(v@, ':'),
        None => Seq::empty(),
    };
    let mid = with_prefixes(base, listed);
    let of_file = text::texts(c.allowed_paths@);
    if 0 <= i < c.allowed_paths@.len() && !text::blank_text(c.allowed_paths@[i]@) {
        assert(of_file[i] == c.allowed_paths@[i]@);
        law_listed_directories(mid, of_file, normal_prefix(of_file[i]));
    }
    if env.allowed_paths is Some && 0 <= i < listed.len() && !text::blank_text(listed[i]) {
        law_listed_directories(base, listed, normal_prefix(listed[i]));
        law_listed_directories(mid, of_file, normal_prefix(listed[i]));
    }
}

/// A directory is kept without the white space around it and without the slashes at its end; slashes
/// alone are the root.
pub proof fn law_kept_directory(p: Seq<char>)
    ensures
        ({
            let s = text::trimmed(p);
            exists|k: int|
                0 <= k <= s.len() && (k > 0 ==> s[k - 1] != '/') && (forall|i: int|
                    k <= i < s.len() ==> #[trigger] s[i] == '/') && normal_prefix(p) == (if k == 0 {
                    seq!['/']
                } else {
                    #[trigger] s.take(k)
                })
        }),
{
    reveal_strlit("/");
    let s = text::trimmed(p);
    lemma_slashes(s);
    let k = text::without_back(s, '/').len() as int;
    assert("/"@ =~= seq!['/']);
    assert(s.take(k) == text::without_back(s, '/'));
}

proof fn lemma_slashes(s: Seq<char>)
    ensures
        text::without_back(s, '/').len() <= s.len(),
        text::without_back(s, '/') == s.take(text::without_back(s, '/').len() as int),
        text::without_back(s, '/').len() > 0 ==> s[text::without_back(s, '/').len() - 1] != '/',
        forall|i: int| text::without_back(s, '/').len() <= i < s.len() ==> #[trigger] s[i] == '/',
    decreases s.len(),
{
    if s.len() > 0 && s.last() == '/' {
        let rest = s.drop_last();
        lemma_slashes(rest);
        let n = text::without_back(s, '/').len() as int;
        assert(rest.take(n) =~= s.take(n));
        assert forall|i: int| n <= i < s.len() implies #[trigger] s[i] == '/' by {
            if i < rest.len() {
                assert(rest[i] == s[i]);
            }
        }
    } else {
        assert(s.take(s.len() as int) =~= s);
    }
}

/// A throwaway configuration belongs in a directory for temporary files, in that of a notebook, or
/// among the user's settings; anywhere else a warning names its path.
pub proof fn law_throwaway_places(path: &str, rest: Seq<char>, xdg: &str, profile: Option<&str>)
    ensures
        throwaway_place(seq!['/', 't', 'm', 'p', '/'] + rest, xdg@),
        path@ == "/tmp"@ || path@ == "/var/tmp/"@ + rest || path@ == "/kaggle/working/"@ + rest || (
        xdg@.len() > 0 && path@ == xdg@ + rest) ==> throwaway_place(path@, xdg@),
        forall|r: Option<String>| #[trigger]
            call_ensures(RuntimoConfig::init_warning, (path, profile, xdg), r) ==> (r is Some
                <==> profile is Some && text::lowered(profile->0@) == "ephemeral"@
                && !throwaway_place(path@, xdg@)),
{
    reveal_strlit("/tmp/");
    let a = seq!['/', 't', 'm', 'p', '/'];
    assert(a =~= "/tmp/"@);
    assert((a + rest).take(a.len() as int) =~= a);
    assert(("/var/tmp/"@ + rest).take("/var/tmp/"@.len() as int) =~= "/var/tmp/"@);
    assert(("/kaggle/working/"@ + rest).take("/kaggle/working/"@.len() as int)
        =~= "/kaggle/working/"@);
    assert((xdg@ + rest).take(xdg@.len() as int) =~= xdg@);
}

/// A config file that is there is overwritten only where that is forced; what is written is the
/// template of the profile.
pub proof fn law_init_overwrites_only_by_force(
    path: &str,
    profile: Option<&str>,
    force: bool,
    present: bool,
)
    ensures
        forall|r: Result<String, String>| #[trigger]
            call_ensures(RuntimoConfig::init_at, (path, profile, force, present), r) ==> (r is Ok
                <==> force || !present),
{
}


/// No directory is allowed but the two that are always, those of the environment and those of the
/// file.
pub proof fn law_no_other_directories(c: RuntimoConfig, env: Environment, d: Seq<char>)
    requires
        prefixes_allowed(c, env).contains(d),
    ensures
        d == "/tmp"@ || d == "/var/tmp"@ || (exists|i: int|
            0 <= i < c.allowed_paths@.len() && d == normal_prefix(
                (#[trigger] c.allowed_paths@[i])@,
            )) || (env.allowed_paths is Some && exists|i: int|
            0 <= i < text::pieces((env.allowed_paths->0)@, ':').len() && d == normal_prefix(
                #[trigger] text::pieces((env.allowed_paths->0)@, ':')[i],
            )),
{
    let base = seq!["/tmp"@, "/var/tmp"@];
    let listed = match env.allowed_paths {
        Some(v) => text::pieces(v@, ':'),
        None => Seq::empty(),
    };
    let mid = with_prefixes(base, listed);
    let of_file = text::texts(c.allowed_paths@);
    law_listed_directories(mid, of_file, d);
    law_listed_directories(base, listed, d);
    assert(of_file.len() == c.allowed_paths@.len());
    assert(forall|i: int| 0 <= i < of_file.len() ==> of_file[i] == (#[trigger] c.allowed_paths@[i])@);
    if mid.contains(d) {
        if base.contains(d) {
            let k = choose|k: int| 0 <= k < base.len() && base[k] == d;
            assert(k == 0 || k == 1);
        }
    } else {
        let i = choose|i: int|
            0 <= i < of_file.len() && !text::blank_text(#[trigger] of_file[i]) && d
                == normal_prefix(of_file[i]);
        assert(d == normal_prefix(c.allowed_paths@[i]@));
    }
}

/// A guard is on or off as the top level of the file says, else as its table of guards says, else
/// it is off under the throwaway profile and on under any other.
pub proof fn law_switches(
    c: RuntimoConfig,
    blocklist: bool,
    critical: bool,
    restriction: bool,
    sanitization: bool,
)
    requires
        call_ensures(RuntimoConfig::blocklist_enabled, (&c,), blocklist),
        call_ensures(RuntimoConfig::critical_files_enabled, (&c,), critical),
        call_ensures(RuntimoConfig::path_restriction_enabled, (&c,), restriction),
        call_ensures(RuntimoConfig::path_sanitization_enabled, (&c,), sanitization),
    ensures
        c.blocklist_enabled is Some ==> blocklist == c.blocklist_enabled->0,
        c.blocklist_enabled is None && c.guards.blocklist_enabled is Some ==> blocklist
            == c.guards.blocklist_enabled->0,
        c.blocklist_enabled is None && c.guards.blocklist_enabled is None ==> (blocklist
            <==> c.profile_in_force() != "ephemeral"@),
        c.critical_files_enabled is Some ==> critical == c.critical_files_enabled->0,
        c.critical_files_enabled is None && c.guards.critical_files_enabled is Some ==> critical
            == c.guards.critical_files_enabled->0,
        c.critical_files_enabled is None && c.guards.critical_files_enabled is None ==> (critical
            <==> c.profile_in_force() != "ephemeral"@),
        c.path_restriction_enabled is Some ==> restriction == c.path_restriction_enabled->0,
        c.path_restriction_enabled is None && c.guards.path_restriction_enabled is Some
            ==> restriction == c.guards.path_restriction_enabled->0,
        c.path_restriction_enabled is None && c.guards.path_restriction_enabled is None ==> (
        restriction <==> c.profile_in_force() != "ephemeral"@),
        c.path_sanitization_enabled is Some ==> sanitization == c.path_sanitization_enabled->0,
        c.path_sanitization_enabled is None && c.guards.path_sanitization_enabled is Some
            ==> sanitization == c.guards.path_sanitization_enabled->0,
        c.path_sanitization_enabled is None && c.guards.path_sanitization_enabled is None ==> (
        sanitization <==> c.profile_in_force() != "ephemeral"@),
{
}

/// A file that is there and can be read gives its configuration; one that is not there leaves
/// everything unset; one that cannot be read or parsed is an error where errors are asked for, and
/// leaves everything unset where they are not.
pub proof fn law_loading(
    path: &str,
    file: ConfigFile,
    checked: Result<RuntimoConfig, String>,
    plain: RuntimoConfig,
)
    requires
        call_ensures(RuntimoConfig::load_result, (path, file), checked),
        call_ensures(RuntimoConfig::load, (path, file), plain),
    ensures
        file is Read ==> checked is Ok && checked->Ok_0 == file->Read_0 && plain == file->Read_0,
        file is Missing ==> checked is Ok && (checked->Ok_0).dal is None && (
        checked->Ok_0).profile is None && (checked->Ok_0).allowed_paths@.len() == 0,
        file is Unreadable ==> checked is Err && (checked->Err_0)@ == "Cannot "@ + "read"@
            + " config file '"@ + path@ + "': "@ + (file->Unreadable_0)@,
        file is Malformed ==> checked is Err && (checked->Err_0)@ == "Cannot "@ + "parse"@
            + " config file '"@ + path@ + "': "@ + (file->Malformed_0)@,
        !(file is Read) ==> plain.dal is None && plain.profile is None
            && plain.allowed_paths@.len() == 0 && plain.blocklist_enabled is None
            && plain.guards.blocklist_enabled is None && plain.env@.len() == 0,
{
}

/// A configuration is written beside its file first, hidden, under the name of the file.
pub proof fn law_temporary_names(name: Option<String>, r: String)
    requires
        call_ensures(RuntimoConfig::temp_name, (&name,), r),
    ensures
        name is Some ==> r@ == "."@ + (name->0)@ + ".tmp"@,
        name is None ==> r@ == "."@ + "config.toml"@ + ".tmp"@,
{
}

/// The template that is written is the one of the profile that is named.
pub proof fn law_template_written(
    path: &str,
    profile: Option<&str>,
    force: bool,
    present: bool,
    r: Result<String, String>,
    t: String,
)
    requires
        call_ensures(RuntimoConfig::init_at, (path, profile, force, present), r),
        call_ensures(RuntimoConfig::init_template, (profile,), t),
    ensures
        r is Ok ==> (r->Ok_0)@ == t@,
        profile is Some ==> t@ == template::template_of(Some((profile->0)@)),
        profile is None ==> t@ == template::template_of(None),
        r is Err ==> (r->Err_0)@ == "config already exists at "@ + path@
            + " - use --force to overwrite"@,
{
}

} // verus!
