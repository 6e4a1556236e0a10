//! What the host machine looks like, read from the text of kernel files and the output of a few
//! probes. Everything here works on that text; reading the files and running the probes is the
//! caller's part.
use vstd::prelude::*;
use vstd::string::*;

use crate::text;

verus! {

broadcast use vstd::string::group_string_axioms;

/// How long a snapshot is served again, in seconds.
pub const CACHE_TTL_SECS: u64 = 30;

/// A snapshot of the machine.
#[derive(Debug)]
pub struct Telemetry {
    /// Unix time of the snapshot, in seconds.
    pub timestamp: u64,
    pub system: SystemInfo,
    pub hardware: HardwareInfo,
    pub network: NetworkInfo,
}

/// Processor, memory, disk, uptime and load.
#[derive(Debug)]
pub struct SystemInfo {
    pub cpu_model: String,
    /// Number of logical processors.
    pub cpu_count: u32,
    pub ram_total: String,
    pub ram_free: String,
    pub ram_available: String,
    pub disk_total: String,
    pub disk_free: String,
    /// Used share of the disk in percent, without the percent sign.
    pub disk_used_percent: String,
    pub uptime: String,
    pub uptime_seconds: u64,
    pub load_average: String,
}

/// Accelerator devices.
#[derive(Debug)]
pub struct HardwareInfo {
    pub accelerators: Vec<AcceleratorInfo>,
    pub jax_available: bool,
    pub jax_version: Option<String>,
    pub jax_device_count: Option<usize>,
}

/// The accelerators of one kind.
#[derive(Debug)]
pub struct AcceleratorInfo {
    /// `gpu`, `tpu` or `npu`.
    pub kind: String,
    pub count: usize,
    pub vendor: Option<String>,
    pub model: Option<String>,
}

/// Public address, tunnel and listening ports.
#[derive(Debug)]
pub struct NetworkInfo {
    pub public_ip: String,
    pub tunnel_running: bool,
    pub tunnel_pid: Option<u32>,
    /// Listening TCP ports, ascending and without repeats.
    pub listening_ports: Vec<u16>,
}

/// What [`SystemInfo::capture`] reads: the text of `/proc/cpuinfo`, `/proc/meminfo` and
/// `/proc/loadavg`, the whole seconds of `/proc/uptime`, and the disk figures that `df` prints.
#[derive(Debug)]
pub struct SystemReadings {
    pub cpuinfo: String,
    pub meminfo: String,
    pub uptime_seconds: u64,
    pub loadavg: String,
    pub disk_total: String,
    pub disk_free: String,
    pub disk_percent: String,
}

/// What [`HardwareInfo::capture`] reads: the output of the probes for accelerators and for JAX.
#[derive(Debug)]
pub struct HardwareReadings {
    pub tpu_count: String,
    pub nvidia_count: String,
    pub nvidia_model: String,
    pub amd_count: String,
    pub dri_count: String,
    pub jax_import: String,
    pub jax_version: String,
    pub jax_devices: String,
}

/// What [`NetworkInfo::capture`] reads: the setting that allows the public address to be asked
/// for, the answer, the entries of `/proc` with the text of their `comm` file, and the text of
/// `/proc/net/tcp` and `/proc/net/tcp6`.
#[derive(Debug)]
pub struct NetworkReadings {
    pub public_ip_setting: Option<String>,
    pub public_ip_answer: String,
    pub processes: Vec<(String, String)>,
    pub tcp: String,
    pub tcp6: String,
}

// ---------------------------------------------------------------------------
// Memory and uptime
// ---------------------------------------------------------------------------

/// The first of some lines that begins with `key`.
pub open spec fn first_line(ls: Seq<Seq<char>>, key: Seq<char>) -> Option<Seq<char>>
    decreases ls.len(),
{
    if ls.len() == 0 {
        None
    } else if key.is_prefix_of(ls[0]) {
        Some(ls[0])
    } else {
        first_line(ls.skip(1), key)
    }
}

/// The number behind `key` in the text of `/proc/meminfo`, and 0 where there is none.
pub open spec fn meminfo_kb(data: Seq<char>, key: Seq<char>) -> int {
    match first_line(text::lines(data), key) {
        Some(l) => if text::words(l).len() > 1 {
            match text::parsed(text::words(l)[1], 10, u64::MAX as int) {
                Some(n) => n,
                None => 0,
            }
        } else {
            0
        },
        None => 0,
    }
}

/// A number of kilobytes in the largest binary unit that it reaches, rounded down.
pub open spec fn mem_text(kb: u64) -> Seq<char> {
    if kb >= 1048576 {
        text::decimal((kb / 1048576) as nat) + "Gi"@
    } else if kb >= 1024 {
        text::decimal((kb / 1024) as nat) + "Mi"@
    } else {
        text::decimal(kb as nat) + "Ki"@
    }
}

/// `n` of some unit, in the plural unless there is one.
pub open spec fn counted(n: u64, unit: Seq<char>) -> Seq<char> {
    text::decimal(n as nat) + unit + (if n == 1 {
        ""@
    } else {
        "s"@
    })
}

/// The days, hours and minutes of an uptime that are not zero, and the minutes where nothing else
/// is left.
pub open spec fn uptime_parts(total: u64) -> Seq<Seq<char>> {
    let days = total / 86400;
    let hours = (total % 86400) / 3600;
    let minutes = (total % 3600) / 60;
    let d = if days > 0 {
        seq![counted(days, " day"@)]
    } else {
        Seq::empty()
    };
    let h = if hours > 0 {
        d.push(counted(hours, " hour"@))
    } else {
        d
    };
    if minutes > 0 || h.len() == 0 {
        h.push(counted(minutes, " minute"@))
    } else {
        h
    }
}

/// An uptime in words.
pub open spec fn uptime_text(total: u64) -> Seq<char> {
    "up "@ + text::joined(uptime_parts(total), ", "@)
}

/// Finds the first line that begins with `key`.
fn find_line(ls: &Vec<String>, key: &str) -> (r: Option<usize>)
    ensures
        match r {
            Some(i) => i < ls@.len() && first_line(text::texts(ls@), key@) == Some(ls@[i as int]@),
            None => first_line(text::texts(ls@), key@) is None,
        },
{
    let ghost all = text::texts(ls@);
    assert(all.skip(0) =~= all);
    for i in 0..ls.len()
        invariant
            all == text::texts(ls@),
            first_line(all, key@) == first_line(all.skip(i as int), key@),
    {
        assert(all.skip(i as int)[0] == ls@[i as int]@);
        if text::starts_with(ls[i].as_str(), key) {
            return Some(i);
        }
        assert(all.skip(i as int).skip(1) =~= all.skip(i + 1));
    }
    None
}

/// The number behind `key` in the text of `/proc/meminfo`.
///
/// It is 0 where no line begins with `key` or what follows is no number.
pub fn parse_meminfo_kb(data: &str, key: &str) -> (r: u64)
    ensures
        r == meminfo_kb(data@, key@),
{
    let ls = text::split_lines(data);
    match find_line(&ls, key) {
        Some(i) => {
            let ws = text::split_words(ls[i].as_str());
            assert(text::texts(ws@) == text::words(ls@[i as int]@));
            if ws.len() > 1 {
                assert(text::texts(ws@)[1] == ws@[1]@);
                match text::parse_number(ws[1].as_str(), 10, u64::MAX) {
                    Some(n) => n,
                    None => 0,
                }
            } else {
                0
            }
        },
        None => 0,
    }
}

/// A number of kilobytes for people to read: `512Ki`, `750Mi`, `16Gi`.
pub fn format_mem_kb(kb: u64) -> (r: String)
    ensures
        r@ == mem_text(kb),
{
    if kb >= 1048576 {
        let mut r = text::decimal_text(kb / 1048576);
        r.append("Gi");
        r
    } else if kb >= 1024 {
        let mut r = text::decimal_text(kb / 1024);
        r.append("Mi");
        r
    } else {
        let mut r = text::decimal_text(kb);
        r.append("Ki");
        r
    }
}

/// `n` of some unit, in the plural unless there is one.
fn count_of(n: u64, unit: &str) -> (r: String)
    ensures
        r@ == counted(n, unit@),
{
    let mut r = text::decimal_text(n);
    r.append(unit);
    r.append(
        if n == 1 {
            ""
        } else {
            "s"
        },
    );
    r
}

/// An uptime for people to read: `up 6 days, 2 hours, 13 minutes`.
pub fn format_uptime(total_seconds: u64) -> (r: String)
    ensures
        r@ == uptime_text(total_seconds),
{
    let days = total_seconds / 86400;
    let hours = (total_seconds % 86400) / 3600;
    let minutes = (total_seconds % 3600) / 60;
    let mut parts: Vec<String> = Vec::new();
    if days > 0 {
        parts.push(count_of(days, " day"));
    }
    if hours > 0 {
        parts.push(count_of(hours, " hour"));
    }
    if minutes > 0 || parts.len() == 0 {
        parts.push(count_of(minutes, " minute"));
    }
    assert(text::texts(parts@) =~= uptime_parts(total_seconds));
    let mut r = "up ".to_owned();
    r.append(text::join(&parts, ", ").as_str());
    r
}

// ---------------------------------------------------------------------------
// System
// ---------------------------------------------------------------------------

/// The processor's name in the text of `/proc/cpuinfo`.
pub open spec fn model_name(cpuinfo: Seq<char>) -> Seq<char> {
    match first_line(text::lines(cpuinfo), "model name"@) {
        Some(l) => if text::pieces(l, ':').len() > 1 {
            text::trimmed(text::pieces(l, ':')[1])
        } else {
            "unknown"@
        },
        None => "unknown"@,
    }
}

/// How many of some lines begin with `key`.
pub open spec fn count_lines(ls: Seq<Seq<char>>, key: Seq<char>) -> nat
    decreases ls.len(),
{
    if ls.len() == 0 {
        0
    } else {
        count_lines(ls.drop_last(), key) + (if key.is_prefix_of(ls.last()) {
            1nat
        } else {
            0
        })
    }
}

/// The number of processors in the text of `/proc/cpuinfo`, and 0 where it is out of range.
pub open spec fn processor_count(cpuinfo: Seq<char>) -> nat {
    let n = count_lines(text::lines(cpuinfo), "processor"@);
    if n <= u32::MAX {
        n
    } else {
        0
    }
}

/// The first three figures of `/proc/loadavg`.
pub open spec fn load_text(loadavg: Seq<char>) -> Seq<char> {
    let w = text::words(loadavg);
    if w.len() >= 3 {
        w[0] + ", "@ + w[1] + ", "@ + w[2]
    } else {
        "unknown"@
    }
}

/// `s` without the percent signs in it.
pub open spec fn without_percent(s: Seq<char>) -> Seq<char>
    decreases s.len(),
{
    if s.len() == 0 {
        s
    } else if s.last() == '%' {
        without_percent(s.drop_last())
    } else {
        without_percent(s.drop_last()).push(s.last())
    }
}

/// Counts the lines that begin with `key`.
fn count_with_prefix(ls: &Vec<String>, key: &str) -> (n: usize)
    ensures
        n == count_lines(text::texts(ls@), key@),
{
    let ghost all = text::texts(ls@);
    let mut n: usize = 0;
    for i in 0..ls.len()
        invariant
            all == text::texts(ls@),
            n <= i,
            n == count_lines(all.take(i as int), key@),
    {
        assert(all.take(i + 1).drop_last() =~= all.take(i as int));
        if text::starts_with(ls[i].as_str(), key) {
            n = n + 1;
        }
    }
    assert(all.take(ls@.len() as int) =~= all);
    n
}

/// Takes the percent signs out of a text.
fn drop_percent(s: &str) -> (r: String)
    ensures
        r@ == without_percent(s@),
{
    let cs = text::chars_of(s);
    let mut r: String = String::new();
    assert(without_percent(s@.take(0)) =~= r@);
    for i in 0..cs.len()
        invariant
            cs@ == s@,
            r@ == without_percent(s@.take(i as int)),
    {
        assert(s@.take(i + 1).drop_last() =~= s@.take(i as int));
        if cs[i] != '%' {
            text::push_char(&mut r, cs[i]);
        }
    }
    assert(s@.take(s@.len() as int) =~= s@);
    r
}

impl SystemInfo {
    /// Reads the system figures.
    pub fn capture(from: &SystemReadings) -> (r: SystemInfo)
        ensures
            r.cpu_model@ == model_name(from.cpuinfo@),
            r.cpu_count == processor_count(from.cpuinfo@),
            r.ram_total@ == mem_text(meminfo_kb(from.meminfo@, "MemTotal:"@) as u64),
            r.ram_free@ == mem_text(meminfo_kb(from.meminfo@, "MemFree:"@) as u64),
            r.ram_available@ == mem_text(meminfo_kb(from.meminfo@, "MemAvailable:"@) as u64),
            r.disk_total@ == from.disk_total@,
            r.disk_free@ == from.disk_free@,
            r.disk_used_percent@ == without_percent(from.disk_percent@),
            r.uptime@ == uptime_text(from.uptime_seconds),
            r.uptime_seconds == from.uptime_seconds,
            r.load_average@ == load_text(from.loadavg@),
    {
        let ls = text::split_lines(from.cpuinfo.as_str());
        let cpu_model = match find_line(&ls, "model name") {
            Some(i) => {
                let parts = text::split(ls[i].as_str(), ':');
                assert(text::texts(parts@).len() == parts@.len());
                if parts.len() > 1 {
                    assert(text::texts(parts@)[1] == parts@[1]@);
                    text::trim(parts[1].as_str())
                } else {
                    "unknown".to_owned()
                }
            },
            None => "unknown".to_owned(),
        };
        let n = count_with_prefix(&ls, "processor");
        let cpu_count: u32 = if n <= 0xffff_ffff {
            n as u32
        } else {
            0
        };
        let fields = text::split_words(from.loadavg.as_str());
        assert(text::texts(fields@).len() == fields@.len());
        let load_average = if fields.len() >= 3 {
            assert(text::texts(fields@)[0] == fields@[0]@);
            assert(text::texts(fields@)[1] == fields@[1]@);
            assert(text::texts(fields@)[2] == fields@[2]@);
            let mut l = fields[0].clone();
            l.append(", ");
            l.append(fields[1].as_str());
            l.append(", ");
            l.append(fields[2].as_str());
            l
        } else {
            "unknown".to_owned()
        };
        SystemInfo {
            cpu_model,
            cpu_count,
            ram_total: format_mem_kb(parse_meminfo_kb(from.meminfo.as_str(), "MemTotal:")),
            ram_free: format_mem_kb(parse_meminfo_kb(from.meminfo.as_str(), "MemFree:")),
            ram_available: format_mem_kb(parse_meminfo_kb(from.meminfo.as_str(), "MemAvailable:")),
            disk_total: from.disk_total.clone(),
            disk_free: from.disk_free.clone(),
            disk_used_percent: drop_percent(from.disk_percent.as_str()),
            uptime: format_uptime(from.uptime_seconds),
            uptime_seconds: from.uptime_seconds,
            load_average,
        }
    }
}

// ---------------------------------------------------------------------------
// Hardware
// ---------------------------------------------------------------------------

/// The model of an [`AcceleratorInfo`].
pub ghost struct Accelerator {
    pub kind: Seq<char>,
    pub count: int,
    pub vendor: Option<Seq<char>>,
    pub model: Option<Seq<char>>,
}

/// The model of a text that may be absent.
pub open spec fn text_view(o: Option<String>) -> Option<Seq<char>> {
    match o {
        Some(s) => Some(s@),
        None => None,
    }
}

impl AcceleratorInfo {
    pub open spec fn view(&self) -> Accelerator {
        Accelerator {
            kind: self.kind@,
            count: self.count as int,
            vendor: text_view(self.vendor),
            model: text_view(self.model),
        }
    }
}

/// The models of accelerators.
pub open spec fn accelerator_views(v: Seq<AcceleratorInfo>) -> Seq<Accelerator> {
    v.map_values(|a: AcceleratorInfo| a.view())
}

/// The number that a probe printed, and 0 where it printed none.
pub open spec fn probe_count(s: Seq<char>) -> int {
    match text::parsed(s, 10, usize::MAX as int) {
        Some(n) => n,
        None => 0,
    }
}

/// The accelerators that the probes found: TPUs, NVIDIA and AMD GPUs, and render devices where
/// neither GPU vendor reported any.
pub open spec fn accelerators_found(p: HardwareReadings) -> Seq<Accelerator> {
    let tpu = probe_count(p.tpu_count@);
    let nvidia = probe_count(p.nvidia_count@);
    let amd = probe_count(p.amd_count@);
    let dri = probe_count(p.dri_count@);
    let tpus = if tpu > 0 {
        seq![Accelerator { kind: "tpu"@, count: tpu, vendor: Some("google"@), model: None }]
    } else {
        Seq::empty()
    };
    let nvidias = if nvidia > 0 {
        seq![
            Accelerator {
                kind: "gpu"@,
                count: nvidia,
                vendor: Some("nvidia"@),
                model: if p.nvidia_model@.len() == 0 {
                    None
                } else {
                    Some(p.nvidia_model@)
                },
            },
        ]
    } else {
        Seq::empty()
    };
    let amds = if amd > 0 {
        seq![Accelerator { kind: "gpu"@, count: amd, vendor: Some("amd"@), model: None }]
    } else {
        Seq::empty()
    };
    let others = if nvidia == 0 && amd == 0 && dri > 0 {
        seq![Accelerator { kind: "gpu"@, count: dri, vendor: None, model: Some("drm-render"@) }]
    } else {
        Seq::empty()
    };
    tpus + nvidias + amds + others
}

/// The number that a probe printed.
fn read_count(s: &str) -> (n: usize)
    ensures
        n == probe_count(s@),
{
    match text::parse_number(s, 10, usize::MAX as u64) {
        Some(n) => n as usize,
        None => 0,
    }
}

impl HardwareInfo {
    /// Reads the accelerators.
    pub fn capture(from: &HardwareReadings) -> (r: HardwareInfo)
        ensures
            accelerator_views(r.accelerators@) == accelerators_found(*from),
            r.jax_available == (from.jax_import@ == "yes"@),
            text_view(r.jax_version) == (if from.jax_import@ == "yes"@ {
                Some(from.jax_version@)
            } else {
                None
            }),
            match r.jax_device_count {
                Some(n) => from.jax_import@ == "yes"@ && text::parsed(
                    from.jax_devices@,
                    10,
                    usize::MAX as int,
                ) == Some(n as int),
                None => from.jax_import@ != "yes"@ || text::parsed(
                    from.jax_devices@,
                    10,
                    usize::MAX as int,
                ) is None,
            },
    {
        let mut accelerators: Vec<AcceleratorInfo> = Vec::new();
        let tpu = read_count(from.tpu_count.as_str());
        if tpu > 0 {
            accelerators.push(
                AcceleratorInfo {
                    kind: "tpu".to_owned(),
                    count: tpu,
                    vendor: Some("google".to_owned()),
                    model: None,
                },
            );
        }
        let nvidia = read_count(from.nvidia_count.as_str());
        if nvidia > 0 {
            accelerators.push(
                AcceleratorInfo {
                    kind: "gpu".to_owned(),
                    count: nvidia,
                    vendor: Some("nvidia".to_owned()),
                    model: if from.nvidia_model.as_str().is_empty() {
                        None
                    } else {
                        Some(from.nvidia_model.clone())
                    },
                },
            );
        }
        let amd = read_count(from.amd_count.as_str());
        if amd > 0 {
            accelerators.push(
                AcceleratorInfo {
                    kind: "gpu".to_owned(),
                    count: amd,
                    vendor: Some("amd".to_owned()),
                    model: None,
                },
            );
        }
        if nvidia == 0 && amd == 0 {
            let dri = read_count(from.dri_count.as_str());
            if dri > 0 {
                accelerators.push(
                    AcceleratorInfo {
                        kind: "gpu".to_owned(),
                        count: dri,
                        vendor: None,
                        model: Some("drm-render".to_owned()),
                    },
                );
            }
        }
        assert(accelerator_views(accelerators@) =~= accelerators_found(*from));
        let jax_available = text::same(from.jax_import.as_str(), "yes");
        let jax_version = if jax_available {
            Some(from.jax_version.clone())
        } else {
            None
        };
        let jax_device_count = if jax_available {
            match text::parse_number(from.jax_devices.as_str(), 10, usize::MAX as u64) {
                Some(n) => Some(n as usize),
                None => None,
            }
        } else {
            None
        };
        HardwareInfo { accelerators, jax_available, jax_version, jax_device_count }
    }
}

// ---------------------------------------------------------------------------
// Network
// ---------------------------------------------------------------------------

/// All characters are decimal digits.
pub open spec fn all_digits(s: Seq<char>) -> bool {
    forall|i: int| 0 <= i < s.len() ==> '0' <= #[trigger] s[i] <= '9'
}

/// The process number of an entry of `/proc` whose process is the tunnel.
pub open spec fn tunnel_entry(name: Seq<char>, comm: Seq<char>) -> Option<int> {
    if all_digits(name) && text::trimmed(comm) == "cloudflared"@ {
        text::parsed(name, 10, u32::MAX as int)
    } else {
        None
    }
}

/// The process number of the first entry whose process is the tunnel.
pub open spec fn tunnel_process(entries: Seq<(String, String)>) -> Option<int>
    decreases entries.len(),
{
    if entries.len() == 0 {
        None
    } else {
        match tunnel_entry(entries[0].0@, entries[0].1@) {
            Some(pid) => Some(pid),
            None => tunnel_process(entries.skip(1)),
        }
    }
}

/// The port that a line of `/proc/net/tcp` shows as listening.
pub open spec fn listening_port(line: Seq<char>) -> Option<int> {
    let w = text::words(line);
    if w.len() < 4 || w[3] != "0A"@ || text::pieces(w[1], ':').len() < 2 {
        None
    } else {
        text::parsed(text::pieces(w[1], ':')[1], 16, u16::MAX as int)
    }
}

/// Some line of a socket table but its first shows `port` as listening.
pub open spec fn listens(data: Seq<char>, port: int) -> bool {
    exists|i: int|
        1 <= i < text::lines(data).len() && listening_port(#[trigger] text::lines(data)[i]) == Some(
            port,
        )
}

/// Strictly increasing.
pub open spec fn ascending(s: Seq<u16>) -> bool {
    forall|i: int, j: int| 0 <= i < j < s.len() ==> s[i] < s[j]
}

/// Whether all characters are decimal digits.
fn is_number_name(s: &str) -> (r: bool)
    ensures
        r == all_digits(s@),
{
    let cs = text::chars_of(s);
    for i in 0..cs.len()
        invariant
            cs@ == s@,
            forall|j: int| 0 <= j < i ==> '0' <= #[trigger] s@[j] <= '9',
    {
        if cs[i] < '0' || cs[i] > '9' {
            assert(!('0' <= s@[i as int] <= '9'));
            return false;
        }
    }
    true
}

/// Looks for the tunnel process among the entries of `/proc`: whether it runs, and its number.
pub fn detect_cloudflared(entries: &Vec<(String, String)>) -> (r: (bool, Option<u32>))
    ensures
        r.0 == (tunnel_process(entries@) is Some),
        match r.1 {
            Some(pid) => tunnel_process(entries@) == Some(pid as int),
            None => tunnel_process(entries@) is None,
        },
{
    assert(entries@.skip(0) =~= entries@);
    for i in 0..entries.len()
        invariant
            tunnel_process(entries@) == tunnel_process(entries@.skip(i as int)),
    {
        assert(entries@.skip(i as int)[0] == entries@[i as int]);
        assert(entries@.skip(i as int).skip(1) =~= entries@.skip(i + 1));
        let name = entries[i].0.as_str();
        if is_number_name(name) && text::same(
            text::trim(entries[i].1.as_str()).as_str(),
            "cloudflared",
        ) {
            match text::parse_number(name, 10, 0xffff_ffff) {
                Some(pid) => {
                    return (true, Some(pid as u32));
                },
                None => {},
            }
        }
    }
    (false, None)
}

/// Adds a port to a strictly increasing list, unless it is there.
fn add_port(ports: &mut Vec<u16>, port: u16)
    requires
        ascending(old(ports)@),
    ensures
        ascending(final(ports)@),
        forall|p: u16| #[trigger]
            final(ports)@.contains(p) <==> old(ports)@.contains(p) || p == port,
{
    let mut i: usize = 0;
    while i < ports.len() && ports[i] < port
        invariant
            ascending(ports@),
            i <= ports@.len(),
            forall|j: int| 0 <= j < i ==> ports@[j] < port,
        decreases ports@.len() - i,
    {
        i = i + 1;
    }
    if i < ports.len() && ports[i] == port {
        assert(ports@[i as int] == port);
        return;
    }
    let ghost before = ports@;
    ports.insert(i, port);
    assert(ports@ == before.insert(i as int, port));
    assert(ports@[i as int] == port);
    assert forall|p: u16| ports@.contains(p) <==> before.contains(p) || p == port by {
        if before.contains(p) {
            let j = choose|j: int| 0 <= j < before.len() && before[j] == p;
            assert(ports@[if j < i {
                j
            } else {
                j + 1
            }] == p);
        }
        if ports@.contains(p) && p != port {
            let j = choose|j: int| 0 <= j < ports@.len() && ports@[j] == p;
            assert(before[if j < i {
                j
            } else {
                j - 1
            }] == p);
        }
    }
}

/// The port that a line of a socket table shows as listening.
fn port_of_line(line: &str) -> (r: Option<u16>)
    ensures
        match r {
            Some(p) => listening_port(line@) == Some(p as int),
            None => listening_port(line@) is None,
        },
{
    let ws = text::split_words(line);
    assert(text::texts(ws@).len() == ws@.len());
    if ws.len() < 4 {
        return None;
    }
    assert(text::texts(ws@)[3] == ws@[3]@);
    assert(text::texts(ws@)[1] == ws@[1]@);
    if !text::same(ws[3].as_str(), "0A") {
        return None;
    }
    let ps = text::split(ws[1].as_str(), ':');
    assert(text::texts(ps@).len() == ps@.len());
    if ps.len() < 2 {
        return None;
    }
    assert(text::texts(ps@)[1] == ps@[1]@);
    match text::parse_number(ps[1].as_str(), 16, 0xffff) {
        Some(p) => Some(p as u16),
        None => None,
    }
}

/// Adds the listening ports of one socket table to a strictly increasing list.
fn add_listening(ports: &mut Vec<u16>, data: &str)
    requires
        ascending(old(ports)@),
    ensures
        ascending(final(ports)@),
        forall|p: u16| #[trigger]
            final(ports)@.contains(p) <==> old(ports)@.contains(p) || listens(data@, p as int),
{
    let ls = text::split_lines(data);
    let ghost all = text::lines(data@);
    let ghost before = ports@;
    assert(all.len() == ls@.len());
    if ls.len() == 0 {
        return;
    }
    for i in 1..ls.len()
        invariant
            text::texts(ls@) == all,
            all == text::lines(data@),
            all.len() == ls@.len(),
            ascending(ports@),
            forall|p: u16| #[trigger]
                ports@.contains(p) <==> before.contains(p) || exists|j: int|
                    1 <= j < i && listening_port(#[trigger] all[j]) == Some(p as int),
    {
        assert(all[i as int] == ls@[i as int]@);
        match port_of_line(ls[i].as_str()) {
            Some(port) => {
                add_port(ports, port);
            },
            None => {},
        }
    }
}

/// The listening TCP ports, ascending and without repeats.
pub fn read_listening_ports(tcp: &str, tcp6: &str) -> (r: Vec<u16>)
    ensures
        ascending(r@),
        forall|p: u16|
            r@.contains(p) <==> listens(tcp@, p as int) || listens(tcp6@, p as int),
{
    let mut ports: Vec<u16> = Vec::new();
    add_listening(&mut ports, tcp);
    let ghost half = ports@;
    add_listening(&mut ports, tcp6);
    assert forall|p: u16|
        ports@.contains(p) <==> listens(tcp@, p as int) || listens(tcp6@, p as int) by {
        assert(ports@.contains(p) <==> half.contains(p) || listens(tcp6@, p as int));
        assert(half.contains(p) <==> listens(tcp@, p as int));
    }
    ports
}

impl NetworkInfo {
    /// Reads the network figures. The public address is given only where the setting is `1`.
    pub fn capture(from: &NetworkReadings) -> (r: NetworkInfo)
        ensures
            r.public_ip@ == (if text_view(from.public_ip_setting) == Some("1"@) {
                from.public_ip_answer@
            } else {
                "unknown"@
            }),
            r.tunnel_running == (tunnel_process(from.processes@) is Some),
            match r.tunnel_pid {
                Some(pid) => tunnel_process(from.processes@) == Some(pid as int),
                None => tunnel_process(from.processes@) is None,
            },
            ascending(r.listening_ports@),
            forall|p: u16|
                r.listening_ports@.contains(p) <==> listens(from.tcp@, p as int) || listens(
                    from.tcp6@,
                    p as int,
                ),
    {
        let allowed = match &from.public_ip_setting {
            Some(v) => text::same(v.as_str(), "1"),
            None => false,
        };
        let public_ip = if allowed {
            from.public_ip_answer.clone()
        } else {
            "unknown".to_owned()
        };
        let (tunnel_running, tunnel_pid) = detect_cloudflared(&from.processes);
        let listening_ports = read_listening_ports(from.tcp.as_str(), from.tcp6.as_str());
        NetworkInfo { public_ip, tunnel_running, tunnel_pid, listening_ports }
    }
}

// ---------------------------------------------------------------------------
// Copies
// ---------------------------------------------------------------------------

/// Copies a text that may be absent.
pub(crate) fn clone_text(o: &Option<String>) -> (r: Option<String>)
    ensures
        r == *o,
{
    match o {
        Some(s) => Some(s.clone()),
        None => None,
    }
}

impl Clone for SystemInfo {
    fn clone(&self) -> (r: Self)
        ensures
            r == *self,
    {
        SystemInfo {
            cpu_model: self.cpu_model.clone(),
            cpu_count: self.cpu_count,
            ram_total: self.ram_total.clone(),
            ram_free: self.ram_free.clone(),
            ram_available: self.ram_available.clone(),
            disk_total: self.disk_total.clone(),
            disk_free: self.disk_free.clone(),
            disk_used_percent: self.disk_used_percent.clone(),
            uptime: self.uptime.clone(),
            uptime_seconds: self.uptime_seconds,
            load_average: self.load_average.clone(),
        }
    }
}

impl Clone for AcceleratorInfo {
    fn clone(&self) -> (r: Self)
        ensures
            r == *self,
    {
        AcceleratorInfo {
            kind: self.kind.clone(),
            count: self.count,
            vendor: clone_text(&self.vendor),
            model: clone_text(&self.model),
        }
    }
}

impl HardwareInfo {
    /// Two records hold the same.
    pub open spec fn same(self, other: HardwareInfo) -> bool {
        &&& self.accelerators@ == other.accelerators@
        &&& self.jax_available == other.jax_available
        &&& self.jax_version == other.jax_version
        &&& self.jax_device_count == other.jax_device_count
    }
}

impl Clone for HardwareInfo {
    fn clone(&self) -> (r: Self)
        ensures
            r.same(*self),
    {
        let mut accelerators: Vec<AcceleratorInfo> = Vec::new();
        for i in 0..self.accelerators.len()
            invariant
                accelerators@ == self.accelerators@.take(i as int),
        {
            accelerators.push(self.accelerators[i].clone());
            assert(accelerators@ =~= self.accelerators@.take(i + 1));
        }
        assert(accelerators@ =~= self.accelerators@);
        HardwareInfo {
            accelerators,
            jax_available: self.jax_available,
            jax_version: clone_text(&self.jax_version),
            jax_device_count: self.jax_device_count,
        }
    }
}

impl NetworkInfo {
    /// Two records hold the same.
    pub open spec fn same(self, other: NetworkInfo) -> bool {
        &&& self.public_ip == other.public_ip
        &&& self.tunnel_running == other.tunnel_running
        &&& self.tunnel_pid == other.tunnel_pid
        &&& self.listening_ports@ == other.listening_ports@
    }
}

impl Clone for NetworkInfo {
    fn clone(&self) -> (r: Self)
        ensures
            r.same(*self),
    {
        let mut listening_ports: Vec<u16> = Vec::new();
        for i in 0..self.listening_ports.len()
            invariant
                listening_ports@ == self.listening_ports@.take(i as int),
        {
            listening_ports.push(self.listening_ports[i]);
            assert(listening_ports@ =~= self.listening_ports@.take(i + 1));
        }
        assert(listening_ports@ =~= self.listening_ports@);
        NetworkInfo {
            public_ip: self.public_ip.clone(),
            tunnel_running: self.tunnel_running,
            tunnel_pid: self.tunnel_pid,
            listening_ports,
        }
    }
}

impl Telemetry {
    /// Two snapshots hold the same.
    pub open spec fn same(self, other: Telemetry) -> bool {
        &&& self.timestamp == other.timestamp
        &&& self.system == other.system
        &&& self.hardware.same(other.hardware)
        &&& self.network.same(other.network)
    }
}

impl Clone for Telemetry {
    fn clone(&self) -> (r: Self)
        ensures
            r.same(*self),
    {
        Telemetry {
            timestamp: self.timestamp,
            system: self.system.clone(),
            hardware: self.hardware.clone(),
            network: self.network.clone(),
        }
    }
}

// ---------------------------------------------------------------------------
// Snapshots
// ---------------------------------------------------------------------------

/// The snapshot that was taken last, with the time of the monotonic clock at which it was taken,
/// in nanoseconds.
#[derive(Debug)]
pub struct TelemetryCache {
    pub entry: Option<(Telemetry, u64)>,
}

impl TelemetryCache {
    /// The cache holds a snapshot that is young enough to be served at `now_ns`.
    pub open spec fn fresh(self, now_ns: u64) -> bool {
        match self.entry {
            Some((_, at)) => now_ns < at || (now_ns - at) / 1_000_000_000 < CACHE_TTL_SECS,
            None => false,
        }
    }

    /// `r` is served out of the cache while what it holds is young, and is kept in it otherwise.
    pub open spec fn serves(self, now_ns: u64, after: TelemetryCache, r: Telemetry) -> bool {
        if self.fresh(now_ns) {
            after == self && r.same((self.entry->Some_0).0)
        } else {
            after.entry matches Some((kept, at)) && kept.same(r) && at == now_ns
        }
    }

    /// A cache without a snapshot.
    pub fn new() -> (r: Self)
        ensures
            r.entry is None,
    {
        TelemetryCache { entry: None }
    }

    /// Whether the snapshot in the cache is young enough to be served.
    pub fn is_fresh(&self, now_ns: u64) -> (r: bool)
        ensures
            r == self.fresh(now_ns),
    {
        match &self.entry {
            Some(e) => now_ns < e.1 || (now_ns - e.1) / 1_000_000_000 < CACHE_TTL_SECS,
            None => false,
        }
    }
}

impl Telemetry {
    /// The snapshot that stands for no reading at all.
    pub fn empty() -> (r: Telemetry)
        ensures
            r.timestamp == 0,
            r.system.cpu_model@ == "unknown"@,
            r.system.cpu_count == 0,
            r.system.ram_total@ == "unknown"@,
            r.system.ram_free@ == "unknown"@,
            r.system.ram_available@ == "unknown"@,
            r.system.disk_total@ == "unknown"@,
            r.system.disk_free@ == "unknown"@,
            r.system.disk_used_percent@ == "unknown"@,
            r.system.uptime@ == "unknown"@,
            r.system.uptime_seconds == 0,
            r.system.load_average@ == "unknown"@,
            r.hardware.accelerators@.len() == 0,
            !r.hardware.jax_available,
            r.hardware.jax_version is None,
            r.hardware.jax_device_count is None,
            r.network.public_ip@ == "unknown"@,
            !r.network.tunnel_running,
            r.network.tunnel_pid is None,
            r.network.listening_ports@.len() == 0,
    {
        Telemetry {
            timestamp: 0,
            system: SystemInfo {
                cpu_model: "unknown".to_owned(),
                cpu_count: 0,
                ram_total: "unknown".to_owned(),
                ram_free: "unknown".to_owned(),
                ram_available: "unknown".to_owned(),
                disk_total: "unknown".to_owned(),
                disk_free: "unknown".to_owned(),
                disk_used_percent: "unknown".to_owned(),
                uptime: "unknown".to_owned(),
                uptime_seconds: 0,
                load_average: "unknown".to_owned(),
            },
            hardware: HardwareInfo {
                accelerators: Vec::new(),
                jax_available: false,
                jax_version: None,
                jax_device_count: None,
            },
            network: NetworkInfo {
                public_ip: "unknown".to_owned(),
                tunnel_running: false,
                tunnel_pid: None,
                listening_ports: Vec::new(),
            },
        }
    }

    /// Takes a snapshot, or serves the last one while it is young.
    ///
    /// A snapshot that is taken is kept in the cache.
    pub fn capture(cache: &mut TelemetryCache, now_ns: u64, timestamp: u64, system: SystemInfo, hardware: HardwareInfo, network: NetworkInfo) -> (r: Telemetry)
        ensures
            old(cache).serves(now_ns, *final(cache), r),
            !old(cache).fresh(now_ns) ==> r == (Telemetry { timestamp, system, hardware, network }),
    {
        if cache.is_fresh(now_ns) {
            match &cache.entry {
                Some(e) => {
                    return e.0.clone();
                },
                None => {},
            }
        }
        let fresh = Telemetry { timestamp, system, hardware, network };
        cache.entry = Some((fresh.clone(), now_ns));
        fresh
    }
}

/// A snapshot is served again for half a minute: one that is asked for within 30 seconds of one that
/// was made is the same, whatever the machine has come to in between.
pub proof fn law_served_again(
    before: TelemetryCache,
    between: TelemetryCache,
    after: TelemetryCache,
    made_ns: u64,
    asked_ns: u64,
    made: Telemetry,
    asked: Telemetry,
)
    requires
        !before.fresh(made_ns),
        before.serves(made_ns, between, made),
        between.serves(asked_ns, after, asked),
        asked_ns - made_ns < CACHE_TTL_SECS * 1_000_000_000,
    ensures
        asked.same(made),
        after == between,
{
}

// ---------------------------------------------------------------------------
// Report
// ---------------------------------------------------------------------------

/// The line of a report for one accelerator.
pub open spec fn accelerator_line(a: AcceleratorInfo) -> Seq<char> {
    let model = match a.model {
        Some(m) => m@,
        None => "unknown"@,
    };
    let vendor = match a.vendor {
        Some(v) => " ("@ + v@ + ")"@,
        None => Seq::empty(),
    };
    " "@ + a.kind@ + ": "@ + text::decimal(a.count as nat) + "x "@ + model + vendor
}

/// The heading of a report and its lines on the system.
pub open spec fn system_lines(t: Telemetry) -> Seq<Seq<char>> {
    seq![
        Seq::<char>::empty(),
        "============================================================"@,
        " RUNTIMO TELEMETRY ["@ + text::decimal(t.timestamp as nat) + "]"@,
        "============================================================"@,
        Seq::<char>::empty(),
        "--- SYSTEM ---"@,
        " CPU   : "@ + t.system.cpu_model@ + " ("@ + text::decimal(t.system.cpu_count as nat)
            + " cores)"@,
        " RAM   : "@ + t.system.ram_total@ + " total, "@ + t.system.ram_free@ + " free, "@
            + t.system.ram_available@ + " available"@,
        " Disk  : "@ + t.system.disk_total@ + " total, "@ + t.system.disk_free@ + " free ("@
            + t.system.disk_used_percent@ + "% used)"@,
        " Uptime: "@ + t.system.uptime@ + " ("@ + text::decimal(t.system.uptime_seconds as nat)
            + "s)"@,
        " Load  : "@ + t.system.load_average@ + " ("@ + text::decimal(t.system.cpu_count as nat)
            + " cores)"@,
    ]
}

/// The lines of a report on the accelerators.
pub open spec fn hardware_lines(h: HardwareInfo) -> Seq<Seq<char>> {
    let devices = if h.accelerators@.len() == 0 {
        seq![" Accelerators: none detected"@]
    } else {
        h.accelerators@.map_values(|a: AcceleratorInfo| accelerator_line(a))
    };
    let version = match h.jax_version {
        Some(v) => v@,
        None => "unknown"@,
    };
    let count = match h.jax_device_count {
        Some(n) => n as nat,
        None => 0,
    };
    let jax = if h.jax_available {
        seq![" JAX: v"@ + version + " ("@ + text::decimal(count) + " devices)"@]
    } else {
        Seq::empty()
    };
    seq![Seq::<char>::empty(), "--- HARDWARE ---"@] + devices + jax
}

/// The lines of a report on the network, and its end.
pub open spec fn network_lines(n: NetworkInfo) -> Seq<Seq<char>> {
    let pid = match n.tunnel_pid {
        Some(p) => text::decimal(p as nat),
        None => "?"@,
    };
    let ports = n.listening_ports@.map_values(|p: u16| text::decimal(p as nat));
    seq![
        Seq::<char>::empty(),
        "--- NETWORK ---"@,
        " Public IP: "@ + n.public_ip@,
        if n.tunnel_running {
            " Tunnel: cloudflared (PID "@ + pid + ")"@
        } else {
            " Tunnel: none"@
        },
        if n.listening_ports@.len() == 0 {
            " Listening ports: none"@
        } else {
            " Listening ports: "@ + text::joined(ports, ", "@)
        },
        Seq::<char>::empty(),
        "============================================================"@,
    ]
}

/// The lines of the report on a snapshot.
pub open spec fn report_lines(t: Telemetry) -> Seq<Seq<char>> {
    system_lines(t) + hardware_lines(t.hardware) + network_lines(t.network)
}

impl AcceleratorInfo {
    /// The line of a report for this accelerator.
    fn line(&self) -> (r: String)
        ensures
            r@ == accelerator_line(*self),
    {
        let mut r = " ".to_owned();
        r.append(self.kind.as_str());
        r.append(": ");
        r.append(text::decimal_text(self.count as u64).as_str());
        r.append("x ");
        match &self.model {
            Some(m) => r.append(m.as_str()),
            None => r.append("unknown"),
        }
        let ghost head = r@;
        match &self.vendor {
            Some(v) => {
                let mut w = " (".to_owned();
                w.append(v.as_str());
                w.append(")");
                r.append(w.as_str());
            },
            None => {
                assert(r@ =~= head + Seq::<char>::empty());
            },
        }
        r
    }
}

/// A report line with a text, a number and what stands around them.
fn text_number_line(head: &str, body: &str, n: u64, tail: &str) -> (r: String)
    ensures
        r@ == head@ + body@ + " ("@ + text::decimal(n as nat) + tail@,
{
    let mut r = head.to_owned();
    r.append(body);
    r.append(" (");
    r.append(text::decimal_text(n).as_str());
    r.append(tail);
    r
}

/// A report line with three texts and what stands around them.
fn three_text_line(head: &str, a: &str, b: &str, between: &str, c: &str, tail: &str) -> (r: String)
    ensures
        r@ == head@ + a@ + " total, "@ + b@ + between@ + c@ + tail@,
{
    let mut r = head.to_owned();
    r.append(a);
    r.append(" total, ");
    r.append(b);
    r.append(between);
    r.append(c);
    r.append(tail);
    r
}

impl Telemetry {
    /// The lines on the system.
    fn report_system(&self) -> (r: Vec<String>)
        ensures
            text::texts(r@) == system_lines(*self),
    {
        let mut out: Vec<String> = Vec::new();
        out.push(String::new());
        out.push("============================================================".to_owned());
        let mut head = " RUNTIMO TELEMETRY [".to_owned();
        head.append(text::decimal_text(self.timestamp).as_str());
        head.append("]");
        out.push(head);
        out.push("============================================================".to_owned());
        out.push(String::new());
        out.push("--- SYSTEM ---".to_owned());
        let s = &self.system;
        out.push(text_number_line(" CPU   : ", s.cpu_model.as_str(), s.cpu_count as u64, " cores)"));
        out.push(
            three_text_line(
                " RAM   : ",
                s.ram_total.as_str(),
                s.ram_free.as_str(),
                " free, ",
                s.ram_available.as_str(),
                " available",
            ),
        );
        out.push(
            three_text_line(
                " Disk  : ",
                s.disk_total.as_str(),
                s.disk_free.as_str(),
                " free (",
                s.disk_used_percent.as_str(),
                "% used)",
            ),
        );
        out.push(text_number_line(" Uptime: ", s.uptime.as_str(), s.uptime_seconds, "s)"));
        out.push(
            text_number_line(" Load  : ", s.load_average.as_str(), s.cpu_count as u64, " cores)"),
        );
        assert(text::texts(out@) =~= system_lines(*self));
        out
    }

    /// The lines of a report on the snapshot.
    pub fn report(&self) -> (r: Vec<String>)
        ensures
            text::texts(r@) == report_lines(*self),
    {
        let mut out = self.report_system();
        let mut hardware = self.hardware.report();
        let mut network = self.network.report();
        let ghost a = out@;
        let ghost b = hardware@;
        let ghost c = network@;
        out.append(&mut hardware);
        out.append(&mut network);
        assert(text::texts(out@) =~= text::texts(a) + text::texts(b) + text::texts(c));
        out
    }
}

impl HardwareInfo {
    /// The lines of a report on the accelerators.
    fn report(&self) -> (r: Vec<String>)
        ensures
            text::texts(r@) == hardware_lines(*self),
    {
        let mut out: Vec<String> = Vec::new();
        out.push(String::new());
        out.push("--- HARDWARE ---".to_owned());
        let ghost head = seq![Seq::<char>::empty(), "--- HARDWARE ---"@];
        assert(text::texts(out@) =~= head);
        if self.accelerators.len() == 0 {
            out.push(" Accelerators: none detected".to_owned());
            assert(text::texts(out@) =~= head + seq![" Accelerators: none detected"@]);
        } else {
            let ghost all = self.accelerators@.map_values(
                |a: AcceleratorInfo| accelerator_line(a),
            );
            assert(head =~= head + all.take(0));
            for i in 0..self.accelerators.len()
                invariant
                    all == self.accelerators@.map_values(
                        |a: AcceleratorInfo| accelerator_line(a),
                    ),
                    text::texts(out@) == head + all.take(i as int),
            {
                let ghost before = out@;
                out.push(self.accelerators[i].line());
                assert(text::texts(out@) =~= text::texts(before).push(all[i as int]));
                assert(text::texts(out@) =~= head + all.take(i + 1));
            }
            assert(all.take(all.len() as int) =~= all);
        }
        let ghost before = out@;
        if self.jax_available {
            let mut line = " JAX: v".to_owned();
            match &self.jax_version {
                Some(v) => line.append(v.as_str()),
                None => line.append("unknown"),
            }
            line.append(" (");
            let count: u64 = match self.jax_device_count {
                Some(n) => n as u64,
                None => 0,
            };
            line.append(text::decimal_text(count).as_str());
            line.append(" devices)");
            out.push(line);
            assert(text::texts(out@) =~= text::texts(before) + seq![line@]);
        } else {
            assert(text::texts(out@) =~= text::texts(before) + Seq::<Seq<char>>::empty());
        }
        out
    }
}

impl NetworkInfo {
    /// The lines of a report on the network, and its end.
    fn report(&self) -> (r: Vec<String>)
        ensures
            text::texts(r@) == network_lines(*self),
    {
        let mut out: Vec<String> = Vec::new();
        out.push(String::new());
        out.push("--- NETWORK ---".to_owned());
        let mut ip = " Public IP: ".to_owned();
        ip.append(self.public_ip.as_str());
        out.push(ip);
        if self.tunnel_running {
            let mut line = " Tunnel: cloudflared (PID ".to_owned();
            match self.tunnel_pid {
                Some(p) => line.append(text::decimal_text(p as u64).as_str()),
                None => line.append("?"),
            }
            line.append(")");
            out.push(line);
        } else {
            out.push(" Tunnel: none".to_owned());
        }
        if self.listening_ports.len() == 0 {
            out.push(" Listening ports: none".to_owned());
        } else {
            let mut ports: Vec<String> = Vec::new();
            let ghost all = self.listening_ports@.map_values(|p: u16| text::decimal(p as nat));
            for i in 0..self.listening_ports.len()
                invariant
                    all == self.listening_ports@.map_values(|p: u16| text::decimal(p as nat)),
                    text::texts(ports@) == all.take(i as int),
            {
                let ghost before = ports@;
                ports.push(text::decimal_text(self.listening_ports[i] as u64));
                assert(text::texts(ports@) =~= text::texts(before).push(all[i as int]));
                assert(text::texts(ports@) =~= all.take(i + 1));
            }
            assert(all.take(all.len() as int) =~= all);
            let mut line = " Listening ports: ".to_owned();
            line.append(text::join(&ports, ", ").as_str());
            out.push(line);
        }
        out.push(String::new());
        out.push("============================================================".to_owned());
        assert(text::texts(out@) =~= network_lines(*self));
        out
    }
}


// ---------------------------------------------------------------------------
// What holds of readings and reports
// ---------------------------------------------------------------------------

/// The line that is found is the first one that begins with the key.
pub proof fn law_first_line(ls: Seq<Seq<char>>, key: Seq<char>)
    ensures
        first_line(ls, key) is None <==> forall|i: int|
            0 <= i < ls.len() ==> !key.is_prefix_of(#[trigger] ls[i]),
        first_line(ls, key) is Some ==> exists|i: int|
            {
                &&& 0 <= i < ls.len()
                &&& first_line(ls, key) == Some(#[trigger] ls[i])
                &&& key.is_prefix_of(ls[i])
                &&& forall|j: int| 0 <= j < i ==> !key.is_prefix_of(#[trigger] ls[j])
            },
    decreases ls.len(),
{
    if ls.len() > 0 {
        let rest = ls.skip(1);
        law_first_line(rest, key);
        assert(forall|i: int| 0 <= i < rest.len() ==> #[trigger] rest[i] == ls[i + 1]);
        assert(forall|i: int| 0 < i < ls.len() ==> #[trigger] ls[i] == rest[i - 1]);
        if key.is_prefix_of(ls[0]) {
            assert(first_line(ls, key) == Some(ls[0]));
        } else if first_line(rest, key) is Some {
            let i = choose|i: int|
                {
                    &&& 0 <= i < rest.len()
                    &&& first_line(rest, key) == Some(#[trigger] rest[i])
                    &&& key.is_prefix_of(rest[i])
                    &&& forall|j: int| 0 <= j < i ==> !key.is_prefix_of(#[trigger] rest[j])
                };
            assert(first_line(ls, key) == Some(ls[i + 1]));
        }
    }
}

/// A figure of memory is the second word of its line, and 0 where there is no such line, no such
/// word or no such number.
pub proof fn law_meminfo(data: Seq<char>, key: Seq<char>, l: Seq<char>, n: nat)
    ensures
        first_line(text::lines(data), key) is None ==> meminfo_kb(data, key) == 0,
        first_line(text::lines(data), key) == Some(l) && text::words(l).len() < 2 ==> meminfo_kb(
            data,
            key,
        ) == 0,
        first_line(text::lines(data), key) == Some(l) && text::words(l).len() >= 2 && text::words(
            l,
        )[1] == text::decimal(n) ==> meminfo_kb(data, key) == (if n <= u64::MAX {
            n as int
        } else {
            0
        }),
{
    text::law_decimal(n, u64::MAX as int);
}

/// Memory is shown in whole units, the greatest of kibi-, mebi- and gibibytes of which there is at
/// least one.
pub proof fn law_memory_shown(kb: u64, n: nat)
    ensures
        kb < 1024 ==> mem_text(kb) == text::decimal(kb as nat) + "Ki"@,
        1024 <= kb < 1048576 && 1024 * n <= kb < 1024 * (n + 1) ==> mem_text(kb) == text::decimal(n)
            + "Mi"@,
        kb >= 1048576 && 1048576 * n <= kb < 1048576 * (n + 1) ==> mem_text(kb) == text::decimal(n)
            + "Gi"@,
{
}

/// The time since the start is given in days, hours and minutes. What is nought is left out, but
/// for the minutes where there is nothing else; seconds are not shown.
pub proof fn law_uptime(total: u64, d: u64, h: u64, m: u64, s: u64)
    requires
        total == d * 86400 + h * 3600 + m * 60 + s,
        h < 24,
        m < 60,
        s < 60,
    ensures
        d > 0 && h > 0 && m > 0 ==> uptime_parts(total) == seq![
            counted(d, " day"@),
            counted(h, " hour"@),
            counted(m, " minute"@),
        ],
        d > 0 && h > 0 && m == 0 ==> uptime_parts(total) == seq![
            counted(d, " day"@),
            counted(h, " hour"@),
        ],
        d > 0 && h == 0 && m > 0 ==> uptime_parts(total) == seq![
            counted(d, " day"@),
            counted(m, " minute"@),
        ],
        d > 0 && h == 0 && m == 0 ==> uptime_parts(total) == seq![counted(d, " day"@)],
        d == 0 && h > 0 && m > 0 ==> uptime_parts(total) == seq![
            counted(h, " hour"@),
            counted(m, " minute"@),
        ],
        d == 0 && h > 0 && m == 0 ==> uptime_parts(total) == seq![counted(h, " hour"@)],
        d == 0 && h == 0 ==> uptime_parts(total) == seq![counted(m, " minute"@)],
        uptime_text(total) == "up "@ + text::joined(uptime_parts(total), ", "@),
{
    assert(total / 86400 == d);
    assert(total % 86400 == h * 3600 + m * 60 + s);
    assert((total % 86400) / 3600 == h);
    assert(total % 3600 == m * 60 + s) by {
        assert(total == (d * 24 + h) * 3600 + m * 60 + s);
    }
    assert((total % 3600) / 60 == m);
}

/// One of a thing is not many.
pub proof fn law_counted(n: u64, unit: Seq<char>)
    ensures
        n == 1 ==> counted(n, unit) == text::decimal(1) + unit,
        n != 1 ==> counted(n, unit) == text::decimal(n as nat) + unit + "s"@,
{
    reveal_strlit("");
    assert(text::decimal(1) + unit + ""@ =~= text::decimal(1) + unit);
}

/// The name of the processor is what stands behind the colon of its line.
pub proof fn law_model_name(cpuinfo: Seq<char>, front: Seq<char>, name: Seq<char>)
    requires
        forall|i: int| 0 <= i < front.len() ==> #[trigger] front[i] != ':',
        forall|i: int| 0 <= i < name.len() ==> #[trigger] name[i] != ':',
    ensures
        first_line(text::lines(cpuinfo), "model name"@) == Some(front.push(':') + name)
            ==> model_name(cpuinfo) == text::trimmed(name),
        first_line(text::lines(cpuinfo), "model name"@) == Some(front) ==> model_name(cpuinfo)
            == "unknown"@,
        first_line(text::lines(cpuinfo), "model name"@) is None ==> model_name(cpuinfo)
            == "unknown"@,
{
    text::lemma_pieces_behind(front, ':', name);
    text::lemma_pieces_of_one(name, ':');
    text::lemma_pieces_of_one(front, ':');
    assert((seq![front] + seq![name])[1] == name);
}

/// The processors are the lines that say so.
pub proof fn law_processors(a: Seq<Seq<char>>, b: Seq<Seq<char>>, key: Seq<char>, l: Seq<char>)
    ensures
        count_lines(a + b, key) == count_lines(a, key) + count_lines(b, key),
        count_lines(seq![l], key) == (if key.is_prefix_of(l) {
            1nat
        } else {
            0
        }),
        text::lines(l) == a && count_lines(a, "processor"@) <= u32::MAX ==> processor_count(l)
            == count_lines(a, "processor"@),
    decreases b.len(),
{
    assert(seq![l].drop_last() =~= Seq::<Seq<char>>::empty());
    assert(count_lines(seq![l].drop_last(), key) == 0);
    if b.len() == 0 {
        assert(a + b =~= a);
    } else {
        law_processors(a, b.drop_last(), key, l);
        assert((a + b).drop_last() =~= a + b.drop_last());
        assert((a + b).last() == b.last());
    }
}

/// The load is given by the first three words.
pub proof fn law_load(loadavg: Seq<char>)
    ensures
        text::words(loadavg).len() >= 3 ==> load_text(loadavg) == text::words(loadavg)[0] + ", "@
            + text::words(loadavg)[1] + ", "@ + text::words(loadavg)[2],
        text::words(loadavg).len() < 3 ==> load_text(loadavg) == "unknown"@,
{
}

/// Percent signs are left out, wherever they stand, and nothing else is.
pub proof fn law_percent_signs(a: Seq<char>, b: Seq<char>, c: char)
    ensures
        without_percent(a + b) == without_percent(a) + without_percent(b),
        c == '%' ==> without_percent(seq![c]) == Seq::<char>::empty(),
        c != '%' ==> without_percent(seq![c]) == seq![c],
    decreases b.len(),
{
    assert(seq![c].drop_last() =~= Seq::<char>::empty());
    assert(without_percent(seq![c].drop_last()) == Seq::<char>::empty());
    assert(Seq::<char>::empty().push(c) =~= seq![c]);
    if b.len() == 0 {
        assert(a + b =~= a);
        assert(without_percent(a) + without_percent(b) =~= without_percent(a));
    } else {
        law_percent_signs(a, b.drop_last(), c);
        assert((a + b).drop_last() =~= a + b.drop_last());
        assert((a + b).last() == b.last());
        assert(without_percent(a) + without_percent(b.drop_last()).push(b.last()) =~= (
        without_percent(a) + without_percent(b.drop_last())).push(b.last()));
    }
}

/// What is read of the system stands in the field it is meant for.
pub proof fn law_system_readings(from: SystemReadings, r: SystemInfo)
    requires
        call_ensures(SystemInfo::capture, (&from,), r),
    ensures
        r.cpu_model@ == model_name(from.cpuinfo@),
        r.cpu_count == processor_count(from.cpuinfo@),
        r.ram_total@ == mem_text(meminfo_kb(from.meminfo@, "MemTotal:"@) as u64),
        r.ram_free@ == mem_text(meminfo_kb(from.meminfo@, "MemFree:"@) as u64),
        r.ram_available@ == mem_text(meminfo_kb(from.meminfo@, "MemAvailable:"@) as u64),
        r.disk_total@ == from.disk_total@,
        r.disk_free@ == from.disk_free@,
        r.disk_used_percent@ == without_percent(from.disk_percent@),
        r.uptime@ == uptime_text(from.uptime_seconds),
        r.uptime_seconds == from.uptime_seconds,
        r.load_average@ == load_text(from.loadavg@),
{
}

/// The devices are listed in a fixed order, each kind of which some were counted: tensor units,
/// then cards by NVIDIA, then cards by AMD. Cards of no known maker count only where there are none
/// of these.
pub proof fn law_accelerators(p: HardwareReadings, tpu: nat, nvidia: nat, amd: nat, dri: nat)
    requires
        p.tpu_count@ == text::decimal(tpu),
        p.nvidia_count@ == text::decimal(nvidia),
        p.amd_count@ == text::decimal(amd),
        p.dri_count@ == text::decimal(dri),
        tpu <= usize::MAX,
        nvidia <= usize::MAX,
        amd <= usize::MAX,
        dri <= usize::MAX,
    ensures
        ({
            let found = accelerators_found(p);
            let t = Accelerator {
                kind: "tpu"@,
                count: tpu as int,
                vendor: Some("google"@),
                model: None,
            };
            let n = Accelerator {
                kind: "gpu"@,
                count: nvidia as int,
                vendor: Some("nvidia"@),
                model: if p.nvidia_model@.len() == 0 {
                    None
                } else {
                    Some(p.nvidia_model@)
                },
            };
            let a = Accelerator {
                kind: "gpu"@,
                count: amd as int,
                vendor: Some("amd"@),
                model: None,
            };
            let d = Accelerator {
                kind: "gpu"@,
                count: dri as int,
                vendor: None,
                model: Some("drm-render"@),
            };
            &&& tpu > 0 ==> found.len() > 0 && found[0] == t
            &&& nvidia > 0 && tpu == 0 ==> found.len() > 0 && found[0] == n
            &&& nvidia > 0 && tpu > 0 ==> found.len() > 1 && found[1] == n
            &&& amd > 0 ==> found.len() > 0 && found.last() == a
            &&& amd == 0 && nvidia == 0 && dri > 0 ==> found.len() > 0 && found.last() == d
            &&& found.len() == (if tpu > 0 {
                1int
            } else {
                0
            }) + (if nvidia > 0 {
                1int
            } else {
                0
            }) + (if amd > 0 {
                1int
            } else {
                0
            }) + (if amd == 0 && nvidia == 0 && dri > 0 {
                1int
            } else {
                0
            })
        }),
{
    text::law_decimal(tpu, usize::MAX as int);
    text::law_decimal(nvidia, usize::MAX as int);
    text::law_decimal(amd, usize::MAX as int);
    text::law_decimal(dri, usize::MAX as int);
}

/// The library is there where the import said `yes`, and only there are its version and its devices
/// told.
pub proof fn law_jax(from: HardwareReadings, r: HardwareInfo)
    requires
        call_ensures(HardwareInfo::capture, (&from,), r),
    ensures
        r.jax_available <==> from.jax_import@ == "yes"@,
        r.jax_version is Some <==> from.jax_import@ == "yes"@,
        r.jax_version is Some ==> (r.jax_version->0)@ == from.jax_version@,
        r.jax_device_count is Some ==> from.jax_import@ == "yes"@ && text::parsed(
            from.jax_devices@,
            10,
            usize::MAX as int,
        ) == Some(r.jax_device_count->0 as int),
        r.jax_device_count is None ==> from.jax_import@ != "yes"@ || text::parsed(
            from.jax_devices@,
            10,
            usize::MAX as int,
        ) is None,
        accelerator_views(r.accelerators@) == accelerators_found(from),
{
}

/// A process is a tunnel where its directory is named by its number and its command is
/// `cloudflared`.
pub proof fn law_tunnel_entries(name: Seq<char>, comm: Seq<char>, pid: nat, k: int)
    ensures
        text::trimmed(comm) != "cloudflared"@ ==> tunnel_entry(name, comm) is None,
        0 <= k < name.len() && !('0' <= name[k] <= '9') ==> tunnel_entry(name, comm) is None,
        text::trimmed(comm) == "cloudflared"@ && name == text::decimal(pid) && pid <= u32::MAX
            ==> tunnel_entry(name, comm) == Some(pid as int),
        name == text::decimal(pid) && pid > u32::MAX ==> tunnel_entry(name, comm) is None,
{
    text::law_decimal(pid, u32::MAX as int);
}

/// The first tunnel that is listed is the one that is told.
pub proof fn law_tunnel(entries: Seq<(String, String)>)
    ensures
        tunnel_process(entries) is None <==> forall|i: int|
            0 <= i < entries.len() ==> tunnel_entry(
                (#[trigger] entries[i]).0@,
                entries[i].1@,
            ) is None,
        tunnel_process(entries) is Some ==> exists|i: int|
            {
                &&& 0 <= i < entries.len()
                &&& tunnel_process(entries) == tunnel_entry(
                    (#[trigger] entries[i]).0@,
                    entries[i].1@,
                )
                &&& forall|j: int|
                    0 <= j < i ==> tunnel_entry(
                        (#[trigger] entries[j]).0@,
                        entries[j].1@,
                    ) is None
            },
    decreases entries.len(),
{
    if entries.len() > 0 {
        let rest = entries.skip(1);
        law_tunnel(rest);
        assert(forall|i: int| 0 <= i < rest.len() ==> #[trigger] rest[i] == entries[i + 1]);
        assert(forall|i: int| 0 < i < entries.len() ==> #[trigger] entries[i] == rest[i - 1]);
        if tunnel_entry(entries[0].0@, entries[0].1@) is Some {
            assert(tunnel_process(entries) == tunnel_entry(entries[0].0@, entries[0].1@));
        } else if tunnel_process(rest) is Some {
            let i = choose|i: int|
                {
                    &&& 0 <= i < rest.len()
                    &&& tunnel_process(rest) == tunnel_entry(
                        (#[trigger] rest[i]).0@,
                        rest[i].1@,
                    )
                    &&& forall|j: int|
                        0 <= j < i ==> tunnel_entry((#[trigger] rest[j]).0@, rest[j].1@) is None
                };
            assert(tunnel_process(entries) == tunnel_entry(entries[i + 1].0@, entries[i + 1].1@));
        }
    }
}

/// The ports that are told are in rising order, each once, and they are those behind the colon of
/// the second word, in hexadecimal, of the lines whose fourth word is `0A`. The first line of a
/// table is its heading.
pub proof fn law_listening(tcp: &str, tcp6: &str, r: Vec<u16>, p: u16)
    requires
        call_ensures(read_listening_ports, (tcp, tcp6), r),
    ensures
        forall|i: int, j: int| 0 <= i < j < r@.len() ==> r@[i] < r@[j],
        r@.contains(p) <==> listed_port(tcp@, p) || listed_port(tcp6@, p),
{
    assert(listens(tcp@, p as int) <==> listed_port(tcp@, p)) by {
        lemma_listed_port(tcp@, p);
    }
    assert(listens(tcp6@, p as int) <==> listed_port(tcp6@, p)) by {
        lemma_listed_port(tcp6@, p);
    }
}

/// A line behind the first says that a port is listened on.
pub open spec fn listed_port(data: Seq<char>, p: u16) -> bool {
    exists|i: int|
        {
            let w = text::words(#[trigger] text::lines(data)[i]);
            &&& 1 <= i < text::lines(data).len()
            &&& w.len() >= 4
            &&& w[3] == "0A"@
            &&& text::pieces(w[1], ':').len() >= 2
            &&& text::parsed(text::pieces(w[1], ':')[1], 16, 65535) == Some(p as int)
        }
}

proof fn lemma_listed_port(data: Seq<char>, p: u16)
    ensures
        listens(data, p as int) <==> listed_port(data, p),
{
    if listens(data, p as int) {
        let i = choose|i: int|
            1 <= i < text::lines(data).len() && listening_port(#[trigger] text::lines(data)[i])
                == Some(p as int);
        assert(text::words(text::lines(data)[i]).len() >= 4);
    }
    if listed_port(data, p) {
        let i = choose|i: int|
            {
                let w = text::words(#[trigger] text::lines(data)[i]);
                &&& 1 <= i < text::lines(data).len()
                &&& w.len() >= 4
                &&& w[3] == "0A"@
                &&& text::pieces(w[1], ':').len() >= 2
                &&& text::parsed(text::pieces(w[1], ':')[1], 16, 65535) == Some(p as int)
            };
        assert(listening_port(text::lines(data)[i]) == Some(p as int));
    }
}

/// The public address is told only to who asks for it by the setting `1`.
pub proof fn law_public_address(from: NetworkReadings, r: NetworkInfo)
    requires
        call_ensures(NetworkInfo::capture, (&from,), r),
    ensures
        from.public_ip_setting is Some && (from.public_ip_setting->0)@ == "1"@ ==> r.public_ip@
            == from.public_ip_answer@,
        !(from.public_ip_setting is Some && (from.public_ip_setting->0)@ == "1"@) ==> r.public_ip@
            == "unknown"@,
        r.tunnel_running <==> r.tunnel_pid is Some,
        r.tunnel_running <==> tunnel_process(from.processes@) is Some,
        r.tunnel_pid is Some ==> tunnel_process(from.processes@) == Some(r.tunnel_pid->0 as int),
        forall|i: int, j: int|
            0 <= i < j < r.listening_ports@.len() ==> r.listening_ports@[i] < r.listening_ports@[j],
        forall|p: u16|
            r.listening_ports@.contains(p) <==> listens(from.tcp@, p as int) || listens(
                from.tcp6@,
                p as int,
            ),
{
}

/// A snapshot is young for half a minute from when it was taken, and what is older is not served.
pub proof fn law_young(cache: TelemetryCache, now_ns: u64)
    ensures
        cache.fresh(now_ns) <==> cache.entry is Some && now_ns - (cache.entry->0).1
            < 30_000_000_000,
{
}

/// An old snapshot, or none, is replaced by the one that is taken now, and a young one is served as
/// it is.
pub proof fn law_served(before: TelemetryCache, now_ns: u64, after: TelemetryCache, r: Telemetry)
    requires
        before.serves(now_ns, after, r),
    ensures
        before.entry is Some && now_ns - (before.entry->0).1 < 30_000_000_000 ==> after == before
            && r.timestamp == (before.entry->0).0.timestamp && r.system == (
        before.entry->0).0.system,
        !(before.entry is Some && now_ns - (before.entry->0).1 < 30_000_000_000) ==> after.entry
            is Some && (after.entry->0).1 == now_ns && (after.entry->0).0.timestamp == r.timestamp
            && (after.entry->0).0.system == r.system,
{
}

/// A device is shown by its kind, how many there are of it, its model and, in brackets, its maker.
pub proof fn law_accelerator_line(a: AcceleratorInfo)
    ensures
        a.model is Some && a.vendor is Some ==> accelerator_line(a) == " "@ + a.kind@ + ": "@
            + text::decimal(a.count as nat) + "x "@ + (a.model->0)@ + (" ("@ + (a.vendor->0)@
            + ")"@),
        a.model is None && a.vendor is Some ==> accelerator_line(a) == " "@ + a.kind@ + ": "@
            + text::decimal(a.count as nat) + "x "@ + "unknown"@ + (" ("@ + (a.vendor->0)@ + ")"@),
        a.model is Some && a.vendor is None ==> accelerator_line(a) == " "@ + a.kind@ + ": "@
            + text::decimal(a.count as nat) + "x "@ + (a.model->0)@,
        a.model is None && a.vendor is None ==> accelerator_line(a) == " "@ + a.kind@ + ": "@
            + text::decimal(a.count as nat) + "x "@ + "unknown"@,
{
    if a.vendor is None {
        let front = " "@ + a.kind@ + ": "@ + text::decimal(a.count as nat) + "x "@;
        if a.model is Some {
            assert(accelerator_line(a) =~= front + (a.model->0)@);
        } else {
            assert(accelerator_line(a) =~= front + "unknown"@);
        }
    }
}

/// The report shows the system first, then the hardware, then the network.
pub proof fn law_report(t: Telemetry)
    ensures
        ({
            let l = report_lines(t);
            let n = 11 + hardware_lines(t.hardware).len();
            &&& l.len() == n + 7
            &&& l[2] == " RUNTIMO TELEMETRY ["@ + text::decimal(t.timestamp as nat) + "]"@
            &&& l[5] == "--- SYSTEM ---"@
            &&& l[6] == " CPU   : "@ + t.system.cpu_model@ + " ("@ + text::decimal(
                t.system.cpu_count as nat,
            ) + " cores)"@
            &&& l[7] == " RAM   : "@ + t.system.ram_total@ + " total, "@ + t.system.ram_free@
                + " free, "@ + t.system.ram_available@ + " available"@
            &&& l[8] == " Disk  : "@ + t.system.disk_total@ + " total, "@ + t.system.disk_free@
                + " free ("@ + t.system.disk_used_percent@ + "% used)"@
            &&& l[9] == " Uptime: "@ + t.system.uptime@ + " ("@ + text::decimal(
                t.system.uptime_seconds as nat,
            ) + "s)"@
            &&& l[10] == " Load  : "@ + t.system.load_average@ + " ("@ + text::decimal(
                t.system.cpu_count as nat,
            ) + " cores)"@
            &&& l[12] == "--- HARDWARE ---"@
            &&& l[n as int + 1] == "--- NETWORK ---"@
            &&& l[n as int + 2] == " Public IP: "@ + t.network.public_ip@
            &&& !t.network.tunnel_running ==> l[n as int + 3] == " Tunnel: none"@
            &&& t.network.tunnel_running && t.network.tunnel_pid is Some ==> l[n as int + 3]
                == " Tunnel: cloudflared (PID "@ + text::decimal(t.network.tunnel_pid->0 as nat)
                + ")"@
            &&& t.network.listening_ports@.len() == 0 ==> l[n as int + 4]
                == " Listening ports: none"@
        }),
{
}

/// The hardware is shown device by device, and the library below the devices.
pub proof fn law_hardware_lines(h: HardwareInfo, i: int)
    ensures
        ({
            let l = hardware_lines(h);
            let k = h.accelerators@.len();
            &&& l.len() == 2 + (if k == 0 {
                1
            } else {
                k as int
            }) + (if h.jax_available {
                1int
            } else {
                0
            })
            &&& k == 0 ==> l[2] == " Accelerators: none detected"@
            &&& 0 <= i < k ==> l[2 + i] == accelerator_line(h.accelerators@[i])
            &&& h.jax_available && h.jax_version is Some && h.jax_device_count is Some ==> l.last()
                == " JAX: v"@ + (h.jax_version->0)@ + " ("@ + text::decimal(
                h.jax_device_count->0 as nat,
            ) + " devices)"@
            &&& h.jax_available && h.jax_version is None && h.jax_device_count is None ==> l.last()
                == " JAX: v"@ + "unknown"@ + " ("@ + text::decimal(0) + " devices)"@
        }),
{
}

} // verus!
