//! The processes of the machine: what a process listing says of each, what they add up to, and
//! which of them use most.
use vstd::prelude::*;
use vstd::string::*;

use crate::json;
use crate::telemetry;
use crate::text;

verus! {

broadcast use vstd::string::group_string_axioms;

/// How long a listing is served again, in seconds.
pub const CACHE_TTL_SECS: u64 = 30;

/// A percentage: its place among the numbers that a listing can show, by which percentages are
/// compared, and its text with one decimal. The place is the bits of its magnitude as a 32-bit
/// floating point number, negated for a negative number.
#[derive(Debug)]
pub struct Percent {
    pub rank: i32,
    pub text: String,
}

/// A listing of the processes.
#[derive(Debug)]
pub struct ProcessSnapshot {
    /// Unix time of the listing, in seconds.
    pub timestamp: u64,
    pub processes: Vec<ProcessInfo>,
    pub summary: ProcessSummary,
}

/// One process of a listing.
#[derive(Debug)]
pub struct ProcessInfo {
    pub pid: u32,
    /// Process number of the parent.
    pub ppid: u32,
    pub user: String,
    pub cpu_percent: Percent,
    pub mem_percent: Percent,
    /// Virtual memory in kilobytes.
    pub vsz: u64,
    /// Resident memory in kilobytes.
    pub rss: u64,
    /// State, such as `S`, `R` or `Z`.
    pub stat: String,
    pub start_time: String,
    pub elapsed: String,
    pub command: String,
}

/// What the processes of a listing add up to.
#[derive(Debug)]
pub struct ProcessSummary {
    pub total_processes: usize,
    pub total_cpu_percent: Percent,
    pub total_mem_percent: Percent,
    /// Command of the process that uses the processor most.
    pub top_cpu_consumer: Option<String>,
    /// Command of the process that uses memory most.
    pub top_mem_consumer: Option<String>,
    /// Number of processes in a state that begins with `Z`.
    pub zombie_count: usize,
}

impl Clone for Percent {
    fn clone(&self) -> (r: Self)
        ensures
            r == *self,
    {
        Percent { rank: self.rank, text: self.text.clone() }
    }
}

impl Clone for ProcessInfo {
    fn clone(&self) -> (r: Self)
        ensures
            r == *self,
    {
        ProcessInfo {
            pid: self.pid,
            ppid: self.ppid,
            user: self.user.clone(),
            cpu_percent: self.cpu_percent.clone(),
            mem_percent: self.mem_percent.clone(),
            vsz: self.vsz,
            rss: self.rss,
            stat: self.stat.clone(),
            start_time: self.start_time.clone(),
            elapsed: self.elapsed.clone(),
            command: self.command.clone(),
        }
    }
}

impl Clone for ProcessSummary {
    fn clone(&self) -> (r: Self)
        ensures
            r == *self,
    {
        ProcessSummary {
            total_processes: self.total_processes,
            total_cpu_percent: self.total_cpu_percent.clone(),
            total_mem_percent: self.total_mem_percent.clone(),
            top_cpu_consumer: telemetry::clone_text(&self.top_cpu_consumer),
            top_mem_consumer: telemetry::clone_text(&self.top_mem_consumer),
            zombie_count: self.zombie_count,
        }
    }
}

impl ProcessSnapshot {
    /// Two listings hold the same.
    pub open spec fn same(self, other: ProcessSnapshot) -> bool {
        &&& self.timestamp == other.timestamp
        &&& self.processes@ == other.processes@
        &&& self.summary == other.summary
    }
}

impl Clone for ProcessSnapshot {
    fn clone(&self) -> (r: Self)
        ensures
            r.same(*self),
    {
        let mut processes: Vec<ProcessInfo> = Vec::new();
        for i in 0..self.processes.len()
            invariant
                processes@ == self.processes@.take(i as int),
        {
            processes.push(self.processes[i].clone());
            assert(processes@ =~= self.processes@.take(i + 1));
        }
        assert(processes@ =~= self.processes@);
        ProcessSnapshot {
            timestamp: self.timestamp,
            processes,
            summary: self.summary.clone(),
        }
    }
}

// ---------------------------------------------------------------------------
// Reading a listing
// ---------------------------------------------------------------------------

/// The process that a line of a listing describes.
///
/// The line has ten words or more: process, parent, user, two percentages, two sizes, state,
/// start, time, and the command in what is left. The first two must be numbers; a size that is
/// none counts as 0.
pub open spec fn line_describes(line: Seq<char>, p: ProcessInfo) -> bool {
    let w = text::words(line);
    let size = |i: int|
        match text::parsed(w[i], 10, u64::MAX as int) {
            Some(n) => n,
            None => 0,
        };
    &&& w.len() >= 10
    &&& text::parsed(w[0], 10, u32::MAX as int) == Some(p.pid as int)
    &&& text::parsed(w[1], 10, u32::MAX as int) == Some(p.ppid as int)
    &&& p.user@ == w[2]
    &&& p.vsz == size(5)
    &&& p.rss == size(6)
    &&& p.stat@ == w[7]
    &&& p.start_time@ == w[8]
    &&& p.elapsed@ == w[9]
    &&& p.command@ == text::joined(w.skip(10), " "@)
}

/// A line of a listing describes a process.
pub open spec fn is_process_line(line: Seq<char>) -> bool {
    let w = text::words(line);
    &&& w.len() >= 10
    &&& text::parsed(w[0], 10, u32::MAX as int) is Some
    &&& text::parsed(w[1], 10, u32::MAX as int) is Some
}

/// The two percentages of a line that describes a process, as they are written.
pub fn percent_fields(line: &str) -> (r: Option<(String, String)>)
    ensures
        match r {
            Some((cpu, mem)) => is_process_line(line@) && cpu@ == text::words(line@)[3] && mem@
                == text::words(line@)[4],
            None => !is_process_line(line@),
        },
{
    let w = text::split_words(line);
    assert(text::texts(w@).len() == w@.len());
    if w.len() < 10 {
        return None;
    }
    assert(forall|i: int| 0 <= i < w@.len() ==> text::texts(w@)[i] == #[trigger] w@[i]@);
    if text::parse_number(w[0].as_str(), 10, 0xffff_ffff).is_none() || text::parse_number(
        w[1].as_str(),
        10,
        0xffff_ffff,
    ).is_none() {
        return None;
    }
    Some((w[3].clone(), w[4].clone()))
}

/// A size of a listing, and 0 where it is no number.
fn read_size(s: &str) -> (n: u64)
    ensures
        n == (match text::parsed(s@, 10, u64::MAX as int) {
            Some(v) => v,
            None => 0,
        }),
{
    match text::parse_number(s, 10, u64::MAX) {
        Some(n) => n,
        None => 0,
    }
}

/// Reads one line of a listing, whose percentages are given as they were read from it.
pub fn parse_ps_line(line: &str, cpu_percent: Percent, mem_percent: Percent) -> (r: Option<
    ProcessInfo,
>)
    ensures
        r is Some <==> is_process_line(line@),
        r matches Some(p) ==> line_describes(line@, p) && p.cpu_percent == cpu_percent
            && p.mem_percent == mem_percent,
{
    let w = text::split_words(line);
    assert(text::texts(w@).len() == w@.len());
    if w.len() < 10 {
        return None;
    }
    assert(forall|i: int| 0 <= i < w@.len() ==> text::texts(w@)[i] == #[trigger] w@[i]@);
    let pid = match text::parse_number(w[0].as_str(), 10, 0xffff_ffff) {
        Some(n) => n as u32,
        None => {
            return None;
        },
    };
    let ppid = match text::parse_number(w[1].as_str(), 10, 0xffff_ffff) {
        Some(n) => n as u32,
        None => {
            return None;
        },
    };
    let mut rest: Vec<String> = Vec::new();
    for i in 10..w.len()
        invariant
            w@.len() >= 10,
            text::texts(rest@) == text::texts(w@).subrange(10, i as int),
    {
        let ghost before = rest@;
        rest.push(w[i].clone());
        assert(text::texts(rest@) =~= text::texts(before).push(w@[i as int]@));
        assert(text::texts(rest@) =~= text::texts(w@).subrange(10, i + 1));
    }
    assert(text::texts(rest@) =~= text::texts(w@).skip(10));
    Some(
        ProcessInfo {
            pid,
            ppid,
            user: w[2].clone(),
            cpu_percent,
            mem_percent,
            vsz: read_size(w[5].as_str()),
            rss: read_size(w[6].as_str()),
            stat: w[7].clone(),
            start_time: w[8].clone(),
            elapsed: w[9].clone(),
            command: text::join(&rest, " "),
        },
    )
}

// ---------------------------------------------------------------------------
// Order
// ---------------------------------------------------------------------------

/// The places of the processor percentages.
pub open spec fn cpu_ranks(p: Seq<ProcessInfo>) -> Seq<i32> {
    p.map_values(|x: ProcessInfo| x.cpu_percent.rank)
}

/// The places of the memory percentages.
pub open spec fn mem_ranks(p: Seq<ProcessInfo>) -> Seq<i32> {
    p.map_values(|x: ProcessInfo| x.mem_percent.rank)
}

/// Position `i` comes before position `j` when the positions of `ranks` are put in falling order,
/// with equal ones left in their order.
pub open spec fn ranks_before(ranks: Seq<i32>, i: int, j: int) -> bool {
    ranks[i] > ranks[j] || (ranks[i] == ranks[j] && i < j)
}

/// `order` holds every position of `ranks` once, in falling order, with equal ones left in their
/// order.
pub open spec fn is_ranking(ranks: Seq<i32>, order: Seq<usize>) -> bool {
    &&& order.len() == ranks.len()
    &&& forall|a: int| 0 <= a < order.len() ==> (#[trigger] order[a]) < ranks.len()
    &&& forall|i: usize| i < ranks.len() ==> #[trigger] order.contains(i)
    &&& forall|a: int, b: int|
        0 <= a < b < order.len() ==> ranks_before(ranks, #[trigger] order[a] as int, #[trigger] order[b] as int)
}

/// `i` is the last of the positions of `ranks` that hold its maximum.
pub open spec fn is_last_max(ranks: Seq<i32>, i: int) -> bool {
    &&& 0 <= i < ranks.len()
    &&& forall|j: int| 0 <= j < ranks.len() ==> #[trigger] ranks[j] <= ranks[i]
    &&& forall|j: int| i < j < ranks.len() ==> #[trigger] ranks[j] < ranks[i]
}

/// Puts the positions of `ranks` in falling order.
fn ranking(ranks: &Vec<i32>) -> (order: Vec<usize>)
    ensures
        is_ranking(ranks@, order@),
{
    let mut order: Vec<usize> = Vec::new();
    for i in 0..ranks.len()
        invariant
            is_ranking(ranks@.take(i as int), order@),
    {
        let ghost seen = ranks@.take(i as int);
        let ghost now = ranks@.take(i + 1);
        let ghost before = order@;
        let r = ranks[i];
        let mut k: usize = 0;
        while k < order.len() && ranks[order[k]] >= r
            invariant
                i < ranks@.len(),
                seen == ranks@.take(i as int),
                r == ranks@[i as int],
                order@ == before,
                is_ranking(seen, before),
                k <= before.len(),
                forall|a: int| 0 <= a < k ==> ranks@[#[trigger] before[a] as int] >= r,
            decreases before.len() - k,
        {
            k = k + 1;
        }
        order.insert(k, i);
        let ghost at = k as int;
        assert(order@ == before.insert(at, i));
        assert forall|a: int| 0 <= a < order@.len() implies (#[trigger] order@[a]) < now.len() by {
            if a < at {
                assert(order@[a] == before[a]);
            } else if a > at {
                assert(order@[a] == before[a - 1]);
            }
        }
        assert forall|j: usize| j < now.len() implies #[trigger] order@.contains(j) by {
            if j == i {
                assert(order@[at] == i);
            } else {
                assert(before.contains(j));
                let a = choose|a: int| 0 <= a < before.len() && before[a] == j;
                assert(order@[if a < at {
                    a
                } else {
                    a + 1
                }] == j);
            }
        }
        assert forall|a: int, b: int| 0 <= a < b < order@.len() implies ranks_before(
            now,
            #[trigger] order@[a] as int,
            #[trigger] order@[b] as int,
        ) by {
            let pa = if a < at {
                a
            } else {
                a - 1
            };
            let pb = if b < at {
                b
            } else {
                b - 1
            };
            if a != at && b != at {
                assert(order@[a] == before[pa] && order@[b] == before[pb]);
                assert(ranks_before(seen, before[pa] as int, before[pb] as int));
            } else if b == at {
                assert(order@[a] == before[a]);
                assert(ranks@[before[a] as int] >= r);
                assert(before[a] < seen.len());
            } else {
                assert(order@[b] == before[pb]);
                assert(before[pb] < seen.len());
                assert(ranks@[before[at] as int] < r);
                if pb > at {
                    assert(ranks_before(seen, before[at] as int, before[pb] as int));
                }
            }
        }
    }
    assert(ranks@.take(ranks@.len() as int) =~= ranks@);
    order
}

/// The last of the positions of `ranks` that hold its maximum.
fn last_max(ranks: &Vec<i32>) -> (r: Option<usize>)
    ensures
        match r {
            Some(i) => is_last_max(ranks@, i as int),
            None => ranks@.len() == 0,
        },
{
    if ranks.len() == 0 {
        return None;
    }
    let mut best: usize = 0;
    for i in 1..ranks.len()
        invariant
            is_last_max(ranks@.take(i as int), best as int),
            0 < i,
    {
        let ghost now = ranks@.take(i + 1);
        let ghost seen = ranks@.take(i as int);
        assert(forall|j: int| 0 <= j < i ==> now[j] == #[trigger] seen[j]);
        if ranks[i] >= ranks[best] {
            best = i;
        }
        assert forall|j: int| 0 <= j < now.len() implies #[trigger] now[j] <= now[best as int] by {
            if j < i {
                assert(seen[j] == now[j]);
            }
        }
        assert forall|j: int| best < j < now.len() implies #[trigger] now[j] < now[best as int] by {
            if j < i {
                assert(seen[j] == now[j]);
            }
        }
    }
    assert(ranks@.take(ranks@.len() as int) =~= ranks@);
    Some(best)
}

// ---------------------------------------------------------------------------
// Summary
// ---------------------------------------------------------------------------

/// The state of a process that has ended and whose parent has not taken notice.
pub open spec fn is_zombie(p: ProcessInfo) -> bool {
    p.stat@.len() > 0 && p.stat@[0] == 'Z'
}

/// The zombies among some processes, in their order.
pub open spec fn zombies_of(s: Seq<ProcessInfo>) -> Seq<ProcessInfo>
    decreases s.len(),
{
    if s.len() == 0 {
        Seq::empty()
    } else if is_zombie(s.last()) {
        zombies_of(s.drop_last()).push(s.last())
    } else {
        zombies_of(s.drop_last())
    }
}

/// `name` is the command of the process at the last position that holds the maximum of `ranks`.
pub open spec fn is_top_command(
    processes: Seq<ProcessInfo>,
    ranks: Seq<i32>,
    name: Option<String>,
) -> bool {
    match name {
        Some(n) => exists|i: int| #[trigger]
            is_last_max(ranks, i) && n == processes[i].command,
        None => processes.len() == 0,
    }
}

impl ProcessInfo {
    /// Whether the process is a zombie.
    pub fn zombie(&self) -> (r: bool)
        ensures
            r == is_zombie(*self),
    {
        let cs = text::chars_of(self.stat.as_str());
        cs.len() > 0 && cs[0] == 'Z'
    }
}

fn cpu_ranks_of(processes: &Vec<ProcessInfo>) -> (r: Vec<i32>)
    ensures
        r@ == cpu_ranks(processes@),
{
    let mut r: Vec<i32> = Vec::new();
    for i in 0..processes.len()
        invariant
            r@ == cpu_ranks(processes@.take(i as int)),
    {
        r.push(processes[i].cpu_percent.rank);
        assert(r@ =~= cpu_ranks(processes@.take(i + 1)));
    }
    assert(processes@.take(processes@.len() as int) =~= processes@);
    r
}

fn mem_ranks_of(processes: &Vec<ProcessInfo>) -> (r: Vec<i32>)
    ensures
        r@ == mem_ranks(processes@),
{
    let mut r: Vec<i32> = Vec::new();
    for i in 0..processes.len()
        invariant
            r@ == mem_ranks(processes@.take(i as int)),
    {
        r.push(processes[i].mem_percent.rank);
        assert(r@ =~= mem_ranks(processes@.take(i + 1)));
    }
    assert(processes@.take(processes@.len() as int) =~= processes@);
    r
}

impl ProcessSummary {
    /// What some processes add up to, given the sums of their percentages.
    pub fn compute(
        processes: &Vec<ProcessInfo>,
        total_cpu_percent: Percent,
        total_mem_percent: Percent,
    ) -> (r: ProcessSummary)
        ensures
            r.total_processes == processes@.len(),
            r.total_cpu_percent == total_cpu_percent,
            r.total_mem_percent == total_mem_percent,
            is_top_command(processes@, cpu_ranks(processes@), r.top_cpu_consumer),
            is_top_command(processes@, mem_ranks(processes@), r.top_mem_consumer),
            r.zombie_count == zombies_of(processes@).len(),
    {
        let top_cpu_consumer = match last_max(&cpu_ranks_of(processes)) {
            Some(i) => Some(processes[i].command.clone()),
            None => None,
        };
        let top_mem_consumer = match last_max(&mem_ranks_of(processes)) {
            Some(i) => Some(processes[i].command.clone()),
            None => None,
        };
        let mut zombie_count: usize = 0;
        for i in 0..processes.len()
            invariant
                zombie_count <= i,
                zombie_count == zombies_of(processes@.take(i as int)).len(),
        {
            assert(processes@.take(i + 1).drop_last() =~= processes@.take(i as int));
            if processes[i].zombie() {
                zombie_count = zombie_count + 1;
            }
        }
        assert(processes@.take(processes@.len() as int) =~= processes@);
        ProcessSummary {
            total_processes: processes.len(),
            total_cpu_percent,
            total_mem_percent,
            top_cpu_consumer,
            top_mem_consumer,
            zombie_count,
        }
    }
}

// ---------------------------------------------------------------------------
// Snapshots
// ---------------------------------------------------------------------------

/// The listing that was taken last, with the time of the monotonic clock at which it was taken,
/// in nanoseconds.
#[derive(Debug)]
pub struct ProcessCache {
    pub entry: Option<(ProcessSnapshot, u64)>,
}

impl ProcessCache {
    /// The cache holds a listing that is young enough to be served at `now_ns`.
    pub open spec fn fresh(self, now_ns: u64) -> bool {
        match self.entry {
            Some((_, at)) => now_ns < at || (now_ns - at) / 1_000_000_000 < CACHE_TTL_SECS,
            None => false,
        }
    }

    /// `r` is served out of the cache while what it holds is young, and is kept in it otherwise.
    pub open spec fn serves(self, now_ns: u64, after: ProcessCache, r: ProcessSnapshot) -> bool {
        if self.fresh(now_ns) {
            after == self && r.same((self.entry->Some_0).0)
        } else {
            after.entry matches Some((kept, at)) && kept.same(r) && at == now_ns
        }
    }

    /// A cache without a listing.
    pub fn new() -> (r: Self)
        ensures
            r.entry is None,
    {
        ProcessCache { entry: None }
    }

    /// Whether the listing in the cache is young enough to be served.
    pub fn is_fresh(&self, now_ns: u64) -> (r: bool)
        ensures
            r == self.fresh(now_ns),
    {
        match &self.entry {
            Some(e) => now_ns < e.1 || (now_ns - e.1) / 1_000_000_000 < CACHE_TTL_SECS,
            None => false,
        }
    }
}

/// The processes that the references of `v` point to.
pub open spec fn pointed(v: Seq<&ProcessInfo>) -> Seq<ProcessInfo> {
    v.map_values(|p: &ProcessInfo| *p)
}

/// `top` holds the first `n` of some processes in the falling order of `ranks`, or all of them
/// where there are fewer.
pub open spec fn is_top(
    processes: Seq<ProcessInfo>,
    ranks: Seq<i32>,
    n: int,
    top: Seq<ProcessInfo>,
) -> bool {
    exists|order: Seq<usize>|
        #![trigger is_ranking(ranks, order)]
        is_ranking(ranks, order) && top == Seq::new(
            (if n < processes.len() {
                n
            } else {
                processes.len() as int
            }) as nat,
            |i: int| processes[order[i] as int],
        )
}

impl ProcessSnapshot {
    /// Makes a listing, or serves the last one while it is young.
    ///
    /// A listing that is made is kept in the cache.
    pub fn capture(
        cache: &mut ProcessCache,
        now_ns: u64,
        timestamp: u64,
        processes: Vec<ProcessInfo>,
        total_cpu_percent: Percent,
        total_mem_percent: Percent,
    ) -> (r: ProcessSnapshot)
        ensures
            old(cache).serves(now_ns, *final(cache), r),
            !old(cache).fresh(now_ns) ==> {
                &&& r.timestamp == timestamp
                &&& r.processes@ == processes@
                &&& r.summary.total_processes == processes@.len()
                &&& r.summary.total_cpu_percent == total_cpu_percent
                &&& r.summary.total_mem_percent == total_mem_percent
                &&& is_top_command(processes@, cpu_ranks(processes@), r.summary.top_cpu_consumer)
                &&& is_top_command(processes@, mem_ranks(processes@), r.summary.top_mem_consumer)
                &&& r.summary.zombie_count == zombies_of(processes@).len()
            },
    {
        if cache.is_fresh(now_ns) {
            match &cache.entry {
                Some(e) => {
                    return e.0.clone();
                },
                None => {},
            }
        }
        let summary = ProcessSummary::compute(&processes, total_cpu_percent, total_mem_percent);
        let snapshot = ProcessSnapshot { timestamp, processes, summary };
        cache.entry = Some((snapshot.clone(), now_ns));
        snapshot
    }

    /// Forgets the listing in the cache, so that the next one is made anew.
    pub fn clear_cache(cache: &mut ProcessCache)
        ensures
            final(cache).entry is None,
    {
        cache.entry = None;
    }

    /// The zombies of the listing.
    pub fn zombies(&self) -> (r: Vec<&ProcessInfo>)
        ensures
            pointed(r@) == zombies_of(self.processes@),
    {
        let mut r: Vec<&ProcessInfo> = Vec::new();
        assert(pointed(r@) =~= zombies_of(self.processes@.take(0)));
        for i in 0..self.processes.len()
            invariant
                pointed(r@) == zombies_of(self.processes@.take(i as int)),
        {
            assert(self.processes@.take(i + 1).drop_last() =~= self.processes@.take(i as int));
            if self.processes[i].zombie() {
                let ghost before = r@;
                r.push(&self.processes[i]);
                assert(pointed(r@) =~= pointed(before).push(self.processes@[i as int]));
            }
        }
        assert(self.processes@.take(self.processes@.len() as int) =~= self.processes@);
        r
    }

    /// The processes at the first `n` positions of an order.
    fn pick(&self, order: &Vec<usize>, n: usize) -> (r: Vec<&ProcessInfo>)
        requires
            order@.len() == self.processes@.len(),
            forall|a: int| 0 <= a < order@.len() ==> (#[trigger] order@[a]) < self.processes@.len(),
        ensures
            pointed(r@) == Seq::new(
                (if n < self.processes@.len() {
                    n as int
                } else {
                    self.processes@.len() as int
                }) as nat,
                |i: int| self.processes@[order@[i] as int],
            ),
    {
        let count = if n < order.len() {
            n
        } else {
            order.len()
        };
        let mut r: Vec<&ProcessInfo> = Vec::new();
        for i in 0..count
            invariant
                count <= order@.len(),
                order@.len() == self.processes@.len(),
                forall|a: int| 0 <= a < order@.len() ==> (#[trigger] order@[a]) < self.processes@.len(),
                pointed(r@) == Seq::new(i as nat, |j: int| self.processes@[order@[j] as int]),
        {
            let ghost before = r@;
            r.push(&self.processes[order[i]]);
            assert(pointed(r@) =~= pointed(before).push(self.processes@[order@[i as int] as int]));
            assert(pointed(r@) =~= Seq::new(
                (i + 1) as nat,
                |j: int| self.processes@[order@[j] as int],
            ));
        }
        r
    }

    /// The `n` processes that use the processor most, the most demanding first.
    pub fn top_by_cpu(&self, n: usize) -> (r: Vec<&ProcessInfo>)
        ensures
            is_top(self.processes@, cpu_ranks(self.processes@), n as int, pointed(r@)),
    {
        let order = ranking(&cpu_ranks_of(&self.processes));
        self.pick(&order, n)
    }

    /// The `n` processes that use memory most, the most demanding first.
    pub fn top_by_mem(&self, n: usize) -> (r: Vec<&ProcessInfo>)
        ensures
            is_top(self.processes@, mem_ranks(self.processes@), n as int, pointed(r@)),
    {
        let order = ranking(&mem_ranks_of(&self.processes));
        self.pick(&order, n)
    }
}

/// A listing is served again for half a minute: one that is asked for within 30 seconds of one that
/// was made is the same, whatever the machine has come to in between.
pub proof fn law_served_again(
    before: ProcessCache,
    between: ProcessCache,
    after: ProcessCache,
    made_ns: u64,
    asked_ns: u64,
    made: ProcessSnapshot,
    asked: ProcessSnapshot,
)
    requires
        !before.fresh(made_ns),
        before.serves(made_ns, between, made),
        between.serves(asked_ns, after, asked),
        asked_ns - made_ns < CACHE_TTL_SECS * 1_000_000_000,
    ensures
        asked.same(made),
        after == between,
{
}

// ---------------------------------------------------------------------------
// Report
// ---------------------------------------------------------------------------

/// A number of tenths with a decimal point.
pub open spec fn tenths_text(t: nat) -> Seq<char> {
    text::decimal(t / 10) + "."@ + text::decimal(t % 10)
}

/// A number of kilobytes in the largest unit that it reaches, with one decimal above kilobytes.
pub open spec fn size_text(kb: u64) -> Seq<char> {
    if kb >= 1048576 {
        tenths_text(json::rounded(10 * json::double_value(kb as nat), 1048576)) + "G"@
    } else if kb >= 1024 {
        tenths_text(json::rounded((10 * kb) as nat, 1024)) + "M"@
    } else {
        text::decimal(kb as nat) + "K"@
    }
}

/// `s` cut to a number of characters, with three dots at its end where any were cut off.
pub open spec fn truncated(s: Seq<char>, max_len: int) -> Seq<char> {
    if s.len() > max_len {
        s.take(if max_len >= 3 {
            max_len - 3
        } else {
            0
        }) + "..."@
    } else {
        s
    }
}

/// A number of tenths with a decimal point.
fn format_tenths(t: u128) -> (r: String)
    requires
        t / 10 <= u64::MAX,
    ensures
        r@ == tenths_text(t as nat),
{
    let mut r = text::decimal_text((t / 10) as u64);
    r.append(".");
    r.append(text::decimal_text((t % 10) as u64).as_str());
    r
}

/// A number of kilobytes for people to read: `512K`, `1.5M`, `2.0G`.
pub fn format_size(kb: u64) -> (r: String)
    ensures
        r@ == size_text(kb),
{
    if kb >= 1048576 {
        let v = json::double_value_of(kb);
        let t = json::round_div(10 * v, 1048576);
        assert(t <= 10 * v / 1048576 + 1);
        let mut r = format_tenths(t);
        r.append("G");
        r
    } else if kb >= 1024 {
        let t = json::round_div(10 * (kb as u128), 1024);
        let mut r = format_tenths(t);
        r.append("M");
        r
    } else {
        let mut r = text::decimal_text(kb);
        r.append("K");
        r
    }
}

/// Cuts a text to a number of characters, with three dots at its end where any are cut off.
pub fn truncate(s: &str, max_len: usize) -> (r: String)
    ensures
        r@ == truncated(s@, max_len as int),
{
    let cs = text::chars_of(s);
    if cs.len() > max_len {
        let end: usize = if max_len >= 3 {
            max_len - 3
        } else {
            0
        };
        let mut r = text::string_of(&cs, 0, end);
        assert(cs@.subrange(0, end as int) =~= s@.take(end as int));
        r.append("...");
        r
    } else {
        s.to_owned()
    }
}

/// The line of a report for the process in place `i`.
pub open spec fn process_line(i: int, p: ProcessInfo) -> Seq<char> {
    text::padded_left(text::decimal((i + 1) as nat), 2) + ". "@ + text::padded_left(
        text::decimal(p.pid as nat),
        6,
    ) + " "@ + text::padded_right(p.user@, 6) + " "@ + text::padded_left(p.cpu_percent.text@, 5)
        + " "@ + text::padded_left(p.mem_percent.text@, 5) + " "@ + text::padded_right(
        size_text(p.vsz),
        8,
    ) + " "@ + text::padded_right(size_text(p.rss), 8) + " "@ + json::debug_quoted(p.stat@) + " "@
        + truncated(p.command@, 50)
}

/// The lines of a report for some processes.
pub open spec fn process_lines(top: Seq<ProcessInfo>) -> Seq<Seq<char>> {
    Seq::new(top.len(), |i: int| process_line(i, top[i]))
}

/// The first of some processes with a command.
pub open spec fn first_with(s: Seq<ProcessInfo>, command: Seq<char>) -> Option<ProcessInfo>
    decreases s.len(),
{
    if s.len() == 0 {
        None
    } else if s[0].command@ == command {
        Some(s[0])
    } else {
        first_with(s.skip(1), command)
    }
}

/// The heading of a report and its lines on the sums.
pub open spec fn summary_lines(s: ProcessSnapshot) -> Seq<Seq<char>> {
    let head = seq![
        Seq::<char>::empty(),
        "================================================================================"@,
        " PROCESS SNAPSHOT ["@ + text::decimal(s.timestamp as nat) + "]"@,
        "================================================================================"@,
        Seq::<char>::empty(),
        "--- SUMMARY ---"@,
        " Total Processes: "@ + text::decimal(s.summary.total_processes as nat),
        " Total CPU: "@ + s.summary.total_cpu_percent.text@ + "%"@,
        " Total Memory: "@ + s.summary.total_mem_percent.text@ + "%"@,
        " Zombies: "@ + text::decimal(s.summary.zombie_count as nat),
    ];
    let cpu = match s.summary.top_cpu_consumer {
        Some(c) => seq![
            " Top CPU: "@ + c@ + " ("@ + (match first_with(s.processes@, c@) {
                Some(p) => p.cpu_percent.text@,
                None => "0.0"@,
            }) + "%)"@,
        ],
        None => Seq::empty(),
    };
    let mem = match s.summary.top_mem_consumer {
        Some(c) => seq![
            " Top Memory: "@ + c@ + " ("@ + (match first_with(s.processes@, c@) {
                Some(p) => p.mem_percent.text@,
                None => "0.0"@,
            }) + "%)"@,
        ],
        None => Seq::empty(),
    };
    head + cpu + mem
}

/// `r` is the report on a listing: its sums, then the ten processes that use the processor most
/// and the ten that use memory most.
pub open spec fn is_report(s: ProcessSnapshot, r: Seq<Seq<char>>) -> bool {
    exists|by_cpu: Seq<ProcessInfo>, by_mem: Seq<ProcessInfo>|
        #![trigger process_lines(by_cpu), process_lines(by_mem)]
        {
            &&& is_top(s.processes@, cpu_ranks(s.processes@), 10, by_cpu)
            &&& is_top(s.processes@, mem_ranks(s.processes@), 10, by_mem)
            &&& r == summary_lines(s) + seq![Seq::<char>::empty(), "--- TOP 10 BY CPU ---"@]
                + process_lines(by_cpu) + seq![Seq::<char>::empty(), "--- TOP 10 BY MEMORY ---"@]
                + process_lines(by_mem) + seq![Seq::<char>::empty(), "================================================================================"@]
        }
}

impl ProcessInfo {
    /// The line of a report for the process in place `i`.
    fn line(&self, i: usize) -> (r: String)
        requires
            i < usize::MAX,
        ensures
            r@ == process_line(i as int, *self),
    {
        let mut r = text::pad_left(text::decimal_text(i as u64 + 1).as_str(), 2);
        r.append(". ");
        r.append(text::pad_left(text::decimal_text(self.pid as u64).as_str(), 6).as_str());
        r.append(" ");
        r.append(text::pad_right(self.user.as_str(), 6).as_str());
        r.append(" ");
        r.append(text::pad_left(self.cpu_percent.text.as_str(), 5).as_str());
        r.append(" ");
        r.append(text::pad_left(self.mem_percent.text.as_str(), 5).as_str());
        r.append(" ");
        r.append(text::pad_right(format_size(self.vsz).as_str(), 8).as_str());
        r.append(" ");
        r.append(text::pad_right(format_size(self.rss).as_str(), 8).as_str());
        r.append(" ");
        r.append(json::quote_debug(self.stat.as_str()).as_str());
        r.append(" ");
        r.append(truncate(self.command.as_str(), 50).as_str());
        r
    }
}

/// The lines of a report for some processes.
fn lines_of(top: &Vec<&ProcessInfo>) -> (r: Vec<String>)
    ensures
        text::texts(r@) == process_lines(pointed(top@)),
{
    let mut r: Vec<String> = Vec::new();
    for i in 0..top.len()
        invariant
            text::texts(r@) == process_lines(pointed(top@).take(i as int)),
    {
        let ghost before = r@;
        r.push(top[i].line(i));
        assert(text::texts(r@) =~= text::texts(before).push(
            process_line(i as int, *top@[i as int]),
        ));
        assert(text::texts(r@) =~= process_lines(pointed(top@).take(i + 1)));
    }
    assert(pointed(top@).take(top@.len() as int) =~= pointed(top@));
    r
}

impl ProcessSnapshot {
    /// The first process with a command.
    fn find(&self, command: &str) -> (r: Option<&ProcessInfo>)
        ensures
            match r {
                Some(p) => first_with(self.processes@, command@) == Some(*p),
                None => first_with(self.processes@, command@) is None,
            },
    {
        assert(self.processes@.skip(0) =~= self.processes@);
        for i in 0..self.processes.len()
            invariant
                first_with(self.processes@, command@) == first_with(
                    self.processes@.skip(i as int),
                    command@,
                ),
        {
            assert(self.processes@.skip(i as int)[0] == self.processes@[i as int]);
            if text::same(self.processes[i].command.as_str(), command) {
                return Some(&self.processes[i]);
            }
            assert(self.processes@.skip(i as int).skip(1) =~= self.processes@.skip(i + 1));
        }
        None
    }

    /// The heading of a report and its lines on the sums.
    fn report_summary(&self) -> (r: Vec<String>)
        ensures
            text::texts(r@) == summary_lines(*self),
    {
        let mut out: Vec<String> = Vec::new();
        out.push(String::new());
        out.push("================================================================================".to_owned());
        let mut head = " PROCESS SNAPSHOT [".to_owned();
        head.append(text::decimal_text(self.timestamp).as_str());
        head.append("]");
        out.push(head);
        out.push("================================================================================".to_owned());
        out.push(String::new());
        out.push("--- SUMMARY ---".to_owned());
        let mut total = " Total Processes: ".to_owned();
        total.append(text::decimal_text(self.summary.total_processes as u64).as_str());
        out.push(total);
        let mut cpu = " Total CPU: ".to_owned();
        cpu.append(self.summary.total_cpu_percent.text.as_str());
        cpu.append("%");
        out.push(cpu);
        let mut mem = " Total Memory: ".to_owned();
        mem.append(self.summary.total_mem_percent.text.as_str());
        mem.append("%");
        out.push(mem);
        let mut zombies = " Zombies: ".to_owned();
        zombies.append(text::decimal_text(self.summary.zombie_count as u64).as_str());
        out.push(zombies);
        match &self.summary.top_cpu_consumer {
            Some(c) => {
                let mut line = " Top CPU: ".to_owned();
                line.append(c.as_str());
                line.append(" (");
                match self.find(c.as_str()) {
                    Some(p) => line.append(p.cpu_percent.text.as_str()),
                    None => line.append("0.0"),
                }
                line.append("%)");
                out.push(line);
            },
            None => {},
        }
        match &self.summary.top_mem_consumer {
            Some(c) => {
                let mut line = " Top Memory: ".to_owned();
                line.append(c.as_str());
                line.append(" (");
                match self.find(c.as_str()) {
                    Some(p) => line.append(p.mem_percent.text.as_str()),
                    None => line.append("0.0"),
                }
                line.append("%)");
                out.push(line);
            },
            None => {},
        }
        assert(text::texts(out@) =~= summary_lines(*self));
        out
    }

    /// The lines of a report on the listing.
    pub fn report(&self) -> (r: Vec<String>)
        ensures
            is_report(*self, text::texts(r@)),
    {
        let mut out = self.report_summary();
        let by_cpu = self.top_by_cpu(10);
        let by_mem = self.top_by_mem(10);
        let mut cpu_lines = lines_of(&by_cpu);
        let mut mem_lines = lines_of(&by_mem);
        let ghost head = out@;
        let ghost a = cpu_lines@;
        let ghost b = mem_lines@;
        out.push(String::new());
        out.push("--- TOP 10 BY CPU ---".to_owned());
        out.append(&mut cpu_lines);
        out.push(String::new());
        out.push("--- TOP 10 BY MEMORY ---".to_owned());
        out.append(&mut mem_lines);
        out.push(String::new());
        out.push("================================================================================".to_owned());
        assert(text::texts(out@) =~= text::texts(head) + seq![
            Seq::<char>::empty(),
            "--- TOP 10 BY CPU ---"@,
        ] + text::texts(a) + seq![Seq::<char>::empty(), "--- TOP 10 BY MEMORY ---"@] + text::texts(
            b,
        ) + seq![Seq::<char>::empty(), "================================================================================"@]);
        out
    }
}


// ---------------------------------------------------------------------------
// What holds of listings
// ---------------------------------------------------------------------------

/// A line of a listing begins with two process numbers and has ten words at least; the words give
/// the fields in order, the third the user and the last ones the command. A size that is no number
/// is 0.
pub proof fn law_listed_process(
    line: &str,
    cpu: Percent,
    mem: Percent,
    pid: nat,
    ppid: nat,
    vsz: nat,
    rss: nat,
    r: Option<ProcessInfo>,
)
    requires
        call_ensures(parse_ps_line, (line, cpu, mem), r),
        text::words(line@).len() >= 10,
        text::words(line@)[0] == text::decimal(pid),
        text::words(line@)[1] == text::decimal(ppid),
        text::words(line@)[5] == text::decimal(vsz),
        text::words(line@)[6] == text::decimal(rss),
    ensures
        r is Some <==> pid <= u32::MAX && ppid <= u32::MAX,
        r is Some ==> {
            let w = text::words(line@);
            let p = r->0;
            &&& p.pid == pid
            &&& p.ppid == ppid
            &&& p.user@ == w[2]
            &&& p.cpu_percent == cpu
            &&& p.mem_percent == mem
            &&& p.vsz == (if vsz <= u64::MAX {
                vsz
            } else {
                0
            })
            &&& p.rss == (if rss <= u64::MAX {
                rss
            } else {
                0
            })
            &&& p.stat@ == w[7]
            &&& p.start_time@ == w[8]
            &&& p.elapsed@ == w[9]
            &&& p.command@ == text::joined(w.skip(10), " "@)
        },
{
    text::law_decimal(pid, u32::MAX as int);
    text::law_decimal(ppid, u32::MAX as int);
    text::law_decimal(vsz, u64::MAX as int);
    text::law_decimal(rss, u64::MAX as int);
}

/// A line of fewer than ten words, or one whose first or second word is no number, lists nothing;
/// the percentages stand in the fourth and the fifth word of any other.
pub proof fn law_other_lines(
    line: &str,
    cpu: Percent,
    mem: Percent,
    r: Option<ProcessInfo>,
    fields: Option<(String, String)>,
    i: int,
    k: int,
)
    requires
        call_ensures(parse_ps_line, (line, cpu, mem), r),
        call_ensures(percent_fields, (line,), fields),
        i == 0 || i == 1,
    ensures
        r is Some <==> fields is Some,
        text::words(line@).len() < 10 ==> r is None,
        text::words(line@).len() >= 10 && 0 <= k < text::words(line@)[i].len() && !('0'
            <= text::words(line@)[i][k] <= '9') && (k > 0 || text::words(line@)[i][0] != '+') ==> r
            is None,
        fields is Some ==> (fields->0).0@ == text::words(line@)[3] && (fields->0).1@
            == text::words(line@)[4],
{
    if 0 <= k < text::words(line@)[i].len() {
        text::law_no_number(text::words(line@)[i], k, 10, u32::MAX as int);
    }
}

/// The zombies of a listing are its processes whose state begins with `Z`, in its order.
pub proof fn law_zombies(a: Seq<ProcessInfo>, b: Seq<ProcessInfo>, p: ProcessInfo)
    ensures
        zombies_of(a + b) == zombies_of(a) + zombies_of(b),
        zombies_of(seq![p]) == (if p.stat@.len() > 0 && p.stat@[0] == 'Z' {
            seq![p]
        } else {
            Seq::empty()
        }),
        zombies_of(Seq::empty()) == Seq::<ProcessInfo>::empty(),
    decreases b.len(),
{
    assert(seq![p].drop_last() =~= Seq::<ProcessInfo>::empty());
    assert(zombies_of(seq![p].drop_last()) == Seq::<ProcessInfo>::empty());
    assert(Seq::<ProcessInfo>::empty().push(p) =~= seq![p]);
    if b.len() == 0 {
        assert(a + b =~= a);
        assert(zombies_of(a) + zombies_of(b) =~= zombies_of(a));
    } else {
        law_zombies(a, b.drop_last(), p);
        assert((a + b).drop_last() =~= a + b.drop_last());
        assert((a + b).last() == b.last());
        assert(zombies_of(a) + zombies_of(b.drop_last()).push(b.last()) =~= (zombies_of(a)
            + zombies_of(b.drop_last())).push(b.last()));
    }
}

/// The places in a listing at which the processes of `top` stand, none of them twice.
pub open spec fn places_of(all: Seq<ProcessInfo>, top: Seq<ProcessInfo>, at: Seq<int>) -> bool {
    &&& at.len() == top.len()
    &&& forall|a: int| 0 <= a < at.len() ==> 0 <= #[trigger] at[a] < all.len() && top[a] == all[at[a]]
    &&& forall|a: int, b: int| 0 <= a < b < at.len() ==> #[trigger] at[a] != #[trigger] at[b]
}

/// The processes that use the processor most are all of the listing or as many as are asked for;
/// none uses it less than one behind it, of two that use it alike the one that is listed first
/// stands first, and none that is left out uses it more than one that is not.
pub proof fn law_top_by_cpu(s: ProcessSnapshot, n: usize, r: Vec<&ProcessInfo>)
    requires
        call_ensures(ProcessSnapshot::top_by_cpu, (&s, n), r),
    ensures
        r@.len() == n || (r@.len() < n && r@.len() == s.processes@.len()),
        r@.len() <= s.processes@.len(),
        exists|at: Seq<int>|
            {
                &&& #[trigger] places_of(s.processes@, pointed(r@), at)
                &&& forall|a: int, b: int|
                    0 <= a < b < at.len() ==> s.processes@[#[trigger] at[a]].cpu_percent.rank
                        > s.processes@[#[trigger] at[b]].cpu_percent.rank || (
                    s.processes@[at[a]].cpu_percent.rank == s.processes@[at[b]].cpu_percent.rank
                        && at[a] < at[b])
                &&& forall|j: int, a: int|
                    0 <= j < s.processes@.len() && !at.contains(j) && 0 <= a < at.len()
                        ==> #[trigger] s.processes@[j].cpu_percent.rank <= s.processes@[
                    #[trigger] at[a]].cpu_percent.rank
            },
{
    let all = s.processes@;
    let ranks = cpu_ranks(all);
    let top = pointed(r@);
    let order = choose|order: Seq<usize>|
        #![trigger is_ranking(ranks, order)]
        is_ranking(ranks, order) && top == Seq::new(
            (if n < all.len() {
                n as int
            } else {
                all.len() as int
            }) as nat,
            |i: int| all[order[i] as int],
        );
    assert(s.processes.len() == all.len());
    lemma_top_places(all, ranks, order, top);
    let at = Seq::new(top.len(), |a: int| order[a] as int);
    assert(places_of(all, top, at));
    assert(forall|j: int| 0 <= j < all.len() ==> ranks[j] == #[trigger] all[j].cpu_percent.rank);
    assert forall|a: int, b: int| 0 <= a < b < at.len() implies all[#[trigger] at[a]].cpu_percent.rank
        > all[#[trigger] at[b]].cpu_percent.rank || (all[at[a]].cpu_percent.rank
        == all[at[b]].cpu_percent.rank && at[a] < at[b]) by {
        assert(ranks_before(ranks, order[a] as int, order[b] as int));
    }
    assert forall|j: int, a: int|
        0 <= j < all.len() && !at.contains(j) && 0 <= a < at.len() implies #[trigger] all[j].cpu_percent.rank
        <= all[#[trigger] at[a]].cpu_percent.rank by {
        assert(ranks[j] <= ranks[at[a]]);
    }
}

/// Likewise of memory.
pub proof fn law_top_by_mem(s: ProcessSnapshot, n: usize, r: Vec<&ProcessInfo>)
    requires
        call_ensures(ProcessSnapshot::top_by_mem, (&s, n), r),
    ensures
        r@.len() == n || (r@.len() < n && r@.len() == s.processes@.len()),
        r@.len() <= s.processes@.len(),
        exists|at: Seq<int>|
            {
                &&& #[trigger] places_of(s.processes@, pointed(r@), at)
                &&& forall|a: int, b: int|
                    0 <= a < b < at.len() ==> s.processes@[#[trigger] at[a]].mem_percent.rank
                        > s.processes@[#[trigger] at[b]].mem_percent.rank || (
                    s.processes@[at[a]].mem_percent.rank == s.processes@[at[b]].mem_percent.rank
                        && at[a] < at[b])
                &&& forall|j: int, a: int|
                    0 <= j < s.processes@.len() && !at.contains(j) && 0 <= a < at.len()
                        ==> #[trigger] s.processes@[j].mem_percent.rank <= s.processes@[
                    #[trigger] at[a]].mem_percent.rank
            },
{
    let all = s.processes@;
    let ranks = mem_ranks(all);
    let top = pointed(r@);
    let order = choose|order: Seq<usize>|
        #![trigger is_ranking(ranks, order)]
        is_ranking(ranks, order) && top == Seq::new(
            (if n < all.len() {
                n as int
            } else {
                all.len() as int
            }) as nat,
            |i: int| all[order[i] as int],
        );
    assert(s.processes.len() == all.len());
    lemma_top_places(all, ranks, order, top);
    let at = Seq::new(top.len(), |a: int| order[a] as int);
    assert(places_of(all, top, at));
    assert(forall|j: int| 0 <= j < all.len() ==> ranks[j] == #[trigger] all[j].mem_percent.rank);
    assert forall|a: int, b: int| 0 <= a < b < at.len() implies all[#[trigger] at[a]].mem_percent.rank
        > all[#[trigger] at[b]].mem_percent.rank || (all[at[a]].mem_percent.rank
        == all[at[b]].mem_percent.rank && at[a] < at[b]) by {
        assert(ranks_before(ranks, order[a] as int, order[b] as int));
    }
    assert forall|j: int, a: int|
        0 <= j < all.len() && !at.contains(j) && 0 <= a < at.len() implies #[trigger] all[j].mem_percent.rank
        <= all[#[trigger] at[a]].mem_percent.rank by {
        assert(ranks[j] <= ranks[at[a]]);
    }
}

proof fn lemma_top_places(
    all: Seq<ProcessInfo>,
    ranks: Seq<i32>,
    order: Seq<usize>,
    top: Seq<ProcessInfo>,
)
    requires
        ranks.len() == all.len(),
        all.len() <= usize::MAX,
        is_ranking(ranks, order),
        top.len() <= all.len(),
        top == Seq::new(top.len(), |i: int| all[order[i] as int]),
    ensures
        ({
            let at = Seq::new(top.len(), |a: int| order[a] as int);
            &&& places_of(all, top, at)
            &&& forall|j: int, a: int|
                0 <= j < all.len() && !at.contains(j) && 0 <= a < at.len() ==> #[trigger] ranks[j]
                    <= ranks[#[trigger] at[a]]
        }),
{
    let at = Seq::new(top.len(), |a: int| order[a] as int);
    assert forall|a: int, b: int| 0 <= a < b < at.len() implies #[trigger] at[a]
        != #[trigger] at[b] by {
        assert(ranks_before(ranks, order[a] as int, order[b] as int));
    }
    assert forall|a: int| 0 <= a < at.len() implies 0 <= #[trigger] at[a] < all.len() && top[a]
        == all[at[a]] by {
        assert(order[a] < ranks.len());
    }
    assert forall|j: int, a: int|
        0 <= j < all.len() && !at.contains(j) && 0 <= a < at.len() implies #[trigger] ranks[j]
        <= ranks[#[trigger] at[a]] by {
        assert(order.contains(j as usize));
        let b = choose|b: int| 0 <= b < order.len() && order[b] == j as usize;
        if b < at.len() {
            assert(at[b] == j);
        }
        assert(ranks_before(ranks, order[a] as int, order[b] as int));
    }
}

/// A summary counts the processes and the zombies, and names the command of a process that none
/// outdoes, the last one listed where several do as much.
pub proof fn law_summary(
    processes: Vec<ProcessInfo>,
    cpu: Percent,
    mem: Percent,
    r: ProcessSummary,
)
    requires
        call_ensures(ProcessSummary::compute, (&processes, cpu, mem), r),
    ensures
        r.total_processes == processes@.len(),
        r.total_cpu_percent == cpu,
        r.total_mem_percent == mem,
        r.zombie_count == zombies_of(processes@).len(),
        r.top_cpu_consumer is None <==> processes@.len() == 0,
        r.top_mem_consumer is None <==> processes@.len() == 0,
        r.top_cpu_consumer is Some ==> exists|i: int|
            {
                &&& 0 <= i < processes@.len()
                &&& r.top_cpu_consumer == Some((#[trigger] processes@[i]).command)
                &&& forall|j: int|
                    0 <= j < processes@.len() ==> (#[trigger] processes@[j]).cpu_percent.rank
                        <= processes@[i].cpu_percent.rank
                &&& forall|j: int|
                    i < j < processes@.len() ==> (#[trigger] processes@[j]).cpu_percent.rank
                        < processes@[i].cpu_percent.rank
            },
        r.top_mem_consumer is Some ==> exists|i: int|
            {
                &&& 0 <= i < processes@.len()
                &&& r.top_mem_consumer == Some((#[trigger] processes@[i]).command)
                &&& forall|j: int|
                    0 <= j < processes@.len() ==> (#[trigger] processes@[j]).mem_percent.rank
                        <= processes@[i].mem_percent.rank
                &&& forall|j: int|
                    i < j < processes@.len() ==> (#[trigger] processes@[j]).mem_percent.rank
                        < processes@[i].mem_percent.rank
            },
{
    let all = processes@;
    let by_cpu = cpu_ranks(all);
    let by_mem = mem_ranks(all);
    assert(forall|j: int| 0 <= j < all.len() ==> by_cpu[j] == (#[trigger] all[j]).cpu_percent.rank);
    assert(forall|j: int| 0 <= j < all.len() ==> by_mem[j] == (#[trigger] all[j]).mem_percent.rank);
    if r.top_cpu_consumer is Some {
        let i = choose|i: int| #[trigger]
            is_last_max(by_cpu, i) && r.top_cpu_consumer->0 == all[i].command;
        assert(r.top_cpu_consumer == Some(all[i].command));
    }
    if r.top_mem_consumer is Some {
        let i = choose|i: int| #[trigger]
            is_last_max(by_mem, i) && r.top_mem_consumer->0 == all[i].command;
        assert(r.top_mem_consumer == Some(all[i].command));
    }
}

/// A listing is young for half a minute from when it was made, and what is older is not served.
pub proof fn law_young(cache: ProcessCache, now_ns: u64)
    ensures
        cache.fresh(now_ns) <==> cache.entry is Some && now_ns - (cache.entry->0).1
            < 30_000_000_000,
{
}

/// An old listing, or none, is replaced by the one that is made now, and a young one is served as
/// it is.
pub proof fn law_served(
    before: ProcessCache,
    now_ns: u64,
    after: ProcessCache,
    r: ProcessSnapshot,
)
    requires
        before.serves(now_ns, after, r),
    ensures
        before.entry is Some && now_ns - (before.entry->0).1 < 30_000_000_000 ==> after == before
            && r.processes@ == (before.entry->0).0.processes@ && r.timestamp == (
        before.entry->0).0.timestamp && r.summary == (before.entry->0).0.summary,
        !(before.entry is Some && now_ns - (before.entry->0).1 < 30_000_000_000) ==> after.entry
            is Some && (after.entry->0).1 == now_ns && (after.entry->0).0.processes@ == r.processes@
            && (after.entry->0).0.timestamp == r.timestamp,
{
}

/// A size is shown in kilobytes below a thousand and twenty-four of them, else in the next unit to
/// the nearest tenth.
pub proof fn law_sizes_shown(kb: u64, t: nat)
    requires
        t <= 100_000_000_000_000,
    ensures
        kb < 1024 ==> size_text(kb) == text::decimal(kb as nat) + "K"@,
        1024 <= kb < 1048576 && -512 < 1024 * t - 10 * kb < 512 ==> size_text(kb) == text::decimal(
            t / 10,
        ) + "."@ + text::decimal(t % 10) + "M"@,
        1048576 <= kb < 9_007_199_254_740_992 && -524288 < 1048576 * t - 10 * kb < 524288
            ==> size_text(kb) == text::decimal(t / 10) + "."@ + text::decimal(t % 10) + "G"@,
{
    if kb < 9_007_199_254_740_992 {
        json::law_small_doubles(kb as nat);
    }
}

/// A text that is too long is cut to fit, with three dots at its end; any other stands as it is.
pub proof fn law_truncated(s: Seq<char>, max: int)
    requires
        max >= 0,
    ensures
        s.len() <= max ==> truncated(s, max) == s,
        s.len() > max && max >= 3 ==> truncated(s, max).len() == max && truncated(s, max).take(
            max - 3,
        ) == s.take(max - 3) && truncated(s, max).skip(max - 3) == "..."@,
        s.len() > max && max < 3 ==> truncated(s, max) == "..."@,
{
    reveal_strlit("...");
    let t = truncated(s, max);
    if s.len() > max && max >= 3 {
        assert(t.take(max - 3) =~= s.take(max - 3));
        assert(t.skip(max - 3) =~= "..."@);
    } else if s.len() > max {
        assert(t =~= "..."@);
    }
}

/// The process that a command is looked up as is the first one listed with it.
pub proof fn law_first_with(s: Seq<ProcessInfo>, command: Seq<char>)
    ensures
        first_with(s, command) is None <==> forall|i: int|
            0 <= i < s.len() ==> (#[trigger] s[i]).command@ != command,
        first_with(s, command) is Some ==> exists|i: int|
            {
                &&& 0 <= i < s.len()
                &&& first_with(s, command) == Some(#[trigger] s[i])
                &&& s[i].command@ == command
                &&& forall|j: int| 0 <= j < i ==> (#[trigger] s[j]).command@ != command
            },
    decreases s.len(),
{
    if s.len() > 0 {
        let rest = s.skip(1);
        law_first_with(rest, command);
        assert(forall|i: int| 0 <= i < rest.len() ==> #[trigger] rest[i] == s[i + 1]);
        assert(forall|i: int| 0 < i < s.len() ==> #[trigger] s[i] == rest[i - 1]);
        if s[0].command@ == command {
            assert(first_with(s, command) == Some(s[0]));
        } else if first_with(rest, command) is Some {
            let i = choose|i: int|
                {
                    &&& 0 <= i < rest.len()
                    &&& first_with(rest, command) == Some(#[trigger] rest[i])
                    &&& rest[i].command@ == command
                    &&& forall|j: int| 0 <= j < i ==> (#[trigger] rest[j]).command@ != command
                };
            assert(first_with(s, command) == Some(s[i + 1]));
        }
    }
}

/// A line of the report numbers a process and shows its number, user, percentages, sizes, state and
/// command, in columns.
pub proof fn law_process_lines(top: Seq<ProcessInfo>, i: int)
    requires
        0 <= i < top.len(),
    ensures
        process_lines(top).len() == top.len(),
        process_lines(top)[i] == text::padded_left(text::decimal((i + 1) as nat), 2) + ". "@
            + text::padded_left(text::decimal(top[i].pid as nat), 6) + " "@ + text::padded_right(
            top[i].user@,
            6,
        ) + " "@ + text::padded_left(top[i].cpu_percent.text@, 5) + " "@ + text::padded_left(
            top[i].mem_percent.text@,
            5,
        ) + " "@ + text::padded_right(size_text(top[i].vsz), 8) + " "@ + text::padded_right(
            size_text(top[i].rss),
            8,
        ) + " "@ + json::debug_quoted(top[i].stat@) + " "@ + truncated(top[i].command@, 50),
{
}

/// The summary stands at the head of a report.
pub proof fn law_summary_lines(s: ProcessSnapshot)
    ensures
        ({
            let l = summary_lines(s);
            &&& 10 <= l.len() <= 12
            &&& l.len() == 10 + (if s.summary.top_cpu_consumer is Some {
                1int
            } else {
                0
            }) + (if s.summary.top_mem_consumer is Some {
                1int
            } else {
                0
            })
            &&& l[2] == " PROCESS SNAPSHOT ["@ + text::decimal(s.timestamp as nat) + "]"@
            &&& l[5] == "--- SUMMARY ---"@
            &&& l[6] == " Total Processes: "@ + text::decimal(s.summary.total_processes as nat)
            &&& l[7] == " Total CPU: "@ + s.summary.total_cpu_percent.text@ + "%"@
            &&& l[8] == " Total Memory: "@ + s.summary.total_mem_percent.text@ + "%"@
            &&& l[9] == " Zombies: "@ + text::decimal(s.summary.zombie_count as nat)
            &&& s.summary.top_cpu_consumer is Some && first_with(
                s.processes@,
                (s.summary.top_cpu_consumer->0)@,
            ) is Some ==> l[10] == " Top CPU: "@ + (s.summary.top_cpu_consumer->0)@ + " ("@ + (
            first_with(s.processes@, (s.summary.top_cpu_consumer->0)@)->0).cpu_percent.text@
                + "%)"@
            &&& s.summary.top_mem_consumer is Some && first_with(
                s.processes@,
                (s.summary.top_mem_consumer->0)@,
            ) is Some ==> l.last() == " Top Memory: "@ + (s.summary.top_mem_consumer->0)@ + " ("@
                + (first_with(s.processes@, (s.summary.top_mem_consumer->0)@)->0).mem_percent.text@
                + "%)"@
        }),
{
}


/// A report is the summary, then the ten most demanding processes by processor, then by memory, each
/// list under its heading.
pub proof fn law_report(s: ProcessSnapshot, r: Vec<String>)
    requires
        call_ensures(ProcessSnapshot::report, (&s,), r),
    ensures
        exists|by_cpu: Seq<ProcessInfo>, by_mem: Seq<ProcessInfo>|
            #![trigger process_lines(by_cpu), process_lines(by_mem)]
            {
                let n = summary_lines(s).len() as int;
                let k = if s.processes@.len() < 10 {
                    s.processes@.len() as int
                } else {
                    10
                };
                let l = text::texts(r@);
                &&& by_cpu.len() == k && by_mem.len() == k
                &&& forall|a: int, b: int|
                    0 <= a < b < k ==> (#[trigger] by_cpu[a]).cpu_percent.rank >= (
                    #[trigger] by_cpu[b]).cpu_percent.rank
                &&& forall|a: int, b: int|
                    0 <= a < b < k ==> (#[trigger] by_mem[a]).mem_percent.rank >= (
                    #[trigger] by_mem[b]).mem_percent.rank
                &&& l.len() == n + 2 * k + 6
                &&& l.take(n) == summary_lines(s)
                &&& l[n + 1] == "--- TOP 10 BY CPU ---"@
                &&& l.subrange(n + 2, n + 2 + k) == process_lines(by_cpu)
                &&& l[n + k + 3] == "--- TOP 10 BY MEMORY ---"@
                &&& l.subrange(n + k + 4, n + k + 4 + k) == process_lines(by_mem)
            },
{
    let all = s.processes@;
    let l = text::texts(r@);
    let (by_cpu, by_mem) = choose|by_cpu: Seq<ProcessInfo>, by_mem: Seq<ProcessInfo>|
        #![trigger process_lines(by_cpu), process_lines(by_mem)]
        {
            &&& is_top(all, cpu_ranks(all), 10, by_cpu)
            &&& is_top(all, mem_ranks(all), 10, by_mem)
            &&& l == summary_lines(s) + seq![Seq::<char>::empty(), "--- TOP 10 BY CPU ---"@]
                + process_lines(by_cpu) + seq![Seq::<char>::empty(), "--- TOP 10 BY MEMORY ---"@]
                + process_lines(by_mem) + seq![Seq::<char>::empty(), "================================================================================"@]
        };
    let n = summary_lines(s).len() as int;
    let k = by_cpu.len() as int;
    lemma_top_falls(all, cpu_ranks(all), by_cpu);
    lemma_top_falls(all, mem_ranks(all), by_mem);
    let a = choose|a: Seq<int>| #[trigger] placed_by(all, cpu_ranks(all), by_cpu, a);
    let b = choose|b: Seq<int>| #[trigger] placed_by(all, mem_ranks(all), by_mem, b);
    assert forall|i: int, j: int| 0 <= i < j < k implies (#[trigger] by_cpu[i]).cpu_percent.rank >= (
    #[trigger] by_cpu[j]).cpu_percent.rank by {
        assert(cpu_ranks(all)[a[i]] >= cpu_ranks(all)[a[j]]);
    }
    assert forall|i: int, j: int| 0 <= i < j < k implies (#[trigger] by_mem[i]).mem_percent.rank >= (
    #[trigger] by_mem[j]).mem_percent.rank by {
        assert(mem_ranks(all)[b[i]] >= mem_ranks(all)[b[j]]);
    }
    assert(l.take(n) =~= summary_lines(s));
    assert(l.subrange(n + 2, n + 2 + k) =~= process_lines(by_cpu));
    assert(l.subrange(n + k + 4, n + k + 4 + k) =~= process_lines(by_mem));
}

/// The processes of a list stand at `at`, in falling order of their ranks.
spec fn placed_by(
    all: Seq<ProcessInfo>,
    ranks: Seq<i32>,
    top: Seq<ProcessInfo>,
    at: Seq<int>,
) -> bool {
    &&& at.len() == top.len()
    &&& forall|i: int| 0 <= i < top.len() ==> 0 <= #[trigger] at[i] < all.len() && top[i] == all[at[i]]
    &&& forall|i: int, j: int|
        0 <= i < j < top.len() ==> ranks[#[trigger] at[i]] >= ranks[#[trigger] at[j]]
}

proof fn lemma_top_falls(all: Seq<ProcessInfo>, ranks: Seq<i32>, top: Seq<ProcessInfo>)
    requires
        ranks.len() == all.len(),
        is_top(all, ranks, 10, top),
    ensures
        top.len() == (if all.len() < 10 {
            all.len() as int
        } else {
            10
        }),
        exists|at: Seq<int>| #[trigger] placed_by(all, ranks, top, at),
{
    let order = choose|order: Seq<usize>|
        #![trigger is_ranking(ranks, order)]
        is_ranking(ranks, order) && top == Seq::new(
            (if 10 < all.len() {
                10
            } else {
                all.len() as int
            }) as nat,
            |i: int| all[order[i] as int],
        );
    let at = Seq::new(top.len(), |i: int| order[i] as int);
    assert forall|i: int| 0 <= i < top.len() implies 0 <= #[trigger] at[i] < all.len() && top[i]
        == all[at[i]] by {
        assert(order[i] < ranks.len());
    }
    assert forall|i: int, j: int| 0 <= i < j < top.len() implies ranks[#[trigger] at[i]] >= ranks[
    #[trigger] at[j]] by {
        assert(ranks_before(ranks, order[i] as int, order[j] as int));
    }
    assert(placed_by(all, ranks, top, at));
}

} // verus!
