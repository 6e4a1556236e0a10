//! How much observation the machine bears: the pressure of the last while, and a pause between
//! checks that outlives a restart.
use vstd::prelude::*;
use vstd::string::*;

use crate::text;
use crate::utils;

verus! {

broadcast use vstd::string::group_string_axioms;

/// A pressure in percent, at a time in nanoseconds.
#[derive(Debug, Clone, Copy, PartialEq, Eq, Structural)]
pub struct Measurement {
    pub at_ns: u64,
    pub pressure: u8,
}

/// A mean: a sum and how many it is made of.
#[derive(Debug, Clone, Copy, PartialEq, Eq, Structural)]
pub struct Mean {
    pub sum: u64,
    pub count: u64,
}

/// The sum of the pressures.
pub open spec fn total(m: Seq<Measurement>) -> nat
    decreases m.len(),
{
    if m.len() == 0 {
        0
    } else {
        total(m.drop_last()) + m.last().pressure as nat
    }
}

/// The measurements after a point in time.
pub open spec fn since(m: Seq<Measurement>, cutoff: int) -> Seq<Measurement>
    decreases m.len(),
{
    if m.len() == 0 {
        m
    } else if m.last().at_ns > cutoff {
        since(m.drop_last(), cutoff).push(m.last())
    } else {
        since(m.drop_last(), cutoff)
    }
}

/// Nanoseconds of a second.
pub open spec fn second() -> int {
    1_000_000_000
}

/// The time so many seconds ago, or now where the clock does not go back that far.
pub open spec fn ago(now_ns: int, secs: int) -> int {
    if now_ns >= secs * second() {
        now_ns - secs * second()
    } else {
        now_ns
    }
}

fn time_ago(now_ns: u64, secs: u64) -> (r: u64)
    ensures
        r == ago(now_ns as int, secs as int),
{
    if now_ns as u128 >= secs as u128 * 1_000_000_000 {
        now_ns - secs * 1_000_000_000
    } else {
        now_ns
    }
}

proof fn lemma_total_bound(m: Seq<Measurement>)
    ensures
        total(m) <= 255 * m.len(),
    decreases m.len(),
{
    if m.len() > 0 {
        lemma_total_bound(m.drop_last());
    }
}

proof fn lemma_since_shorter(m: Seq<Measurement>, cutoff: int)
    ensures
        since(m, cutoff).len() <= m.len(),
    decreases m.len(),
{
    if m.len() > 0 {
        lemma_since_shorter(m.drop_last(), cutoff);
    }
}

/// Where the last check was, by the text that was kept of it: a time in seconds that is not yet
/// past the pause.
pub open spec fn restored(
    content: Option<String>,
    cooldown_secs: u64,
    now_secs: u64,
    now_ns: u64,
) -> Option<int> {
    match content {
        Some(c) => match text::parsed(text::trimmed(c@), 10, u64::MAX as int) {
            Some(secs) => {
                let elapsed = if now_secs >= secs {
                    now_secs - secs
                } else {
                    0
                };
                if elapsed < cooldown_secs {
                    Some(ago(now_ns as int, elapsed))
                } else {
                    None
                }
            },
            None => None,
        },
        None => None,
    }
}

/// What is left of a pause at a time.
pub open spec fn paused(last_check: Option<int>, cooldown_secs: u64, now_ns: u64) -> bool {
    match last_check {
        Some(last) => (if now_ns >= last {
            now_ns - last
        } else {
            0
        }) < cooldown_secs * second(),
        None => false,
    }
}

/// The pressure of the last while.
#[derive(Debug)]
pub struct ObserveBudget {
    measurements: Vec<Measurement>,
    window_secs: u64,
    cooldown_secs: u64,
    last_check_ns: Option<u64>,
    persist_path: Option<String>,
}

impl ObserveBudget {
    /// The measurements that are kept.
    pub closed spec fn kept(self) -> Seq<Measurement> {
        self.measurements@
    }

    /// How far back measurements count, in seconds.
    pub closed spec fn window(self) -> u64 {
        self.window_secs
    }

    /// The pause between checks, in seconds.
    pub closed spec fn pause(self) -> u64 {
        self.cooldown_secs
    }

    /// When the last check was.
    pub closed spec fn last(self) -> Option<int> {
        match self.last_check_ns {
            Some(t) => Some(t as int),
            None => None,
        }
    }

    /// Where the time of the last check is kept.
    pub closed spec fn place(self) -> Option<String> {
        self.persist_path
    }

    /// A budget whose checks are kept where the environment says. `content` is what stands there.
    pub fn new(
        window_secs: u64,
        cooldown_secs: u64,
        state_dir: &Option<String>,
        home: &Option<String>,
        content: &Option<String>,
        now_secs: u64,
        now_ns: u64,
    ) -> (r: ObserveBudget)
        ensures
            r.kept().len() == 0,
            r.window() == window_secs,
            r.pause() == cooldown_secs,
            match r.place() {
                Some(p) => budget_place(*state_dir, *home) == Some(p@),
                None => budget_place(*state_dir, *home) is None,
            },
            r.place() is Some ==> r.last() == restored(*content, cooldown_secs, now_secs, now_ns),
            r.place() is None ==> r.last() is None,
    {
        let path = observe_budget_path(state_dir, home);
        ObserveBudget::new_with_path(window_secs, cooldown_secs, path, content, now_secs, now_ns)
    }

    /// A budget whose checks are kept at a path, or nowhere. `content` is what stands there.
    pub fn new_with_path(
        window_secs: u64,
        cooldown_secs: u64,
        persist_path: Option<String>,
        content: &Option<String>,
        now_secs: u64,
        now_ns: u64,
    ) -> (r: ObserveBudget)
        ensures
            r.kept().len() == 0,
            r.window() == window_secs,
            r.pause() == cooldown_secs,
            r.place() == persist_path,
            persist_path is Some ==> r.last() == restored(
                *content,
                cooldown_secs,
                now_secs,
                now_ns,
            ),
            persist_path is None ==> r.last() is None,
    {
        let last_check_ns = if persist_path.is_some() {
            ObserveBudget::restore_last_check(content, cooldown_secs, now_secs, now_ns)
        } else {
            None
        };
        ObserveBudget {
            measurements: Vec::new(),
            window_secs,
            cooldown_secs,
            last_check_ns,
            persist_path,
        }
    }

    /// A budget over 30 seconds with a pause of one.
    pub fn default_budget(
        state_dir: &Option<String>,
        home: &Option<String>,
        content: &Option<String>,
        now_secs: u64,
        now_ns: u64,
    ) -> (r: ObserveBudget)
        ensures
            r.kept().len() == 0,
            r.window() == 30,
            r.pause() == 1,
            match r.place() {
                Some(p) => budget_place(*state_dir, *home) == Some(p@),
                None => budget_place(*state_dir, *home) is None,
            },
            r.place() is Some ==> r.last() == restored(*content, 1, now_secs, now_ns),
            r.place() is None ==> r.last() is None,
    {
        ObserveBudget::new(30, 1, state_dir, home, content, now_secs, now_ns)
    }

    fn restore_last_check(
        content: &Option<String>,
        cooldown_secs: u64,
        now_secs: u64,
        now_ns: u64,
    ) -> (r: Option<u64>)
        ensures
            match r {
                Some(t) => restored(*content, cooldown_secs, now_secs, now_ns) == Some(t as int),
                None => restored(*content, cooldown_secs, now_secs, now_ns) is None,
            },
    {
        match content {
            Some(c) => {
                let trimmed = text::trim(c.as_str());
                match text::parse_number(trimmed.as_str(), 10, u64::MAX) {
                    Some(secs) => {
                        let elapsed: u64 = if now_secs >= secs {
                            now_secs - secs
                        } else {
                            0
                        };
                        if elapsed < cooldown_secs {
                            Some(time_ago(now_ns, elapsed))
                        } else {
                            None
                        }
                    },
                    None => None,
                }
            },
            None => None,
        }
    }

    /// Records a pressure. What is older than the window is forgotten. Gives the mean.
    pub fn record(&mut self, pressure: u8, now_ns: u64) -> (r: Mean)
        requires
            old(self).kept().len() < 0x80_0000_0000_0000,
        ensures
            final(self).kept() == since(
                old(self).kept(),
                ago(now_ns as int, old(self).window() as int),
            ).push(Measurement { at_ns: now_ns, pressure }),
            final(self).window() == old(self).window(),
            final(self).pause() == old(self).pause(),
            final(self).last() == old(self).last(),
            final(self).place() == old(self).place(),
            r.sum == total(final(self).kept()),
            r.count == final(self).kept().len(),
    {
        let cutoff = time_ago(now_ns, self.window_secs);
        let ghost before = self.measurements@;
        let mut recent: Vec<Measurement> = Vec::new();
        assert(before.take(0) =~= Seq::<Measurement>::empty());
        for i in 0..self.measurements.len()
            invariant
                self.measurements@ == before,
                recent@ == since(before.take(i as int), cutoff as int),
        {
            assert(before.take(i + 1).drop_last() =~= before.take(i as int));
            let m = self.measurements[i];
            if m.at_ns > cutoff {
                recent.push(m);
            }
        }
        proof {
            assert(before.take(before.len() as int) =~= before);
            lemma_since_shorter(before, cutoff as int);
        }
        recent.push(Measurement { at_ns: now_ns, pressure });
        self.measurements = recent;
        self.mean()
    }

    fn mean(&self) -> (r: Mean)
        requires
            self.kept().len() <= 0x80_0000_0000_0000,
        ensures
            r.sum == total(self.kept()),
            r.count == self.kept().len(),
    {
        let ghost all = self.measurements@;
        let mut sum: u64 = 0;
        assert(all.take(0) =~= Seq::<Measurement>::empty());
        for i in 0..self.measurements.len()
            invariant
                self.measurements@ == all,
                all.len() <= 0x80_0000_0000_0000,
                sum == total(all.take(i as int)),
        {
            proof {
                assert(all.take(i + 1).drop_last() =~= all.take(i as int));
                lemma_total_bound(all.take(i as int));
            }
            sum = sum + self.measurements[i].pressure as u64;
        }
        assert(all.take(all.len() as int) =~= all);
        Mean { sum, count: self.measurements.len() as u64 }
    }

    /// How many measurements are kept.
    pub fn measured(&self) -> (r: usize)
        ensures
            r == self.kept().len(),
    {
        self.measurements.len()
    }

    /// The mean of what is kept.
    pub fn rolling_average(&self) -> (r: Option<Mean>)
        requires
            self.kept().len() <= 0x80_0000_0000_0000,
        ensures
            r is None <==> self.kept().len() == 0,
            r matches Some(m) ==> m.sum == total(self.kept()) && m.count == self.kept().len(),
    {
        if self.measurements.len() == 0 {
            None
        } else {
            Some(self.mean())
        }
    }

    /// Whether the pause since the last check is not over.
    pub fn is_in_cooldown(&self, now_ns: u64) -> (r: bool)
        ensures
            r == paused(self.last(), self.pause(), now_ns),
    {
        match self.last_check_ns {
            Some(last) => {
                let elapsed: u64 = if now_ns >= last {
                    now_ns - last
                } else {
                    0
                };
                (elapsed as u128) < self.cooldown_secs as u128 * 1_000_000_000
            },
            None => false,
        }
    }

    /// Notes a check. Gives the path and the text to be kept there.
    pub fn mark_checked(&mut self, now_secs: u64, now_ns: u64) -> (r: Option<(String, String)>)
        ensures
            final(self).last() == Some(now_ns as int),
            final(self).kept() == old(self).kept(),
            final(self).window() == old(self).window(),
            final(self).pause() == old(self).pause(),
            final(self).place() == old(self).place(),
            match r {
                Some(w) => old(self).place() == Some(w.0) && w.1@ == text::decimal(now_secs as nat),
                None => old(self).place() is None,
            },
    {
        self.last_check_ns = Some(now_ns);
        match &self.persist_path {
            Some(p) => Some((p.clone(), text::decimal_text(now_secs))),
            None => None,
        }
    }

    /// Where the time of the last check is kept.
    pub fn persist_path(&self) -> (r: Option<&String>)
        ensures
            match r {
                Some(p) => self.place() == Some(*p),
                None => self.place() is None,
            },
    {
        match &self.persist_path {
            Some(p) => Some(p),
            None => None,
        }
    }

    /// The pressure, or its mean over the window, is above 80.
    pub open spec fn strained(self, pressure: u8) -> bool {
        pressure > 80 || total(self.kept()) > 80 * self.kept().len()
    }

    /// Whether to stop observing for the while, because the pressure or its mean is above 80.
    pub fn should_suspend(&self, pressure: u8) -> (r: bool)
        requires
            self.kept().len() <= 0x80_0000_0000_0000,
        ensures
            r == self.strained(pressure),
    {
        if pressure > 80 {
            return true;
        }
        match self.rolling_average() {
            Some(m) => m.sum > 80 * m.count,
            None => false,
        }
    }
}

/// Where the time of the last check is kept, by `RUNTIMO_STATE_DIR` or else `HOME`.
pub open spec fn budget_place(state_dir: Option<String>, home: Option<String>) -> Option<Seq<char>> {
    let base = match state_dir {
        Some(d) => Some(d@),
        None => match home {
            Some(h) => Some(h@),
            None => None,
        },
    };
    match base {
        Some(b) => Some(utils::below(utils::below(b, ".runtimo"@), "observe_budget.state"@)),
        None => None,
    }
}

/// Where the time of the last check is kept, by `RUNTIMO_STATE_DIR` or else `HOME`.
pub fn observe_budget_path(state_dir: &Option<String>, home: &Option<String>) -> (r: Option<String>)
    ensures
        match r {
            Some(p) => budget_place(*state_dir, *home) == Some(p@),
            None => budget_place(*state_dir, *home) is None,
        },
{
    let base = match state_dir {
        Some(d) => d,
        None => match home {
            Some(h) => h,
            None => {
                return None;
            },
        },
    };
    Some(utils::join(utils::join(base.as_str(), ".runtimo").as_str(), "observe_budget.state"))
}

/// A restart does not end a pause: what is written down at a check and read back before the pause
/// is over has the pause go on.
pub proof fn law_restart_keeps_pause(
    content: String,
    checked_secs: u64,
    cooldown_secs: u64,
    now_secs: u64,
    now_ns: u64,
)
    requires
        content@ == text::decimal(checked_secs as nat),
        now_secs >= checked_secs,
        now_secs - checked_secs < cooldown_secs,
    ensures
        paused(restored(Some(content), cooldown_secs, now_secs, now_ns), cooldown_secs, now_ns),
{
    text::lemma_decimal_is_trimmed(checked_secs as nat);
    text::lemma_decimal_reads_back(checked_secs as nat, u64::MAX as int);
}

/// A pause that is over is over after a restart too.
pub proof fn law_restart_ends_pause(
    content: String,
    checked_secs: u64,
    cooldown_secs: u64,
    now_secs: u64,
    now_ns: u64,
)
    requires
        content@ == text::decimal(checked_secs as nat),
        now_secs >= checked_secs,
        now_secs - checked_secs >= cooldown_secs,
    ensures
        !paused(restored(Some(content), cooldown_secs, now_secs, now_ns), cooldown_secs, now_ns),
{
    text::lemma_decimal_is_trimmed(checked_secs as nat);
    text::lemma_decimal_reads_back(checked_secs as nat, u64::MAX as int);
}


/// The pressures of two stretches add up, and one counts as it is.
pub proof fn law_totals(a: Seq<Measurement>, b: Seq<Measurement>, m: Measurement)
    ensures
        total(a + b) == total(a) + total(b),
        total(seq![m]) == m.pressure,
        total(Seq::empty()) == 0,
    decreases b.len(),
{
    assert(seq![m].drop_last() =~= Seq::<Measurement>::empty());
    assert(total(seq![m].drop_last()) == 0);
    if b.len() == 0 {
        assert(a + b =~= a);
    } else {
        law_totals(a, b.drop_last(), m);
        assert((a + b).drop_last() =~= a + b.drop_last());
        assert((a + b).last() == b.last());
    }
}

/// Of two stretches those measurements stay that are later than a moment, in order.
pub proof fn law_since(a: Seq<Measurement>, b: Seq<Measurement>, m: Measurement, cutoff: int)
    ensures
        since(a + b, cutoff) == since(a, cutoff) + since(b, cutoff),
        m.at_ns > cutoff ==> since(seq![m], cutoff) == seq![m],
        m.at_ns <= cutoff ==> since(seq![m], cutoff) == Seq::<Measurement>::empty(),
        since(Seq::empty(), cutoff) == Seq::<Measurement>::empty(),
    decreases b.len(),
{
    assert(seq![m].drop_last() =~= Seq::<Measurement>::empty());
    assert(since(seq![m].drop_last(), cutoff) =~= Seq::<Measurement>::empty());
    assert(Seq::<Measurement>::empty().push(m) =~= seq![m]);
    if b.len() == 0 {
        assert(a + b =~= a);
        assert(since(a, cutoff) + since(b, cutoff) =~= since(a, cutoff));
    } else {
        law_since(a, b.drop_last(), m, cutoff);
        assert((a + b).drop_last() =~= a + b.drop_last());
        assert((a + b).last() == b.last());
        assert(since(a, cutoff) + since(b.drop_last(), cutoff).push(b.last()) =~= (since(a, cutoff)
            + since(b.drop_last(), cutoff)).push(b.last()));
    }
}

/// A moment some seconds ago lies so many seconds back, or is now where the clock has not run so
/// long.
pub proof fn law_ago(now_ns: int, secs: int)
    ensures
        now_ns >= secs * 1_000_000_000 ==> ago(now_ns, secs) == now_ns - secs * 1_000_000_000,
        now_ns < secs * 1_000_000_000 ==> ago(now_ns, secs) == now_ns,
{
}

/// To record a pressure is to drop what is older than the window and to add the pressure at the
/// end; the mean is that of what is then kept.
pub proof fn law_recorded(
    before: ObserveBudget,
    after: ObserveBudget,
    pressure: u8,
    now_ns: u64,
    r: Mean,
)
    requires
        exists|b: &mut ObserveBudget|
            *b == before && *final(b) == after && #[trigger] call_ensures(
                ObserveBudget::record,
                (b, pressure, now_ns),
                r,
            ),
    ensures
        after.kept().len() > 0,
        after.kept().last().pressure == pressure,
        after.kept().last().at_ns == now_ns,
        now_ns >= before.window() * 1_000_000_000 ==> after.kept().drop_last() == since(
            before.kept(),
            now_ns - before.window() * 1_000_000_000,
        ),
        now_ns < before.window() * 1_000_000_000 ==> after.kept().drop_last() == since(
            before.kept(),
            now_ns as int,
        ),
        r.sum == total(after.kept()),
        r.count == after.kept().len(),
        after.window() == before.window(),
        after.pause() == before.pause(),
        after.last() == before.last(),
        after.place() == before.place(),
{
    let kept = since(before.kept(), ago(now_ns as int, before.window() as int));
    assert(after.kept() == kept.push(Measurement { at_ns: now_ns, pressure }));
    assert(after.kept().drop_last() =~= kept);
}

/// A pause lasts from a check for its number of seconds, and one of no seconds does not last at
/// all. Without a check there is none.
pub proof fn law_pause(last: Option<int>, pause: u64, now_ns: u64)
    ensures
        last is None ==> !paused(last, pause, now_ns),
        last is Some && pause > 0 ==> (paused(last, pause, now_ns) <==> now_ns < last->0 + pause
            * 1_000_000_000),
        pause == 0 ==> !paused(last, pause, now_ns),
{
}

/// A check is written down under the place that is kept, as the seconds of the clock, and the pause
/// runs from it.
pub proof fn law_checked(
    before: ObserveBudget,
    after: ObserveBudget,
    now_secs: u64,
    now_ns: u64,
    r: Option<(String, String)>,
)
    requires
        exists|b: &mut ObserveBudget|
            *b == before && *final(b) == after && #[trigger] call_ensures(
                ObserveBudget::mark_checked,
                (b, now_secs, now_ns),
                r,
            ),
    ensures
        after.last() == Some(now_ns as int),
        after.kept() == before.kept(),
        after.window() == before.window(),
        after.pause() == before.pause(),
        after.place() == before.place(),
        r is Some <==> before.place() is Some,
        r is Some ==> (r->0).0 == before.place()->0 && (r->0).1@ == text::decimal(now_secs as nat),
{
}

/// Observation is suspended exactly over 80 percent: of the pressure now, or of the mean of the
/// pressures in the window.
pub proof fn law_suspension(b: ObserveBudget, pressure: u8, r: bool)
    requires
        call_ensures(ObserveBudget::should_suspend, (&b, pressure), r),
    ensures
        r <==> pressure > 80 || total(b.kept()) > 80 * b.kept().len(),
        b.kept().len() == 0 ==> (r <==> pressure > 80),
{
}

/// The time of the last check is kept below the directory of the state where one is set, else below
/// the home directory, and nowhere where neither is known.
pub proof fn law_budget_place(state_dir: Option<String>, home: Option<String>)
    ensures
        state_dir is Some ==> budget_place(state_dir, home) == Some(
            utils::below(utils::below((state_dir->0)@, ".runtimo"@), "observe_budget.state"@),
        ),
        state_dir is None && home is Some ==> budget_place(state_dir, home) == Some(
            utils::below(utils::below((home->0)@, ".runtimo"@), "observe_budget.state"@),
        ),
        state_dir is None && home is None ==> budget_place(state_dir, home) is None,
{
}

/// A budget by default looks back thirty seconds and pauses for one.
pub proof fn law_default_budget(
    state_dir: Option<String>,
    home: Option<String>,
    content: Option<String>,
    now_secs: u64,
    now_ns: u64,
    r: ObserveBudget,
)
    requires
        call_ensures(
            ObserveBudget::default_budget,
            (&state_dir, &home, &content, now_secs, now_ns),
            r,
        ),
    ensures
        r.window() == 30,
        r.pause() == 1,
        r.kept().len() == 0,
        r.place() is Some <==> state_dir is Some || home is Some,
        content is None ==> r.last() is None,
{
}

/// What was written down is held against the clock of now: a check that lies in the future counts
/// as just made, and what is no number counts as no check.
pub proof fn law_restored(content: String, secs: nat, pause: u64, now_secs: u64, now_ns: u64)
    requires
        content@ == text::decimal(secs),
    ensures
        secs > u64::MAX ==> restored(Some(content), pause, now_secs, now_ns) is None,
        secs <= u64::MAX && now_secs >= secs && now_secs - secs < pause ==> restored(
            Some(content),
            pause,
            now_secs,
            now_ns,
        ) == Some(ago(now_ns as int, now_secs - secs)),
        secs <= u64::MAX && now_secs >= secs && now_secs - secs >= pause ==> restored(
            Some(content),
            pause,
            now_secs,
            now_ns,
        ) is None,
        secs <= u64::MAX && now_secs < secs && pause > 0 ==> restored(
            Some(content),
            pause,
            now_secs,
            now_ns,
        ) == Some(now_ns as int),
        restored(None, pause, now_secs, now_ns) is None,
{
    text::lemma_decimal_is_trimmed(secs);
    text::law_decimal(secs, u64::MAX as int);
}

} // verus!
