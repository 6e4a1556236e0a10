//! The events and the property by which the evaluation is timed.
use vstd::prelude::*;
use vstd::string::*;

use super::eval;
use super::eval::Verdict;
use super::laws;
use super::property;
use super::property::Op;
use super::property::Predicate;
use super::property::PropertySpec;
use super::property::Quantifier;
use crate::json;
use crate::json::Value;
use crate::text;
use crate::wal::WalEvent;
use crate::wal::WalEventType;

verus! {

broadcast use vstd::string::group_string_axioms;

/// The time of the first event.
pub const FIRST_TS: u64 = 1_700_000_000;

/// `e` is event number `i` of the benchmark: the start of a job of its own, with nothing else said.
pub open spec fn is_bench_event(e: WalEvent, i: int) -> bool {
    &&& e.seq == i
    &&& e.ts == (FIRST_TS + i) % 0x1_0000_0000_0000_0000
    &&& e.event_type == WalEventType::JobStarted
    &&& e.job_id@ == "bench-job-"@ + text::decimal(i as nat)
    &&& e.capability matches Some(c) && c@ == "FileRead"@
    &&& (WalEvent { capability: None, ..e }).bare()
}

/// Makes `n` events, numbered from 0 and each a second after the one before.
pub fn make_events(n: usize) -> (r: Vec<WalEvent>)
    ensures
        r@.len() == n,
        forall|i: int| 0 <= i < n ==> is_bench_event(#[trigger] r@[i], i),
{
    let mut r: Vec<WalEvent> = Vec::new();
    for i in 0..n
        invariant
            r@.len() == i,
            forall|j: int| 0 <= j < i ==> is_bench_event(#[trigger] r@[j], j),
    {
        let mut event = WalEvent::default();
        let mut job_id = "bench-job-".to_owned();
        job_id.append(text::decimal_text(i as u64).as_str());
        event.seq = i as u64;
        event.ts = FIRST_TS.wrapping_add(i as u64);
        event.job_id = job_id;
        event.capability = Some("FileRead".to_owned());
        r.push(event);
    }
    r
}

/// The property of the benchmark: every event starts a job.
pub open spec fn is_bench_spec(s: PropertySpec) -> bool {
    &&& s.name@ == "bench-spec"@
    &&& property::tests(s.predicates@) == seq![
        property::Test {
            field: "event_type"@,
            op: Op::Eq,
            value: json::Json::Text("job_started"@),
        },
    ]
    &&& laws::is_plain(s)
}

/// The property of the benchmark.
pub fn bench_spec() -> (r: PropertySpec)
    ensures
        is_bench_spec(r),
{
    let predicates = vec![
        Predicate {
            field: "event_type".to_owned(),
            op: Op::Eq,
            value: Value::from_text("job_started"),
        },
    ];
    assert(property::tests(predicates@) =~= seq![
        property::Test {
            field: "event_type"@,
            op: Op::Eq,
            value: json::Json::Text("job_started"@),
        },
    ]);
    PropertySpec {
        name: "bench-spec".to_owned(),
        predicates,
        select: Vec::new(),
        quantifier: Quantifier::All,
        version: None,
    }
}

/// The events of the benchmark have its property, however many they are.
pub proof fn law_benchmark_is_satisfied(events: Seq<WalEvent>, spec: PropertySpec)
    requires
        forall|i: int| 0 <= i < events.len() ==> is_bench_event(#[trigger] events[i], i),
        is_bench_spec(spec),
    ensures
        eval::finding(events, spec).verdict == Verdict::Satisfied,
{
    laws::law_plain_means_all(events, spec);
    assert forall|i: int| 0 <= i < events.len() implies eval::passes(
        eval::event_row(#[trigger] events[i]),
        property::tests(spec.predicates@),
    ) by {
        assert(is_bench_event(events[i], i));
        json::lemma_same_json_reflexive(json::Json::Text("job_started"@));
    }
}


/// The events of the benchmark are numbered from 0, each a start of its own job.
pub proof fn law_bench_events(n: usize, r: Vec<WalEvent>, i: int)
    requires
        call_ensures(make_events, (n,), r),
    ensures
        r@.len() == n,
        0 <= i < n ==> r@[i].seq == i && r@[i].event_type == WalEventType::JobStarted
            && r@[i].job_id@ == "bench-job-"@ + text::decimal(i as nat) && r@[i].capability is Some
            && (r@[i].capability->0)@ == "FileRead"@,
        0 <= i < n && FIRST_TS + i < 0x1_0000_0000_0000_0000 ==> r@[i].ts == FIRST_TS + i,
{
    if 0 <= i < n {
        assert(is_bench_event(r@[i], i));
    }
}

} // verus!
